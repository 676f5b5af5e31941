use vstd::prelude::*;
use vstd::multiset::Multiset;
use vstd::seq_lib::{to_multiset_build, to_multiset_insert};
use crate::frontmatter::{validated, FrontMatter, FrontMatterView, RawFrontMatter, Timestamp};
use crate::post::markdown::FormatResponse;
use crate::text::{chars_of, join3, matches_at, occurs_at, opt_view, string_of};

pub mod blocks;
pub mod inline;
pub mod katex;
pub mod markdown;
pub mod plantuml;
pub mod process;
pub mod pygments;
pub mod tree;

verus! {

/// A published document.
#[derive(Debug)]
pub struct Post {
    pub front: FrontMatter,
    /// Where the document came from.
    pub source: String,
    /// The path of its page.
    pub url: String,
    /// The markdown text below the header.
    pub contents: String,
}

/// A `Post` as mathematical values.
pub struct PostView {
    pub front: FrontMatterView,
    pub source: Seq<char>,
    pub url: Seq<char>,
    pub contents: Seq<char>,
}

impl View for Post {
    type V = PostView;

    open spec fn view(&self) -> PostView {
        PostView {
            front: self.front@,
            source: self.source@,
            url: self.url@,
            contents: self.contents@,
        }
    }
}

/// What the page template is filled with.
#[derive(Debug)]
pub struct Page {
    pub title: String,
    pub front: FrontMatter,
    pub content: String,
    pub include_katex_css: bool,
    pub style: String,
    pub katex_style: String,
}

/// A text cut into header and body.
pub struct Framed {
    /// The text between the two delimiter lines, where there are both.
    pub front: Option<Seq<char>>,
    /// The text after the header, or the whole text where there is none.
    pub contents: Seq<char>,
}

/// The delimiter line with a bare line feed.
pub open spec fn lf_delimiter() -> Seq<char> {
    "---\n"@
}

/// The delimiter line with carriage return and line feed.
pub open spec fn crlf_delimiter() -> Seq<char> {
    "---\r\n"@
}

/// Whether position `at` of `s` is the start of a line.
pub open spec fn line_start(s: Seq<char>, at: int) -> bool {
    at == 0 || (0 < at <= s.len() && s[at - 1] == '\n')
}

/// The first position at or after `from` where the delimiter line stands in
/// `rest`.
pub open spec fn closing(rest: Seq<char>, delimiter: Seq<char>, from: nat) -> Option<nat>
    decreases rest.len() - from,
{
    if from >= rest.len() || from + delimiter.len() > rest.len() {
        None
    } else if line_start(rest, from as int) && occurs_at(rest, from as int, delimiter) {
        Some(from)
    } else {
        closing(rest, delimiter, from + 1)
    }
}

/// `src`, which begins with `delimiter`, cut at the next delimiter line.
/// Without one the whole text is body.
pub open spec fn framed_by(src: Seq<char>, delimiter: Seq<char>) -> Framed {
    let rest = src.skip(delimiter.len() as int);
    match closing(rest, delimiter, 0) {
        Some(end) => Framed {
            front: Some(rest.take(end as int)),
            contents: rest.skip((end + delimiter.len()) as int),
        },
        None => Framed { front: None, contents: src },
    }
}

/// `src` cut into header and body. A header stands between a delimiter line
/// at the very start of the text and the next delimiter line with the same
/// line ending. A text that does not begin with a delimiter line, or that
/// has no second one, is all body.
pub open spec fn framed(src: Seq<char>) -> Framed {
    if occurs_at(src, 0, lf_delimiter()) {
        framed_by(src, lf_delimiter())
    } else if occurs_at(src, 0, crlf_delimiter()) {
        framed_by(src, crlf_delimiter())
    } else {
        Framed { front: None, contents: src }
    }
}

/// The page path of the document with the given slug.
pub open spec fn url_of(slug: Seq<char>) -> Seq<char> {
    "/posts/"@ + slug + "/"@
}

/// The first position at or after `from` where the delimiter line stands.
fn find_closing(rest: &Vec<char>, delimiter: &Vec<char>, from: usize) -> (r: Option<usize>)
    ensures
        match r {
            Some(end) => closing(rest@, delimiter@, from as nat) == Some(end as nat) && end
                + delimiter@.len() <= rest@.len(),
            None => closing(rest@, delimiter@, from as nat) is None,
        },
{
    let mut at: usize = from;
    while at < rest.len() && delimiter.len() <= rest.len() - at
        invariant
            closing(rest@, delimiter@, at as nat) == closing(rest@, delimiter@, from as nat),
        decreases rest@.len() - at,
    {
        let starts = at == 0 || rest[at - 1] == '\n';
        if starts && matches_at(rest, at, delimiter) {
            return Some(at);
        }
        at += 1;
    }
    None
}

/// `src`, which begins with `delimiter`, cut at the next delimiter line.
fn frame_by(src: &str, chars: &Vec<char>, delimiter: &Vec<char>) -> (r: (Option<String>, String))
    requires
        chars@ == src@,
        occurs_at(src@, 0, delimiter@),
    ensures
        opt_view(r.0) == framed_by(src@, delimiter@).front,
        r.1@ == framed_by(src@, delimiter@).contents,
{
    let n = delimiter.len();
    let mut rest: Vec<char> = Vec::new();
    let mut i: usize = n;
    while i < chars.len()
        invariant
            n <= i <= chars@.len(),
            rest@ == chars@.subrange(n as int, i as int),
        decreases chars@.len() - i,
    {
        rest.push(chars[i]);
        i += 1;
    }
    assert(rest@ == src@.skip(n as int));
    match find_closing(&rest, delimiter, 0) {
        Some(end) => {
            let front = string_of(&rest, 0, end);
            let contents = string_of(&rest, end + n, rest.len());
            (Some(front), contents)
        },
        None => (None, src.to_owned()),
    }
}

impl Post {
    /// Cuts the text of a document into header and body. The result is the
    /// text of the header, where there is one, and the body.
    pub fn extract_frontmatter(src: &str) -> (r: (Option<String>, String))
        ensures
            opt_view(r.0) == framed(src@).front,
            r.1@ == framed(src@).contents,
            !occurs_at(src@, 0, lf_delimiter()) && !occurs_at(src@, 0, crlf_delimiter()) ==> r.0
                is None && r.1@ == src@,
    {
        let chars = chars_of(src);
        let lf = chars_of("---\n");
        let crlf = chars_of("---\r\n");
        if matches_at(&chars, 0, &lf) {
            frame_by(src, &chars, &lf)
        } else if matches_at(&chars, 0, &crlf) {
            frame_by(src, &chars, &crlf)
        } else {
            (None, src.to_owned())
        }
    }

    /// Makes the document that the header `raw` and the body `contents`
    /// describe, found at `source`. There is one exactly when the header is
    /// that of a published document; its page lies at `/posts/<slug>/`.
    pub fn load(source: &str, raw: RawFrontMatter, contents: String) -> (r: Option<Post>)
        ensures
            match validated(raw@) {
                Some(front) => r matches Some(post) && post@ == (PostView {
                    front,
                    source: source@,
                    url: url_of(front.slug),
                    contents: contents@,
                }),
                None => r is None,
            },
    {
        match FrontMatter::from_raw(raw) {
            Some(front) => {
                let url = join3("/posts/", front.slug.as_str(), "/");
                Some(Post { front, source: source.to_owned(), url, contents })
            },
            None => None,
        }
    }

    /// What the page template is filled with for this document, once its
    /// body is transformed.
    pub fn render(&self, style: &str, katex_style: &str, formatted: FormatResponse) -> (r: Page)
        ensures
            r.title@ == self.front.title@,
            r.front@ == self.front@,
            r.content@ == formatted.output@,
            r.include_katex_css == formatted.include_katex_css,
            r.style@ == style@,
            r.katex_style@ == katex_style@,
    {
        let FormatResponse { output, include_katex_css } = formatted;
        Page {
            title: self.front.title.clone(),
            front: self.front.duplicate(),
            content: output,
            include_katex_css,
            style: style.to_owned(),
            katex_style: katex_style.to_owned(),
        }
    }
}

/// Whether a post was published at `date`.
pub open spec fn published_at(date: Timestamp) -> spec_fn(Post) -> bool {
    |p: Post| p.front.date == date
}

/// Whether no post stands before one that was published later.
pub open spec fn newest_first(posts: Seq<Post>) -> bool {
    forall|a: int, b: int|
        0 <= a < b < posts.len() ==> !(#[trigger] posts[b]).front.date.later_than(
            (#[trigger] posts[a]).front.date,
        )
}

/// What a sequence holds of a single post.
proof fn filter_one(x: Post, date: Timestamp)
    ensures
        seq![x].filter(published_at(date)) == (if x.front.date == date {
            seq![x]
        } else {
            Seq::<Post>::empty()
        }),
{
    let none = Seq::<Post>::empty();
    none.lemma_filter_prepend(x, published_at(date));
    assert(seq![x] + none =~= seq![x]);
    assert(none.filter(published_at(date)) =~= none) by {
        none.lemma_filter_len(published_at(date));
    }
    assert(seq![x] + none.filter(published_at(date)) =~= seq![x]);
    assert(none + none.filter(published_at(date)) =~= none);
}

/// Putting `x` before the first post that is not later than it keeps the
/// order, and puts `x` in front of the posts of its own date.
proof fn insert_keeps_order(out: Seq<Post>, at: int, x: Post, date: Timestamp)
    requires
        newest_first(out),
        0 <= at <= out.len(),
        forall|k: int| 0 <= k < at ==> (#[trigger] out[k]).front.date.later_than(x.front.date),
        at < out.len() ==> !out[at].front.date.later_than(x.front.date),
    ensures
        newest_first(out.insert(at, x)),
        out.insert(at, x).filter(published_at(date)) == seq![x].filter(published_at(date))
            + out.filter(published_at(date)),
{
    let pred = published_at(date);
    let head = out.subrange(0, at);
    let tail = out.subrange(at, out.len() as int);
    let grown = out.insert(at, x);
    out.insert_ensures(at, x);
    assert(newest_first(grown)) by {
        assert forall|a: int, b: int| 0 <= a < b < grown.len() implies !(#[trigger] grown[b])
            .front.date.later_than((#[trigger] grown[a]).front.date) by {
            if b < at {
                assert(grown[a] == out[a] && grown[b] == out[b]);
            } else if b == at {
                assert(grown[a] == out[a]);
            } else if a < at {
                assert(grown[a] == out[a] && grown[b] == out[b - 1]);
                if at < b - 1 {
                    assert(!out[b - 1].front.date.later_than(out[at].front.date));
                }
            } else if a == at {
                assert(grown[b] == out[b - 1]);
                if at < b - 1 {
                    assert(!out[b - 1].front.date.later_than(out[at].front.date));
                }
            } else {
                assert(grown[a] == out[a - 1] && grown[b] == out[b - 1]);
            }
        }
    }
    assert(out =~= head + tail);
    assert(grown =~= (head + seq![x]) + tail);
    Seq::filter_distributes_over_add(head, tail, pred);
    Seq::filter_distributes_over_add(head + seq![x], tail, pred);
    Seq::filter_distributes_over_add(head, seq![x], pred);
    filter_one(x, date);
    if x.front.date == date {
        assert(head.all(|e: Post| !pred(e))) by {
            assert forall|k: int| 0 <= k < head.len() implies !pred(#[trigger] head[k]) by {
                assert(head[k] == out[k]);
            }
        }
        head.lemma_all_neg_filter_empty(pred);
        assert(head.filter(pred) =~= Seq::<Post>::empty());
        assert(grown.filter(pred) =~= seq![x] + tail.filter(pred));
        assert(out.filter(pred) =~= tail.filter(pred));
    } else {
        assert(grown.filter(pred) =~= head.filter(pred) + tail.filter(pred));
        assert(seq![x].filter(pred) + out.filter(pred) =~= out.filter(pred));
    }
}

/// Puts the posts in the order of the listing: the same posts, the newest
/// first, and posts of one instant in the order they came in.
pub fn sort_posts(posts: Vec<Post>) -> (r: Vec<Post>)
    ensures
        r@.to_multiset() == posts@.to_multiset(),
        r@.len() == posts@.len(),
        newest_first(r@),
        forall|date: Timestamp| #[trigger]
            r@.filter(published_at(date)) == posts@.filter(published_at(date)),
{
    let ghost all = posts@;
    let mut rest = posts;
    let mut out: Vec<Post> = Vec::new();
    proof {
        assert(all.skip(all.len() as int) =~= Seq::<Post>::empty());
        assert(all.take(all.len() as int) =~= all);
        assert(out@.to_multiset().add(all.to_multiset()) =~= all.to_multiset()) by {
            out@.to_multiset_ensures();
        }
    }
    while rest.len() > 0
        invariant
            all == posts@,
            rest@.len() <= all.len(),
            rest@ == all.take(rest@.len() as int),
            out@.len() + rest@.len() == all.len(),
            out@.to_multiset().add(rest@.to_multiset()) == all.to_multiset(),
            newest_first(out@),
            forall|date: Timestamp| #[trigger]
                out@.filter(published_at(date)) == all.skip(rest@.len() as int).filter(
                    published_at(date),
                ),
        decreases rest@.len(),
    {
        let ghost left = rest@.len();
        let ghost before = out@;
        let ghost unsorted = rest@;
        let x = rest.pop().unwrap();
        assert(x == all[left - 1]);
        let mut at: usize = 0;
        while at < out.len() && out[at].front.date.is_later_than(&x.front.date)
            invariant
                at <= out@.len(),
                forall|k: int|
                    0 <= k < at ==> (#[trigger] out@[k]).front.date.later_than(x.front.date),
            decreases out@.len() - at,
        {
            at += 1;
        }
        out.insert(at, x);
        proof {
            assert(rest@ =~= all.take(left - 1));
            assert(all.skip(left - 1) =~= seq![x] + all.skip(left as int));
            assert forall|date: Timestamp| #[trigger]
                out@.filter(published_at(date)) == all.skip(left - 1).filter(
                    published_at(date),
                ) by {
                insert_keeps_order(before, at as int, x, date);
                Seq::filter_distributes_over_add(seq![x], all.skip(left as int), published_at(date));
            }
            insert_keeps_order(before, at as int, x, x.front.date);
            assert(unsorted =~= rest@.push(x));
            to_multiset_build(rest@, x);
            to_multiset_insert(before, at as int, x);
            assert(out@.to_multiset().add(rest@.to_multiset()) =~= before.to_multiset().add(
                unsorted.to_multiset(),
            ));
        }
    }
    proof {
        assert(all.skip(0) =~= all);
        assert(rest@.to_multiset() =~= Multiset::<Post>::empty()) by {
            rest@.to_multiset_ensures();
        }
        assert(out@.to_multiset().add(Multiset::<Post>::empty()) =~= out@.to_multiset());
    }
    out
}

} // verus!
