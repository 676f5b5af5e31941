use vstd::prelude::*;
use crate::text::opt_view;

verus! {

/// The views of a list of strings.
pub open spec fn text_views(v: Seq<String>) -> Seq<Seq<char>> {
    v.map_values(|s: String| s@)
}

/// The views of the groups of one match.
pub open spec fn group_views(groups: Seq<Option<String>>) -> Seq<Option<Seq<char>>> {
    groups.map_values(|g: Option<String>| opt_view(g))
}

/// The views of the groups of every match.
pub open spec fn match_views(matches: Seq<Vec<Option<String>>>) -> Seq<Seq<Option<Seq<char>>>> {
    matches.map_values(|m: Vec<Option<String>>| group_views(m@))
}

/// Element `i` of `parts`, or the empty text where there is none.
pub open spec fn piece(parts: Seq<Seq<char>>, i: int) -> Seq<char> {
    if 0 <= i < parts.len() {
        parts[i]
    } else {
        Seq::empty()
    }
}

/// `gaps[0]`, `fills[0]`, `gaps[1]` and so on, up to `fills[n - 1]` and
/// `gaps[n]`, one after the other.
pub open spec fn woven(gaps: Seq<Seq<char>>, fills: Seq<Seq<char>>, n: nat) -> Seq<char>
    decreases n,
{
    if n == 0 {
        piece(gaps, 0)
    } else {
        woven(gaps, fills, (n - 1) as nat) + piece(fills, n - 1) + piece(gaps, n as int)
    }
}

/// The text with `fills` set between `gaps`.
pub open spec fn weave(gaps: Seq<Seq<char>>, fills: Seq<Seq<char>>) -> Seq<char> {
    woven(gaps, fills, fills.len())
}

/// Group `i` of a match, or the empty text where the group took no part.
pub open spec fn group(groups: Seq<Option<Seq<char>>>, i: int) -> Seq<char> {
    if 0 <= i < groups.len() {
        match groups[i] {
            Some(t) => t,
            None => Seq::empty(),
        }
    } else {
        Seq::empty()
    }
}

/// The whole text of each match.
pub open spec fn wholes(matches: Seq<Seq<Option<Seq<char>>>>) -> Seq<Seq<char>> {
    matches.map_values(|m: Seq<Option<Seq<char>>>| group(m, 0))
}

/// The parts of `text` that lie between the matches of `pattern`, in order,
/// as the `regex` crate finds them; `None` where it rejects the pattern.
pub uninterp spec fn regex_pieces(pattern: Seq<char>, text: Seq<char>) -> Option<Seq<Seq<char>>>;

/// The matches of `pattern` in `text`, in order, each with the text of its
/// groups (group 0 is the whole match), as the `regex` crate finds them;
/// `None` where it rejects the pattern.
pub uninterp spec fn regex_captures(pattern: Seq<char>, text: Seq<char>) -> Option<
    Seq<Seq<Option<Seq<char>>>>,
>;

/// `regex::Regex::new` on the pattern and `Regex::split` on the text: the
/// parts of the text that no match covers.
#[verifier::external_body]
pub(crate) fn split_by(pattern: &str, text: &str) -> (r: Option<Vec<String>>)
    ensures
        match r {
            Some(parts) => regex_pieces(pattern@, text@) == Some(text_views(parts@)),
            None => regex_pieces(pattern@, text@) is None,
        },
{
    match regex::Regex::new(pattern) {
        Ok(re) => Some(re.split(text).map(|part| part.to_owned()).collect()),
        Err(_) => None,
    }
}

/// `regex::Regex::new` on the pattern and `Regex::captures_iter` on the
/// text: the successive matches, none overlapping another, each with its
/// groups (`Captures::iter`). The pattern is accepted or rejected as for
/// `split_by`. Group 0 takes part in every match, and the text is made of
/// the parts that `Regex::split` gives with the matches between them.
#[verifier::external_body]
pub(crate) fn captures_of(pattern: &str, text: &str) -> (r: Option<Vec<Vec<Option<String>>>>)
    ensures
        match r {
            Some(found) => regex_captures(pattern@, text@) == Some(match_views(found@)),
            None => regex_captures(pattern@, text@) is None,
        },
        r is Some <==> regex_pieces(pattern@, text@) is Some,
        r matches Some(found) ==> {
            &&& regex_pieces(pattern@, text@)->0.len() == found@.len() + 1
            &&& weave(regex_pieces(pattern@, text@)->0, wholes(match_views(found@))) == text@
            &&& forall|k: int|
                0 <= k < found@.len() ==> (#[trigger] found@[k])@.len() > 0 && found@[k]@[0] is Some
        },
{
    match regex::Regex::new(pattern) {
        Ok(re) => Some(
            re.captures_iter(text).map(
                |c| c.iter().map(|g| g.map(|m| m.as_str().to_owned())).collect(),
            ).collect(),
        ),
        Err(_) => None,
    }
}

/// A piece of mathematics within a line.
#[derive(Clone, Debug)]
pub struct MathSpan {
    /// The match as it is written, delimiters included.
    pub whole: String,
    /// What stands between the delimiters.
    pub inner: String,
}

/// A `MathSpan` as mathematical values.
pub struct SpanView {
    pub whole: Seq<char>,
    pub inner: Seq<char>,
}

impl View for MathSpan {
    type V = SpanView;

    open spec fn view(&self) -> SpanView {
        SpanView { whole: self.whole@, inner: self.inner@ }
    }
}

/// The views of a list of spans.
pub open spec fn span_views(spans: Seq<MathSpan>) -> Seq<SpanView> {
    spans.map_values(|s: MathSpan| s@)
}

/// The text of each span as it is written.
pub open spec fn written(spans: Seq<SpanView>) -> Seq<Seq<char>> {
    spans.map_values(|s: SpanView| s.whole)
}

/// A text cut at its inline mathematics: `spans` are the pieces of
/// mathematics and `gaps` the text before, between and after them.
#[derive(Clone, Debug)]
pub struct InlineScan {
    pub gaps: Vec<String>,
    pub spans: Vec<MathSpan>,
}

/// An `InlineScan` as mathematical values.
pub struct ScanView {
    pub gaps: Seq<Seq<char>>,
    pub spans: Seq<SpanView>,
}

impl View for InlineScan {
    type V = ScanView;

    open spec fn view(&self) -> ScanView {
        ScanView { gaps: text_views(self.gaps@), spans: span_views(self.spans@) }
    }
}

/// The pattern of inline mathematics: `$` or `\(`, then as little as
/// possible of the line, then `$` or `\)`.
pub open spec fn math_pattern() -> Seq<char> {
    "(\\$|\\\\\\()(.*?)(\\$|\\\\\\))"@
}

/// The span that a match stands for: group 0 is the whole of it, group 2
/// what the delimiters enclose.
pub open spec fn span_of(groups: Seq<Option<Seq<char>>>) -> SpanView {
    SpanView { whole: group(groups, 0), inner: group(groups, 2) }
}

/// `text` cut at its inline mathematics. Where the pattern finds nothing the
/// whole text is one gap.
pub open spec fn inline_scan(text: Seq<char>) -> ScanView {
    match (regex_pieces(math_pattern(), text), regex_captures(math_pattern(), text)) {
        (Some(parts), Some(found)) => if parts.len() == found.len() + 1 {
            ScanView { gaps: parts, spans: found.map_values(|m: Seq<Option<Seq<char>>>| span_of(m)) }
        } else {
            ScanView { gaps: seq![text], spans: Seq::empty() }
        },
        _ => ScanView { gaps: seq![text], spans: Seq::empty() },
    }
}

/// Group `i` of a match, or the empty text where the group took no part.
fn group_text(groups: &Vec<Option<String>>, i: usize) -> (r: String)
    ensures
        r@ == group(group_views(groups@), i as int),
{
    if i < groups.len() {
        match &groups[i] {
            Some(t) => t.clone(),
            None => String::new(),
        }
    } else {
        String::new()
    }
}

/// Cuts `text` at its inline mathematics. With each span put back as it is
/// written, the pieces give `text` again.
pub fn scan(text: &str) -> (r: InlineScan)
    ensures
        r@ == inline_scan(text@),
        r.gaps@.len() == r.spans@.len() + 1,
        weave(r@.gaps, written(r@.spans)) == text@,
{
    let pattern = "(\\$|\\\\\\()(.*?)(\\$|\\\\\\))";
    let parts = split_by(pattern, text);
    let found = captures_of(pattern, text);
    match (parts, found) {
        (Some(gaps), Some(matches)) => {
            assert(gaps@.len() == matches@.len() + 1);
            let mut spans: Vec<MathSpan> = Vec::new();
            let mut k: usize = 0;
            while k < matches.len()
                invariant
                    k <= matches@.len(),
                    spans@.len() == k,
                    forall|j: int|
                        0 <= j < k ==> (#[trigger] spans@[j])@ == span_of(match_views(matches@)[j]),
                decreases matches@.len() - k,
            {
                let whole = group_text(&matches[k], 0);
                let inner = group_text(&matches[k], 2);
                spans.push(MathSpan { whole, inner });
                k += 1;
            }
            let r = InlineScan { gaps, spans };
            proof {
                let ms = match_views(matches@);
                assert(r@.spans =~= ms.map_values(|m: Seq<Option<Seq<char>>>| span_of(m)));
                assert(r@.gaps == text_views(gaps@));
                assert(written(r@.spans) =~= wholes(ms));
            }
            r
        },
        _ => {
            let mut gaps: Vec<String> = Vec::new();
            gaps.push(text.to_owned());
            let r = InlineScan { gaps, spans: Vec::new() };
            proof {
                assert(r@.gaps =~= seq![text@]);
                assert(r@.spans =~= Seq::<SpanView>::empty());
                assert(written(r@.spans) =~= Seq::<Seq<char>>::empty());
            }
            r
        },
    }
}

/// The text with `fills` set between `gaps`.
pub fn weave_text(gaps: &Vec<String>, fills: &Vec<String>) -> (r: String)
    ensures
        r@ == weave(text_views(gaps@), text_views(fills@)),
{
    let ghost g = text_views(gaps@);
    let ghost f = text_views(fills@);
    let mut out = String::new();
    if gaps.len() > 0 {
        out.append(gaps[0].as_str());
    }
    assert(out@ == piece(g, 0)) by {
        assert(Seq::<char>::empty() + g[0] == g[0]);
    }
    let mut k: usize = 0;
    while k < fills.len()
        invariant
            k <= fills@.len(),
            g == text_views(gaps@),
            f == text_views(fills@),
            out@ == woven(g, f, k as nat),
        decreases fills@.len() - k,
    {
        out.append(fills[k].as_str());
        if k + 1 < gaps.len() {
            out.append(gaps[k + 1].as_str());
        }
        proof {
            assert(piece(f, k as int) == fills@[k as int]@);
            if k + 1 < gaps@.len() {
                assert(piece(g, k + 1) == gaps@[k + 1]@);
            } else {
                assert(woven(g, f, k as nat) + piece(f, k as int) + Seq::<char>::empty() == woven(
                    g,
                    f,
                    k as nat,
                ) + piece(f, k as int));
            }
        }
        k += 1;
    }
    out
}

} // verus!
