use vstd::prelude::*;
use crate::text::opt_view;

verus! {

/// An absolute instant: whole seconds since 1970-01-01T00:00:00Z and the
/// nanoseconds past that second.
#[derive(Clone, Copy, Debug, PartialEq, Eq, Structural)]
pub struct Timestamp {
    pub secs: i64,
    pub nanos: u32,
}

impl Timestamp {
    /// Whether `self` is strictly later than `other`.
    pub open spec fn later_than(self, other: Timestamp) -> bool {
        self.secs > other.secs || (self.secs == other.secs && self.nanos > other.nanos)
    }

    /// Whether `self` is strictly later than `other`.
    pub fn is_later_than(&self, other: &Timestamp) -> (r: bool)
        ensures
            r == self.later_than(*other),
    {
        self.secs > other.secs || (self.secs == other.secs && self.nanos > other.nanos)
    }
}

/// The header of a document as it was read: nothing in it has been checked.
#[derive(Debug)]
pub struct RawFrontMatter {
    pub title: String,
    pub slug: String,
    pub tags: Vec<String>,
    pub published: Option<String>,
    pub summary: String,
    pub section: Option<String>,
}

/// The header of a published document.
#[derive(Clone, Debug)]
pub struct FrontMatter {
    pub title: String,
    pub slug: String,
    pub tags: Vec<String>,
    pub date: Timestamp,
    pub summary: String,
    pub section: String,
}

/// What a `RawFrontMatter` holds, as mathematical values.
pub struct RawFrontMatterView {
    pub title: Seq<char>,
    pub slug: Seq<char>,
    pub tags: Seq<Seq<char>>,
    pub published: Option<Seq<char>>,
    pub summary: Seq<char>,
    pub section: Option<Seq<char>>,
}

/// What a `FrontMatter` holds, as mathematical values.
pub struct FrontMatterView {
    pub title: Seq<char>,
    pub slug: Seq<char>,
    pub tags: Seq<Seq<char>>,
    pub date: Timestamp,
    pub summary: Seq<char>,
    pub section: Seq<char>,
}

impl View for RawFrontMatter {
    type V = RawFrontMatterView;

    open spec fn view(&self) -> RawFrontMatterView {
        RawFrontMatterView {
            title: self.title@,
            slug: self.slug@,
            tags: self.tags.deep_view(),
            published: opt_view(self.published),
            summary: self.summary@,
            section: opt_view(self.section),
        }
    }
}

impl View for FrontMatter {
    type V = FrontMatterView;

    open spec fn view(&self) -> FrontMatterView {
        FrontMatterView {
            title: self.title@,
            slug: self.slug@,
            tags: self.tags.deep_view(),
            date: self.date,
            summary: self.summary@,
            section: self.section@,
        }
    }
}

/// The instant that `chrono` reads from `text` as an RFC 3339 date and time
/// with offset, or `None` where it rejects the text.
pub uninterp spec fn rfc3339_instant(text: Seq<char>) -> Option<Timestamp>;

/// `chrono::DateTime::parse_from_rfc3339`, with the date and time it returns
/// given as seconds since the Unix epoch (`DateTime::timestamp`) and the
/// nanoseconds past that second (`DateTime::timestamp_subsec_nanos`). The
/// result depends on the text alone; a text that chrono rejects gives `None`.
#[verifier::external_body]
fn parse_rfc3339(text: &str) -> (r: Option<Timestamp>)
    ensures
        r == rfc3339_instant(text@),
{
    match chrono::DateTime::parse_from_rfc3339(text) {
        Ok(d) => Some(Timestamp { secs: d.timestamp(), nanos: d.timestamp_subsec_nanos() }),
        Err(_) => None,
    }
}

/// The section of a document whose header names none.
pub open spec fn default_section() -> Seq<char> {
    "Miscellaneous"@
}

/// The header of the published document that `raw` describes, given the
/// instant `date` read from its `published` field.
pub open spec fn with_date(raw: RawFrontMatterView, date: Timestamp) -> FrontMatterView {
    FrontMatterView {
        title: raw.title,
        slug: raw.slug,
        tags: raw.tags,
        date,
        summary: raw.summary,
        section: match raw.section {
            Some(s) => s,
            None => default_section(),
        },
    }
}

/// The validated header for `raw`: there is one exactly when `published` is
/// present and is a well-formed RFC 3339 date and time.
pub open spec fn validated(raw: RawFrontMatterView) -> Option<FrontMatterView> {
    match raw.published {
        None => None,
        Some(p) => match rfc3339_instant(p) {
            None => None,
            Some(date) => Some(with_date(raw, date)),
        },
    }
}

impl FrontMatter {
    /// A copy of the header.
    pub fn duplicate(&self) -> (r: FrontMatter)
        ensures
            r@ == self@,
    {
        let mut tags: Vec<String> = Vec::new();
        let mut i: usize = 0;
        while i < self.tags.len()
            invariant
                i <= self.tags@.len(),
                tags@.len() == i,
                forall|k: int| 0 <= k < i ==> (#[trigger] tags@[k])@ == self.tags@[k]@,
            decreases self.tags@.len() - i,
        {
            tags.push(self.tags[i].clone());
            i += 1;
        }
        proof {
            assert(tags.deep_view() =~= self.tags.deep_view());
        }
        FrontMatter {
            title: self.title.clone(),
            slug: self.slug.clone(),
            tags,
            date: self.date,
            summary: self.summary.clone(),
            section: self.section.clone(),
        }
    }

    /// Validates a header. A header without a `published` field, or with one
    /// that is not a well-formed date and time, describes a document that is
    /// not published: the result is `None`, never an error.
    pub fn from_raw(raw: RawFrontMatter) -> (r: Option<FrontMatter>)
        ensures
            r is Some <==> validated(raw@) is Some,
            r matches Some(front) ==> validated(raw@) == Some(front@),
            r matches Some(front) ==> front.section@ == (match raw.section {
                Some(s) => s@,
                None => default_section(),
            }),
            raw.published is None ==> r is None,
            raw.published matches Some(p) ==> (r is None <==> rfc3339_instant(p@) is None),
    {
        let RawFrontMatter { title, slug, tags, published, summary, section } = raw;
        let date = match published {
            None => {
                return None;
            },
            Some(p) => match parse_rfc3339(p.as_str()) {
                None => {
                    return None;
                },
                Some(date) => date,
            },
        };
        let section = match section {
            Some(s) => s,
            None => "Miscellaneous".to_owned(),
        };
        Some(FrontMatter { title, slug, tags, date, summary, section })
    }
}

} // verus!
