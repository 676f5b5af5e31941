use vstd::prelude::*;
use crate::post::markdown::{figure_markup, wrap_image_in_figure};
use crate::post::tree::{node_views, replaceable, NodeInfo, NodeKind, NodeKindView, NodeView};
use crate::text::opt_view;

verus! {

/// The first position at or after `from` whose node lies at `depth` or
/// above it; the number of nodes where there is none.
pub open spec fn scan_end(nodes: Seq<NodeView>, depth: nat, from: nat) -> nat
    decreases nodes.len() - from,
{
    if from >= nodes.len() {
        nodes.len()
    } else if nodes[from as int].depth <= depth {
        from
    } else {
        scan_end(nodes, depth, from + 1)
    }
}

/// Whether node `i` has exactly one child: the node after it lies one level
/// deeper, and what follows that child's own descendants lies no deeper than
/// node `i`.
pub open spec fn sole_child(nodes: Seq<NodeView>, i: nat) -> bool {
    let d = nodes[i as int].depth;
    let end = scan_end(nodes, d + 1, i + 2);
    &&& i + 1 < nodes.len()
    &&& nodes[(i + 1) as int].depth == d + 1
    &&& (end >= nodes.len() || nodes[end as int].depth <= d)
}

/// The text of the text nodes at `depth` among the nodes from `from` up to
/// `to`, one after the other.
pub open spec fn caption_text(nodes: Seq<NodeView>, depth: nat, from: nat, to: nat) -> Seq<char>
    decreases to - from,
{
    if from >= to || from >= nodes.len() {
        Seq::empty()
    } else {
        let rest = caption_text(nodes, depth, from + 1, to);
        match nodes[from as int].kind {
            NodeKindView::Text { text } => if nodes[from as int].depth == depth {
                text + rest
            } else {
                rest
            },
            _ => rest,
        }
    }
}

/// The figure for node `i`, where that node is a paragraph whose whole
/// content is one image: the image's address and title, and as its
/// description the text nodes directly below the image.
pub open spec fn solitary_image(nodes: Seq<NodeView>, i: nat) -> Option<Seq<char>> {
    if i < nodes.len() && nodes[i as int].kind is Paragraph && sole_child(nodes, i) {
        let d = nodes[i as int].depth;
        match nodes[(i + 1) as int].kind {
            NodeKindView::Image { url, title } => Some(
                figure_markup(
                    url,
                    title,
                    caption_text(nodes, d + 2, i + 2, scan_end(nodes, d + 1, i + 2)),
                ),
            ),
            _ => None,
        }
    } else {
        None
    }
}

/// Whether node `j` is a child of node `i`: it lies one level deeper, and
/// every node between the two lies deeper than node `i`.
pub open spec fn is_child(nodes: Seq<NodeView>, i: nat, j: nat) -> bool {
    &&& i < j < nodes.len()
    &&& nodes[j as int].depth == nodes[i as int].depth + 1
    &&& forall|k: int| i < k <= j ==> (#[trigger] nodes[k]).depth > nodes[i as int].depth
}

/// `scan_end` gives the first position from `from` on whose node lies at
/// `depth` or above it.
pub proof fn scan_end_is_first(nodes: Seq<NodeView>, depth: nat, from: nat, j: nat)
    requires
        from <= j < nodes.len(),
        nodes[j as int].depth <= depth,
    ensures
        from <= scan_end(nodes, depth, from) <= j,
        nodes[scan_end(nodes, depth, from) as int].depth <= depth,
    decreases nodes.len() - from,
{
    if nodes[from as int].depth > depth {
        scan_end_is_first(nodes, depth, from + 1, j);
    }
}

/// A paragraph with two children is no solitary image: neither an image
/// with another element beside it nor two images make a figure.
pub proof fn second_child_prevents_figure(nodes: Seq<NodeView>, i: nat, first: nat, second: nat)
    requires
        is_child(nodes, i, first),
        is_child(nodes, i, second),
        first < second,
    ensures
        solitary_image(nodes, i) is None,
        !(job_at(nodes, i) is Some && job_at(nodes, i)->0 is Figure),
{
    let d = nodes[i as int].depth;
    if sole_child(nodes, i) {
        scan_end_is_first(nodes, d + 1, i + 2, second);
        let end = scan_end(nodes, d + 1, i + 2);
        assert(nodes[end as int].depth > d);
    }
}

/// What is to be done with one node of the tree.
#[derive(Clone, Debug)]
pub enum Job {
    /// A fenced block: its content goes to a renderer.
    Code { index: usize, lang: String, source: String },
    /// HTML in the text: it is written out as it stands, in place of its
    /// node. The writer sets no line end of its own around it, so a block of
    /// HTML that opens a list item follows the `<li>` on the same line.
    Html { index: usize, literal: String },
    /// A paragraph that holds one image: the figure takes its place.
    Figure { index: usize, html: String },
}

/// A `Job` as mathematical values.
pub enum JobView {
    Code { index: nat, lang: Seq<char>, source: Seq<char> },
    Html { index: nat, literal: Seq<char> },
    Figure { index: nat, html: Seq<char> },
}

impl View for Job {
    type V = JobView;

    open spec fn view(&self) -> JobView {
        match *self {
            Job::Code { index, lang, source } => JobView::Code {
                index: index as nat,
                lang: lang@,
                source: source@,
            },
            Job::Html { index, literal } => JobView::Html { index: index as nat, literal: literal@ },
            Job::Figure { index, html } => JobView::Figure { index: index as nat, html: html@ },
        }
    }
}

impl Job {
    /// The node that the job is for.
    pub fn index(&self) -> (r: usize)
        ensures
            r == self@.index(),
    {
        match self {
            Job::Code { index, .. } => *index,
            Job::Html { index, .. } => *index,
            Job::Figure { index, .. } => *index,
        }
    }
}

impl JobView {
    /// The node that the job is for.
    pub open spec fn index(self) -> nat {
        match self {
            JobView::Code { index, .. } => index,
            JobView::Html { index, .. } => index,
            JobView::Figure { index, .. } => index,
        }
    }

    /// The last node that the job touches: the node itself, or for a figure
    /// the image below it.
    pub open spec fn reach(self) -> nat {
        match self {
            JobView::Code { index, .. } => index,
            JobView::Html { index, .. } => index,
            JobView::Figure { index, .. } => index + 1,
        }
    }
}

/// Whether a job suits the tree: it does not reach past the last node, and
/// the node it puts markup in place of is one that may be replaced.
pub open spec fn job_fits(job: JobView, nodes: Seq<NodeView>) -> bool {
    job.reach() < nodes.len() && replaceable(nodes[job.index() as int].kind)
}

/// The views of a list of jobs.
pub open spec fn job_views(jobs: Seq<Job>) -> Seq<JobView> {
    jobs.map_values(|j: Job| j@)
}

/// What is to be done with node `i`: a fenced code block is rendered, HTML
/// is written out, a paragraph that holds one image becomes a figure, and
/// every other node stays as it is.
pub open spec fn job_at(nodes: Seq<NodeView>, i: nat) -> Option<JobView> {
    match nodes[i as int].kind {
        NodeKindView::CodeBlock { fenced, info, literal } => if fenced {
            Some(JobView::Code { index: i, lang: info, source: literal })
        } else {
            None
        },
        NodeKindView::Html { literal } => Some(JobView::Html { index: i, literal }),
        NodeKindView::Paragraph => match solitary_image(nodes, i) {
            Some(html) => Some(JobView::Figure { index: i, html }),
            None => None,
        },
        _ => None,
    }
}

/// Whether the nodes below node `i` are passed over: below a paragraph that
/// becomes a figure, which is taken out with its image, and below an image,
/// whose description the writer sets as plain text.
pub open spec fn hides_below(nodes: Seq<NodeView>, i: nat) -> bool {
    nodes[i as int].kind is Image || (job_at(nodes, i) is Some && job_at(nodes, i)->0 is Figure)
}

/// The jobs for the nodes from `i` on, in document order. While `hidden` is
/// `Some(d)` the nodes deeper than `d` are passed over.
pub open spec fn jobs_from(nodes: Seq<NodeView>, i: nat, hidden: Option<nat>) -> Seq<JobView>
    decreases nodes.len() - i,
{
    if i >= nodes.len() {
        Seq::empty()
    } else if hidden is Some && nodes[i as int].depth > hidden->0 {
        jobs_from(nodes, i + 1, hidden)
    } else {
        let rest = jobs_from(
            nodes,
            i + 1,
            if hides_below(nodes, i) {
                Some(nodes[i as int].depth)
            } else {
                None
            },
        );
        match job_at(nodes, i) {
            Some(job) => seq![job] + rest,
            None => rest,
        }
    }
}

/// The jobs for a tree, every node visited before its children.
pub open spec fn block_jobs(nodes: Seq<NodeView>) -> Seq<JobView> {
    jobs_from(nodes, 0, None)
}

/// The first position at or after `from` whose node lies at `depth` or
/// above it.
fn find_end(nodes: &Vec<NodeInfo>, depth: usize, from: usize) -> (r: usize)
    ensures
        r == scan_end(node_views(nodes@), depth as nat, from as nat),
        r <= nodes@.len(),
{
    let ghost nv = node_views(nodes@);
    let mut j: usize = from;
    while j < nodes.len() && nodes[j].depth > depth
        invariant
            nv == node_views(nodes@),
            scan_end(nv, depth as nat, from as nat) == scan_end(nv, depth as nat, j as nat),
        decreases nodes@.len() - j,
    {
        j += 1;
    }
    if j > nodes.len() {
        nodes.len()
    } else {
        j
    }
}

/// The text of the text nodes at `depth` among the nodes from `from` up to
/// `to`.
fn caption(nodes: &Vec<NodeInfo>, depth: usize, from: usize, to: usize) -> (r: String)
    ensures
        r@ == caption_text(node_views(nodes@), depth as nat, from as nat, to as nat),
{
    let ghost nv = node_views(nodes@);
    let mut out = String::new();
    let mut j: usize = from;
    proof {
        assert(Seq::<char>::empty() + caption_text(nv, depth as nat, from as nat, to as nat)
            == caption_text(nv, depth as nat, from as nat, to as nat));
    }
    while j < to && j < nodes.len()
        invariant
            nv == node_views(nodes@),
            out@ + caption_text(nv, depth as nat, j as nat, to as nat) == caption_text(
                nv,
                depth as nat,
                from as nat,
                to as nat,
            ),
        decreases nodes@.len() - j,
    {
        let ghost rest = caption_text(nv, depth as nat, (j + 1) as nat, to as nat);
        if nodes[j].depth == depth {
            match &nodes[j].kind {
                NodeKind::Text { text } => {
                    proof {
                        assert(out@ + (text@ + rest) == (out@ + text@) + rest);
                    }
                    out.append(text.as_str());
                },
                _ => {},
            }
        }
        j += 1;
    }
    proof {
        assert(out@ + Seq::<char>::empty() == out@);
    }
    out
}

/// The figure for node `i`, where that node is a paragraph whose whole
/// content is one image.
fn figure_at(nodes: &Vec<NodeInfo>, i: usize) -> (r: Option<String>)
    requires
        i < nodes@.len(),
    ensures
        opt_view(r) == solitary_image(node_views(nodes@), i as nat),
        r is Some ==> i + 1 < nodes@.len(),
{
    let ghost nv = node_views(nodes@);
    let d = nodes[i].depth;
    match &nodes[i].kind {
        NodeKind::Paragraph => {},
        _ => {
            return None;
        },
    }
    if i >= nodes.len() - 1 || d == usize::MAX || nodes[i + 1].depth != d + 1 {
        return None;
    }
    let end = find_end(nodes, d + 1, i + 2);
    if end < nodes.len() && nodes[end].depth > d {
        return None;
    }
    assert(sole_child(nv, i as nat));
    match &nodes[i + 1].kind {
        NodeKind::Image { url, title } => {
            let alt = if d + 1 == usize::MAX {
                proof {
                    no_caption_below(nv, (d + 2) as nat, (i + 2) as nat, end as nat);
                }
                String::new()
            } else {
                caption(nodes, d + 2, i + 2, end)
            };
            Some(wrap_image_in_figure(url.as_str(), title.as_str(), alt.as_str()))
        },
        _ => None,
    }
}

/// At a depth that no node has there is no text to gather.
proof fn no_caption_below(nodes: Seq<NodeView>, depth: nat, from: nat, to: nat)
    requires
        forall|k: int| 0 <= k < nodes.len() ==> (#[trigger] nodes[k]).depth < depth,
    ensures
        caption_text(nodes, depth, from, to) == Seq::<char>::empty(),
    decreases to - from,
{
    if from < to && from < nodes.len() {
        no_caption_below(nodes, depth, from + 1, to);
    }
}

/// The view of an optional job.
pub open spec fn opt_job(j: Option<Job>) -> Option<JobView> {
    match j {
        Some(job) => Some(job@),
        None => None,
    }
}

/// What is to be done with node `i`.
fn job_for(nodes: &Vec<NodeInfo>, i: usize) -> (r: Option<Job>)
    requires
        i < nodes@.len(),
    ensures
        opt_job(r) == job_at(node_views(nodes@), i as nat),
        r matches Some(job) ==> job_fits(job@, node_views(nodes@)),
{
    match &nodes[i].kind {
        NodeKind::CodeBlock { fenced, info, literal } => {
            if *fenced {
                Some(Job::Code { index: i, lang: info.clone(), source: literal.clone() })
            } else {
                None
            }
        },
        NodeKind::Html { literal } => Some(Job::Html { index: i, literal: literal.clone() }),
        NodeKind::Paragraph => match figure_at(nodes, i) {
            Some(html) => Some(Job::Figure { index: i, html }),
            None => None,
        },
        _ => None,
    }
}

/// The jobs for a tree, every node visited before its children. Every job
/// suits the tree.
pub fn plan(nodes: &Vec<NodeInfo>) -> (r: Vec<Job>)
    ensures
        job_views(r@) == block_jobs(node_views(nodes@)),
        forall|k: int| 0 <= k < r@.len() ==> job_fits((#[trigger] r@[k])@, node_views(nodes@)),
{
    let ghost nv = node_views(nodes@);
    let mut jobs: Vec<Job> = Vec::new();
    let mut hidden: Option<usize> = None;
    let mut i: usize = 0;
    proof {
        assert(job_views(jobs@) + jobs_from(nv, 0, None) =~= block_jobs(nv));
    }
    while i < nodes.len()
        invariant
            i <= nodes@.len(),
            nv == node_views(nodes@),
            job_views(jobs@) + jobs_from(
                nv,
                i as nat,
                match hidden {
                    Some(h) => Some(h as nat),
                    None => None,
                },
            ) == block_jobs(nv),
            forall|k: int| 0 <= k < jobs@.len() ==> job_fits((#[trigger] jobs@[k])@, nv),
        decreases nodes@.len() - i,
    {
        let d = nodes[i].depth;
        let skip = match hidden {
            Some(h) => d > h,
            None => false,
        };
        if !skip {
            let job = job_for(nodes, i);
            let hide = match (&job, &nodes[i].kind) {
                (Some(Job::Figure { .. }), _) => true,
                (_, NodeKind::Image { .. }) => true,
                _ => false,
            };
            assert(hide == hides_below(nv, i as nat));
            hidden = if hide {
                Some(d)
            } else {
                None
            };
            let ghost next: Option<nat> = if hide {
                Some(d as nat)
            } else {
                None
            };
            match job {
                Some(job) => {
                    let ghost before = job_views(jobs@);
                    proof {
                        assert(before.push(job@) + jobs_from(nv, (i + 1) as nat, next) =~= before
                            + (seq![job@] + jobs_from(nv, (i + 1) as nat, next)));
                    }
                    jobs.push(job);
                    proof {
                        assert(job_views(jobs@) =~= before.push(job@));
                    }
                },
                None => {},
            }
        }
        i += 1;
    }
    proof {
        assert(job_views(jobs@) + Seq::<JobView>::empty() =~= job_views(jobs@));
    }
    jobs
}

} // verus!
