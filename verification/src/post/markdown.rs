use vstd::prelude::*;
use crate::post::blocks::{block_jobs, job_fits, job_views, plan, Job, JobView};
use crate::post::inline::{
    inline_scan, scan, span_views, text_views, weave, weave_text, written, InlineScan,
    MathSpan, SpanView,
};
use crate::post::katex::{
    create_katex_block, create_katex_inline, katex_block_markup, katex_inline_markup,
    katex_invocation,
};
use crate::post::plantuml::{create_plantuml_svg, plantuml_invocation, plantuml_svg};
use crate::post::process::{rendered_text, Invocation, ProcessOutcome, RenderError, Tool};
use crate::post::pygments::{create_code_block, pygmentize_invocation};
use crate::post::tree::{
    edit_views, edits_within, emit, node_views, outline, parsed_nodes, rendered_html,
    replaces_fit, standard_grammar, Edit, EditView, Grammar,
};
use crate::text::{join3, same_text};

verus! {

/// A fragment of HTML, and whether the page that shows it needs the
/// stylesheet for mathematics.
#[derive(Debug)]
pub struct FormatResponse {
    pub output: String,
    pub include_katex_css: bool,
}

/// The language tag of a fenced block that holds a diagram.
pub open spec fn diagram_tag() -> Seq<char> {
    "plantuml"@
}

/// The language tag of a fenced block that holds mathematics.
pub open spec fn math_tag() -> Seq<char> {
    "katex"@
}

/// Where a fenced block goes.
#[derive(Clone, Copy, Debug, PartialEq, Eq, Structural)]
pub enum Route {
    Diagram,
    Math,
    Code,
}

/// Where a fenced block with the tag `lang` goes: the two reserved tags go
/// to the diagram and the mathematics renderer, every other tag, and none at
/// all, to the code renderer.
pub open spec fn route_of(lang: Seq<char>) -> Route {
    if lang == diagram_tag() {
        Route::Diagram
    } else if lang == math_tag() {
        Route::Math
    } else {
        Route::Code
    }
}

/// Where a fenced block with the tag `lang` goes.
pub fn route(lang: &str) -> (r: Route)
    ensures
        r == route_of(lang@),
{
    if same_text(lang, "plantuml") {
        Route::Diagram
    } else if same_text(lang, "katex") {
        Route::Math
    } else {
        Route::Code
    }
}

/// Something to render outside this library.
#[derive(Clone, Debug)]
pub enum RenderRequest {
    InlineMath { source: String },
    BlockMath { source: String },
    Diagram { source: String },
    Code { source: String, lang: String },
}

/// A `RenderRequest` as mathematical values.
pub enum RequestView {
    InlineMath { source: Seq<char> },
    BlockMath { source: Seq<char> },
    Diagram { source: Seq<char> },
    Code { source: Seq<char>, lang: Seq<char> },
}

impl View for RenderRequest {
    type V = RequestView;

    open spec fn view(&self) -> RequestView {
        match *self {
            RenderRequest::InlineMath { source } => RequestView::InlineMath { source: source@ },
            RenderRequest::BlockMath { source } => RequestView::BlockMath { source: source@ },
            RenderRequest::Diagram { source } => RequestView::Diagram { source: source@ },
            RenderRequest::Code { source, lang } => RequestView::Code { source: source@, lang: lang@ },
        }
    }
}

impl RequestView {
    /// The text that goes to the tool's standard input.
    pub open spec fn source(self) -> Seq<char> {
        match self {
            RequestView::InlineMath { source } => source,
            RequestView::BlockMath { source } => source,
            RequestView::Diagram { source } => source,
            RequestView::Code { source, .. } => source,
        }
    }

    /// The tool that serves the request.
    pub open spec fn tool(self) -> Tool {
        match self {
            RequestView::InlineMath { .. } => Tool::Katex,
            RequestView::BlockMath { .. } => Tool::Katex,
            RequestView::Diagram { .. } => Tool::Plantuml,
            RequestView::Code { .. } => Tool::Pygmentize,
        }
    }

    /// The program that serves the request.
    pub open spec fn program(self) -> Seq<char> {
        match self {
            RequestView::InlineMath { .. } => "katex"@,
            RequestView::BlockMath { .. } => "katex"@,
            RequestView::Diagram { .. } => "plantuml"@,
            RequestView::Code { .. } => "pygmentize"@,
        }
    }

    /// The arguments that the tool is started with.
    pub open spec fn args(self) -> Seq<Seq<char>> {
        match self {
            RequestView::InlineMath { .. } => seq!["-t"@],
            RequestView::BlockMath { .. } => seq!["-d"@, "-t"@],
            RequestView::Diagram { .. } => seq!["-tsvg"@, "-nometadata"@, "-pipe"@],
            RequestView::Code { lang, .. } => seq!["-l"@, lang, "-f"@, "html"@],
        }
    }
}

impl RenderRequest {
    /// The text that goes to the tool's standard input.
    pub fn source(&self) -> (r: &String)
        ensures
            r@ == self@.source(),
    {
        match self {
            RenderRequest::InlineMath { source } => source,
            RenderRequest::BlockMath { source } => source,
            RenderRequest::Diagram { source } => source,
            RenderRequest::Code { source, .. } => source,
        }
    }

    /// How to start the tool that serves the request.
    pub fn invocation(&self) -> (r: Invocation)
        ensures
            r.tool == self@.tool(),
            r.program@ == self@.program(),
            r.args.deep_view() == self@.args(),
    {
        match self {
            RenderRequest::InlineMath { .. } => katex_invocation(false),
            RenderRequest::BlockMath { .. } => katex_invocation(true),
            RenderRequest::Diagram { .. } => plantuml_invocation(),
            RenderRequest::Code { lang, .. } => pygmentize_invocation(lang.as_str()),
        }
    }
}

/// The request for a fenced block with the tag `lang` and the content
/// `source`.
pub open spec fn block_request(lang: Seq<char>, source: Seq<char>) -> RequestView {
    match route_of(lang) {
        Route::Diagram => RequestView::Diagram { source },
        Route::Math => RequestView::BlockMath { source },
        Route::Code => RequestView::Code { source, lang },
    }
}

/// The request for a fenced block with the tag `lang` and the content
/// `source`.
pub fn request_block(lang: &str, source: &str) -> (r: RenderRequest)
    ensures
        r@ == block_request(lang@, source@),
{
    match route(lang) {
        Route::Diagram => RenderRequest::Diagram { source: source.to_owned() },
        Route::Math => RenderRequest::BlockMath { source: source.to_owned() },
        Route::Code => RenderRequest::Code { source: source.to_owned(), lang: lang.to_owned() },
    }
}

/// A fenced block with the diagram tag goes to the diagram renderer and one
/// with the mathematics tag to the mathematics renderer: neither reaches the
/// code renderer. A block with any other tag, or with none, always does.
pub proof fn reserved_tags_bypass_code_renderer(lang: Seq<char>, source: Seq<char>)
    ensures
        lang == diagram_tag() ==> block_request(lang, source) == (RequestView::Diagram { source }),
        lang == math_tag() ==> block_request(lang, source) == (RequestView::BlockMath { source }),
        lang != diagram_tag() && lang != math_tag() ==> block_request(lang, source) == (
        RequestView::Code { source, lang }),
        block_request(lang, source).tool() == Tool::Pygmentize <==> (lang != diagram_tag() && lang
            != math_tag()),
{
    reveal_strlit("plantuml");
    reveal_strlit("katex");
    assert(diagram_tag().len() != math_tag().len());
}

/// The markup that takes the place of a fenced block with the tag `lang`,
/// given how the run of its renderer ended, and whether the page then needs
/// the stylesheet for mathematics. A diagram stands in a figure; mathematics
/// asks for the stylesheet.
pub open spec fn block_markup(lang: Seq<char>, outcome: ProcessOutcome) -> Result<
    (Seq<char>, bool),
    RenderError,
> {
    match route_of(lang) {
        Route::Diagram => match plantuml_svg(outcome) {
            Ok(svg) => Ok(("<figure>"@ + svg + "</figure>"@, false)),
            Err(e) => Err(e),
        },
        Route::Math => match katex_block_markup(outcome) {
            Ok(markup) => Ok((markup, true)),
            Err(e) => Err(e),
        },
        Route::Code => match rendered_text(Tool::Pygmentize, outcome) {
            Ok(markup) => Ok((markup, false)),
            Err(e) => Err(e),
        },
    }
}

/// The markup that takes the place of a fenced block with the tag `lang`,
/// given how the run of its renderer ended. A failure of the renderer is
/// handed on.
pub fn format_code(lang: &str, outcome: ProcessOutcome) -> (r: Result<FormatResponse, RenderError>)
    ensures
        match r {
            Ok(response) => block_markup(lang@, outcome) == Ok::<(Seq<char>, bool), RenderError>(
                (response.output@, response.include_katex_css),
            ),
            Err(e) => block_markup(lang@, outcome) == Err::<(Seq<char>, bool), RenderError>(e),
        },
{
    match route(lang) {
        Route::Diagram => match create_plantuml_svg(outcome) {
            Ok(svg) => Ok(
                FormatResponse {
                    output: join3("<figure>", svg.as_str(), "</figure>"),
                    include_katex_css: false,
                },
            ),
            Err(e) => Err(e),
        },
        Route::Math => match create_katex_block(outcome) {
            Ok(markup) => Ok(FormatResponse { output: markup, include_katex_css: true }),
            Err(e) => Err(e),
        },
        Route::Code => match create_code_block(outcome) {
            Ok(markup) => Ok(FormatResponse { output: markup, include_katex_css: false }),
            Err(e) => Err(e),
        },
    }
}

/// The figure that takes the place of a paragraph which holds one image and
/// nothing else. `alt` is the text of the image's description and always
/// becomes the `alt` attribute. The caption is the title where the image has
/// one, else the description where it has one; an image with neither stands
/// in the figure without a caption.
pub open spec fn figure_markup(url: Seq<char>, title: Seq<char>, alt: Seq<char>) -> Seq<char> {
    if title.len() > 0 {
        "<figure><img src=\""@ + url + "\" alt=\""@ + alt + "\" title=\""@ + title
            + "\"><figcaption>"@ + title + "</figcaption></figure>"@
    } else if alt.len() > 0 {
        "<figure><img src=\""@ + url + "\" alt=\""@ + alt + "\"><figcaption>"@ + alt
            + "</figcaption></figure>"@
    } else {
        "<figure><img src=\""@ + url + "\" alt=\"\"></figure>"@
    }
}

/// The figure that takes the place of a paragraph which holds one image and
/// nothing else.
pub fn wrap_image_in_figure(url: &str, title: &str, alt: &str) -> (r: String)
    ensures
        r@ == figure_markup(url@, title@, alt@),
{
    let mut out = "<figure><img src=\"".to_owned();
    out.append(url);
    if title.unicode_len() > 0 {
        out.append("\" alt=\"");
        out.append(alt);
        out.append("\" title=\"");
        out.append(title);
        out.append("\"><figcaption>");
        out.append(title);
        out.append("</figcaption></figure>");
    } else if alt.unicode_len() > 0 {
        out.append("\" alt=\"");
        out.append(alt);
        out.append("\"><figcaption>");
        out.append(alt);
        out.append("</figcaption></figure>");
    } else {
        out.append("\" alt=\"\"></figure>");
    }
    out
}

/// A transformation at the point where it waits for a renderer.
pub enum TransformView {
    /// The inline mathematics is being rendered: `fills` holds what takes the
    /// place of the first spans, and the next span is with the renderer.
    Inline {
        gaps: Seq<Seq<char>>,
        spans: Seq<SpanView>,
        fills: Seq<Seq<char>>,
        found_inline_tex: bool,
    },
    /// The blocks of `text` are being rendered: `edits` holds the changes for
    /// the jobs before `next`, and job `next` is with the renderer.
    Blocks {
        text: Seq<char>,
        jobs: Seq<JobView>,
        next: nat,
        edits: Seq<EditView>,
        use_katex_css: bool,
    },
}

/// How far a transformation has come.
pub enum ProgressView {
    /// `request` is to be rendered; the transformation goes on from `state`
    /// with the outcome.
    Pending { state: TransformView, request: RequestView },
    /// The document is transformed.
    Done { output: Seq<char>, include_katex_css: bool },
    /// A block could not be rendered: there is no output.
    Failed { error: RenderError },
}

/// The changes that a job which needs no renderer makes to the tree.
pub open spec fn own_edits(job: JobView) -> Seq<EditView> {
    match job {
        JobView::Code { .. } => Seq::empty(),
        JobView::Html { index, literal } => seq![EditView::Replace { index, html: literal }],
        JobView::Figure { index, html } => seq![
            EditView::Detach { index: index + 1 },
            EditView::Replace { index, html },
        ],
    }
}

/// Goes through the jobs from `next` on. The first fenced block is handed
/// out for rendering. When no job is left the tree is written out.
pub open spec fn settle_blocks(
    text: Seq<char>,
    jobs: Seq<JobView>,
    next: nat,
    edits: Seq<EditView>,
    use_katex_css: bool,
) -> ProgressView
    decreases jobs.len() - next,
{
    if next >= jobs.len() {
        ProgressView::Done {
            output: rendered_html(text, standard_grammar(), edits),
            include_katex_css: use_katex_css,
        }
    } else {
        match jobs[next as int] {
            JobView::Code { lang, source, .. } => ProgressView::Pending {
                state: TransformView::Blocks { text, jobs, next, edits, use_katex_css },
                request: block_request(lang, source),
            },
            job => settle_blocks(text, jobs, next + 1, edits + own_edits(job), use_katex_css),
        }
    }
}

/// Hands out the next span of inline mathematics. When every span has its
/// fill the text is put together and parsed, and its blocks come next; the
/// stylesheet is asked for from the start where a span was rendered.
pub open spec fn settle_inline(
    gaps: Seq<Seq<char>>,
    spans: Seq<SpanView>,
    fills: Seq<Seq<char>>,
    found_inline_tex: bool,
) -> ProgressView {
    if fills.len() < spans.len() {
        ProgressView::Pending {
            state: TransformView::Inline { gaps, spans, fills, found_inline_tex },
            request: RequestView::InlineMath { source: spans[fills.len() as int].inner },
        }
    } else {
        let text = weave(gaps, fills);
        settle_blocks(
            text,
            block_jobs(parsed_nodes(text, standard_grammar())),
            0,
            Seq::empty(),
            found_inline_tex,
        )
    }
}

/// Where the transformation of `src` stands before anything was rendered.
pub open spec fn begin(src: Seq<char>) -> ProgressView {
    let cut = inline_scan(src);
    settle_inline(cut.gaps, cut.spans, Seq::empty(), false)
}

/// Where the transformation stands after the request that `state` waited
/// for ended with `outcome`.
///
/// A span of inline mathematics that was rendered is replaced by the markup;
/// one that failed stays as it is written, and does not ask for the
/// stylesheet. A block that was rendered is replaced by its markup; one that
/// failed ends the transformation with the error.
pub open spec fn resumed(state: TransformView, outcome: ProcessOutcome) -> ProgressView {
    match state {
        TransformView::Inline { gaps, spans, fills, found_inline_tex } => {
            if fills.len() < spans.len() {
                match katex_inline_markup(outcome) {
                    Ok(markup) => settle_inline(gaps, spans, fills.push(markup), true),
                    Err(_) => settle_inline(
                        gaps,
                        spans,
                        fills.push(spans[fills.len() as int].whole),
                        found_inline_tex,
                    ),
                }
            } else {
                settle_inline(gaps, spans, fills, found_inline_tex)
            }
        },
        TransformView::Blocks { text, jobs, next, edits, use_katex_css } => {
            if next < jobs.len() {
                match jobs[next as int] {
                    JobView::Code { index, lang, .. } => match block_markup(lang, outcome) {
                        Ok((html, math)) => settle_blocks(
                            text,
                            jobs,
                            next + 1,
                            edits.push(EditView::Replace { index, html }),
                            use_katex_css || math,
                        ),
                        Err(error) => ProgressView::Failed { error },
                    },
                    _ => settle_blocks(text, jobs, next, edits, use_katex_css),
                }
            } else {
                settle_blocks(text, jobs, next, edits, use_katex_css)
            }
        },
    }
}

/// Whether the page needs the stylesheet for mathematics, as far as the
/// state knows.
pub open spec fn state_wants_stylesheet(state: TransformView) -> bool {
    match state {
        TransformView::Inline { found_inline_tex, .. } => found_inline_tex,
        TransformView::Blocks { use_katex_css, .. } => use_katex_css,
    }
}

/// Whether the page needs the stylesheet for mathematics, as far as the
/// transformation has come.
pub open spec fn wants_stylesheet(progress: ProgressView) -> bool {
    match progress {
        ProgressView::Pending { state, .. } => state_wants_stylesheet(state),
        ProgressView::Done { include_katex_css, .. } => include_katex_css,
        ProgressView::Failed { .. } => false,
    }
}

/// Going through the jobs leaves the need for the stylesheet as it is.
pub proof fn blocks_keep_stylesheet(
    text: Seq<char>,
    jobs: Seq<JobView>,
    next: nat,
    edits: Seq<EditView>,
    use_katex_css: bool,
)
    ensures
        wants_stylesheet(settle_blocks(text, jobs, next, edits, use_katex_css)) == use_katex_css,
    decreases jobs.len() - next,
{
    if next < jobs.len() {
        let job = jobs[next as int];
        if !(job is Code) {
            blocks_keep_stylesheet(text, jobs, next + 1, edits + own_edits(job), use_katex_css);
        }
    }
}

/// Handing out the spans leaves the need for the stylesheet as it is.
pub proof fn inline_keeps_stylesheet(
    gaps: Seq<Seq<char>>,
    spans: Seq<SpanView>,
    fills: Seq<Seq<char>>,
    found_inline_tex: bool,
)
    ensures
        wants_stylesheet(settle_inline(gaps, spans, fills, found_inline_tex)) == found_inline_tex,
{
    if fills.len() >= spans.len() {
        let text = weave(gaps, fills);
        blocks_keep_stylesheet(
            text,
            block_jobs(parsed_nodes(text, standard_grammar())),
            0,
            Seq::empty(),
            found_inline_tex,
        );
    }
}

/// The need for the stylesheet is the disjunction of what was rendered: once
/// a state asks for it, every later state and the finished document do, and
/// a rendered span or block of mathematics makes the state ask for it. Only
/// a transformation that fails has no answer.
pub proof fn stylesheet_follows_rendered_mathematics(state: TransformView, outcome: ProcessOutcome)
    ensures
        state_wants_stylesheet(state) && !(resumed(state, outcome) is Failed) ==> wants_stylesheet(
            resumed(state, outcome),
        ),
        state matches TransformView::Inline { spans, fills, .. } && fills.len() < spans.len()
            && katex_inline_markup(outcome) is Ok ==> wants_stylesheet(resumed(state, outcome)),
        state matches TransformView::Inline { spans, fills, found_inline_tex, .. }
            && !found_inline_tex && katex_inline_markup(outcome) is Err ==> !wants_stylesheet(
            resumed(state, outcome),
        ),
        state matches TransformView::Blocks { jobs, next, .. } && next < jobs.len() && (
        jobs[next as int] matches JobView::Code { lang, .. } && lang == math_tag() && block_markup(
            lang,
            outcome,
        ) is Ok) ==> wants_stylesheet(resumed(state, outcome)),
{
    reveal_strlit("plantuml");
    reveal_strlit("katex");
    assert(diagram_tag().len() != math_tag().len());
    match state {
        TransformView::Inline { gaps, spans, fills, found_inline_tex } => {
            if fills.len() < spans.len() {
                match katex_inline_markup(outcome) {
                    Ok(markup) => inline_keeps_stylesheet(gaps, spans, fills.push(markup), true),
                    Err(_) => inline_keeps_stylesheet(
                        gaps,
                        spans,
                        fills.push(spans[fills.len() as int].whole),
                        found_inline_tex,
                    ),
                }
            } else {
                inline_keeps_stylesheet(gaps, spans, fills, found_inline_tex);
            }
        },
        TransformView::Blocks { text, jobs, next, edits, use_katex_css } => {
            if next < jobs.len() {
                match jobs[next as int] {
                    JobView::Code { index, lang, .. } => match block_markup(lang, outcome) {
                        Ok((html, math)) => blocks_keep_stylesheet(
                            text,
                            jobs,
                            next + 1,
                            edits.push(EditView::Replace { index, html }),
                            use_katex_css || math,
                        ),
                        Err(_) => {},
                    },
                    _ => blocks_keep_stylesheet(text, jobs, next, edits, use_katex_css),
                }
            } else {
                blocks_keep_stylesheet(text, jobs, next, edits, use_katex_css);
            }
        },
    }
}

/// Jobs that need no renderer are done without one: where no fenced block
/// is left among the jobs, HTML and figures are put in place and the document
/// is finished, with the need for the stylesheet as it was.
pub proof fn html_and_figures_need_no_renderer(
    text: Seq<char>,
    jobs: Seq<JobView>,
    next: nat,
    edits: Seq<EditView>,
    use_katex_css: bool,
)
    requires
        forall|k: int| next <= k < jobs.len() ==> !((#[trigger] jobs[k]) is Code),
    ensures
        settle_blocks(text, jobs, next, edits, use_katex_css) is Done,
        settle_blocks(text, jobs, next, edits, use_katex_css)->include_katex_css == use_katex_css,
    decreases jobs.len() - next,
{
    if next < jobs.len() {
        let job = jobs[next as int];
        html_and_figures_need_no_renderer(
            text,
            jobs,
            next + 1,
            edits + own_edits(job),
            use_katex_css,
        );
    }
}

/// Whether `state` waits for a block whose rendering, ended with `outcome`,
/// has failed.
pub open spec fn block_failed(state: TransformView, outcome: ProcessOutcome) -> bool {
    match state {
        TransformView::Blocks { jobs, next, .. } => next < jobs.len() && (match jobs[next as int] {
            JobView::Code { lang, .. } => block_markup(lang, outcome) is Err,
            _ => false,
        }),
        TransformView::Inline { .. } => false,
    }
}

/// Going through the jobs never fails.
pub proof fn blocks_settle_without_failure(
    text: Seq<char>,
    jobs: Seq<JobView>,
    next: nat,
    edits: Seq<EditView>,
    use_katex_css: bool,
)
    ensures
        !(settle_blocks(text, jobs, next, edits, use_katex_css) is Failed),
    decreases jobs.len() - next,
{
    if next < jobs.len() {
        let job = jobs[next as int];
        if !(job is Code) {
            blocks_settle_without_failure(
                text,
                jobs,
                next + 1,
                edits + own_edits(job),
                use_katex_css,
            );
        }
    }
}

/// A transformation fails exactly when the renderer of a block fails, and
/// then with that renderer's error: a span of inline mathematics that cannot
/// be rendered never ends it, and neither does its start.
pub proof fn only_a_failed_block_ends_the_transformation(
    src: Seq<char>,
    state: TransformView,
    outcome: ProcessOutcome,
)
    ensures
        !(begin(src) is Failed),
        resumed(state, outcome) is Failed <==> block_failed(state, outcome),
        block_failed(state, outcome) ==> resumed(state, outcome) == (ProgressView::Failed {
            error: block_markup(
                state->Blocks_jobs[state->Blocks_next as int]->Code_lang,
                outcome,
            )->Err_0,
        }),
{
    let cut = inline_scan(src);
    let first = weave(cut.gaps, Seq::<Seq<char>>::empty());
    blocks_settle_without_failure(
        first,
        block_jobs(parsed_nodes(first, standard_grammar())),
        0,
        Seq::empty(),
        false,
    );
    match state {
        TransformView::Inline { gaps, spans, fills, found_inline_tex } => {
            let filled = if fills.len() < spans.len() {
                match katex_inline_markup(outcome) {
                    Ok(markup) => fills.push(markup),
                    Err(_) => fills.push(spans[fills.len() as int].whole),
                }
            } else {
                fills
            };
            let text = weave(gaps, filled);
            blocks_settle_without_failure(
                text,
                block_jobs(parsed_nodes(text, standard_grammar())),
                0,
                Seq::empty(),
                true,
            );
            blocks_settle_without_failure(
                text,
                block_jobs(parsed_nodes(text, standard_grammar())),
                0,
                Seq::empty(),
                found_inline_tex,
            );
        },
        TransformView::Blocks { text, jobs, next, edits, use_katex_css } => {
            if next < jobs.len() {
                match jobs[next as int] {
                    JobView::Code { index, lang, .. } => match block_markup(lang, outcome) {
                        Ok((html, math)) => blocks_settle_without_failure(
                            text,
                            jobs,
                            next + 1,
                            edits.push(EditView::Replace { index, html }),
                            use_katex_css || math,
                        ),
                        Err(_) => {},
                    },
                    _ => blocks_settle_without_failure(text, jobs, next, edits, use_katex_css),
                }
            } else {
                blocks_settle_without_failure(text, jobs, next, edits, use_katex_css);
            }
        },
    }
}

enum State {
    Inline { gaps: Vec<String>, spans: Vec<MathSpan>, fills: Vec<String>, found_inline_tex: bool },
    Blocks { text: String, jobs: Vec<Job>, next: usize, edits: Vec<Edit>, use_katex_css: bool },
}

/// A transformation that waits for a renderer.
pub struct Transform {
    state: State,
}

/// How far a transformation has come.
pub enum Progress {
    /// `request` is to be rendered; `state` takes the outcome.
    Pending { state: Transform, request: RenderRequest },
    /// The document is transformed.
    Done(FormatResponse),
    /// A block could not be rendered: there is no output.
    Failed(RenderError),
}

/// Whether every job and every edit suits the tree that is parsed from
/// `text`: none reaches past its nodes, and markup takes the place only of
/// code blocks, HTML and paragraphs.
spec fn within_tree(text: Seq<char>, jobs: Seq<Job>, edits: Seq<Edit>) -> bool {
    let nodes = parsed_nodes(text, standard_grammar());
    &&& nodes.len() <= usize::MAX
    &&& forall|k: int| 0 <= k < jobs.len() ==> job_fits((#[trigger] jobs[k])@, nodes)
    &&& edits_within(edits, nodes.len())
    &&& replaces_fit(edits, nodes)
}

impl Transform {
    #[verifier::type_invariant]
    spec fn wf(self) -> bool {
        match self.state {
            State::Inline { .. } => true,
            State::Blocks { text, jobs, edits, .. } => within_tree(text@, jobs@, edits@),
        }
    }
}

impl View for Transform {
    type V = TransformView;

    closed spec fn view(&self) -> TransformView {
        match self.state {
            State::Inline { gaps, spans, fills, found_inline_tex } => TransformView::Inline {
                gaps: text_views(gaps@),
                spans: span_views(spans@),
                fills: text_views(fills@),
                found_inline_tex,
            },
            State::Blocks { text, jobs, next, edits, use_katex_css } => TransformView::Blocks {
                text: text@,
                jobs: job_views(jobs@),
                next: next as nat,
                edits: edit_views(edits@),
                use_katex_css,
            },
        }
    }
}

impl View for Progress {
    type V = ProgressView;

    open spec fn view(&self) -> ProgressView {
        match *self {
            Progress::Pending { state, request } => ProgressView::Pending {
                state: state@,
                request: request@,
            },
            Progress::Done(response) => ProgressView::Done {
                output: response.output@,
                include_katex_css: response.include_katex_css,
            },
            Progress::Failed(error) => ProgressView::Failed { error },
        }
    }
}

/// Goes through the jobs from `from` on, after the edits `made`.
fn advance_blocks(
    text: String,
    jobs: Vec<Job>,
    from: usize,
    made: Vec<Edit>,
    use_katex_css: bool,
) -> (r: Progress)
    requires
        within_tree(text@, jobs@, made@),
    ensures
        r@ == settle_blocks(text@, job_views(jobs@), from as nat, edit_views(made@), use_katex_css),
{
    let ghost first = edit_views(made@);
    let ghost jv = job_views(jobs@);
    let mut next = from;
    let mut edits = made;
    while next < jobs.len()
        invariant
            jv == job_views(jobs@),
            first == edit_views(made@),
            within_tree(text@, jobs@, edits@),
            settle_blocks(text@, jv, next as nat, edit_views(edits@), use_katex_css)
                == settle_blocks(text@, jv, from as nat, first, use_katex_css),
        decreases jobs@.len() - next,
    {
        let ghost before = edit_views(edits@);
        let ghost job = jv[next as int];
        assert(job == jobs@[next as int]@);
        assert(job.reach() < parsed_nodes(text@, standard_grammar()).len());
        let request = match &jobs[next] {
            Job::Code { lang, source, .. } => Some(request_block(lang.as_str(), source.as_str())),
            Job::Html { index, literal } => {
                edits.push(Edit::Replace { index: *index, html: literal.clone() });
                None
            },
            Job::Figure { index, html } => {
                edits.push(Edit::Detach { index: *index + 1 });
                edits.push(Edit::Replace { index: *index, html: html.clone() });
                None
            },
        };
        match request {
            Some(request) => {
                proof {
                    assert(job is Code);
                    assert(request@ == block_request(job->Code_lang, job->Code_source));
                    assert(edit_views(edits@) == before);
                    assert(settle_blocks(text@, jv, next as nat, before, use_katex_css)
                        == ProgressView::Pending {
                        state: TransformView::Blocks {
                            text: text@,
                            jobs: jv,
                            next: next as nat,
                            edits: before,
                            use_katex_css,
                        },
                        request: request@,
                    });
                }
                let state = Transform {
                    state: State::Blocks { text, jobs, next, edits, use_katex_css },
                };
                let r = Progress::Pending { state, request };
                return r;
            },
            None => {
                proof {
                    assert(edit_views(edits@) =~= before + own_edits(job));
                }
                next += 1;
            },
        }
    }
    let grammar = Grammar::standard();
    match emit(text.as_str(), &grammar, &edits) {
        Some(output) => Progress::Done(FormatResponse { output, include_katex_css: use_katex_css }),
        None => {
            proof {
                assert(false);
            }
            Progress::Done(FormatResponse { output: text, include_katex_css: use_katex_css })
        },
    }
}

/// Hands out the next span of inline mathematics, or goes on to the blocks.
fn advance_inline(
    gaps: Vec<String>,
    spans: Vec<MathSpan>,
    fills: Vec<String>,
    found_inline_tex: bool,
) -> (r: Progress)
    ensures
        r@ == settle_inline(
            text_views(gaps@),
            span_views(spans@),
            text_views(fills@),
            found_inline_tex,
        ),
{
    if fills.len() < spans.len() {
        let request = RenderRequest::InlineMath { source: spans[fills.len()].inner.clone() };
        proof {
            assert(span_views(spans@)[fills@.len() as int] == spans@[fills@.len() as int]@);
        }
        Progress::Pending {
            state: Transform { state: State::Inline { gaps, spans, fills, found_inline_tex } },
            request,
        }
    } else {
        let text = weave_text(&gaps, &fills);
        let grammar = Grammar::standard();
        let nodes = outline(text.as_str(), &grammar);
        let jobs = plan(&nodes);
        let edits: Vec<Edit> = Vec::new();
        proof {
            assert(node_views(nodes@).len() == nodes@.len());
            assert(parsed_nodes(text@, standard_grammar()).len() == nodes@.len());
            assert(edit_views(edits@) =~= Seq::<EditView>::empty());
            assert(edits@.len() == 0);
            assert forall|k: int| 0 <= k < jobs@.len() implies (#[trigger] jobs@[k])@.reach()
                < parsed_nodes(text@, standard_grammar()).len() by {}
            assert(within_tree(text@, jobs@, edits@));
        }
        advance_blocks(text, jobs, 0, edits, found_inline_tex)
    }
}

/// Starts the transformation of the markdown text `src`: the inline
/// mathematics first, then the blocks of the parsed text, then the HTML.
/// Rendering is left to the caller: while the result is `Pending`, run the
/// request and hand the outcome to `Transform::resume`.
///
/// A text in which the pattern finds no inline mathematics goes to the
/// parser as it stands.
pub fn format_markdown(src: &str) -> (r: Progress)
    ensures
        r@ == begin(src@),
        inline_scan(src@).spans.len() == 0 ==> r@ == settle_blocks(
            src@,
            block_jobs(parsed_nodes(src@, standard_grammar())),
            0,
            Seq::empty(),
            false,
        ),
{
    let cut = scan(src);
    let InlineScan { gaps, spans } = cut;
    let fills: Vec<String> = Vec::new();
    proof {
        assert(text_views(fills@) =~= Seq::<Seq<char>>::empty());
        if spans@.len() == 0 {
            assert(written(span_views(spans@)) =~= Seq::<Seq<char>>::empty());
        }
    }
    advance_inline(gaps, spans, fills, false)
}

impl Transform {
    /// Goes on with the outcome of the request that the transformation
    /// waited for.
    pub fn resume(self, outcome: ProcessOutcome) -> (r: Progress)
        ensures
            r@ == resumed(self@, outcome),
    {
        proof {
            use_type_invariant(&self);
        }
        match self.state {
            State::Inline { gaps, spans, fills, found_inline_tex } => {
                if fills.len() < spans.len() {
                    let mut fills = fills;
                    let ghost before = text_views(fills@);
                    match create_katex_inline(outcome) {
                        Ok(markup) => {
                            proof {
                                assert(text_views(fills@.push(markup)) =~= before.push(markup@));
                            }
                            fills.push(markup);
                            advance_inline(gaps, spans, fills, true)
                        },
                        Err(_) => {
                            let whole = spans[fills.len()].whole.clone();
                            proof {
                                assert(text_views(fills@.push(whole)) =~= before.push(whole@));
                            }
                            fills.push(whole);
                            advance_inline(gaps, spans, fills, found_inline_tex)
                        },
                    }
                } else {
                    advance_inline(gaps, spans, fills, found_inline_tex)
                }
            },
            State::Blocks { text, jobs, next, edits, use_katex_css } => {
                if next < jobs.len() {
                    let lang = match &jobs[next] {
                        Job::Code { lang, .. } => Some(lang.clone()),
                        _ => None,
                    };
                    match lang {
                        Some(lang) => match format_code(lang.as_str(), outcome) {
                            Ok(response) => {
                                let mut edits = edits;
                                let ghost before = edit_views(edits@);
                                let index = jobs[next].index();
                                let FormatResponse { output, include_katex_css } = response;
                                edits.push(Edit::Replace { index, html: output });
                                proof {
                                    assert(edit_views(edits@) =~= before.push(
                                        EditView::Replace { index: index as nat, html: output@ },
                                    ));
                                }
                                advance_blocks(
                                    text,
                                    jobs,
                                    next + 1,
                                    edits,
                                    use_katex_css || include_katex_css,
                                )
                            },
                            Err(error) => Progress::Failed(error),
                        },
                        None => advance_blocks(text, jobs, next, edits, use_katex_css),
                    }
                } else {
                    advance_blocks(text, jobs, next, edits, use_katex_css)
                }
            },
        }
    }
}

} // verus!
