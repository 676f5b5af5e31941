use vstd::prelude::*;
use crate::post::process::{gives, read_output, rendered_text, Invocation, ProcessOutcome, RenderError, Tool};
use crate::text::{join3, trim, trimmed};

verus! {

/// The markup for a block of mathematics: what KaTeX wrote in display mode,
/// inside a figure.
pub open spec fn katex_block_markup(outcome: ProcessOutcome) -> Result<Seq<char>, RenderError> {
    match rendered_text(Tool::Katex, outcome) {
        Ok(text) => Ok("<figure class=\"math\">"@ + text + "</figure>"@),
        Err(e) => Err(e),
    }
}

/// The markup for mathematics within a line: what KaTeX wrote, without the
/// white space around it.
pub open spec fn katex_inline_markup(outcome: ProcessOutcome) -> Result<Seq<char>, RenderError> {
    match rendered_text(Tool::Katex, outcome) {
        Ok(text) => Ok(trimmed(text)),
        Err(e) => Err(e),
    }
}

/// How to run KaTeX: `katex -d -t` for a block, `katex -t` within a line.
pub fn katex_invocation(display: bool) -> (r: Invocation)
    ensures
        r.tool == Tool::Katex,
        r.program@ == "katex"@,
        r.args.deep_view() == (if display {
            seq!["-d"@, "-t"@]
        } else {
            seq!["-t"@]
        }),
{
    let mut args: Vec<String> = Vec::new();
    if display {
        args.push("-d".to_owned());
    }
    args.push("-t".to_owned());
    proof {
        if display {
            assert(args.deep_view() =~= seq!["-d"@, "-t"@]);
        } else {
            assert(args.deep_view() =~= seq!["-t"@]);
        }
    }
    Invocation { tool: Tool::Katex, program: "katex".to_owned(), args }
}

/// The markup for a block of mathematics, from the run of KaTeX on it.
pub fn create_katex_block(outcome: ProcessOutcome) -> (r: Result<String, RenderError>)
    ensures
        gives(r, katex_block_markup(outcome)),
{
    match read_output(Tool::Katex, outcome) {
        Ok(text) => Ok(join3("<figure class=\"math\">", text.as_str(), "</figure>")),
        Err(e) => Err(e),
    }
}

/// The markup for mathematics within a line, from the run of KaTeX on it.
pub fn create_katex_inline(outcome: ProcessOutcome) -> (r: Result<String, RenderError>)
    ensures
        gives(r, katex_inline_markup(outcome)),
{
    match read_output(Tool::Katex, outcome) {
        Ok(text) => Ok(trim(text.as_str())),
        Err(e) => Err(e),
    }
}

} // verus!
