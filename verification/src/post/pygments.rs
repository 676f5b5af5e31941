use vstd::prelude::*;
use crate::post::process::{gives, read_output, rendered_text, Invocation, ProcessOutcome, RenderError, Tool};

verus! {

/// How to run Pygments on code in `lang`: `pygmentize -l <lang> -f html`.
pub fn pygmentize_invocation(lang: &str) -> (r: Invocation)
    ensures
        r.tool == Tool::Pygmentize,
        r.program@ == "pygmentize"@,
        r.args.deep_view() == seq!["-l"@, lang@, "-f"@, "html"@],
{
    let mut args: Vec<String> = Vec::new();
    args.push("-l".to_owned());
    args.push(lang.to_owned());
    args.push("-f".to_owned());
    args.push("html".to_owned());
    proof {
        assert(args.deep_view() =~= seq!["-l"@, lang@, "-f"@, "html"@]);
    }
    Invocation { tool: Tool::Pygmentize, program: "pygmentize".to_owned(), args }
}

/// The highlighted code, from the run of Pygments on it: what it wrote, as it
/// stands.
pub fn create_code_block(outcome: ProcessOutcome) -> (r: Result<String, RenderError>)
    ensures
        gives(r, rendered_text(Tool::Pygmentize, outcome)),
{
    read_output(Tool::Pygmentize, outcome)
}

} // verus!
