use vstd::prelude::*;
use crate::post::process::{gives, read_output, rendered_text, Invocation, ProcessOutcome, RenderError, Tool};
use crate::text::{remove_all, without};

verus! {

/// The XML declaration that PlantUML puts before an SVG image.
pub open spec fn xml_declaration() -> Seq<char> {
    "<?xml version=\"1.0\" encoding=\"UTF-8\" standalone=\"no\"?>"@
}

/// The image for a diagram: what PlantUML wrote, without the XML declaration
/// (the page that embeds the image has its own document type).
pub open spec fn plantuml_svg(outcome: ProcessOutcome) -> Result<Seq<char>, RenderError> {
    match rendered_text(Tool::Plantuml, outcome) {
        Ok(text) => Ok(without(text, xml_declaration())),
        Err(e) => Err(e),
    }
}

/// How to run PlantUML: `plantuml -tsvg -nometadata -pipe`.
pub fn plantuml_invocation() -> (r: Invocation)
    ensures
        r.tool == Tool::Plantuml,
        r.program@ == "plantuml"@,
        r.args.deep_view() == seq!["-tsvg"@, "-nometadata"@, "-pipe"@],
{
    let mut args: Vec<String> = Vec::new();
    args.push("-tsvg".to_owned());
    args.push("-nometadata".to_owned());
    args.push("-pipe".to_owned());
    proof {
        assert(args.deep_view() =~= seq!["-tsvg"@, "-nometadata"@, "-pipe"@]);
    }
    Invocation { tool: Tool::Plantuml, program: "plantuml".to_owned(), args }
}

/// The image for a diagram, from the run of PlantUML on its description.
pub fn create_plantuml_svg(outcome: ProcessOutcome) -> (r: Result<String, RenderError>)
    ensures
        gives(r, plantuml_svg(outcome)),
{
    match read_output(Tool::Plantuml, outcome) {
        Ok(text) => Ok(
            remove_all(
                text.as_str(),
                "<?xml version=\"1.0\" encoding=\"UTF-8\" standalone=\"no\"?>",
            ),
        ),
        Err(e) => Err(e),
    }
}

} // verus!
