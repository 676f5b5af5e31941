use content_pipeline::post::katex::{create_katex_block, create_katex_inline, katex_invocation};
use content_pipeline::post::plantuml::{create_plantuml_svg, plantuml_invocation};
use content_pipeline::post::process::{read_output, ProcessOutcome, RenderError, Tool};
use content_pipeline::post::pygments::{create_code_block, pygmentize_invocation};

fn exited(success: bool, stdout: &[u8], stderr: &[u8]) -> ProcessOutcome {
    ProcessOutcome::Exited { success, stdout: stdout.to_vec(), stderr: stderr.to_vec() }
}

#[test]
fn katex_block_is_wrapped_in_a_figure() {
    let markup = create_katex_block(exited(true, b"<span>x</span>\n", b"")).unwrap();
    assert_eq!(markup, "<figure class=\"math\"><span>x</span>\n</figure>");
}

#[test]
fn katex_inline_is_trimmed() {
    let markup = create_katex_inline(exited(true, b" \t<span>x y</span> \r\n", b"")).unwrap();
    assert_eq!(markup, "<span>x y</span>");
}

#[test]
fn katex_runs_in_display_mode_for_blocks_only() {
    let block = katex_invocation(true);
    assert_eq!(block.tool, Tool::Katex);
    assert_eq!(block.program, "katex");
    assert_eq!(block.args, vec!["-d", "-t"]);
    let inline = katex_invocation(false);
    assert_eq!(inline.program, "katex");
    assert_eq!(inline.args, vec!["-t"]);
}

#[test]
fn plantuml_svg_loses_its_xml_declaration() {
    let svg = create_plantuml_svg(exited(
        true,
        b"<?xml version=\"1.0\" encoding=\"UTF-8\" standalone=\"no\"?><svg><g/></svg>",
        b"",
    ))
    .unwrap();
    assert_eq!(svg, "<svg><g/></svg>");
}

#[test]
fn plantuml_svg_without_declaration_is_unchanged() {
    let svg = create_plantuml_svg(exited(true, b"<svg>\xc3\xa9</svg>", b"")).unwrap();
    assert_eq!(svg, "<svg>\u{e9}</svg>");
}

#[test]
fn plantuml_is_asked_for_svg_without_metadata() {
    let invocation = plantuml_invocation();
    assert_eq!(invocation.tool, Tool::Plantuml);
    assert_eq!(invocation.program, "plantuml");
    assert_eq!(invocation.args, vec!["-tsvg", "-nometadata", "-pipe"]);
}

#[test]
fn pygmentize_gets_the_language() {
    let invocation = pygmentize_invocation("rust");
    assert_eq!(invocation.tool, Tool::Pygmentize);
    assert_eq!(invocation.program, "pygmentize");
    assert_eq!(invocation.args, vec!["-l", "rust", "-f", "html"]);
}

#[test]
fn code_block_markup_is_handed_on_as_it_is() {
    let markup = create_code_block(exited(true, b" <div>x</div>\n", b"")).unwrap();
    assert_eq!(markup, " <div>x</div>\n");
}

#[test]
fn nonzero_exit_fails_whatever_was_written() {
    match create_code_block(exited(false, b"<div>fine</div>", b"warning")) {
        Err(RenderError::Failed { tool, stdout, stderr }) => {
            assert_eq!(tool, Tool::Pygmentize);
            assert_eq!(stdout, b"<div>fine</div>".to_vec());
            assert_eq!(stderr, b"warning".to_vec());
        }
        other => panic!("unexpected result: {:?}", other),
    }
    assert!(matches!(
        create_katex_block(exited(false, b"", b"")),
        Err(RenderError::Failed { tool: Tool::Katex, .. })
    ));
    assert!(matches!(
        create_katex_inline(exited(false, b"x", b"")),
        Err(RenderError::Failed { tool: Tool::Katex, .. })
    ));
    assert!(matches!(
        create_plantuml_svg(exited(false, b"<svg/>", b"")),
        Err(RenderError::Failed { tool: Tool::Plantuml, .. })
    ));
}

#[test]
fn tool_that_did_not_start_is_unavailable() {
    assert!(matches!(
        create_katex_block(ProcessOutcome::Unavailable),
        Err(RenderError::Unavailable { tool: Tool::Katex })
    ));
    assert!(matches!(
        create_katex_inline(ProcessOutcome::Unavailable),
        Err(RenderError::Unavailable { tool: Tool::Katex })
    ));
    assert!(matches!(
        create_plantuml_svg(ProcessOutcome::Unavailable),
        Err(RenderError::Unavailable { tool: Tool::Plantuml })
    ));
    assert!(matches!(
        create_code_block(ProcessOutcome::Unavailable),
        Err(RenderError::Unavailable { tool: Tool::Pygmentize })
    ));
}

#[test]
fn output_that_is_not_utf8_is_an_encoding_error() {
    assert!(matches!(
        create_katex_block(exited(true, b"ok \xff", b"")),
        Err(RenderError::Encoding { tool: Tool::Katex })
    ));
    assert!(matches!(
        create_code_block(exited(true, b"\xc3", b"")),
        Err(RenderError::Encoding { tool: Tool::Pygmentize })
    ));
}

#[test]
fn read_output_decodes_utf8() {
    let text = read_output(Tool::Katex, exited(true, "gr\u{fc}n \u{2603}".as_bytes(), b"")).unwrap();
    assert_eq!(text, "gr\u{fc}n \u{2603}");
    let empty = read_output(Tool::Katex, exited(true, b"", b"noise")).unwrap();
    assert_eq!(empty, "");
}
