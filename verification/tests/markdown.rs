use content_pipeline::post::markdown::{
    format_code, format_markdown, route, wrap_image_in_figure, FormatResponse, Progress,
    RenderRequest, Route,
};
use content_pipeline::post::process::{ProcessOutcome, RenderError, Tool};
use content_pipeline::post::tree::{emit, outline, Edit, Grammar, NodeKind};

const TABLE: &str = "| a | b |\n|---|---|\n| c | d |\n";

const XML: &str = "<?xml version=\"1.0\" encoding=\"UTF-8\" standalone=\"no\"?>";

fn exited(success: bool, stdout: &str) -> ProcessOutcome {
    ProcessOutcome::Exited { success, stdout: stdout.as_bytes().to_vec(), stderr: Vec::new() }
}

/// A renderer that succeeds and shows which request it served.
fn echo(request: &RenderRequest) -> ProcessOutcome {
    match request {
        RenderRequest::InlineMath { source } => exited(true, &format!(" <i>{}</i>\n", source)),
        RenderRequest::BlockMath { source } => exited(true, &format!("<b>{}</b>", source)),
        RenderRequest::Diagram { source } => exited(true, &format!("{}<svg>{}</svg>", XML, source)),
        RenderRequest::Code { source, lang } => {
            exited(true, &format!("<pre class=\"{}\">{}</pre>", lang, source))
        }
    }
}

fn failing(_request: &RenderRequest) -> ProcessOutcome {
    exited(false, "partial output")
}

/// Runs a transformation to its end, answering every request with `render`
/// and recording the requests.
fn drive(
    src: &str,
    render: &dyn Fn(&RenderRequest) -> ProcessOutcome,
    seen: &mut Vec<RenderRequest>,
) -> Result<FormatResponse, RenderError> {
    let mut progress = format_markdown(src);
    loop {
        match progress {
            Progress::Pending { state, request } => {
                let outcome = render(&request);
                seen.push(request);
                progress = state.resume(outcome);
            }
            Progress::Done(response) => return Ok(response),
            Progress::Failed(error) => return Err(error),
        }
    }
}

fn html(src: &str) -> String {
    let mut seen = Vec::new();
    drive(src, &echo, &mut seen).unwrap().output
}

#[test]
fn plain_paragraph_becomes_html() {
    let mut seen = Vec::new();
    let response = drive("hello", &failing, &mut seen).unwrap();
    assert_eq!(response.output, "<p>hello</p>\n");
    assert!(!response.include_katex_css);
    assert!(seen.is_empty());
}

#[test]
fn empty_text_gives_empty_html() {
    let mut seen = Vec::new();
    let response = drive("", &failing, &mut seen).unwrap();
    assert_eq!(response.output, "");
    assert!(!response.include_katex_css);
}

#[test]
fn failing_inline_math_leaves_text_as_written() {
    let mut seen = Vec::new();
    let response = drive("The value $x$ is positive.", &failing, &mut seen).unwrap();
    assert_eq!(response.output, "<p>The value $x$ is positive.</p>\n");
    assert!(!response.include_katex_css);
    assert_eq!(seen.len(), 1);
    assert!(matches!(&seen[0], RenderRequest::InlineMath { source } if source == "x"));
}

#[test]
fn unavailable_inline_renderer_leaves_text_as_written() {
    let mut seen = Vec::new();
    let response =
        drive("so \\(a+b\\) holds", &|_| ProcessOutcome::Unavailable, &mut seen).unwrap();
    // The span stays in the text as written; markdown then reads `\(` as an
    // escaped bracket.
    assert_eq!(response.output, "<p>so (a+b) holds</p>\n");
    assert!(!response.include_katex_css);
    assert_eq!(seen.len(), 1);
    assert!(matches!(&seen[0], RenderRequest::InlineMath { source } if source == "a+b"));
}

#[test]
fn inline_math_is_replaced_by_trimmed_markup() {
    let mut seen = Vec::new();
    let response = drive("Value $x$ and \\(y\\) here\n", &echo, &mut seen).unwrap();
    assert_eq!(response.output, "<p>Value <i>x</i> and <i>y</i> here</p>\n");
    assert!(response.include_katex_css);
    assert_eq!(seen.len(), 2);
    assert!(matches!(&seen[0], RenderRequest::InlineMath { source } if source == "x"));
    assert!(matches!(&seen[1], RenderRequest::InlineMath { source } if source == "y"));
    assert_eq!(seen[0].invocation().program, "katex");
    assert_eq!(seen[0].invocation().args, vec!["-t".to_string()]);
}

#[test]
fn one_rendered_span_is_enough_for_the_stylesheet() {
    let mut seen = Vec::new();
    let response = drive(
        "first $a$ then $b$",
        &|request| match request {
            RenderRequest::InlineMath { source } if source == "b" => exited(true, "<i>B</i>"),
            _ => exited(false, ""),
        },
        &mut seen,
    )
    .unwrap();
    assert_eq!(response.output, "<p>first $a$ then <i>B</i></p>\n");
    assert!(response.include_katex_css);
}

#[test]
fn inline_math_does_not_cross_lines() {
    let mut seen = Vec::new();
    let response = drive("costs $5\nand $6 more", &echo, &mut seen).unwrap();
    assert!(seen.is_empty());
    assert_eq!(response.output, "<p>costs $5\nand $6 more</p>\n");
}

#[test]
fn python_block_goes_to_the_code_renderer() {
    let mut seen = Vec::new();
    let response = drive("```python\nprint(1)\n```\n", &echo, &mut seen).unwrap();
    assert_eq!(seen.len(), 1);
    assert!(matches!(
        &seen[0],
        RenderRequest::Code { source, lang } if source == "print(1)\n" && lang == "python"
    ));
    let invocation = seen[0].invocation();
    assert_eq!(invocation.tool, Tool::Pygmentize);
    assert_eq!(invocation.program, "pygmentize");
    assert_eq!(invocation.args, vec!["-l", "python", "-f", "html"]);
    assert_eq!(response.output, "<pre class=\"python\">print(1)\n</pre>");
    assert!(!response.include_katex_css);
}

#[test]
fn block_without_tag_goes_to_the_code_renderer() {
    let mut seen = Vec::new();
    drive("```\nplain\n```\n", &echo, &mut seen).unwrap();
    assert_eq!(seen.len(), 1);
    assert!(matches!(
        &seen[0],
        RenderRequest::Code { source, lang } if source == "plain\n" && lang.is_empty()
    ));
}

#[test]
fn diagram_block_never_reaches_the_code_renderer() {
    let mut seen = Vec::new();
    let response = drive("```plantuml\nA -> B\n```\n", &echo, &mut seen).unwrap();
    assert_eq!(seen.len(), 1);
    assert!(matches!(&seen[0], RenderRequest::Diagram { source } if source == "A -> B\n"));
    let invocation = seen[0].invocation();
    assert_eq!(invocation.tool, Tool::Plantuml);
    assert_eq!(invocation.program, "plantuml");
    assert_eq!(invocation.args, vec!["-tsvg", "-nometadata", "-pipe"]);
    assert_eq!(response.output, "<figure><svg>A -> B\n</svg></figure>");
    assert!(!response.include_katex_css);
}

#[test]
fn math_block_never_reaches_the_code_renderer() {
    let mut seen = Vec::new();
    let response = drive("```katex\nx^2\n```\n", &echo, &mut seen).unwrap();
    assert_eq!(seen.len(), 1);
    assert!(matches!(&seen[0], RenderRequest::BlockMath { source } if source == "x^2\n"));
    let invocation = seen[0].invocation();
    assert_eq!(invocation.tool, Tool::Katex);
    assert_eq!(invocation.program, "katex");
    assert_eq!(invocation.args, vec!["-d", "-t"]);
    assert_eq!(response.output, "<figure class=\"math\"><b>x^2\n</b></figure>");
    assert!(response.include_katex_css);
}

#[test]
fn blocks_are_rendered_in_document_order() {
    let mut seen = Vec::new();
    let response = drive(
        "```katex\nx\n```\n\ntext\n\n> ```rust\n> fn f() {}\n> ```\n",
        &echo,
        &mut seen,
    )
    .unwrap();
    assert_eq!(seen.len(), 2);
    assert!(matches!(&seen[0], RenderRequest::BlockMath { .. }));
    assert!(matches!(&seen[1], RenderRequest::Code { lang, .. } if lang == "rust"));
    assert_eq!(
        response.output,
        "<figure class=\"math\"><b>x\n</b></figure>\n<p>text</p>\n<blockquote>\n<pre class=\"rust\">fn f() {}\n</pre>\n</blockquote>\n"
    );
    assert!(response.include_katex_css);
}

#[test]
fn failing_block_renderer_ends_the_transformation() {
    let mut seen = Vec::new();
    let result = drive("```python\na\n```\n\n```rust\nb\n```\n", &failing, &mut seen);
    assert_eq!(seen.len(), 1);
    match result {
        Err(RenderError::Failed { tool, stdout, stderr }) => {
            assert_eq!(tool, Tool::Pygmentize);
            assert_eq!(stdout, b"partial output".to_vec());
            assert!(stderr.is_empty());
        }
        other => panic!("unexpected result: {:?}", other),
    }
}

#[test]
fn failing_math_block_ends_the_transformation() {
    let mut seen = Vec::new();
    let result = drive("```katex\nx\n```\n", &|_| ProcessOutcome::Unavailable, &mut seen);
    assert!(matches!(result, Err(RenderError::Unavailable { tool: Tool::Katex })));
}

#[test]
fn block_output_that_is_not_utf8_is_an_error() {
    let mut seen = Vec::new();
    let result = drive(
        "```plantuml\nA\n```\n",
        &|_| ProcessOutcome::Exited { success: true, stdout: vec![0xff, 0xfe], stderr: Vec::new() },
        &mut seen,
    );
    assert!(matches!(result, Err(RenderError::Encoding { tool: Tool::Plantuml })));
}

#[test]
fn indented_code_is_left_to_the_markdown_writer() {
    let mut seen = Vec::new();
    let response = drive("    indented code\n", &echo, &mut seen).unwrap();
    assert!(seen.is_empty());
    assert_eq!(response.output, "<pre><code>indented code\n</code></pre>\n");
}

#[test]
fn image_with_title_becomes_captioned_figure() {
    assert_eq!(
        html("![alt text](img.png \"A title\")\n"),
        "<figure><img src=\"img.png\" alt=\"alt text\" title=\"A title\"><figcaption>A title</figcaption></figure>"
    );
}

#[test]
fn image_description_is_alt_text_and_caption() {
    assert_eq!(
        html("![alt text](img.png)\n"),
        "<figure><img src=\"img.png\" alt=\"alt text\"><figcaption>alt text</figcaption></figure>"
    );
}

#[test]
fn image_without_description_or_title_has_no_caption() {
    assert_eq!(html("![](img.png)\n"), "<figure><img src=\"img.png\" alt=\"\"></figure>");
}

#[test]
fn image_description_takes_only_direct_text() {
    assert_eq!(
        html("![*em* and text](a.png)\n"),
        "<figure><img src=\"a.png\" alt=\" and text\"><figcaption> and text</figcaption></figure>"
    );
}

#[test]
fn two_images_in_a_paragraph_are_no_figure() {
    assert_eq!(
        html("![one](a.png) ![two](b.png)\n"),
        "<p><img src=\"a.png\" alt=\"one\" /> <img src=\"b.png\" alt=\"two\" /></p>\n"
    );
}

#[test]
fn image_with_text_beside_it_is_no_figure() {
    assert_eq!(
        html("![one](a.png) tail\n"),
        "<p><img src=\"a.png\" alt=\"one\" /> tail</p>\n"
    );
}

#[test]
fn raw_html_passes_through() {
    assert_eq!(
        html("<div>x</div>\n\nhello <b>bold</b> & done\n"),
        "<div>x</div>\n<p>hello <b>bold</b> &amp; done</p>\n"
    );
}

#[test]
fn html_output_survives_a_second_pass() {
    let first = html("a & b\n\n*c* < d\n");
    assert_eq!(first, "<p>a &amp; b</p>\n<p><em>c</em> &lt; d</p>\n");
    let second = html(&first);
    assert_eq!(second, first);
    assert!(!second.contains("&amp;amp;"));
}

#[test]
fn punctuation_is_typeset() {
    assert_eq!(html("\"q\" -- 'smart'\n"), "<p>“q” – ‘smart’</p>\n");
}

#[test]
fn single_line_end_is_no_break() {
    assert_eq!(html("line one\nline two\n"), "<p>line one\nline two</p>\n");
}

#[test]
fn extensions_are_on() {
    assert_eq!(html("~~gone~~\n"), "<p><del>gone</del></p>\n");
    assert_eq!(html("e = mc^2^\n"), "<p>e = mc<sup>2</sup></p>\n");
    assert_eq!(
        html("see www.example.com\n"),
        "<p>see <a href=\"http://www.example.com\">www.example.com</a></p>\n"
    );
    assert_eq!(
        html("| a | b |\n|---|---|\n| c | d |\n"),
        "<table>\n<thead>\n<tr>\n<th>a</th>\n<th>b</th>\n</tr>\n</thead>\n<tbody>\n<tr>\n<td>c</td>\n<td>d</td>\n</tr>\n</tbody>\n</table>\n"
    );
    assert_eq!(
        html("Term\n\n: Details\n"),
        "<dl>\n<dt>Term</dt>\n<dd>\n<p>Details</p>\n</dd>\n</dl>\n"
    );
    assert!(html("- [x] done\n").contains("type=\"checkbox\""));
    assert!(html("note[^1]\n\n[^1]: the note\n").contains("class=\"footnotes\""));
    assert!(html("# Title\n").contains("id=\"headertitle\""));
}

#[test]
fn route_knows_the_two_reserved_tags() {
    assert_eq!(route("plantuml"), Route::Diagram);
    assert_eq!(route("katex"), Route::Math);
    assert_eq!(route("python"), Route::Code);
    assert_eq!(route(""), Route::Code);
    assert_eq!(route("Katex"), Route::Code);
    assert_eq!(route("plantuml "), Route::Code);
}

#[test]
fn format_code_wraps_a_diagram_in_a_figure() {
    let svg = format!("{}<svg/>", XML);
    let response = format_code("plantuml", exited(true, &svg)).unwrap();
    assert_eq!(response.output, "<figure><svg/></figure>");
    assert!(!response.include_katex_css);
}

#[test]
fn format_code_asks_for_the_stylesheet_for_mathematics() {
    let response = format_code("katex", exited(true, "<span>m</span>")).unwrap();
    assert_eq!(response.output, "<figure class=\"math\"><span>m</span></figure>");
    assert!(response.include_katex_css);
}

#[test]
fn format_code_hands_highlighted_code_on() {
    let response = format_code("python", exited(true, "<div>code</div>\n")).unwrap();
    assert_eq!(response.output, "<div>code</div>\n");
    assert!(!response.include_katex_css);
}

#[test]
fn format_code_hands_a_failure_on() {
    let result = format_code("python", ProcessOutcome::Unavailable);
    assert!(matches!(result, Err(RenderError::Unavailable { tool: Tool::Pygmentize })));
    let result = format_code("plantuml", exited(false, "<svg/>"));
    assert!(matches!(result, Err(RenderError::Failed { tool: Tool::Plantuml, .. })));
    let result = format_code("katex", exited(false, ""));
    assert!(matches!(result, Err(RenderError::Failed { tool: Tool::Katex, .. })));
}

#[test]
fn figure_markup_has_three_forms() {
    assert_eq!(
        wrap_image_in_figure("u", "t", "a"),
        "<figure><img src=\"u\" alt=\"a\" title=\"t\"><figcaption>t</figcaption></figure>"
    );
    assert_eq!(
        wrap_image_in_figure("u", "t", ""),
        "<figure><img src=\"u\" alt=\"\" title=\"t\"><figcaption>t</figcaption></figure>"
    );
    assert_eq!(
        wrap_image_in_figure("u", "", "a"),
        "<figure><img src=\"u\" alt=\"a\"><figcaption>a</figcaption></figure>"
    );
    assert_eq!(wrap_image_in_figure("u", "", ""), "<figure><img src=\"u\" alt=\"\"></figure>");
}

#[test]
fn html_block_in_a_list_item_follows_on_the_same_line() {
    assert_eq!(
        html("- <div>x</div>\n- item\n"),
        "<ul>\n<li><div>x</div>\n</li>\n<li>item</li>\n</ul>\n"
    );
}

#[test]
fn html_in_an_image_description_is_plain_text() {
    assert_eq!(
        html("![a <b>x</b>](i.png) tail\n"),
        "<p><img src=\"i.png\" alt=\"a &lt;b&gt;x&lt;/b&gt;\" /> tail</p>\n"
    );
    assert_eq!(
        html("![a <b>x</b>](i.png)\n"),
        "<figure><img src=\"i.png\" alt=\"a x\"><figcaption>a x</figcaption></figure>"
    );
}

#[test]
fn outline_lists_the_nodes_in_document_order() {
    let nodes = outline("text\n\n```rust\nfn f() {}\n```\n", &Grammar::standard());
    assert_eq!(nodes.len(), 4);
    assert_eq!(nodes[0].depth, 1);
    assert!(matches!(nodes[0].kind, NodeKind::Other));
    assert_eq!(nodes[1].depth, 2);
    assert!(matches!(nodes[1].kind, NodeKind::Paragraph));
    assert_eq!(nodes[2].depth, 3);
    assert!(matches!(&nodes[2].kind, NodeKind::Text { text } if text == "text"));
    assert_eq!(nodes[3].depth, 2);
    assert!(matches!(
        &nodes[3].kind,
        NodeKind::CodeBlock { fenced: true, info, literal } if info == "rust" && literal == "fn f() {}\n"
    ));
}

#[test]
fn emit_without_edits_writes_the_parsed_text() {
    let out = emit("*a*\n", &Grammar::standard(), &Vec::new());
    assert_eq!(out, Some("<p><em>a</em></p>\n".to_string()));
}

#[test]
fn emit_puts_markup_in_place_of_a_paragraph() {
    let edits = vec![Edit::Replace { index: 1, html: "<hr>".to_string() }];
    let out = emit("one\n\ntwo\n", &Grammar::standard(), &edits);
    // The text of the paragraph stays below the markup; the next paragraph
    // starts on a line of its own.
    assert_eq!(out, Some("<hr>one\n<p>two</p>\n".to_string()));
    let edits = vec![
        Edit::Detach { index: 2 },
        Edit::Replace { index: 1, html: "<hr>".to_string() },
    ];
    let out = emit("one\n\ntwo\n", &Grammar::standard(), &edits);
    assert_eq!(out, Some("<hr>\n<p>two</p>\n".to_string()));
}

#[test]
fn emit_refuses_to_replace_a_table() {
    let nodes = outline(TABLE, &Grammar::standard());
    assert!(matches!(nodes[1].kind, NodeKind::Other));
    for index in 0..nodes.len() {
        let edits = vec![Edit::Replace { index, html: "x".to_string() }];
        let out = emit(TABLE, &Grammar::standard(), &edits);
        assert_eq!(out, None);
    }
}

#[test]
fn emit_refuses_a_list_with_one_edit_that_does_not_fit() {
    let edits = vec![
        Edit::Replace { index: 1, html: "<hr>".to_string() },
        Edit::Replace { index: 0, html: "x".to_string() },
    ];
    assert_eq!(emit("one\n", &Grammar::standard(), &edits), None);
    let edits = vec![Edit::Replace { index: 2, html: "x".to_string() }];
    assert_eq!(emit("one\n", &Grammar::standard(), &edits), None);
}

#[test]
fn emit_refuses_an_edit_past_the_last_node() {
    let nodes = outline("one\n", &Grammar::standard());
    assert_eq!(nodes.len(), 3);
    let edits = vec![Edit::Detach { index: 3 }];
    assert_eq!(emit("one\n", &Grammar::standard(), &edits), None);
    let edits = vec![Edit::Replace { index: 3, html: "x".to_string() }];
    assert_eq!(emit("one\n", &Grammar::standard(), &edits), None);
}

#[test]
fn emit_takes_a_row_out_of_a_table() {
    let nodes = outline(TABLE, &Grammar::standard());
    let header = 2;
    assert_eq!(nodes[header].depth, 3);
    let body = (header + 1..nodes.len()).find(|&i| nodes[i].depth == 3).unwrap();
    let out = emit(TABLE, &Grammar::standard(), &vec![Edit::Detach { index: body }]).unwrap();
    assert_eq!(
        out,
        "<table>\n<thead>\n<tr>\n<th>a</th>\n<th>b</th>\n</tr>\n</thead>\n</table>\n"
    );
}
