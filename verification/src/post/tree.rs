use vstd::prelude::*;
use comrak::nodes::NodeValue;
use crate::text::opt_view;

verus! {

/// The markdown dialect: which extensions the parser knows and how the
/// writer treats line breaks.
#[derive(Clone, Debug)]
pub struct Grammar {
    pub strikethrough: bool,
    pub table: bool,
    pub autolink: bool,
    pub tasklist: bool,
    pub superscript: bool,
    pub header_id_prefix: Option<String>,
    pub footnotes: bool,
    pub description_lists: bool,
    pub smart: bool,
    pub hardbreaks: bool,
}

/// What a `Grammar` holds, as mathematical values.
pub struct GrammarView {
    pub strikethrough: bool,
    pub table: bool,
    pub autolink: bool,
    pub tasklist: bool,
    pub superscript: bool,
    pub header_id_prefix: Option<Seq<char>>,
    pub footnotes: bool,
    pub description_lists: bool,
    pub smart: bool,
    pub hardbreaks: bool,
}

impl View for Grammar {
    type V = GrammarView;

    open spec fn view(&self) -> GrammarView {
        GrammarView {
            strikethrough: self.strikethrough,
            table: self.table,
            autolink: self.autolink,
            tasklist: self.tasklist,
            superscript: self.superscript,
            header_id_prefix: opt_view(self.header_id_prefix),
            footnotes: self.footnotes,
            description_lists: self.description_lists,
            smart: self.smart,
            hardbreaks: self.hardbreaks,
        }
    }
}

/// The dialect of this library: tables, strikethrough, autolinks, task
/// lists, superscript, footnotes, description lists and heading identifiers
/// (with the prefix `header`) are on, as is typographic punctuation; a single
/// line end is no line break.
pub open spec fn standard_grammar() -> GrammarView {
    GrammarView {
        strikethrough: true,
        table: true,
        autolink: true,
        tasklist: true,
        superscript: true,
        header_id_prefix: Some("header"@),
        footnotes: true,
        description_lists: true,
        smart: true,
        hardbreaks: false,
    }
}

impl Grammar {
    /// The dialect of this library.
    pub fn standard() -> (r: Grammar)
        ensures
            r@ == standard_grammar(),
    {
        Grammar {
            strikethrough: true,
            table: true,
            autolink: true,
            tasklist: true,
            superscript: true,
            header_id_prefix: Some("header".to_owned()),
            footnotes: true,
            description_lists: true,
            smart: true,
            hardbreaks: false,
        }
    }
}

/// What the transformation reads of a node of the tree.
#[derive(Clone, Debug)]
pub enum NodeKind {
    CodeBlock { fenced: bool, info: String, literal: String },
    Html { literal: String },
    Paragraph,
    Image { url: String, title: String },
    Text { text: String },
    Other,
}

/// A node of the tree: how deep it lies (the root at depth 1) and what it is.
#[derive(Clone, Debug)]
pub struct NodeInfo {
    pub depth: usize,
    pub kind: NodeKind,
}

/// A `NodeKind` as mathematical values.
pub enum NodeKindView {
    CodeBlock { fenced: bool, info: Seq<char>, literal: Seq<char> },
    Html { literal: Seq<char> },
    Paragraph,
    Image { url: Seq<char>, title: Seq<char> },
    Text { text: Seq<char> },
    Other,
}

/// A `NodeInfo` as mathematical values.
pub struct NodeView {
    pub depth: nat,
    pub kind: NodeKindView,
}

impl View for NodeKind {
    type V = NodeKindView;

    open spec fn view(&self) -> NodeKindView {
        match *self {
            NodeKind::CodeBlock { fenced, info, literal } => NodeKindView::CodeBlock {
                fenced,
                info: info@,
                literal: literal@,
            },
            NodeKind::Html { literal } => NodeKindView::Html { literal: literal@ },
            NodeKind::Paragraph => NodeKindView::Paragraph,
            NodeKind::Image { url, title } => NodeKindView::Image { url: url@, title: title@ },
            NodeKind::Text { text } => NodeKindView::Text { text: text@ },
            NodeKind::Other => NodeKindView::Other,
        }
    }
}

impl View for NodeInfo {
    type V = NodeView;

    open spec fn view(&self) -> NodeView {
        NodeView { depth: self.depth as nat, kind: self.kind@ }
    }
}

/// A change to the parsed tree. Nodes are counted in document order, the
/// root first, as they stood when the text was parsed.
#[derive(Clone, Debug)]
pub enum Edit {
    /// Take the node out of the tree, with all that lies below it.
    Detach { index: usize },
    /// Put markup that is written out verbatim in the node's place. Only a
    /// code block, HTML or a paragraph can be replaced.
    Replace { index: usize, html: String },
}

/// An `Edit` as mathematical values.
pub enum EditView {
    Detach { index: nat },
    Replace { index: nat, html: Seq<char> },
}

impl View for Edit {
    type V = EditView;

    open spec fn view(&self) -> EditView {
        match *self {
            Edit::Detach { index } => EditView::Detach { index: index as nat },
            Edit::Replace { index, html } => EditView::Replace { index: index as nat, html: html@ },
        }
    }
}

impl Edit {
    /// The node that the edit changes.
    pub open spec fn target(self) -> nat {
        match self {
            Edit::Detach { index } => index as nat,
            Edit::Replace { index, .. } => index as nat,
        }
    }

    /// The node that the edit changes.
    pub fn index(&self) -> (r: usize)
        ensures
            r == self.target(),
    {
        match self {
            Edit::Detach { index } => *index,
            Edit::Replace { index, .. } => *index,
        }
    }
}

/// Whether markup may take the place of a node of this kind: a code block,
/// HTML and a paragraph may be replaced. Below such a node lies at most the
/// inline content of a paragraph.
pub open spec fn replaceable(kind: NodeKindView) -> bool {
    kind is CodeBlock || kind is Html || kind is Paragraph
}

impl NodeKind {
    /// Whether markup may take the place of a node of this kind.
    pub fn is_replaceable(&self) -> (r: bool)
        ensures
            r == replaceable(self@),
    {
        match self {
            NodeKind::CodeBlock { .. } => true,
            NodeKind::Html { .. } => true,
            NodeKind::Paragraph => true,
            _ => false,
        }
    }
}

/// The views of a list of nodes.
pub open spec fn node_views(nodes: Seq<NodeInfo>) -> Seq<NodeView> {
    nodes.map_values(|n: NodeInfo| n@)
}

/// The views of a list of edits.
pub open spec fn edit_views(edits: Seq<Edit>) -> Seq<EditView> {
    edits.map_values(|e: Edit| e@)
}

/// `typed_arena::Arena`, which owns the nodes of a tree. Nothing of what it
/// holds is visible here.
#[verifier::external_type_specification]
#[verifier::external_body]
#[verifier::reject_recursive_types(T)]
pub struct ExArena<T>(typed_arena::Arena<T>);

/// `comrak::arena_tree::Node`, a node of a tree with its links to the nodes
/// around it. Nothing inside it is visible here.
#[verifier::external_type_specification]
#[verifier::external_body]
#[verifier::reject_recursive_types(T)]
pub struct ExTreeNode<'a, T: 'a>(comrak::arena_tree::Node<'a, T>);

/// `std::cell::RefCell`, in which a node keeps its value. Nothing inside it
/// is visible here.
#[verifier::external_type_specification]
#[verifier::external_body]
#[verifier::reject_recursive_types(T)]
pub struct ExRefCell<T: ?Sized>(std::cell::RefCell<T>);

/// `comrak::nodes::Ast`, the value of a node. Nothing inside it is visible
/// here.
#[verifier::external_type_specification]
#[verifier::external_body]
pub struct ExAst(comrak::nodes::Ast);

/// `comrak::Options`, the settings of parser and writer. Nothing inside it
/// is visible here.
#[verifier::external_type_specification]
#[verifier::external_body]
pub struct ExOptions<'c>(comrak::Options<'c>);

/// The nodes of the tree that comrak parses from `text` under `grammar`, in
/// document order, the root first.
pub uninterp spec fn parsed_nodes(text: Seq<char>, grammar: GrammarView) -> Seq<NodeView>;

/// The HTML that comrak writes for the tree parsed from `text` under
/// `grammar`, after `edits` were made on it in their order.
pub uninterp spec fn rendered_html(
    text: Seq<char>,
    grammar: GrammarView,
    edits: Seq<EditView>,
) -> Seq<char>;

/// The text that the tree under `root` was parsed from.
pub uninterp spec fn tree_text(root: &comrak::nodes::AstNode) -> Seq<char>;

/// The grammar that the tree under `root` was parsed with.
pub uninterp spec fn tree_grammar(root: &comrak::nodes::AstNode) -> GrammarView;

/// The edits made on the tree under `root` since it was parsed.
pub uninterp spec fn tree_edits(root: &comrak::nodes::AstNode) -> Seq<EditView>;

/// A parsed document: the root of its tree, the nodes as they stood in
/// document order when it was parsed, and the options it was parsed with.
struct Document<'a> {
    root: &'a comrak::nodes::AstNode<'a>,
    nodes: Vec<&'a comrak::nodes::AstNode<'a>>,
    options: comrak::Options<'static>,
}

/// `typed_arena::Arena::new`: an empty arena for the nodes of one tree.
#[verifier::external_body]
fn new_arena<'a>() -> (r: comrak::Arena<'a>) {
    comrak::Arena::new()
}

/// `comrak::parse_document` on `text`, with the extensions that `grammar`
/// names switched on in `comrak::Options`, and `Node::descendants` for the
/// list of the nodes in document order. The tree has as many nodes as
/// `parsed_nodes` lists, and no edit was made on it yet.
#[verifier::external_body]
fn parse<'a>(arena: &'a comrak::Arena<'a>, text: &str, grammar: &Grammar) -> (doc: Document<'a>)
    ensures
        tree_text(doc.root) == text@,
        tree_grammar(doc.root) == grammar@,
        tree_edits(doc.root) == Seq::<EditView>::empty(),
        doc.nodes@.len() == parsed_nodes(text@, grammar@).len(),
{
    let mut options = comrak::Options::default();
    options.extension.strikethrough = grammar.strikethrough;
    options.extension.table = grammar.table;
    options.extension.autolink = grammar.autolink;
    options.extension.tasklist = grammar.tasklist;
    options.extension.superscript = grammar.superscript;
    options.extension.header_id_prefix = grammar.header_id_prefix.clone();
    options.extension.footnotes = grammar.footnotes;
    options.extension.description_lists = grammar.description_lists;
    options.parse.smart = grammar.smart;
    options.render.hardbreaks = grammar.hardbreaks;
    let root = comrak::parse_document(arena, text, &options);
    Document { root, nodes: root.descendants().collect(), options }
}

/// The depth of node `i` of a document that was not edited: the number of
/// `Node::ancestors`, the node itself included. It is the depth of entry `i`
/// of `parsed_nodes`.
#[verifier::external_body]
fn node_depth<'a>(doc: &Document<'a>, i: usize) -> (r: usize)
    requires
        i < doc.nodes@.len(),
        tree_edits(doc.root).len() == 0,
    ensures
        r == parsed_nodes(tree_text(doc.root), tree_grammar(doc.root))[i as int].depth,
{
    doc.nodes[i].ancestors().count()
}

/// The kind of node `i` of a document that was not edited, told from the
/// variant of `NodeValue` in `Node::data`, with the strings that the
/// transformation needs. It is the kind of entry `i` of `parsed_nodes`.
#[verifier::external_body]
fn node_kind<'a>(doc: &Document<'a>, i: usize) -> (r: NodeKind)
    requires
        i < doc.nodes@.len(),
        tree_edits(doc.root).len() == 0,
    ensures
        r@ == parsed_nodes(tree_text(doc.root), tree_grammar(doc.root))[i as int].kind,
{
    match &doc.nodes[i].data.borrow().value {
        NodeValue::CodeBlock(b) => NodeKind::CodeBlock {
            fenced: b.fenced,
            info: b.info.clone(),
            literal: b.literal.clone(),
        },
        NodeValue::HtmlBlock(b) => NodeKind::Html { literal: b.literal.clone() },
        NodeValue::HtmlInline(s) => NodeKind::Html { literal: s.clone() },
        NodeValue::Paragraph => NodeKind::Paragraph,
        NodeValue::Image(l) => NodeKind::Image { url: l.url.clone(), title: l.title.clone() },
        NodeValue::Text(t) => NodeKind::Text { text: t.to_string() },
        _ => NodeKind::Other,
    }
}

/// `Node::detach` on node `i`: the node leaves the tree with all below it.
/// The nodes that stay keep their values and their parents.
#[verifier::external_body]
fn detach<'a>(doc: &mut Document<'a>, i: usize)
    requires
        i < old(doc).nodes@.len(),
    ensures
        tree_text(final(doc).root) == tree_text(old(doc).root),
        tree_grammar(final(doc).root) == tree_grammar(old(doc).root),
        final(doc).nodes@.len() == old(doc).nodes@.len(),
        tree_edits(final(doc).root) == tree_edits(old(doc).root).push(EditView::Detach { index: i as nat }),
{
    doc.nodes[i].detach();
}

/// Sets the value of node `i` to `NodeValue::Raw(html)`, which comrak writes
/// out as it stands. The node was parsed as a code block, as HTML or as a
/// paragraph: what is left below it is then at most the inline content of a
/// paragraph, which comrak's writer takes under any parent.
#[verifier::external_body]
fn replace<'a>(doc: &mut Document<'a>, i: usize, html: String)
    requires
        i < old(doc).nodes@.len(),
        i < parsed_nodes(tree_text(old(doc).root), tree_grammar(old(doc).root)).len(),
        replaceable(
            parsed_nodes(tree_text(old(doc).root), tree_grammar(old(doc).root))[i as int].kind,
        ),
    ensures
        tree_text(final(doc).root) == tree_text(old(doc).root),
        tree_grammar(final(doc).root) == tree_grammar(old(doc).root),
        final(doc).nodes@.len() == old(doc).nodes@.len(),
        tree_edits(final(doc).root) == tree_edits(old(doc).root).push(
            EditView::Replace { index: i as nat, html: html@ },
        ),
{
    doc.nodes[i].data.borrow_mut().value = NodeValue::Raw(html);
}

/// `comrak::format_html_with_plugins` on the tree, with the options it was
/// parsed with and no plugin: the HTML that comrak writes for the tree as it
/// now stands. The tree is one that `parse` made and that `detach` and
/// `replace` changed, so every table cell that is still in it lies in its
/// row and table, and no heading lies in another.
#[verifier::external_body]
fn to_html<'a>(doc: &Document<'a>) -> (r: String)
    ensures
        r@ == rendered_html(tree_text(doc.root), tree_grammar(doc.root), tree_edits(doc.root)),
{
    let mut out = String::new();
    let plugins = comrak::options::Plugins::default();
    let _ = comrak::format_html_with_plugins(doc.root, &doc.options, &mut out, &plugins);
    out
}

/// The nodes of the tree parsed from `text`, in document order.
pub fn outline(text: &str, grammar: &Grammar) -> (r: Vec<NodeInfo>)
    ensures
        node_views(r@) == parsed_nodes(text@, grammar@),
{
    let arena = new_arena();
    let doc = parse(&arena, text, grammar);
    let n = doc.nodes.len();
    let mut nodes: Vec<NodeInfo> = Vec::new();
    let mut i: usize = 0;
    while i < n
        invariant
            i <= n,
            n == doc.nodes@.len(),
            n == parsed_nodes(text@, grammar@).len(),
            tree_text(doc.root) == text@,
            tree_grammar(doc.root) == grammar@,
            tree_edits(doc.root).len() == 0,
            nodes@.len() == i,
            forall|k: int| 0 <= k < i ==> (#[trigger] nodes@[k])@ == parsed_nodes(text@, grammar@)[k],
        decreases n - i,
    {
        let depth = node_depth(&doc, i);
        let kind = node_kind(&doc, i);
        nodes.push(NodeInfo { depth, kind });
        i += 1;
    }
    proof {
        assert(node_views(nodes@) =~= parsed_nodes(text@, grammar@));
    }
    nodes
}

/// Whether every edit changes a node among the first `size`.
pub open spec fn edits_within(edits: Seq<Edit>, size: nat) -> bool {
    forall|k: int| 0 <= k < edits.len() ==> (#[trigger] edits[k]).target() < size
}

/// Whether every replacement among the edits is made on a node that may be
/// replaced: a code block, HTML or a paragraph of `nodes`.
pub open spec fn replaces_fit(edits: Seq<Edit>, nodes: Seq<NodeView>) -> bool {
    forall|k: int|
        0 <= k < edits.len() && (#[trigger] edits[k]) is Replace && edits[k].target() < nodes.len()
            ==> replaceable(nodes[edits[k].target() as int].kind)
}

/// The HTML for `text` after `edits`. The result is `None`, and nothing is
/// written, where an edit names a node that the tree does not have, or would
/// replace a node that is neither a code block nor HTML nor a paragraph.
pub fn emit(text: &str, grammar: &Grammar, edits: &Vec<Edit>) -> (r: Option<String>)
    ensures
        r is Some <==> edits_within(edits@, parsed_nodes(text@, grammar@).len()) && replaces_fit(
            edits@,
            parsed_nodes(text@, grammar@),
        ),
        r matches Some(html) ==> html@ == rendered_html(text@, grammar@, edit_views(edits@)),
{
    let ghost parsed = parsed_nodes(text@, grammar@);
    let arena = new_arena();
    let mut doc = parse(&arena, text, grammar);
    let n = doc.nodes.len();
    let mut checked: usize = 0;
    while checked < edits.len()
        invariant
            checked <= edits@.len(),
            parsed == parsed_nodes(text@, grammar@),
            n == doc.nodes@.len(),
            n == parsed.len(),
            tree_text(doc.root) == text@,
            tree_grammar(doc.root) == grammar@,
            tree_edits(doc.root).len() == 0,
            forall|k: int| 0 <= k < checked ==> (#[trigger] edits@[k]).target() < n,
            forall|k: int|
                0 <= k < checked && (#[trigger] edits@[k]) is Replace ==> replaceable(
                    parsed[edits@[k].target() as int].kind,
                ),
        decreases edits@.len() - checked,
    {
        let edit = &edits[checked];
        let index = edit.index();
        if index >= n {
            return None;
        }
        match edit {
            Edit::Detach { .. } => {},
            Edit::Replace { .. } => {
                let kind = node_kind(&doc, index);
                if !kind.is_replaceable() {
                    return None;
                }
            },
        }
        checked += 1;
    }
    let mut done: usize = 0;
    while done < edits.len()
        invariant
            done <= edits@.len(),
            parsed == parsed_nodes(text@, grammar@),
            n == doc.nodes@.len(),
            n == parsed.len(),
            tree_text(doc.root) == text@,
            tree_grammar(doc.root) == grammar@,
            edits_within(edits@, parsed.len()),
            replaces_fit(edits@, parsed),
            tree_edits(doc.root) == edit_views(edits@.take(done as int)),
        decreases edits@.len() - done,
    {
        let edit = &edits[done];
        proof {
            assert(edits@.take(done + 1) == edits@.take(done as int).push(*edit));
            assert(edit_views(edits@.take(done + 1)) =~= edit_views(edits@.take(done as int)).push(
                edit@,
            ));
            assert(edits@[done as int].target() < n);
        }
        match edit {
            Edit::Detach { index } => {
                detach(&mut doc, *index);
            },
            Edit::Replace { index, html } => {
                replace(&mut doc, *index, html.clone());
            },
        }
        done += 1;
    }
    proof {
        assert(edits@.take(done as int) == edits@);
    }
    Some(to_html(&doc))
}

} // verus!
