//! The parsed markdown tree: comrak builds it, and the library reads each
//! node through small accessors whose results are described by the node's
//! abstract contents, a `MdTree`.

use crate::options::{markdown_options, spec_markdown_options, MarkdownOptions, MarkdownOptionsView};
use crate::strs::{eq_lit, extend_all, from_chars, push_char, to_chars};
use comrak::nodes::{AlertType, AstNode, ListType, NodeValue, TableAlignment};
use vstd::prelude::*;

verus! {

#[verifier::external_type_specification]
#[verifier::external_body]
#[verifier::reject_recursive_types(T)]
pub struct ExRefCell<T: ?Sized>(std::cell::RefCell<T>);

#[verifier::external_type_specification]
#[verifier::external_body]
pub struct ExAst(comrak::nodes::Ast);

#[verifier::external_type_specification]
#[verifier::external_body]
#[verifier::reject_recursive_types(T)]
pub struct ExArenaNode<'a, T: 'a>(comrak::arena_tree::Node<'a, T>);

#[verifier::external_type_specification]
#[verifier::external_body]
#[verifier::reject_recursive_types(T)]
pub struct ExTypedArena<T>(typed_arena::Arena<T>);

/// `typed_arena::Arena::new`: an empty arena. Nothing about it is used but
/// that it can hold nodes.
pub assume_specification<T>[typed_arena::Arena::<T>::new]() -> typed_arena::Arena<T>;

#[verifier::external_type_specification]
#[verifier::external_body]
pub struct ExComrakOptions<'c>(comrak::Options<'c>);

/// The kinds of markdown node the library tells apart.
#[derive(Debug, Clone, Copy, PartialEq, Eq, Structural)]
pub enum NodeTag {
    Document,
    FrontMatter,
    BlockQuote,
    List,
    Item,
    CodeBlock,
    HtmlBlock,
    Paragraph,
    Heading,
    ThematicBreak,
    FootnoteDefinition,
    Table,
    TableRow,
    TableCell,
    Text,
    TaskItem,
    SoftBreak,
    LineBreak,
    Code,
    HtmlInline,
    Emph,
    Strong,
    Strikethrough,
    Highlight,
    Superscript,
    Link,
    Image,
    FootnoteReference,
    Math,
    WikiLink,
    DescriptionList,
    DescriptionItem,
    DescriptionTerm,
    DescriptionDetails,
    Alert,
    Other,
}

/// The five GitHub alert kinds.
#[derive(Debug, Clone, Copy, PartialEq, Eq, Structural)]
pub enum AlertKind {
    Note,
    Tip,
    Important,
    Warning,
    Caution,
}

/// How a table column is aligned.
#[derive(Debug, Clone, Copy, PartialEq, Eq, Structural)]
pub enum TableAlign {
    Unaligned,
    Left,
    Center,
    Right,
}

/// The abstract contents of a node and its subtree. Fields that a kind of
/// node does not have are empty, zero or false.
pub struct MdTree {
    pub tag: NodeTag,
    /// The text of a text, code span, code block, HTML, front matter or
    /// math node.
    pub literal: Seq<char>,
    /// The destination of a link, image or wiki link.
    pub url: Seq<char>,
    /// The title of a link or image.
    pub title: Seq<char>,
    /// The info string of a code block.
    pub info: Seq<char>,
    /// The label of a footnote definition or reference.
    pub name: Seq<char>,
    /// The level of a heading.
    pub level: u8,
    /// A list's numbering, first number, tightness and task-list flag.
    pub ordered: bool,
    pub start: usize,
    pub tight: bool,
    pub task_list: bool,
    /// Whether a task item is checked.
    pub checked: bool,
    /// Whether a table row is the header row.
    pub header: bool,
    /// Whether math is display math, and whether it used dollars.
    pub display: bool,
    pub dollar: bool,
    /// An alert's kind and custom title.
    pub alert: AlertKind,
    pub alert_title: Option<Seq<char>>,
    /// A table's column alignments.
    pub alignments: Seq<TableAlign>,
    /// The first source line of the node (1-based; 0 when unknown).
    pub line: usize,
    pub children: Seq<MdTree>,
}

/// The contents of the subtree under a comrak node.
pub uninterp spec fn spec_tree(node: &AstNode<'_>) -> MdTree;

/// The tree comrak parses from markdown with the given options.
pub uninterp spec fn spec_parse(markdown: Seq<char>, options: MarkdownOptionsView) -> MdTree;

/// The node kind of a comrak XML element name (`Other` for kinds the
/// library does not tell apart).
pub open spec fn tag_of_name(name: Seq<char>) -> NodeTag {
    if name == "document"@ {
        NodeTag::Document
    } else if name == "frontmatter"@ {
        NodeTag::FrontMatter
    } else if name == "block_quote"@ {
        NodeTag::BlockQuote
    } else if name == "list"@ {
        NodeTag::List
    } else if name == "item"@ {
        NodeTag::Item
    } else if name == "code_block"@ {
        NodeTag::CodeBlock
    } else if name == "html_block"@ {
        NodeTag::HtmlBlock
    } else if name == "paragraph"@ {
        NodeTag::Paragraph
    } else if name == "heading"@ {
        NodeTag::Heading
    } else if name == "thematic_break"@ {
        NodeTag::ThematicBreak
    } else if name == "footnote_definition"@ {
        NodeTag::FootnoteDefinition
    } else if name == "table"@ {
        NodeTag::Table
    } else if name == "table_row"@ {
        NodeTag::TableRow
    } else if name == "table_cell"@ {
        NodeTag::TableCell
    } else if name == "text"@ {
        NodeTag::Text
    } else if name == "taskitem"@ {
        NodeTag::TaskItem
    } else if name == "softbreak"@ {
        NodeTag::SoftBreak
    } else if name == "linebreak"@ {
        NodeTag::LineBreak
    } else if name == "code"@ {
        NodeTag::Code
    } else if name == "html_inline"@ {
        NodeTag::HtmlInline
    } else if name == "emph"@ {
        NodeTag::Emph
    } else if name == "strong"@ {
        NodeTag::Strong
    } else if name == "strikethrough"@ {
        NodeTag::Strikethrough
    } else if name == "highlight"@ {
        NodeTag::Highlight
    } else if name == "superscript"@ {
        NodeTag::Superscript
    } else if name == "link"@ {
        NodeTag::Link
    } else if name == "image"@ {
        NodeTag::Image
    } else if name == "footnote_reference"@ {
        NodeTag::FootnoteReference
    } else if name == "math"@ {
        NodeTag::Math
    } else if name == "wikilink"@ {
        NodeTag::WikiLink
    } else if name == "description_list"@ {
        NodeTag::DescriptionList
    } else if name == "description_item"@ {
        NodeTag::DescriptionItem
    } else if name == "description_term"@ {
        NodeTag::DescriptionTerm
    } else if name == "description_details"@ {
        NodeTag::DescriptionDetails
    } else if name == "alert"@ {
        NodeTag::Alert
    } else {
        NodeTag::Other
    }
}

/// The kind of a comrak node, read through its XML element name.
pub fn tag_from_name(name: &str) -> (t: NodeTag)
    ensures
        t == tag_of_name(name@),
{
    let v = to_chars(name);
    if eq_lit(&v, "document") {
        NodeTag::Document
    } else if eq_lit(&v, "frontmatter") {
        NodeTag::FrontMatter
    } else if eq_lit(&v, "block_quote") {
        NodeTag::BlockQuote
    } else if eq_lit(&v, "list") {
        NodeTag::List
    } else if eq_lit(&v, "item") {
        NodeTag::Item
    } else if eq_lit(&v, "code_block") {
        NodeTag::CodeBlock
    } else if eq_lit(&v, "html_block") {
        NodeTag::HtmlBlock
    } else if eq_lit(&v, "paragraph") {
        NodeTag::Paragraph
    } else if eq_lit(&v, "heading") {
        NodeTag::Heading
    } else if eq_lit(&v, "thematic_break") {
        NodeTag::ThematicBreak
    } else if eq_lit(&v, "footnote_definition") {
        NodeTag::FootnoteDefinition
    } else if eq_lit(&v, "table") {
        NodeTag::Table
    } else if eq_lit(&v, "table_row") {
        NodeTag::TableRow
    } else if eq_lit(&v, "table_cell") {
        NodeTag::TableCell
    } else if eq_lit(&v, "text") {
        NodeTag::Text
    } else if eq_lit(&v, "taskitem") {
        NodeTag::TaskItem
    } else if eq_lit(&v, "softbreak") {
        NodeTag::SoftBreak
    } else if eq_lit(&v, "linebreak") {
        NodeTag::LineBreak
    } else if eq_lit(&v, "code") {
        NodeTag::Code
    } else if eq_lit(&v, "html_inline") {
        NodeTag::HtmlInline
    } else if eq_lit(&v, "emph") {
        NodeTag::Emph
    } else if eq_lit(&v, "strong") {
        NodeTag::Strong
    } else if eq_lit(&v, "strikethrough") {
        NodeTag::Strikethrough
    } else if eq_lit(&v, "highlight") {
        NodeTag::Highlight
    } else if eq_lit(&v, "superscript") {
        NodeTag::Superscript
    } else if eq_lit(&v, "link") {
        NodeTag::Link
    } else if eq_lit(&v, "image") {
        NodeTag::Image
    } else if eq_lit(&v, "footnote_reference") {
        NodeTag::FootnoteReference
    } else if eq_lit(&v, "math") {
        NodeTag::Math
    } else if eq_lit(&v, "wikilink") {
        NodeTag::WikiLink
    } else if eq_lit(&v, "description_list") {
        NodeTag::DescriptionList
    } else if eq_lit(&v, "description_item") {
        NodeTag::DescriptionItem
    } else if eq_lit(&v, "description_term") {
        NodeTag::DescriptionTerm
    } else if eq_lit(&v, "description_details") {
        NodeTag::DescriptionDetails
    } else if eq_lit(&v, "alert") {
        NodeTag::Alert
    } else {
        NodeTag::Other
    }
}

// ---------------------------------------------------------------------------
// Accessors
// ---------------------------------------------------------------------------

/// `NodeValue::xml_node_name`: the element name of the node's kind.
#[verifier::external_body]
fn node_name(n: &AstNode<'_>) -> (s: &'static str)
    ensures
        tag_of_name(s@) == spec_tree(n).tag,
{
    n.data.borrow().value.xml_node_name()
}

/// The kind of a node.
pub(crate) fn node_tag(n: &AstNode<'_>) -> (t: NodeTag)
    ensures
        t == spec_tree(n).tag,
{
    tag_from_name(node_name(n))
}

/// The literal text a node carries (text, code, code block, HTML, front
/// matter, math); empty for other nodes.
#[verifier::external_body]
pub(crate) fn node_literal(n: &AstNode<'_>) -> (s: String)
    ensures
        s@ == spec_tree(n).literal,
{
    match &n.data.borrow().value {
        NodeValue::Text(t) => t.to_string(),
        NodeValue::Code(c) => c.literal.clone(),
        NodeValue::CodeBlock(c) => c.literal.clone(),
        NodeValue::HtmlBlock(h) => h.literal.clone(),
        NodeValue::HtmlInline(s) => s.clone(),
        NodeValue::FrontMatter(s) => s.clone(),
        NodeValue::Math(m) => m.literal.clone(),
        _ => String::new(),
    }
}

/// The destination and title of a link or image (a wiki link has only a
/// destination); empty for other nodes.
#[verifier::external_body]
pub(crate) fn node_link(n: &AstNode<'_>) -> (r: (String, String))
    ensures
        r.0@ == spec_tree(n).url,
        r.1@ == spec_tree(n).title,
{
    match &n.data.borrow().value {
        NodeValue::Link(l) => (l.url.clone(), l.title.clone()),
        NodeValue::Image(l) => (l.url.clone(), l.title.clone()),
        NodeValue::WikiLink(l) => (l.url.clone(), String::new()),
        _ => (String::new(), String::new()),
    }
}

/// The info string of a code block; empty for other nodes.
#[verifier::external_body]
pub(crate) fn node_info(n: &AstNode<'_>) -> (s: String)
    ensures
        s@ == spec_tree(n).info,
{
    match &n.data.borrow().value {
        NodeValue::CodeBlock(c) => c.info.clone(),
        _ => String::new(),
    }
}

/// The label of a footnote definition or reference; empty otherwise.
#[verifier::external_body]
pub(crate) fn node_footnote_name(n: &AstNode<'_>) -> (s: String)
    ensures
        s@ == spec_tree(n).name,
{
    match &n.data.borrow().value {
        NodeValue::FootnoteDefinition(f) => f.name.clone(),
        NodeValue::FootnoteReference(f) => f.name.clone(),
        _ => String::new(),
    }
}

/// The level of a heading; 0 for other nodes.
#[verifier::external_body]
pub(crate) fn node_heading_level(n: &AstNode<'_>) -> (l: u8)
    ensures
        l == spec_tree(n).level,
{
    match &n.data.borrow().value {
        NodeValue::Heading(h) => h.level,
        _ => 0,
    }
}

/// Flags: a task item is checked, a table row is the header, math is
/// display math, math used dollars.
#[verifier::external_body]
pub(crate) fn node_flags(n: &AstNode<'_>) -> (r: (bool, bool, bool, bool))
    ensures
        r.0 == spec_tree(n).checked,
        r.1 == spec_tree(n).header,
        r.2 == spec_tree(n).display,
        r.3 == spec_tree(n).dollar,
{
    match &n.data.borrow().value {
        NodeValue::TaskItem(t) => (t.symbol.is_some(), false, false, false),
        NodeValue::TableRow(h) => (false, *h, false, false),
        NodeValue::Math(m) => (false, false, m.display_math, m.dollar_math),
        _ => (false, false, false, false),
    }
}

/// An alert's kind and custom title.
#[verifier::external_body]
pub(crate) fn node_alert(n: &AstNode<'_>) -> (r: (AlertKind, Option<String>))
    ensures
        r.0 == spec_tree(n).alert,
        match r.1 {
            Some(t) => spec_tree(n).alert_title == Some(t@),
            None => spec_tree(n).alert_title is None,
        },
{
    match &n.data.borrow().value {
        NodeValue::Alert(a) => (match a.alert_type {
            AlertType::Note => AlertKind::Note,
            AlertType::Tip => AlertKind::Tip,
            AlertType::Important => AlertKind::Important,
            AlertType::Warning => AlertKind::Warning,
            AlertType::Caution => AlertKind::Caution,
        }, a.title.clone()),
        _ => (AlertKind::Note, None),
    }
}

/// A list's numbering (ordered or not), first number and tightness; false,
/// 0 and false for other nodes.
#[verifier::external_body]
pub(crate) fn node_list(n: &AstNode<'_>) -> (r: (bool, usize, bool))
    ensures
        r.0 == spec_tree(n).ordered,
        r.1 == spec_tree(n).start,
        r.2 == spec_tree(n).tight,
{
    match &n.data.borrow().value {
        NodeValue::List(l) => (matches!(l.list_type, ListType::Ordered), l.start, l.tight),
        _ => (false, 0, false),
    }
}

/// A table's column alignments; empty for other nodes.
#[verifier::external_body]
pub(crate) fn node_alignments(n: &AstNode<'_>) -> (v: Vec<TableAlign>)
    ensures
        v@ == spec_tree(n).alignments,
{
    match &n.data.borrow().value {
        NodeValue::Table(t) => t.alignments.iter().map(|a| match a {
            TableAlignment::None => TableAlign::Unaligned,
            TableAlignment::Left => TableAlign::Left,
            TableAlignment::Center => TableAlign::Center,
            TableAlignment::Right => TableAlign::Right,
        }).collect(),
        _ => Vec::new(),
    }
}

/// The first source line of a node.
#[verifier::external_body]
pub(crate) fn node_line(n: &AstNode<'_>) -> (l: usize)
    ensures
        l == spec_tree(n).line,
{
    n.data.borrow().sourcepos.start.line
}

/// `Node::children`: the children of a node, in order.
#[verifier::external_body]
pub(crate) fn node_children<'a>(n: &'a AstNode<'a>) -> (v: Vec<&'a AstNode<'a>>)
    ensures
        v@.len() == spec_tree(n).children.len(),
        forall|i: int| 0 <= i < v@.len() ==> spec_tree(#[trigger] v@[i]) == spec_tree(n).children[i],
{
    n.children().collect()
}

/// The comrak parse options for a set of library options (the render
/// settings do not take part in parsing).
#[verifier::external_body]
pub(crate) fn comrak_parse_options(o: &MarkdownOptions) -> comrak::Options<'static> {
    let mut c = comrak::Options::default();
    c.extension.strikethrough = o.strikethrough;
    c.extension.table = o.table;
    c.extension.autolink = o.autolink;
    c.extension.tasklist = o.tasklist;
    c.extension.footnotes = o.footnotes;
    c.extension.alerts = o.alerts;
    c.extension.front_matter_delimiter = o.front_matter_delimiter.clone();
    c.extension.math_dollars = o.math_dollars;
    c.extension.math_code = o.math_code;
    c.parse.leave_footnote_definitions = o.leave_footnote_definitions;
    c
}

/// `comrak::parse_document`: the document tree, allocated in `arena`.
#[verifier::external_body]
pub(crate) fn comrak_parse<'a>(
    arena: &'a typed_arena::Arena<AstNode<'a>>,
    markdown: &str,
    options: &MarkdownOptions,
) -> (root: &'a AstNode<'a>)
    ensures
        spec_tree(root) == spec_parse(markdown@, options@),
{
    comrak::parse_document(arena, markdown, &comrak_parse_options(options))
}

/// Parse markdown with the constructs mdx understands everywhere.
pub fn parse_markdown<'a>(arena: &'a typed_arena::Arena<AstNode<'a>>, input: &str) -> (root: &'a AstNode<'a>)
    ensures
        spec_tree(root) == spec_parse(input@, spec_markdown_options()),
{
    let options = markdown_options();
    comrak_parse(arena, input, &options)
}

// ---------------------------------------------------------------------------
// Inline text
// ---------------------------------------------------------------------------

/// How inline code spans are rendered when flattening a tree to text.
#[derive(Debug, Clone, Copy, PartialEq, Eq, Structural)]
pub enum CodeStyle {
    /// Keep the backticks, for text that will be shown as markdown again.
    Fenced,
    /// Emit the literal bare, for text that will be compared or embedded.
    Bare,
}

/// The text one node contributes when a subtree is flattened.
pub open spec fn inline_piece(t: MdTree, code: CodeStyle) -> Seq<char> {
    match t.tag {
        NodeTag::Text => t.literal,
        NodeTag::Code => match code {
            CodeStyle::Fenced => seq!['`'] + t.literal + seq!['`'],
            CodeStyle::Bare => t.literal,
        },
        NodeTag::SoftBreak | NodeTag::LineBreak => seq![' '],
        _ => seq![],
    }
}

/// A subtree flattened to text in document order: text, code spans and
/// line breaks (as spaces).
pub open spec fn spec_inline_text(t: MdTree, code: CodeStyle) -> Seq<char>
    decreases t,
{
    inline_piece(t, code) + spec_inline_texts(t.children, code)
}

/// The flattened text of a sequence of subtrees.
pub open spec fn spec_inline_texts(ts: Seq<MdTree>, code: CodeStyle) -> Seq<char>
    decreases ts,
{
    if ts.len() == 0 {
        seq![]
    } else {
        spec_inline_texts(ts.drop_last(), code) + spec_inline_text(ts.last(), code)
    }
}

fn push_inline_text<'a>(n: &'a AstNode<'a>, code: CodeStyle, out: &mut Vec<char>)
    ensures
        final(out)@ == old(out)@ + spec_inline_text(spec_tree(n), code),
    decreases spec_tree(n),
{
    let ghost t = spec_tree(n);
    let ghost start = out@;
    let tag = node_tag(n);
    match tag {
        NodeTag::Text => {
            let s = node_literal(n);
            extend_all(out, &to_chars(s.as_str()));
        },
        NodeTag::Code => {
            let s = node_literal(n);
            match code {
                CodeStyle::Fenced => {
                    out.push('`');
                    extend_all(out, &to_chars(s.as_str()));
                    out.push('`');
                },
                CodeStyle::Bare => {
                    extend_all(out, &to_chars(s.as_str()));
                },
            }
        },
        NodeTag::SoftBreak | NodeTag::LineBreak => {
            out.push(' ');
        },
        _ => {},
    }
    assert(out@ =~= start + inline_piece(t, code));
    let ghost mid = out@;
    let kids = node_children(n);
    let mut i: usize = 0;
    while i < kids.len()
        invariant
            i <= kids@.len(),
            kids@.len() == t.children.len(),
            t == spec_tree(n),
            forall|j: int| 0 <= j < kids@.len() ==> spec_tree(#[trigger] kids@[j]) == t.children[j],
            out@ == mid + spec_inline_texts(t.children.take(i as int), code),
        decreases kids.len() - i,
    {
        proof {
            assert(decreases_to!(t => t.children));
            assert(decreases_to!(t.children => t.children[i as int]));
            assert(t.children.take(i + 1).drop_last() =~= t.children.take(i as int));
        }
        push_inline_text(kids[i], code, out);
        i = i + 1;
    }
    assert(t.children.take(i as int) =~= t.children);
}

/// Flatten a node's inline content to plain text: text, code spans (with
/// or without backticks) and line breaks as spaces, in document order.
pub fn inline_text<'a>(node: &'a AstNode<'a>, code: CodeStyle) -> (r: String)
    ensures
        r@ == spec_inline_text(spec_tree(node), code),
{
    let mut out: Vec<char> = Vec::new();
    push_inline_text(node, code, &mut out);
    from_chars(&out)
}

} // verus!
