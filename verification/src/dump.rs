//! Dumping a parsed document: the JSON tree of `export --format json` and
//! `convert --to json`, and the plain text of `export --format txt` and
//! `convert --to txt`.
//!
//! Both come in two flavours. The export flavour (`full`) names every node
//! kind mdx understands and keeps the extension data (math, HTML, alerts,
//! footnotes, task items, wiki links, table cells); the convert flavour
//! keeps only the core CommonMark kinds.

use crate::ast::{
    inline_text, node_heading_level, spec_inline_text, CodeStyle,
    node_alert, node_children, node_flags, node_footnote_name, node_info,
    node_link, node_literal, node_tag, spec_tree, AlertKind, MdTree, NodeTag,
};
use crate::json::{json_body, push_json_quoted};
use crate::strs::{
    decimal, ends_with, ends_with_seq, extend_all, extend_str, from_chars, push_decimal,
    skip_ws_back, starts_with, starts_with_at, to_chars, trail_ws, trim_end,
};
use comrak::nodes::AstNode;
use vstd::prelude::*;

verus! {

// ---------------------------------------------------------------------------
// JSON
// ---------------------------------------------------------------------------

/// The pieces of `parts` with `sep` between them, as `[String]::join` does.
pub open spec fn join_with(parts: Seq<Seq<char>>, sep: Seq<char>) -> Seq<char>
    decreases parts.len(),
{
    if parts.len() == 0 {
        seq![]
    } else if parts.len() == 1 {
        parts[0]
    } else {
        join_with(parts.drop_last(), sep) + sep + parts.last()
    }
}

/// Two spaces per nesting level.
pub open spec fn indent(depth: nat) -> Seq<char> {
    Seq::new(2 * depth, |_i: int| ' ')
}

/// A JSON string literal as the dump writes it.
pub open spec fn json_string(s: Seq<char>) -> Seq<char> {
    seq!['"'] + json_body(s, false) + seq!['"']
}

/// `true` or `false`.
pub open spec fn json_bool(b: bool) -> Seq<char> {
    if b {
        "true"@
    } else {
        "false"@
    }
}

/// One property line: the indentation, the quoted key, `": "` and the value.
pub open spec fn json_prop(ind: Seq<char>, key: Seq<char>, value: Seq<char>) -> Seq<char> {
    ind + seq!['"'] + key + seq!['"', ':', ' '] + value
}

/// The name `{:?}` gives an alert kind.
pub open spec fn alert_debug_name(k: AlertKind) -> Seq<char> {
    match k {
        AlertKind::Note => "Note"@,
        AlertKind::Tip => "Tip"@,
        AlertKind::Important => "Important"@,
        AlertKind::Warning => "Warning"@,
        AlertKind::Caution => "Caution"@,
    }
}

/// The `"type"` of a node. The convert flavour (`!full`) calls the
/// extension kinds "other".
pub open spec fn json_node_type(tag: NodeTag, full: bool) -> Seq<char> {
    match tag {
        NodeTag::Document => "document"@,
        NodeTag::Heading => "heading"@,
        NodeTag::Paragraph => "paragraph"@,
        NodeTag::Text => "text"@,
        NodeTag::Code => "code"@,
        NodeTag::CodeBlock => "code_block"@,
        NodeTag::Link => "link"@,
        NodeTag::Image => "image"@,
        NodeTag::List => "list"@,
        NodeTag::Item => "item"@,
        NodeTag::BlockQuote => "blockquote"@,
        NodeTag::ThematicBreak => "thematic_break"@,
        NodeTag::Table => "table"@,
        NodeTag::TableRow => "table_row"@,
        NodeTag::TableCell => "table_cell"@,
        NodeTag::Emph => "emphasis"@,
        NodeTag::Strong => "strong"@,
        NodeTag::Strikethrough => "strikethrough"@,
        NodeTag::SoftBreak => "softbreak"@,
        NodeTag::LineBreak => "linebreak"@,
        NodeTag::HtmlBlock => "html_block"@,
        NodeTag::HtmlInline => "html_inline"@,
        NodeTag::FrontMatter => "front_matter"@,
        NodeTag::FootnoteDefinition => "footnote_definition"@,
        NodeTag::FootnoteReference => "footnote_reference"@,
        NodeTag::Math => "math"@,
        NodeTag::Alert => "alert"@,
        NodeTag::TaskItem => if full { "task_item"@ } else { "other"@ },
        NodeTag::Highlight => if full { "highlight"@ } else { "other"@ },
        NodeTag::Superscript => if full { "superscript"@ } else { "other"@ },
        NodeTag::WikiLink => if full { "wikilink"@ } else { "other"@ },
        NodeTag::DescriptionList => if full { "description_list"@ } else { "other"@ },
        NodeTag::DescriptionItem => if full { "description_item"@ } else { "other"@ },
        NodeTag::DescriptionTerm => if full { "description_term"@ } else { "other"@ },
        NodeTag::DescriptionDetails => if full { "description_details"@ } else { "other"@ },
        NodeTag::Other => "other"@,
    }
}

/// The property lines of a node after its `"type"`, at indentation `ind`.
pub open spec fn json_props(t: MdTree, ind: Seq<char>, full: bool) -> Seq<Seq<char>> {
    match t.tag {
        NodeTag::Text | NodeTag::Code | NodeTag::FrontMatter => seq![json_prop(ind, "value"@, json_string(t.literal))],
        NodeTag::CodeBlock => seq![
            json_prop(ind, "info"@, json_string(t.info)),
            json_prop(ind, "literal"@, json_string(t.literal)),
        ],
        NodeTag::Heading => seq![json_prop(ind, "level"@, decimal(t.level as nat))],
        NodeTag::Link | NodeTag::Image => seq![
            json_prop(ind, "url"@, json_string(t.url)),
            json_prop(ind, "title"@, json_string(t.title)),
        ],
        NodeTag::Math => if full {
            seq![
                json_prop(ind, "literal"@, json_string(t.literal)),
                json_prop(ind, "display"@, json_bool(t.display)),
                json_prop(ind, "dollar"@, json_bool(t.dollar)),
            ]
        } else {
            seq![]
        },
        NodeTag::HtmlBlock | NodeTag::HtmlInline => if full {
            seq![json_prop(ind, "literal"@, json_string(t.literal))]
        } else {
            seq![]
        },
        NodeTag::Alert => if full {
            seq![json_prop(ind, "alert_type"@, json_string(alert_debug_name(t.alert)))]
        } else {
            seq![]
        },
        NodeTag::FootnoteDefinition | NodeTag::FootnoteReference => if full {
            seq![json_prop(ind, "name"@, json_string(t.name))]
        } else {
            seq![]
        },
        NodeTag::TaskItem => if full {
            seq![json_prop(ind, "checked"@, json_bool(t.checked))]
        } else {
            seq![]
        },
        NodeTag::WikiLink => if full {
            seq![json_prop(ind, "url"@, json_string(t.url))]
        } else {
            seq![]
        },
        _ => seq![],
    }
}

/// The `"type"` line and the property lines of a node.
pub open spec fn json_head(t: MdTree, ind1: Seq<char>, full: bool) -> Seq<Seq<char>> {
    seq![json_prop(ind1, "type"@, seq!['"'] + json_node_type(t.tag, full) + seq!['"'])] + json_props(t, ind1, full)
}

/// The `"children"` line: the children's objects two levels deeper than
/// `ind1`, inside brackets.
pub open spec fn json_children(ts: Seq<MdTree>, ind1: Seq<char>, full: bool) -> Seq<char>
    decreases ts, 2nat,
{
    json_prop(
        ind1,
        "children"@,
        seq!['[', '\n'] + join_with(spec_forest_json(ts, ind1 + seq![' ', ' '], full), seq![',', '\n'])
            + seq!['\n'] + ind1 + seq![']'],
    )
}

/// The JSON object of a subtree whose opening brace is indented by `ind`.
/// Properties sit one level deeper, children two levels deeper, all
/// separated by `",\n"`.
pub open spec fn spec_tree_json(t: MdTree, ind: Seq<char>, full: bool) -> Seq<char>
    decreases t, 1nat,
{
    let ind1 = ind + seq![' ', ' '];
    let head = json_head(t, ind1, full);
    let parts = if t.children.len() == 0 {
        head
    } else {
        head.push(json_children(t.children, ind1, full))
    };
    ind + seq!['{', '\n'] + join_with(parts, seq![',', '\n']) + seq!['\n'] + ind + seq!['}']
}

/// The JSON objects of a sequence of subtrees.
pub open spec fn spec_forest_json(ts: Seq<MdTree>, ind: Seq<char>, full: bool) -> Seq<Seq<char>>
    decreases ts, 0nat,
{
    if ts.len() == 0 {
        seq![]
    } else {
        spec_forest_json(ts.drop_last(), ind, full).push(spec_tree_json(ts.last(), ind, full))
    }
}

/// Adding a piece to a non-empty list adds the separator and the piece.
pub(crate) proof fn lemma_join_push(parts: Seq<Seq<char>>, sep: Seq<char>, x: Seq<char>)
    ensures
        join_with(parts.push(x), sep) == if parts.len() == 0 { x } else { join_with(parts, sep) + sep + x },
{
    assert(parts.push(x).drop_last() =~= parts);
}

fn json_node_type_str(tag: NodeTag, full: bool) -> (s: &'static str)
    ensures
        s@ == json_node_type(tag, full),
{
    match tag {
        NodeTag::Document => "document",
        NodeTag::Heading => "heading",
        NodeTag::Paragraph => "paragraph",
        NodeTag::Text => "text",
        NodeTag::Code => "code",
        NodeTag::CodeBlock => "code_block",
        NodeTag::Link => "link",
        NodeTag::Image => "image",
        NodeTag::List => "list",
        NodeTag::Item => "item",
        NodeTag::BlockQuote => "blockquote",
        NodeTag::ThematicBreak => "thematic_break",
        NodeTag::Table => "table",
        NodeTag::TableRow => "table_row",
        NodeTag::TableCell => "table_cell",
        NodeTag::Emph => "emphasis",
        NodeTag::Strong => "strong",
        NodeTag::Strikethrough => "strikethrough",
        NodeTag::SoftBreak => "softbreak",
        NodeTag::LineBreak => "linebreak",
        NodeTag::HtmlBlock => "html_block",
        NodeTag::HtmlInline => "html_inline",
        NodeTag::FrontMatter => "front_matter",
        NodeTag::FootnoteDefinition => "footnote_definition",
        NodeTag::FootnoteReference => "footnote_reference",
        NodeTag::Math => "math",
        NodeTag::Alert => "alert",
        NodeTag::TaskItem => if full { "task_item" } else { "other" },
        NodeTag::Highlight => if full { "highlight" } else { "other" },
        NodeTag::Superscript => if full { "superscript" } else { "other" },
        NodeTag::WikiLink => if full { "wikilink" } else { "other" },
        NodeTag::DescriptionList => if full { "description_list" } else { "other" },
        NodeTag::DescriptionItem => if full { "description_item" } else { "other" },
        NodeTag::DescriptionTerm => if full { "description_term" } else { "other" },
        NodeTag::DescriptionDetails => if full { "description_details" } else { "other" },
        NodeTag::Other => "other",
    }
}

fn alert_debug_str(k: AlertKind) -> (s: &'static str)
    ensures
        s@ == alert_debug_name(k),
{
    match k {
        AlertKind::Note => "Note",
        AlertKind::Tip => "Tip",
        AlertKind::Important => "Important",
        AlertKind::Warning => "Warning",
        AlertKind::Caution => "Caution",
    }
}

/// `ind"key": ` followed by nothing yet.
fn prop_start(ind: &[char], key: &str) -> (r: Vec<char>)
    ensures
        r@ == ind@ + seq!['"'] + key@ + seq!['"', ':', ' '],
{
    let mut r: Vec<char> = Vec::new();
    extend_all(&mut r, ind);
    r.push('"');
    extend_str(&mut r, key);
    r.push('"');
    r.push(':');
    r.push(' ');
    r
}

fn prop_string(ind: &[char], key: &str, value: &str) -> (r: Vec<char>)
    ensures
        r@ == json_prop(ind@, key@, json_string(value@)),
{
    let mut r = prop_start(ind, key);
    let v = to_chars(value);
    push_json_quoted(&mut r, &v, false);
    assert(r@ =~= json_prop(ind@, key@, json_string(value@)));
    r
}

fn prop_bool(ind: &[char], key: &str, value: bool) -> (r: Vec<char>)
    ensures
        r@ == json_prop(ind@, key@, json_bool(value)),
{
    let mut r = prop_start(ind, key);
    extend_str(&mut r, if value { "true" } else { "false" });
    r
}

/// The property lines of a node after its `"type"`.
fn node_props<'a>(n: &'a AstNode<'a>, ind: &[char], full: bool) -> (r: Vec<Vec<char>>)
    ensures
        r@.len() == json_props(spec_tree(n), ind@, full).len(),
        forall|i: int| 0 <= i < r@.len() ==> #[trigger] r@[i]@ == json_props(spec_tree(n), ind@, full)[i],
{
    let ghost t = spec_tree(n);
    let tag = node_tag(n);
    let mut r: Vec<Vec<char>> = Vec::new();
    match tag {
        NodeTag::Text | NodeTag::Code | NodeTag::FrontMatter => {
            let lit = node_literal(n);
            r.push(prop_string(ind, "value", lit.as_str()));
        },
        NodeTag::CodeBlock => {
            let info = node_info(n);
            let lit = node_literal(n);
            r.push(prop_string(ind, "info", info.as_str()));
            r.push(prop_string(ind, "literal", lit.as_str()));
        },
        NodeTag::Heading => {
            let level = node_heading_level(n);
            let mut p = prop_start(ind, "level");
            push_decimal(&mut p, level as u64);
            r.push(p);
        },
        NodeTag::Link | NodeTag::Image => {
            let (url, title) = node_link(n);
            r.push(prop_string(ind, "url", url.as_str()));
            r.push(prop_string(ind, "title", title.as_str()));
        },
        NodeTag::Math => {
            if full {
                let lit = node_literal(n);
                let (_c, _h, display, dollar) = node_flags(n);
                r.push(prop_string(ind, "literal", lit.as_str()));
                r.push(prop_bool(ind, "display", display));
                r.push(prop_bool(ind, "dollar", dollar));
            }
        },
        NodeTag::HtmlBlock | NodeTag::HtmlInline => {
            if full {
                let lit = node_literal(n);
                r.push(prop_string(ind, "literal", lit.as_str()));
            }
        },
        NodeTag::Alert => {
            if full {
                let (kind, _title) = node_alert(n);
                r.push(prop_string(ind, "alert_type", alert_debug_str(kind)));
            }
        },
        NodeTag::FootnoteDefinition | NodeTag::FootnoteReference => {
            if full {
                let name = node_footnote_name(n);
                r.push(prop_string(ind, "name", name.as_str()));
            }
        },
        NodeTag::TaskItem => {
            if full {
                let (checked, _h, _d, _m) = node_flags(n);
                r.push(prop_bool(ind, "checked", checked));
            }
        },
        NodeTag::WikiLink => {
            if full {
                let (url, _title) = node_link(n);
                r.push(prop_string(ind, "url", url.as_str()));
            }
        },
        _ => {},
    }
    assert(r@.len() == json_props(t, ind@, full).len());
    r
}

/// The joined `"type"` and property lines of a node.
fn head_json<'a>(n: &'a AstNode<'a>, ind1: &[char], full: bool) -> (r: Vec<char>)
    ensures
        r@ == join_with(json_head(spec_tree(n), ind1@, full), seq![',', '\n']),
{
    let ghost t = spec_tree(n);
    let ghost head = json_head(t, ind1@, full);
    let tag = node_tag(n);
    let mut out = prop_start(ind1, "type");
    out.push('"');
    extend_str(&mut out, json_node_type_str(tag, full));
    out.push('"');
    assert(out@ =~= head[0]);
    assert(head.take(1) =~= seq![head[0]]);
    let props = node_props(n, ind1, full);
    let mut i: usize = 0;
    while i < props.len()
        invariant
            i <= props@.len(),
            props@.len() == json_props(t, ind1@, full).len(),
            forall|k: int| 0 <= k < props@.len() ==> #[trigger] props@[k]@ == json_props(t, ind1@, full)[k],
            head == json_head(t, ind1@, full),
            out@ == join_with(head.take(1 + i), seq![',', '\n']),
        decreases props.len() - i,
    {
        proof {
            lemma_join_push(head.take(1 + i), seq![',', '\n'], head[1 + i]);
            assert(head.take(1 + i).push(head[1 + i]) =~= head.take(1 + i + 1));
            assert(head[1 + i] == props@[i as int]@);
        }
        out.push(',');
        out.push('\n');
        extend_all(&mut out, &props[i]);
        i = i + 1;
    }
    assert(head.take(1 + i) =~= head);
    out
}

/// The `"children"` property line of a node, at indentation `ind1`.
fn children_json<'a>(n: &'a AstNode<'a>, ind1: &[char], full: bool) -> (r: Vec<char>)
    ensures
        r@ == json_children(spec_tree(n).children, ind1@, full),
    decreases spec_tree(n), 0nat,
{
    let ghost t = spec_tree(n);
    let kids = node_children(n);
    let mut ind2: Vec<char> = Vec::new();
    extend_all(&mut ind2, ind1);
    ind2.push(' ');
    ind2.push(' ');
    assert(ind2@ =~= ind1@ + seq![' ', ' ']);
    let ghost cind = ind2@;
    let mut cp = prop_start(ind1, "children");
    cp.push('[');
    cp.push('\n');
    let ghost cp_start = cp@;
    let mut j: usize = 0;
    while j < kids.len()
        invariant
            j <= kids@.len(),
            kids@.len() == t.children.len(),
            t == spec_tree(n),
            forall|k: int| 0 <= k < kids@.len() ==> spec_tree(#[trigger] kids@[k]) == t.children[k],
            cind == ind2@,
            cp@ == cp_start + join_with(spec_forest_json(t.children.take(j as int), cind, full), seq![',', '\n']),
        decreases kids.len() - j,
    {
        proof {
            assert(decreases_to!(t => t.children));
            assert(decreases_to!(t.children => t.children[j as int]));
            assert(t.children.take(j + 1).drop_last() =~= t.children.take(j as int));
            lemma_join_push(
                spec_forest_json(t.children.take(j as int), cind, full),
                seq![',', '\n'],
                spec_tree_json(t.children[j as int], cind, full),
            );
        }
        if j > 0 {
            cp.push(',');
            cp.push('\n');
        }
        push_tree_json(kids[j], &ind2, full, &mut cp);
        j = j + 1;
    }
    assert(t.children.take(j as int) =~= t.children);
    cp.push('\n');
    extend_all(&mut cp, ind1);
    cp.push(']');
    assert(cp@ =~= json_children(t.children, ind1@, full));
    cp
}

/// Appends the JSON object of the subtree under `n`.
#[verifier::spinoff_prover]
#[verifier::rlimit(40)]
fn push_tree_json<'a>(n: &'a AstNode<'a>, ind: &[char], full: bool, out: &mut Vec<char>)
    ensures
        final(out)@ == old(out)@ + spec_tree_json(spec_tree(n), ind@, full),
    decreases spec_tree(n), 1nat,
{
    let ghost t = spec_tree(n);
    let ghost start = out@;
    let mut ind1: Vec<char> = Vec::new();
    extend_all(&mut ind1, ind);
    ind1.push(' ');
    ind1.push(' ');
    assert(ind1@ =~= ind@ + seq![' ', ' ']);
    let ghost head = json_head(t, ind1@, full);
    let ghost sep = seq![',', '\n'];
    extend_all(out, ind);
    out.push('{');
    out.push('\n');
    let ghost base = out@;
    let hj = head_json(n, &ind1, full);
    extend_all(out, &hj);
    let kids = node_children(n);
    if kids.len() > 0 {
        let cp = children_json(n, &ind1, full);
        proof {
            lemma_join_push(head, sep, cp@);
        }
        out.push(',');
        out.push('\n');
        extend_all(out, &cp);
        assert(out@ =~= base + join_with(head.push(cp@), sep));
    }
    out.push('\n');
    extend_all(out, ind);
    out.push('}');
    assert(out@ =~= start + spec_tree_json(t, ind@, full));
}

fn tree_json<'a>(node: &'a AstNode<'a>, depth: usize, full: bool) -> (r: String)
    requires
        depth <= usize::MAX / 2,
    ensures
        r@ == spec_tree_json(spec_tree(node), indent(depth as nat), full),
{
    let mut ind: Vec<char> = Vec::new();
    let mut i: usize = 0;
    while i < depth
        invariant
            i <= depth,
            ind@ == indent(i as nat),
        decreases depth - i,
    {
        ind.push(' ');
        ind.push(' ');
        i = i + 1;
        assert(ind@ =~= indent(i as nat));
    }
    let mut out: Vec<char> = Vec::new();
    push_tree_json(node, &ind, full, &mut out);
    from_chars(&out)
}

/// The JSON dump of `export --format json`: every node with its kind and
/// data, nested children two levels deeper, starting `depth` levels in.
pub fn ast_to_json<'a>(node: &'a AstNode<'a>, depth: usize) -> (r: String)
    requires
        depth <= usize::MAX / 2,
    ensures
        r@ == spec_tree_json(spec_tree(node), indent(depth as nat), true),
{
    tree_json(node, depth, true)
}

/// The JSON dump of `convert --to json`: the core node kinds only.
pub fn convert_ast_to_json<'a>(node: &'a AstNode<'a>, depth: usize) -> (r: String)
    requires
        depth <= usize::MAX / 2,
    ensures
        r@ == spec_tree_json(spec_tree(node), indent(depth as nat), false),
{
    tree_json(node, depth, false)
}

// ---------------------------------------------------------------------------
// Plain text
// ---------------------------------------------------------------------------

/// The walk's state: the text so far, whether the last thing written was a
/// block, and whether the next table cell is the first of its row.
pub type PlainWalk = (Seq<char>, bool, bool);

/// `"\n\n"` before a block unless the text is empty or ends a line.
pub open spec fn block_gap(text: Seq<char>) -> Seq<char> {
    if text.len() > 0 && text.last() != '\n' {
        text + seq!['\n', '\n']
    } else {
        text
    }
}

/// The `mailto:` scheme.
pub open spec fn mailto() -> Seq<char> {
    seq!['m', 'a', 'i', 'l', 't', 'o', ':']
}

/// An autolink's label already is its URL (or its address, for `mailto:`).
pub open spec fn label_is_url(text: Seq<char>, url: Seq<char>) -> bool {
    ends_with(text, url) || (starts_with(url, mailto()) && ends_with(text, url.skip(mailto().len() as int)))
}

/// `" (url)"`.
pub open spec fn url_note(url: Seq<char>) -> Seq<char> {
    seq![' ', '('] + url + seq![')']
}

/// What entering a node does to the walk.
pub open spec fn plain_start(st: PlainWalk, t: MdTree, full: bool) -> PlainWalk {
    let (text, lwb, first) = st;
    match t.tag {
        NodeTag::Text | NodeTag::Code => (text + t.literal, false, first),
        NodeTag::CodeBlock => ((if lwb { text.push('\n') } else { text }) + t.literal, true, first),
        NodeTag::SoftBreak | NodeTag::LineBreak => (text.push('\n'), false, first),
        NodeTag::Paragraph | NodeTag::Heading => (block_gap(text), true, first),
        NodeTag::TableRow => if full {
            (if text.len() > 0 && text.last() != '\n' { text.push('\n') } else { text }, lwb, true)
        } else {
            st
        },
        NodeTag::TableCell => if full {
            (if first { text } else { text + seq![' ', '|', ' '] }, false, false)
        } else {
            st
        },
        NodeTag::Superscript => if full { (text.push('^'), false, first) } else { st },
        NodeTag::Highlight => if full { (text + seq!['=', '='], false, first) } else { st },
        NodeTag::Math | NodeTag::HtmlInline => if full { (text + t.literal, false, first) } else { st },
        NodeTag::HtmlBlock => if full { (block_gap(text) + trim_end(t.literal), true, first) } else { st },
        _ => st,
    }
}

/// What leaving a node does to the walk (nothing in the convert flavour).
pub open spec fn plain_end(st: PlainWalk, t: MdTree, full: bool) -> PlainWalk {
    let (text, lwb, first) = st;
    if !full {
        st
    } else {
        match t.tag {
            NodeTag::Link => if t.url.len() > 0 {
                (if label_is_url(text, t.url) { text } else { text + url_note(t.url) }, false, first)
            } else {
                st
            },
            NodeTag::WikiLink => if t.url.len() > 0 { (text + url_note(t.url), false, first) } else { st },
            NodeTag::TableRow => (text.push('\n'), true, first),
            NodeTag::Superscript => (text.push('^'), false, first),
            NodeTag::Highlight => (text + seq!['=', '='], false, first),
            _ => st,
        }
    }
}

/// The walk over a subtree: enter the node, walk its children in order,
/// leave the node.
pub open spec fn plain_walk(st: PlainWalk, t: MdTree, full: bool) -> PlainWalk
    decreases t, 1nat,
{
    plain_end(plain_walk_all(plain_start(st, t, full), t.children, full), t, full)
}

/// The walk over a sequence of subtrees.
pub open spec fn plain_walk_all(st: PlainWalk, ts: Seq<MdTree>, full: bool) -> PlainWalk
    decreases ts, 0nat,
{
    if ts.len() == 0 {
        st
    } else {
        plain_walk(plain_walk_all(st, ts.drop_last(), full), ts.last(), full)
    }
}

/// The text with trailing whitespace trimmed and one newline added; empty
/// when nothing but whitespace was written.
pub open spec fn finish_plain(text: Seq<char>) -> Seq<char> {
    if trim_end(text).len() == 0 {
        seq![]
    } else {
        trim_end(text).push('\n')
    }
}

/// The plain text of a document.
pub open spec fn spec_plain_text(t: MdTree, full: bool) -> Seq<char> {
    finish_plain(plain_walk((seq![], false, true), t, full).0)
}

struct PlainState {
    text: Vec<char>,
    last_was_block: bool,
    first_cell: bool,
}

impl PlainState {
    spec fn walk_view(&self) -> PlainWalk {
        (self.text@, self.last_was_block, self.first_cell)
    }
}

fn ends_line(text: &Vec<char>) -> (b: bool)
    ensures
        b == (text@.len() > 0 && text@.last() == '\n'),
{
    text.len() > 0 && text[text.len() - 1] == '\n'
}

fn push_block_gap(text: &mut Vec<char>)
    ensures
        final(text)@ == block_gap(old(text)@),
{
    if text.len() > 0 && !ends_line(text) {
        text.push('\n');
        text.push('\n');
        assert(text@ =~= block_gap(old(text)@));
    }
}

fn push_url_note(text: &mut Vec<char>, url: &[char])
    ensures
        final(text)@ == old(text)@ + url_note(url@),
{
    text.push(' ');
    text.push('(');
    extend_all(text, url);
    text.push(')');
    assert(text@ =~= old(text)@ + url_note(url@));
}

fn plain_enter<'a>(n: &'a AstNode<'a>, st: &mut PlainState, full: bool)
    ensures
        final(st).walk_view() == plain_start(old(st).walk_view(), spec_tree(n), full),
{
    let ghost t = spec_tree(n);
    let tag = node_tag(n);
    match tag {
        NodeTag::Text | NodeTag::Code => {
            let lit = to_chars(node_literal(n).as_str());
            extend_all(&mut st.text, &lit);
            st.last_was_block = false;
        },
        NodeTag::CodeBlock => {
            let lit = to_chars(node_literal(n).as_str());
            if st.last_was_block {
                st.text.push('\n');
            }
            extend_all(&mut st.text, &lit);
            st.last_was_block = true;
        },
        NodeTag::SoftBreak | NodeTag::LineBreak => {
            st.text.push('\n');
            st.last_was_block = false;
        },
        NodeTag::Paragraph | NodeTag::Heading => {
            push_block_gap(&mut st.text);
            st.last_was_block = true;
        },
        NodeTag::TableRow => {
            if full {
                if st.text.len() > 0 && !ends_line(&st.text) {
                    st.text.push('\n');
                }
                st.first_cell = true;
            }
        },
        NodeTag::TableCell => {
            if full {
                if !st.first_cell {
                    st.text.push(' ');
                    st.text.push('|');
                    st.text.push(' ');
                    assert(st.text@ =~= old(st).text@ + seq![' ', '|', ' ']);
                }
                st.first_cell = false;
                st.last_was_block = false;
            }
        },
        NodeTag::Superscript => {
            if full {
                st.text.push('^');
                st.last_was_block = false;
            }
        },
        NodeTag::Highlight => {
            if full {
                st.text.push('=');
                st.text.push('=');
                assert(st.text@ =~= old(st).text@ + seq!['=', '=']);
                st.last_was_block = false;
            }
        },
        NodeTag::Math | NodeTag::HtmlInline => {
            if full {
                let lit = to_chars(node_literal(n).as_str());
                extend_all(&mut st.text, &lit);
                st.last_was_block = false;
            }
        },
        NodeTag::HtmlBlock => {
            if full {
                let lit = to_chars(node_literal(n).as_str());
                push_block_gap(&mut st.text);
                let e = skip_ws_back(&lit, 0, lit.len());
                proof {
                    assert(lit@.subrange(0, lit@.len() as int) =~= lit@);
                    assert(lit@.subrange(0, e as int) =~= trim_end(lit@));
                }
                crate::strs::extend_range(&mut st.text, &lit, 0, e);
                st.last_was_block = true;
            }
        },
        _ => {},
    }
}

fn plain_leave<'a>(n: &'a AstNode<'a>, st: &mut PlainState, full: bool)
    ensures
        final(st).walk_view() == plain_end(old(st).walk_view(), spec_tree(n), full),
{
    if !full {
        return;
    }
    let tag = node_tag(n);
    match tag {
        NodeTag::Link => {
            let (url, _title) = node_link(n);
            let u = to_chars(url.as_str());
            if u.len() > 0 {
                let m = to_chars("mailto:");
                proof {
                    reveal_strlit("mailto:");
                    assert(m@ =~= mailto());
                }
                let mut label = ends_with_seq(&st.text, &u);
                if !label && starts_with_at(&u, &m) {
                    let rest = crate::strs::slice_of(&u, m.len(), u.len());
                    assert(rest@ =~= u@.skip(mailto().len() as int));
                    label = ends_with_seq(&st.text, &rest);
                }
                if !label {
                    push_url_note(&mut st.text, &u);
                }
                st.last_was_block = false;
            }
        },
        NodeTag::WikiLink => {
            let (url, _title) = node_link(n);
            let u = to_chars(url.as_str());
            if u.len() > 0 {
                push_url_note(&mut st.text, &u);
                st.last_was_block = false;
            }
        },
        NodeTag::TableRow => {
            st.text.push('\n');
            st.last_was_block = true;
        },
        NodeTag::Superscript => {
            st.text.push('^');
            st.last_was_block = false;
        },
        NodeTag::Highlight => {
            st.text.push('=');
            st.text.push('=');
            assert(st.text@ =~= old(st).text@ + seq!['=', '=']);
            st.last_was_block = false;
        },
        _ => {},
    }
}

fn plain_visit<'a>(n: &'a AstNode<'a>, st: &mut PlainState, full: bool)
    ensures
        final(st).walk_view() == plain_walk(old(st).walk_view(), spec_tree(n), full),
    decreases spec_tree(n),
{
    let ghost t = spec_tree(n);
    plain_enter(n, st, full);
    let ghost entered = st.walk_view();
    let kids = node_children(n);
    let mut i: usize = 0;
    while i < kids.len()
        invariant
            i <= kids@.len(),
            kids@.len() == t.children.len(),
            t == spec_tree(n),
            forall|k: int| 0 <= k < kids@.len() ==> spec_tree(#[trigger] kids@[k]) == t.children[k],
            st.walk_view() == plain_walk_all(entered, t.children.take(i as int), full),
        decreases kids.len() - i,
    {
        proof {
            assert(decreases_to!(t => t.children));
            assert(decreases_to!(t.children => t.children[i as int]));
            assert(t.children.take(i + 1).drop_last() =~= t.children.take(i as int));
        }
        plain_visit(kids[i], st, full);
        i = i + 1;
    }
    assert(t.children.take(i as int) =~= t.children);
    plain_leave(n, st, full);
}

fn plain_text<'a>(root: &'a AstNode<'a>, full: bool) -> (r: String)
    ensures
        r@ == spec_plain_text(spec_tree(root), full),
{
    let mut st = PlainState { text: Vec::new(), last_was_block: false, first_cell: true };
    assert(st.walk_view() == (Seq::<char>::empty(), false, true));
    plain_visit(root, &mut st, full);
    let e = skip_ws_back(&st.text, 0, st.text.len());
    proof {
        assert(st.text@.subrange(0, st.text@.len() as int) =~= st.text@);
    }
    if e == 0 {
        assert(trim_end(st.text@).len() == 0);
        String::new()
    } else {
        let mut out = crate::strs::slice_of(&st.text, 0, e);
        assert(out@ =~= trim_end(st.text@));
        out.push('\n');
        from_chars(&out)
    }
}

/// The plain text of `export --format txt`: the document's text with blocks
/// separated by blank lines, table cells by `" | "`, link targets after
/// their labels, and one trailing newline.
pub fn extract_plain_text<'a>(root: &'a AstNode<'a>) -> (r: String)
    ensures
        r@ == spec_plain_text(spec_tree(root), true),
{
    plain_text(root, true)
}

/// The plain text of `convert --to txt`: text, code and line breaks, with
/// blocks separated by blank lines.
pub fn convert_plain_text<'a>(root: &'a AstNode<'a>) -> (r: String)
    ensures
        r@ == spec_plain_text(spec_tree(root), false),
{
    plain_text(root, false)
}

// ---------------------------------------------------------------------------
// Title
// ---------------------------------------------------------------------------

/// A level-1 heading with some text.
pub open spec fn is_title(t: MdTree) -> bool {
    t.tag == NodeTag::Heading && t.level == 1 && spec_inline_text(t, CodeStyle::Bare).len() > 0
}

/// The text of the first titled heading of a subtree, in document order.
pub open spec fn tree_title(t: MdTree) -> Option<Seq<char>>
    decreases t, 1nat,
{
    if is_title(t) {
        Some(spec_inline_text(t, CodeStyle::Bare))
    } else {
        forest_title(t.children)
    }
}

/// The first title in a sequence of subtrees.
pub open spec fn forest_title(ts: Seq<MdTree>) -> Option<Seq<char>>
    decreases ts, 0nat,
{
    if ts.len() == 0 {
        None
    } else {
        match forest_title(ts.drop_last()) {
            Some(x) => Some(x),
            None => tree_title(ts.last()),
        }
    }
}

fn find_title<'a>(n: &'a AstNode<'a>) -> (r: Option<String>)
    ensures
        match r {
            Some(x) => tree_title(spec_tree(n)) == Some(x@),
            None => tree_title(spec_tree(n)) is None,
        },
    decreases spec_tree(n),
{
    let ghost t = spec_tree(n);
    if node_tag(n) == NodeTag::Heading && node_heading_level(n) == 1 {
        let title = inline_text(n, CodeStyle::Bare);
        if to_chars(title.as_str()).len() > 0 {
            return Some(title);
        }
    }
    let kids = node_children(n);
    let mut found: Option<String> = None;
    let mut i: usize = 0;
    while i < kids.len()
        invariant
            i <= kids@.len(),
            kids@.len() == t.children.len(),
            t == spec_tree(n),
            forall|k: int| 0 <= k < kids@.len() ==> spec_tree(#[trigger] kids@[k]) == t.children[k],
            match found {
                Some(x) => forest_title(t.children.take(i as int)) == Some(x@),
                None => forest_title(t.children.take(i as int)) is None,
            },
        decreases kids.len() - i,
    {
        proof {
            assert(decreases_to!(t => t.children));
            assert(decreases_to!(t.children => t.children[i as int]));
            assert(t.children.take(i + 1).drop_last() =~= t.children.take(i as int));
        }
        if found.is_none() {
            found = find_title(kids[i]);
        }
        i = i + 1;
    }
    assert(t.children.take(i as int) =~= t.children);
    found
}

/// The text of the first level-1 heading that has any, for the document
/// title of an export.
pub fn extract_title<'a>(root: &'a AstNode<'a>) -> (r: Option<String>)
    ensures
        match r {
            Some(x) => tree_title(spec_tree(root)) == Some(x@),
            None => tree_title(spec_tree(root)) is None,
        },
{
    find_title(root)
}

// ---------------------------------------------------------------------------
// Laws
// ---------------------------------------------------------------------------

/// The plain text is either empty or ends in exactly one newline, with no
/// whitespace before it.
pub proof fn lemma_plain_text_tidy(t: MdTree, full: bool)
    ensures
        spec_plain_text(t, full).len() == 0 || {
            let r = spec_plain_text(t, full);
            &&& r.last() == '\n'
            &&& r.len() >= 2
            &&& !crate::strs::is_ws(r[r.len() - 2])
        },
{
    let text = plain_walk((seq![], false, true), t, full).0;
    crate::strs::lemma_trail_ws(text);
    if trim_end(text).len() > 0 {
        let r = trim_end(text).push('\n');
        assert(r[r.len() - 2] == text[text.len() - crate::strs::trail_ws(text) - 1]);
    }
}

/// Front matter adds nothing to the plain text (nor does any other node
/// the walk passes over), in either flavour.
pub proof fn lemma_front_matter_not_in_text(st: PlainWalk, t: MdTree, full: bool)
    requires
        t.tag == NodeTag::FrontMatter,
        t.children.len() == 0,
    ensures
        plain_walk(st, t, full) == st,
{
    assert(plain_walk_all(plain_start(st, t, full), t.children, full) == plain_start(st, t, full));
}

/// In the JSON dump every object starts with its `"type"` line.
pub proof fn lemma_json_starts_with_type(t: MdTree, ind: Seq<char>, full: bool)
    ensures
        crate::strs::starts_with(
            spec_tree_json(t, ind, full),
            ind + seq!['{', '\n'] + json_prop(ind + seq![' ', ' '], "type"@, seq!['"'] + json_node_type(t.tag, full) + seq!['"']),
        ),
{
    let ind1 = ind + seq![' ', ' '];
    let head = json_head(t, ind1, full);
    let parts = if t.children.len() == 0 { head } else { head.push(json_children(t.children, ind1, full)) };
    let first = json_prop(ind1, "type"@, seq!['"'] + json_node_type(t.tag, full) + seq!['"']);
    lemma_join_starts(parts, seq![',', '\n']);
    assert(parts[0] == first);
    let pre = ind + seq!['{', '\n'] + first;
    let whole = spec_tree_json(t, ind, full);
    assert(whole.subrange(0, pre.len() as int) =~= pre);
}

/// A join starts with its first piece.
proof fn lemma_join_starts(parts: Seq<Seq<char>>, sep: Seq<char>)
    requires
        parts.len() > 0,
    ensures
        crate::strs::starts_with(join_with(parts, sep), parts[0]),
    decreases parts.len(),
{
    if parts.len() == 1 {
        assert(join_with(parts, sep).subrange(0, parts[0].len() as int) =~= parts[0]);
    } else {
        lemma_join_starts(parts.drop_last(), sep);
        let j = join_with(parts.drop_last(), sep);
        assert(j.subrange(0, parts[0].len() as int) =~= parts[0]);
        assert((j + sep + parts.last()).subrange(0, parts[0].len() as int) =~= j.subrange(0, parts[0].len() as int));
    }
}

} // verus!
