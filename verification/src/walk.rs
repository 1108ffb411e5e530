//! The terminal renderer's walk over a document: the state it keeps between
//! nodes (styles, lists, quotes, paragraph buffer, table, link) and, for
//! each node start or end, the next state and the pieces to write.

use crate::ast::{
    node_alert, node_alignments, node_children, node_flags, node_footnote_name, node_heading_level, node_info, node_link,
    node_list, node_literal, node_tag, spec_tree, AlertKind, MdTree, NodeTag, TableAlign,
};
use comrak::nodes::AstNode;
use crate::highlight::{highlight_code, spec_highlight_code};
use crate::math::{spec_substitute_latex, substitute_latex};
use crate::render::{
    alert_label, available_width, box_bottom, bullet_for_depth, code_box_top, current_style, fit_code_line,
    heading_lines, indent_prefix, is_autolink, math_box_top, monus, ordered_marker, paragraph_lines,
    spec_alert_label, spec_box_bottom, spec_bullet, spec_code_box_top, spec_fit_code_line, spec_heading_lines,
    spec_indent_prefix, spec_is_autolink, spec_math_box_top, spec_paragraph_lines, stacked_style, strip_tags,
    strip_tags_from, Chars, StyledSegment,
};
use crate::strs::{decimal, extend_all, from_chars, is_ws, char_is_ws, lines, to_chars};
use crate::style::{plain_style, spec_merge, ColorLevel, Style};
use crate::table::{natural_widths, plain_table, rows_view, spec_plain_table, TableState, column_widths};
use crate::text::{display_width, repeat_vec, spaces_of, spec_display_width, spec_truncate, truncate_url};
use crate::theme::Theme;
use vstd::prelude::*;

verus! {

/// One open list: ordered or not, the next number, tight or not.
#[derive(Debug, Clone, Copy)]
pub struct ListInfo {
    pub ordered: bool,
    pub current: usize,
    pub tight: bool,
}

/// What the walk needs to know of the terminal and the look.
#[derive(Debug, Clone)]
pub struct RenderConfig {
    pub width: u16,
    pub level: ColorLevel,
    pub osc8: bool,
    pub plain: bool,
    pub chars: Chars,
    pub theme: Theme,
    pub syntax_theme: String,
}

/// A node start or end, with what the walk reads of the node.
#[derive(Debug, Clone)]
pub enum NodeEvent {
    HeadingStart(u8),
    HeadingEnd(u8),
    ParagraphStart,
    ParagraphEnd,
    Text(String),
    SoftBreak,
    LineBreak,
    Code(String),
    StrongStart,
    StrongEnd,
    EmphStart,
    EmphEnd,
    StrikeStart,
    StrikeEnd,
    LinkStart(String),
    LinkEnd(String),
    ImageStart,
    ImageEnd,
    Rule,
    QuoteStart,
    QuoteEnd,
    ListStart(bool, usize, bool),
    ListEnd,
    ItemStart,
    ItemEnd,
    TaskItem(bool),
    CodeBlock(String, String),
    TableStart(Vec<TableAlign>),
    TableEnd,
    RowStart(bool),
    RowEnd,
    CellStart,
    CellEnd,
    FootnoteRef(String),
    FootnoteDefStart(String),
    FootnoteDefEnd,
    AlertStart(AlertKind),
    AlertEnd,
    HtmlInline(String),
    HtmlBlock(String),
    Math(String, bool),
    Other,
}

/// A node start or end as plain values.
pub enum EventView {
    HeadingStart(u8),
    HeadingEnd(u8),
    ParagraphStart,
    ParagraphEnd,
    Text(Seq<char>),
    SoftBreak,
    LineBreak,
    Code(Seq<char>),
    StrongStart,
    StrongEnd,
    EmphStart,
    EmphEnd,
    StrikeStart,
    StrikeEnd,
    LinkStart(Seq<char>),
    LinkEnd(Seq<char>),
    ImageStart,
    ImageEnd,
    Rule,
    QuoteStart,
    QuoteEnd,
    ListStart(bool, usize, bool),
    ListEnd,
    ItemStart,
    ItemEnd,
    TaskItem(bool),
    CodeBlock(Seq<char>, Seq<char>),
    TableStart(Seq<TableAlign>),
    TableEnd,
    RowStart(bool),
    RowEnd,
    CellStart,
    CellEnd,
    FootnoteRef(Seq<char>),
    FootnoteDefStart(Seq<char>),
    FootnoteDefEnd,
    AlertStart(AlertKind),
    AlertEnd,
    HtmlInline(Seq<char>),
    HtmlBlock(Seq<char>),
    Math(Seq<char>, bool),
    Other,
}

impl View for NodeEvent {
    type V = EventView;

    open spec fn view(&self) -> EventView {
        match self {
            NodeEvent::HeadingStart(l) => EventView::HeadingStart(*l),
            NodeEvent::HeadingEnd(l) => EventView::HeadingEnd(*l),
            NodeEvent::ParagraphStart => EventView::ParagraphStart,
            NodeEvent::ParagraphEnd => EventView::ParagraphEnd,
            NodeEvent::Text(t) => EventView::Text(t@),
            NodeEvent::SoftBreak => EventView::SoftBreak,
            NodeEvent::LineBreak => EventView::LineBreak,
            NodeEvent::Code(t) => EventView::Code(t@),
            NodeEvent::StrongStart => EventView::StrongStart,
            NodeEvent::StrongEnd => EventView::StrongEnd,
            NodeEvent::EmphStart => EventView::EmphStart,
            NodeEvent::EmphEnd => EventView::EmphEnd,
            NodeEvent::StrikeStart => EventView::StrikeStart,
            NodeEvent::StrikeEnd => EventView::StrikeEnd,
            NodeEvent::LinkStart(u) => EventView::LinkStart(u@),
            NodeEvent::LinkEnd(u) => EventView::LinkEnd(u@),
            NodeEvent::ImageStart => EventView::ImageStart,
            NodeEvent::ImageEnd => EventView::ImageEnd,
            NodeEvent::Rule => EventView::Rule,
            NodeEvent::QuoteStart => EventView::QuoteStart,
            NodeEvent::QuoteEnd => EventView::QuoteEnd,
            NodeEvent::ListStart(o, st, t) => EventView::ListStart(*o, *st, *t),
            NodeEvent::ListEnd => EventView::ListEnd,
            NodeEvent::ItemStart => EventView::ItemStart,
            NodeEvent::ItemEnd => EventView::ItemEnd,
            NodeEvent::TaskItem(b) => EventView::TaskItem(*b),
            NodeEvent::CodeBlock(i, l) => EventView::CodeBlock(i@, l@),
            NodeEvent::TableStart(a) => EventView::TableStart(a@),
            NodeEvent::TableEnd => EventView::TableEnd,
            NodeEvent::RowStart(h) => EventView::RowStart(*h),
            NodeEvent::RowEnd => EventView::RowEnd,
            NodeEvent::CellStart => EventView::CellStart,
            NodeEvent::CellEnd => EventView::CellEnd,
            NodeEvent::FootnoteRef(n) => EventView::FootnoteRef(n@),
            NodeEvent::FootnoteDefStart(n) => EventView::FootnoteDefStart(n@),
            NodeEvent::FootnoteDefEnd => EventView::FootnoteDefEnd,
            NodeEvent::AlertStart(k) => EventView::AlertStart(*k),
            NodeEvent::AlertEnd => EventView::AlertEnd,
            NodeEvent::HtmlInline(h) => EventView::HtmlInline(h@),
            NodeEvent::HtmlBlock(h) => EventView::HtmlBlock(h@),
            NodeEvent::Math(l, d) => EventView::Math(l@, *d),
            NodeEvent::Other => EventView::Other,
        }
    }
}

/// A run of node starts and ends as plain values.
pub open spec fn events_view(v: Seq<NodeEvent>) -> Seq<EventView> {
    v.map_values(|e: NodeEvent| e@)
}

/// What the walk writes: text (styled, or as it is), or a finished table
/// for the caller to lay out at the given indent.
#[derive(Debug, Clone)]
pub enum RenderOut {
    Piece(String, Option<Style>),
    Table(TableState, String),
}

/// A table as plain values.
#[verifier::ext_equal]
pub struct TableView {
    pub rows: Seq<Seq<Seq<char>>>,
    pub aligns: Seq<TableAlign>,
    pub in_header: bool,
    pub header_rows: usize,
    pub cell: Seq<char>,
}

/// A table's plain values.
pub open spec fn table_view(t: TableState) -> TableView {
    TableView {
        rows: rows_view(t.rows@),
        aligns: t.alignments@,
        in_header: t.in_header,
        header_rows: t.header_rows,
        cell: t.current_cell@,
    }
}

/// An output as plain values.
pub enum OutView {
    Piece(Seq<char>, Option<Style>),
    Table(TableView, Seq<char>),
}

pub open spec fn out_view(o: RenderOut) -> OutView {
    match o {
        RenderOut::Piece(t, s) => OutView::Piece(t@, s),
        RenderOut::Table(t, i) => OutView::Table(table_view(t), i@),
    }
}

pub open spec fn outs_view(v: Seq<RenderOut>) -> Seq<OutView> {
    v.map_values(|o: RenderOut| out_view(o))
}

/// The state of the walk.
pub struct RenderState {
    pub styles: Vec<Style>,
    pub prefix: String,
    pub indent_level: usize,
    pub lists: Vec<ListInfo>,
    pub quote_depth: usize,
    pub heading: Option<u8>,
    pub heading_text: String,
    pub table: Option<TableState>,
    pub in_cell: bool,
    pub needs_newline: bool,
    pub tight: bool,
    pub para: bool,
    pub segments: Vec<StyledSegment>,
    pub link_url: Option<String>,
    pub link_text: String,
    pub after_marker: bool,
    pub strike_fallback: bool,
}

/// The state of the walk as plain values.
#[verifier::ext_equal]
pub struct RenderView {
    pub styles: Seq<Style>,
    pub prefix: Seq<char>,
    pub indent_level: usize,
    pub lists: Seq<ListInfo>,
    pub quote_depth: usize,
    pub heading: Option<u8>,
    pub heading_text: Seq<char>,
    pub table: Option<TableView>,
    pub in_cell: bool,
    pub needs_newline: bool,
    pub tight: bool,
    pub para: bool,
    pub segments: Seq<(Seq<char>, Style)>,
    pub link_url: Option<Seq<char>>,
    pub link_text: Seq<char>,
    pub after_marker: bool,
    pub strike_fallback: bool,
}

pub open spec fn segs_view(v: Seq<StyledSegment>) -> Seq<(Seq<char>, Style)> {
    v.map_values(|s: StyledSegment| (s.text@, s.style))
}

impl View for RenderState {
    type V = RenderView;

    open spec fn view(&self) -> RenderView {
        RenderView {
            styles: self.styles@,
            prefix: self.prefix@,
            indent_level: self.indent_level,
            lists: self.lists@,
            quote_depth: self.quote_depth,
            heading: self.heading,
            heading_text: self.heading_text@,
            table: match self.table {
                Some(t) => Some(table_view(t)),
                None => None,
            },
            in_cell: self.in_cell,
            needs_newline: self.needs_newline,
            tight: self.tight,
            para: self.para,
            segments: segs_view(self.segments@),
            link_url: match self.link_url {
                Some(u) => Some(u@),
                None => None,
            },
            link_text: self.link_text@,
            after_marker: self.after_marker,
            strike_fallback: self.strike_fallback,
        }
    }
}

// ---------------------------------------------------------------------------
// Spec helpers
// ---------------------------------------------------------------------------

/// A piece written as it is.
pub open spec fn raw(t: Seq<char>) -> OutView {
    OutView::Piece(t, None)
}

/// A line break.
pub open spec fn nl() -> OutView {
    raw(seq!['\n'])
}

/// A blank line when one is due.
pub open spec fn gap(due: bool) -> Seq<OutView> {
    if due { seq![nl()] } else { seq![] }
}

/// The width left for text after the indent.
pub open spec fn avail(s: RenderView, c: RenderConfig) -> int {
    if (c.width as int) > spec_display_width(s.prefix) as int {
        c.width as int - spec_display_width(s.prefix) as int
    } else {
        0
    }
}

/// A list level the indent can hold.
pub open spec fn clamp_level(l: usize) -> usize {
    if l <= usize::MAX / 2 { l } else { (usize::MAX / 2) as usize }
}

/// The state with its indent computed afresh from quote depth and level.
pub open spec fn rebuilt(s: RenderView, c: RenderConfig) -> RenderView {
    RenderView {
        prefix: spec_indent_prefix(s.quote_depth as nat, clamp_level(s.indent_level) as nat, c.chars.bq_bar),
        ..s
    }
}

/// The style in effect.
pub open spec fn cur(s: RenderView) -> Style {
    stacked_style(s.styles)
}

/// Inline text: into the paragraph buffer, or written out styled.
pub open spec fn emit(s: RenderView, text: Seq<char>, st: Style) -> (RenderView, Seq<OutView>) {
    if s.para {
        (RenderView { segments: s.segments.push((text, st)), ..s }, seq![])
    } else {
        (s, seq![OutView::Piece(text, Some(st))])
    }
}

/// Text added to the open table cell.
pub open spec fn cell_push(s: RenderView, text: Seq<char>) -> RenderView {
    match s.table {
        Some(t) => RenderView { table: Some(TableView { cell: t.cell + text, ..t }), ..s },
        None => s,
    }
}

/// The style stack with its top removed (nothing when it is empty).
pub open spec fn popped(v: Seq<Style>) -> Seq<Style> {
    if v.len() > 0 { v.drop_last() } else { v }
}

/// Lines, each written after the indent and `lead`, in a style, then a
/// line break.
pub open spec fn line_outs(indent: Seq<char>, lead: Seq<char>, ls: Seq<Seq<char>>, st: Option<Style>) -> Seq<OutView>
    decreases ls.len(),
{
    if ls.len() == 0 {
        seq![]
    } else {
        line_outs(indent, lead, ls.drop_last(), st) + seq![raw(indent), OutView::Piece(lead + ls.last(), st), nl()]
    }
}

/// The lines of a code box.
pub open spec fn code_line_outs(indent: Seq<char>, v: char, border: Style, ls: Seq<Seq<char>>, inner: int) -> Seq<OutView>
    decreases ls.len(),
{
    if ls.len() == 0 {
        seq![]
    } else {
        code_line_outs(indent, v, border, ls.drop_last(), inner) + seq![
            raw(indent),
            OutView::Piece(seq![v], Some(border)),
            raw(spec_fit_code_line(ls.last(), inner)),
            OutView::Piece(seq![v], Some(border)),
            nl(),
        ]
    }
}

/// The lines of a display-math box.
pub open spec fn math_line_outs(indent: Seq<char>, v: char, border: Style, ms: Style, ls: Seq<Seq<char>>, inner: int) -> Seq<OutView>
    decreases ls.len(),
{
    if ls.len() == 0 {
        seq![]
    } else {
        math_line_outs(indent, v, border, ms, ls.drop_last(), inner) + seq![
            raw(indent),
            OutView::Piece(seq![v], Some(border)),
            OutView::Piece(ls.last(), Some(ms)),
            raw(spaces_of(' ', monus(inner, spec_display_width(ls.last()) as int) as nat)),
            OutView::Piece(seq![v], Some(border)),
            nl(),
        ]
    }
}

/// Each character of a line in its own style.
pub open spec fn char_outs(l: Seq<(char, Style)>) -> Seq<OutView> {
    l.map_values(|p: (char, Style)| OutView::Piece(seq![p.0], Some(p.1)))
}

/// The lines of a wrapped paragraph: the first after the indent already
/// written, the others after a line break and the indent.
pub open spec fn para_outs(indent: Seq<char>, ls: Seq<Seq<(char, Style)>>) -> Seq<OutView>
    decreases ls.len(),
{
    if ls.len() == 0 {
        seq![]
    } else {
        para_outs(indent, ls.drop_last()) + (if ls.len() > 1 { seq![nl(), raw(indent)] } else { seq![] })
            + char_outs(ls.last())
    }
}

/// A rule across the width.
pub open spec fn rule_outs(s: RenderView, c: RenderConfig, ch: char, st: Style) -> Seq<OutView> {
    seq![raw(s.prefix), OutView::Piece(spaces_of(ch, avail(s, c) as nat), Some(st)), nl()]
}

/// The style of a heading level.
pub open spec fn heading_style(t: Theme, level: u8) -> Style {
    if level == 1 {
        t.h1
    } else if level == 2 {
        t.h2
    } else if level == 3 {
        t.h3
    } else if level == 4 {
        t.h4
    } else if level == 5 {
        t.h5
    } else {
        t.h6
    }
}

/// The style of an alert kind.
pub open spec fn alert_style(t: Theme, k: AlertKind) -> Style {
    match k {
        AlertKind::Note => t.alert_note,
        AlertKind::Tip => t.alert_tip,
        AlertKind::Important => t.alert_important,
        AlertKind::Warning => t.alert_warning,
        AlertKind::Caution => t.alert_caution,
    }
}

/// The first whitespace-separated word of a code block's info string.
pub open spec fn first_word(s: Seq<char>) -> Seq<char>
    decreases s.len(),
{
    if s.len() == 0 {
        seq![]
    } else if is_ws(s[0]) {
        first_word(s.drop_first())
    } else {
        word_prefix(s)
    }
}

/// The characters up to the first whitespace.
pub open spec fn word_prefix(s: Seq<char>) -> Seq<char>
    decreases s.len(),
{
    if s.len() == 0 || is_ws(s[0]) {
        seq![]
    } else {
        seq![s[0]] + word_prefix(s.drop_first())
    }
}

/// The escape that opens a terminal hyperlink.
pub open spec fn osc8_open(url: Seq<char>) -> Seq<char> {
    seq!['\u{1b}', ']', '8', ';', ';'] + url + seq!['\u{7}']
}

/// The escape that closes a terminal hyperlink.
pub open spec fn osc8_close() -> Seq<char> {
    seq!['\u{1b}', ']', '8', ';', ';', '\u{7}']
}

/// The room for a link's destination: two thirds of the width less three.
pub open spec fn budget(a: int) -> int {
    if a * 2 / 3 >= 3 { a * 2 / 3 - 3 } else { 0 }
}

/// The state before anything has been read.
pub open spec fn initial_view() -> RenderView {
    RenderView {
        styles: seq![],
        prefix: seq![],
        indent_level: 0,
        lists: seq![],
        quote_depth: 0,
        heading: None,
        heading_text: seq![],
        table: None,
        in_cell: false,
        needs_newline: false,
        tight: false,
        para: false,
        segments: seq![],
        link_url: None,
        link_text: seq![],
        after_marker: false,
        strike_fallback: false,
    }
}

// ---------------------------------------------------------------------------
// One step
// ---------------------------------------------------------------------------

pub open spec fn step_heading_start(s: RenderView, c: RenderConfig, level: u8) -> (RenderView, Seq<OutView>) {
    (
        RenderView { heading: Some(level), heading_text: seq![], ..s },
        gap(s.needs_newline) + (if level == 1 && !c.plain {
            rule_outs(s, c, c.chars.h1_rule, c.theme.heading_rule)
        } else {
            seq![]
        }),
    )
}

pub open spec fn step_heading_end(s: RenderView, c: RenderConfig, level: u8) -> (RenderView, Seq<OutView>) {
    (
        RenderView { heading: None, heading_text: seq![], needs_newline: true, ..s },
        line_outs(
            s.prefix,
            seq![],
            spec_heading_lines(s.heading_text, level, c.plain, avail(s, c) as usize),
            Some(heading_style(c.theme, level)),
        ) + (if !c.plain && (level == 1 || level == 2) {
            rule_outs(s, c, if level == 1 { c.chars.h1_rule } else { c.chars.h2_rule }, c.theme.heading_rule)
        } else {
            seq![]
        }),
    )
}

pub open spec fn step_paragraph_start(s: RenderView) -> (RenderView, Seq<OutView>) {
    if s.in_cell {
        (s, seq![])
    } else {
        (
            RenderView { after_marker: false, para: true, segments: seq![], ..s },
            if s.after_marker { seq![] } else { gap(s.needs_newline && !s.tight) + seq![raw(s.prefix)] },
        )
    }
}

pub open spec fn step_paragraph_end(s: RenderView, c: RenderConfig) -> (RenderView, Seq<OutView>) {
    if s.in_cell {
        (s, seq![])
    } else if s.para {
        (
            RenderView { para: false, segments: seq![], needs_newline: true, ..s },
            (if s.segments.len() == 0 {
                seq![]
            } else {
                para_outs(s.prefix, spec_paragraph_lines(s.segments, avail(s, c) as usize))
            }) + seq![nl()],
        )
    } else {
        (RenderView { needs_newline: true, ..s }, seq![nl()])
    }
}

pub open spec fn step_text(s: RenderView, t: Seq<char>) -> (RenderView, Seq<OutView>) {
    let s1 = if s.link_url is Some { RenderView { link_text: s.link_text + t, ..s } } else { s };
    if s1.heading is Some {
        (RenderView { heading_text: s1.heading_text + t, ..s1 }, seq![])
    } else if s1.in_cell {
        (cell_push(s1, t), seq![])
    } else {
        emit(s1, t, cur(s1))
    }
}

pub open spec fn step_break(s: RenderView, hard: bool) -> (RenderView, Seq<OutView>) {
    if s.heading is Some {
        (RenderView { heading_text: s.heading_text + seq![' '], ..s }, seq![])
    } else if s.in_cell {
        (cell_push(s, seq![' ']), seq![])
    } else if s.para {
        (RenderView { segments: s.segments.push((if hard { seq!['\n'] } else { seq![' '] }, cur(s))), ..s }, seq![])
    } else if hard {
        (s, seq![nl(), raw(s.prefix)])
    } else {
        (s, seq![raw(seq![' '])])
    }
}

pub open spec fn step_code(s: RenderView, c: RenderConfig, lit: Seq<char>) -> (RenderView, Seq<OutView>) {
    if s.heading is Some {
        (RenderView { heading_text: s.heading_text + lit, ..s }, seq![])
    } else if s.in_cell {
        (cell_push(s, lit), seq![])
    } else {
        emit(s, seq![' '] + lit + seq![' '], spec_merge(cur(s), c.theme.inline_code))
    }
}

pub open spec fn strike_needs_fallback(c: RenderConfig) -> bool {
    c.level == ColorLevel::NoColor || c.level == ColorLevel::Basic
}

pub open spec fn step_strike_start(s: RenderView, c: RenderConfig) -> (RenderView, Seq<OutView>) {
    let fb = strike_needs_fallback(c);
    let segs = if fb && s.para { s.segments.push((seq!['~', '~'], cur(s))) } else { s.segments };
    (RenderView { segments: segs, styles: s.styles.push(c.theme.strikethrough), strike_fallback: fb, ..s }, seq![])
}

pub open spec fn step_strike_end(s: RenderView) -> (RenderView, Seq<OutView>) {
    let s1 = RenderView { styles: popped(s.styles), ..s };
    if s.strike_fallback {
        let segs = if s1.para { s1.segments.push((seq!['~', '~'], cur(s1))) } else { s1.segments };
        (RenderView { segments: segs, strike_fallback: false, ..s1 }, seq![])
    } else {
        (s1, seq![])
    }
}

pub open spec fn step_link_start(s: RenderView, c: RenderConfig, url: Seq<char>) -> (RenderView, Seq<OutView>) {
    let segs = if c.osc8 && s.para { s.segments.push((osc8_open(url), plain_style())) } else { s.segments };
    (
        RenderView {
            styles: s.styles.push(c.theme.link_text),
            link_url: Some(url),
            link_text: seq![],
            segments: segs,
            ..s
        },
        seq![],
    )
}

pub open spec fn step_link_end(s: RenderView, c: RenderConfig, url: Seq<char>) -> (RenderView, Seq<OutView>) {
    let segs = if c.osc8 && s.para { s.segments.push((osc8_close(), plain_style())) } else { s.segments };
    let s2 = RenderView { styles: popped(s.styles), segments: segs, link_text: seq![], link_url: None, ..s };
    if spec_is_autolink(s.link_text, url) {
        (s2, seq![])
    } else {
        let f = seq![' ', '('] + spec_truncate(url, budget(avail(s2, c))) + seq![')'];
        if s2.in_cell {
            (cell_push(s2, f), seq![])
        } else {
            emit(s2, f, c.theme.link_url)
        }
    }
}

pub open spec fn step_image_text(s: RenderView, c: RenderConfig, t: Seq<char>) -> (RenderView, Seq<OutView>) {
    if s.in_cell {
        (cell_push(s, t), seq![])
    } else {
        emit(s, t, c.theme.image_text)
    }
}

pub open spec fn step_rule(s: RenderView, c: RenderConfig) -> (RenderView, Seq<OutView>) {
    (
        RenderView { needs_newline: true, ..s },
        gap(s.needs_newline) + (if c.plain {
            seq![raw(s.prefix), raw(seq!['-', '-', '-']), nl()]
        } else {
            rule_outs(s, c, c.chars.hr, c.theme.hr)
        }),
    )
}

pub open spec fn step_list_end(s: RenderView) -> (RenderView, Seq<OutView>) {
    let ls = if s.lists.len() > 0 { s.lists.drop_last() } else { s.lists };
    let t = if ls.len() > 0 { ls.last().tight } else { false };
    if ls.len() == 0 && !s.needs_newline {
        (RenderView { lists: ls, tight: t, needs_newline: true, ..s }, seq![nl()])
    } else {
        (RenderView { lists: ls, tight: t, ..s }, seq![])
    }
}

/// The marker of the item that opens in list `info` at `depth`.
pub open spec fn item_marker(c: RenderConfig, info: ListInfo, depth: usize) -> Seq<OutView> {
    if info.ordered {
        seq![OutView::Piece(decimal(info.current as nat) + seq!['.', ' '], Some(c.theme.list_bullet))]
    } else {
        seq![OutView::Piece(spec_bullet(c.chars, depth as nat), Some(c.theme.list_bullet)), raw(seq![' '])]
    }
}

pub open spec fn step_item_start(s: RenderView, c: RenderConfig) -> (RenderView, Seq<OutView>) {
    let depth = monus(s.lists.len() as int, 1) as usize;
    let head = gap(s.needs_newline && !s.tight);
    let (ls, marker) = if s.lists.len() > 0 {
        let info = s.lists.last();
        let next = ListInfo {
            current: if info.ordered && info.current < usize::MAX { (info.current + 1) as usize } else { info.current },
            ..info
        };
        (
            s.lists.update(s.lists.len() - 1, next),
            seq![raw(spec_indent_prefix(s.quote_depth as nat, clamp_level(depth) as nat, c.chars.bq_bar))]
                + item_marker(c, info, depth),
        )
    } else {
        (s.lists, seq![])
    };
    (
        rebuilt(RenderView { lists: ls, indent_level: (depth + 1) as usize, after_marker: true, ..s }, c),
        head + marker,
    )
}

pub open spec fn step_task(s: RenderView, c: RenderConfig, checked: bool) -> (RenderView, Seq<OutView>) {
    (
        s,
        seq![
            if checked {
                OutView::Piece(c.chars.task_done@, Some(c.theme.task_done))
            } else {
                OutView::Piece(c.chars.task_undone@, Some(c.theme.task_undone))
            },
            raw(seq![' ']),
        ],
    )
}

pub open spec fn step_code_block(s: RenderView, c: RenderConfig, info: Seq<char>, lit: Seq<char>) -> (RenderView, Seq<OutView>) {
    let lang = first_word(info);
    let w = avail(s, c);
    let body = if c.plain {
        line_outs(s.prefix, seq![' ', ' ', ' ', ' '], lines(lit), None)
    } else {
        seq![raw(s.prefix), OutView::Piece(spec_code_box_top(c.chars, lang, w), Some(c.theme.code_border)), nl()]
            + code_line_outs(
            s.prefix,
            c.chars.code_v,
            c.theme.code_border,
            spec_highlight_code(lit, lang, c.syntax_theme@, c.level),
            monus(w, 2),
        ) + seq![raw(s.prefix), OutView::Piece(spec_box_bottom(c.chars, w), Some(c.theme.code_border)), nl()]
    };
    (RenderView { needs_newline: true, ..s }, gap(s.needs_newline) + body)
}

pub open spec fn step_table_end(s: RenderView, c: RenderConfig) -> (RenderView, Seq<OutView>) {
    let s1 = RenderView { table: None, ..s };
    match s.table {
        None => (s1, seq![]),
        Some(t) => if t.rows.len() == 0 {
            (s1, seq![])
        } else if c.plain {
            (
                RenderView { needs_newline: true, ..s1 },
                gap(s.needs_newline) + line_outs(s.prefix, seq![], spec_plain_table(t.rows, t.header_rows as nat), None),
            )
        } else if natural_widths(t.rows).len() == 0 {
            (s1, gap(s.needs_newline))
        } else {
            (RenderView { needs_newline: true, ..s1 }, gap(s.needs_newline) + seq![OutView::Table(t, s.prefix)])
        },
    }
}

pub open spec fn step_table(s: RenderView, ev: EventView) -> RenderView {
    match s.table {
        None => s,
        Some(t) => {
            let t2 = match ev {
                EventView::RowStart(h) => TableView { rows: t.rows.push(seq![]), in_header: h, ..t },
                EventView::RowEnd => TableView {
                    header_rows: if t.in_header { t.rows.len() as usize } else { t.header_rows },
                    ..t
                },
                EventView::CellStart => TableView { cell: seq![], ..t },
                _ => TableView {
                    cell: seq![],
                    rows: if t.rows.len() > 0 { t.rows.update(t.rows.len() - 1, t.rows.last().push(t.cell)) } else { t.rows },
                    ..t
                },
            };
            RenderView { table: Some(t2), ..s }
        },
    }
}

pub open spec fn step_footnote_start(s: RenderView, c: RenderConfig, name: Seq<char>) -> (RenderView, Seq<OutView>) {
    (
        rebuilt(RenderView { indent_level: (if s.indent_level < usize::MAX { s.indent_level + 1 } else { s.indent_level as int }) as usize, ..s }, c),
        gap(s.needs_newline) + seq![raw(s.prefix), OutView::Piece(seq!['['] + name + seq![']', ':', ' '], Some(c.theme.footnote_ref))],
    )
}

pub open spec fn step_alert_start(s: RenderView, c: RenderConfig, k: AlertKind) -> (RenderView, Seq<OutView>) {
    let st = alert_style(c.theme, k);
    (
        rebuilt(RenderView { quote_depth: (if s.quote_depth < usize::MAX { s.quote_depth + 1 } else { s.quote_depth as int }) as usize, ..s }, c),
        gap(s.needs_newline) + seq![
            raw(s.prefix),
            OutView::Piece(seq![c.chars.bq_bar, ' '], Some(st)),
            OutView::Piece(spec_alert_label(k), Some(st)),
            nl(),
        ],
    )
}

pub open spec fn step_math(s: RenderView, c: RenderConfig, lit: Seq<char>, display: bool) -> (RenderView, Seq<OutView>) {
    let conv = spec_substitute_latex(lit);
    if !display {
        emit(s, seq![' '] + conv + seq![' '], Style { italic: true, ..spec_merge(cur(s), c.theme.inline_code) })
    } else {
        let w = avail(s, c);
        let body = if c.plain {
            seq![raw(s.prefix), raw(seq![' ', ' ', ' ', ' '] + conv), nl()]
        } else {
            seq![raw(s.prefix), OutView::Piece(spec_math_box_top(c.chars, w), Some(c.theme.code_border)), nl()]
                + math_line_outs(
                s.prefix,
                c.chars.code_v,
                c.theme.code_border,
                Style { italic: true, ..c.theme.inline_code },
                lines(conv),
                monus(w, 2),
            ) + seq![raw(s.prefix), OutView::Piece(spec_box_bottom(c.chars, w), Some(c.theme.code_border)), nl()]
        };
        (RenderView { needs_newline: true, ..s }, gap(s.needs_newline) + body)
    }
}

/// What one node start or end does to the state, and what it writes.
pub open spec fn spec_render_step(s: RenderView, ev: EventView, c: RenderConfig) -> (RenderView, Seq<OutView>) {
    match ev {
        EventView::HeadingStart(l) => step_heading_start(s, c, l),
        EventView::HeadingEnd(l) => step_heading_end(s, c, l),
        EventView::ParagraphStart => step_paragraph_start(s),
        EventView::ParagraphEnd => step_paragraph_end(s, c),
        EventView::Text(t) => step_text(s, t),
        EventView::SoftBreak => step_break(s, false),
        EventView::LineBreak => step_break(s, true),
        EventView::Code(t) => step_code(s, c, t),
        EventView::StrongStart => (RenderView { styles: s.styles.push(c.theme.bold), ..s }, seq![]),
        EventView::EmphStart => (RenderView { styles: s.styles.push(c.theme.italic), ..s }, seq![]),
        EventView::StrongEnd => (RenderView { styles: popped(s.styles), ..s }, seq![]),
        EventView::EmphEnd => (RenderView { styles: popped(s.styles), ..s }, seq![]),
        EventView::StrikeStart => step_strike_start(s, c),
        EventView::StrikeEnd => step_strike_end(s),
        EventView::LinkStart(u) => step_link_start(s, c, u),
        EventView::LinkEnd(u) => step_link_end(s, c, u),
        EventView::ImageStart => step_image_text(s, c, seq!['[', 'I', 'm', 'a', 'g', 'e', ':', ' ']),
        EventView::ImageEnd => step_image_text(s, c, seq![']']),
        EventView::Rule => step_rule(s, c),
        EventView::QuoteStart => (
            rebuilt(RenderView {
                quote_depth: (if s.quote_depth < usize::MAX { s.quote_depth + 1 } else { s.quote_depth as int }) as usize,
                styles: s.styles.push(c.theme.blockquote_text),
                ..s
            }, c),
            seq![],
        ),
        EventView::QuoteEnd => (
            rebuilt(RenderView { quote_depth: monus(s.quote_depth as int, 1) as usize, styles: popped(s.styles), ..s }, c),
            seq![],
        ),
        EventView::ListStart(o, st, t) => (
            RenderView { lists: s.lists.push(ListInfo { ordered: o, current: st, tight: t }), tight: t || s.tight, ..s },
            seq![],
        ),
        EventView::ListEnd => step_list_end(s),
        EventView::ItemStart => step_item_start(s, c),
        EventView::ItemEnd => (
            rebuilt(RenderView { indent_level: monus(s.lists.len() as int, 1) as usize, needs_newline: false, ..s }, c),
            seq![],
        ),
        EventView::TaskItem(b) => step_task(s, c, b),
        EventView::CodeBlock(i, l) => step_code_block(s, c, i, l),
        EventView::TableStart(a) => (
            RenderView {
                table: Some(TableView { rows: seq![], aligns: a, in_header: false, header_rows: 0, cell: seq![] }),
                ..s
            },
            seq![],
        ),
        EventView::TableEnd => step_table_end(s, c),
        EventView::RowStart(_) => (step_table(s, ev), seq![]),
        EventView::RowEnd => (step_table(s, ev), seq![]),
        EventView::CellStart => (RenderView { in_cell: true, ..step_table(s, ev) }, seq![]),
        EventView::CellEnd => (RenderView { in_cell: false, ..step_table(s, ev) }, seq![]),
        EventView::FootnoteRef(n) => emit(s, seq!['['] + n + seq![']'], c.theme.footnote_ref),
        EventView::FootnoteDefStart(n) => step_footnote_start(s, c, n),
        EventView::FootnoteDefEnd => (rebuilt(RenderView { indent_level: monus(s.indent_level as int, 1) as usize, ..s }, c), seq![]),
        EventView::AlertStart(k) => step_alert_start(s, c, k),
        EventView::AlertEnd => (rebuilt(RenderView { quote_depth: monus(s.quote_depth as int, 1) as usize, ..s }, c), seq![]),
        EventView::HtmlInline(h) => (s, seq![raw(strip_tags_from(h, false))]),
        EventView::HtmlBlock(h) => (s, seq![raw(h)]),
        EventView::Math(l, d) => step_math(s, c, l, d),
        EventView::Other => (s, seq![]),
    }
}

// ---------------------------------------------------------------------------
// Writing pieces
// ---------------------------------------------------------------------------

fn push_piece(out: &mut Vec<RenderOut>, text: String, st: Option<Style>)
    ensures
        outs_view(final(out)@) == outs_view(old(out)@).push(OutView::Piece(text@, st)),
{
    let ghost before = outs_view(out@);
    out.push(RenderOut::Piece(text, st));
    assert(outs_view(out@) =~= before.push(OutView::Piece(text@, st)));
}

fn push_nl(out: &mut Vec<RenderOut>)
    ensures
        outs_view(final(out)@) == outs_view(old(out)@).push(nl()),
{
    let mut v: Vec<char> = Vec::new();
    v.push('\n');
    push_piece(out, from_chars(&v), None);
}

fn push_gap(out: &mut Vec<RenderOut>, due: bool)
    ensures
        outs_view(final(out)@) == outs_view(old(out)@) + gap(due),
{
    let ghost before = outs_view(out@);
    if due {
        push_nl(out);
    }
    assert(outs_view(out@) =~= before + gap(due));
}

fn push_chars(out: &mut Vec<RenderOut>, v: &[char], st: Option<Style>)
    ensures
        outs_view(final(out)@) == outs_view(old(out)@).push(OutView::Piece(v@, st)),
{
    push_piece(out, from_chars(v), st);
}

fn push_lines(out: &mut Vec<RenderOut>, indent: &str, lead: &[char], ls: &Vec<String>, st: Option<Style>)
    ensures
        outs_view(final(out)@) == outs_view(old(out)@) + line_outs(indent@, lead@, ls@.map_values(|l: String| l@), st),
{
    let ghost base = outs_view(out@);
    let ghost lv = ls@.map_values(|l: String| l@);
    let mut i: usize = 0;
    assert(lv.take(0) =~= Seq::<Seq<char>>::empty());
    assert(base + line_outs(indent@, lead@, lv.take(0), st) =~= base);
    while i < ls.len()
        invariant
            i <= ls@.len(),
            lv == ls@.map_values(|l: String| l@),
            outs_view(out@) == base + line_outs(indent@, lead@, lv.take(i as int), st),
        decreases ls.len() - i,
    {
        let ghost prev = outs_view(out@);
        push_piece(out, indent.to_owned(), None);
        let mut v: Vec<char> = Vec::new();
        extend_all(&mut v, lead);
        extend_all(&mut v, &to_chars(ls[i].as_str()));
        push_chars(out, &v, st);
        push_nl(out);
        proof {
            let t = lv.take(i + 1);
            assert(t.drop_last() =~= lv.take(i as int));
            assert(t.last() == ls@[i as int]@);
            assert(outs_view(out@) =~= base + line_outs(indent@, lead@, t, st));
        }
        i = i + 1;
    }
    assert(lv.take(i as int) =~= lv);
}

fn push_code_lines(out: &mut Vec<RenderOut>, indent: &str, v: char, border: Style, ls: &Vec<String>, inner: usize)
    ensures
        outs_view(final(out)@) == outs_view(old(out)@) + code_line_outs(indent@, v, border, ls@.map_values(|l: String| l@), inner as int),
{
    let ghost base = outs_view(out@);
    let ghost lv = ls@.map_values(|l: String| l@);
    let mut i: usize = 0;
    assert(lv.take(0) =~= Seq::<Seq<char>>::empty());
    assert(base + code_line_outs(indent@, v, border, lv.take(0), inner as int) =~= base);
    let mut bar: Vec<char> = Vec::new();
    bar.push(v);
    while i < ls.len()
        invariant
            i <= ls@.len(),
            lv == ls@.map_values(|l: String| l@),
            bar@ == seq![v],
            outs_view(out@) == base + code_line_outs(indent@, v, border, lv.take(i as int), inner as int),
        decreases ls.len() - i,
    {
        push_piece(out, indent.to_owned(), None);
        push_chars(out, &bar, Some(border));
        push_piece(out, fit_code_line(ls[i].as_str(), inner), None);
        push_chars(out, &bar, Some(border));
        push_nl(out);
        proof {
            let t = lv.take(i + 1);
            assert(t.drop_last() =~= lv.take(i as int));
            assert(t.last() == ls@[i as int]@);
            assert(outs_view(out@) =~= base + code_line_outs(indent@, v, border, t, inner as int));
        }
        i = i + 1;
    }
    assert(lv.take(i as int) =~= lv);
}

fn push_math_lines(out: &mut Vec<RenderOut>, indent: &str, v: char, border: Style, ms: Style, ls: &Vec<String>, inner: usize)
    ensures
        outs_view(final(out)@) == outs_view(old(out)@) + math_line_outs(indent@, v, border, ms, ls@.map_values(|l: String| l@), inner as int),
{
    let ghost base = outs_view(out@);
    let ghost lv = ls@.map_values(|l: String| l@);
    let mut i: usize = 0;
    assert(lv.take(0) =~= Seq::<Seq<char>>::empty());
    assert(base + math_line_outs(indent@, v, border, ms, lv.take(0), inner as int) =~= base);
    let mut bar: Vec<char> = Vec::new();
    bar.push(v);
    while i < ls.len()
        invariant
            i <= ls@.len(),
            lv == ls@.map_values(|l: String| l@),
            bar@ == seq![v],
            outs_view(out@) == base + math_line_outs(indent@, v, border, ms, lv.take(i as int), inner as int),
        decreases ls.len() - i,
    {
        push_piece(out, indent.to_owned(), None);
        push_chars(out, &bar, Some(border));
        push_piece(out, ls[i].clone(), Some(ms));
        let dw = display_width(ls[i].as_str());
        let pad = if inner >= dw { inner - dw } else { 0 };
        push_chars(out, &repeat_vec(' ', pad), None);
        push_chars(out, &bar, Some(border));
        push_nl(out);
        proof {
            let t = lv.take(i + 1);
            assert(t.drop_last() =~= lv.take(i as int));
            assert(t.last() == ls@[i as int]@);
            assert(outs_view(out@) =~= base + math_line_outs(indent@, v, border, ms, t, inner as int));
        }
        i = i + 1;
    }
    assert(lv.take(i as int) =~= lv);
}

fn push_para_lines(out: &mut Vec<RenderOut>, indent: &str, ls: &Vec<Vec<(char, Style)>>)
    ensures
        outs_view(final(out)@) == outs_view(old(out)@) + para_outs(indent@, ls@.map_values(|l: Vec<(char, Style)>| l@)),
{
    let ghost base = outs_view(out@);
    let ghost lv = ls@.map_values(|l: Vec<(char, Style)>| l@);
    let mut i: usize = 0;
    assert(lv.take(0) =~= Seq::<Seq<(char, Style)>>::empty());
    assert(base + para_outs(indent@, lv.take(0)) =~= base);
    while i < ls.len()
        invariant
            i <= ls@.len(),
            lv == ls@.map_values(|l: Vec<(char, Style)>| l@),
            outs_view(out@) == base + para_outs(indent@, lv.take(i as int)),
        decreases ls.len() - i,
    {
        let ghost prev = outs_view(out@);
        if i > 0 {
            push_nl(out);
            push_piece(out, indent.to_owned(), None);
        }
        let ghost mid = outs_view(out@);
        let line = &ls[i];
        let mut j: usize = 0;
        assert(line@.take(0) =~= Seq::<(char, Style)>::empty());
        assert(mid + char_outs(line@.take(0)) =~= mid);
        while j < line.len()
            invariant
                j <= line@.len(),
                outs_view(out@) == mid + char_outs(line@.take(j as int)),
            decreases line.len() - j,
        {
            let (ch, st) = line[j];
            let mut v: Vec<char> = Vec::new();
            v.push(ch);
            push_chars(out, &v, Some(st));
            proof {
                assert(line@.take(j + 1) =~= line@.take(j as int).push((ch, st)));
                assert(char_outs(line@.take(j + 1)) =~= char_outs(line@.take(j as int)).push(OutView::Piece(seq![ch], Some(st))));
                assert(outs_view(out@) =~= mid + char_outs(line@.take(j + 1)));
            }
            j = j + 1;
        }
        proof {
            assert(line@.take(j as int) =~= line@);
            let t = lv.take(i + 1);
            assert(t.drop_last() =~= lv.take(i as int));
            assert(t.last() == line@);
            assert(outs_view(out@) =~= base + para_outs(indent@, t));
        }
        i = i + 1;
    }
    assert(lv.take(i as int) =~= lv);
}

// ---------------------------------------------------------------------------
// The state machine
// ---------------------------------------------------------------------------

impl RenderState {
    /// The state before the document's first node.
    pub fn new() -> (r: RenderState)
        ensures
            r@ == initial_view(),
    {
        let r = RenderState {
            styles: Vec::new(),
            prefix: String::new(),
            indent_level: 0,
            lists: Vec::new(),
            quote_depth: 0,
            heading: None,
            heading_text: String::new(),
            table: None,
            in_cell: false,
            needs_newline: false,
            tight: false,
            para: false,
            segments: Vec::new(),
            link_url: None,
            link_text: String::new(),
            after_marker: false,
            strike_fallback: false,
        };
        assert(r@ =~= initial_view());
        r
    }

    fn avail_w(&self, c: &RenderConfig) -> (w: usize)
        ensures
            w == avail(self@, *c),
            w <= u16::MAX,
    {
        available_width(c.width, self.prefix.as_str())
    }

    fn rebuild(&mut self, c: &RenderConfig)
        ensures
            final(self)@ == rebuilt(old(self)@, *c),
    {
        let l = if self.indent_level <= usize::MAX / 2 { self.indent_level } else { usize::MAX / 2 };
        self.prefix = indent_prefix(self.quote_depth, l, c.chars.bq_bar);
        assert(self@ =~= rebuilt(old(self)@, *c));
    }

    fn emit(&mut self, text: String, st: Style, out: &mut Vec<RenderOut>)
        ensures
            final(self)@ == emit(old(self)@, text@, st).0,
            outs_view(final(out)@) == outs_view(old(out)@) + emit(old(self)@, text@, st).1,
    {
        let ghost before = outs_view(out@);
        if self.para {
            let ghost segs = self.segments@;
            self.segments.push(StyledSegment { text, style: st });
            assert(segs_view(self.segments@) =~= segs_view(segs).push((text@, st)));
            assert(self@ =~= emit(old(self)@, text@, st).0);
            assert(outs_view(out@) =~= before + emit(old(self)@, text@, st).1);
        } else {
            push_piece(out, text, Some(st));
            assert(outs_view(out@) =~= before + emit(old(self)@, text@, st).1);
        }
    }

    fn push_segment(&mut self, text: String, st: Style)
        ensures
            final(self)@ == (RenderView { segments: old(self)@.segments.push((text@, st)), ..old(self)@ }),
    {
        let ghost segs = self.segments@;
        self.segments.push(StyledSegment { text, style: st });
        assert(segs_view(self.segments@) =~= segs_view(segs).push((text@, st)));
        assert(self@ =~= RenderView { segments: old(self)@.segments.push((text@, st)), ..old(self)@ });
    }

    fn cell_text(&mut self, text: &str)
        ensures
            final(self)@ == cell_push(old(self)@, text@),
    {
        let mut tmp: Option<TableState> = None;
        std::mem::swap(&mut tmp, &mut self.table);
        match tmp {
            Some(mut t) => {
                let ghost t0 = t;
                t.push_text(text);
                assert(table_view(t) =~= TableView { cell: table_view(t0).cell + text@, ..table_view(t0) });
                self.table = Some(t);
            },
            None => {},
        }
        assert(self@ =~= cell_push(old(self)@, text@));
    }

    fn pop_style(&mut self)
        ensures
            final(self)@ == (RenderView { styles: popped(old(self)@.styles), ..old(self)@ }),
    {
        if self.styles.len() > 0 {
            self.styles.pop();
        }
        assert(self@ =~= RenderView { styles: popped(old(self)@.styles), ..old(self)@ });
    }

    fn push_style(&mut self, st: Style)
        ensures
            final(self)@ == (RenderView { styles: old(self)@.styles.push(st), ..old(self)@ }),
    {
        self.styles.push(st);
        assert(self@ =~= RenderView { styles: old(self)@.styles.push(st), ..old(self)@ });
    }

    fn rule(&self, c: &RenderConfig, ch: char, st: Style, out: &mut Vec<RenderOut>)
        ensures
            outs_view(final(out)@) == outs_view(old(out)@) + rule_outs(self@, *c, ch, st),
    {
        let ghost before = outs_view(out@);
        push_piece(out, self.prefix.clone(), None);
        let w = self.avail_w(c);
        push_chars(out, &repeat_vec(ch, w), Some(st));
        push_nl(out);
        assert(outs_view(out@) =~= before + rule_outs(self@, *c, ch, st));
    }
}

impl RenderState {
    fn heading_start(&mut self, c: &RenderConfig, level: u8, out: &mut Vec<RenderOut>)
        ensures
            final(self)@ == step_heading_start(old(self)@, *c, level).0,
            outs_view(final(out)@) == outs_view(old(out)@) + step_heading_start(old(self)@, *c, level).1,
    {
        let ghost before = outs_view(out@);
        push_gap(out, self.needs_newline);
        let ghost mid = outs_view(out@);
        if level == 1 && !c.plain {
            self.rule(c, c.chars.h1_rule, c.theme.heading_rule, out);
        }
        assert(outs_view(out@) =~= before + step_heading_start(old(self)@, *c, level).1);
        self.heading = Some(level);
        self.heading_text = String::new();
        assert(self@ =~= step_heading_start(old(self)@, *c, level).0);
    }

    fn heading_end(&mut self, c: &RenderConfig, level: u8, out: &mut Vec<RenderOut>)
        ensures
            final(self)@ == step_heading_end(old(self)@, *c, level).0,
            outs_view(final(out)@) == outs_view(old(out)@) + step_heading_end(old(self)@, *c, level).1,
    {
        let ghost before = outs_view(out@);
        let w = self.avail_w(c);
        let t = &c.theme;
        let st = if level == 1 {
            t.h1
        } else if level == 2 {
            t.h2
        } else if level == 3 {
            t.h3
        } else if level == 4 {
            t.h4
        } else if level == 5 {
            t.h5
        } else {
            t.h6
        };
        let ls = heading_lines(self.heading_text.as_str(), level, c.plain, w);
        assert(ls@.map_values(|l: String| l@) =~= spec_heading_lines(self.heading_text@, level, c.plain, w));
        let empty: Vec<char> = Vec::new();
        assert(empty@ =~= Seq::<char>::empty());
        push_lines(out, self.prefix.as_str(), &empty, &ls, Some(st));
        if !c.plain && (level == 1 || level == 2) {
            let ch = if level == 1 { c.chars.h1_rule } else { c.chars.h2_rule };
            self.rule(c, ch, c.theme.heading_rule, out);
        }
        assert(outs_view(out@) =~= before + step_heading_end(old(self)@, *c, level).1);
        self.heading = None;
        self.heading_text = String::new();
        self.needs_newline = true;
        assert(self@ =~= step_heading_end(old(self)@, *c, level).0);
    }

    fn paragraph_start(&mut self, out: &mut Vec<RenderOut>)
        ensures
            final(self)@ == step_paragraph_start(old(self)@).0,
            outs_view(final(out)@) == outs_view(old(out)@) + step_paragraph_start(old(self)@).1,
    {
        let ghost before = outs_view(out@);
        if self.in_cell {
            assert(outs_view(out@) =~= before + step_paragraph_start(old(self)@).1);
            return;
        }
        if !self.after_marker {
            push_gap(out, self.needs_newline && !self.tight);
            push_piece(out, self.prefix.clone(), None);
        }
        assert(outs_view(out@) =~= before + step_paragraph_start(old(self)@).1);
        self.after_marker = false;
        self.para = true;
        self.segments = Vec::new();
        assert(self@ =~= step_paragraph_start(old(self)@).0);
    }

    fn paragraph_end(&mut self, c: &RenderConfig, out: &mut Vec<RenderOut>)
        ensures
            final(self)@ == step_paragraph_end(old(self)@, *c).0,
            outs_view(final(out)@) == outs_view(old(out)@) + step_paragraph_end(old(self)@, *c).1,
    {
        let ghost before = outs_view(out@);
        if self.in_cell {
            assert(outs_view(out@) =~= before + step_paragraph_end(old(self)@, *c).1);
            return;
        }
        if self.para {
            if self.segments.len() > 0 {
                let w = self.avail_w(c);
                let ls = paragraph_lines(&self.segments, w);
                assert(ls@.map_values(|l: Vec<(char, Style)>| l@) =~= spec_paragraph_lines(segs_view(self.segments@), w));
                push_para_lines(out, self.prefix.as_str(), &ls);
            }
            self.segments = Vec::new();
            self.para = false;
        }
        push_nl(out);
        assert(outs_view(out@) =~= before + step_paragraph_end(old(self)@, *c).1);
        self.needs_newline = true;
        assert(self@ =~= step_paragraph_end(old(self)@, *c).0);
    }

    fn text(&mut self, t: &String, out: &mut Vec<RenderOut>)
        ensures
            final(self)@ == step_text(old(self)@, t@).0,
            outs_view(final(out)@) == outs_view(old(out)@) + step_text(old(self)@, t@).1,
    {
        let ghost before = outs_view(out@);
        if self.link_url.is_some() {
            let mut v = to_chars(self.link_text.as_str());
            extend_all(&mut v, &to_chars(t.as_str()));
            self.link_text = from_chars(&v);
        }
        let ghost s1 = self@;
        assert(s1 =~= (if old(self)@.link_url is Some { RenderView { link_text: old(self)@.link_text + t@, ..old(self)@ } } else { old(self)@ }));
        if self.heading.is_some() {
            let mut v = to_chars(self.heading_text.as_str());
            extend_all(&mut v, &to_chars(t.as_str()));
            self.heading_text = from_chars(&v);
            assert(self@ =~= step_text(old(self)@, t@).0);
            assert(outs_view(out@) =~= before + step_text(old(self)@, t@).1);
        } else if self.in_cell {
            self.cell_text(t.as_str());
            assert(outs_view(out@) =~= before + step_text(old(self)@, t@).1);
        } else {
            let st = current_style(&self.styles);
            self.emit(t.clone(), st, out);
        }
    }

    fn line_break(&mut self, hard: bool, out: &mut Vec<RenderOut>)
        ensures
            final(self)@ == step_break(old(self)@, hard).0,
            outs_view(final(out)@) == outs_view(old(out)@) + step_break(old(self)@, hard).1,
    {
        let ghost before = outs_view(out@);
        if self.heading.is_some() {
            let mut v = to_chars(self.heading_text.as_str());
            v.push(' ');
            self.heading_text = from_chars(&v);
            assert(self@ =~= step_break(old(self)@, hard).0);
        } else if self.in_cell {
            self.cell_text(" ");
            proof { reveal_strlit(" "); }
        } else if self.para {
            let st = current_style(&self.styles);
            let mut v: Vec<char> = Vec::new();
            v.push(if hard { '\n' } else { ' ' });
            self.push_segment(from_chars(&v), st);
            assert(v@ =~= (if hard { seq!['\n'] } else { seq![' '] }));
        } else if hard {
            push_nl(out);
            push_piece(out, self.prefix.clone(), None);
        } else {
            let mut v: Vec<char> = Vec::new();
            v.push(' ');
            push_chars(out, &v, None);
        }
        assert(outs_view(out@) =~= before + step_break(old(self)@, hard).1);
    }

    fn code(&mut self, c: &RenderConfig, lit: &String, out: &mut Vec<RenderOut>)
        ensures
            final(self)@ == step_code(old(self)@, *c, lit@).0,
            outs_view(final(out)@) == outs_view(old(out)@) + step_code(old(self)@, *c, lit@).1,
    {
        let ghost before = outs_view(out@);
        if self.heading.is_some() {
            let mut v = to_chars(self.heading_text.as_str());
            extend_all(&mut v, &to_chars(lit.as_str()));
            self.heading_text = from_chars(&v);
            assert(self@ =~= step_code(old(self)@, *c, lit@).0);
            assert(outs_view(out@) =~= before + step_code(old(self)@, *c, lit@).1);
        } else if self.in_cell {
            self.cell_text(lit.as_str());
            assert(outs_view(out@) =~= before + step_code(old(self)@, *c, lit@).1);
        } else {
            let st = current_style(&self.styles).merge(&c.theme.inline_code);
            let mut v: Vec<char> = Vec::new();
            v.push(' ');
            extend_all(&mut v, &to_chars(lit.as_str()));
            v.push(' ');
            assert(v@ =~= seq![' '] + lit@ + seq![' ']);
            self.emit(from_chars(&v), st, out);
        }
    }
}

impl RenderState {
    fn strike_start(&mut self, c: &RenderConfig, out: &mut Vec<RenderOut>)
        ensures
            final(self)@ == step_strike_start(old(self)@, *c).0,
            outs_view(final(out)@) == outs_view(old(out)@) + step_strike_start(old(self)@, *c).1,
    {
        let fb = c.level == ColorLevel::NoColor || c.level == ColorLevel::Basic;
        if fb && self.para {
            let st = current_style(&self.styles);
            let mut v: Vec<char> = Vec::new();
            v.push('~');
            v.push('~');
            assert(v@ =~= seq!['~', '~']);
            self.push_segment(from_chars(&v), st);
        }
        self.push_style(c.theme.strikethrough);
        self.strike_fallback = fb;
        assert(self@ =~= step_strike_start(old(self)@, *c).0);
        assert(outs_view(out@) =~= outs_view(old(out)@) + step_strike_start(old(self)@, *c).1);
    }

    fn strike_end(&mut self, out: &mut Vec<RenderOut>)
        ensures
            final(self)@ == step_strike_end(old(self)@).0,
            outs_view(final(out)@) == outs_view(old(out)@) + step_strike_end(old(self)@).1,
    {
        self.pop_style();
        if self.strike_fallback {
            if self.para {
                let st = current_style(&self.styles);
                let mut v: Vec<char> = Vec::new();
                v.push('~');
                v.push('~');
                assert(v@ =~= seq!['~', '~']);
                self.push_segment(from_chars(&v), st);
            }
            self.strike_fallback = false;
        }
        assert(self@ =~= step_strike_end(old(self)@).0);
        assert(outs_view(out@) =~= outs_view(old(out)@) + step_strike_end(old(self)@).1);
    }

    fn link_start(&mut self, c: &RenderConfig, url: &String, out: &mut Vec<RenderOut>)
        ensures
            final(self)@ == step_link_start(old(self)@, *c, url@).0,
            outs_view(final(out)@) == outs_view(old(out)@) + step_link_start(old(self)@, *c, url@).1,
    {
        if c.osc8 && self.para {
            let mut v: Vec<char> = Vec::new();
            v.push('\u{1b}');
            v.push(']');
            v.push('8');
            v.push(';');
            v.push(';');
            extend_all(&mut v, &to_chars(url.as_str()));
            v.push('\u{7}');
            assert(v@ =~= osc8_open(url@));
            self.push_segment(from_chars(&v), Style::plain());
        }
        self.push_style(c.theme.link_text);
        self.link_url = Some(url.clone());
        self.link_text = String::new();
        assert(self@ =~= step_link_start(old(self)@, *c, url@).0);
        assert(outs_view(out@) =~= outs_view(old(out)@) + step_link_start(old(self)@, *c, url@).1);
    }

    fn link_end(&mut self, c: &RenderConfig, url: &String, out: &mut Vec<RenderOut>)
        ensures
            final(self)@ == step_link_end(old(self)@, *c, url@).0,
            outs_view(final(out)@) == outs_view(old(out)@) + step_link_end(old(self)@, *c, url@).1,
    {
        let ghost before = outs_view(out@);
        if c.osc8 && self.para {
            let mut v: Vec<char> = Vec::new();
            v.push('\u{1b}');
            v.push(']');
            v.push('8');
            v.push(';');
            v.push(';');
            v.push('\u{7}');
            assert(v@ =~= osc8_close());
            self.push_segment(from_chars(&v), Style::plain());
        }
        self.pop_style();
        let label = self.link_text.clone();
        self.link_text = String::new();
        self.link_url = None;
        let ghost s2 = self@;
        let ghost segs = if c.osc8 && old(self)@.para { old(self)@.segments.push((osc8_close(), plain_style())) } else { old(self)@.segments };
        assert(s2 =~= RenderView { styles: popped(old(self)@.styles), segments: segs, link_text: seq![], link_url: None, ..old(self)@ });
        if is_autolink(label.as_str(), url.as_str()) {
            assert(outs_view(out@) =~= before + step_link_end(old(self)@, *c, url@).1);
            return;
        }
        let w = self.avail_w(c);
        let b = crate::render::url_budget(w);
        let shown = truncate_url(url.as_str(), b);
        let mut v: Vec<char> = Vec::new();
        v.push(' ');
        v.push('(');
        extend_all(&mut v, &to_chars(shown.as_str()));
        v.push(')');
        let f = from_chars(&v);
        assert(f@ =~= seq![' ', '('] + spec_truncate(url@, budget(avail(s2, *c))) + seq![')']);
        if self.in_cell {
            self.cell_text(f.as_str());
            assert(outs_view(out@) =~= before + step_link_end(old(self)@, *c, url@).1);
        } else {
            self.emit(f, c.theme.link_url, out);
        }
    }

    fn image_text(&mut self, c: &RenderConfig, t: &str, out: &mut Vec<RenderOut>)
        ensures
            final(self)@ == step_image_text(old(self)@, *c, t@).0,
            outs_view(final(out)@) == outs_view(old(out)@) + step_image_text(old(self)@, *c, t@).1,
    {
        let ghost before = outs_view(out@);
        if self.in_cell {
            self.cell_text(t);
            assert(outs_view(out@) =~= before + step_image_text(old(self)@, *c, t@).1);
        } else {
            self.emit(t.to_owned(), c.theme.image_text, out);
        }
    }

    fn rule_break(&mut self, c: &RenderConfig, out: &mut Vec<RenderOut>)
        ensures
            final(self)@ == step_rule(old(self)@, *c).0,
            outs_view(final(out)@) == outs_view(old(out)@) + step_rule(old(self)@, *c).1,
    {
        let ghost before = outs_view(out@);
        push_gap(out, self.needs_newline);
        if c.plain {
            push_piece(out, self.prefix.clone(), None);
            let mut v: Vec<char> = Vec::new();
            v.push('-');
            v.push('-');
            v.push('-');
            push_chars(out, &v, None);
            assert(v@ =~= seq!['-', '-', '-']);
            push_nl(out);
        } else {
            self.rule(c, c.chars.hr, c.theme.hr, out);
        }
        assert(outs_view(out@) =~= before + step_rule(old(self)@, *c).1);
        self.needs_newline = true;
        assert(self@ =~= step_rule(old(self)@, *c).0);
    }
}

impl RenderState {
    fn list_end(&mut self, out: &mut Vec<RenderOut>)
        ensures
            final(self)@ == step_list_end(old(self)@).0,
            outs_view(final(out)@) == outs_view(old(out)@) + step_list_end(old(self)@).1,
    {
        let ghost before = outs_view(out@);
        if self.lists.len() > 0 {
            self.lists.pop();
        }
        let n = self.lists.len();
        self.tight = if n > 0 { self.lists[n - 1].tight } else { false };
        if n == 0 && !self.needs_newline {
            push_nl(out);
            self.needs_newline = true;
        }
        assert(self@ =~= step_list_end(old(self)@).0);
        assert(outs_view(out@) =~= before + step_list_end(old(self)@).1);
    }

    fn item_start(&mut self, c: &RenderConfig, out: &mut Vec<RenderOut>)
        ensures
            final(self)@ == step_item_start(old(self)@, *c).0,
            outs_view(final(out)@) == outs_view(old(out)@) + step_item_start(old(self)@, *c).1,
    {
        let ghost before = outs_view(out@);
        push_gap(out, self.needs_newline && !self.tight);
        let n = self.lists.len();
        let depth: usize = if n > 0 { n - 1 } else { 0 };
        if n > 0 {
            let info = self.lists[n - 1];
            let l = if depth <= usize::MAX / 2 { depth } else { usize::MAX / 2 };
            push_piece(out, indent_prefix(self.quote_depth, l, c.chars.bq_bar), None);
            if info.ordered {
                push_piece(out, ordered_marker(info.current), Some(c.theme.list_bullet));
            } else {
                push_piece(out, bullet_for_depth(&c.chars, depth).to_owned(), Some(c.theme.list_bullet));
                let mut v: Vec<char> = Vec::new();
                v.push(' ');
                push_chars(out, &v, None);
            }
            let next = ListInfo {
                current: if info.ordered && info.current < usize::MAX { info.current + 1 } else { info.current },
                ..info
            };
            self.lists.set(n - 1, next);
        }
        assert(outs_view(out@) =~= before + step_item_start(old(self)@, *c).1);
        self.indent_level = depth + 1;
        self.after_marker = true;
        self.rebuild(c);
        assert(self@ =~= step_item_start(old(self)@, *c).0);
    }

    fn item_end(&mut self, c: &RenderConfig)
        ensures
            final(self)@ == rebuilt((RenderView { indent_level: monus(old(self)@.lists.len() as int, 1) as usize, needs_newline: false, ..old(self)@ }), *c),
    {
        let n = self.lists.len();
        self.indent_level = if n > 0 { n - 1 } else { 0 };
        self.needs_newline = false;
        self.rebuild(c);
    }

    fn code_block(&mut self, c: &RenderConfig, info: &String, lit: &String, out: &mut Vec<RenderOut>)
        ensures
            final(self)@ == step_code_block(old(self)@, *c, info@, lit@).0,
            outs_view(final(out)@) == outs_view(old(out)@) + step_code_block(old(self)@, *c, info@, lit@).1,
    {
        let ghost before = outs_view(out@);
        push_gap(out, self.needs_newline);
        let lang_v = first_word_of(info.as_str());
        let lang = from_chars(&lang_v);
        let w = self.avail_w(c);
        if c.plain {
            let ls = crate::highlight::split_lines(lit.as_str());
            assert(ls@.map_values(|l: String| l@) =~= lines(lit@));
            let mut lead: Vec<char> = Vec::new();
            lead.push(' ');
            lead.push(' ');
            lead.push(' ');
            lead.push(' ');
            assert(lead@ =~= seq![' ', ' ', ' ', ' ']);
            push_lines(out, self.prefix.as_str(), &lead, &ls, None);
        } else {
            push_piece(out, self.prefix.clone(), None);
            push_piece(out, code_box_top(&c.chars, lang.as_str(), w), Some(c.theme.code_border));
            push_nl(out);
            let hl = highlight_code(lit.as_str(), lang.as_str(), c.syntax_theme.as_str(), c.level);
            assert(hl@.map_values(|l: String| l@) =~= spec_highlight_code(lit@, lang@, c.syntax_theme@, c.level));
            let inner = if w >= 2 { w - 2 } else { 0 };
            push_code_lines(out, self.prefix.as_str(), c.chars.code_v, c.theme.code_border, &hl, inner);
            push_piece(out, self.prefix.clone(), None);
            push_piece(out, box_bottom(&c.chars, w), Some(c.theme.code_border));
            push_nl(out);
        }
        assert(outs_view(out@) =~= before + step_code_block(old(self)@, *c, info@, lit@).1);
        self.needs_newline = true;
        assert(self@ =~= step_code_block(old(self)@, *c, info@, lit@).0);
    }

    fn table_end(&mut self, c: &RenderConfig, out: &mut Vec<RenderOut>)
        ensures
            final(self)@ == step_table_end(old(self)@, *c).0,
            outs_view(final(out)@) == outs_view(old(out)@) + step_table_end(old(self)@, *c).1,
    {
        let ghost before = outs_view(out@);
        let mut tmp: Option<TableState> = None;
        std::mem::swap(&mut tmp, &mut self.table);
        match tmp {
            None => {},
            Some(t) => {
                if t.rows.len() > 0 {
                    push_gap(out, self.needs_newline);
                    if c.plain {
                        let ls = plain_table(&t.rows, t.header_rows);
                        assert(ls@.map_values(|l: String| l@) =~= spec_plain_table(rows_view(t.rows@), t.header_rows as nat));
                        let empty: Vec<char> = Vec::new();
                        assert(empty@ =~= Seq::<char>::empty());
                        push_lines(out, self.prefix.as_str(), &empty, &ls, None);
                        self.needs_newline = true;
                    } else {
                        let ws = column_widths(&t.rows);
                        if ws.len() > 0 {
                            let ghost tv = table_view(t);
                            let ghost prev = outs_view(out@);
                            out.push(RenderOut::Table(t, self.prefix.clone()));
                            assert(outs_view(out@) =~= prev.push(OutView::Table(tv, self.prefix@)));
                            self.needs_newline = true;
                        }
                    }
                }
            },
        }
        assert(self@ =~= step_table_end(old(self)@, *c).0);
        assert(outs_view(out@) =~= before + step_table_end(old(self)@, *c).1);
    }

    fn table_event(&mut self, ev: &NodeEvent)
        requires
            ev is RowStart || ev is RowEnd || ev is CellStart || ev is CellEnd,
        ensures
            final(self)@ == step_table(old(self)@, ev@),
    {
        let mut tmp: Option<TableState> = None;
        std::mem::swap(&mut tmp, &mut self.table);
        match tmp {
            Some(mut t) => {
                let ghost t0 = table_view(t);
                match ev {
                    NodeEvent::RowStart(h) => t.start_row(*h),
                    NodeEvent::RowEnd => t.end_row(),
                    NodeEvent::CellStart => t.start_cell(),
                    _ => t.end_cell(),
                }
                proof {
                    let want = match *ev {
                        NodeEvent::RowStart(h) => TableView { rows: t0.rows.push(seq![]), in_header: h, ..t0 },
                        NodeEvent::RowEnd => TableView {
                            header_rows: if t0.in_header { t0.rows.len() as usize } else { t0.header_rows },
                            ..t0
                        },
                        NodeEvent::CellStart => TableView { cell: seq![], ..t0 },
                        _ => TableView {
                            cell: seq![],
                            rows: if t0.rows.len() > 0 { t0.rows.update(t0.rows.len() - 1, t0.rows.last().push(t0.cell)) } else { t0.rows },
                            ..t0
                        },
                    };
                    assert(table_view(t) =~= want);
                }
                self.table = Some(t);
            },
            None => {},
        }
        assert(self@ =~= step_table(old(self)@, ev@));
    }
}

/// The first whitespace-separated word of `s`.
fn first_word_of(s: &str) -> (r: Vec<char>)
    ensures
        r@ == first_word(s@),
{
    let cs = to_chars(s);
    let mut i: usize = 0;
    assert(cs@.skip(0) =~= cs@);
    while i < cs.len() && char_is_ws(cs[i])
        invariant
            i <= cs@.len(),
            first_word(cs@.skip(i as int)) == first_word(cs@),
        decreases cs.len() - i,
    {
        assert(cs@.skip(i as int).drop_first() =~= cs@.skip(i + 1));
        i = i + 1;
    }
    let start = i;
    let mut out: Vec<char> = Vec::new();
    proof {
        if i < cs.len() {
            assert(first_word(cs@.skip(i as int)) == word_prefix(cs@.skip(i as int)));
        } else {
            assert(cs@.skip(i as int).len() == 0);
        }
    }
    while i < cs.len() && !char_is_ws(cs[i])
        invariant
            start <= i <= cs@.len(),
            out@ + word_prefix(cs@.skip(i as int)) == first_word(cs@),
            start < cs@.len() ==> first_word(cs@) == word_prefix(cs@.skip(start as int)),
            start == cs@.len() ==> first_word(cs@) == Seq::<char>::empty(),
        decreases cs.len() - i,
    {
        let ghost rest = cs@.skip(i as int);
        assert(rest.drop_first() =~= cs@.skip(i + 1));
        assert(rest[0] == cs[i as int]);
        out.push(cs[i]);
        assert(out@ + word_prefix(cs@.skip(i + 1)) =~= first_word(cs@));
        i = i + 1;
    }
    proof {
        if i < cs.len() {
            assert(cs@.skip(i as int)[0] == cs[i as int]);
        }
        assert(word_prefix(cs@.skip(i as int)) =~= Seq::<char>::empty());
    }
    out
}

impl RenderState {
    fn footnote_start(&mut self, c: &RenderConfig, name: &String, out: &mut Vec<RenderOut>)
        ensures
            final(self)@ == step_footnote_start(old(self)@, *c, name@).0,
            outs_view(final(out)@) == outs_view(old(out)@) + step_footnote_start(old(self)@, *c, name@).1,
    {
        let ghost before = outs_view(out@);
        push_gap(out, self.needs_newline);
        push_piece(out, self.prefix.clone(), None);
        let mut v: Vec<char> = Vec::new();
        v.push('[');
        extend_all(&mut v, &to_chars(name.as_str()));
        v.push(']');
        v.push(':');
        v.push(' ');
        assert(v@ =~= seq!['['] + name@ + seq![']', ':', ' ']);
        push_chars(out, &v, Some(c.theme.footnote_ref));
        assert(outs_view(out@) =~= before + step_footnote_start(old(self)@, *c, name@).1);
        if self.indent_level < usize::MAX {
            self.indent_level = self.indent_level + 1;
        }
        self.rebuild(c);
    }

    fn alert_start(&mut self, c: &RenderConfig, k: AlertKind, out: &mut Vec<RenderOut>)
        ensures
            final(self)@ == step_alert_start(old(self)@, *c, k).0,
            outs_view(final(out)@) == outs_view(old(out)@) + step_alert_start(old(self)@, *c, k).1,
    {
        let ghost before = outs_view(out@);
        push_gap(out, self.needs_newline);
        let t = &c.theme;
        let st = match k {
            AlertKind::Note => t.alert_note,
            AlertKind::Tip => t.alert_tip,
            AlertKind::Important => t.alert_important,
            AlertKind::Warning => t.alert_warning,
            AlertKind::Caution => t.alert_caution,
        };
        push_piece(out, self.prefix.clone(), None);
        let mut v: Vec<char> = Vec::new();
        v.push(c.chars.bq_bar);
        v.push(' ');
        assert(st == alert_style(c.theme, k));
        assert(v@ =~= seq![c.chars.bq_bar, ' ']);
        push_chars(out, &v, Some(st));
        push_piece(out, alert_label(k).to_owned(), Some(st));
        push_nl(out);
        assert(outs_view(out@) =~= before + step_alert_start(old(self)@, *c, k).1);
        if self.quote_depth < usize::MAX {
            self.quote_depth = self.quote_depth + 1;
        }
        self.rebuild(c);
    }

    fn math(&mut self, c: &RenderConfig, lit: &String, display: bool, out: &mut Vec<RenderOut>)
        ensures
            final(self)@ == step_math(old(self)@, *c, lit@, display).0,
            outs_view(final(out)@) == outs_view(old(out)@) + step_math(old(self)@, *c, lit@, display).1,
    {
        let conv = substitute_latex(lit.as_str());
        if !display {
            let base = current_style(&self.styles).merge(&c.theme.inline_code);
            let st = Style { italic: true, ..base };
            let mut v: Vec<char> = Vec::new();
            v.push(' ');
            extend_all(&mut v, &to_chars(conv.as_str()));
            v.push(' ');
            assert(v@ =~= seq![' '] + conv@ + seq![' ']);
            self.emit(from_chars(&v), st, out);
        } else {
            self.display_math(c, &conv, out);
            assert(self@ =~= step_math(old(self)@, *c, lit@, display).0);
        }
    }

    #[verifier::rlimit(40)]
    fn display_math(&mut self, c: &RenderConfig, conv: &String, out: &mut Vec<RenderOut>)
        ensures
            final(self)@ == (RenderView { needs_newline: true, ..old(self)@ }),
            outs_view(final(out)@) == outs_view(old(out)@) + gap(old(self)@.needs_newline) + (if c.plain {
                seq![raw(old(self)@.prefix), raw(seq![' ', ' ', ' ', ' '] + conv@), nl()]
            } else {
                seq![raw(old(self)@.prefix), OutView::Piece(spec_math_box_top(c.chars, avail(old(self)@, *c)), Some(c.theme.code_border)), nl()]
                    + math_line_outs(
                    old(self)@.prefix,
                    c.chars.code_v,
                    c.theme.code_border,
                    Style { italic: true, ..c.theme.inline_code },
                    lines(conv@),
                    monus(avail(old(self)@, *c), 2),
                ) + seq![raw(old(self)@.prefix), OutView::Piece(spec_box_bottom(c.chars, avail(old(self)@, *c)), Some(c.theme.code_border)), nl()]
            }),
    {
        let ghost before = outs_view(out@);
        push_gap(out, self.needs_newline);
        let ghost g = outs_view(out@);
        let w = self.avail_w(c);
        if c.plain {
            push_piece(out, self.prefix.clone(), None);
            let mut v: Vec<char> = Vec::new();
            v.push(' ');
            v.push(' ');
            v.push(' ');
            v.push(' ');
            extend_all(&mut v, &to_chars(conv.as_str()));
            assert(v@ =~= seq![' ', ' ', ' ', ' '] + conv@);
            push_chars(out, &v, None);
            push_nl(out);
            assert(outs_view(out@) =~= g + seq![raw(old(self)@.prefix), raw(seq![' ', ' ', ' ', ' '] + conv@), nl()]);
        } else {
            push_piece(out, self.prefix.clone(), None);
            push_piece(out, math_box_top(&c.chars, w), Some(c.theme.code_border));
            push_nl(out);
            let ghost top = outs_view(out@);
            let ls = crate::highlight::split_lines(conv.as_str());
            assert(ls@.map_values(|l: String| l@) =~= lines(conv@));
            let inner = if w >= 2 { w - 2 } else { 0 };
            let ms = Style { italic: true, ..c.theme.inline_code };
            push_math_lines(out, self.prefix.as_str(), c.chars.code_v, c.theme.code_border, ms, &ls, inner);
            let ghost body = outs_view(out@);
            push_piece(out, self.prefix.clone(), None);
            push_piece(out, box_bottom(&c.chars, w), Some(c.theme.code_border));
            push_nl(out);
        }
        self.needs_newline = true;
        assert(self@ =~= RenderView { needs_newline: true, ..old(self)@ });
    }

    #[verifier::rlimit(60)]
    fn step_part0(&mut self, ev: &NodeEvent, c: &RenderConfig, out: &mut Vec<RenderOut>)
        requires
            ev is HeadingStart || ev is HeadingEnd || ev is ParagraphStart || ev is ParagraphEnd || ev is Text || ev is SoftBreak || ev is LineBreak || ev is Code || ev is StrongStart || ev is EmphStart,
        ensures
            final(self)@ == spec_render_step(old(self)@, ev@, *c).0,
            outs_view(final(out)@) == outs_view(old(out)@) + spec_render_step(old(self)@, ev@, *c).1,
    {
        let ghost before = outs_view(out@);
        match ev {
            NodeEvent::HeadingStart(l) => {
                self.heading_start(c, *l, out);
                assert(outs_view(out@) =~= before + spec_render_step(old(self)@, ev@, *c).1);
                assert(self@ =~= spec_render_step(old(self)@, ev@, *c).0);
            },
            NodeEvent::HeadingEnd(l) => {
                self.heading_end(c, *l, out);
                assert(outs_view(out@) =~= before + spec_render_step(old(self)@, ev@, *c).1);
                assert(self@ =~= spec_render_step(old(self)@, ev@, *c).0);
            },
            NodeEvent::ParagraphStart => {
                self.paragraph_start(out);
                assert(outs_view(out@) =~= before + spec_render_step(old(self)@, ev@, *c).1);
                assert(self@ =~= spec_render_step(old(self)@, ev@, *c).0);
            },
            NodeEvent::ParagraphEnd => {
                self.paragraph_end(c, out);
                assert(outs_view(out@) =~= before + spec_render_step(old(self)@, ev@, *c).1);
                assert(self@ =~= spec_render_step(old(self)@, ev@, *c).0);
            },
            NodeEvent::Text(t) => {
                self.text(t, out);
                assert(outs_view(out@) =~= before + spec_render_step(old(self)@, ev@, *c).1);
                assert(self@ =~= spec_render_step(old(self)@, ev@, *c).0);
            },
            NodeEvent::SoftBreak => {
                self.line_break(false, out);
                assert(outs_view(out@) =~= before + spec_render_step(old(self)@, ev@, *c).1);
                assert(self@ =~= spec_render_step(old(self)@, ev@, *c).0);
            },
            NodeEvent::LineBreak => {
                self.line_break(true, out);
                assert(outs_view(out@) =~= before + spec_render_step(old(self)@, ev@, *c).1);
                assert(self@ =~= spec_render_step(old(self)@, ev@, *c).0);
            },
            NodeEvent::Code(t) => {
                self.code(c, t, out);
                assert(outs_view(out@) =~= before + spec_render_step(old(self)@, ev@, *c).1);
                assert(self@ =~= spec_render_step(old(self)@, ev@, *c).0);
            },
            NodeEvent::StrongStart => {
                self.push_style(c.theme.bold);
                assert(outs_view(out@) =~= before + spec_render_step(old(self)@, ev@, *c).1);
                assert(self@ =~= spec_render_step(old(self)@, ev@, *c).0);
            },
            NodeEvent::EmphStart => {
                self.push_style(c.theme.italic);
                assert(outs_view(out@) =~= before + spec_render_step(old(self)@, ev@, *c).1);
                assert(self@ =~= spec_render_step(old(self)@, ev@, *c).0);
            },
            _ => {},
        }
    }

    #[verifier::rlimit(60)]
    fn step_part1(&mut self, ev: &NodeEvent, c: &RenderConfig, out: &mut Vec<RenderOut>)
        requires
            ev is StrongEnd || ev is EmphEnd || ev is StrikeStart || ev is StrikeEnd || ev is LinkStart,
        ensures
            final(self)@ == spec_render_step(old(self)@, ev@, *c).0,
            outs_view(final(out)@) == outs_view(old(out)@) + spec_render_step(old(self)@, ev@, *c).1,
    {
        let ghost before = outs_view(out@);
        match ev {
            NodeEvent::StrongEnd => {
                self.pop_style();
                assert(outs_view(out@) =~= before + spec_render_step(old(self)@, ev@, *c).1);
                assert(self@ =~= spec_render_step(old(self)@, ev@, *c).0);
            },
            NodeEvent::EmphEnd => {
                self.pop_style();
                assert(outs_view(out@) =~= before + spec_render_step(old(self)@, ev@, *c).1);
                assert(self@ =~= spec_render_step(old(self)@, ev@, *c).0);
            },
            NodeEvent::StrikeStart => {
                self.strike_start(c, out);
                assert(outs_view(out@) =~= before + spec_render_step(old(self)@, ev@, *c).1);
                assert(self@ =~= spec_render_step(old(self)@, ev@, *c).0);
            },
            NodeEvent::StrikeEnd => {
                self.strike_end(out);
                assert(outs_view(out@) =~= before + spec_render_step(old(self)@, ev@, *c).1);
                assert(self@ =~= spec_render_step(old(self)@, ev@, *c).0);
            },
            NodeEvent::LinkStart(u) => {
                self.link_start(c, u, out);
                assert(outs_view(out@) =~= before + spec_render_step(old(self)@, ev@, *c).1);
                assert(self@ =~= spec_render_step(old(self)@, ev@, *c).0);
            },
            _ => {},
        }
    }

    #[verifier::rlimit(60)]
    fn step_part1b(&mut self, ev: &NodeEvent, c: &RenderConfig, out: &mut Vec<RenderOut>)
        requires
            ev is LinkEnd || ev is ImageStart || ev is ImageEnd || ev is Rule || ev is QuoteStart || ev is QuoteEnd,
        ensures
            final(self)@ == spec_render_step(old(self)@, ev@, *c).0,
            outs_view(final(out)@) == outs_view(old(out)@) + spec_render_step(old(self)@, ev@, *c).1,
    {
        let ghost before = outs_view(out@);
        match ev {
            NodeEvent::LinkEnd(u) => {
                self.link_end(c, u, out);
                assert(outs_view(out@) =~= before + spec_render_step(old(self)@, ev@, *c).1);
                assert(self@ =~= spec_render_step(old(self)@, ev@, *c).0);
            },
            NodeEvent::ImageStart => {
                proof {
                    reveal_strlit("[Image: ");
                    assert("[Image: "@ =~= seq!['[', 'I', 'm', 'a', 'g', 'e', ':', ' ']);
                }
                self.image_text(c, "[Image: ", out);
                assert(outs_view(out@) =~= before + spec_render_step(old(self)@, ev@, *c).1);
                assert(self@ =~= spec_render_step(old(self)@, ev@, *c).0);
            },
            NodeEvent::ImageEnd => {
                proof {
                    reveal_strlit("]");
                    assert("]"@ =~= seq![']']);
                }
                self.image_text(c, "]", out);
                assert(outs_view(out@) =~= before + spec_render_step(old(self)@, ev@, *c).1);
                assert(self@ =~= spec_render_step(old(self)@, ev@, *c).0);
            },
            NodeEvent::Rule => {
                self.rule_break(c, out);
                assert(outs_view(out@) =~= before + spec_render_step(old(self)@, ev@, *c).1);
                assert(self@ =~= spec_render_step(old(self)@, ev@, *c).0);
            },
            NodeEvent::QuoteStart => {
                if self.quote_depth < usize::MAX {
                    self.quote_depth = self.quote_depth + 1;
                }
                self.push_style(c.theme.blockquote_text);
                self.rebuild(c);
                assert(outs_view(out@) =~= before + spec_render_step(old(self)@, ev@, *c).1);
                assert(self@ =~= spec_render_step(old(self)@, ev@, *c).0);
            },
            NodeEvent::QuoteEnd => {
                self.quote_depth = if self.quote_depth > 0 { self.quote_depth - 1 } else { 0 };
                self.pop_style();
                self.rebuild(c);
                assert(outs_view(out@) =~= before + spec_render_step(old(self)@, ev@, *c).1);
                assert(self@ =~= spec_render_step(old(self)@, ev@, *c).0);
            },
            _ => {},
        }
    }

    #[verifier::rlimit(60)]
    fn step_part2(&mut self, ev: &NodeEvent, c: &RenderConfig, out: &mut Vec<RenderOut>)
        requires
            ev is ListStart || ev is ListEnd || ev is ItemStart || ev is ItemEnd || ev is TaskItem || ev is CodeBlock || ev is TableStart || ev is TableEnd || ev is RowStart || ev is RowEnd || ev is CellStart,
        ensures
            final(self)@ == spec_render_step(old(self)@, ev@, *c).0,
            outs_view(final(out)@) == outs_view(old(out)@) + spec_render_step(old(self)@, ev@, *c).1,
    {
        let ghost before = outs_view(out@);
        match ev {
            NodeEvent::ListStart(o, st, t) => {
                self.lists.push(ListInfo { ordered: *o, current: *st, tight: *t });
                if *t {
                    self.tight = true;
                }
                assert(self@ =~= spec_render_step(old(self)@, ev@, *c).0);
                assert(outs_view(out@) =~= before + spec_render_step(old(self)@, ev@, *c).1);
                assert(self@ =~= spec_render_step(old(self)@, ev@, *c).0);
            },
            NodeEvent::ListEnd => {
                self.list_end(out);
                assert(outs_view(out@) =~= before + spec_render_step(old(self)@, ev@, *c).1);
                assert(self@ =~= spec_render_step(old(self)@, ev@, *c).0);
            },
            NodeEvent::ItemStart => {
                self.item_start(c, out);
                assert(outs_view(out@) =~= before + spec_render_step(old(self)@, ev@, *c).1);
                assert(self@ =~= spec_render_step(old(self)@, ev@, *c).0);
            },
            NodeEvent::ItemEnd => {
                self.item_end(c);
                assert(outs_view(out@) =~= before + spec_render_step(old(self)@, ev@, *c).1);
                assert(self@ =~= spec_render_step(old(self)@, ev@, *c).0);
            },
            NodeEvent::TaskItem(b) => {
                if *b {
                    push_piece(out, c.chars.task_done.to_owned(), Some(c.theme.task_done));
                } else {
                    push_piece(out, c.chars.task_undone.to_owned(), Some(c.theme.task_undone));
                }
                let mut v: Vec<char> = Vec::new();
                v.push(' ');
                push_chars(out, &v, None);
                assert(outs_view(out@) =~= before + spec_render_step(old(self)@, ev@, *c).1);
            },
            NodeEvent::CodeBlock(i, l) => {
                self.code_block(c, i, l, out);
                assert(outs_view(out@) =~= before + spec_render_step(old(self)@, ev@, *c).1);
                assert(self@ =~= spec_render_step(old(self)@, ev@, *c).0);
            },
            NodeEvent::TableStart(a) => {
                self.table = Some(TableState::new(a.clone()));
                assert(self@ =~= spec_render_step(old(self)@, ev@, *c).0);
                assert(outs_view(out@) =~= before + spec_render_step(old(self)@, ev@, *c).1);
                assert(self@ =~= spec_render_step(old(self)@, ev@, *c).0);
            },
            NodeEvent::TableEnd => {
                self.table_end(c, out);
                assert(outs_view(out@) =~= before + spec_render_step(old(self)@, ev@, *c).1);
                assert(self@ =~= spec_render_step(old(self)@, ev@, *c).0);
            },
            NodeEvent::RowStart(_) => {
                self.table_event(ev);
                assert(outs_view(out@) =~= before + spec_render_step(old(self)@, ev@, *c).1);
                assert(self@ =~= spec_render_step(old(self)@, ev@, *c).0);
            },
            NodeEvent::RowEnd => {
                self.table_event(ev);
                assert(outs_view(out@) =~= before + spec_render_step(old(self)@, ev@, *c).1);
                assert(self@ =~= spec_render_step(old(self)@, ev@, *c).0);
            },
            NodeEvent::CellStart => {
                self.table_event(ev);
                self.in_cell = true;
                assert(self@ =~= spec_render_step(old(self)@, ev@, *c).0);
                assert(outs_view(out@) =~= before + spec_render_step(old(self)@, ev@, *c).1);
                assert(self@ =~= spec_render_step(old(self)@, ev@, *c).0);
            },
            _ => {},
        }
    }

    #[verifier::rlimit(60)]
    fn step_part3(&mut self, ev: &NodeEvent, c: &RenderConfig, out: &mut Vec<RenderOut>)
        requires
            ev is CellEnd || ev is FootnoteRef || ev is FootnoteDefStart || ev is FootnoteDefEnd || ev is AlertStart || ev is AlertEnd || ev is HtmlInline || ev is HtmlBlock || ev is Math || ev is Other,
        ensures
            final(self)@ == spec_render_step(old(self)@, ev@, *c).0,
            outs_view(final(out)@) == outs_view(old(out)@) + spec_render_step(old(self)@, ev@, *c).1,
    {
        let ghost before = outs_view(out@);
        match ev {
            NodeEvent::CellEnd => {
                self.table_event(ev);
                self.in_cell = false;
                assert(self@ =~= spec_render_step(old(self)@, ev@, *c).0);
                assert(outs_view(out@) =~= before + spec_render_step(old(self)@, ev@, *c).1);
                assert(self@ =~= spec_render_step(old(self)@, ev@, *c).0);
            },
            NodeEvent::FootnoteRef(n) => {
                let mut v: Vec<char> = Vec::new();
                v.push('[');
                extend_all(&mut v, &to_chars(n.as_str()));
                v.push(']');
                assert(v@ =~= seq!['['] + n@ + seq![']']);
                self.emit(from_chars(&v), c.theme.footnote_ref, out);
            },
            NodeEvent::FootnoteDefStart(n) => {
                self.footnote_start(c, n, out);
                assert(outs_view(out@) =~= before + spec_render_step(old(self)@, ev@, *c).1);
                assert(self@ =~= spec_render_step(old(self)@, ev@, *c).0);
            },
            NodeEvent::FootnoteDefEnd => {
                self.indent_level = if self.indent_level > 0 { self.indent_level - 1 } else { 0 };
                self.rebuild(c);
                assert(outs_view(out@) =~= before + spec_render_step(old(self)@, ev@, *c).1);
                assert(self@ =~= spec_render_step(old(self)@, ev@, *c).0);
            },
            NodeEvent::AlertStart(k) => {
                self.alert_start(c, *k, out);
                assert(outs_view(out@) =~= before + spec_render_step(old(self)@, ev@, *c).1);
                assert(self@ =~= spec_render_step(old(self)@, ev@, *c).0);
            },
            NodeEvent::AlertEnd => {
                self.quote_depth = if self.quote_depth > 0 { self.quote_depth - 1 } else { 0 };
                self.rebuild(c);
                assert(outs_view(out@) =~= before + spec_render_step(old(self)@, ev@, *c).1);
                assert(self@ =~= spec_render_step(old(self)@, ev@, *c).0);
            },
            NodeEvent::HtmlInline(h) => {
                push_piece(out, strip_tags(h.as_str()), None);
                assert(outs_view(out@) =~= before + spec_render_step(old(self)@, ev@, *c).1);
            },
            NodeEvent::HtmlBlock(h) => {
                push_piece(out, h.clone(), None);
                assert(outs_view(out@) =~= before + spec_render_step(old(self)@, ev@, *c).1);
            },
            NodeEvent::Math(l, d) => {
                self.math(c, l, *d, out);
                assert(outs_view(out@) =~= before + spec_render_step(old(self)@, ev@, *c).1);
                assert(self@ =~= spec_render_step(old(self)@, ev@, *c).0);
            },
            NodeEvent::Other => {
                assert(outs_view(out@) =~= before + spec_render_step(old(self)@, ev@, *c).1);
                assert(self@ =~= spec_render_step(old(self)@, ev@, *c).0);
            },
            _ => {},
        }
    }

    /// Take one node start or end: move to the next state and append what
    /// it writes to `out`.
    pub fn step(&mut self, ev: &NodeEvent, c: &RenderConfig, out: &mut Vec<RenderOut>)
        ensures
            final(self)@ == spec_render_step(old(self)@, ev@, *c).0,
            outs_view(final(out)@) == outs_view(old(out)@) + spec_render_step(old(self)@, ev@, *c).1,
    {
        match ev {
            NodeEvent::HeadingStart(..) | NodeEvent::HeadingEnd(..) | NodeEvent::ParagraphStart | NodeEvent::ParagraphEnd | NodeEvent::Text(..) | NodeEvent::SoftBreak | NodeEvent::LineBreak | NodeEvent::Code(..) | NodeEvent::StrongStart | NodeEvent::EmphStart => self.step_part0(ev, c, out),
            NodeEvent::StrongEnd | NodeEvent::EmphEnd | NodeEvent::StrikeStart | NodeEvent::StrikeEnd | NodeEvent::LinkStart(..) => self.step_part1(ev, c, out),
            NodeEvent::LinkEnd(..) | NodeEvent::ImageStart | NodeEvent::ImageEnd | NodeEvent::Rule | NodeEvent::QuoteStart | NodeEvent::QuoteEnd => self.step_part1b(ev, c, out),
            NodeEvent::ListStart(..) | NodeEvent::ListEnd | NodeEvent::ItemStart | NodeEvent::ItemEnd | NodeEvent::TaskItem(..) | NodeEvent::CodeBlock(..) | NodeEvent::TableStart(..) | NodeEvent::TableEnd | NodeEvent::RowStart(..) | NodeEvent::RowEnd | NodeEvent::CellStart => self.step_part2(ev, c, out),
            _ => self.step_part3(ev, c, out),
        }
    }
}

/// One node start or end taken from a given state: the next state and what
/// it writes.
pub fn render_step(state: RenderState, ev: &NodeEvent, c: &RenderConfig) -> (r: (RenderState, Vec<RenderOut>))
    ensures
        r.0@ == spec_render_step(state@, ev@, *c).0,
        outs_view(r.1@) == spec_render_step(state@, ev@, *c).1,
{
    let ghost s0 = state@;
    let mut st = state;
    let mut out: Vec<RenderOut> = Vec::new();
    assert(outs_view(out@) =~= Seq::<OutView>::empty());
    st.step(ev, c, &mut out);
    assert(Seq::<OutView>::empty() + spec_render_step(s0, ev@, *c).1 =~= spec_render_step(s0, ev@, *c).1);
    (st, out)
}

// ---------------------------------------------------------------------------
// A whole document
// ---------------------------------------------------------------------------

/// The state after a run of node starts and ends, and everything written.
pub open spec fn spec_render_events(s: RenderView, evs: Seq<EventView>, c: RenderConfig) -> (RenderView, Seq<OutView>)
    decreases evs.len(),
{
    if evs.len() == 0 {
        (s, seq![])
    } else {
        let (s1, o1) = spec_render_events(s, evs.drop_last(), c);
        let (s2, o2) = spec_render_step(s1, evs.last(), c);
        (s2, o1 + o2)
    }
}

/// Render a document given as its node starts and ends in document order:
/// everything the terminal shows, from a fresh state.
pub fn render_events(evs: &Vec<NodeEvent>, c: &RenderConfig) -> (r: Vec<RenderOut>)
    ensures
        outs_view(r@) == spec_render_events(initial_view(), events_view(evs@), *c).1,
{
    let mut st = RenderState::new();
    let mut out: Vec<RenderOut> = Vec::new();
    let mut i: usize = 0;
    let ghost ev = events_view(evs@);
    assert(ev.take(0) =~= Seq::<EventView>::empty());
    assert(outs_view(out@) =~= Seq::<OutView>::empty());
    while i < evs.len()
        invariant
            i <= evs@.len(),
            ev == events_view(evs@),
            (st@, outs_view(out@)) == spec_render_events(initial_view(), ev.take(i as int), *c),
        decreases evs.len() - i,
    {
        st.step(&evs[i], c, &mut out);
        proof {
            let t = ev.take(i + 1);
            assert(t.drop_last() =~= ev.take(i as int));
            assert(t.last() == evs@[i as int]@);
        }
        i = i + 1;
    }
    assert(ev.take(i as int) =~= ev);
    out
}

// ---------------------------------------------------------------------------
// From a parsed tree
// ---------------------------------------------------------------------------

/// What entering a node gives the walk.
pub open spec fn start_event(t: MdTree) -> EventView {
    match t.tag {
        NodeTag::Heading => EventView::HeadingStart(t.level),
        NodeTag::Paragraph => EventView::ParagraphStart,
        NodeTag::Text => EventView::Text(t.literal),
        NodeTag::SoftBreak => EventView::SoftBreak,
        NodeTag::LineBreak => EventView::LineBreak,
        NodeTag::Code => EventView::Code(t.literal),
        NodeTag::Strong => EventView::StrongStart,
        NodeTag::Emph => EventView::EmphStart,
        NodeTag::Strikethrough => EventView::StrikeStart,
        NodeTag::Link => EventView::LinkStart(t.url),
        NodeTag::Image => EventView::ImageStart,
        NodeTag::ThematicBreak => EventView::Rule,
        NodeTag::BlockQuote => EventView::QuoteStart,
        NodeTag::List => EventView::ListStart(t.ordered, t.start, t.tight),
        NodeTag::Item => EventView::ItemStart,
        NodeTag::TaskItem => EventView::TaskItem(t.checked),
        NodeTag::CodeBlock => EventView::CodeBlock(t.info, t.literal),
        NodeTag::Table => EventView::TableStart(t.alignments),
        NodeTag::TableRow => EventView::RowStart(t.header),
        NodeTag::TableCell => EventView::CellStart,
        NodeTag::FootnoteReference => EventView::FootnoteRef(t.name),
        NodeTag::FootnoteDefinition => EventView::FootnoteDefStart(t.name),
        NodeTag::Alert => EventView::AlertStart(t.alert),
        NodeTag::HtmlInline => EventView::HtmlInline(t.literal),
        NodeTag::HtmlBlock => EventView::HtmlBlock(t.literal),
        NodeTag::Math => EventView::Math(t.literal, t.display),
        _ => EventView::Other,
    }
}

/// What leaving a node gives the walk.
pub open spec fn end_event(t: MdTree) -> EventView {
    match t.tag {
        NodeTag::Heading => EventView::HeadingEnd(t.level),
        NodeTag::Paragraph => EventView::ParagraphEnd,
        NodeTag::Strong => EventView::StrongEnd,
        NodeTag::Emph => EventView::EmphEnd,
        NodeTag::Strikethrough => EventView::StrikeEnd,
        NodeTag::Link => EventView::LinkEnd(t.url),
        NodeTag::Image => EventView::ImageEnd,
        NodeTag::BlockQuote => EventView::QuoteEnd,
        NodeTag::List => EventView::ListEnd,
        NodeTag::Item => EventView::ItemEnd,
        NodeTag::Table => EventView::TableEnd,
        NodeTag::TableRow => EventView::RowEnd,
        NodeTag::TableCell => EventView::CellEnd,
        NodeTag::FootnoteDefinition => EventView::FootnoteDefEnd,
        NodeTag::Alert => EventView::AlertEnd,
        _ => EventView::Other,
    }
}

/// The starts and ends of a subtree in document order: the node's start,
/// its children's, the node's end.
pub open spec fn tree_events(t: MdTree) -> Seq<EventView>
    decreases t, 1nat,
{
    seq![start_event(t)] + forest_events(t.children) + seq![end_event(t)]
}

/// The starts and ends of a sequence of subtrees.
pub open spec fn forest_events(ts: Seq<MdTree>) -> Seq<EventView>
    decreases ts, 0nat,
{
    if ts.len() == 0 {
        seq![]
    } else {
        forest_events(ts.drop_last()) + tree_events(ts.last())
    }
}

/// Everything the terminal shows of a parsed document.
pub open spec fn spec_render(t: MdTree, c: RenderConfig) -> Seq<OutView> {
    spec_render_events(initial_view(), tree_events(t), c).1
}

fn inline_start_event<'a>(n: &'a AstNode<'a>, tag: NodeTag) -> (e: NodeEvent)
    requires
        tag == spec_tree(n).tag,
        !(tag is Heading || tag is Paragraph || tag is ThematicBreak || tag is BlockQuote || tag is List || tag is Item
            || tag is TaskItem || tag is CodeBlock || tag is Table || tag is TableRow || tag is TableCell
            || tag is FootnoteDefinition || tag is Alert || tag is HtmlBlock),
    ensures
        e@ == start_event(spec_tree(n)),
{
    match tag {
        NodeTag::Text => NodeEvent::Text(node_literal(n)),
        NodeTag::SoftBreak => NodeEvent::SoftBreak,
        NodeTag::LineBreak => NodeEvent::LineBreak,
        NodeTag::Code => NodeEvent::Code(node_literal(n)),
        NodeTag::Strong => NodeEvent::StrongStart,
        NodeTag::Emph => NodeEvent::EmphStart,
        NodeTag::Strikethrough => NodeEvent::StrikeStart,
        NodeTag::Link => NodeEvent::LinkStart(node_link(n).0),
        NodeTag::Image => NodeEvent::ImageStart,
        NodeTag::FootnoteReference => NodeEvent::FootnoteRef(node_footnote_name(n)),
        NodeTag::HtmlInline => NodeEvent::HtmlInline(node_literal(n)),
        NodeTag::Math => NodeEvent::Math(node_literal(n), node_flags(n).2),
        _ => NodeEvent::Other,
    }
}

/// The event a node's start gives.
pub fn node_start_event<'a>(n: &'a AstNode<'a>) -> (e: NodeEvent)
    ensures
        e@ == start_event(spec_tree(n)),
{
    let tag = node_tag(n);
    match tag {
        NodeTag::Heading => NodeEvent::HeadingStart(node_heading_level(n)),
        NodeTag::Paragraph => NodeEvent::ParagraphStart,
        NodeTag::ThematicBreak => NodeEvent::Rule,
        NodeTag::BlockQuote => NodeEvent::QuoteStart,
        NodeTag::List => {
            let (o, st, t) = node_list(n);
            NodeEvent::ListStart(o, st, t)
        },
        NodeTag::Item => NodeEvent::ItemStart,
        NodeTag::TaskItem => NodeEvent::TaskItem(node_flags(n).0),
        NodeTag::CodeBlock => NodeEvent::CodeBlock(node_info(n), node_literal(n)),
        NodeTag::Table => NodeEvent::TableStart(node_alignments(n)),
        NodeTag::TableRow => NodeEvent::RowStart(node_flags(n).1),
        NodeTag::TableCell => NodeEvent::CellStart,
        NodeTag::FootnoteDefinition => NodeEvent::FootnoteDefStart(node_footnote_name(n)),
        NodeTag::Alert => NodeEvent::AlertStart(node_alert(n).0),
        NodeTag::HtmlBlock => NodeEvent::HtmlBlock(node_literal(n)),
        _ => inline_start_event(n, tag),
    }
}

/// The event a node's end gives.
pub fn node_end_event<'a>(n: &'a AstNode<'a>) -> (e: NodeEvent)
    ensures
        e@ == end_event(spec_tree(n)),
{
    match node_tag(n) {
        NodeTag::Heading => NodeEvent::HeadingEnd(node_heading_level(n)),
        NodeTag::Paragraph => NodeEvent::ParagraphEnd,
        NodeTag::Strong => NodeEvent::StrongEnd,
        NodeTag::Emph => NodeEvent::EmphEnd,
        NodeTag::Strikethrough => NodeEvent::StrikeEnd,
        NodeTag::Link => NodeEvent::LinkEnd(node_link(n).0),
        NodeTag::Image => NodeEvent::ImageEnd,
        NodeTag::BlockQuote => NodeEvent::QuoteEnd,
        NodeTag::List => NodeEvent::ListEnd,
        NodeTag::Item => NodeEvent::ItemEnd,
        NodeTag::Table => NodeEvent::TableEnd,
        NodeTag::TableRow => NodeEvent::RowEnd,
        NodeTag::TableCell => NodeEvent::CellEnd,
        NodeTag::FootnoteDefinition => NodeEvent::FootnoteDefEnd,
        NodeTag::Alert => NodeEvent::AlertEnd,
        _ => NodeEvent::Other,
    }
}

fn push_event(out: &mut Vec<NodeEvent>, e: NodeEvent)
    ensures
        events_view(final(out)@) == events_view(old(out)@).push(e@),
{
    let ghost before = events_view(out@);
    out.push(e);
    assert(events_view(out@) =~= before.push(e@));
}

fn push_tree_events<'a>(n: &'a AstNode<'a>, out: &mut Vec<NodeEvent>)
    ensures
        events_view(final(out)@) == events_view(old(out)@) + tree_events(spec_tree(n)),
    decreases spec_tree(n),
{
    let ghost t = spec_tree(n);
    let ghost base = events_view(out@);
    push_event(out, node_start_event(n));
    let ghost entered = events_view(out@);
    let kids = node_children(n);
    let mut i: usize = 0;
    assert(entered + forest_events(t.children.take(0)) =~= entered);
    while i < kids.len()
        invariant
            i <= kids@.len(),
            kids@.len() == t.children.len(),
            t == spec_tree(n),
            forall|k: int| 0 <= k < kids@.len() ==> spec_tree(#[trigger] kids@[k]) == t.children[k],
            events_view(out@) == entered + forest_events(t.children.take(i as int)),
        decreases kids.len() - i,
    {
        proof {
            assert(decreases_to!(t => t.children));
            assert(decreases_to!(t.children => t.children[i as int]));
            assert(t.children.take(i + 1).drop_last() =~= t.children.take(i as int));
        }
        let ghost mid = events_view(out@);
        push_tree_events(kids[i], out);
        proof {
            let c = t.children.take(i + 1);
            assert(c.last() == t.children[i as int]);
            assert(events_view(out@) =~= entered + forest_events(c));
        }
        i = i + 1;
    }
    assert(t.children.take(i as int) =~= t.children);
    push_event(out, node_end_event(n));
    assert(events_view(out@) =~= base + tree_events(t));
}

/// A parsed document's node starts and ends in document order.
pub fn document_events<'a>(root: &'a AstNode<'a>) -> (r: Vec<NodeEvent>)
    ensures
        events_view(r@) == tree_events(spec_tree(root)),
{
    let mut out: Vec<NodeEvent> = Vec::new();
    assert(events_view(out@) =~= Seq::<EventView>::empty());
    push_tree_events(root, &mut out);
    assert(Seq::<EventView>::empty() + tree_events(spec_tree(root)) =~= tree_events(spec_tree(root)));
    out
}

/// Render a parsed document for the terminal: everything it shows, in
/// order, with each finished table handed back for the caller to lay out.
pub fn render_document<'a>(root: &'a AstNode<'a>, c: &RenderConfig) -> (r: Vec<RenderOut>)
    ensures
        outs_view(r@) == spec_render(spec_tree(root), *c),
{
    let evs = document_events(root);
    render_events(&evs, c)
}

// ---------------------------------------------------------------------------
// Laws
// ---------------------------------------------------------------------------

/// Rendering a run of node events in two parts, the second from the state
/// the first left, writes what rendering it in one go writes and ends in
/// the same state.
pub proof fn lemma_render_events_append(s: RenderView, a: Seq<EventView>, b: Seq<EventView>, c: RenderConfig)
    ensures
        spec_render_events(s, a + b, c) == ({
            let (s1, o1) = spec_render_events(s, a, c);
            let (s2, o2) = spec_render_events(s1, b, c);
            (s2, o1 + o2)
        }),
    decreases b.len(),
{
    if b.len() == 0 {
        assert(a + b =~= a);
        let (s1, o1) = spec_render_events(s, a, c);
        assert(o1 + Seq::<OutView>::empty() =~= o1);
    } else {
        lemma_render_events_append(s, a, b.drop_last(), c);
        assert((a + b).drop_last() =~= a + b.drop_last());
        assert((a + b).last() == b.last());
        let (s1, o1) = spec_render_events(s, a, c);
        let (t1, p1) = spec_render_events(s1, b.drop_last(), c);
        let (t2, p2) = spec_render_step(t1, b.last(), c);
        assert(o1 + p1 + p2 =~= o1 + (p1 + p2));
    }
}

/// Bold, italic and quoted spans leave the style stack as they found it.
pub proof fn lemma_spans_restore_styles(s: RenderView, c: RenderConfig)
    ensures
        spec_render_step(spec_render_step(s, EventView::StrongStart, c).0, EventView::StrongEnd, c).0.styles == s.styles,
        spec_render_step(spec_render_step(s, EventView::EmphStart, c).0, EventView::EmphEnd, c).0.styles == s.styles,
        spec_render_step(spec_render_step(s, EventView::QuoteStart, c).0, EventView::QuoteEnd, c).0.styles == s.styles,
        s.quote_depth < usize::MAX ==> spec_render_step(
            spec_render_step(s, EventView::QuoteStart, c).0,
            EventView::QuoteEnd,
            c,
        ).0.quote_depth == s.quote_depth,
{
    assert(s.styles.push(c.theme.bold).drop_last() =~= s.styles);
    assert(s.styles.push(c.theme.italic).drop_last() =~= s.styles);
    assert(s.styles.push(c.theme.blockquote_text).drop_last() =~= s.styles);
}

/// The items of an ordered list count up: once an item has opened and
/// closed, the list's next number is one more, and the item was marked with
/// its own number, a dot and a space.
pub proof fn lemma_ordered_items_count_up(s: RenderView, c: RenderConfig)
    requires
        s.lists.len() > 0,
        s.lists.last().ordered,
        s.lists.last().current < usize::MAX,
    ensures
        ({
            let (s1, o1) = spec_render_step(s, EventView::ItemStart, c);
            let s2 = spec_render_step(s1, EventView::ItemEnd, c).0;
            &&& s2.lists.len() == s.lists.len()
            &&& s2.lists.last().ordered
            &&& s2.lists.last().current == s.lists.last().current + 1
            &&& o1.last() == OutView::Piece(decimal(s.lists.last().current as nat) + seq!['.', ' '], Some(c.theme.list_bullet))
        }),
{
}

} // verus!
