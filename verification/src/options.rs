//! The markdown option sets shared by every entry point that hands markdown
//! to the parser: the terminal renderer, the HTML renderer and the formatter
//! must agree on which extensions are enabled.

use vstd::prelude::*;

verus! {

/// Wrap column used by `mdx fmt` when re-emitting CommonMark; fixed so that
/// formatting does not depend on the terminal.
pub const FMT_WIDTH: usize = 80;

/// The syntax highlighting theme used when none is chosen.
pub const DEFAULT_SYNTAX_THEME: &'static str = "base16-ocean.dark";

/// Which markdown extensions are on, and how output is rendered.
#[derive(Debug, Clone)]
pub struct MarkdownOptions {
    pub strikethrough: bool,
    pub table: bool,
    pub autolink: bool,
    pub tasklist: bool,
    pub footnotes: bool,
    pub alerts: bool,
    pub front_matter_delimiter: Option<String>,
    pub math_dollars: bool,
    pub math_code: bool,
    /// Whether the parser leaves footnote definitions where they stand
    /// instead of gathering them at the end of the document.
    pub leave_footnote_definitions: bool,
    /// Raw HTML and non-http(s) links pass through untouched.
    pub unsafe_html: bool,
    /// Wrap column of the formatter; 0 disables wrapping.
    pub width: usize,
}

/// The option values, with the delimiter as characters.
pub struct MarkdownOptionsView {
    pub strikethrough: bool,
    pub table: bool,
    pub autolink: bool,
    pub tasklist: bool,
    pub footnotes: bool,
    pub alerts: bool,
    pub front_matter_delimiter: Option<Seq<char>>,
    pub math_dollars: bool,
    pub math_code: bool,
    pub leave_footnote_definitions: bool,
    pub unsafe_html: bool,
    pub width: usize,
}

impl View for MarkdownOptions {
    type V = MarkdownOptionsView;

    open spec fn view(&self) -> MarkdownOptionsView {
        MarkdownOptionsView {
            strikethrough: self.strikethrough,
            table: self.table,
            autolink: self.autolink,
            tasklist: self.tasklist,
            footnotes: self.footnotes,
            alerts: self.alerts,
            front_matter_delimiter: match self.front_matter_delimiter {
                Some(d) => Some(d@),
                None => None,
            },
            math_dollars: self.math_dollars,
            math_code: self.math_code,
            leave_footnote_definitions: self.leave_footnote_definitions,
            unsafe_html: self.unsafe_html,
            width: self.width,
        }
    }
}

/// The markdown constructs mdx understands everywhere: the GFM extensions,
/// alerts, `---` front matter and dollar/code math; the parser's own
/// settings at their defaults; raw HTML off, no wrapping.
pub open spec fn spec_markdown_options() -> MarkdownOptionsView {
    MarkdownOptionsView {
        strikethrough: true,
        table: true,
        autolink: true,
        tasklist: true,
        footnotes: true,
        alerts: true,
        front_matter_delimiter: Some(seq!['-', '-', '-']),
        math_dollars: true,
        math_code: true,
        leave_footnote_definitions: false,
        unsafe_html: false,
        width: 0,
    }
}

/// The HTML renderer's options: the same constructs, raw HTML allowed.
pub open spec fn spec_html_options() -> MarkdownOptionsView {
    MarkdownOptionsView { unsafe_html: true, ..spec_markdown_options() }
}

/// The formatter's options: the same constructs, wrapped at `width`.
pub open spec fn spec_fmt_options(width: usize) -> MarkdownOptionsView {
    MarkdownOptionsView { width, ..spec_markdown_options() }
}

/// Whether two option sets enable the same markdown constructs.
pub open spec fn same_extensions(a: MarkdownOptionsView, b: MarkdownOptionsView) -> bool {
    &&& a.strikethrough == b.strikethrough
    &&& a.table == b.table
    &&& a.autolink == b.autolink
    &&& a.tasklist == b.tasklist
    &&& a.footnotes == b.footnotes
    &&& a.alerts == b.alerts
    &&& a.front_matter_delimiter == b.front_matter_delimiter
    &&& a.math_dollars == b.math_dollars
    &&& a.math_code == b.math_code
}

/// The markdown constructs mdx understands, everywhere.
pub fn markdown_options() -> (o: MarkdownOptions)
    ensures
        o@ == spec_markdown_options(),
{
    let mut delim = String::new();
    crate::strs::push_char(&mut delim, '-');
    crate::strs::push_char(&mut delim, '-');
    crate::strs::push_char(&mut delim, '-');
    assert(delim@ =~= seq!['-', '-', '-']);
    MarkdownOptions {
        strikethrough: true,
        table: true,
        autolink: true,
        tasklist: true,
        footnotes: true,
        alerts: true,
        front_matter_delimiter: Some(delim),
        math_dollars: true,
        math_code: true,
        leave_footnote_definitions: false,
        unsafe_html: false,
        width: 0,
    }
}

/// Options for the HTML renderer (`serve`, `export`, `publish`).
pub fn html_options() -> (o: MarkdownOptions)
    ensures
        o@ == spec_html_options(),
{
    let mut o = markdown_options();
    o.unsafe_html = true;
    o
}

/// Options for the CommonMark formatter; `width` is the wrap column, `0`
/// disables wrapping.
pub fn fmt_options(width: usize) -> (o: MarkdownOptions)
    ensures
        o@ == spec_fmt_options(width),
{
    let mut o = markdown_options();
    o.width = width;
    o
}

/// No path parses a smaller subset of markdown than the others: the HTML
/// and formatter option sets enable exactly the extensions of the base set,
/// only the HTML path lets raw HTML through, and only the formatter wraps.
pub proof fn lemma_options_agree(width: usize)
    ensures
        same_extensions(spec_html_options(), spec_markdown_options()),
        same_extensions(spec_fmt_options(width), spec_markdown_options()),
        spec_html_options().unsafe_html,
        !spec_markdown_options().unsafe_html,
        !spec_fmt_options(width).unsafe_html,
        spec_fmt_options(width).width == width,
        spec_markdown_options().width == 0,
        spec_html_options().width == 0,
        spec_markdown_options().alerts,
{
}

} // verus!
