//! The command-line options of each subcommand, as plain values.

pub use crate::theme::ThemeName;
use vstd::prelude::*;

verus! {

/// When to emit color.
#[derive(Debug, Clone, Copy, PartialEq, Eq, Structural)]
pub enum ColorMode {
    Auto,
    Always,
    Never,
}

/// `mdx completions`: a shell name, or `install`.
#[derive(Debug, Clone)]
pub struct CompletionsArgs {
    pub shell_or_action: String,
}

/// `mdx serve`: files or a directory to preview in the browser.
#[derive(Debug, Clone)]
pub struct ServeArgs {
    pub files: Vec<String>,
    pub port: Option<u16>,
    pub host: String,
    pub unsafe_html: bool,
}

/// `mdx watch`: a file to re-render on change.
#[derive(Debug, Clone)]
pub struct WatchArgs {
    pub file: String,
}

/// `mdx toc`: a table of contents down to `depth`.
#[derive(Debug, Clone)]
pub struct TocArgs {
    pub file: String,
    pub depth: u8,
}

/// `mdx present`: a file shown as slides.
#[derive(Debug, Clone)]
pub struct PresentArgs {
    pub file: String,
}

/// `mdx stats`: document statistics.
#[derive(Debug, Clone)]
pub struct StatsArgs {
    pub file: Option<String>,
}

/// `mdx fmt`: reformat markdown.
#[derive(Debug, Clone)]
pub struct FmtArgs {
    pub file: Option<String>,
    pub in_place: bool,
    pub check: bool,
}

/// `mdx lint`: check for common issues.
#[derive(Debug, Clone)]
pub struct LintArgs {
    pub file: String,
}

/// `mdx diff`: compare two files.
#[derive(Debug, Clone)]
pub struct DiffArgs {
    pub file_a: String,
    pub file_b: String,
    pub unified: bool,
}

/// `mdx export`: convert to html, json, txt, pdf or epub.
#[derive(Debug, Clone)]
pub struct ExportArgs {
    pub file: Option<String>,
    pub to: String,
    pub output: Option<String>,
    pub allow_remote_render: bool,
}

/// `mdx publish`: build a static site.
#[derive(Debug, Clone)]
pub struct PublishArgs {
    pub dir: String,
    pub out: String,
    pub unsafe_html: bool,
}

/// `mdx search`: search markdown files.
#[derive(Debug, Clone)]
pub struct SearchArgs {
    pub query: String,
    pub paths: Vec<String>,
    pub limit: usize,
    pub tag: Option<String>,
    pub files_only: bool,
}

/// `mdx fetch`: a web page as markdown.
#[derive(Debug, Clone)]
pub struct FetchArgs {
    pub url: String,
    pub output: Option<String>,
    pub raw: bool,
    pub metadata: bool,
    pub tokens: bool,
    pub pager: bool,
}

/// The older `convert` entry point: a file and a target format.
#[derive(Debug, Clone)]
pub struct ConvertArgs {
    pub file: Option<String>,
    pub to: String,
}

} // verus!
