//! `mdx fmt`: markdown written back as CommonMark, wrapped at a fixed
//! width, with the same extensions every other path parses.

use crate::ast::comrak_parse_options;
use crate::options::{fmt_options, spec_fmt_options, MarkdownOptions, MarkdownOptionsView, FMT_WIDTH};
use crate::strs::{from_chars, to_chars};
use vstd::prelude::*;

verus! {

/// What `comrak::markdown_to_commonmark` returns for markdown under the
/// given options: comrak's own CommonMark rendering of the parsed document.
pub uninterp spec fn spec_markdown_to_commonmark(markdown: Seq<char>, options: MarkdownOptionsView) -> Seq<char>;

/// `comrak::markdown_to_commonmark`, with the options' extensions and wrap
/// width. It parses and writes back into a string, which cannot fail, and
/// depends on its arguments alone; the contract names the result.
#[verifier::external_body]
fn markdown_to_commonmark(markdown: &str, options: &MarkdownOptions) -> (r: String)
    ensures
        r@ == spec_markdown_to_commonmark(markdown@, options@),
{
    let mut c = comrak_parse_options(options);
    c.render.width = options.width;
    comrak::markdown_to_commonmark(markdown, &c)
}

/// `s`, with a newline added unless it already ends with one.
pub open spec fn with_final_newline(s: Seq<char>) -> Seq<char> {
    if s.len() > 0 && s.last() == '\n' {
        s
    } else {
        s.push('\n')
    }
}

/// Reformat markdown: parse it with the formatter's options, write it back
/// as CommonMark wrapped at `FMT_WIDTH` columns, and end it with a newline.
pub fn format_markdown(input: &str) -> (r: String)
    ensures
        r@ == with_final_newline(spec_markdown_to_commonmark(input@, spec_fmt_options(FMT_WIDTH))),
        r@.len() > 0,
        r@.last() == '\n',
{
    let options = fmt_options(FMT_WIDTH);
    let out = markdown_to_commonmark(input, &options);
    let mut v = to_chars(out.as_str());
    if !(v.len() > 0 && v[v.len() - 1] == '\n') {
        v.push('\n');
    }
    assert(v@ == with_final_newline(out@));
    from_chars(&v)
}

} // verus!
