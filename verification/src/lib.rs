//! Markdown tooling: text utilities, front matter, escaping, and the pure
//! logic behind rendering, exporting, fetching and serving documents.

pub mod strs;
pub mod text;
pub mod json;
pub mod frontmatter;
pub mod fetch;
pub mod export;
pub mod present;
pub mod math;
pub mod serve;
pub mod style;
pub mod theme;
pub mod cli;
pub mod render;
pub mod options;
pub mod assets;
pub mod html;
pub mod publish;
pub mod stats;
pub mod lint;
pub mod update;
pub mod ast;
pub mod dump;
pub mod toc;
pub mod table;
pub mod search;
pub mod terminal;
pub mod fmt;
pub mod nav;
pub mod diff;
pub mod highlight;
pub mod walk;

use vstd::prelude::*;

verus! {

/// Estimated LLM token count: about four characters per token, rounded up.
pub open spec fn spec_estimate_tokens(char_len: nat) -> nat {
    (char_len + 3) / 4
}

/// Estimate the LLM token count of `text` (about four characters per
/// token).
pub fn estimate_tokens(text: &str) -> (r: u64)
    ensures
        r == spec_estimate_tokens(text@.len()),
{
    let n = crate::strs::to_chars(text).len();
    let q = n / 4;
    let r = n % 4;
    assert((n as int + 3) / 4 == n as int / 4 + (if n as int % 4 == 0 { 0int } else { 1int })) by (nonlinear_arith);
    let t: u64 = if r == 0 { q as u64 } else { q as u64 + 1 };
    t
}

} // verus!
