//! Syntax highlighting of code blocks for the terminal: syntect colors each
//! piece of a line, and the pieces are written with the escape sequences the
//! terminal's color level allows.

use crate::strs::{decimal, from_chars, line_ranges, lines, push_decimal, slice_of, to_chars, extend_all};
use crate::style::{rgb_to_ansi256, rgb_to_basic_code, spec_rgb_to_ansi256, basic_code_of_class, rgb_class, ColorLevel};
use syntect::easy::HighlightLines;
use syntect::highlighting::ThemeSet;
use syntect::parsing::SyntaxSet;
use syntect::util::LinesWithEndings;
use vstd::prelude::*;

verus! {

/// A line as syntect highlighted it: the pieces, each with its foreground
/// color (red, green, blue) and its text, or `None` when highlighting
/// failed on the line; and the line itself, with its ending.
#[derive(Debug, Clone)]
pub struct HlLine {
    pub pieces: Option<Vec<(u8, u8, u8, String)>>,
    pub text: String,
}

/// A piece as plain values.
pub open spec fn piece_view(p: (u8, u8, u8, String)) -> (u8, u8, u8, Seq<char>) {
    (p.0, p.1, p.2, p.3@)
}

/// A highlighted line as plain values.
pub open spec fn hl_line_view(l: HlLine) -> (Option<Seq<(u8, u8, u8, Seq<char>)>>, Seq<char>) {
    (
        match l.pieces {
            Some(v) => Some(v@.map_values(|p: (u8, u8, u8, String)| piece_view(p))),
            None => None,
        },
        l.text@,
    )
}

/// Highlighted lines as plain values.
pub open spec fn hl_view(v: Seq<HlLine>) -> Seq<(Option<Seq<(u8, u8, u8, Seq<char>)>>, Seq<char>)> {
    v.map_values(|l: HlLine| hl_line_view(l))
}

/// Whether syntect's default theme set has a theme of this name.
pub uninterp spec fn spec_syntect_has_theme(name: Seq<char>) -> bool;

/// What syntect makes of `code`: each line (with its ending) highlighted
/// with the syntax `lang` names (plain text when none does) and the theme
/// `theme` (the first of the default set for `None`).
pub uninterp spec fn spec_syntect(code: Seq<char>, lang: Seq<char>, theme: Option<Seq<char>>) -> Seq<(Option<Seq<(u8, u8, u8, Seq<char>)>>, Seq<char>)>;

/// `ThemeSet::load_defaults().themes.contains_key(name)`. The default set is
/// built from a dump bundled with syntect, so the answer depends on the
/// name alone; the contract names it.
#[verifier::external_body]
fn syntect_has_theme(name: &str) -> (b: bool)
    ensures
        b == spec_syntect_has_theme(name@),
{
    ThemeSet::load_defaults().themes.contains_key(name)
}

/// Highlights `code` line by line (`LinesWithEndings`) with
/// `HighlightLines::highlight_line`, the syntax found by
/// `find_syntax_by_token(lang)` or plain text, and the named theme or, for
/// `None`, the first of the default set (which is never empty: it is
/// bundled with syntect). Each piece keeps its foreground color; a line
/// whose highlighting fails has no pieces. The contract names the result.
#[verifier::external_body]
fn syntect_highlight(code: &str, lang: &str, theme: Option<&str>) -> (r: Vec<HlLine>)
    requires
        theme matches Some(t) ==> spec_syntect_has_theme(t@),
    ensures
        hl_view(r@) == spec_syntect(code@, lang@, match theme { Some(t) => Some(t@), None => None }),
{
    let ss = SyntaxSet::load_defaults_newlines();
    let ts = ThemeSet::load_defaults();
    let syntax = ss.find_syntax_by_token(lang).unwrap_or_else(|| ss.find_syntax_plain_text());
    let th = match theme { Some(t) => &ts.themes[t], None => ts.themes.values().next().unwrap() };
    let mut h = HighlightLines::new(syntax, th);
    LinesWithEndings::from(code).map(|line| HlLine {
        pieces: h.highlight_line(line, &ss).ok().map(|rs| rs.into_iter().map(|(s, t)| {
            let c = s.foreground;
            (c.r, c.g, c.b, t.to_string())
        }).collect()),
        text: line.to_string(),
    }).collect()
}

// ---------------------------------------------------------------------------
// Escapes
// ---------------------------------------------------------------------------

/// The escape that ends a colored run.
pub open spec fn reset_seq() -> Seq<char> {
    seq!['\u{1b}', '[', '0', 'm']
}

/// `s` without the newlines at its end, then without the carriage returns
/// at its end.
pub open spec fn trim_line_end(s: Seq<char>) -> Seq<char> {
    drop_trailing(drop_trailing(s, '\n'), '\r')
}

/// `s` without the copies of `c` at its end.
pub open spec fn drop_trailing(s: Seq<char>, c: char) -> Seq<char>
    decreases s.len(),
{
    if s.len() > 0 && s.last() == c {
        drop_trailing(s.drop_last(), c)
    } else {
        s
    }
}

/// The escape that sets a foreground color at a color level.
pub open spec fn color_escape(level: ColorLevel, r: u8, g: u8, b: u8) -> Seq<char> {
    match level {
        ColorLevel::TrueColor => seq!['\u{1b}', '[', '3', '8', ';', '2', ';'] + decimal(r as nat) + seq![';']
            + decimal(g as nat) + seq![';'] + decimal(b as nat) + seq!['m'],
        ColorLevel::Ansi256 => seq!['\u{1b}', '[', '3', '8', ';', '5', ';'] + decimal(spec_rgb_to_ansi256(r, g, b) as nat)
            + seq!['m'],
        ColorLevel::Basic => seq!['\u{1b}', '['] + decimal(basic_code_of_class(rgb_class(r, g, b)) as nat) + seq!['m'],
        ColorLevel::NoColor => seq![],
    }
}

/// A piece as written: its text without the line ending, colored; nothing
/// for a piece that is only the line ending.
pub open spec fn piece_out(level: ColorLevel, p: (u8, u8, u8, Seq<char>)) -> Seq<char> {
    let t = trim_line_end(p.3);
    if t.len() == 0 {
        seq![]
    } else if level == ColorLevel::NoColor {
        t
    } else {
        color_escape(level, p.0, p.1, p.2) + t + reset_seq()
    }
}

/// The pieces of a line written one after another.
pub open spec fn pieces_out(level: ColorLevel, ps: Seq<(u8, u8, u8, Seq<char>)>) -> Seq<char>
    decreases ps.len(),
{
    if ps.len() == 0 {
        seq![]
    } else {
        pieces_out(level, ps.drop_last()) + piece_out(level, ps.last())
    }
}

/// A highlighted line as written: its colored pieces, or the line without
/// its newlines when highlighting failed.
pub open spec fn line_out(level: ColorLevel, l: (Option<Seq<(u8, u8, u8, Seq<char>)>>, Seq<char>)) -> Seq<char> {
    match l.0 {
        Some(ps) => pieces_out(level, ps),
        None => drop_trailing(l.1, '\n'),
    }
}

/// The theme used: the one asked for when syntect has it, else
/// `base16-ocean.dark` when it has that, else the first of its set.
pub open spec fn chosen_theme(theme: Seq<char>) -> Option<Seq<char>> {
    if spec_syntect_has_theme(theme) {
        Some(theme)
    } else if spec_syntect_has_theme("base16-ocean.dark"@) {
        Some("base16-ocean.dark"@)
    } else {
        None
    }
}

/// The lines of a code block as the terminal shows them: plain lines with
/// no color or no language, else the highlighted lines.
pub open spec fn spec_highlight_code(code: Seq<char>, lang: Seq<char>, theme: Seq<char>, level: ColorLevel) -> Seq<Seq<char>> {
    if level == ColorLevel::NoColor || lang.len() == 0 {
        lines(code)
    } else {
        spec_syntect(code, lang, chosen_theme(theme)).map_values(
            |l: (Option<Seq<(u8, u8, u8, Seq<char>)>>, Seq<char>)| line_out(level, l),
        )
    }
}

fn drop_trailing_vec(v: &mut Vec<char>, c: char)
    ensures
        final(v)@ == drop_trailing(old(v)@, c),
{
    while v.len() > 0 && v[v.len() - 1] == c
        invariant
            drop_trailing(v@, c) == drop_trailing(old(v)@, c),
        decreases v.len(),
    {
        v.pop();
    }
}

fn push_color_escape(out: &mut Vec<char>, level: ColorLevel, r: u8, g: u8, b: u8)
    ensures
        final(out)@ == old(out)@ + color_escape(level, r, g, b),
{
    match level {
        ColorLevel::TrueColor => {
            out.push('\u{1b}');
            out.push('[');
            out.push('3');
            out.push('8');
            out.push(';');
            out.push('2');
            out.push(';');
            push_decimal(out, r as u64);
            out.push(';');
            push_decimal(out, g as u64);
            out.push(';');
            push_decimal(out, b as u64);
            out.push('m');
        },
        ColorLevel::Ansi256 => {
            out.push('\u{1b}');
            out.push('[');
            out.push('3');
            out.push('8');
            out.push(';');
            out.push('5');
            out.push(';');
            push_decimal(out, rgb_to_ansi256(r, g, b) as u64);
            out.push('m');
        },
        ColorLevel::Basic => {
            out.push('\u{1b}');
            out.push('[');
            push_decimal(out, rgb_to_basic_code(r, g, b) as u64);
            out.push('m');
        },
        ColorLevel::NoColor => {},
    }
}

/// Write the pieces of one highlighted line.
pub fn highlighted_line(level: ColorLevel, pieces: &Vec<(u8, u8, u8, String)>) -> (r: String)
    ensures
        r@ == pieces_out(level, pieces@.map_values(|p: (u8, u8, u8, String)| piece_view(p))),
{
    let ghost ps = pieces@.map_values(|p: (u8, u8, u8, String)| piece_view(p));
    let mut out: Vec<char> = Vec::new();
    let mut i: usize = 0;
    assert(ps.take(0) =~= Seq::<(u8, u8, u8, Seq<char>)>::empty());
    while i < pieces.len()
        invariant
            i <= pieces@.len(),
            ps == pieces@.map_values(|p: (u8, u8, u8, String)| piece_view(p)),
            out@ == pieces_out(level, ps.take(i as int)),
        decreases pieces.len() - i,
    {
        let p = &pieces[i];
        let mut t = to_chars(p.3.as_str());
        drop_trailing_vec(&mut t, '\n');
        drop_trailing_vec(&mut t, '\r');
        let ghost before = out@;
        if t.len() > 0 {
            if level == ColorLevel::NoColor {
                extend_all(&mut out, &t);
            } else {
                push_color_escape(&mut out, level, p.0, p.1, p.2);
                extend_all(&mut out, &t);
                out.push('\u{1b}');
                out.push('[');
                out.push('0');
                out.push('m');
            }
        }
        proof {
            let s = ps.take(i + 1);
            assert(s.drop_last() =~= ps.take(i as int));
            assert(s.last() == piece_view(pieces@[i as int]));
            assert(out@ =~= before + piece_out(level, piece_view(pieces@[i as int])));
        }
        i = i + 1;
    }
    assert(ps.take(i as int) =~= ps);
    from_chars(&out)
}

/// The lines of a string, split as `str::lines` splits them.
pub(crate) fn split_lines(s: &str) -> (r: Vec<String>)
    ensures
        r@.len() == lines(s@).len(),
        forall|k: int| 0 <= k < r@.len() ==> #[trigger] r@[k]@ == lines(s@)[k],
{
    let cs = to_chars(s);
    let ranges = line_ranges(&cs);
    let mut out: Vec<String> = Vec::new();
    let mut i: usize = 0;
    while i < ranges.len()
        invariant
            i <= ranges@.len() == lines(cs@).len(),
            cs@ == s@,
            forall|q: int|
                0 <= q < ranges@.len() ==> {
                    &&& (#[trigger] ranges@[q]).0 <= ranges@[q].1 <= cs@.len()
                    &&& cs@.subrange(ranges@[q].0 as int, ranges@[q].1 as int) == lines(cs@)[q]
                },
            out@.len() == i,
            forall|q: int| 0 <= q < i ==> #[trigger] out@[q]@ == lines(cs@)[q],
        decreases ranges.len() - i,
    {
        let (a, b) = ranges[i];
        let piece = slice_of(&cs, a, b);
        out.push(from_chars(&piece));
        i = i + 1;
    }
    out
}

/// Highlight a code block for the terminal: with no color or no language
/// its plain lines; otherwise syntect's highlighting in `theme` (falling
/// back to `base16-ocean.dark`, then to the first theme), each piece in the
/// escapes the color level allows.
pub fn highlight_code(code: &str, lang: &str, theme: &str, level: ColorLevel) -> (r: Vec<String>)
    ensures
        r@.len() == spec_highlight_code(code@, lang@, theme@, level).len(),
        forall|k: int| 0 <= k < r@.len() ==> #[trigger] r@[k]@ == spec_highlight_code(code@, lang@, theme@, level)[k],
{
    let lang_chars = to_chars(lang);
    if level == ColorLevel::NoColor || lang_chars.len() == 0 {
        return split_lines(code);
    }
    proof {
        reveal_strlit("base16-ocean.dark");
    }
    let fallback = "base16-ocean.dark";
    let chosen: Option<&str> = if syntect_has_theme(theme) {
        Some(theme)
    } else if syntect_has_theme(fallback) {
        Some(fallback)
    } else {
        None
    };
    let hl = syntect_highlight(code, lang, chosen);
    let ghost hs = hl_view(hl@);
    let mut out: Vec<String> = Vec::new();
    let mut i: usize = 0;
    while i < hl.len()
        invariant
            i <= hl@.len(),
            hs == hl_view(hl@),
            out@.len() == i,
            forall|q: int| 0 <= q < i ==> #[trigger] out@[q]@ == line_out(level, hs[q]),
        decreases hl.len() - i,
    {
        let l = &hl[i];
        match &l.pieces {
            Some(ps) => {
                out.push(highlighted_line(level, ps));
            },
            None => {
                let mut t = to_chars(l.text.as_str());
                drop_trailing_vec(&mut t, '\n');
                out.push(from_chars(&t));
            },
        }
        i = i + 1;
    }
    out
}

} // verus!
