//! Terminal rendering pieces that do not depend on the markdown tree: the
//! drawing character sets, ANSI escape handling, and the mapping of wrapped
//! text back to the styles of its segments.

use crate::strs::{find_char_from, from_chars, is_first_char, is_ws, char_is_ws, lemma_first_char_unique, lemma_first_char_none, push_char, to_chars};
use crate::ast::AlertKind;
use crate::style::{plain_style, spec_merge, Style, ImageProtocol};
use crate::text::{col_width, display_width, spec_display_width, char_width, repeat_vec, spaces_of};
use crate::strs::{extend_all, line_ranges, lines};
use crate::text::{spec_fill, wrap_text};
use vstd::prelude::*;

verus! {

/// A run of text with one style.
#[derive(Debug, Clone)]
pub struct StyledSegment {
    pub text: String,
    pub style: Style,
}

/// The characters used to draw rules, bullets, boxes and tables.
#[derive(Debug, Clone, Copy)]
pub struct Chars {
    pub h1_rule: char,
    pub h2_rule: char,
    pub hr: char,
    pub bq_bar: char,
    pub bullet_l0: &'static str,
    pub bullet_l1: &'static str,
    pub bullet_l2: &'static str,
    pub task_done: &'static str,
    pub task_undone: &'static str,
    pub code_tl: &'static str,
    pub code_tr: &'static str,
    pub code_bl: &'static str,
    pub code_br: &'static str,
    pub code_h: char,
    pub code_v: char,
    pub table_tl: &'static str,
    pub table_tr: &'static str,
    pub table_bl: &'static str,
    pub table_br: &'static str,
    pub table_h: char,
    pub table_v: &'static str,
    pub table_t_down: &'static str,
    pub table_t_up: &'static str,
    pub table_t_right: &'static str,
    pub table_t_left: &'static str,
    pub table_cross: &'static str,
    pub table_header_h: char,
    pub table_header_cross: &'static str,
    pub table_header_left: &'static str,
    pub table_header_right: &'static str,
}

/// What `Chars::unicode` holds: box-drawing characters and symbols.
pub open spec fn is_unicode_chars(c: Chars) -> bool {
    &&& c.h1_rule == '\u{2550}'
    &&& c.h2_rule == '\u{2500}'
    &&& c.hr == '\u{2500}'
    &&& c.bq_bar == '\u{2502}'
    &&& c.bullet_l0@ == "\u{25CF}"@
    &&& c.bullet_l1@ == "\u{25CB}"@
    &&& c.bullet_l2@ == "\u{25A0}"@
    &&& c.task_done@ == "\u{2713}"@
    &&& c.task_undone@ == "\u{2610}"@
    &&& c.code_tl@ == "\u{250C}"@
    &&& c.code_tr@ == "\u{2510}"@
    &&& c.code_bl@ == "\u{2514}"@
    &&& c.code_br@ == "\u{2518}"@
    &&& c.code_h == '\u{2500}'
    &&& c.code_v == '\u{2502}'
    &&& c.table_tl@ == "\u{250C}"@
    &&& c.table_tr@ == "\u{2510}"@
    &&& c.table_bl@ == "\u{2514}"@
    &&& c.table_br@ == "\u{2518}"@
    &&& c.table_h == '\u{2500}'
    &&& c.table_v@ == "\u{2502}"@
    &&& c.table_t_down@ == "\u{252C}"@
    &&& c.table_t_up@ == "\u{2534}"@
    &&& c.table_t_right@ == "\u{251C}"@
    &&& c.table_t_left@ == "\u{2524}"@
    &&& c.table_cross@ == "\u{253C}"@
    &&& c.table_header_h == '\u{2550}'
    &&& c.table_header_cross@ == "\u{256A}"@
    &&& c.table_header_left@ == "\u{255E}"@
    &&& c.table_header_right@ == "\u{2561}"@
}

/// What `Chars::ascii` holds: plain ASCII stand-ins.
pub open spec fn is_ascii_chars(c: Chars) -> bool {
    &&& c.h1_rule == '='
    &&& c.h2_rule == '-'
    &&& c.hr == '-'
    &&& c.bq_bar == '|'
    &&& c.bullet_l0@ == "*"@
    &&& c.bullet_l1@ == "-"@
    &&& c.bullet_l2@ == "+"@
    &&& c.task_done@ == "[x]"@
    &&& c.task_undone@ == "[ ]"@
    &&& c.code_tl@ == "+"@
    &&& c.code_tr@ == "+"@
    &&& c.code_bl@ == "+"@
    &&& c.code_br@ == "+"@
    &&& c.code_h == '-'
    &&& c.code_v == '|'
    &&& c.table_tl@ == "+"@
    &&& c.table_tr@ == "+"@
    &&& c.table_bl@ == "+"@
    &&& c.table_br@ == "+"@
    &&& c.table_h == '-'
    &&& c.table_v@ == "|"@
    &&& c.table_t_down@ == "+"@
    &&& c.table_t_up@ == "+"@
    &&& c.table_t_right@ == "+"@
    &&& c.table_t_left@ == "+"@
    &&& c.table_cross@ == "+"@
    &&& c.table_header_h == '='
    &&& c.table_header_cross@ == "+"@
    &&& c.table_header_left@ == "+"@
    &&& c.table_header_right@ == "+"@
}

impl Chars {
    /// Box-drawing characters and symbols.
    pub fn unicode() -> (c: Chars)
        ensures
            is_unicode_chars(c),
    {
        Chars {
            h1_rule: '\u{2550}',
            h2_rule: '\u{2500}',
            hr: '\u{2500}',
            bq_bar: '\u{2502}',
            bullet_l0: "\u{25CF}",
            bullet_l1: "\u{25CB}",
            bullet_l2: "\u{25A0}",
            task_done: "\u{2713}",
            task_undone: "\u{2610}",
            code_tl: "\u{250C}",
            code_tr: "\u{2510}",
            code_bl: "\u{2514}",
            code_br: "\u{2518}",
            code_h: '\u{2500}',
            code_v: '\u{2502}',
            table_tl: "\u{250C}",
            table_tr: "\u{2510}",
            table_bl: "\u{2514}",
            table_br: "\u{2518}",
            table_h: '\u{2500}',
            table_v: "\u{2502}",
            table_t_down: "\u{252C}",
            table_t_up: "\u{2534}",
            table_t_right: "\u{251C}",
            table_t_left: "\u{2524}",
            table_cross: "\u{253C}",
            table_header_h: '\u{2550}',
            table_header_cross: "\u{256A}",
            table_header_left: "\u{255E}",
            table_header_right: "\u{2561}",
        }
    }

    /// Plain ASCII stand-ins for terminals without Unicode.
    pub fn ascii() -> (c: Chars)
        ensures
            is_ascii_chars(c),
    {
        Chars {
            h1_rule: '=',
            h2_rule: '-',
            hr: '-',
            bq_bar: '|',
            bullet_l0: "*",
            bullet_l1: "-",
            bullet_l2: "+",
            task_done: "[x]",
            task_undone: "[ ]",
            code_tl: "+",
            code_tr: "+",
            code_bl: "+",
            code_br: "+",
            code_h: '-',
            code_v: '|',
            table_tl: "+",
            table_tr: "+",
            table_bl: "+",
            table_br: "+",
            table_h: '-',
            table_v: "|",
            table_t_down: "+",
            table_t_up: "+",
            table_t_right: "+",
            table_t_left: "+",
            table_cross: "+",
            table_header_h: '=',
            table_header_cross: "+",
            table_header_left: "+",
            table_header_right: "+",
        }
    }

}

// ---------------------------------------------------------------------------
// ANSI escapes
// ---------------------------------------------------------------------------

/// Length of the escape sequence at the start of `s` (which starts with ESC):
/// up to and including the next `m`, or the rest of `s`.
pub open spec fn escape_len(s: Seq<char>) -> int {
    match find_char_from(s, 'm', 1) {
        Some(j) => j + 1,
        None => s.len() as int,
    }
}

/// `s` without its ANSI escape sequences (ESC up to and including `m`).
pub open spec fn spec_strip_ansi(s: Seq<char>) -> Seq<char>
    decreases s.len(),
{
    if s.len() == 0 {
        seq![]
    } else if s[0] == '\x1b' {
        let e = escape_len(s);
        if 1 <= e <= s.len() {
            spec_strip_ansi(s.skip(e))
        } else {
            seq![]
        }
    } else {
        seq![s[0]] + spec_strip_ansi(s.skip(1))
    }
}

/// End of the escape sequence starting at `s[i]` (an ESC).
fn escape_end(s: &[char], i: usize) -> (e: usize)
    requires
        i < s@.len(),
    ensures
        i < e <= s@.len(),
        e - i == escape_len(s@.skip(i as int)),
{
    let n = s.len();
    let ghost t = s@.skip(i as int);
    let mut j = i + 1;
    while j < n
        invariant
            i < j <= n == s@.len(),
            t == s@.skip(i as int),
            forall|k: int| 1 <= k < j - i ==> t[k] != 'm',
        decreases n - j,
    {
        if s[j] == 'm' {
            proof {
                assert(t[j - i] == 'm');
                lemma_first_char_unique(t, 'm', 1, j - i);
            }
            return j + 1;
        }
        assert(t[j - i] == s@[j as int]);
        j = j + 1;
    }
    proof {
        lemma_first_char_none(t, 'm', 1);
    }
    n
}

/// Remove ANSI escape sequences.
pub fn strip_ansi(s: &str) -> (r: String)
    ensures
        r@ == spec_strip_ansi(s@),
{
    let cs = to_chars(s);
    let n = cs.len();
    let mut out: Vec<char> = Vec::new();
    let mut i: usize = 0;
    assert(cs@.skip(0) =~= cs@);
    while i < n
        invariant
            i <= n == cs@.len(),
            out@ + spec_strip_ansi(cs@.skip(i as int)) == spec_strip_ansi(cs@),
        decreases n - i,
    {
        let ghost rest = cs@.skip(i as int);
        let ghost out0 = out@;
        assert(rest[0] == cs@[i as int]);
        if cs[i] == '\x1b' {
            let e = escape_end(&cs, i);
            assert(rest.skip(e - i) =~= cs@.skip(e as int));
            i = e;
        } else {
            out.push(cs[i]);
            assert(rest.skip(1) =~= cs@.skip(i + 1));
            i = i + 1;
            assert(out0 + spec_strip_ansi(rest) =~= out@ + spec_strip_ansi(cs@.skip(i as int)));
        }
    }
    assert(cs@.skip(n as int) =~= Seq::<char>::empty());
    assert(out@ =~= spec_strip_ansi(cs@));
    from_chars(&out)
}

/// Display width of `s` once its ANSI escapes are removed.
pub fn strip_ansi_width(s: &str) -> (w: usize)
    ensures
        w == spec_display_width(spec_strip_ansi(s@)),
{
    let stripped = strip_ansi(s);
    display_width(stripped.as_str())
}

/// Truncation keeping escapes: the kept text (escapes copied whole, other
/// characters while the running width `w` stays within `max`) and whether
/// an escape was copied.
pub open spec fn truncate_ansi(s: Seq<char>, w: int, max: int) -> (Seq<char>, bool)
    decreases s.len(),
{
    if s.len() == 0 {
        (seq![], false)
    } else if s[0] == '\x1b' {
        let e = escape_len(s);
        if 1 <= e <= s.len() {
            let rest = truncate_ansi(s.skip(e), w, max);
            (s.take(e) + rest.0, true)
        } else {
            (seq![], false)
        }
    } else if w + col_width(s[0]) > max {
        (seq![], false)
    } else {
        let rest = truncate_ansi(s.skip(1), w + col_width(s[0]), max);
        (seq![s[0]] + rest.0, rest.1)
    }
}

/// What `truncate_ansi_str` returns: the kept text, with a reset appended
/// when it carries any escape.
pub open spec fn spec_truncate_ansi_str(s: Seq<char>, max_width: int) -> Seq<char> {
    let t = truncate_ansi(s, 0, max_width);
    if t.1 {
        t.0 + seq!['\x1b', '[', '0', 'm']
    } else {
        t.0
    }
}

/// Truncate a string with ANSI escapes to `max_width` display columns,
/// keeping escapes intact and resetting the style afterwards if any.
pub fn truncate_ansi_str(s: &str, max_width: usize) -> (r: String)
    ensures
        r@ == spec_truncate_ansi_str(s@, max_width as int),
{
    let cs = to_chars(s);
    let n = cs.len();
    let mut out: Vec<char> = Vec::new();
    let mut width: usize = 0;
    let mut has_ansi = false;
    let mut i: usize = 0;
    let mut stopped = false;
    assert(cs@.skip(0) =~= cs@);
    while i < n && !stopped
        invariant
            i <= n == cs@.len(),
            width <= max_width,
            stopped ==> truncate_ansi(cs@.skip(i as int), width as int, max_width as int) == (
                Seq::<char>::empty(),
                false,
            ),
            truncate_ansi(cs@, 0, max_width as int).0 == out@ + truncate_ansi(
                cs@.skip(i as int),
                width as int,
                max_width as int,
            ).0,
            truncate_ansi(cs@, 0, max_width as int).1 == (has_ansi || truncate_ansi(
                cs@.skip(i as int),
                width as int,
                max_width as int,
            ).1),
        decreases 2 * (n - i) + (if stopped {
            0int
        } else {
            1int
        }),
    {
        let ghost rest = cs@.skip(i as int);
        let ghost out0 = out@;
        assert(rest[0] == cs@[i as int]);
        if cs[i] == '\x1b' {
            let e = escape_end(&cs, i);
            let mut k = i;
            while k < e
                invariant
                    i <= k <= e <= n == cs@.len(),
                    out@ == out0 + cs@.subrange(i as int, k as int),
                decreases e - k,
            {
                out.push(cs[k]);
                k = k + 1;
                assert(out@ =~= out0 + cs@.subrange(i as int, k as int));
            }
            has_ansi = true;
            proof {
                assert(rest.take(e - i) =~= cs@.subrange(i as int, e as int));
                assert(rest.skip(e - i) =~= cs@.skip(e as int));
                assert(out0 + (rest.take(e - i) + truncate_ansi(cs@.skip(e as int), width as int, max_width as int).0)
                    =~= out@ + truncate_ansi(cs@.skip(e as int), width as int, max_width as int).0);
            }
            i = e;
        } else {
            let cw: usize = match char_width(cs[i]) {
                Some(w) => w,
                None => 0,
            };
            if cw > max_width - width {
                stopped = true;
            } else {
                out.push(cs[i]);
                width = width + cw;
                proof {
                    assert(rest.skip(1) =~= cs@.skip(i + 1));
                }
                i = i + 1;
                proof {
                    assert(out0 + (seq![rest[0]] + truncate_ansi(cs@.skip(i as int), width as int, max_width as int).0)
                        =~= out@ + truncate_ansi(cs@.skip(i as int), width as int, max_width as int).0);
                }
            }
        }
    }
    proof {
        if !stopped {
            assert(cs@.skip(n as int) =~= Seq::<char>::empty());
        }
    }
    assert(out@ =~= truncate_ansi(cs@, 0, max_width as int).0);
    if has_ansi {
        out.push('\x1b');
        out.push('[');
        out.push('0');
        out.push('m');
    }
    from_chars(&out)
}

// ---------------------------------------------------------------------------
// Wrapped text back to its styles
// ---------------------------------------------------------------------------

/// The characters of segments, each with its segment's style.
pub open spec fn styled_chars(segs: Seq<(Seq<char>, Style)>) -> Seq<(char, Style)>
    decreases segs.len(),
{
    if segs.len() == 0 {
        seq![]
    } else {
        styled_chars(segs.drop_last()) + segs.last().0.map_values(|c: char| (c, segs.last().1))
    }
}

/// The style for the next wrapped character `ch` at position `pos` of the
/// plain characters, and the position after it: a matching character is
/// consumed with its style; whitespace the wrapping replaced is skipped; a
/// character that matches nothing gets the plain style.
pub open spec fn next_style_from(p: Seq<(char, Style)>, pos: int, ch: char) -> (int, Style)
    decreases p.len() - pos,
{
    if pos < 0 || pos >= p.len() {
        (pos, plain_style())
    } else if p[pos].0 == ch {
        (pos + 1, p[pos].1)
    } else if is_ws(p[pos].0) {
        next_style_from(p, pos + 1, ch)
    } else {
        (pos, plain_style())
    }
}

/// Maps the characters of wrapped output back to the styled segments they
/// came from.
pub struct SegmentCharIter {
    plain_chars: Vec<(char, Style)>,
    pos: usize,
}

impl SegmentCharIter {
    /// The plain characters with their styles.
    pub closed spec fn chars(&self) -> Seq<(char, Style)> {
        self.plain_chars@
    }

    /// How many plain characters have been consumed.
    pub closed spec fn position(&self) -> int {
        self.pos as int
    }

    /// An iterator at the start of the segments' characters.
    pub fn new(segments: &[StyledSegment]) -> (it: Self)
        ensures
            it.chars() == styled_chars(segments@.map_values(|s: StyledSegment| (s.text@, s.style))),
            it.position() == 0,
    {
        let mut plain_chars: Vec<(char, Style)> = Vec::new();
        let mut k: usize = 0;
        while k < segments.len()
            invariant
                k <= segments@.len(),
                plain_chars@ == styled_chars(
                    segments@.take(k as int).map_values(|s: StyledSegment| (s.text@, s.style)),
                ),
            decreases segments.len() - k,
        {
            let seg = &segments[k];
            let cs = to_chars(seg.text.as_str());
            let ghost before = plain_chars@;
            let mut j: usize = 0;
            while j < cs.len()
                invariant
                    j <= cs@.len(),
                    cs@ == seg.text@,
                    plain_chars@ == before + cs@.take(j as int).map_values(|c: char| (c, seg.style)),
                decreases cs.len() - j,
            {
                plain_chars.push((cs[j], seg.style));
                j = j + 1;
                assert(plain_chars@ =~= before + cs@.take(j as int).map_values(|c: char| (c, seg.style)));
            }
            proof {
                let m = segments@.take(k + 1).map_values(|s: StyledSegment| (s.text@, s.style));
                assert(m.drop_last() =~= segments@.take(k as int).map_values(|s: StyledSegment| (s.text@, s.style)));
                assert(cs@.take(j as int) =~= cs@);
                assert(m.last() == (seg.text@, seg.style));
            }
            k = k + 1;
        }
        assert(segments@.take(k as int) =~= segments@);
        SegmentCharIter { plain_chars, pos: 0 }
    }

    /// The style of the next wrapped character, advancing past it.
    pub fn next_style(&mut self, wrapped_ch: char) -> (s: Style)
        ensures
            final(self).chars() == old(self).chars(),
            (final(self).position(), s) == next_style_from(old(self).chars(), old(self).position(), wrapped_ch),
    {
        let n = self.plain_chars.len();
        let ghost p = self.plain_chars@;
        let ghost start = self.pos as int;
        while self.pos < n
            invariant
                n == p.len(),
                self.plain_chars@ == p,
                p == old(self).plain_chars@,
                start == old(self).pos,
                next_style_from(p, start, wrapped_ch) == next_style_from(p, self.pos as int, wrapped_ch),
            decreases n - self.pos,
        {
            let (plain_ch, style) = self.plain_chars[self.pos];
            if plain_ch == wrapped_ch {
                self.pos = self.pos + 1;
                return style;
            }
            if char_is_ws(plain_ch) {
                self.pos = self.pos + 1;
            } else {
                return Style::plain();
            }
        }
        Style::plain()
    }
}

/// Inline images are not drawn in this build: the caller shows the text
/// placeholder instead.
pub fn render_inline_image(url: &str, protocol: ImageProtocol) -> (drawn: bool)
    ensures
        !drawn,
{
    false
}

// ---------------------------------------------------------------------------
// Pieces of the terminal layout
// ---------------------------------------------------------------------------

/// The styles of the stack merged in order over the plain style.
pub open spec fn stacked_style(stack: Seq<Style>) -> Style
    decreases stack.len(),
{
    if stack.len() == 0 {
        plain_style()
    } else {
        spec_merge(stacked_style(stack.drop_last()), stack.last())
    }
}

/// The style in effect: every style on the stack, later ones on top.
pub fn current_style(stack: &Vec<Style>) -> (s: Style)
    ensures
        s == stacked_style(stack@),
{
    let mut result = Style::plain();
    let mut i: usize = 0;
    while i < stack.len()
        invariant
            i <= stack@.len(),
            result == stacked_style(stack@.take(i as int)),
        decreases stack.len() - i,
    {
        assert(stack@.take(i + 1).drop_last() =~= stack@.take(i as int));
        result = result.merge(&stack[i]);
        i = i + 1;
    }
    assert(stack@.take(i as int) =~= stack@);
    result
}

/// The prefix of an indented line: a bar and a space per quote level
/// (levels after the first set off by a space), then two spaces per list
/// level.
pub open spec fn spec_indent_prefix(quote_depth: nat, list_level: nat, bar: char) -> Seq<char>
    decreases quote_depth,
{
    if quote_depth == 0 {
        Seq::new(2 * list_level, |_i: int| ' ')
    } else {
        quote_bars(quote_depth, bar) + Seq::new(2 * list_level, |_i: int| ' ')
    }
}

/// The quote bars for `n` levels.
pub open spec fn quote_bars(n: nat, bar: char) -> Seq<char>
    decreases n,
{
    if n == 0 {
        seq![]
    } else if n == 1 {
        seq![bar, ' ']
    } else {
        quote_bars((n - 1) as nat, bar) + seq![' ', bar, ' ']
    }
}

/// The quote bars alone (the prefix of a list marker line).
pub fn quote_prefix(quote_depth: usize, bar: char) -> (r: Vec<char>)
    ensures
        r@ == quote_bars(quote_depth as nat, bar),
{
    let mut r: Vec<char> = Vec::new();
    let mut i: usize = 0;
    while i < quote_depth
        invariant
            i <= quote_depth,
            r@ == quote_bars(i as nat, bar),
        decreases quote_depth - i,
    {
        if i > 0 {
            r.push(' ');
        }
        r.push(bar);
        r.push(' ');
        i = i + 1;
        assert(r@ =~= quote_bars(i as nat, bar));
    }
    r
}

/// The indentation prefix for the current quote depth and list level.
pub fn indent_prefix(quote_depth: usize, list_level: usize, bar: char) -> (r: String)
    requires
        list_level <= usize::MAX / 2,
    ensures
        r@ == spec_indent_prefix(quote_depth as nat, list_level as nat, bar),
{
    let mut r = quote_prefix(quote_depth, bar);
    let ghost q = r@;
    let n = list_level * 2;
    let mut i: usize = 0;
    while i < n
        invariant
            i <= n,
            r@ == q + Seq::new(i as nat, |_i: int| ' '),
        decreases n - i,
    {
        r.push(' ');
        i = i + 1;
        assert(r@ =~= q + Seq::new(i as nat, |_i: int| ' '));
    }
    assert(r@ =~= spec_indent_prefix(quote_depth as nat, list_level as nat, bar));
    from_chars(&r)
}

/// The width left for content after the indentation.
pub fn available_width(term_width: u16, indent: &str) -> (w: usize)
    ensures
        w == if (term_width as int) > spec_display_width(indent@) as int {
            term_width as int - spec_display_width(indent@) as int
        } else {
            0
        },
{
    (term_width as usize).saturating_sub(display_width(indent))
}

/// The bullet of a list nested `depth` levels deep: the three bullets
/// take turns.
pub open spec fn spec_bullet(chars: Chars, depth: nat) -> Seq<char> {
    if depth % 3 == 0 {
        chars.bullet_l0@
    } else if depth % 3 == 1 {
        chars.bullet_l1@
    } else {
        chars.bullet_l2@
    }
}

/// The bullet for a depth.
pub fn bullet_for_depth(chars: &Chars, depth: usize) -> (b: &'static str)
    ensures
        b@ == spec_bullet(*chars, depth as nat),
{
    match depth % 3 {
        0 => chars.bullet_l0,
        1 => chars.bullet_l1,
        _ => chars.bullet_l2,
    }
}

/// The marker of an ordered item: its number, a dot and a space.
pub fn ordered_marker(n: usize) -> (r: String)
    ensures
        r@ == crate::strs::decimal(n as nat) + seq!['.', ' '],
{
    let mut v: Vec<char> = Vec::new();
    crate::strs::push_decimal(&mut v, n as u64);
    v.push('.');
    v.push(' ');
    from_chars(&v)
}

/// A link's label already shows its destination (an autolink, or a
/// `mailto:` link labelled with the address).
pub open spec fn spec_is_autolink(label: Seq<char>, url: Seq<char>) -> bool {
    crate::strs::trim(label) == url || (crate::strs::starts_with(url, "mailto:"@) && crate::strs::trim(label)
        == url.skip(7))
}

/// Whether a link's destination need not be shown after its label.
pub fn is_autolink(label: &str, url: &str) -> (b: bool)
    ensures
        b == spec_is_autolink(label@, url@),
{
    let t = crate::strs::trimmed(&to_chars(label));
    let u = to_chars(url);
    if crate::strs::seq_eq(&t, &u) {
        return true;
    }
    let m = to_chars("mailto:");
    proof {
        reveal_strlit("mailto:");
    }
    if crate::strs::starts_with_at(&u, &m) {
        let rest = crate::strs::slice_of(&u, 7, u.len());
        assert(rest@ =~= u@.skip(7));
        return crate::strs::seq_eq(&t, &rest);
    }
    false
}

/// The width a link's destination may take: two thirds of the line, less
/// three for the brackets and space.
pub fn url_budget(available: usize) -> (w: usize)
    requires
        available <= usize::MAX / 2,
    ensures
        w == if available * 2 / 3 >= 3 { available * 2 / 3 - 3 } else { 0 },
{
    (available * 2 / 3).saturating_sub(3)
}

/// The text of inline HTML with its tags left out.
pub open spec fn strip_tags_from(s: Seq<char>, in_tag: bool) -> Seq<char>
    decreases s.len(),
{
    if s.len() == 0 {
        seq![]
    } else if s[0] == '<' {
        strip_tags_from(s.drop_first(), true)
    } else if s[0] == '>' {
        strip_tags_from(s.drop_first(), false)
    } else if !in_tag {
        seq![s[0]] + strip_tags_from(s.drop_first(), in_tag)
    } else {
        strip_tags_from(s.drop_first(), in_tag)
    }
}

/// What inline HTML shows in the terminal: everything outside `<...>`.
pub fn strip_tags(html: &str) -> (r: String)
    ensures
        r@ == strip_tags_from(html@, false),
{
    let cs = to_chars(html);
    let mut out: Vec<char> = Vec::new();
    let mut in_tag = false;
    let mut i: usize = 0;
    assert(cs@.skip(0) =~= cs@);
    assert(out@ + strip_tags_from(cs@, false) =~= strip_tags_from(cs@, false));
    while i < cs.len()
        invariant
            i <= cs@.len(),
            strip_tags_from(cs@, false) == out@ + strip_tags_from(cs@.skip(i as int), in_tag),
        decreases cs.len() - i,
    {
        let ghost rest = cs@.skip(i as int);
        assert(rest.drop_first() =~= cs@.skip(i + 1));
        assert(rest[0] == cs@[i as int]);
        let c = cs[i];
        if c == '<' {
            in_tag = true;
        } else if c == '>' {
            in_tag = false;
        } else if !in_tag {
            out.push(c);
            assert(strip_tags_from(cs@, false) == out@ + strip_tags_from(cs@.skip(i + 1), in_tag));
        }
        i = i + 1;
    }
    assert(cs@.skip(i as int) =~= Seq::<char>::empty());
    assert(cs@.skip(0) =~= cs@);
    from_chars(&out)
}

/// The title of an alert box.
pub open spec fn spec_alert_label(k: AlertKind) -> Seq<char> {
    match k {
        AlertKind::Note => "Note"@,
        AlertKind::Tip => "Tip"@,
        AlertKind::Important => "Important"@,
        AlertKind::Warning => "Warning"@,
        AlertKind::Caution => "Caution"@,
    }
}

/// The title an alert box shows.
pub fn alert_label(k: AlertKind) -> (s: &'static str)
    ensures
        s@ == spec_alert_label(k),
{
    match k {
        AlertKind::Note => "Note",
        AlertKind::Tip => "Tip",
        AlertKind::Important => "Important",
        AlertKind::Warning => "Warning",
        AlertKind::Caution => "Caution",
    }
}

/// The text of a heading as the terminal shows it: a level-1 heading in
/// capitals, and in plain mode `#` markers before it.
pub open spec fn spec_heading_display(text: Seq<char>, level: u8, plain: bool) -> Seq<char> {
    if plain {
        Seq::new(level as nat, |_i: int| '#') + seq![' '] + text
    } else if level == 1 {
        crate::terminal::spec_str_uppercase(text)
    } else {
        text
    }
}

/// The text a heading shows.
pub fn heading_display(text: &str, level: u8, plain: bool) -> (r: String)
    ensures
        r@ == spec_heading_display(text@, level, plain),
{
    if plain {
        let mut v: Vec<char> = Vec::new();
        let mut i: u8 = 0;
        while i < level
            invariant
                i <= level,
                v@ == Seq::new(i as nat, |_i: int| '#'),
            decreases level - i,
        {
            v.push('#');
            i = i + 1;
            assert(v@ =~= Seq::new(i as nat, |_i: int| '#'));
        }
        v.push(' ');
        crate::strs::extend_all(&mut v, &to_chars(text));
        from_chars(&v)
    } else if level == 1 {
        crate::terminal::str_uppercase(text)
    } else {
        text.to_string()
    }
}

/// Inline HTML shown in the terminal never contains an angle bracket.
pub proof fn lemma_strip_tags_no_brackets(s: Seq<char>, in_tag: bool)
    ensures
        !strip_tags_from(s, in_tag).contains('<'),
        !strip_tags_from(s, in_tag).contains('>'),
    decreases s.len(),
{
    if s.len() > 0 {
        let rest = s.drop_first();
        lemma_strip_tags_no_brackets(rest, true);
        lemma_strip_tags_no_brackets(rest, false);
        if s[0] != '<' && s[0] != '>' && !in_tag {
            let r = strip_tags_from(s, in_tag);
            let tail = strip_tags_from(rest, in_tag);
            assert(r == seq![s[0]] + tail);
            assert forall|i: int| 0 <= i < r.len() implies r[i] != '<' && r[i] != '>' by {
                if i > 0 {
                    assert(r[i] == tail[i - 1]);
                    assert(tail.contains(tail[i - 1]));
                }
            }
        }
    }
}

/// A link whose label is its destination is shown without the destination
/// repeated after it.
pub proof fn lemma_url_label_is_autolink(url: Seq<char>)
    requires
        crate::strs::trim(url) == url,
    ensures
        spec_is_autolink(url, url),
{
}

// ---------------------------------------------------------------------------
// Boxes around code and display math
// ---------------------------------------------------------------------------

/// `a - b`, or 0 when `b` is larger: what `usize::saturating_sub` gives.
pub open spec fn monus(a: int, b: int) -> int {
    if a >= b { a - b } else { 0 }
}

/// The label of a code box: the language with a space on each side, or
/// nothing for a block without one.
pub open spec fn code_label(lang: Seq<char>) -> Seq<char> {
    if lang.len() == 0 { seq![] } else { seq![' '] + lang + seq![' '] }
}

/// The top border of a code box `width` columns wide: the corner, one rule
/// character, the label, rule to fill the box, and the other corner. A label
/// too long for the box is cut so that the corner is still the last column.
pub open spec fn spec_code_box_top(c: Chars, lang: Seq<char>, width: int) -> Seq<char> {
    let label = code_label(lang);
    let remaining = monus(monus(width, 2), spec_display_width(label) as int);
    let top = c.code_tl@ + seq![c.code_h] + label + spaces_of(c.code_h, monus(remaining, 1) as nat);
    if spec_display_width(top) >= width {
        spec_truncate_ansi_str(top, monus(width, 1)) + c.code_tr@
    } else {
        top + spaces_of(c.code_h, monus(width, spec_display_width(top) + 1) as nat) + c.code_tr@
    }
}

/// The top border of a code box, labelled with the block's language.
pub fn code_box_top(c: &Chars, lang: &str, width: usize) -> (r: String)
    ensures
        r@ == spec_code_box_top(*c, lang@, width as int),
{
    let lc = to_chars(lang);
    let mut label: Vec<char> = Vec::new();
    if lc.len() > 0 {
        label.push(' ');
        extend_all(&mut label, &lc);
        label.push(' ');
    }
    assert(label@ =~= code_label(lang@));
    let label_s = from_chars(&label);
    let remaining = width.saturating_sub(2).saturating_sub(display_width(label_s.as_str()));
    let mut top: Vec<char> = to_chars(c.code_tl);
    top.push(c.code_h);
    extend_all(&mut top, &label);
    let fill = repeat_vec(c.code_h, remaining.saturating_sub(1));
    extend_all(&mut top, &fill);
    assert(top@ =~= c.code_tl@ + seq![c.code_h] + code_label(lang@)
        + spaces_of(c.code_h, monus(monus(monus(width as int, 2), spec_display_width(code_label(lang@)) as int), 1) as nat));
    let top_s = from_chars(&top);
    let tw = display_width(top_s.as_str());
    let mut out: Vec<char>;
    if tw >= width {
        let cut = truncate_ansi_str(top_s.as_str(), width.saturating_sub(1));
        out = to_chars(cut.as_str());
    } else {
        out = top;
        let pad = repeat_vec(c.code_h, width - tw - 1);
        extend_all(&mut out, &pad);
    }
    let tr = to_chars(c.code_tr);
    extend_all(&mut out, &tr);
    from_chars(&out)
}

/// A highlighted code line fitted to the inside of a box: padded with
/// spaces to `inner` columns, or cut one column short and ended with an
/// ellipsis, then padded.
pub open spec fn spec_fit_code_line(line: Seq<char>, inner: int) -> Seq<char> {
    let lw = spec_display_width(spec_strip_ansi(line)) as int;
    if lw <= inner {
        line + spaces_of(' ', (inner - lw) as nat)
    } else {
        let t = spec_truncate_ansi_str(line, monus(inner, 1));
        let tw = spec_display_width(spec_strip_ansi(t)) as int;
        t + seq!['\u{2026}'] + spaces_of(' ', monus(inner, tw + 1) as nat)
    }
}

/// Fit one highlighted code line to the inside of a box.
pub fn fit_code_line(line: &str, inner: usize) -> (r: String)
    ensures
        r@ == spec_fit_code_line(line@, inner as int),
{
    let lw = strip_ansi_width(line);
    let mut out: Vec<char>;
    if lw <= inner {
        out = to_chars(line);
        let pad = repeat_vec(' ', inner - lw);
        extend_all(&mut out, &pad);
    } else {
        let t = truncate_ansi_str(line, inner.saturating_sub(1));
        let tw = strip_ansi_width(t.as_str());
        out = to_chars(t.as_str());
        out.push('\u{2026}');
        let pad = repeat_vec(' ', inner.saturating_sub(tw).saturating_sub(1));
        extend_all(&mut out, &pad);
    }
    from_chars(&out)
}

/// The bottom border of a box `width` columns wide.
pub open spec fn spec_box_bottom(c: Chars, width: int) -> Seq<char> {
    c.code_bl@ + spaces_of(c.code_h, monus(width, 2) as nat) + c.code_br@
}

/// The bottom border of a code or math box.
pub fn box_bottom(c: &Chars, width: usize) -> (r: String)
    ensures
        r@ == spec_box_bottom(*c, width as int),
{
    let mut out: Vec<char> = to_chars(c.code_bl);
    let fill = repeat_vec(c.code_h, width.saturating_sub(2));
    extend_all(&mut out, &fill);
    let br = to_chars(c.code_br);
    extend_all(&mut out, &br);
    from_chars(&out)
}

/// The top border of a display-math box: the corner, one rule character,
/// ` math `, rule to fill the inside, and the other corner.
pub open spec fn spec_math_box_top(c: Chars, width: int) -> Seq<char> {
    c.code_tl@ + seq![c.code_h] + " math "@ + spaces_of(c.code_h, monus(monus(width, 2), 7) as nat) + c.code_tr@
}

/// The top border of a display-math box.
pub fn math_box_top(c: &Chars, width: usize) -> (r: String)
    ensures
        r@ == spec_math_box_top(*c, width as int),
{
    let mut out: Vec<char> = to_chars(c.code_tl);
    out.push(c.code_h);
    let label = to_chars(" math ");
    extend_all(&mut out, &label);
    let fill = repeat_vec(c.code_h, width.saturating_sub(2).saturating_sub(7));
    extend_all(&mut out, &fill);
    let tr = to_chars(c.code_tr);
    extend_all(&mut out, &tr);
    from_chars(&out)
}

// ---------------------------------------------------------------------------
// A paragraph, wrapped and styled
// ---------------------------------------------------------------------------

/// The styles of the characters of one wrapped line, continuing from
/// position `pos` of the plain characters, and the position after the line.
pub open spec fn style_line(p: Seq<(char, Style)>, pos: int, line: Seq<char>) -> (int, Seq<(char, Style)>)
    decreases line.len(),
{
    if line.len() == 0 {
        (pos, seq![])
    } else {
        let (q, front) = style_line(p, pos, line.drop_last());
        let (q2, st) = next_style_from(p, q, line.last());
        (q2, front.push((line.last(), st)))
    }
}

/// The styled characters of each wrapped line in turn, the position carried
/// from one line to the next.
pub open spec fn style_lines(p: Seq<(char, Style)>, pos: int, ls: Seq<Seq<char>>) -> (int, Seq<Seq<(char, Style)>>)
    decreases ls.len(),
{
    if ls.len() == 0 {
        (pos, seq![])
    } else {
        let (q, front) = style_lines(p, pos, ls.drop_last());
        let (q2, l) = style_line(p, q, ls.last());
        (q2, front.push(l))
    }
}

/// The paragraph text wrapped at `width` (a width of zero leaves it whole).
pub open spec fn wrapped_plain(plain: Seq<char>, width: usize) -> Seq<char> {
    if width == 0 { plain } else { spec_fill(plain, width) }
}

/// A paragraph of styled segments as the terminal shows it: the segments'
/// text joined and wrapped, split into lines, and each character of each
/// line given the style of the segment it came from.
pub open spec fn spec_paragraph_lines(segs: Seq<(Seq<char>, Style)>, width: usize) -> Seq<Seq<(char, Style)>> {
    let p = styled_chars(segs);
    let plain = p.map_values(|x: (char, Style)| x.0);
    style_lines(p, 0, lines(wrapped_plain(plain, width))).1
}

/// Wrap a paragraph of styled segments and style each character of it.
pub fn paragraph_lines(segments: &Vec<StyledSegment>, width: usize) -> (r: Vec<Vec<(char, Style)>>)
    ensures
        r@.len() == spec_paragraph_lines(segments@.map_values(|s: StyledSegment| (s.text@, s.style)), width).len(),
        forall|k: int| 0 <= k < r@.len() ==>
            #[trigger] r@[k]@ == spec_paragraph_lines(segments@.map_values(|s: StyledSegment| (s.text@, s.style)), width)[k],
{
    let ghost segs = segments@.map_values(|s: StyledSegment| (s.text@, s.style));
    let mut it = SegmentCharIter::new(segments.as_slice());
    let ghost p = it.chars();
    let mut plain: Vec<char> = Vec::new();
    let mut k: usize = 0;
    while k < segments.len()
        invariant
            k <= segments@.len(),
            segs == segments@.map_values(|s: StyledSegment| (s.text@, s.style)),
            plain@ == styled_chars(segs.take(k as int)).map_values(|x: (char, Style)| x.0),
        decreases segments.len() - k,
    {
        let t = to_chars(segments[k].text.as_str());
        let ghost before = plain@;
        extend_all(&mut plain, &t);
        proof {
            let m = segs.take(k + 1);
            assert(m.drop_last() =~= segs.take(k as int));
            assert(m.last() == (segments@[k as int].text@, segments@[k as int].style));
            let st = segments@[k as int].style;
            assert(t@.map_values(|c: char| (c, st)).map_values(|x: (char, Style)| x.0) =~= t@);
            assert(styled_chars(m).map_values(|x: (char, Style)| x.0) =~= before + t@);
        }
        k = k + 1;
    }
    assert(segs.take(k as int) =~= segs);
    let plain_s = from_chars(&plain);
    let wrapped = wrap_text(plain_s.as_str(), width);
    let wc = to_chars(wrapped.as_str());
    assert(wc@ == wrapped_plain(p.map_values(|x: (char, Style)| x.0), width));
    let ranges = line_ranges(&wc);
    let ghost ls = lines(wc@);
    let mut out: Vec<Vec<(char, Style)>> = Vec::new();
    let mut i: usize = 0;
    assert(ls.take(0) =~= Seq::<Seq<char>>::empty());
    while i < ranges.len()
        invariant
            i <= ranges@.len() == ls.len(),
            ls == lines(wc@),
            it.chars() == p,
            forall|q: int|
                0 <= q < ranges@.len() ==> {
                    &&& (#[trigger] ranges@[q]).0 <= ranges@[q].1 <= wc@.len()
                    &&& wc@.subrange(ranges@[q].0 as int, ranges@[q].1 as int) == ls[q]
                },
            it.position() == style_lines(p, 0, ls.take(i as int)).0,
            out@.len() == style_lines(p, 0, ls.take(i as int)).1.len(),
            forall|q: int| 0 <= q < out@.len() ==> #[trigger] out@[q]@ == style_lines(p, 0, ls.take(i as int)).1[q],
        decreases ranges.len() - i,
    {
        let (a, b) = ranges[i];
        let ghost line = ls[i as int];
        let ghost start = it.position();
        let mut line_out: Vec<(char, Style)> = Vec::new();
        let mut j: usize = a;
        assert(line.take(0) =~= Seq::<char>::empty());
        while j < b
            invariant
                a <= j <= b <= wc@.len(),
                line == wc@.subrange(a as int, b as int),
                it.chars() == p,
                (it.position(), line_out@) == style_line(p, start, line.take(j - a)),
            decreases b - j,
        {
            let c = wc[j];
            let st = it.next_style(c);
            line_out.push((c, st));
            proof {
                let t = line.take(j + 1 - a);
                assert(t.drop_last() =~= line.take(j - a));
                assert(t.last() == c);
            }
            j = j + 1;
        }
        assert(line.take(j - a) =~= line);
        proof {
            let t2 = ls.take(i + 1);
            assert(t2.drop_last() =~= ls.take(i as int));
            assert(t2.last() == line);
        }
        out.push(line_out);
        i = i + 1;
    }
    assert(ls.take(i as int) =~= ls);
    out
}

// ---------------------------------------------------------------------------
// Headings
// ---------------------------------------------------------------------------

/// The lines a heading is shown as: its display text wrapped at `width`.
pub open spec fn spec_heading_lines(text: Seq<char>, level: u8, plain: bool, width: usize) -> Seq<Seq<char>> {
    lines(wrapped_plain(spec_heading_display(text, level, plain), width))
}

/// The heading's display text, wrapped and split into lines.
pub fn heading_lines(text: &str, level: u8, plain: bool, width: usize) -> (r: Vec<String>)
    ensures
        r@.len() == spec_heading_lines(text@, level, plain, width).len(),
        forall|k: int| 0 <= k < r@.len() ==> #[trigger] r@[k]@ == spec_heading_lines(text@, level, plain, width)[k],
{
    let shown = heading_display(text, level, plain);
    let wrapped = wrap_text(shown.as_str(), width);
    let wc = to_chars(wrapped.as_str());
    let ranges = line_ranges(&wc);
    let ghost ls = lines(wc@);
    let mut out: Vec<String> = Vec::new();
    let mut i: usize = 0;
    while i < ranges.len()
        invariant
            i <= ranges@.len() == ls.len(),
            ls == lines(wc@),
            ls == spec_heading_lines(text@, level, plain, width),
            forall|q: int|
                0 <= q < ranges@.len() ==> {
                    &&& (#[trigger] ranges@[q]).0 <= ranges@[q].1 <= wc@.len()
                    &&& wc@.subrange(ranges@[q].0 as int, ranges@[q].1 as int) == ls[q]
                },
            out@.len() == i,
            forall|q: int| 0 <= q < i ==> #[trigger] out@[q]@ == ls[q],
        decreases ranges.len() - i,
    {
        let (a, b) = ranges[i];
        let piece = crate::strs::slice_of(&wc, a, b);
        out.push(from_chars(&piece));
        i = i + 1;
    }
    out
}

/// The rule under a heading: levels 1 and 2 get one across the width (in
/// their own rule characters); plain output and other levels get none.
pub fn heading_rule(c: &Chars, level: u8, plain: bool, width: usize) -> (r: Option<String>)
    ensures
        match r {
            Some(s) => !plain && (level == 1 || level == 2)
                && s@ == spaces_of(if level == 1 { c.h1_rule } else { c.h2_rule }, width as nat),
            None => plain || !(level == 1 || level == 2),
        },
{
    if plain || !(level == 1 || level == 2) {
        return None;
    }
    let ch = if level == 1 { c.h1_rule } else { c.h2_rule };
    let v = repeat_vec(ch, width);
    Some(from_chars(&v))
}

} // verus!



