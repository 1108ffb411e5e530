//! Text layout helpers: display width, truncation, padding, wrapping, and
//! fenced-code tracking.

use crate::strs::{extend_all, from_chars, skip_ws, slice_of, to_chars, trim_start};
use unicode_width::{UnicodeWidthChar, UnicodeWidthStr};
use vstd::prelude::*;

verus! {

// ---------------------------------------------------------------------------
// Display width (unicode-width)
// ---------------------------------------------------------------------------

/// The column width `unicode_width::UnicodeWidthStr::width` gives a string.
pub uninterp spec fn spec_display_width(s: Seq<char>) -> usize;

/// The column width `unicode_width::UnicodeWidthChar::width` gives a char
/// (`None` for a control character).
pub uninterp spec fn spec_char_width(c: char) -> Option<usize>;

/// Display width of a string in terminal columns.
///
/// Calls `UnicodeWidthStr::width`; the contract only names its result.
#[verifier::external_body]
pub fn display_width(s: &str) -> (w: usize)
    ensures
        w == spec_display_width(s@),
{
    UnicodeWidthStr::width(s)
}

/// Display width of one character.
///
/// Calls `UnicodeWidthChar::width`. As its source shows, control characters
/// (below U+0020 and U+007F..U+009F) have no width, printable ASCII is one
/// column, and no character is wider than three columns.
#[verifier::external_body]
pub(crate) fn char_width(c: char) -> (w: Option<usize>)
    ensures
        w == spec_char_width(c),
        w is None <==> ((c as u32) < 0x20 || (0x7f <= (c as u32) && (c as u32) < 0xa0)),
        (0x20 <= (c as u32) && (c as u32) < 0x7f) ==> w == Some(1usize),
        w matches Some(n) ==> n <= 3,
{
    UnicodeWidthChar::width(c)
}

/// Width of one character as `truncate_to_width` counts it (controls are 0).
pub open spec fn col_width(c: char) -> int {
    match spec_char_width(c) {
        Some(n) => n as int,
        None => 0,
    }
}

/// Number of leading characters of `s` whose widths fit in `budget` columns,
/// stopping at the first that does not fit.
pub open spec fn fit_count(s: Seq<char>, budget: int) -> int
    decreases s.len(),
{
    if s.len() == 0 || col_width(s[0]) > budget {
        0
    } else {
        1 + fit_count(s.drop_first(), budget - col_width(s[0]))
    }
}

/// What `truncate_to_width` returns: the text itself when it fits; else,
/// when there is room for it, the longest prefix that fits in one column
/// less followed by `…`; in a width below 4 the longest prefix that fits.
pub open spec fn spec_truncate(s: Seq<char>, max_width: int) -> Seq<char> {
    if spec_display_width(s) <= max_width {
        s
    } else if max_width < 4 {
        s.take(fit_count(s, max_width))
    } else {
        s.take(fit_count(s, max_width - 1)).push('\u{2026}')
    }
}

/// The columns of the characters of `s`, each counted as
/// `UnicodeWidthChar::width` gives it (controls as 0).
pub open spec fn char_cols(s: Seq<char>) -> int
    decreases s.len(),
{
    if s.len() == 0 {
        0
    } else {
        col_width(s[0]) + char_cols(s.drop_first())
    }
}

proof fn lemma_fit_count_bounds(s: Seq<char>, budget: int)
    ensures
        0 <= fit_count(s, budget) <= s.len(),
    decreases s.len(),
{
    if s.len() > 0 && col_width(s[0]) <= budget {
        lemma_fit_count_bounds(s.drop_first(), budget - col_width(s[0]));
    }
}

/// The prefix `fit_count` keeps takes no more than the budget.
pub proof fn lemma_fit_prefix_fits(s: Seq<char>, budget: int)
    requires
        budget >= 0,
    ensures
        char_cols(s.take(fit_count(s, budget))) <= budget,
    decreases s.len(),
{
    lemma_fit_count_bounds(s, budget);
    if s.len() == 0 || col_width(s[0]) > budget {
        assert(s.take(0) =~= Seq::<char>::empty());
    } else {
        let k = fit_count(s, budget);
        lemma_fit_count_bounds(s.drop_first(), budget - col_width(s[0]));
        assert(k == 1 + fit_count(s.drop_first(), budget - col_width(s[0])));
        assert(col_width(s[0]) >= 0);
        lemma_fit_prefix_fits(s.drop_first(), budget - col_width(s[0]));
        assert(s.take(k).drop_first() =~= s.drop_first().take(k - 1));
        assert(s.take(k)[0] == s[0]);
    }
}

/// The number of leading characters of `cs` that fit in `budget` columns.
fn fit_prefix(cs: &Vec<char>, budget: usize) -> (k: usize)
    ensures
        k == fit_count(cs@, budget as int),
{
    let mut w: usize = 0;
    let mut i: usize = 0;
    proof {
        lemma_fit_count_bounds(cs@, budget as int);
        assert(cs@.skip(0) =~= cs@);
    }
    while i < cs.len()
        invariant_except_break
            i <= cs@.len(),
            w <= budget,
            fit_count(cs@, budget as int) == i + fit_count(cs@.skip(i as int), budget - w),
        ensures
            i == fit_count(cs@, budget as int),
        decreases cs.len() - i,
    {
        let cw = match char_width(cs[i]) {
            Some(n) => n,
            None => 0,
        };
        let ghost rest = cs@.skip(i as int);
        assert(rest[0] == cs@[i as int]);
        if cw > budget - w {
            assert(fit_count(rest, budget - w) == 0);
            break;
        }
        assert(rest.drop_first() =~= cs@.skip(i + 1));
        w = w + cw;
        i = i + 1;
    }
    proof {
        if i == cs.len() {
            assert(cs@.skip(i as int).len() == 0);
        }
    }
    i
}

/// Truncate to fit within `max_width` display columns, appending `…`
/// (U+2026) if anything was cut and there is room for it. What is kept of
/// the text takes at most `max_width` columns (one less when `…` follows),
/// counted character by character.
pub fn truncate_to_width(s: &str, max_width: usize) -> (r: String)
    ensures
        r@ == spec_truncate(s@, max_width as int),
        spec_display_width(s@) > max_width ==> {
            if max_width < 4 {
                char_cols(r@) <= max_width
            } else {
                char_cols(r@.drop_last()) <= max_width - 1
            }
        },
{
    let width = display_width(s);
    if width <= max_width {
        return s.to_owned();
    }
    let cs = to_chars(s);
    if max_width < 4 {
        let k = fit_prefix(&cs, max_width);
        proof {
            lemma_fit_count_bounds(cs@, max_width as int);
            lemma_fit_prefix_fits(cs@, max_width as int);
        }
        let out = slice_of(&cs, 0, k);
        assert(cs@.subrange(0, k as int) =~= cs@.take(k as int));
        return from_chars(&out);
    }
    let limit = max_width - 1;
    let i = fit_prefix(&cs, limit);
    proof {
        lemma_fit_count_bounds(cs@, limit as int);
        lemma_fit_prefix_fits(cs@, limit as int);
    }
    let mut out = slice_of(&cs, 0, i);
    out.push('\u{2026}');
    assert(cs@.subrange(0, i as int) =~= cs@.take(i as int));
    assert(out@.drop_last() =~= cs@.take(i as int));
    from_chars(&out)
}

/// Truncate a URL to fit within `max_width` display columns.
pub fn truncate_url(url: &str, max_width: usize) -> (r: String)
    ensures
        r@ == spec_truncate(url@, max_width as int),
        spec_display_width(url@) > max_width ==> {
            if max_width < 4 {
                char_cols(r@) <= max_width
            } else {
                char_cols(r@.drop_last()) <= max_width - 1
            }
        },
{
    truncate_to_width(url, max_width)
}

// ---------------------------------------------------------------------------
// Padding and repetition
// ---------------------------------------------------------------------------

/// How a cell's text sits in its column.
#[derive(Debug, Clone, Copy, PartialEq, Eq, Structural)]
pub enum Alignment {
    Left,
    Center,
    Right,
}

/// `n` copies of `c`.
pub open spec fn spaces_of(c: char, n: nat) -> Seq<char> {
    Seq::new(n, |_i: int| c)
}

/// What `pad_to_width` returns.
pub open spec fn spec_pad(s: Seq<char>, width: int, align: Alignment) -> Seq<char> {
    let current = spec_display_width(s) as int;
    if current >= width {
        s
    } else {
        let padding = (width - current) as nat;
        match align {
            Alignment::Left => s + spaces_of(' ', padding),
            Alignment::Right => spaces_of(' ', padding) + s,
            Alignment::Center => {
                let left = padding / 2;
                spaces_of(' ', left) + s + spaces_of(' ', (padding - left) as nat)
            },
        }
    }
}

/// A vector holding `count` copies of `ch`.
pub fn repeat_vec(ch: char, count: usize) -> (r: Vec<char>)
    ensures
        r@ == spaces_of(ch, count as nat),
{
    let mut r: Vec<char> = Vec::new();
    let mut i: usize = 0;
    while i < count
        invariant
            i <= count,
            r@ == spaces_of(ch, i as nat),
        decreases count - i,
    {
        r.push(ch);
        i = i + 1;
        assert(r@ =~= spaces_of(ch, i as nat));
    }
    r
}

/// Repeat a character `count` times.
pub fn repeat_char(ch: char, count: usize) -> (r: String)
    ensures
        r@ == spaces_of(ch, count as nat),
{
    let v = repeat_vec(ch, count);
    from_chars(&v)
}

/// Pad a string to a given display width with spaces.
pub fn pad_to_width(s: &str, width: usize, align: Alignment) -> (r: String)
    ensures
        r@ == spec_pad(s@, width as int, align),
{
    let current = display_width(s);
    if current >= width {
        return s.to_owned();
    }
    let padding = width - current;
    let cs = to_chars(s);
    let mut out: Vec<char> = Vec::new();
    match align {
        Alignment::Left => {
            extend_all(&mut out, &cs);
            let pad = repeat_vec(' ', padding);
            extend_all(&mut out, &pad);
        },
        Alignment::Right => {
            let pad = repeat_vec(' ', padding);
            extend_all(&mut out, &pad);
            extend_all(&mut out, &cs);
        },
        Alignment::Center => {
            let left = padding / 2;
            let right = padding - left;
            let lp = repeat_vec(' ', left);
            let rp = repeat_vec(' ', right);
            extend_all(&mut out, &lp);
            extend_all(&mut out, &cs);
            extend_all(&mut out, &rp);
        },
    }
    assert(out@ =~= spec_pad(s@, width as int, align));
    from_chars(&out)
}

// ---------------------------------------------------------------------------
// Wrapping (textwrap)
// ---------------------------------------------------------------------------

/// What `textwrap::fill(text, width)` returns.
pub uninterp spec fn spec_fill(text: Seq<char>, width: usize) -> Seq<char>;

/// Calls `textwrap::fill`; the contract names its result.
#[verifier::external_body]
fn textwrap_fill(text: &str, width: usize) -> (r: String)
    requires
        width > 0,
    ensures
        r@ == spec_fill(text@, width),
{
    textwrap::fill(text, width)
}

/// The lines `textwrap::wrap(text, width)` returns.
pub uninterp spec fn spec_wrap(text: Seq<char>, width: usize) -> Seq<Seq<char>>;

/// Calls `textwrap::wrap` and copies out its lines; the contract names the
/// result.
#[verifier::external_body]
pub(crate) fn wrap_lines(text: &str, width: usize) -> (r: Vec<String>)
    requires
        width > 0,
    ensures
        r@.len() == spec_wrap(text@, width).len(),
        forall|i: int| 0 <= i < r@.len() ==> #[trigger] r@[i]@ == spec_wrap(text@, width)[i],
{
    textwrap::wrap(text, width).into_iter().map(|line| line.into_owned()).collect()
}

/// Wrap text to fit within the given width, preserving existing line
/// breaks; a width of zero leaves the text as it is.
pub fn wrap_text(text: &str, width: usize) -> (r: String)
    ensures
        width == 0 ==> r@ == text@,
        width > 0 ==> r@ == spec_fill(text@, width),
{
    if width == 0 {
        return text.to_owned();
    }
    textwrap_fill(text, width)
}

// ---------------------------------------------------------------------------
// Fenced code tracking
// ---------------------------------------------------------------------------

/// Number of leading copies of `c` in `s`.
pub open spec fn lead_run(s: Seq<char>, c: char) -> int
    decreases s.len(),
{
    if s.len() > 0 && s[0] == c {
        1 + lead_run(s.drop_first(), c)
    } else {
        0
    }
}

/// The fence state after seeing `line` in state `st`: a run of three or more
/// backticks or tildes opens a fence when none is open, and closes the open
/// one when it uses the same character and is at least as long.
pub open spec fn fence_step(st: Option<(char, int)>, line: Seq<char>) -> Option<(char, int)> {
    let t = trim_start(line);
    if t.len() > 0 && (t[0] == '`' || t[0] == '~') && lead_run(t, t[0]) >= 3 {
        let fc = t[0];
        let run = lead_run(t, fc);
        match st {
            Some((oc, ol)) => if oc == fc && run >= ol {
                None
            } else {
                st
            },
            None => Some((fc, run)),
        }
    } else {
        st
    }
}

/// The fence state after a sequence of lines, starting outside any fence.
pub open spec fn fence_after(ls: Seq<Seq<char>>) -> Option<(char, int)>
    decreases ls.len(),
{
    if ls.len() == 0 {
        None
    } else {
        fence_step(fence_after(ls.drop_last()), ls.last())
    }
}

proof fn lemma_lead_run_char(s: Seq<char>, c: char, k: int)
    requires
        0 <= k <= s.len(),
        forall|j: int| 0 <= j < k ==> #[trigger] s[j] == c,
        k < s.len() ==> s[k] != c,
    ensures
        lead_run(s, c) == k,
    decreases s.len(),
{
    if k > 0 {
        assert forall|j: int| 0 <= j < k - 1 implies #[trigger] s.drop_first()[j] == c by {
            assert(s.drop_first()[j] == s[j + 1]);
        }
        if k - 1 < s.drop_first().len() {
            assert(s.drop_first()[k - 1] == s[k]);
        }
        lemma_lead_run_char(s.drop_first(), c, k - 1);
    }
}

/// Length of the run of `c` starting at `s[lo]`, within `s[lo..]`.
pub fn run_at(s: &[char], lo: usize, c: char) -> (r: usize)
    requires
        lo <= s@.len(),
    ensures
        lo + r <= s@.len(),
        r == lead_run(s@.skip(lo as int), c),
{
    let mut i = lo;
    while i < s.len() && s[i] == c
        invariant
            lo <= i <= s@.len(),
            forall|j: int| lo <= j < i ==> s@[j] == c,
        decreases s.len() - i,
    {
        i = i + 1;
    }
    proof {
        let t = s@.skip(lo as int);
        assert forall|j: int| 0 <= j < i - lo implies #[trigger] t[j] == c by {
            assert(t[j] == s@[lo + j]);
        }
        if i < s.len() {
            assert(t[i - lo] == s@[i as int]);
        }
        lemma_lead_run_char(t, c, i - lo);
    }
    i - lo
}

/// One step of the fence state machine over `s[lo..hi]`.
pub fn fence_next(st: Option<(char, usize)>, s: &[char], lo: usize, hi: usize) -> (r: Option<
    (char, usize),
>)
    requires
        lo <= hi <= s@.len(),
    ensures
        opt_view(r) == fence_step(opt_view(st), s@.subrange(lo as int, hi as int)),
{
    let line = slice_of(s, lo, hi);
    let a = skip_ws(&line, 0, line.len());
    assert(line@.subrange(0, line@.len() as int) =~= line@);
    let ghost t = trim_start(line@);
    assert(t =~= line@.skip(a as int));
    if a < line.len() && (line[a] == '`' || line[a] == '~') {
        let fc = line[a];
        let run = run_at(&line, a, fc);
        assert(t[0] == fc);
        if run >= 3 {
            match st {
                Some((oc, ol)) => {
                    if oc == fc && run >= ol {
                        None
                    } else {
                        st
                    }
                },
                None => Some((fc, run)),
            }
        } else {
            st
        }
    } else {
        st
    }
}

/// A fence state with its run length as an integer.
pub open spec fn opt_view(st: Option<(char, usize)>) -> Option<(char, int)> {
    match st {
        Some((c, n)) => Some((c, n as int)),
        None => None,
    }
}

/// Tracks fenced-code-block state while scanning markdown line by line.
///
/// Feed every line in order and consult the return value before treating a
/// line as structural: a `---` or a `# heading` inside a fence is content.
#[derive(Debug)]
pub struct FenceTracker {
    fence: Option<(char, usize)>,
}

impl FenceTracker {
    /// The open fence (character and run length), if any.
    pub closed spec fn state(&self) -> Option<(char, int)> {
        opt_view(self.fence)
    }

    /// A tracker outside any fence.
    pub fn new() -> (r: Self)
        ensures
            r.state() is None,
    {
        FenceTracker { fence: None }
    }

    /// True while the scanner is inside a fenced code block.
    pub fn in_fence(&self) -> (b: bool)
        ensures
            b == self.state() is Some,
    {
        self.fence.is_some()
    }

    /// Feed the next line; returns whether the scanner is inside a fence
    /// afterwards. A closing fence must use the opening character and be at
    /// least as long; anything else is content.
    pub fn feed(&mut self, line: &str) -> (b: bool)
        ensures
            final(self).state() == fence_step(old(self).state(), line@),
            b == final(self).state() is Some,
    {
        let cs = to_chars(line);
        assert(cs@.subrange(0, cs@.len() as int) =~= cs@);
        self.fence = fence_next(self.fence, &cs, 0, cs.len());
        self.fence.is_some()
    }
}

} // verus!
