//! Splitting a markdown deck into slides.

use crate::frontmatter::{spec_strip, strip};
use crate::strs::{
    char_is_ws, char_utf8_len, extend_range, from_chars, is_ws, lead_ws, line_ranges, lines,
    skip_ws, to_chars, trim, trim_range, utf8_len, utf8_len_seq,
};
use crate::text::{fence_next, fence_step, opt_view};
use vstd::prelude::*;

verus! {

/// Number of copies of `c` in `s`.
pub open spec fn count_char(s: Seq<char>, c: char) -> nat
    decreases s.len(),
{
    if s.len() == 0 {
        0
    } else {
        count_char(s.drop_last(), c) + (if s.last() == c {
            1nat
        } else {
            0nat
        })
    }
}

/// A `---` slide separator: three or more dashes, optionally separated by
/// whitespace, with less than four bytes of indentation (four or more makes
/// an indented code block). `***` and `___` are deliberately not separators.
pub open spec fn spec_is_slide_break(line: Seq<char>) -> bool {
    &&& utf8_len_seq(line.take(lead_ws(line))) < 4
    &&& forall|j: int| 0 <= j < line.len() ==> line[j] == '-' || is_ws(#[trigger] line[j])
    &&& count_char(line, '-') >= 3
}

proof fn lemma_utf8_prefix_mono(s: Seq<char>, i: int, j: int)
    requires
        0 <= i <= j <= s.len(),
    ensures
        utf8_len_seq(s.take(i)) <= utf8_len_seq(s.take(j)),
    decreases j - i,
{
    if i < j {
        lemma_utf8_prefix_mono(s, i, j - 1);
        assert(s.take(j).drop_last() =~= s.take(j - 1));
    }
}

/// Whether `s[lo..hi]` is a slide separator.
fn slide_break_at(s: &[char], lo: usize, hi: usize) -> (b: bool)
    requires
        lo <= hi <= s@.len(),
    ensures
        b == spec_is_slide_break(s@.subrange(lo as int, hi as int)),
{
    let ghost line = s@.subrange(lo as int, hi as int);
    let a = skip_ws(s, lo, hi);
    let mut i = lo;
    let mut bytes: usize = 0;
    while i < a && bytes < 4
        invariant
            lo <= i <= a <= hi <= s@.len(),
            line == s@.subrange(lo as int, hi as int),
            bytes == utf8_len_seq(line.take(i - lo)),
        decreases a - i,
    {
        bytes = bytes + char_utf8_len(s[i]);
        i = i + 1;
        assert(line.take(i - lo).drop_last() =~= line.take(i - lo - 1));
    }
    proof {
        lemma_utf8_prefix_mono(line, i - lo, a - lo);
    }
    if bytes >= 4 {
        return false;
    }
    assert(i == a);
    let mut j = lo;
    let mut dashes: usize = 0;
    while j < hi
        invariant
            lo <= j <= hi <= s@.len(),
            line == s@.subrange(lo as int, hi as int),
            dashes == count_char(line.take(j - lo), '-'),
            dashes <= j - lo,
            forall|k: int| 0 <= k < j - lo ==> line[k] == '-' || is_ws(#[trigger] line[k]),
        decreases hi - j,
    {
        let c = s[j];
        if c != '-' && !char_is_ws(c) {
            assert(line[j - lo] == c);
            return false;
        }
        if c == '-' {
            dashes = dashes + 1;
        }
        j = j + 1;
        assert(line.take(j - lo).drop_last() =~= line.take(j - lo - 1));
    }
    assert(line.take(hi - lo) =~= line);
    dashes >= 3
}

/// True for a `---` slide separator: three or more dashes, optionally
/// separated by whitespace, indented by less than four bytes.
pub fn is_slide_break(line: &str) -> (b: bool)
    ensures
        b == spec_is_slide_break(line@),
{
    let cs = to_chars(line);
    assert(cs@.subrange(0, cs@.len() as int) =~= cs@);
    slide_break_at(&cs, 0, cs.len())
}

/// The slide scan state: finished slides, the current slide's text, the
/// fence state, and whether the previous line was blank.
pub type SlideScan = (Seq<Seq<char>>, Seq<char>, Option<(char, int)>, bool);

/// One line of the slide scan: a separator outside any fence, after a blank
/// line (a `---` under text is a setext underline), ends the current slide.
pub open spec fn slide_step(st: SlideScan, line: Seq<char>) -> SlideScan {
    let fence = fence_step(st.2, line);
    if fence is None && st.3 && spec_is_slide_break(line) {
        (st.0.push(st.1), seq![], fence, trim(line).len() == 0)
    } else {
        (st.0, st.1 + line + seq!['\n'], fence, trim(line).len() == 0)
    }
}

/// The slide scan after the lines `ls`; the start counts as a blank line.
pub open spec fn slide_scan(ls: Seq<Seq<char>>) -> SlideScan
    decreases ls.len(),
{
    if ls.len() == 0 {
        (seq![], seq![], None, true)
    } else {
        slide_step(slide_scan(ls.drop_last()), ls.last())
    }
}

/// The trimmed pieces that are not empty, in order.
pub open spec fn nonblank_trimmed(ss: Seq<Seq<char>>) -> Seq<Seq<char>>
    decreases ss.len(),
{
    if ss.len() == 0 {
        seq![]
    } else {
        nonblank_trimmed(ss.drop_last()) + (if trim(ss.last()).len() > 0 {
            seq![trim(ss.last())]
        } else {
            seq![]
        })
    }
}

/// What `split_slides` returns: the document without front matter, cut at
/// separators, each slide trimmed, empty slides dropped.
pub open spec fn spec_split_slides(content: Seq<char>) -> Seq<Seq<char>> {
    let st = slide_scan(lines(spec_strip(content)));
    nonblank_trimmed(st.0.push(st.1))
}

/// Split a document into slides on top-level `---` separators, skipping
/// front matter, fenced code and setext underlines.
pub fn split_slides(content: &str) -> (r: Vec<String>)
    ensures
        r@.len() == spec_split_slides(content@).len(),
        forall|k: int|
            0 <= k < r@.len() ==> (#[trigger] r@[k])@ == spec_split_slides(content@)[k],
{
    let body = strip(content);
    let cs = to_chars(body.as_str());
    let ranges = line_ranges(&cs);
    let ghost ls = lines(cs@);
    let mut slides: Vec<Vec<char>> = Vec::new();
    let mut current: Vec<char> = Vec::new();
    let mut fence: Option<(char, usize)> = None;
    let mut prev_blank = true;
    let mut k: usize = 0;
    while k < ranges.len()
        invariant
            k <= ranges@.len() == ls.len(),
            ls == lines(cs@),
            forall|i: int|
                0 <= i < ranges@.len() ==> {
                    &&& (#[trigger] ranges@[i]).0 <= ranges@[i].1 <= cs@.len()
                    &&& cs@.subrange(ranges@[i].0 as int, ranges@[i].1 as int) == ls[i]
                },
            ({
                let st = slide_scan(ls.take(k as int));
                &&& slides@.len() == st.0.len()
                &&& forall|i: int| 0 <= i < slides@.len() ==> (#[trigger] slides@[i])@ == st.0[i]
                &&& current@ == st.1
                &&& opt_view(fence) == st.2
                &&& prev_blank == st.3
            }),
        decreases ranges.len() - k,
    {
        let (lo, hi) = ranges[k];
        let ghost line = ls[k as int];
        let ghost st = slide_scan(ls.take(k as int));
        assert(ls.take(k + 1).drop_last() =~= ls.take(k as int));
        fence = fence_next(fence, &cs, lo, hi);
        if fence.is_none() && prev_blank && slide_break_at(&cs, lo, hi) {
            let done = current;
            slides.push(done);
            current = Vec::new();
        } else {
            extend_range(&mut current, &cs, lo, hi);
            current.push('\n');
        }
        let (a, b) = trim_range(&cs, lo, hi);
        prev_blank = a == b;
        proof {
            assert(slide_scan(ls.take(k + 1)) == slide_step(st, line));
        }
        k = k + 1;
    }
    assert(ls.take(k as int) =~= ls);
    slides.push(current);
    let ghost all = slides@;
    let mut out: Vec<String> = Vec::new();
    let mut i: usize = 0;
    while i < slides.len()
        invariant
            i <= slides@.len(),
            forall|j: int| 0 <= j < out@.len() ==> (#[trigger] out@[j])@ == nonblank_trimmed(
                slides@.take(i as int).map_values(|v: Vec<char>| v@),
            )[j],
            out@.len() == nonblank_trimmed(slides@.take(i as int).map_values(|v: Vec<char>| v@)).len(),
        decreases slides.len() - i,
    {
        let (a, b) = trim_range(&slides[i], 0, slides[i].len());
        proof {
            assert(slides@[i as int]@.subrange(0, slides@[i as int]@.len() as int) =~= slides@[i as int]@);
            let pre = slides@.take(i as int).map_values(|v: Vec<char>| v@);
            let nxt = slides@.take(i + 1).map_values(|v: Vec<char>| v@);
            assert(nxt.drop_last() =~= pre);
            assert(nxt.last() == slides@[i as int]@);
        }
        if a < b {
            let t = crate::strs::slice_of(&slides[i], a, b);
            out.push(from_chars(&t));
        }
        i = i + 1;
    }
    proof {
        let st = slide_scan(ls);
        assert(slides@.take(i as int) =~= slides@);
        assert(slides@.map_values(|v: Vec<char>| v@) =~= st.0.push(st.1));
    }
    out
}

/// Every slide is trimmed and not empty.
pub proof fn lemma_slides_trimmed(content: Seq<char>)
    ensures
        forall|k: int|
            0 <= k < spec_split_slides(content).len() ==> {
                &&& (#[trigger] spec_split_slides(content)[k]).len() > 0
                &&& trim(spec_split_slides(content)[k]) == spec_split_slides(content)[k]
            },
{
    let st = slide_scan(lines(spec_strip(content)));
    lemma_nonblank_trimmed(st.0.push(st.1));
}

proof fn lemma_nonblank_trimmed(ss: Seq<Seq<char>>)
    ensures
        forall|k: int|
            0 <= k < nonblank_trimmed(ss).len() ==> {
                &&& (#[trigger] nonblank_trimmed(ss)[k]).len() > 0
                &&& trim(nonblank_trimmed(ss)[k]) == nonblank_trimmed(ss)[k]
            },
    decreases ss.len(),
{
    if ss.len() > 0 {
        let pre = nonblank_trimmed(ss.drop_last());
        let r = nonblank_trimmed(ss);
        lemma_nonblank_trimmed(ss.drop_last());
        crate::strs::lemma_trim_idempotent(ss.last());
        assert forall|k: int| 0 <= k < r.len() implies (#[trigger] r[k]).len() > 0 && trim(r[k])
            == r[k] by {
            if k < pre.len() {
                assert(r[k] == pre[k]);
            } else {
                assert(r[k] == trim(ss.last()));
            }
        }
    }
}

} // verus!
