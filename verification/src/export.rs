//! Pure helpers of the export pipeline: output paths, chapter splitting,
//! XHTML framing, attribute extraction and code-line wrapping.

use crate::json::json_body;
use crate::json::push_json_quoted;
use crate::strs::{
    extend_all, extend_range, extend_str, find_char_from, find_char_in, find_from, find_seq_from,
    from_chars, is_first_char, is_first_match, lemma_first_char_none, lemma_first_char_unique, lemma_last_char_none,
    lemma_last_char_unique, lines, line_ranges, lower_chars, lower_seq, replace_all,
    replace_all_vec, rfind_char, rfind_char_in, eq_lit, slice_of, to_chars, trim, trim_range,
};
use crate::text::{fence_next, fence_step, opt_view};
use vstd::prelude::*;

verus! {

// ---------------------------------------------------------------------------
// Output paths
// ---------------------------------------------------------------------------

/// End of the final path component once trailing `/` and `/.` are dropped.
pub open spec fn name_end(s: Seq<char>) -> int
    decreases s.len(),
{
    if s.len() > 0 && s.last() == '/' {
        name_end(s.drop_last())
    } else if s.len() >= 2 && s.last() == '.' && s[s.len() - 2] == '/' {
        name_end(s.drop_last())
    } else {
        s.len() as int
    }
}

/// Start of the final path component ending at `end`.
pub open spec fn name_start(s: Seq<char>, end: int) -> int {
    match rfind_char(s.take(end), '/') {
        Some(i) => i + 1,
        None => 0,
    }
}

/// Whether a final component is a file name (not empty, `.` or `..`).
pub open spec fn is_file_name(name: Seq<char>) -> bool {
    name.len() > 0 && name != seq!['.'] && name != seq!['.', '.']
}

/// Where the file stem of path `s` ends, if the path has a file name: before
/// the last `.` of the name, unless that dot starts the name.
pub open spec fn stem_end(s: Seq<char>) -> Option<int> {
    let e = name_end(s);
    let b = name_start(s, e);
    let name = s.subrange(b, e);
    if !is_file_name(name) {
        None
    } else {
        match rfind_char(name, '.') {
            Some(d) => if d > 0 {
                Some(b + d)
            } else {
                Some(e)
            },
            None => Some(e),
        }
    }
}

/// `Path::with_extension` on a path written with `/` separators.
pub open spec fn with_extension(s: Seq<char>, ext: Seq<char>) -> Seq<char> {
    match stem_end(s) {
        Some(k) => s.take(k) + (if ext.len() > 0 {
            seq!['.'] + ext
        } else {
            seq![]
        }),
        None => s,
    }
}

/// What `default_output_path` returns.
pub open spec fn spec_default_output_path(file: Option<Seq<char>>, ext: Seq<char>) -> Seq<char> {
    match file {
        Some(f) => with_extension(f, ext),
        None => seq!['o', 'u', 't', 'p', 'u', 't', '.'] + ext,
    }
}

proof fn lemma_name_end_bound(s: Seq<char>)
    ensures
        0 <= name_end(s) <= s.len(),
    decreases s.len(),
{
    if s.len() > 0 {
        lemma_name_end_bound(s.drop_last());
    }
}

pub fn name_end_of(cs: &[char]) -> (e: usize)
    ensures
        e == name_end(cs@),
        e <= cs@.len(),
{
    let mut e = cs.len();
    assert(cs@.take(e as int) =~= cs@);
    loop
        invariant
            e <= cs@.len(),
            name_end(cs@) == name_end(cs@.take(e as int)),
        decreases e,
    {
        let ghost t = cs@.take(e as int);
        if e > 0 && cs[e - 1] == '/' {
            assert(t.drop_last() =~= cs@.take(e - 1));
            e = e - 1;
        } else if e >= 2 && cs[e - 1] == '.' && cs[e - 2] == '/' {
            assert(t.drop_last() =~= cs@.take(e - 1));
            e = e - 1;
        } else {
            return e;
        }
    }
}

/// Derive an output path from the input by swapping its extension, as
/// `Path::with_extension` does: only the last extension of the file name
/// changes, and directories are left alone. Without an input the path is
/// `output.<ext>`.
pub fn default_output_path(file: Option<&str>, ext: &str) -> (r: String)
    requires
        forall|j: int| 0 <= j < ext@.len() ==> ext@[j] != '/',
    ensures
        r@ == spec_default_output_path(
            match file {
                Some(f) => Some(f@),
                None => None,
            },
            ext@,
        ),
{
    match file {
        None => {
            let mut out = to_chars("output.");
            proof {
                reveal_strlit("output.");
            }
            extend_str(&mut out, ext);
            from_chars(&out)
        },
        Some(f) => {
            let cs = to_chars(f);
            let e = name_end_of(&cs);
            let head = slice_of(&cs, 0, e);
            assert(head@ =~= cs@.take(e as int));
            let b = match rfind_char_in(&head, '/') {
                Some(i) => i + 1,
                None => 0,
            };
            let name = slice_of(&cs, b, e);
            let is_name = name.len() > 0 && !(name.len() == 1 && name[0] == '.') && !(name.len()
                == 2 && name[0] == '.' && name[1] == '.');
            proof {
                if name@ == seq!['.'] {
                    assert(name@[0] == '.');
                }
                if name@ == seq!['.', '.'] {
                    assert(name@[0] == '.' && name@[1] == '.');
                }
                if name.len() == 1 && name[0] == '.' {
                    assert(name@ =~= seq!['.']);
                }
                if name.len() == 2 && name[0] == '.' && name[1] == '.' {
                    assert(name@ =~= seq!['.', '.']);
                }
            }
            if !is_name {
                return from_chars(&cs);
            }
            let k = match rfind_char_in(&name, '.') {
                Some(d) => if d > 0 {
                    b + d
                } else {
                    e
                },
                None => e,
            };
            let mut out = slice_of(&cs, 0, k);
            assert(out@ =~= cs@.take(k as int));
            let ev = to_chars(ext);
            if ev.len() > 0 {
                out.push('.');
                extend_all(&mut out, &ev);
            }
            from_chars(&out)
        },
    }
}

// ---------------------------------------------------------------------------
// Code-line wrapping
// ---------------------------------------------------------------------------

/// Consecutive pieces of `m` characters, the last possibly shorter.
pub open spec fn chunks(s: Seq<char>, m: nat) -> Seq<Seq<char>>
    decreases s.len(),
{
    if m == 0 || s.len() <= m {
        seq![s]
    } else {
        seq![s.take(m as int)] + chunks(s.skip(m as int), m)
    }
}

/// What `wrap_code_line` returns: the line itself when it fits (or when no
/// width is set), otherwise hard pieces of `max_chars` characters.
pub open spec fn spec_wrap_code_line(s: Seq<char>, max_chars: nat) -> Seq<Seq<char>> {
    chunks(s, max_chars)
}

/// Wrap a code line by hard breaks so no character is lost: pieces of at most
/// `max_chars` characters (counted as characters, not bytes).
pub fn wrap_code_line(line: &str, max_chars: usize) -> (r: Vec<String>)
    ensures
        r@.len() == spec_wrap_code_line(line@, max_chars as nat).len(),
        forall|k: int|
            0 <= k < r@.len() ==> (#[trigger] r@[k])@ == spec_wrap_code_line(line@, max_chars as nat)[k],
{
    let cs = to_chars(line);
    let ghost all = chunks(cs@, max_chars as nat);
    let mut out: Vec<String> = Vec::new();
    if max_chars == 0 || cs.len() <= max_chars {
        out.push(from_chars(&cs));
        return out;
    }
    let mut pos: usize = 0;
    assert(cs@.skip(0) =~= cs@);
    while pos < cs.len()
        invariant
            0 < max_chars,
            pos <= cs@.len(),
            all == chunks(cs@, max_chars as nat),
            pos < cs@.len() ==> out@.len() + chunks(cs@.skip(pos as int), max_chars as nat).len()
                == all.len(),
            pos < cs@.len() ==> forall|k: int|
                0 <= k < chunks(cs@.skip(pos as int), max_chars as nat).len() ==> all[out@.len()
                    + k] == #[trigger] chunks(cs@.skip(pos as int), max_chars as nat)[k],
            pos == cs@.len() ==> out@.len() == all.len(),
            out@.len() <= all.len(),
            forall|k: int| 0 <= k < out@.len() ==> (#[trigger] out@[k])@ == all[k],
        decreases cs.len() - pos,
    {
        let ghost rest = cs@.skip(pos as int);
        let end = if cs.len() - pos > max_chars {
            pos + max_chars
        } else {
            cs.len()
        };
        let piece = slice_of(&cs, pos, end);
        proof {
            if cs.len() - pos > max_chars {
                assert(piece@ =~= rest.take(max_chars as int));
                assert(rest.skip(max_chars as int) =~= cs@.skip(end as int));
                assert(all[out@.len() as int] == chunks(rest, max_chars as nat)[0]);
                assert forall|k: int|
                    0 <= k < chunks(cs@.skip(end as int), max_chars as nat).len() implies all[out@.len()
                    + 1 + k] == #[trigger] chunks(cs@.skip(end as int), max_chars as nat)[k] by {
                    assert(chunks(rest, max_chars as nat)[k + 1] == chunks(
                        cs@.skip(end as int),
                        max_chars as nat,
                    )[k]);
                }
            } else {
                assert(piece@ =~= rest);
                assert(all[out@.len() as int] == chunks(rest, max_chars as nat)[0]);
            }
        }
        out.push(from_chars(&piece));
        pos = end;
    }
    out
}

/// Wrapping a code line loses no character: the pieces concatenate back to
/// the line.
pub proof fn lemma_wrap_code_line_lossless(s: Seq<char>, max_chars: nat)
    ensures
        spec_wrap_code_line(s, max_chars).flatten() == s,
    decreases s.len(),
{
    if max_chars == 0 || s.len() <= max_chars {
        assert(seq![s].drop_first() =~= Seq::<Seq<char>>::empty());
        assert(seq![s].flatten() =~= s + Seq::<Seq<char>>::empty().flatten());
    } else {
        lemma_wrap_code_line_lossless(s.skip(max_chars as int), max_chars);
        let c = chunks(s, max_chars);
        assert(c.drop_first() =~= chunks(s.skip(max_chars as int), max_chars));
        assert(s =~= s.take(max_chars as int) + s.skip(max_chars as int));
    }
}

/// With a width set, every piece fits in it, and a non-empty line yields
/// only non-empty pieces, `ceil(len / max_chars)` of them.
pub proof fn lemma_wrap_code_line_bounded(s: Seq<char>, max_chars: nat)
    requires
        max_chars > 0,
    ensures
        forall|k: int|
            0 <= k < spec_wrap_code_line(s, max_chars).len() ==> (#[trigger] spec_wrap_code_line(
                s,
                max_chars,
            )[k]).len() <= max_chars,
        s.len() > 0 ==> spec_wrap_code_line(s, max_chars).len() == (s.len() + max_chars - 1)
            / max_chars as int,
        s.len() > 0 ==> forall|k: int|
            0 <= k < spec_wrap_code_line(s, max_chars).len() ==> (#[trigger] spec_wrap_code_line(
                s,
                max_chars,
            )[k]).len() > 0,
    decreases s.len(),
{
    let m = max_chars as int;
    let n = s.len() as int;
    if s.len() <= max_chars {
        if n > 0 {
            assert((n + m - 1) / m == 1) by (nonlinear_arith)
                requires
                    0 < n <= m,
            ;
        }
    } else {
        let t = s.skip(m);
        lemma_wrap_code_line_bounded(t, max_chars);
        let c = chunks(s, max_chars);
        assert forall|k: int| 1 <= k < c.len() implies #[trigger] c[k] == chunks(t, max_chars)[k
            - 1] by {}
        assert((n + m - 1) / m == (n - m + m - 1) / m + 1) by (nonlinear_arith)
            requires
                0 < m < n,
        ;
    }
}

// ---------------------------------------------------------------------------
// XHTML helpers
// ---------------------------------------------------------------------------

/// The value of `attr_name="..."` in an HTML tag: the text between the first
/// `attr_name="` and the next `"`.
pub open spec fn spec_extract_attr(tag: Seq<char>, attr_name: Seq<char>) -> Option<Seq<char>> {
    let p = attr_name + seq!['=', '"'];
    match find_from(tag, p, 0) {
        Some(i) => match find_char_from(tag, '"', i + p.len()) {
            Some(e) => Some(tag.subrange(i + p.len(), e)),
            None => None,
        },
        None => None,
    }
}

/// Extract an attribute's quoted value from an HTML tag.
pub fn extract_attr(tag: &str, attr_name: &str) -> (r: Option<String>)
    ensures
        match r {
            Some(v) => spec_extract_attr(tag@, attr_name@) == Some(v@),
            None => spec_extract_attr(tag@, attr_name@) is None,
        },
{
    let t = to_chars(tag);
    let mut p = to_chars(attr_name);
    p.push('=');
    p.push('"');
    assert(p@ =~= attr_name@ + seq!['=', '"']);
    match find_seq_from(&t, &p, 0) {
        Some(i) => {
            assert(is_first_match(t@, p@, 0, i as int));
            assert(i + p@.len() <= t@.len());
            let tl = t.len();
            let vs = i + p.len();
            match find_char_in(&t, '"', vs) {
                Some(e) => {
                    let v = slice_of(&t, vs, e);
                    Some(from_chars(&v))
                },
                None => None,
            }
        },
        None => None,
    }
}

/// The part of `path` after its last `.` (all of it without a dot).
pub open spec fn ext_of(path: Seq<char>) -> Seq<char> {
    match rfind_char(path, '.') {
        Some(i) => path.skip(i + 1),
        None => path,
    }
}

/// The MIME type for a file extension, compared without regard to case.
pub open spec fn spec_mime_from_ext(path: Seq<char>) -> Seq<char> {
    let e = lower_seq(ext_of(path));
    if e == "png"@ {
        "image/png"@
    } else if e == "jpg"@ || e == "jpeg"@ {
        "image/jpeg"@
    } else if e == "gif"@ {
        "image/gif"@
    } else if e == "svg"@ {
        "image/svg+xml"@
    } else if e == "webp"@ {
        "image/webp"@
    } else {
        "application/octet-stream"@
    }
}

/// The MIME type of an image path, from its extension.
pub fn mime_from_ext(path: &str) -> (r: String)
    ensures
        r@ == spec_mime_from_ext(path@),
{
    let cs = to_chars(path);
    let n = cs.len();
    let ext = match rfind_char_in(&cs, '.') {
        Some(i) => slice_of(&cs, i + 1, n),
        None => cs,
    };
    assert(ext@ =~= ext_of(path@));
    let e = lower_chars(&ext);
    if eq_lit(&e, "png") {
        "image/png".to_string()
    } else if eq_lit(&e, "jpg") || eq_lit(&e, "jpeg") {
        "image/jpeg".to_string()
    } else if eq_lit(&e, "gif") {
        "image/gif".to_string()
    } else if eq_lit(&e, "svg") {
        "image/svg+xml".to_string()
    } else if eq_lit(&e, "webp") {
        "image/webp".to_string()
    } else {
        "application/octet-stream".to_string()
    }
}

/// What `html_to_xhtml` returns: void `<br>` and `<hr>` tags self-closed.
pub open spec fn spec_html_to_xhtml(html: Seq<char>) -> Seq<char> {
    replace_all(replace_all(html, "<br>"@, "<br />"@), "<hr>"@, "<hr />"@)
}

/// Make the void tags that comrak writes well-formed XHTML.
pub fn html_to_xhtml(html: &str) -> (r: String)
    ensures
        r@ == spec_html_to_xhtml(html@),
{
    proof {
        reveal_strlit("<br>");
        reveal_strlit("<hr>");
    }
    let cs = to_chars(html);
    let br = to_chars("<br>");
    let br2 = to_chars("<br />");
    let hr = to_chars("<hr>");
    let hr2 = to_chars("<hr />");
    let a = replace_all_vec(&cs, &br, &br2);
    let b = replace_all_vec(&a, &hr, &hr2);
    from_chars(&b)
}

/// What `wrap_xhtml` returns: the chapter skeleton around a title and body.
pub open spec fn spec_wrap_xhtml(title: Seq<char>, body: Seq<char>) -> Seq<char> {
    "<?xml version=\"1.0\" encoding=\"UTF-8\"?>\n<html xmlns=\"http://www.w3.org/1999/xhtml\">\n<head>\n    <title>"@
        + title
        + "</title>\n    <link rel=\"stylesheet\" type=\"text/css\" href=\"stylesheet.css\" />\n</head>\n<body>\n"@
        + body + "\n</body>\n</html>"@
}

/// Wrap an XHTML body fragment in the document skeleton every chapter needs.
pub fn wrap_xhtml(title: &str, body: &str) -> (r: String)
    ensures
        r@ == spec_wrap_xhtml(title@, body@),
{
    let mut out: Vec<char> = Vec::new();
    extend_str(
        &mut out,
        "<?xml version=\"1.0\" encoding=\"UTF-8\"?>\n<html xmlns=\"http://www.w3.org/1999/xhtml\">\n<head>\n    <title>",
    );
    extend_str(&mut out, title);
    extend_str(
        &mut out,
        "</title>\n    <link rel=\"stylesheet\" type=\"text/css\" href=\"stylesheet.css\" />\n</head>\n<body>\n",
    );
    extend_str(&mut out, body);
    extend_str(&mut out, "\n</body>\n</html>");
    from_chars(&out)
}


// ---------------------------------------------------------------------------
// Chapters
// ---------------------------------------------------------------------------

/// The scan state while splitting chapters: finished `(title, markdown)`
/// chapters, the text of the current one, its title, and the fence state.
pub type ChapterScan = (Seq<(Seq<char>, Seq<char>)>, Seq<char>, Option<Seq<char>>, Option<(char, int)>);

/// The heading title of `line` at `depth` (`#` repeated `depth` times and a
/// space), when the rest of the line is not blank.
pub open spec fn heading_title(line: Seq<char>, depth: nat) -> Option<Seq<char>> {
    if line.len() > depth && (forall|j: int| 0 <= j < depth ==> line[j] == '#') && line[depth as int]
        == ' ' && trim(line.skip(depth + 1int)).len() > 0 {
        Some(trim(line.skip(depth + 1int)))
    } else {
        None
    }
}

/// Whether a chapter in progress is worth keeping: it has a title or text.
pub open spec fn chapter_pending(title: Option<Seq<char>>, current: Seq<char>) -> bool {
    title is Some || trim(current).len() > 0
}

/// The title of a finished chapter (empty when it had none).
pub open spec fn title_or_empty(title: Option<Seq<char>>) -> Seq<char> {
    match title {
        Some(t) => t,
        None => seq![],
    }
}

/// One line of the chapter scan.
pub open spec fn chapter_step(st: ChapterScan, line: Seq<char>, depth: nat) -> ChapterScan {
    let fence = fence_step(st.3, line);
    match heading_title(line, depth) {
        Some(t) => if fence is None {
            if chapter_pending(st.2, st.1) {
                (st.0.push((title_or_empty(st.2), st.1)), line + seq!['\n'], Some(t), fence)
            } else {
                (st.0, st.1 + line + seq!['\n'], Some(t), fence)
            }
        } else {
            (st.0, st.1 + line + seq!['\n'], st.2, fence)
        },
        None => (st.0, st.1 + line + seq!['\n'], st.2, fence),
    }
}

/// The scan state after the lines `ls`.
pub open spec fn chapter_scan(ls: Seq<Seq<char>>, depth: nat) -> ChapterScan
    decreases ls.len(),
{
    if ls.len() == 0 {
        (seq![], seq![], None, None)
    } else {
        chapter_step(chapter_scan(ls.drop_last(), depth), ls.last(), depth)
    }
}

/// The chapters found splitting `md` at headings of `depth`.
pub open spec fn chapters_at(md: Seq<char>, depth: nat) -> Seq<(Seq<char>, Seq<char>)> {
    let st = chapter_scan(lines(md), depth);
    if chapter_pending(st.2, st.1) {
        st.0.push((title_or_empty(st.2), st.1))
    } else {
        st.0
    }
}

/// What `split_chapters` returns: chapters at `#` headings if that gives more
/// than one, else at `##` headings if that does, else the whole document as
/// one untitled chapter.
pub open spec fn spec_split_chapters(md: Seq<char>) -> Seq<(Seq<char>, Seq<char>)> {
    if chapters_at(md, 1).len() > 1 {
        chapters_at(md, 1)
    } else if chapters_at(md, 2).len() > 1 {
        chapters_at(md, 2)
    } else {
        seq![(seq![], md)]
    }
}

/// The markdown of a list of chapters, concatenated.
pub open spec fn chapter_text(chs: Seq<(Seq<char>, Seq<char>)>) -> Seq<char>
    decreases chs.len(),
{
    if chs.len() == 0 {
        seq![]
    } else {
        chapter_text(chs.drop_last()) + chs.last().1
    }
}

/// The lines of a document, each followed by a newline.
pub open spec fn joined_lines(ls: Seq<Seq<char>>) -> Seq<char>
    decreases ls.len(),
{
    if ls.len() == 0 {
        seq![]
    } else {
        joined_lines(ls.drop_last()) + ls.last() + seq!['\n']
    }
}

/// Whether `line[lo..hi]` is a heading of `depth`; if so, the bounds of its
/// trimmed title.
fn heading_range(cs: &[char], lo: usize, hi: usize, depth: usize) -> (r: Option<(usize, usize)>)
    requires
        lo <= hi <= cs@.len(),
        depth <= 2,
    ensures
        match r {
            Some((a, b)) => a <= b <= cs@.len() && heading_title(
                cs@.subrange(lo as int, hi as int),
                depth as nat,
            ) == Some(cs@.subrange(a as int, b as int)),
            None => heading_title(cs@.subrange(lo as int, hi as int), depth as nat) is None,
        },
{
    let ghost line = cs@.subrange(lo as int, hi as int);
    if hi - lo <= depth {
        return None;
    }
    let mut j: usize = 0;
    while j < depth
        invariant
            j <= depth <= 2,
            lo + depth < hi <= cs@.len(),
            line == cs@.subrange(lo as int, hi as int),
            forall|k: int| 0 <= k < j ==> line[k] == '#',
        decreases depth - j,
    {
        if cs[lo + j] != '#' {
            assert(line[j as int] != '#');
            return None;
        }
        j = j + 1;
    }
    if cs[lo + depth] != ' ' {
        return None;
    }
    let (a, b) = trim_range(cs, lo + depth + 1, hi);
    assert(line.skip(depth + 1int) =~= cs@.subrange(lo + depth + 1, hi as int));
    if a < b {
        Some((a, b))
    } else {
        None
    }
}

/// Whether `trim(v)` is not empty.
fn not_blank(v: &[char]) -> (b: bool)
    ensures
        b == (trim(v@).len() > 0),
{
    let (a, b) = trim_range(v, 0, v.len());
    assert(v@.subrange(0, v@.len() as int) =~= v@);
    a < b
}

/// The chapters of `cs` at headings of `depth`, as character vectors.
fn chapters_at_depth(cs: &[char], depth: usize) -> (r: Vec<(Vec<char>, Vec<char>)>)
    requires
        1 <= depth <= 2,
    ensures
        r@.len() == chapters_at(cs@, depth as nat).len(),
        forall|k: int|
            0 <= k < r@.len() ==> (#[trigger] r@[k]).0@ == chapters_at(cs@, depth as nat)[k].0
                && r@[k].1@ == chapters_at(cs@, depth as nat)[k].1,
{
    let ranges = line_ranges(cs);
    let ghost ls = lines(cs@);
    let mut chapters: Vec<(Vec<char>, Vec<char>)> = Vec::new();
    let mut current: Vec<char> = Vec::new();
    let mut title: Option<Vec<char>> = None;
    let mut fence: Option<(char, usize)> = None;
    let mut k: usize = 0;
    while k < ranges.len()
        invariant
            1 <= depth <= 2,
            k <= ranges@.len() == ls.len(),
            ls == lines(cs@),
            forall|i: int|
                0 <= i < ranges@.len() ==> {
                    &&& (#[trigger] ranges@[i]).0 <= ranges@[i].1 <= cs@.len()
                    &&& cs@.subrange(ranges@[i].0 as int, ranges@[i].1 as int) == ls[i]
                },
            ({
                let st = chapter_scan(ls.take(k as int), depth as nat);
                &&& chapters@.len() == st.0.len()
                &&& forall|i: int|
                    0 <= i < chapters@.len() ==> (#[trigger] chapters@[i]).0@ == st.0[i].0
                        && chapters@[i].1@ == st.0[i].1
                &&& current@ == st.1
                &&& match title {
                    Some(t) => st.2 == Some(t@),
                    None => st.2 is None,
                }
                &&& opt_view(fence) == st.3
            }),
        decreases ranges.len() - k,
    {
        let (lo, hi) = ranges[k];
        let ghost line = ls[k as int];
        let ghost st = chapter_scan(ls.take(k as int), depth as nat);
        assert(ls.take(k + 1).drop_last() =~= ls.take(k as int));
        assert(ls.take(k + 1).last() == line);
        fence = fence_next(fence, cs, lo, hi);
        let h = heading_range(cs, lo, hi, depth);
        let ghost cur0 = current@;
        match h {
            Some((a, b)) => {
                if fence.is_none() {
                    let t = slice_of(cs, a, b);
                    let pending = title.is_some() || not_blank(&current);
                    if pending {
                        let done = current;
                        let prev = match title {
                            Some(tt) => tt,
                            None => Vec::new(),
                        };
                        chapters.push((prev, done));
                        current = Vec::new();
                    }
                    title = Some(t);
                }
            },
            None => {},
        }
        extend_range(&mut current, cs, lo, hi);
        current.push('\n');
        proof {
            let st2 = chapter_scan(ls.take(k + 1), depth as nat);
            assert(st2 == chapter_step(st, line, depth as nat));
        }
        k = k + 1;
    }
    assert(ls.take(k as int) =~= ls);
    if title.is_some() || not_blank(&current) {
        let prev = match title {
            Some(tt) => tt,
            None => Vec::new(),
        };
        chapters.push((prev, current));
    }
    chapters
}

/// Split a document into chapters at top-level headings, fence-aware: `#`
/// headings when they give more than one chapter, else `##` headings, else a
/// single untitled chapter holding the document. Text before the first
/// heading becomes its own leading chapter.
pub fn split_chapters(markdown: &str) -> (r: Vec<(String, String)>)
    ensures
        r@.len() == spec_split_chapters(markdown@).len(),
        forall|k: int|
            0 <= k < r@.len() ==> (#[trigger] r@[k]).0@ == spec_split_chapters(markdown@)[k].0
                && r@[k].1@ == spec_split_chapters(markdown@)[k].1,
{
    let cs = to_chars(markdown);
    let mut depth: usize = 1;
    while depth <= 2
        invariant
            1 <= depth <= 3,
            cs@ == markdown@,
            depth >= 2 ==> chapters_at(cs@, 1).len() <= 1,
            depth >= 3 ==> chapters_at(cs@, 2).len() <= 1,
        decreases 3 - depth,
    {
        let chs = chapters_at_depth(&cs, depth);
        if chs.len() > 1 {
            let mut out: Vec<(String, String)> = Vec::new();
            let mut i: usize = 0;
            while i < chs.len()
                invariant
                    i <= chs@.len(),
                    out@.len() == i,
                    forall|k: int|
                        0 <= k < i ==> (#[trigger] out@[k]).0@ == chs@[k].0@ && out@[k].1@
                            == chs@[k].1@,
                decreases chs.len() - i,
            {
                let t = from_chars(&chs[i].0);
                let m = from_chars(&chs[i].1);
                out.push((t, m));
                i = i + 1;
            }
            return out;
        }
        depth = depth + 1;
    }
    let mut out: Vec<(String, String)> = Vec::new();
    out.push((String::new(), from_chars(&cs)));
    out
}

/// The scan keeps all text: the finished chapters followed by the current
/// one are the lines read so far, each with its newline, and nothing is
/// finished before a title is seen.
proof fn lemma_chapter_scan_text(ls: Seq<Seq<char>>, depth: nat)
    ensures
        chapter_text(chapter_scan(ls, depth).0) + chapter_scan(ls, depth).1 == joined_lines(ls),
        chapter_scan(ls, depth).2 is None ==> chapter_scan(ls, depth).0.len() == 0,
    decreases ls.len(),
{
    if ls.len() > 0 {
        let prev = chapter_scan(ls.drop_last(), depth);
        lemma_chapter_scan_text(ls.drop_last(), depth);
        let line = ls.last();
        let st = chapter_scan(ls, depth);
        let chs2 = prev.0.push((title_or_empty(prev.2), prev.1));
        assert(chs2.drop_last() =~= prev.0);
        assert(chapter_text(chs2) == chapter_text(prev.0) + prev.1);
    }
}

/// Splitting keeps the document: either it is one untitled chapter holding
/// the document unchanged, or the chapters' markdown, concatenated, is the
/// document's lines, each followed by a newline.
pub proof fn lemma_split_chapters_keeps_text(md: Seq<char>)
    ensures
        spec_split_chapters(md) == seq![(Seq::<char>::empty(), md)] || chapter_text(
            spec_split_chapters(md),
        ) == joined_lines(lines(md)),
{
    let ls = lines(md);
    if chapters_at(md, 1).len() > 1 || chapters_at(md, 2).len() > 1 {
        let depth: nat = if chapters_at(md, 1).len() > 1 {
            1
        } else {
            2
        };
        lemma_chapter_scan_text(ls, depth);
        let st = chapter_scan(ls, depth);
        if chapter_pending(st.2, st.1) {
            let chs2 = st.0.push((title_or_empty(st.2), st.1));
            assert(chs2.drop_last() =~= st.0);
        } else {
            assert(chapter_text(st.0) == chapter_text(Seq::<(Seq<char>, Seq<char>)>::empty()));
        }
    }
}

/// JSON string literal for `s` as the AST dump writes it: control characters
/// below U+0020 become `\u00XX`, everything else but quotes and backslashes
/// passes through.
pub fn json_escape(s: &str) -> (r: String)
    ensures
        r@ == seq!['"'] + json_body(s@, false) + seq!['"'],
{
    let cs = to_chars(s);
    let mut out: Vec<char> = Vec::new();
    push_json_quoted(&mut out, &cs, false);
    assert(out@ =~= seq!['"'] + json_body(s@, false) + seq!['"']);
    from_chars(&out)
}

} // verus!
