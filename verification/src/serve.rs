//! The pure logic of the document server: which assets it hands out, URL
//! decoding, file-name checks, upload names and multipart bodies.

use crate::export::{name_end, name_start, is_file_name};
use crate::strs::{
    contains_seq, find, find_seq_from, lemma_find_suffix, lemma_no_first_match, matches_at,
    char_is_ws, decimal, eq_lit, extend_all, extend_range, find_char, find_char_in, from_chars,
    is_ascii_alpha, is_ws, lines, line_ranges, push_decimal, rfind_char, slice_of, split_char,
    split_ranges, strip_char, strip_char_range, to_chars, trim, trim_range, upper_chars, upper_seq,
    utf8_len, utf8_len_seq, char_utf8_len, has_char, lower_chars, lower_seq, rfind_char_in,
};
use vstd::prelude::*;
use vstd::utf8::{decode_utf8, valid_utf8};
use vstd::string::StringSliceAdditionalSpecFns;

verus! {

// ---------------------------------------------------------------------------
// Static assets
// ---------------------------------------------------------------------------

/// The Content-Type served for an asset extension; anything else is refused.
pub open spec fn spec_static_content_type(ext: Seq<char>) -> Option<Seq<char>> {
    if ext == "png"@ || ext == "apng"@ {
        Some("image/png"@)
    } else if ext == "jpg"@ || ext == "jpeg"@ {
        Some("image/jpeg"@)
    } else if ext == "gif"@ {
        Some("image/gif"@)
    } else if ext == "webp"@ {
        Some("image/webp"@)
    } else if ext == "svg"@ {
        Some("image/svg+xml"@)
    } else if ext == "avif"@ {
        Some("image/avif"@)
    } else if ext == "bmp"@ {
        Some("image/bmp"@)
    } else if ext == "ico"@ {
        Some("image/x-icon"@)
    } else if ext == "tif"@ || ext == "tiff"@ {
        Some("image/tiff"@)
    } else {
        None
    }
}

/// Content-Type for the file extensions the server hands out as static
/// assets (images only); `None` for anything else.
pub fn static_content_type(ext: &str) -> (r: Option<&'static str>)
    ensures
        match r {
            Some(t) => spec_static_content_type(ext@) == Some(t@),
            None => spec_static_content_type(ext@) is None,
        },
{
    let e = to_chars(ext);
    if eq_lit(&e, "png") || eq_lit(&e, "apng") {
        Some("image/png")
    } else if eq_lit(&e, "jpg") || eq_lit(&e, "jpeg") {
        Some("image/jpeg")
    } else if eq_lit(&e, "gif") {
        Some("image/gif")
    } else if eq_lit(&e, "webp") {
        Some("image/webp")
    } else if eq_lit(&e, "svg") {
        Some("image/svg+xml")
    } else if eq_lit(&e, "avif") {
        Some("image/avif")
    } else if eq_lit(&e, "bmp") {
        Some("image/bmp")
    } else if eq_lit(&e, "ico") {
        Some("image/x-icon")
    } else if eq_lit(&e, "tif") || eq_lit(&e, "tiff") {
        Some("image/tiff")
    } else {
        None
    }
}

// ---------------------------------------------------------------------------
// Percent decoding
// ---------------------------------------------------------------------------

/// Value of a hexadecimal digit byte (either case).
pub open spec fn hex_byte(b: u8) -> Option<int> {
    if 0x30 <= b <= 0x39 {
        Some(b - 0x30)
    } else if 0x61 <= b <= 0x66 {
        Some(b - 0x61 + 10)
    } else if 0x41 <= b <= 0x46 {
        Some(b - 0x41 + 10)
    } else {
        None
    }
}

/// Percent-decoding of bytes: `%` and two hex digits become one byte; a
/// stray or truncated `%` is kept.
pub open spec fn pct_decode(b: Seq<u8>) -> Seq<u8>
    decreases b.len(),
{
    if b.len() == 0 {
        seq![]
    } else if b[0] == 0x25 && b.len() > 2 && hex_byte(b[1]) is Some && hex_byte(b[2]) is Some {
        seq![(hex_byte(b[1]).unwrap() * 16 + hex_byte(b[2]).unwrap()) as u8] + pct_decode(
            b.skip(3),
        )
    } else {
        seq![b[0]] + pct_decode(b.skip(1))
    }
}

/// What `percent_decode` returns: the decoded bytes as text, when they are
/// UTF-8.
pub open spec fn spec_percent_decode(s: &str) -> Option<Seq<char>> {
    let b = pct_decode(s.spec_bytes());
    if valid_utf8(b) {
        Some(decode_utf8(b))
    } else {
        None
    }
}

/// `String::from_utf8`: the text the bytes encode, when they are UTF-8.
#[verifier::external_body]
fn string_from_utf8(bytes: Vec<u8>) -> (r: Option<String>)
    ensures
        match r {
            Some(s) => valid_utf8(bytes@) && s@ == decode_utf8(bytes@),
            None => !valid_utf8(bytes@),
        },
{
    String::from_utf8(bytes).ok()
}

fn hex_digit_byte(b: u8) -> (r: Option<u8>)
    ensures
        match r {
            Some(v) => hex_byte(b) == Some(v as int) && v < 16,
            None => hex_byte(b) is None,
        },
{
    if 0x30 <= b && b <= 0x39 {
        Some(b - 0x30)
    } else if 0x61 <= b && b <= 0x66 {
        Some(b - 0x61 + 10)
    } else if 0x41 <= b && b <= 0x46 {
        Some(b - 0x41 + 10)
    } else {
        None
    }
}

/// Percent-decode a URL path; `None` when the decoded bytes are not UTF-8.
pub fn percent_decode(s: &str) -> (r: Option<String>)
    ensures
        match r {
            Some(t) => spec_percent_decode(s) == Some(t@),
            None => spec_percent_decode(s) is None,
        },
{
    let bytes = s.as_bytes();
    let n = bytes.len();
    let mut out: Vec<u8> = Vec::new();
    let mut i: usize = 0;
    assert(bytes@.skip(0) =~= bytes@);
    while i < n
        invariant
            i <= n == bytes@.len(),
            out@ + pct_decode(bytes@.skip(i as int)) == pct_decode(bytes@),
        decreases n - i,
    {
        let ghost rest = bytes@.skip(i as int);
        let ghost out0 = out@;
        let mut decoded = false;
        if bytes[i] == 0x25 && n - i > 2 {
            match (hex_digit_byte(bytes[i + 1]), hex_digit_byte(bytes[i + 2])) {
                (Some(hi), Some(lo)) => {
                    assert(rest[1] == bytes@[i + 1] && rest[2] == bytes@[i + 2]);
                    assert(rest.skip(3) =~= bytes@.skip(i + 3));
                    out.push(hi * 16 + lo);
                    i = i + 3;
                    decoded = true;
                    assert(out0 + pct_decode(rest) =~= out@ + pct_decode(bytes@.skip(i as int)));
                },
                _ => {
                    assert(rest[1] == bytes@[i + 1] && rest[2] == bytes@[i + 2]);
                },
            }
        }
        if !decoded {
            assert(rest[0] == bytes@[i as int]);
            assert(rest.skip(1) =~= bytes@.skip(i + 1));
            out.push(bytes[i]);
            i = i + 1;
            assert(out0 + pct_decode(rest) =~= out@ + pct_decode(bytes@.skip(i as int)));
        }
    }
    assert(bytes@.skip(n as int) =~= Seq::<u8>::empty());
    assert(out@ =~= pct_decode(bytes@));
    string_from_utf8(out)
}

// ---------------------------------------------------------------------------
// File names
// ---------------------------------------------------------------------------

/// A single plain path segment: not empty, no NUL or backslash, no drive
/// prefix such as `C:`, and exactly one normal component when read as a
/// `/`-separated path (no root, no leading `.`, no `..`, nothing after the
/// first segment but empty or `.` segments).
pub open spec fn spec_is_plain_file_name(name: Seq<char>) -> bool {
    let segs = split_char(name, '/');
    &&& name.len() > 0
    &&& !name.contains('\0')
    &&& !name.contains('\\')
    &&& !(name.len() >= 2 && name[1] == ':' && is_ascii_alpha(name[0]))
    &&& segs[0] != Seq::<char>::empty()
    &&& segs[0] != seq!['.']
    &&& segs[0] != seq!['.', '.']
    &&& forall|k: int|
        1 <= k < segs.len() ==> #[trigger] segs[k] == Seq::<char>::empty() || segs[k] == seq!['.']
}

proof fn lemma_split_char_nonempty(s: Seq<char>, c: char)
    ensures
        split_char(s, c).len() > 0,
    decreases s.len(),
{
    reveal(split_char);
    match find_char(s, c) {
        Some(i) => if 0 <= i < s.len() {
            lemma_split_char_nonempty(s.skip(i + 1), c);
        },
        None => {},
    }
}

fn is_dot_or_empty(cs: &[char], a: usize, b: usize) -> (r: bool)
    requires
        a <= b <= cs@.len(),
    ensures
        r == (cs@.subrange(a as int, b as int) == Seq::<char>::empty() || cs@.subrange(
            a as int,
            b as int,
        ) == seq!['.']),
{
    let ghost t = cs@.subrange(a as int, b as int);
    if a == b {
        assert(t =~= Seq::<char>::empty());
        return true;
    }
    assert(t.len() > 0);
    if b - a != 1 {
        assert(t.len() != seq!['.'].len());
        return false;
    }
    assert(t[0] == cs@[a as int]);
    if cs[a] == '.' {
        assert(t =~= seq!['.']);
        true
    } else {
        assert(t[0] != seq!['.'][0]);
        false
    }
}

fn is_dot_dot(cs: &[char], a: usize, b: usize) -> (r: bool)
    requires
        a <= b <= cs@.len(),
    ensures
        r == (cs@.subrange(a as int, b as int) == seq!['.', '.']),
{
    let ghost t = cs@.subrange(a as int, b as int);
    if b - a != 2 {
        assert(t.len() != seq!['.', '.'].len());
        return false;
    }
    assert(t[0] == cs@[a as int] && t[1] == cs@[a + 1]);
    if cs[a] == '.' && cs[a + 1] == '.' {
        assert(t =~= seq!['.', '.']);
        true
    } else {
        assert(t[0] != seq!['.', '.'][0] || t[1] != seq!['.', '.'][1]);
        false
    }
}

fn has_nul_or_backslash(cs: &[char]) -> (r: bool)
    ensures
        r == (cs@.contains('\0') || cs@.contains('\\')),
{
    let n = cs.len();
    let mut i: usize = 0;
    while i < n
        invariant
            i <= n == cs@.len(),
            forall|j: int| 0 <= j < i ==> cs@[j] != '\0' && cs@[j] != '\\',
        decreases n - i,
    {
        if cs[i] == '\0' || cs[i] == '\\' {
            assert(cs@[i as int] == cs[i as int]);
            return true;
        }
        i = i + 1;
    }
    false
}

fn later_segments_plain(cs: &[char], segs: &Vec<(usize, usize)>) -> (r: bool)
    requires
        segs@.len() == split_char(cs@, '/').len(),
        forall|j: int|
            0 <= j < segs@.len() ==> {
                &&& (#[trigger] segs@[j]).0 <= segs@[j].1 <= cs@.len()
                &&& cs@.subrange(segs@[j].0 as int, segs@[j].1 as int) == split_char(cs@, '/')[j]
            },
    ensures
        r == forall|k: int|
            1 <= k < split_char(cs@, '/').len() ==> #[trigger] split_char(cs@, '/')[k]
                == Seq::<char>::empty() || split_char(cs@, '/')[k] == seq!['.'],
{
    let mut k: usize = 1;
    while k < segs.len()
        invariant
            1 <= k,
            k <= segs@.len() || segs@.len() == 0,
            segs@.len() == split_char(cs@, '/').len(),
            forall|j: int|
                0 <= j < segs@.len() ==> {
                    &&& (#[trigger] segs@[j]).0 <= segs@[j].1 <= cs@.len()
                    &&& cs@.subrange(segs@[j].0 as int, segs@[j].1 as int) == split_char(cs@, '/')[j]
                },
            forall|j: int|
                1 <= j < k ==> #[trigger] split_char(cs@, '/')[j] == Seq::<char>::empty()
                    || split_char(cs@, '/')[j] == seq!['.'],
        decreases segs.len() - k,
    {
        let (a, b) = segs[k];
        if !is_dot_or_empty(cs, a, b) {
            return false;
        }
        k = k + 1;
    }
    true
}

/// True when `name` is a single plain path segment, safe to join onto the
/// served directory on any platform.
pub fn is_plain_file_name(name: &str) -> (b: bool)
    ensures
        b == spec_is_plain_file_name(name@),
{
    let cs = to_chars(name);
    let n = cs.len();
    if n == 0 || has_nul_or_backslash(&cs) {
        return false;
    }
    if n >= 2 && cs[1] == ':' && (('a' <= cs[0] && cs[0] <= 'z') || ('A' <= cs[0] && cs[0]
        <= 'Z')) {
        return false;
    }
    let segs = split_ranges(&cs, '/');
    proof {
        lemma_split_char_nonempty(cs@, '/');
    }
    let (a0, b0) = segs[0];
    if is_dot_or_empty(&cs, a0, b0) || is_dot_dot(&cs, a0, b0) {
        return false;
    }
    later_segments_plain(&cs, &segs)
}

// ---------------------------------------------------------------------------
// Upload names
// ---------------------------------------------------------------------------

/// Index of the last `/` or `\`.
pub open spec fn last_separator(s: Seq<char>) -> Option<int>
    decreases s.len(),
{
    if s.len() == 0 {
        None
    } else if s.last() == '/' || s.last() == '\\' {
        Some(s.len() - 1)
    } else {
        last_separator(s.drop_last())
    }
}

/// Characters that are illegal in Windows file names and are dropped.
pub open spec fn is_banned_char(c: char) -> bool {
    c == ':' || c == '\0' || c == '<' || c == '>' || c == '"' || c == '|' || c == '?' || c == '*'
}

/// `s` with the banned characters removed.
pub open spec fn drop_banned(s: Seq<char>) -> Seq<char>
    decreases s.len(),
{
    if s.len() == 0 {
        seq![]
    } else {
        drop_banned(s.drop_last()) + (if is_banned_char(s.last()) {
            seq![]
        } else {
            seq![s.last()]
        })
    }
}

/// The cleaned upload name: the last path segment, trimmed of whitespace,
/// then of dots, with banned characters removed.
pub open spec fn cleaned_upload_name(name: Seq<char>) -> Seq<char> {
    let base = match last_separator(name) {
        Some(i) => name.skip(i + 1),
        None => name,
    };
    drop_banned(strip_char(trim(base), '.'))
}

/// The stem of a cleaned name: the text before its first `.`.
pub open spec fn upload_stem(s: Seq<char>) -> Seq<char> {
    match find_char(s, '.') {
        Some(i) => s.take(i),
        None => s,
    }
}

/// Windows reserved device names.
pub open spec fn is_reserved_device(u: Seq<char>) -> bool {
    u == "CON"@
        || u == "PRN"@
        || u == "AUX"@
        || u == "NUL"@
        || u == "COM1"@
        || u == "COM2"@
        || u == "COM3"@
        || u == "COM4"@
        || u == "COM5"@
        || u == "COM6"@
        || u == "COM7"@
        || u == "COM8"@
        || u == "COM9"@
        || u == "LPT1"@
        || u == "LPT2"@
        || u == "LPT3"@
        || u == "LPT4"@
        || u == "LPT5"@
        || u == "LPT6"@
        || u == "LPT7"@
        || u == "LPT8"@
        || u == "LPT9"@
}

fn reserved_device(u: &[char]) -> (b: bool)
    ensures
        b == is_reserved_device(u@),
{
    eq_lit(u, "CON")
        || eq_lit(u, "PRN")
        || eq_lit(u, "AUX")
        || eq_lit(u, "NUL")
        || eq_lit(u, "COM1")
        || eq_lit(u, "COM2")
        || eq_lit(u, "COM3")
        || eq_lit(u, "COM4")
        || eq_lit(u, "COM5")
        || eq_lit(u, "COM6")
        || eq_lit(u, "COM7")
        || eq_lit(u, "COM8")
        || eq_lit(u, "COM9")
        || eq_lit(u, "LPT1")
        || eq_lit(u, "LPT2")
        || eq_lit(u, "LPT3")
        || eq_lit(u, "LPT4")
        || eq_lit(u, "LPT5")
        || eq_lit(u, "LPT6")
        || eq_lit(u, "LPT7")
        || eq_lit(u, "LPT8")
        || eq_lit(u, "LPT9")
}

/// What `sanitize_upload_filename` returns: the cleaned name, or
/// `upload.png` when it is empty, a reserved device name, or over 200 bytes.
pub open spec fn spec_sanitize_upload_filename(name: Seq<char>) -> Seq<char> {
    let c = cleaned_upload_name(name);
    if c.len() == 0 || is_reserved_device(upper_seq(upload_stem(c))) || utf8_len_seq(c) > 200 {
        "upload.png"@
    } else {
        c
    }
}

fn last_separator_in(cs: &[char]) -> (r: Option<usize>)
    ensures
        match r {
            Some(i) => last_separator(cs@) == Some(i as int) && i < cs@.len(),
            None => last_separator(cs@) is None,
        },
{
    let mut i = cs.len();
    assert(cs@.take(i as int) =~= cs@);
    while i > 0
        invariant
            i <= cs@.len(),
            last_separator(cs@) == last_separator(cs@.take(i as int)),
        decreases i,
    {
        assert(cs@.take(i as int).last() == cs@[i - 1]);
        if cs[i - 1] == '/' || cs[i - 1] == '\\' {
            return Some(i - 1);
        }
        assert(cs@.take(i as int).drop_last() =~= cs@.take(i - 1));
        i = i - 1;
    }
    None
}

fn drop_banned_range(cs: &[char], a: usize, b: usize) -> (r: Vec<char>)
    requires
        a <= b <= cs@.len(),
    ensures
        r@ == drop_banned(cs@.subrange(a as int, b as int)),
{
    let mut r: Vec<char> = Vec::new();
    let mut i = a;
    while i < b
        invariant
            a <= i <= b <= cs@.len(),
            r@ == drop_banned(cs@.subrange(a as int, i as int)),
        decreases b - i,
    {
        let c = cs[i];
        assert(cs@.subrange(a as int, i + 1).drop_last() =~= cs@.subrange(a as int, i as int));
        if !(c == ':' || c == '\0' || c == '<' || c == '>' || c == '"' || c == '|' || c == '?'
            || c == '*') {
            r.push(c);
        }
        i = i + 1;
        assert(r@ =~= drop_banned(cs@.subrange(a as int, i as int)));
    }
    r
}

/// Whether the UTF-8 length of `cs` exceeds `limit` bytes.
fn utf8_longer_than(cs: &[char], limit: usize) -> (b: bool)
    ensures
        b == (utf8_len_seq(cs@) > limit),
{
    let mut i: usize = 0;
    let mut total: usize = 0;
    while i < cs.len()
        invariant
            i <= cs@.len(),
            total == utf8_len_seq(cs@.take(i as int)),
            total <= limit,
        decreases cs.len() - i,
    {
        let w = char_utf8_len(cs[i]);
        assert(cs@.take(i + 1).drop_last() =~= cs@.take(i as int));
        if w > limit - total {
            proof {
                lemma_utf8_len_prefix(cs@, i + 1);
            }
            return true;
        }
        total = total + w;
        i = i + 1;
    }
    assert(cs@.take(i as int) =~= cs@);
    false
}

proof fn lemma_utf8_len_prefix(s: Seq<char>, i: int)
    requires
        0 <= i <= s.len(),
    ensures
        utf8_len_seq(s.take(i)) <= utf8_len_seq(s),
    decreases s.len() - i,
{
    if i < s.len() {
        lemma_utf8_len_prefix(s, i + 1);
        assert(s.take(i + 1).drop_last() =~= s.take(i));
    } else {
        assert(s.take(i) =~= s);
    }
}

/// Reduce a client-supplied upload name to a single safe file name: any
/// directory part is dropped, as are characters illegal on Windows; an
/// empty, reserved or over-long result becomes `upload.png`.
pub fn sanitize_upload_filename(name: &str) -> (r: String)
    ensures
        r@ == spec_sanitize_upload_filename(name@),
{
    let cs = to_chars(name);
    let n = cs.len();
    let start = match last_separator_in(&cs) {
        Some(i) => i + 1,
        None => 0,
    };
    assert(cs@.subrange(start as int, n as int) =~= match last_separator(name@) {
        Some(i) => name@.skip(i + 1),
        None => name@,
    });
    let (a, b) = trim_range(&cs, start, n);
    let (c, d) = strip_char_range(&cs, a, b, '.');
    let cleaned = drop_banned_range(&cs, c, d);
    let stem = match find_char_in(&cleaned, '.', 0) {
        Some(i) => slice_of(&cleaned, 0, i),
        None => slice_of(&cleaned, 0, cleaned.len()),
    };
    proof {
        assert(cleaned@.skip(0) =~= cleaned@);
        assert(cleaned@.subrange(0, cleaned@.len() as int) =~= cleaned@);
        assert(stem@ =~= upload_stem(cleaned@));
    }
    let upper = upper_chars(&stem);
    if cleaned.len() == 0 || reserved_device(&upper) || utf8_longer_than(&cleaned, 200) {
        proof {
            reveal_strlit("upload.png");
        }
        "upload.png".to_string()
    } else {
        from_chars(&cleaned)
    }
}

// ---------------------------------------------------------------------------
// De-duplicated names
// ---------------------------------------------------------------------------

/// The stem and extension of a file name as `Path::file_stem` and
/// `Path::extension` give them (empty when absent).
pub open spec fn stem_and_extension(f: Seq<char>) -> (Seq<char>, Seq<char>) {
    let e = name_end(f);
    let b = name_start(f, e);
    let name = f.subrange(b, e);
    if !is_file_name(name) {
        (seq![], seq![])
    } else {
        match rfind_char(name, '.') {
            Some(d) => if d > 0 && name != seq!['.', '.'] {
                (name.take(d), name.skip(d + 1))
            } else {
                (name, seq![])
            },
            None => (name, seq![]),
        }
    }
}

/// The `counter`-th alternative name for `filename`: `stem-N.ext`, or
/// `stem-N` without an extension.
pub open spec fn spec_dedup_candidate(filename: Seq<char>, counter: nat) -> Seq<char> {
    let (stem, ext) = stem_and_extension(filename);
    if ext.len() == 0 {
        stem + seq!['-'] + decimal(counter)
    } else {
        stem + seq!['-'] + decimal(counter) + seq!['.'] + ext
    }
}

/// The name tried after `filename` is taken, for the given counter (the
/// caller counts up from 1 until a name is free).
pub fn dedup_candidate(filename: &str, counter: u64) -> (r: String)
    ensures
        r@ == spec_dedup_candidate(filename@, counter as nat),
{
    let cs = to_chars(filename);
    let e = crate::export::name_end_of(&cs);
    let head = slice_of(&cs, 0, e);
    assert(head@ =~= cs@.take(e as int));
    let b = match crate::strs::rfind_char_in(&head, '/') {
        Some(i) => i + 1,
        None => 0,
    };
    let name = slice_of(&cs, b, e);
    let is_name = name.len() > 0 && !(name.len() == 1 && name[0] == '.') && !(name.len() == 2
        && name[0] == '.' && name[1] == '.');
    proof {
        if name@ == seq!['.'] {
            assert(name@[0] == '.');
        }
        if name@ == seq!['.', '.'] {
            assert(name@[0] == '.' && name@[1] == '.');
        }
        if name.len() == 1 && name[0] == '.' {
            assert(name@ =~= seq!['.']);
        }
        if name.len() == 2 && name[0] == '.' && name[1] == '.' {
            assert(name@ =~= seq!['.', '.']);
        }
    }
    let mut stem: Vec<char> = Vec::new();
    let mut ext: Vec<char> = Vec::new();
    if is_name {
        match crate::strs::rfind_char_in(&name, '.') {
            Some(d) => {
                if d > 0 {
                    stem = slice_of(&name, 0, d);
                    ext = slice_of(&name, d + 1, name.len());
                    assert(stem@ =~= name@.take(d as int));
                    assert(ext@ =~= name@.skip(d + 1));
                } else {
                    stem = slice_of(&name, 0, name.len());
                    assert(stem@ =~= name@);
                }
            },
            None => {
                stem = slice_of(&name, 0, name.len());
                assert(stem@ =~= name@);
            },
        }
    }
    let mut out = stem;
    out.push('-');
    push_decimal(&mut out, counter);
    if ext.len() > 0 {
        out.push('.');
        extend_all(&mut out, &ext);
    }
    from_chars(&out)
}


// ---------------------------------------------------------------------------
// Multipart bodies
// ---------------------------------------------------------------------------

/// Whether `p` occurs in `s` at `i`.
pub open spec fn bytes_at(s: Seq<u8>, p: Seq<u8>, i: int) -> bool {
    0 <= i && i + p.len() <= s.len() && s.subrange(i, i + p.len()) == p
}

/// The first index at or after `i` where `p` occurs in `s`.
pub open spec fn bytes_find_from(s: Seq<u8>, p: Seq<u8>, i: int) -> Option<int>
    decreases s.len() - i,
{
    if i < 0 || i + p.len() > s.len() {
        None
    } else if bytes_at(s, p, i) {
        Some(i)
    } else if i + p.len() == s.len() {
        None
    } else {
        bytes_find_from(s, p, i + 1)
    }
}

proof fn lemma_bytes_find_bounds(s: Seq<u8>, p: Seq<u8>, i: int)
    ensures
        match bytes_find_from(s, p, i) {
            Some(k) => i <= k && k + p.len() <= s.len() && bytes_at(s, p, k),
            None => true,
        },
    decreases s.len() - i,
{
    if !(i < 0 || i + p.len() >= s.len()) && !bytes_at(s, p, i) {
        lemma_bytes_find_bounds(s, p, i + 1);
    }
}

fn bytes_match(s: &[u8], p: &[u8], i: usize) -> (b: bool)
    requires
        i + p@.len() <= s@.len(),
    ensures
        b == bytes_at(s@, p@, i as int),
{
    let m = p.len();
    let n = s.len();
    let mut k: usize = 0;
    while k < m
        invariant
            k <= m == p@.len(),
            n == s@.len(),
            i + m <= n,
            forall|j: int| 0 <= j < k ==> s@[i + j] == p@[j],
        decreases m - k,
    {
        if s[i + k] != p[k] {
            assert(s@.subrange(i as int, i + m)[k as int] != p@[k as int]);
            return false;
        }
        k = k + 1;
    }
    assert(s@.subrange(i as int, i + m) =~= p@);
    true
}

/// First index at or after `from` where `p` occurs in `s`.
fn bytes_find(s: &[u8], p: &[u8], from: usize) -> (r: Option<usize>)
    ensures
        match r {
            Some(k) => bytes_find_from(s@, p@, from as int) == Some(k as int) && k + p@.len()
                <= s@.len(),
            None => bytes_find_from(s@, p@, from as int) is None,
        },
{
    let n = s.len();
    let m = p.len();
    let mut i = from;
    while i <= n && m <= n - i
        invariant
            from <= i,
            n == s@.len(),
            m == p@.len(),
            bytes_find_from(s@, p@, from as int) == bytes_find_from(s@, p@, i as int),
        decreases n - i,
    {
        if bytes_match(s, p, i) {
            return Some(i);
        }
        if m == n - i {
            return None;
        }
        i = i + 1;
    }
    None
}

/// The end of the part headers: just past the first blank line, `\r\n\r\n`
/// preferred over `\n\n`.
pub open spec fn spec_find_double_newline(data: Seq<u8>) -> Option<int> {
    match bytes_find_from(data, seq![13u8, 10u8, 13u8, 10u8], 0) {
        Some(p) => Some(p + 4),
        None => match bytes_find_from(data, seq![10u8, 10u8], 0) {
            Some(p) => Some(p + 2),
            None => None,
        },
    }
}

/// Index just past the first `\r\n\r\n`, else just past the first `\n\n`.
pub fn find_double_newline(data: &[u8]) -> (r: Option<usize>)
    ensures
        match r {
            Some(k) => spec_find_double_newline(data@) == Some(k as int) && k <= data@.len(),
            None => spec_find_double_newline(data@) is None,
        },
{
    let crlf: Vec<u8> = vec![13u8, 10u8, 13u8, 10u8];
    let lf: Vec<u8> = vec![10u8, 10u8];
    assert(crlf@ =~= seq![13u8, 10u8, 13u8, 10u8]);
    assert(lf@ =~= seq![10u8, 10u8]);
    let n = data.len();
    match bytes_find(data, &crlf, 0) {
        Some(p) => Some(p + 4),
        None => match bytes_find(data, &lf, 0) {
            Some(p) => Some(p + 2),
            None => None,
        },
    }
}

/// The pieces of `h` between occurrences of the non-empty `n`.
pub open spec fn split_on(h: Seq<u8>, n: Seq<u8>) -> Seq<Seq<u8>>
    decreases h.len(),
{
    match bytes_find_from(h, n, 0) {
        Some(p) => if 0 <= p && p + n.len() <= h.len() && n.len() > 0 {
            seq![h.take(p)] + split_on(h.skip(p + n.len()), n)
        } else {
            seq![h]
        },
        None => seq![h],
    }
}

proof fn lemma_bytes_find_shift(s: Seq<u8>, p: Seq<u8>, pos: int, i: int)
    requires
        0 <= pos <= i,
        pos <= s.len(),
    ensures
        bytes_find_from(s, p, i) == match bytes_find_from(s.skip(pos), p, i - pos) {
            Some(k) => Some(k + pos),
            None => None,
        },
    decreases s.len() - i,
{
    let t = s.skip(pos);
    if !(i < 0 || i + p.len() > s.len()) {
        assert(t.subrange(i - pos, i - pos + p.len()) =~= s.subrange(i, i + p.len()));
        if !bytes_at(s, p, i) && i + p.len() < s.len() {
            lemma_bytes_find_shift(s, p, pos, i + 1);
        }
    }
}

/// Split `haystack` on every occurrence of the non-empty `needle`.
pub fn split_bytes(haystack: &[u8], needle: &[u8]) -> (r: Vec<Vec<u8>>)
    requires
        needle@.len() > 0,
    ensures
        r@.len() == split_on(haystack@, needle@).len(),
        forall|k: int| 0 <= k < r@.len() ==> (#[trigger] r@[k])@ == split_on(haystack@, needle@)[k],
{
    let n = haystack.len();
    let m = needle.len();
    let mut parts: Vec<Vec<u8>> = Vec::new();
    let mut start: usize = 0;
    let ghost all = split_on(haystack@, needle@);
    assert(haystack@.skip(0) =~= haystack@);
    loop
        invariant
            start <= n == haystack@.len(),
            m == needle@.len() > 0,
            all == split_on(haystack@, needle@),
            parts@.len() + split_on(haystack@.skip(start as int), needle@).len() == all.len(),
            forall|k: int| 0 <= k < parts@.len() ==> (#[trigger] parts@[k])@ == all[k],
            forall|k: int|
                0 <= k < split_on(haystack@.skip(start as int), needle@).len() ==> all[parts@.len()
                    + k] == #[trigger] split_on(haystack@.skip(start as int), needle@)[k],
        decreases n - start,
    {
        let ghost rest = haystack@.skip(start as int);
        proof {
            lemma_bytes_find_shift(haystack@, needle@, start as int, start as int);
            lemma_bytes_find_bounds(rest, needle@, 0);
        }
        match bytes_find(haystack, needle, start) {
            Some(pos) => {
                let mut piece: Vec<u8> = Vec::new();
                let mut i = start;
                while i < pos
                    invariant
                        start <= i <= pos <= n == haystack@.len(),
                        piece@ == haystack@.subrange(start as int, i as int),
                    decreases pos - i,
                {
                    piece.push(haystack[i]);
                    i = i + 1;
                    assert(piece@ =~= haystack@.subrange(start as int, i as int));
                }
                proof {
                    assert(piece@ =~= rest.take(pos - start));
                    assert(rest.skip(pos - start + m) =~= haystack@.skip(pos + m));
                    assert(all[parts@.len() as int] == split_on(rest, needle@)[0]);
                    assert forall|k: int|
                        0 <= k < split_on(haystack@.skip(pos + m), needle@).len() implies all[parts@.len()
                        + 1 + k] == #[trigger] split_on(haystack@.skip(pos + m), needle@)[k] by {
                        assert(split_on(rest, needle@)[k + 1] == split_on(
                            haystack@.skip(pos + m),
                            needle@,
                        )[k]);
                    }
                }
                parts.push(piece);
                start = pos + m;
            },
            None => {
                let mut piece: Vec<u8> = Vec::new();
                let mut i = start;
                while i < n
                    invariant
                        start <= i <= n == haystack@.len(),
                        piece@ == haystack@.subrange(start as int, i as int),
                    decreases n - i,
                {
                    piece.push(haystack[i]);
                    i = i + 1;
                    assert(piece@ =~= haystack@.subrange(start as int, i as int));
                }
                proof {
                    assert(piece@ =~= rest);
                    assert(all[parts@.len() as int] == split_on(rest, needle@)[0]);
                }
                parts.push(piece);
                return parts;
            },
        }
    }
}

/// The second piece of `s` split on `p`: the text after the first `p`, up
/// to the next one.
pub open spec fn second_piece(s: Seq<char>, p: Seq<char>) -> Option<Seq<char>> {
    match find(s, p) {
        Some(i) => {
            let rest = s.skip(i + p.len());
            Some(
                match find(rest, p) {
                    Some(j) => rest.take(j),
                    None => rest,
                },
            )
        },
        None => None,
    }
}

/// The multipart boundary named in a Content-Type, without quotes.
pub open spec fn multipart_boundary(ct: Seq<char>) -> Option<Seq<char>> {
    match second_piece(ct, "boundary="@) {
        Some(b) => Some(strip_char(b, '"')),
        None => None,
    }
}

/// Index of the first of `ls` at or after `k` that contains `p`.
pub open spec fn first_line_with(ls: Seq<Seq<char>>, p: Seq<char>, k: int) -> Option<int>
    decreases ls.len() - k,
{
    if k < 0 || k >= ls.len() {
        None
    } else if contains_seq(ls[k], p) {
        Some(k)
    } else {
        first_line_with(ls, p, k + 1)
    }
}

/// The upload's file name: from the first line of the body text that holds
/// `filename=`, the value after it with quotes stripped; `upload.png` when
/// there is none.
pub open spec fn spec_multipart_filename(text: Seq<char>) -> Seq<char> {
    let ls = lines(text);
    match first_line_with(ls, "filename="@, 0) {
        Some(k) => match second_piece(ls[k], "filename="@) {
            Some(v) => strip_char(strip_char(v, '"'), '\''),
            None => "upload.png"@,
        },
        None => "upload.png"@,
    }
}

/// The data of one part: what follows its headers, less one trailing line
/// break, when that is not empty.
pub open spec fn part_data(part: Seq<u8>) -> Option<Seq<u8>> {
    match spec_find_double_newline(part) {
        Some(h) => {
            let d = part.skip(h);
            let d2 = if d.len() >= 2 && d[d.len() - 2] == 13u8 && d[d.len() - 1] == 10u8 {
                d.take(d.len() - 2)
            } else if d.len() >= 1 && d[d.len() - 1] == 10u8 {
                d.drop_last()
            } else {
                d
            };
            if d2.len() > 0 {
                Some(d2)
            } else {
                None
            }
        },
        None => None,
    }
}

/// The data of the first part from index `k` on that has any.
pub open spec fn first_part_data(parts: Seq<Seq<u8>>, k: int) -> Option<Seq<u8>>
    decreases parts.len() - k,
{
    if k < 0 || k >= parts.len() {
        None
    } else {
        match part_data(parts[k]) {
            Some(d) => Some(d),
            None => first_part_data(parts, k + 1),
        }
    }
}

/// What `parse_multipart` returns, given the body decoded as text.
pub open spec fn spec_parse_multipart(body: Seq<u8>, ct: Seq<char>, text: Seq<char>) -> Option<
    (Seq<char>, Seq<u8>),
> {
    match multipart_boundary(ct) {
        Some(b) => match first_part_data(
            split_on(body, vstd::utf8::encode_utf8(seq!['-', '-'] + b)),
            1,
        ) {
            Some(d) => Some((spec_multipart_filename(text), d)),
            None => None,
        },
        None => None,
    }
}

/// What `String::from_utf8_lossy` returns for some bytes.
pub uninterp spec fn spec_utf8_lossy(bytes: Seq<u8>) -> Seq<char>;

/// `String::from_utf8_lossy`: the text of the bytes, with invalid sequences
/// replaced by U+FFFD; valid UTF-8 is decoded unchanged.
#[verifier::external_body]
fn utf8_lossy(bytes: &[u8]) -> (s: String)
    ensures
        s@ == spec_utf8_lossy(bytes@),
        valid_utf8(bytes@) ==> s@ == decode_utf8(bytes@),
{
    String::from_utf8_lossy(bytes).into_owned()
}

fn second_piece_range(s: &[char], p: &[char]) -> (r: Option<(usize, usize)>)
    requires
        p@.len() > 0,
    ensures
        match r {
            Some((a, b)) => a <= b <= s@.len() && second_piece(s@, p@) == Some(
                s@.subrange(a as int, b as int),
            ),
            None => second_piece(s@, p@) is None,
        },
{
    let n = s.len();
    proof {
        lemma_find_suffix(s@, p@, 0);
        assert(s@.skip(0) =~= s@);
    }
    match find_seq_from(s, p, 0) {
        Some(i) => {
            let a = i + p.len();
            let ghost rest = s@.skip(a as int);
            proof {
                lemma_find_suffix(s@, p@, a as int);
            }
            match find_seq_from(s, p, a) {
                Some(j) => {
                    assert(rest.take(j - a) =~= s@.subrange(a as int, j as int));
                    Some((a, j))
                },
                None => {
                    assert(rest =~= s@.subrange(a as int, n as int));
                    Some((a, n))
                },
            }
        },
        None => None,
    }
}

fn has_pattern(line: &[char], pat: &[char]) -> (b: bool)
    requires
        pat@.len() > 0,
    ensures
        b == contains_seq(line@, pat@),
{
    proof {
        lemma_find_suffix(line@, pat@, 0);
        assert(line@.skip(0) =~= line@);
    }
    let found = find_seq_from(line, pat, 0);
    proof {
        match find(line@, pat@) {
            Some(i) => {
                assert(matches_at(line@, pat@, i));
            },
            None => {
                if contains_seq(line@, pat@) {
                    let j = choose|j: int| matches_at(line@, pat@, j);
                    lemma_no_first_match(line@, pat@, 0, j);
                }
            },
        }
    }
    found.is_some()
}

/// The value after `pat` on a line, quotes stripped; `upload.png` if none.
fn value_after(line: &[char], pat: &[char]) -> (r: String)
    requires
        pat@.len() > 0,
    ensures
        r@ == match second_piece(line@, pat@) {
            Some(v) => strip_char(strip_char(v, '"'), '\''),
            None => "upload.png"@,
        },
{
    match second_piece_range(line, pat) {
        Some((a, b)) => {
            let (c, d) = strip_char_range(line, a, b, '"');
            let (e, f) = strip_char_range(line, c, d, '\'');
            let v = slice_of(line, e, f);
            from_chars(&v)
        },
        None => {
            proof {
                reveal_strlit("upload.png");
            }
            "upload.png".to_string()
        },
    }
}

/// The upload's file name, read from the multipart body decoded as text:
/// the quoted value after `filename=` on the first line holding it, or
/// `upload.png`.
pub fn multipart_filename(text: &str) -> (r: String)
    ensures
        r@ == spec_multipart_filename(text@),
{
    let cs = to_chars(text);
    let pat = to_chars("filename=");
    proof {
        reveal_strlit("filename=");
    }
    let ranges = line_ranges(&cs);
    let ghost ls = lines(cs@);
    let mut k: usize = 0;
    while k < ranges.len()
        invariant
            k <= ranges@.len() == ls.len(),
            ls == lines(cs@),
            cs@ == text@,
            pat@ == "filename="@,
            pat@.len() > 0,
            forall|i: int|
                0 <= i < ranges@.len() ==> {
                    &&& (#[trigger] ranges@[i]).0 <= ranges@[i].1 <= cs@.len()
                    &&& cs@.subrange(ranges@[i].0 as int, ranges@[i].1 as int) == ls[i]
                },
            first_line_with(ls, pat@, 0) == first_line_with(ls, pat@, k as int),
        decreases ranges.len() - k,
    {
        let (lo, hi) = ranges[k];
        let line = slice_of(&cs, lo, hi);
        let found = has_pattern(&line, &pat);
        if found {
            assert(line@ == ls[k as int]);
            assert(first_line_with(ls, pat@, k as int) == Some(k as int));
            assert(cs@ == text@);
            return value_after(&line, &pat);
        }
        k = k + 1;
    }
    proof {
        reveal_strlit("upload.png");
    }
    "upload.png".to_string()
}

/// The data of a part, when it has any.
fn part_data_of(part: &[u8]) -> (r: Option<Vec<u8>>)
    ensures
        match r {
            Some(d) => part_data(part@) == Some(d@),
            None => part_data(part@) is None,
        },
{
    match find_double_newline(part) {
        Some(h) => {
            let n = part.len();
            let mut end = n;
            let ghost d = part@.skip(h as int);
            if n - h >= 2 && part[n - 2] == 13u8 && part[n - 1] == 10u8 {
                end = n - 2;
            } else if n - h >= 1 && part[n - 1] == 10u8 {
                end = n - 1;
            }
            let mut data: Vec<u8> = Vec::new();
            let mut i = h;
            while i < end
                invariant
                    h <= i <= end <= n == part@.len(),
                    data@ == part@.subrange(h as int, i as int),
                decreases end - i,
            {
                data.push(part[i]);
                i = i + 1;
                assert(data@ =~= part@.subrange(h as int, i as int));
            }
            proof {
                if d.len() >= 2 && d[d.len() - 2] == 13u8 && d[d.len() - 1] == 10u8 {
                    assert(d[d.len() - 2] == part@[n - 2] && d[d.len() - 1] == part@[n - 1]);
                    assert(data@ =~= d.take(d.len() - 2));
                } else if d.len() >= 1 && d[d.len() - 1] == 10u8 {
                    assert(d[d.len() - 1] == part@[n - 1]);
                    if n - h >= 2 && part@[n - 2] == 13u8 && part@[n - 1] == 10u8 {
                        assert(d[d.len() - 2] == part@[n - 2]);
                    }
                    assert(data@ =~= d.drop_last());
                } else {
                    if n - h >= 2 && part@[n - 2] == 13u8 && part@[n - 1] == 10u8 {
                        assert(d[d.len() - 2] == part@[n - 2] && d[d.len() - 1] == part@[n - 1]);
                    }
                    if n - h >= 1 && part@[n - 1] == 10u8 {
                        assert(d[d.len() - 1] == part@[n - 1]);
                    }
                    assert(data@ =~= d);
                }
            }
            if data.len() > 0 {
                Some(data)
            } else {
                None
            }
        },
        None => None,
    }
}

/// Pull the uploaded file out of a `multipart/form-data` body: its name
/// (see `multipart_filename`) and the data of the first part after the
/// preamble that has any.
pub fn parse_multipart(body: &[u8], content_type: &str) -> (r: Option<(String, Vec<u8>)>)
    ensures
        match r {
            Some((name, data)) => spec_parse_multipart(body@, content_type@, spec_utf8_lossy(body@))
                == Some((name@, data@)),
            None => spec_parse_multipart(body@, content_type@, spec_utf8_lossy(body@)) is None,
        },
{
    let ct = to_chars(content_type);
    let key = to_chars("boundary=");
    proof {
        reveal_strlit("boundary=");
    }
    let (a, b) = match second_piece_range(&ct, &key) {
        Some(r) => r,
        None => return None,
    };
    let (c, d) = strip_char_range(&ct, a, b, '"');
    let mut marker: Vec<char> = Vec::new();
    marker.push('-');
    marker.push('-');
    extend_range(&mut marker, &ct, c, d);
    assert(marker@ =~= seq!['-', '-'] + strip_char(ct@.subrange(a as int, b as int), '"'));
    let marker_text = from_chars(&marker);
    let marker_bytes = marker_text.as_str().as_bytes();
    let ghost boundary = strip_char(ct@.subrange(a as int, b as int), '"');
    assert(key@ == "boundary="@);
    assert(ct@ == content_type@);
    assert(multipart_boundary(content_type@) == Some(boundary));
    assert(marker_bytes@ == vstd::utf8::encode_utf8(seq!['-', '-'] + boundary));
    proof {
        assert(marker_bytes@.len() > 0) by {
            let m = marker@;
            assert(m =~= seq![m[0]] + m.skip(1));
            vstd::utf8::encode_utf8_first_scalar(m);
        }
    }
    let parts = split_bytes(body, marker_bytes);
    let ghost ps = split_on(body@, marker_bytes@);
    let mut k: usize = 1;
    while k < parts.len()
        invariant
            1 <= k,
            parts@.len() == ps.len(),
            ps == split_on(body@, vstd::utf8::encode_utf8(seq!['-', '-'] + boundary)),
            multipart_boundary(content_type@) == Some(boundary),
            forall|i: int| 0 <= i < parts@.len() ==> (#[trigger] parts@[i])@ == ps[i],
            first_part_data(ps, 1) == first_part_data(ps, k as int),
        decreases parts.len() - k,
    {
        match part_data_of(&parts[k]) {
            Some(data) => {
                assert(first_part_data(ps, k as int) == Some(data@));
                let text = utf8_lossy(body);
                let name = multipart_filename(text.as_str());
                assert(name@ == spec_multipart_filename(spec_utf8_lossy(body@)));
                assert(first_part_data(ps, 1) == Some(data@));
                return Some((name, data));
            },
            None => {},
        }
        k = k + 1;
    }
    None
}

// ---------------------------------------------------------------------------
// New files and uploads
// ---------------------------------------------------------------------------

/// Why a new file's name is refused.
#[derive(Debug, Clone, Copy, PartialEq, Eq, Structural)]
pub enum NameError {
    Empty,
    Invalid,
}

/// The name of a file created from the editor: the request body trimmed,
/// `.md` added unless present; refused when empty, when it is not a plain
/// file name, or when it is longer than 255 bytes.
pub open spec fn spec_new_file_name(body: Seq<char>) -> Result<Seq<char>, NameError> {
    let t = trim(body);
    let name = if crate::strs::ends_with(t, seq!['.', 'm', 'd']) { t } else { t + seq!['.', 'm', 'd'] };
    if t.len() == 0 {
        Err(NameError::Empty)
    } else if !spec_is_plain_file_name(name) || utf8_len_seq(name) > 255 {
        Err(NameError::Invalid)
    } else {
        Ok(name)
    }
}

fn utf8_length(cs: &[char]) -> (n: usize)
    requires
        cs@.len() <= usize::MAX / 4,
    ensures
        n == utf8_len_seq(cs@),
{
    let mut n: usize = 0;
    let mut i: usize = 0;
    while i < cs.len()
        invariant
            i <= cs@.len() <= usize::MAX / 4,
            n == utf8_len_seq(cs@.take(i as int)),
            n <= 4 * i,
        decreases cs.len() - i,
    {
        assert(cs@.take(i + 1).drop_last() =~= cs@.take(i as int));
        n = n + char_utf8_len(cs[i]);
        i = i + 1;
    }
    assert(cs@.take(i as int) =~= cs@);
    n
}

/// The name for a new file, or why it is refused.
pub fn new_file_name(body: &str) -> (r: Result<String, NameError>)
    ensures
        match r {
            Ok(n) => spec_new_file_name(body@) == Ok::<Seq<char>, NameError>(n@),
            Err(e) => spec_new_file_name(body@) == Err::<Seq<char>, NameError>(e),
        },
{
    let t = crate::strs::trimmed(&to_chars(body));
    if t.len() == 0 {
        return Err(NameError::Empty);
    }
    let mut name = t.clone();
    assert(name@ == t@);
    let md: Vec<char> = vec!['.', 'm', 'd'];
    if !crate::strs::ends_with_seq(&t, &md) {
        name.push('.');
        name.push('m');
        name.push('d');
        assert(name@ =~= t@ + seq!['.', 'm', 'd']);
    }
    let s = from_chars(&name);
    if !is_plain_file_name(s.as_str()) {
        return Err(NameError::Invalid);
    }
    proof {
        lemma_utf8_len_at_least(name@);
    }
    // More than 255 characters is more than 255 bytes; otherwise count.
    if name.len() > 255 || utf8_length(&name) > 255 {
        return Err(NameError::Invalid);
    }
    Ok(s)
}

/// Every character takes at least one byte.
proof fn lemma_utf8_len_at_least(s: Seq<char>)
    ensures
        utf8_len_seq(s) >= s.len(),
    decreases s.len(),
{
    if s.len() > 0 {
        lemma_utf8_len_at_least(s.drop_last());
    }
}

/// The first content of a new file: its name without `.md` as a heading.
pub open spec fn spec_new_file_markdown(name: Seq<char>) -> Seq<char> {
    let title = if crate::strs::ends_with(name, seq!['.', 'm', 'd']) { name.take(name.len() - 3) } else { name };
    seq!['#', ' '] + title + seq!['\n']
}

/// The markdown a new file starts with.
pub fn new_file_markdown(name: &str) -> (r: String)
    ensures
        r@ == spec_new_file_markdown(name@),
{
    let cs = to_chars(name);
    let md: Vec<char> = vec!['.', 'm', 'd'];
    let title = if crate::strs::ends_with_seq(&cs, &md) { slice_of(&cs, 0, cs.len() - 3) } else { cs.clone() };
    assert(title@ =~= (if crate::strs::ends_with(name@, seq!['.', 'm', 'd']) { name@.take(name@.len() - 3) } else { name@ }));
    let mut out: Vec<char> = vec!['#', ' '];
    extend_all(&mut out, &title);
    out.push('\n');
    assert(out@ =~= spec_new_file_markdown(name@));
    from_chars(&out)
}

/// The extension given to an image pasted without a file name, by its
/// content type (PNG when unknown).
pub open spec fn spec_paste_extension(content_type: Seq<char>) -> Seq<char> {
    if content_type == "image/jpeg"@ {
        "jpg"@
    } else if content_type == "image/gif"@ {
        "gif"@
    } else if content_type == "image/webp"@ {
        "webp"@
    } else if content_type == "image/svg+xml"@ {
        "svg"@
    } else {
        "png"@
    }
}

/// The extension for a pasted image.
pub fn paste_extension(content_type: &str) -> (r: &'static str)
    ensures
        r@ == spec_paste_extension(content_type@),
{
    let ct = to_chars(content_type);
    if eq_lit(&ct, "image/jpeg") {
        "jpg"
    } else if eq_lit(&ct, "image/gif") {
        "gif"
    } else if eq_lit(&ct, "image/webp") {
        "webp"
    } else if eq_lit(&ct, "image/svg+xml") {
        "svg"
    } else {
        "png"
    }
}

/// A new file's name, when accepted, is a plain markdown file name of at
/// most 255 bytes.
pub proof fn lemma_new_file_name_safe(body: Seq<char>)
    ensures
        spec_new_file_name(body) matches Ok(n) ==> {
            &&& crate::strs::ends_with(n, seq!['.', 'm', 'd'])
            &&& spec_is_plain_file_name(n)
            &&& utf8_len_seq(n) <= 255
        },
{
    let t = trim(body);
    if !crate::strs::ends_with(t, seq!['.', 'm', 'd']) && t.len() > 0 {
        let n = t + seq!['.', 'm', 'd'];
        assert(n.subrange(n.len() - 3, n.len() as int) =~= seq!['.', 'm', 'd']);
    }
}

// ---------------------------------------------------------------------------
// Static asset requests
// ---------------------------------------------------------------------------

/// The names of a request path as `Path::components` finds them on Unix:
/// the pieces between slashes, with empty pieces and `.` left out.
pub open spec fn kept_names(ps: Seq<Seq<char>>) -> Seq<Seq<char>>
    decreases ps.len(),
{
    if ps.len() == 0 {
        seq![]
    } else {
        let rest = kept_names(ps.drop_last());
        let p = ps.last();
        if p.len() == 0 || p == seq!['.'] { rest } else { rest.push(p) }
    }
}

/// The extension `Path::extension` finds in a file name: what follows the
/// last dot, unless there is no dot or the only one that counts starts the
/// name.
pub open spec fn name_extension(name: Seq<char>) -> Option<Seq<char>> {
    match rfind_char(name, '.') {
        Some(i) => if i == 0 { None } else { Some(name.skip(i + 1)) },
        None => None,
    }
}

/// A request for a static asset, checked: no NUL, not absolute, no `..`,
/// at least one name; and the last name's extension (lowercased) is an
/// image type the server hands out. The result is the names to join onto
/// the served directory.
pub open spec fn spec_static_request(rel: Seq<char>) -> Option<Seq<Seq<char>>> {
    let pieces = split_char(rel, '/');
    let names = kept_names(pieces);
    if rel.contains('\0') || (rel.len() > 0 && rel[0] == '/') || pieces.contains(seq!['.', '.']) || names.len() == 0 {
        None
    } else {
        let ext = match name_extension(names.last()) {
            Some(e) => lower_seq(e),
            None => seq![],
        };
        if spec_static_content_type(ext) is Some { Some(names) } else { None }
    }
}

/// Check a static asset request path and split it into the names to join
/// onto the served directory; `None` for a path that may not be served.
/// Whether the file is there, and inside the directory once links are
/// followed, is for the caller to find out.
pub fn static_request(rel: &str) -> (r: Option<Vec<String>>)
    ensures
        match r {
            Some(v) => spec_static_request(rel@) == Some(v@.map_values(|s: String| s@)),
            None => spec_static_request(rel@) is None,
        },
{
    let cs = to_chars(rel);
    if has_char(&cs, '\0') || (cs.len() > 0 && cs[0] == '/') {
        return None;
    }
    let ranges = split_ranges(&cs, '/');
    let ghost pieces = split_char(cs@, '/');
    let mut names: Vec<String> = Vec::new();
    let mut i: usize = 0;
    assert(pieces.take(0) =~= Seq::<Seq<char>>::empty());
    while i < ranges.len()
        invariant
            i <= ranges@.len() == pieces.len(),
            cs@ == rel@,
            pieces == split_char(cs@, '/'),
            forall|q: int|
                0 <= q < ranges@.len() ==> {
                    &&& (#[trigger] ranges@[q]).0 <= ranges@[q].1 <= cs@.len()
                    &&& cs@.subrange(ranges@[q].0 as int, ranges@[q].1 as int) == pieces[q]
                },
            names@.map_values(|s: String| s@) == kept_names(pieces.take(i as int)),
            forall|q: int| 0 <= q < i ==> pieces[q] != seq!['.', '.'],
        decreases ranges.len() - i,
    {
        let (a, b) = ranges[i];
        let piece = slice_of(&cs, a, b);
        proof {
            let t = pieces.take(i + 1);
            assert(t.drop_last() =~= pieces.take(i as int));
            assert(t.last() == piece@);
        }
        if piece.len() == 2 && piece[0] == '.' && piece[1] == '.' {
            assert(piece@ =~= seq!['.', '.']);
            assert(pieces[i as int] == seq!['.', '.']);
            assert(pieces.contains(seq!['.', '.']));
            return None;
        }
        assert(piece@ != seq!['.', '.']);
        if piece.len() == 0 || (piece.len() == 1 && piece[0] == '.') {
            assert(piece@.len() == 0 || piece@ =~= seq!['.']);
        } else {
            assert(piece@ != seq!['.']);
            let ghost before = names@.map_values(|s: String| s@);
            names.push(from_chars(&piece));
            assert(names@.map_values(|s: String| s@) =~= before.push(piece@));
        }
        i = i + 1;
    }
    assert(pieces.take(i as int) =~= pieces);
    assert(!pieces.contains(seq!['.', '.']));
    if names.len() == 0 {
        return None;
    }
    let last = to_chars(names[names.len() - 1].as_str());
    let ext: Vec<char> = match rfind_char_in(&last, '.') {
        Some(d) => if d == 0 {
            Vec::new()
        } else {
            assert(crate::strs::is_last_char(last@, '.', d as int));
            assert(d < last.len());
            let e = slice_of(&last, d + 1, last.len());
            assert(e@ =~= last@.skip(d + 1));
            lower_chars(&e)
        },
        None => Vec::new(),
    };
    proof {
        assert(names@.map_values(|s: String| s@).last() == last@);
        if name_extension(last@) is None {
            assert(ext@ =~= seq![]);
        }
    }
    let ext_s = from_chars(&ext);
    match static_content_type(ext_s.as_str()) {
        Some(_) => Some(names),
        None => None,
    }
}

proof fn lemma_kept_names(ps: Seq<Seq<char>>)
    ensures
        forall|k: int| 0 <= k < kept_names(ps).len() ==> {
            &&& (#[trigger] kept_names(ps)[k]).len() > 0
            &&& kept_names(ps)[k] != seq!['.']
            &&& ps.contains(kept_names(ps)[k])
        },
    decreases ps.len(),
{
    if ps.len() > 0 {
        lemma_kept_names(ps.drop_last());
        let rest = kept_names(ps.drop_last());
        assert forall|k: int| 0 <= k < kept_names(ps).len() implies {
            &&& (#[trigger] kept_names(ps)[k]).len() > 0
            &&& kept_names(ps)[k] != seq!['.']
            &&& ps.contains(kept_names(ps)[k])
        } by {
            if k < rest.len() {
                assert(kept_names(ps)[k] == rest[k]);
                let m = choose|m: int| 0 <= m < ps.drop_last().len() && #[trigger] ps.drop_last()[m] == rest[k];
                assert(ps[m] == rest[k]);
            } else {
                assert(kept_names(ps)[k] == ps.last());
                assert(ps[ps.len() - 1] == ps.last());
            }
        }
    }
}

/// An accepted asset request names only plain entries below the served
/// directory: there is at least one name, and every name is non-empty,
/// neither `.` nor `..`, and holds no slash and no NUL.
pub proof fn lemma_static_request_contained(rel: Seq<char>)
    ensures
        match spec_static_request(rel) {
            Some(names) => names.len() > 0 && forall|k: int| 0 <= k < names.len() ==> {
                &&& (#[trigger] names[k]).len() > 0
                &&& names[k] != seq!['.']
                &&& names[k] != seq!['.', '.']
                &&& !names[k].contains('/')
                &&& !names[k].contains('\0')
            },
            None => true,
        },
{
    let pieces = split_char(rel, '/');
    lemma_kept_names(pieces);
    crate::strs::lemma_split_pieces(rel, '/');
    if let Some(names) = spec_static_request(rel) {
        assert(names == kept_names(pieces));
        assert forall|k: int| 0 <= k < names.len() implies {
            &&& (#[trigger] names[k]).len() > 0
            &&& names[k] != seq!['.']
            &&& names[k] != seq!['.', '.']
            &&& !names[k].contains('/')
            &&& !names[k].contains('\0')
        } by {
            let q = choose|q: int| 0 <= q < pieces.len() && #[trigger] pieces[q] == names[k];
            if names[k] == seq!['.', '.'] {
                assert(pieces.contains(seq!['.', '.']));
            }
            if names[k].contains('/') {
                let j = choose|j: int| 0 <= j < names[k].len() && names[k][j] == '/';
                assert(pieces[q][j] != '/');
            }
            if names[k].contains('\0') {
                let j = choose|j: int| 0 <= j < names[k].len() && names[k][j] == '\0';
                assert(rel.contains(pieces[q][j]));
            }
        }
    }
}

} // verus!


