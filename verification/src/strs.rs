//! Character-sequence helpers shared by the text-processing modules.
//!
//! Strings are modelled by their character sequences (`Seq<char>`); the exec
//! helpers here work on `Vec<char>` / `[char]` and are proved against the
//! spec functions, which restate the standard library's `str` operations
//! (`trim`, `lines`, `find`, ...) on sequences.

use vstd::prelude::*;

verus! {

// ---------------------------------------------------------------------------
// Character classes
// ---------------------------------------------------------------------------

/// Unicode `White_Space`, the set that `char::is_whitespace` tests.
pub open spec fn is_ws(c: char) -> bool {
    let u = c as u32;
    (0x9 <= u && u <= 0xd) || u == 0x20 || u == 0x85 || u == 0xa0 || u == 0x1680
        || (0x2000 <= u && u <= 0x200a) || u == 0x2028 || u == 0x2029 || u == 0x202f
        || u == 0x205f || u == 0x3000
}

/// `char::is_whitespace`.
pub fn char_is_ws(c: char) -> (b: bool)
    ensures
        b == is_ws(c),
{
    let u = c as u32;
    (0x9 <= u && u <= 0xd) || u == 0x20 || u == 0x85 || u == 0xa0 || u == 0x1680 || (0x2000 <= u
        && u <= 0x200a) || u == 0x2028 || u == 0x2029 || u == 0x202f || u == 0x205f || u == 0x3000
}

pub open spec fn is_ascii_digit(c: char) -> bool {
    '0' <= c && c <= '9'
}

pub open spec fn is_ascii_upper(c: char) -> bool {
    'A' <= c && c <= 'Z'
}

pub open spec fn is_ascii_lower(c: char) -> bool {
    'a' <= c && c <= 'z'
}

pub open spec fn is_ascii_alpha(c: char) -> bool {
    is_ascii_upper(c) || is_ascii_lower(c)
}

/// `char::to_ascii_lowercase`.
pub open spec fn lower(c: char) -> char {
    if is_ascii_upper(c) {
        ((c as u32) + 32) as char
    } else {
        c
    }
}

/// `char::to_ascii_uppercase`.
pub open spec fn upper(c: char) -> char {
    if is_ascii_lower(c) {
        ((c as u32) - 32) as char
    } else {
        c
    }
}

/// `str::to_ascii_lowercase` on a character sequence.
pub open spec fn lower_seq(s: Seq<char>) -> Seq<char> {
    Seq::new(s.len(), |i: int| lower(s[i]))
}

/// `str::to_ascii_uppercase` on a character sequence.
pub open spec fn upper_seq(s: Seq<char>) -> Seq<char> {
    Seq::new(s.len(), |i: int| upper(s[i]))
}

pub fn char_lower(c: char) -> (r: char)
    ensures
        r == lower(c),
{
    if 'A' <= c && c <= 'Z' {
        let u = c as u32 + 32;
        let r = char_from_ascii(u);
        r
    } else {
        c
    }
}

pub fn char_upper(c: char) -> (r: char)
    ensures
        r == upper(c),
{
    if 'a' <= c && c <= 'z' {
        let u = c as u32 - 32;
        let r = char_from_ascii(u);
        r
    } else {
        c
    }
}

/// The code point of `c`.
pub fn char_code(c: char) -> (u: u32)
    ensures
        u as int == c as int,
        u == c as u32,
{
    c as u32
}

/// The ASCII character with code `u`.
pub fn char_from_ascii(u: u32) -> (c: char)
    requires
        u < 128,
    ensures
        c as u32 == u,
        c == u as char,
{
    let b = u as u8;
    let c = b as char;
    c
}

/// Lowercase hexadecimal digit for `n < 16`.
pub open spec fn hex_digit(n: int) -> char {
    if n < 10 {
        (('0' as int) + n) as char
    } else {
        (('a' as int) + n - 10) as char
    }
}

/// The `width` lowest hexadecimal digits of `u`, most significant first.
pub open spec fn hex_digits(u: int, width: nat) -> Seq<char>
    decreases width,
{
    if width == 0 {
        seq![]
    } else {
        hex_digits(u / 16, (width - 1) as nat).push(hex_digit(u % 16))
    }
}

/// Lowercase hexadecimal digit.
pub fn hex_char(n: u32) -> (c: char)
    requires
        n < 16,
    ensures
        c == hex_digit(n as int),
{
    if n < 10 {
        char_from_ascii(48 + n)
    } else {
        char_from_ascii(87 + n)
    }
}

/// Appends the `width` lowest hexadecimal digits of `u` to `out`.
pub fn push_hex(out: &mut Vec<char>, u: u32, width: usize)
    ensures
        final(out)@ == old(out)@ + hex_digits(u as int, width as nat),
    decreases width,
{
    if width > 0 {
        push_hex(out, u / 16, width - 1);
        out.push(hex_char(u % 16));
        assert(hex_digits(u as int, width as nat) == hex_digits(u as int / 16, (width - 1) as nat).push(hex_digit(u as int % 16)));
    }
}

/// Decimal digit character for `n < 10`.
pub open spec fn digit_char(n: int) -> char {
    (('0' as int) + n) as char
}

/// Decimal representation of `n`, as `{}` formats an unsigned integer.
pub open spec fn decimal(n: nat) -> Seq<char>
    decreases n,
{
    if n < 10 {
        seq![digit_char(n as int)]
    } else {
        decimal(n / 10).push(digit_char((n % 10) as int))
    }
}

/// Appends the decimal representation of `n` to `out`.
pub fn push_decimal(out: &mut Vec<char>, n: u64)
    ensures
        final(out)@ == old(out)@ + decimal(n as nat),
    decreases n,
{
    if n >= 10 {
        push_decimal(out, n / 10);
    }
    let d = (n % 10) as u32;
    out.push(char_from_ascii(48 + d));
    proof {
        if n >= 10 {
            assert(decimal(n as nat) == decimal((n / 10) as nat).push(digit_char((n % 10) as int)));
        }
    }
}

/// `s` with `s[a..b]` replaced by `r`.
pub open spec fn splice(s: Seq<char>, a: int, b: int, r: Seq<char>) -> Seq<char> {
    s.take(a) + r + s.skip(b)
}

/// Builds `s[..a] + r + s[b..]`.
pub fn splice_vec(s: &[char], a: usize, b: usize, r: &[char]) -> (out: Vec<char>)
    requires
        a <= b <= s@.len(),
    ensures
        out@ == splice(s@, a as int, b as int, r@),
{
    let mut out = slice_of(s, 0, a);
    extend_all(&mut out, r);
    extend_range(&mut out, s, b, s.len());
    assert(out@ =~= splice(s@, a as int, b as int, r@));
    out
}

// ---------------------------------------------------------------------------
// Searching
// ---------------------------------------------------------------------------

/// `p` occurs in `s` at index `i`.
pub open spec fn matches_at(s: Seq<char>, p: Seq<char>, i: int) -> bool {
    0 <= i && i + p.len() <= s.len() && s.subrange(i, i + p.len()) == p
}

/// `i` is the first index at or after `from` where `p` occurs in `s`.
pub open spec fn is_first_match(s: Seq<char>, p: Seq<char>, from: int, i: int) -> bool {
    &&& from <= i
    &&& matches_at(s, p, i)
    &&& forall|j: int| from <= j < i ==> !matches_at(s, p, j)
}

/// `str::find` of a pattern, starting the search at `from`.
pub open spec fn find_from(s: Seq<char>, p: Seq<char>, from: int) -> Option<int> {
    if exists|i: int| is_first_match(s, p, from, i) {
        Some(choose|i: int| is_first_match(s, p, from, i))
    } else {
        None
    }
}

/// `str::find` of a pattern.
pub open spec fn find(s: Seq<char>, p: Seq<char>) -> Option<int> {
    find_from(s, p, 0)
}

/// `str::contains` of a pattern.
pub open spec fn contains_seq(s: Seq<char>, p: Seq<char>) -> bool {
    exists|i: int| matches_at(s, p, i)
}

pub open spec fn starts_with(s: Seq<char>, p: Seq<char>) -> bool {
    matches_at(s, p, 0)
}

pub open spec fn ends_with(s: Seq<char>, p: Seq<char>) -> bool {
    p.len() <= s.len() && matches_at(s, p, s.len() - p.len())
}

/// `i` is the first index at or after `from` holding `c`.
pub open spec fn is_first_char(s: Seq<char>, c: char, from: int, i: int) -> bool {
    &&& from <= i < s.len()
    &&& s[i] == c
    &&& forall|j: int| from <= j < i ==> s[j] != c
}

/// `str::find` of a character, starting at `from`.
pub open spec fn find_char_from(s: Seq<char>, c: char, from: int) -> Option<int> {
    if exists|i: int| is_first_char(s, c, from, i) {
        Some(choose|i: int| is_first_char(s, c, from, i))
    } else {
        None
    }
}

pub open spec fn find_char(s: Seq<char>, c: char) -> Option<int> {
    find_char_from(s, c, 0)
}

/// `i` is the last index holding `c`.
pub open spec fn is_last_char(s: Seq<char>, c: char, i: int) -> bool {
    &&& 0 <= i < s.len()
    &&& s[i] == c
    &&& forall|j: int| i < j < s.len() ==> s[j] != c
}

/// When no first occurrence exists at or after `from`, there is none at all.
pub proof fn lemma_no_first_char(s: Seq<char>, c: char, from: int, j: int)
    requires
        find_char_from(s, c, from) is None,
        from <= j < s.len(),
    ensures
        s[j] != c,
    decreases j - from,
{
    if s[j] == c {
        if forall|k: int| from <= k < j ==> s[k] != c {
            assert(is_first_char(s, c, from, j));
        } else {
            let k = choose|k: int| from <= k < j && s[k] == c;
            lemma_no_first_char(s, c, from, k);
        }
    }
}

/// `str::rfind` of a character.
pub open spec fn rfind_char(s: Seq<char>, c: char) -> Option<int> {
    if exists|i: int| is_last_char(s, c, i) {
        Some(choose|i: int| is_last_char(s, c, i))
    } else {
        None
    }
}

pub proof fn lemma_first_char_unique(s: Seq<char>, c: char, from: int, i: int)
    requires
        is_first_char(s, c, from, i),
    ensures
        find_char_from(s, c, from) == Some(i),
{
    let k = choose|k: int| is_first_char(s, c, from, k);
    if k < i {
        assert(s[k] != c);
    } else if i < k {
        assert(s[i] != c);
    }
}

pub proof fn lemma_first_char_none(s: Seq<char>, c: char, from: int)
    requires
        forall|j: int| from <= j < s.len() ==> s[j] != c,
    ensures
        find_char_from(s, c, from) is None,
{
    if exists|i: int| is_first_char(s, c, from, i) {
        let k = choose|k: int| is_first_char(s, c, from, k);
        assert(s[k] == c);
    }
}

pub proof fn lemma_last_char_unique(s: Seq<char>, c: char, i: int)
    requires
        is_last_char(s, c, i),
    ensures
        rfind_char(s, c) == Some(i),
{
    let k = choose|k: int| is_last_char(s, c, k);
    if k < i {
        assert(s[i] != c);
    } else if i < k {
        assert(s[k] != c);
    }
}

pub proof fn lemma_last_char_none(s: Seq<char>, c: char)
    requires
        forall|j: int| 0 <= j < s.len() ==> s[j] != c,
    ensures
        rfind_char(s, c) is None,
{
    if exists|i: int| is_last_char(s, c, i) {
        let k = choose|k: int| is_last_char(s, c, k);
        assert(s[k] == c);
    }
}

pub proof fn lemma_first_match_unique(s: Seq<char>, p: Seq<char>, from: int, i: int)
    requires
        is_first_match(s, p, from, i),
    ensures
        find_from(s, p, from) == Some(i),
{
    let k = choose|k: int| is_first_match(s, p, from, k);
    if k < i {
        assert(!matches_at(s, p, k));
    } else if i < k {
        assert(!matches_at(s, p, i));
    }
}

pub proof fn lemma_first_match_none(s: Seq<char>, p: Seq<char>, from: int)
    requires
        forall|j: int| from <= j ==> !matches_at(s, p, j),
    ensures
        find_from(s, p, from) is None,
{
    if exists|i: int| is_first_match(s, p, from, i) {
        let k = choose|k: int| is_first_match(s, p, from, k);
        assert(matches_at(s, p, k));
    }
}

/// When no first match exists at or after `from`, no match exists there at all.
pub proof fn lemma_no_first_match(s: Seq<char>, p: Seq<char>, from: int, j: int)
    requires
        find_from(s, p, from) is None,
        from <= j,
    ensures
        !matches_at(s, p, j),
    decreases j - from,
{
    if matches_at(s, p, j) {
        if forall|k: int| from <= k < j ==> !matches_at(s, p, k) {
            assert(is_first_match(s, p, from, j));
        } else {
            let k = choose|k: int| from <= k < j && matches_at(s, p, k);
            lemma_no_first_match(s, p, from, k);
        }
    }
}

/// A search from `pos` is a search of the suffix at `pos`, shifted.
pub proof fn lemma_find_suffix(s: Seq<char>, p: Seq<char>, pos: int)
    requires
        0 <= pos <= s.len(),
    ensures
        match find_from(s, p, pos) {
            Some(i) => find(s.skip(pos), p) == Some(i - pos) && pos <= i && i + p.len() <= s.len(),
            None => find(s.skip(pos), p) is None,
        },
{
    let rest = s.skip(pos);
    match find_from(s, p, pos) {
        Some(i) => {
            assert(is_first_match(s, p, pos, i));
            assert(rest.subrange(i - pos, i - pos + p.len()) =~= s.subrange(i, i + p.len()));
            assert forall|j: int| 0 <= j < i - pos implies !matches_at(rest, p, j) by {
                if matches_at(rest, p, j) {
                    assert(rest.subrange(j, j + p.len()) =~= s.subrange(pos + j, pos + j + p.len()));
                    assert(matches_at(s, p, pos + j));
                }
            }
            assert(is_first_match(rest, p, 0, i - pos));
            lemma_first_match_unique(rest, p, 0, i - pos);
        },
        None => {
            assert forall|j: int| 0 <= j implies !matches_at(rest, p, j) by {
                lemma_no_first_match(s, p, pos, pos + j);
                if matches_at(rest, p, j) {
                    assert(rest.subrange(j, j + p.len()) =~= s.subrange(pos + j, pos + j + p.len()));
                }
            }
            lemma_first_match_none(rest, p, 0);
        },
    }
}

/// Whether `p` occurs in `s` at index `i`.
pub fn match_at(s: &[char], p: &[char], i: usize) -> (b: bool)
    ensures
        b == matches_at(s@, p@, i as int),
{
    if i > s.len() || p.len() > s.len() - i {
        return false;
    }
    let mut k: usize = 0;
    while k < p.len()
        invariant
            i + p@.len() <= s@.len(),
            i + p.len() <= s.len(),
            k <= p@.len(),
            forall|j: int| 0 <= j < k ==> s@[i + j] == p@[j],
        decreases p.len() - k,
    {
        if s[i + k] != p[k] {
            assert(s@.subrange(i as int, i + p@.len())[k as int] != p@[k as int]);
            return false;
        }
        k = k + 1;
    }
    assert(s@.subrange(i as int, i + p@.len()) =~= p@);
    true
}

/// First index at or after `from` where `p` occurs in `s`.
pub fn find_seq_from(s: &[char], p: &[char], from: usize) -> (r: Option<usize>)
    ensures
        match r {
            Some(i) => find_from(s@, p@, from as int) == Some(i as int),
            None => find_from(s@, p@, from as int) is None,
        },
{
    if from > s.len() {
        proof {
            lemma_first_match_none(s@, p@, from as int);
        }
        return None;
    }
    let mut i = from;
    while i < s.len()
        invariant
            from <= i <= s@.len(),
            forall|j: int| from <= j < i ==> !matches_at(s@, p@, j),
        decreases s.len() - i,
    {
        if match_at(s, p, i) {
            proof {
                lemma_first_match_unique(s@, p@, from as int, i as int);
            }
            return Some(i);
        }
        i = i + 1;
    }
    if match_at(s, p, i) {
        proof {
            lemma_first_match_unique(s@, p@, from as int, i as int);
        }
        return Some(i);
    }
    proof {
        lemma_first_match_none(s@, p@, from as int);
    }
    None
}

/// First index at or after `from` holding `c`.
pub fn find_char_in(s: &[char], c: char, from: usize) -> (r: Option<usize>)
    ensures
        match r {
            Some(i) => find_char_from(s@, c, from as int) == Some(i as int) && is_first_char(
                s@,
                c,
                from as int,
                i as int,
            ),
            None => find_char_from(s@, c, from as int) is None && forall|j: int|
                from <= j < s@.len() ==> s@[j] != c,
        },
{
    let mut i = from;
    while i < s.len()
        invariant
            from <= i,
            forall|j: int| from <= j < i ==> s@[j] != c,
        decreases s.len() - i,
    {
        if s[i] == c {
            proof {
                lemma_first_char_unique(s@, c, from as int, i as int);
            }
            return Some(i);
        }
        i = i + 1;
    }
    proof {
        lemma_first_char_none(s@, c, from as int);
    }
    None
}

/// Last index holding `c`.
pub fn rfind_char_in(s: &[char], c: char) -> (r: Option<usize>)
    ensures
        match r {
            Some(i) => rfind_char(s@, c) == Some(i as int) && is_last_char(s@, c, i as int),
            None => rfind_char(s@, c) is None && forall|j: int| 0 <= j < s@.len() ==> s@[j] != c,
        },
{
    let mut i = s.len();
    while i > 0
        invariant
            i <= s@.len(),
            forall|j: int| i <= j < s@.len() ==> s@[j] != c,
        decreases i,
    {
        if s[i - 1] == c {
            proof {
                lemma_last_char_unique(s@, c, i - 1);
            }
            return Some(i - 1);
        }
        i = i - 1;
    }
    proof {
        lemma_last_char_none(s@, c);
    }
    None
}

/// Whether `c` occurs in `s`.
pub fn has_char(s: &[char], c: char) -> (b: bool)
    ensures
        b == s@.contains(c),
{
    match find_char_in(s, c, 0) {
        Some(i) => {
            assert(s@[i as int] == c);
            true
        },
        None => false,
    }
}

/// Whether `s` begins with `p`.
pub fn starts_with_at(s: &[char], p: &[char]) -> (b: bool)
    ensures
        b == starts_with(s@, p@),
{
    match_at(s, p, 0)
}

/// Whether `s` ends with `p`.
pub fn ends_with_seq(s: &[char], p: &[char]) -> (b: bool)
    ensures
        b == ends_with(s@, p@),
{
    if p.len() > s.len() {
        false
    } else {
        match_at(s, p, s.len() - p.len())
    }
}

/// Whether the two sequences are equal.
pub fn seq_eq(a: &[char], b: &[char]) -> (r: bool)
    ensures
        r == (a@ == b@),
{
    if a.len() != b.len() {
        return false;
    }
    let r = match_at(a, b, 0);
    assert(a@.subrange(0, b@.len() as int) =~= a@);
    r
}

// ---------------------------------------------------------------------------
// Trimming
// ---------------------------------------------------------------------------

/// Number of leading whitespace characters.
pub open spec fn lead_ws(s: Seq<char>) -> int
    decreases s.len(),
{
    if s.len() > 0 && is_ws(s[0]) {
        1 + lead_ws(s.drop_first())
    } else {
        0
    }
}

/// Number of trailing whitespace characters.
pub open spec fn trail_ws(s: Seq<char>) -> int
    decreases s.len(),
{
    if s.len() > 0 && is_ws(s.last()) {
        1 + trail_ws(s.drop_last())
    } else {
        0
    }
}

/// `str::trim_start`.
pub open spec fn trim_start(s: Seq<char>) -> Seq<char> {
    s.skip(lead_ws(s))
}

/// `str::trim_end`.
pub open spec fn trim_end(s: Seq<char>) -> Seq<char> {
    s.take(s.len() - trail_ws(s))
}

/// `str::trim`.
pub open spec fn trim(s: Seq<char>) -> Seq<char> {
    trim_end(trim_start(s))
}

/// `lead_ws` is the length of the whitespace run at the front.
pub proof fn lemma_lead_ws(s: Seq<char>)
    ensures
        0 <= lead_ws(s) <= s.len(),
        forall|j: int| 0 <= j < lead_ws(s) ==> is_ws(#[trigger] s[j]),
        lead_ws(s) < s.len() ==> !is_ws(s[lead_ws(s)]),
    decreases s.len(),
{
    if s.len() > 0 && is_ws(s[0]) {
        lemma_lead_ws(s.drop_first());
        assert forall|j: int| 0 <= j < lead_ws(s) implies is_ws(#[trigger] s[j]) by {
            if j > 0 {
                assert(s[j] == s.drop_first()[j - 1]);
            }
        }
    }
}

/// A whitespace run followed by a non-whitespace character determines `lead_ws`.
pub proof fn lemma_lead_ws_char(s: Seq<char>, k: int)
    requires
        0 <= k <= s.len(),
        forall|j: int| 0 <= j < k ==> is_ws(#[trigger] s[j]),
        k < s.len() ==> !is_ws(s[k]),
    ensures
        lead_ws(s) == k,
    decreases s.len(),
{
    if k > 0 {
        assert forall|j: int| 0 <= j < k - 1 implies is_ws(#[trigger] s.drop_first()[j]) by {
            assert(s.drop_first()[j] == s[j + 1]);
        }
        if k - 1 < s.drop_first().len() {
            assert(s.drop_first()[k - 1] == s[k]);
        }
        lemma_lead_ws_char(s.drop_first(), k - 1);
    }
}

/// Trimming twice is trimming once.
pub proof fn lemma_trim_idempotent(s: Seq<char>)
    ensures
        trim(trim(s)) == trim(s),
{
    let u = trim_start(s);
    let t = trim(s);
    lemma_lead_ws(s);
    lemma_trail_ws(u);
    if t.len() > 0 {
        assert(t[0] == u[0]);
        assert(u[0] == s[lead_ws(s)]);
        lemma_lead_ws_char(t, 0);
        assert(t.skip(0) =~= t);
        assert(t[t.len() - 1] == u[u.len() - trail_ws(u) - 1]);
        lemma_trail_ws_char(t, 0);
        assert(t.take(t.len() as int) =~= t);
    } else {
        assert(lead_ws(t) == 0);
        assert(trim(t) =~= t);
    }
}

/// `trail_ws` is the length of the whitespace run at the back.
pub proof fn lemma_trail_ws(s: Seq<char>)
    ensures
        0 <= trail_ws(s) <= s.len(),
        forall|j: int| s.len() - trail_ws(s) <= j < s.len() ==> is_ws(#[trigger] s[j]),
        trail_ws(s) < s.len() ==> !is_ws(s[s.len() - trail_ws(s) - 1]),
    decreases s.len(),
{
    if s.len() > 0 && is_ws(s.last()) {
        lemma_trail_ws(s.drop_last());
        assert forall|j: int| s.len() - trail_ws(s) <= j < s.len() implies is_ws(
            #[trigger] s[j],
        ) by {
            if j < s.len() - 1 {
                assert(s[j] == s.drop_last()[j]);
            }
        }
        if trail_ws(s) < s.len() {
            assert(s[s.len() - trail_ws(s) - 1] == s.drop_last()[s.drop_last().len() - trail_ws(
                s.drop_last(),
            ) - 1]);
        }
    }
}

/// A whitespace run at the back preceded by a non-whitespace character determines `trail_ws`.
pub proof fn lemma_trail_ws_char(s: Seq<char>, k: int)
    requires
        0 <= k <= s.len(),
        forall|j: int| s.len() - k <= j < s.len() ==> is_ws(#[trigger] s[j]),
        k < s.len() ==> !is_ws(s[s.len() - k - 1]),
    ensures
        trail_ws(s) == k,
    decreases s.len(),
{
    if k > 0 {
        let t = s.drop_last();
        assert forall|j: int| t.len() - (k - 1) <= j < t.len() implies is_ws(#[trigger] t[j]) by {
            assert(t[j] == s[j]);
        }
        if k - 1 < t.len() {
            assert(t[t.len() - (k - 1) - 1] == s[s.len() - k - 1]);
        }
        lemma_trail_ws_char(t, k - 1);
    }
}

/// Index of the first non-whitespace character in `s[lo..hi]` (or `hi`).
pub fn skip_ws(s: &[char], lo: usize, hi: usize) -> (r: usize)
    requires
        lo <= hi <= s@.len(),
    ensures
        lo <= r <= hi,
        r - lo == lead_ws(s@.subrange(lo as int, hi as int)),
        forall|j: int| lo <= j < r ==> is_ws(#[trigger] s@[j]),
        r < hi ==> !is_ws(s@[r as int]),
{
    let mut i = lo;
    while i < hi && char_is_ws(s[i])
        invariant
            lo <= i <= hi <= s@.len(),
            forall|j: int| lo <= j < i ==> is_ws(#[trigger] s@[j]),
        decreases hi - i,
    {
        i = i + 1;
    }
    proof {
        let t = s@.subrange(lo as int, hi as int);
        assert forall|j: int| 0 <= j < i - lo implies is_ws(#[trigger] t[j]) by {
            assert(t[j] == s@[lo + j]);
        }
        if i < hi {
            assert(t[i - lo] == s@[i as int]);
        }
        lemma_lead_ws_char(t, i - lo);
    }
    i
}

/// Index one past the last non-whitespace character in `s[lo..hi]` (or `lo`).
pub fn skip_ws_back(s: &[char], lo: usize, hi: usize) -> (r: usize)
    requires
        lo <= hi <= s@.len(),
    ensures
        lo <= r <= hi,
        hi - r == trail_ws(s@.subrange(lo as int, hi as int)),
        forall|j: int| r <= j < hi ==> is_ws(#[trigger] s@[j]),
        r > lo ==> !is_ws(s@[r - 1]),
{
    let mut i = hi;
    while i > lo && char_is_ws(s[i - 1])
        invariant
            lo <= i <= hi <= s@.len(),
            forall|j: int| i <= j < hi ==> is_ws(#[trigger] s@[j]),
        decreases i - lo,
    {
        i = i - 1;
    }
    proof {
        let t = s@.subrange(lo as int, hi as int);
        assert forall|j: int| t.len() - (hi - i) <= j < t.len() implies is_ws(#[trigger] t[j]) by {
            assert(t[j] == s@[lo + j]);
        }
        if i > lo {
            assert(t[t.len() - (hi - i) - 1] == s@[i - 1]);
        }
        lemma_trail_ws_char(t, (hi - i) as int);
    }
    i
}

/// Bounds of `trim(s[lo..hi])` inside `s`.
pub fn trim_range(s: &[char], lo: usize, hi: usize) -> (r: (usize, usize))
    requires
        lo <= hi <= s@.len(),
    ensures
        lo <= r.0 <= r.1 <= hi,
        s@.subrange(r.0 as int, r.1 as int) == trim(s@.subrange(lo as int, hi as int)),
        s@.subrange(r.0 as int, hi as int) == trim_start(s@.subrange(lo as int, hi as int)),
{
    let a = skip_ws(s, lo, hi);
    let b = skip_ws_back(s, a, hi);
    proof {
        let t = s@.subrange(lo as int, hi as int);
        assert(trim_start(t) =~= s@.subrange(a as int, hi as int));
        assert(trim_end(trim_start(t)) =~= s@.subrange(a as int, b as int));
    }
    (a, b)
}

/// Copy of `s[lo..hi]`.
pub fn slice_of(s: &[char], lo: usize, hi: usize) -> (r: Vec<char>)
    requires
        lo <= hi <= s@.len(),
    ensures
        r@ == s@.subrange(lo as int, hi as int),
{
    let mut r: Vec<char> = Vec::new();
    let mut i = lo;
    while i < hi
        invariant
            lo <= i <= hi <= s@.len(),
            r@ == s@.subrange(lo as int, i as int),
        decreases hi - i,
    {
        r.push(s[i]);
        i = i + 1;
        assert(r@ =~= s@.subrange(lo as int, i as int));
    }
    r
}

/// `trim` of a whole sequence, copied.
pub fn trimmed(s: &[char]) -> (r: Vec<char>)
    ensures
        r@ == trim(s@),
{
    let (a, b) = trim_range(s, 0, s.len());
    assert(s@.subrange(0, s@.len() as int) =~= s@);
    slice_of(s, a, b)
}

/// Appends `s[lo..hi]` to `out`.
pub fn extend_range(out: &mut Vec<char>, s: &[char], lo: usize, hi: usize)
    requires
        lo <= hi <= s@.len(),
    ensures
        final(out)@ == old(out)@ + s@.subrange(lo as int, hi as int),
{
    let ghost start = out@;
    let mut i = lo;
    while i < hi
        invariant
            lo <= i <= hi <= s@.len(),
            out@ == start + s@.subrange(lo as int, i as int),
        decreases hi - i,
    {
        out.push(s[i]);
        i = i + 1;
        assert(out@ =~= start + s@.subrange(lo as int, i as int));
    }
}

/// Appends all of `s` to `out`.
pub fn extend_all(out: &mut Vec<char>, s: &[char])
    ensures
        final(out)@ == old(out)@ + s@,
{
    extend_range(out, s, 0, s.len());
    assert(s@.subrange(0, s@.len() as int) =~= s@);
}

/// Appends the characters of `lit` to `out`.
pub fn extend_str(out: &mut Vec<char>, lit: &str)
    ensures
        final(out)@ == old(out)@ + lit@,
{
    let v = to_chars(lit);
    extend_all(out, &v);
}

// ---------------------------------------------------------------------------
// Lines
// ---------------------------------------------------------------------------

/// Drops one trailing `'\r'`.
pub open spec fn strip_cr(s: Seq<char>) -> Seq<char> {
    if s.len() > 0 && s.last() == '\r' {
        s.drop_last()
    } else {
        s
    }
}

/// `str::lines`: split on `'\n'`, drop a `'\r'` before each `'\n'`, and no
/// empty line after a final `'\n'`.
pub open spec fn lines(s: Seq<char>) -> Seq<Seq<char>>
    decreases s.len(),
{
    if s.len() == 0 {
        seq![]
    } else {
        match find_char(s, '\n') {
            Some(i) => if 0 <= i < s.len() {
                seq![strip_cr(s.take(i))] + lines(s.skip(i + 1))
            } else {
                seq![]
            },
            None => seq![s],
        }
    }
}

/// Unfolds `lines` at a known first newline.
pub proof fn lemma_lines_step(s: Seq<char>, i: int)
    requires
        is_first_char(s, '\n', 0, i),
    ensures
        lines(s) == seq![strip_cr(s.take(i))] + lines(s.skip(i + 1)),
{
    lemma_first_char_unique(s, '\n', 0, i);
}

/// A character search in a suffix is the same search, shifted.
pub proof fn lemma_find_char_shift(s: Seq<char>, c: char, b: int, from: int)
    requires
        0 <= b <= from,
        b <= s.len(),
    ensures
        match find_char_from(s, c, from) {
            Some(e) => find_char_from(s.skip(b), c, from - b) == Some(e - b),
            None => find_char_from(s.skip(b), c, from - b) is None,
        },
{
    let t = s.skip(b);
    match find_char_from(s, c, from) {
        Some(e) => {
            assert(is_first_char(s, c, from, e));
            assert(is_first_char(t, c, from - b, e - b)) by {
                assert(t[e - b] == s[e]);
                assert forall|j: int| from - b <= j < e - b implies t[j] != c by {
                    assert(t[j] == s[j + b]);
                }
            }
            lemma_first_char_unique(t, c, from - b, e - b);
        },
        None => {
            if exists|i: int| #[trigger] is_first_char(t, c, from - b, i) {
                let i = choose|i: int| #[trigger] is_first_char(t, c, from - b, i);
                assert(is_first_char(s, c, from, i + b)) by {
                    assert(t[i] == s[i + b]);
                    assert forall|j: int| from <= j < i + b implies s[j] != c by {
                        assert(t[j - b] == s[j]);
                    }
                }
                lemma_first_char_unique(s, c, from, i + b);
            }
        },
    }
}

/// `lines` of a non-empty sequence without a newline.
pub proof fn lemma_lines_last(s: Seq<char>)
    requires
        s.len() > 0,
        forall|j: int| 0 <= j < s.len() ==> s[j] != '\n',
    ensures
        lines(s) == seq![s],
{
    lemma_first_char_none(s, '\n', 0);
}

/// Index bounds `(start, end)` of each line of `s`, with the `'\r'` of a
/// `"\r\n"` ending excluded.
pub fn line_ranges(s: &[char]) -> (r: Vec<(usize, usize)>)
    ensures
        r@.len() == lines(s@).len(),
        forall|k: int|
            0 <= k < r@.len() ==> {
                &&& (#[trigger] r@[k]).0 <= r@[k].1 <= s@.len()
                &&& s@.subrange(r@[k].0 as int, r@[k].1 as int) == lines(s@)[k]
            },
{
    let mut r: Vec<(usize, usize)> = Vec::new();
    let mut pos: usize = 0;
    assert(s@.skip(0) =~= s@);
    while pos < s.len()
        invariant
            pos <= s@.len(),
            r@.len() + lines(s@.skip(pos as int)).len() == lines(s@).len(),
            forall|k: int|
                0 <= k < r@.len() ==> {
                    &&& (#[trigger] r@[k]).0 <= r@[k].1 <= s@.len()
                    &&& s@.subrange(r@[k].0 as int, r@[k].1 as int) == lines(s@)[k]
                },
            forall|k: int|
                0 <= k < lines(s@.skip(pos as int)).len() ==> lines(s@)[r@.len() + k] == lines(
                    s@.skip(pos as int),
                )[k],
        decreases s.len() - pos,
    {
        let ghost rest = s@.skip(pos as int);
        match find_char_in(s, '\n', pos) {
            Some(i) => {
                proof {
                    assert(is_first_char(rest, '\n', 0, i - pos)) by {
                        assert forall|j: int| 0 <= j < i - pos implies rest[j] != '\n' by {
                            assert(rest[j] == s@[pos + j]);
                        }
                    }
                    lemma_lines_step(rest, i - pos);
                    assert(rest.skip(i - pos + 1) =~= s@.skip(i + 1));
                }
                let end = if i > pos && s[i - 1] == '\r' {
                    i - 1
                } else {
                    i
                };
                proof {
                    assert(s@.subrange(pos as int, end as int) =~= strip_cr(rest.take(i - pos)));
                    assert(lines(s@)[r@.len() as int] == lines(rest)[0]);
                    assert forall|k: int|
                        0 <= k < lines(s@.skip(i + 1)).len() implies lines(s@)[r@.len() + 1
                        + k] == #[trigger] lines(s@.skip(i + 1))[k] by {
                        assert(lines(rest)[k + 1] == lines(s@.skip(i + 1))[k]);
                    }
                }
                r.push((pos, end));
                pos = i + 1;
            },
            None => {
                proof {
                    assert forall|j: int| 0 <= j < rest.len() implies rest[j] != '\n' by {
                        assert(rest[j] == s@[pos + j]);
                    }
                    lemma_lines_last(rest);
                    assert(s@.subrange(pos as int, s@.len() as int) =~= rest);
                    assert(lines(s@)[r@.len() as int] == lines(rest)[0]);
                    assert(s@.skip(s@.len() as int) =~= Seq::<char>::empty());
                }
                r.push((pos, s.len()));
                pos = s.len();
            },
        }
    }
    proof {
        assert(s@.skip(pos as int) =~= Seq::<char>::empty());
    }
    r
}

/// `str::split` on a character: the pieces between occurrences of `c`.
#[verifier::opaque]
pub open spec fn split_char(s: Seq<char>, c: char) -> Seq<Seq<char>>
    decreases s.len(),
{
    match find_char(s, c) {
        Some(i) => if 0 <= i < s.len() {
            seq![s.take(i)] + split_char(s.skip(i + 1), c)
        } else {
            seq![]
        },
        None => seq![s],
    }
}

/// The pieces of a split hold no separator, and only characters of the
/// text.
pub proof fn lemma_split_pieces(s: Seq<char>, c: char)
    ensures
        forall|k: int, j: int|
            0 <= k < split_char(s, c).len() && 0 <= j < split_char(s, c)[k].len() ==> {
                &&& #[trigger] split_char(s, c)[k][j] != c
                &&& s.contains(split_char(s, c)[k][j])
            },
    decreases s.len(),
{
    reveal(split_char);
    match find_char(s, c) {
        Some(i) => if 0 <= i < s.len() {
            lemma_split_pieces(s.skip(i + 1), c);
            let rest = split_char(s.skip(i + 1), c);
            assert(is_first_char(s, c, 0, i));
            assert forall|k: int, j: int|
                0 <= k < split_char(s, c).len() && 0 <= j < split_char(s, c)[k].len() implies {
                    &&& #[trigger] split_char(s, c)[k][j] != c
                    &&& s.contains(split_char(s, c)[k][j])
                } by {
                if k == 0 {
                    assert(split_char(s, c)[0] == s.take(i));
                    assert(s[j] == s.take(i)[j]);
                } else {
                    assert(split_char(s, c)[k] == rest[k - 1]);
                    let x = rest[k - 1][j];
                    let m = choose|m: int| 0 <= m < s.skip(i + 1).len() && #[trigger] s.skip(i + 1)[m] == x;
                    assert(s[i + 1 + m] == x);
                }
            }
        },
        None => {
            assert forall|k: int, j: int|
                0 <= k < split_char(s, c).len() && 0 <= j < split_char(s, c)[k].len() implies {
                    &&& #[trigger] split_char(s, c)[k][j] != c
                    &&& s.contains(split_char(s, c)[k][j])
                } by {
                assert(split_char(s, c)[k] == s);
                lemma_no_first_char(s, c, 0, j);
            }
        },
    }
}

/// Index bounds of the pieces of `s` split on `c`.
pub fn split_ranges(s: &[char], c: char) -> (r: Vec<(usize, usize)>)
    ensures
        r@.len() == split_char(s@, c).len(),
        forall|k: int|
            0 <= k < r@.len() ==> {
                &&& (#[trigger] r@[k]).0 <= r@[k].1 <= s@.len()
                &&& s@.subrange(r@[k].0 as int, r@[k].1 as int) == split_char(s@, c)[k]
            },
{
    reveal(split_char);
    let mut r: Vec<(usize, usize)> = Vec::new();
    let mut pos: usize = 0;
    assert(s@.skip(0) =~= s@);
    loop
        invariant
            pos <= s@.len(),
            r@.len() + split_char(s@.skip(pos as int), c).len() == split_char(s@, c).len(),
            forall|k: int|
                0 <= k < r@.len() ==> {
                    &&& (#[trigger] r@[k]).0 <= r@[k].1 <= s@.len()
                    &&& s@.subrange(r@[k].0 as int, r@[k].1 as int) == split_char(s@, c)[k]
                },
            forall|k: int|
                0 <= k < split_char(s@.skip(pos as int), c).len() ==> split_char(s@, c)[r@.len()
                    + k] == #[trigger] split_char(s@.skip(pos as int), c)[k],
        decreases s.len() - pos,
    {
        proof {
            reveal(split_char);
        }
        let ghost rest = s@.skip(pos as int);
        match find_char_in(s, c, pos) {
            Some(i) => {
                proof {
                    assert(is_first_char(rest, c, 0, i - pos)) by {
                        assert forall|j: int| 0 <= j < i - pos implies rest[j] != c by {
                            assert(rest[j] == s@[pos + j]);
                        }
                    }
                    lemma_first_char_unique(rest, c, 0, i - pos);
                    assert(rest.skip(i - pos + 1) =~= s@.skip(i + 1));
                    assert(s@.subrange(pos as int, i as int) =~= rest.take(i - pos));
                    assert(split_char(s@, c)[r@.len() as int] == split_char(rest, c)[0]);
                    assert forall|k: int|
                        0 <= k < split_char(s@.skip(i + 1), c).len() implies split_char(s@, c)[r@.len()
                        + 1 + k] == #[trigger] split_char(s@.skip(i + 1), c)[k] by {
                        assert(split_char(rest, c)[k + 1] == split_char(s@.skip(i + 1), c)[k]);
                    }
                }
                r.push((pos, i));
                pos = i + 1;
            },
            None => {
                proof {
                    assert forall|j: int| 0 <= j < rest.len() implies rest[j] != c by {
                        assert(rest[j] == s@[pos + j]);
                    }
                    lemma_first_char_none(rest, c, 0);
                    assert(s@.subrange(pos as int, s@.len() as int) =~= rest);
                    assert(split_char(s@, c)[r@.len() as int] == split_char(rest, c)[0]);
                }
                r.push((pos, s.len()));
                return r;
            },
        }
    }
}

/// `str::trim_matches(c)`: drops every leading and trailing `c`.
pub open spec fn strip_char(s: Seq<char>, c: char) -> Seq<char> {
    let t = s.skip(lead_count(s, c));
    t.take(t.len() - trail_count(t, c))
}

/// Number of leading copies of `c`.
pub open spec fn lead_count(s: Seq<char>, c: char) -> int
    decreases s.len(),
{
    if s.len() > 0 && s[0] == c {
        1 + lead_count(s.drop_first(), c)
    } else {
        0
    }
}

/// Number of trailing copies of `c`.
pub open spec fn trail_count(s: Seq<char>, c: char) -> int
    decreases s.len(),
{
    if s.len() > 0 && s.last() == c {
        1 + trail_count(s.drop_last(), c)
    } else {
        0
    }
}

proof fn lemma_lead_count_char(s: Seq<char>, c: char, k: int)
    requires
        0 <= k <= s.len(),
        forall|j: int| 0 <= j < k ==> #[trigger] s[j] == c,
        k < s.len() ==> s[k] != c,
    ensures
        lead_count(s, c) == k,
    decreases s.len(),
{
    if k > 0 {
        assert forall|j: int| 0 <= j < k - 1 implies #[trigger] s.drop_first()[j] == c by {
            assert(s.drop_first()[j] == s[j + 1]);
        }
        if k - 1 < s.drop_first().len() {
            assert(s.drop_first()[k - 1] == s[k]);
        }
        lemma_lead_count_char(s.drop_first(), c, k - 1);
    }
}

proof fn lemma_trail_count_char(s: Seq<char>, c: char, k: int)
    requires
        0 <= k <= s.len(),
        forall|j: int| s.len() - k <= j < s.len() ==> #[trigger] s[j] == c,
        k < s.len() ==> s[s.len() - k - 1] != c,
    ensures
        trail_count(s, c) == k,
    decreases s.len(),
{
    if k > 0 {
        let t = s.drop_last();
        assert forall|j: int| t.len() - (k - 1) <= j < t.len() implies #[trigger] t[j] == c by {
            assert(t[j] == s[j]);
        }
        if k - 1 < t.len() {
            assert(t[t.len() - (k - 1) - 1] == s[s.len() - k - 1]);
        }
        lemma_trail_count_char(t, c, k - 1);
    }
}

proof fn lemma_lead_count_bounds(s: Seq<char>, c: char)
    ensures
        0 <= lead_count(s, c) <= s.len(),
        lead_count(s, c) < s.len() ==> s[lead_count(s, c)] != c,
    decreases s.len(),
{
    if s.len() > 0 && s[0] == c {
        lemma_lead_count_bounds(s.drop_first(), c);
    }
}

proof fn lemma_trail_count_bounds(s: Seq<char>, c: char)
    ensures
        0 <= trail_count(s, c) <= s.len(),
        trail_count(s, c) < s.len() ==> s[s.len() - 1 - trail_count(s, c)] != c,
    decreases s.len(),
{
    if s.len() > 0 && s.last() == c {
        lemma_trail_count_bounds(s.drop_last(), c);
    }
}

/// `strip_char` leaves no `c` at either end, and leaves alone a text that
/// has none there.
pub(crate) proof fn lemma_strip_char_ends(s: Seq<char>, c: char)
    ensures
        strip_char(s, c).len() == 0 || (strip_char(s, c)[0] != c && strip_char(s, c).last() != c),
        s.len() > 0 && s[0] != c && s.last() != c ==> strip_char(s, c) == s,
{
    lemma_lead_count_bounds(s, c);
    let t = s.skip(lead_count(s, c));
    lemma_trail_count_bounds(t, c);
    let r = strip_char(s, c);
    if r.len() > 0 {
        assert(r[0] == t[0]);
        assert(t[0] == s[lead_count(s, c)]);
        assert(r.last() == t[t.len() - 1 - trail_count(t, c)]);
    }
    if s.len() > 0 && s[0] != c && s.last() != c {
        assert(lead_count(s, c) == 0);
        assert(t =~= s);
        assert(trail_count(t, c) == 0);
        assert(r =~= s);
    }
}

/// Bounds of `strip_char(s[lo..hi], c)` inside `s`.
pub fn strip_char_range(s: &[char], lo: usize, hi: usize, c: char) -> (r: (usize, usize))
    requires
        lo <= hi <= s@.len(),
    ensures
        lo <= r.0 <= r.1 <= hi,
        s@.subrange(r.0 as int, r.1 as int) == strip_char(s@.subrange(lo as int, hi as int), c),
{
    let mut a = lo;
    while a < hi && s[a] == c
        invariant
            lo <= a <= hi <= s@.len(),
            forall|j: int| lo <= j < a ==> s@[j] == c,
        decreases hi - a,
    {
        a = a + 1;
    }
    let mut b = hi;
    while b > a && s[b - 1] == c
        invariant
            lo <= a <= b <= hi <= s@.len(),
            forall|j: int| b <= j < hi ==> s@[j] == c,
        decreases b - a,
    {
        b = b - 1;
    }
    proof {
        let t0 = s@.subrange(lo as int, hi as int);
        assert forall|j: int| 0 <= j < a - lo implies #[trigger] t0[j] == c by {
            assert(t0[j] == s@[lo + j]);
        }
        if a < hi {
            assert(t0[a - lo] == s@[a as int]);
        }
        lemma_lead_count_char(t0, c, a - lo);
        let t = t0.skip(a - lo);
        assert(t =~= s@.subrange(a as int, hi as int));
        assert forall|j: int| t.len() - (hi - b) <= j < t.len() implies #[trigger] t[j] == c by {
            assert(t[j] == s@[a + j]);
        }
        if hi - b < t.len() {
            assert(t[t.len() - (hi - b) - 1] == s@[b - 1]);
        }
        lemma_trail_count_char(t, c, (hi - b) as int);
        assert(t.take(t.len() - (hi - b)) =~= s@.subrange(a as int, b as int));
    }
    (a, b)
}

/// `str::replace`: every non-overlapping occurrence of `p`, left to right,
/// replaced by `r`.
#[verifier::opaque]
pub open spec fn replace_all(s: Seq<char>, p: Seq<char>, r: Seq<char>) -> Seq<char>
    decreases s.len(),
{
    if p.len() == 0 {
        s
    } else {
        match find(s, p) {
            Some(i) => if 0 <= i && i + p.len() <= s.len() {
                s.take(i) + r + replace_all(s.skip(i + p.len()), p, r)
            } else {
                s
            },
            None => s,
        }
    }
}

proof fn lemma_replace_all_found(t: Seq<char>, p: Seq<char>, r: Seq<char>, i: int)
    requires
        p.len() > 0,
        find(t, p) == Some(i),
        0 <= i,
        i + p.len() <= t.len(),
    ensures
        replace_all(t, p, r) == t.take(i) + r + replace_all(t.skip(i + p.len()), p, r),
{
    reveal(replace_all);
}

proof fn lemma_replace_all_none(t: Seq<char>, p: Seq<char>, r: Seq<char>)
    requires
        find(t, p) is None,
    ensures
        replace_all(t, p, r) == t,
{
    reveal(replace_all);
}

/// `str::replace` on character vectors (for a non-empty pattern).
pub fn replace_all_vec(s: &[char], p: &[char], r: &[char]) -> (out: Vec<char>)
    requires
        p@.len() > 0,
    ensures
        out@ == replace_all(s@, p@, r@),
{
    let mut out: Vec<char> = Vec::new();
    let mut pos: usize = 0;
    let n = s.len();
    assert(s@.skip(0) =~= s@);
    loop
        invariant
            pos <= n == s@.len(),
            p@.len() > 0,
            out@ + replace_all(s@.skip(pos as int), p@, r@) == replace_all(s@, p@, r@),
        decreases n - pos,
    {
        let ghost rest = s@.skip(pos as int);
        let ghost out0 = out@;
        let ghost pos0 = pos;
        proof {
            lemma_find_suffix(s@, p@, pos as int);
        }
        match find_seq_from(s, p, pos) {
            Some(i) => {
                proof {
                    lemma_replace_all_found(rest, p@, r@, i - pos);
                    assert(rest.take(i - pos) =~= s@.subrange(pos as int, i as int));
                    assert(rest.skip(i - pos + p@.len()) =~= s@.skip(i + p@.len()));
                }
                extend_range(&mut out, s, pos, i);
                extend_all(&mut out, r);
                pos = i + p.len();
                proof {
                    let tail = s@.skip(pos as int);
                    assert(out0 + (s@.subrange(pos0 as int, i as int) + r@ + replace_all(tail, p@, r@))
                        =~= out@ + replace_all(tail, p@, r@));
                }
            },
            None => {
                proof {
                    lemma_replace_all_none(rest, p@, r@);
                    assert(s@.subrange(pos as int, n as int) =~= rest);
                }
                extend_range(&mut out, s, pos, n);
                return out;
            },
        }
    }
}

// ---------------------------------------------------------------------------
// UTF-8 lengths
// ---------------------------------------------------------------------------

/// Number of bytes of `c` in UTF-8.
pub open spec fn utf8_len(c: char) -> nat {
    let u = c as u32;
    if u < 0x80 {
        1
    } else if u < 0x800 {
        2
    } else if u < 0x10000 {
        3
    } else {
        4
    }
}

/// Number of bytes of `s` in UTF-8.
pub open spec fn utf8_len_seq(s: Seq<char>) -> nat
    decreases s.len(),
{
    if s.len() == 0 {
        0
    } else {
        utf8_len_seq(s.drop_last()) + utf8_len(s.last())
    }
}

/// UTF-8 byte length of `c`.
pub fn char_utf8_len(c: char) -> (n: usize)
    ensures
        n == utf8_len(c),
{
    let u = c as u32;
    if u < 0x80 {
        1
    } else if u < 0x800 {
        2
    } else if u < 0x10000 {
        3
    } else {
        4
    }
}

// ---------------------------------------------------------------------------
// Conversions
// ---------------------------------------------------------------------------

/// Appends one character to a string.
#[verifier::external_body]
pub(crate) fn push_char(s: &mut String, c: char)
    ensures
        final(s)@ == old(s)@.push(c),
{
    s.push(c);
}

/// Copies the characters of `s` into a vector.
pub fn to_chars(s: &str) -> (v: Vec<char>)
    ensures
        v@ == s@,
{
    let mut v: Vec<char> = Vec::new();
    for c in it: s.chars()
        invariant
            v@ == it.seq().take(it.index() as int),
            it.seq() == s@,
    {
        v.push(c);
    }
    v
}

/// Whether the characters `s` spell `lit`.
pub fn eq_lit(s: &[char], lit: &str) -> (b: bool)
    ensures
        b == (s@ == lit@),
{
    let v = to_chars(lit);
    seq_eq(s, &v)
}

/// Builds a string from characters.
pub fn from_chars(v: &[char]) -> (s: String)
    ensures
        s@ == v@,
{
    let mut s = String::new();
    let mut i: usize = 0;
    while i < v.len()
        invariant
            i <= v@.len(),
            s@ == v@.take(i as int),
        decreases v.len() - i,
    {
        push_char(&mut s, v[i]);
        i = i + 1;
        assert(s@ =~= v@.take(i as int));
    }
    assert(v@.take(v@.len() as int) =~= v@);
    s
}

/// `str::to_ascii_lowercase` on characters.
pub fn lower_chars(s: &[char]) -> (r: Vec<char>)
    ensures
        r@ == lower_seq(s@),
{
    let mut r: Vec<char> = Vec::new();
    let mut i: usize = 0;
    while i < s.len()
        invariant
            i <= s@.len(),
            r@ == lower_seq(s@.take(i as int)),
        decreases s.len() - i,
    {
        r.push(char_lower(s[i]));
        i = i + 1;
        assert(r@ =~= lower_seq(s@.take(i as int)));
    }
    assert(s@.take(s@.len() as int) =~= s@);
    r
}

/// `str::to_ascii_uppercase` on characters.
pub fn upper_chars(s: &[char]) -> (r: Vec<char>)
    ensures
        r@ == upper_seq(s@),
{
    let mut r: Vec<char> = Vec::new();
    let mut i: usize = 0;
    while i < s.len()
        invariant
            i <= s@.len(),
            r@ == upper_seq(s@.take(i as int)),
        decreases s.len() - i,
    {
        r.push(char_upper(s[i]));
        i = i + 1;
        assert(r@ =~= upper_seq(s@.take(i as int)));
    }
    assert(s@.take(s@.len() as int) =~= s@);
    r
}

} // verus!
