//! JSON string quoting.

use crate::strs::{char_code, hex_digit, hex_digits, push_hex, from_chars, to_chars};
use vstd::prelude::*;

verus! {

/// The JSON escape of one character. `escape_del` also escapes U+007F.
pub open spec fn json_esc(c: char, escape_del: bool) -> Seq<char> {
    if c == '"' {
        seq!['\\', '"']
    } else if c == '\\' {
        seq!['\\', '\\']
    } else if c == '\n' {
        seq!['\\', 'n']
    } else if c == '\r' {
        seq!['\\', 'r']
    } else if c == '\t' {
        seq!['\\', 't']
    } else if (c as u32) < 0x20 || (escape_del && c as u32 == 0x7f) {
        seq!['\\', 'u'] + hex_digits(c as int, 4)
    } else {
        seq![c]
    }
}

/// The escaped body of a JSON string for `s` (without the quotes).
pub open spec fn json_body(s: Seq<char>, escape_del: bool) -> Seq<char>
    decreases s.len(),
{
    if s.len() == 0 {
        seq![]
    } else {
        json_body(s.drop_last(), escape_del) + json_esc(s.last(), escape_del)
    }
}

/// What `quote` returns.
pub open spec fn spec_quote(s: Seq<char>) -> Seq<char> {
    seq!['"'] + json_body(s, true) + seq!['"']
}

/// Appends the JSON-quoted form of `s` to `out`.
pub fn push_json_quoted(out: &mut Vec<char>, s: &[char], escape_del: bool)
    ensures
        final(out)@ == old(out)@ + seq!['"'] + json_body(s@, escape_del) + seq!['"'],
{
    let ghost start = out@;
    out.push('"');
    let mut i: usize = 0;
    while i < s.len()
        invariant
            i <= s@.len(),
            out@ == start + seq!['"'] + json_body(s@.take(i as int), escape_del),
        decreases s.len() - i,
    {
        let c = s[i];
        let ghost before = out@;
        if c == '"' {
            out.push('\\');
            out.push('"');
        } else if c == '\\' {
            out.push('\\');
            out.push('\\');
        } else if c == '\n' {
            out.push('\\');
            out.push('n');
        } else if c == '\r' {
            out.push('\\');
            out.push('r');
        } else if c == '\t' {
            out.push('\\');
            out.push('t');
        } else if (c as u32) < 0x20 || (escape_del && c as u32 == 0x7f) {
            out.push('\\');
            out.push('u');
            let u: u32 = char_code(c);
            push_hex(out, u, 4);
        } else {
            out.push(c);
        }
        assert(out@ =~= before + json_esc(c, escape_del));
        assert(s@.take(i + 1).drop_last() =~= s@.take(i as int));
        i = i + 1;
    }
    out.push('"');
    assert(s@.take(s@.len() as int) =~= s@);
}

/// Quote and escape a string as a JSON value, including the surrounding
/// quotes. Control characters and DEL are written as `\u00XX`.
pub fn quote(s: &str) -> (r: String)
    ensures
        r@ == spec_quote(s@),
{
    let cs = to_chars(s);
    let mut out: Vec<char> = Vec::new();
    push_json_quoted(&mut out, &cs, true);
    assert(out@ =~= spec_quote(s@));
    from_chars(&out)
}

// ---------------------------------------------------------------------------
// Decoding, for the round-trip law
// ---------------------------------------------------------------------------

/// Value of a hexadecimal digit (either case).
pub open spec fn hex_val(c: char) -> Option<int> {
    if '0' <= c && c <= '9' {
        Some(c as int - '0' as int)
    } else if 'a' <= c && c <= 'f' {
        Some(c as int - 'a' as int + 10)
    } else if 'A' <= c && c <= 'F' {
        Some(c as int - 'A' as int + 10)
    } else {
        None
    }
}

/// Value of four hexadecimal digits.
pub open spec fn hex4_val(t: Seq<char>) -> Option<int> {
    match (hex_val(t[0]), hex_val(t[1]), hex_val(t[2]), hex_val(t[3])) {
        (Some(a), Some(b), Some(c), Some(d)) => Some(((a * 16 + b) * 16 + c) * 16 + d),
        _ => None,
    }
}

/// Decodes the body of a JSON string literal (RFC 8259 escapes; `\u`
/// escapes of surrogates are not accepted). `None` when the body is not
/// well formed.
pub open spec fn json_decode(t: Seq<char>) -> Option<Seq<char>>
    decreases t.len(),
{
    if t.len() == 0 {
        Some(seq![])
    } else if t[0] == '\\' {
        if t.len() < 2 {
            None
        } else {
            let e = t[1];
            let one: Option<char> = if e == '"' {
                Some('"')
            } else if e == '\\' {
                Some('\\')
            } else if e == '/' {
                Some('/')
            } else if e == 'n' {
                Some('\n')
            } else if e == 'r' {
                Some('\r')
            } else if e == 't' {
                Some('\t')
            } else if e == 'b' {
                Some('\u{8}')
            } else if e == 'f' {
                Some('\u{c}')
            } else {
                None
            };
            match one {
                Some(d) => match json_decode(t.skip(2)) {
                    Some(r) => Some(seq![d] + r),
                    None => None,
                },
                None => if e == 'u' && t.len() >= 6 {
                    match hex4_val(t.subrange(2, 6)) {
                        Some(v) => if v < 0xd800 || v >= 0xe000 {
                            match json_decode(t.skip(6)) {
                                Some(r) => Some(seq![v as char] + r),
                                None => None,
                            }
                        } else {
                            None
                        },
                        None => None,
                    }
                } else {
                    None
                },
            }
        }
    } else if t[0] == '"' || (t[0] as u32) < 0x20 {
        None
    } else {
        match json_decode(t.skip(1)) {
            Some(r) => Some(seq![t[0]] + r),
            None => None,
        }
    }
}

/// Decodes a whole JSON string literal, quotes included.
pub open spec fn json_decode_literal(t: Seq<char>) -> Option<Seq<char>> {
    if t.len() >= 2 && t[0] == '"' && t.last() == '"' {
        json_decode(t.subrange(1, t.len() - 1))
    } else {
        None
    }
}

proof fn lemma_hex_digit_val(n: int)
    requires
        0 <= n < 16,
    ensures
        hex_val(hex_digit(n)) == Some(n),
{
}

proof fn lemma_hex4(u: int)
    requires
        0 <= u < 128,
    ensures
        hex_digits(u, 4) =~= seq!['0', '0', hex_digit(u / 16), hex_digit(u % 16)],
{
    assert(hex_digits(u / 4096, 0) =~= Seq::<char>::empty());
    assert(u / 16 / 16 / 16 == 0);
    assert(u / 16 / 16 == 0);
    assert(u / 16 % 16 == u / 16);
    assert(hex_digits(u / 16 / 16 / 16, 1) =~= seq!['0']);
    assert(hex_digits(u / 16 / 16, 2) =~= seq!['0', '0']);
    assert(hex_digits(u / 16, 3) =~= seq!['0', '0', hex_digit(u / 16)]);
}

proof fn lemma_decode_esc(c: char, escape_del: bool, rest: Seq<char>)
    ensures
        json_decode(json_esc(c, escape_del) + rest) == match json_decode(rest) {
            Some(r) => Some(seq![c] + r),
            None => None::<Seq<char>>,
        },
{
    let e = json_esc(c, escape_del);
    let t = e + rest;
    if c == '"' || c == '\\' || c == '\n' || c == '\r' || c == '\t' {
        assert(t.skip(2) =~= rest);
    } else if (c as u32) < 0x20 || (escape_del && c as u32 == 0x7f) {
        let u = c as int;
        let h = hex_digits(u, 4);
        lemma_hex4(u);
        lemma_hex_digit_val(u / 16);
        lemma_hex_digit_val(u % 16);
        lemma_hex_digit_val(0);
        assert(t.subrange(2, 6) =~= h);
        assert(hex4_val(h) == Some(u));
        assert((u as char) == c);
        assert(t.skip(6) =~= rest);
    } else {
        assert(t.skip(1) =~= rest);
    }
}

/// Decoding a quoted body followed by more text decodes the two in turn.
proof fn lemma_decode_body(s: Seq<char>, escape_del: bool, rest: Seq<char>)
    ensures
        json_decode(json_body(s, escape_del) + rest) == match json_decode(rest) {
            Some(r) => Some(s + r),
            None => None::<Seq<char>>,
        },
    decreases s.len(),
{
    if s.len() == 0 {
        assert(json_body(s, escape_del) + rest =~= rest);
        match json_decode(rest) {
            Some(r) => {
                assert(s + r =~= r);
            },
            None => {},
        }
    } else {
        let c = s.last();
        let front = s.drop_last();
        let tail = json_esc(c, escape_del) + rest;
        assert(json_body(s, escape_del) + rest =~= json_body(front, escape_del) + tail);
        lemma_decode_body(front, escape_del, tail);
        lemma_decode_esc(c, escape_del, rest);
        match json_decode(rest) {
            Some(r) => {
                assert(front + (seq![c] + r) =~= s + r);
            },
            None => {},
        }
    }
}

/// Law: `quote` always yields a well-formed JSON string literal, and
/// decoding it gives back exactly the input.
pub proof fn lemma_quote_roundtrip(s: Seq<char>)
    ensures
        json_decode_literal(spec_quote(s)) == Some(s),
{
    let q = spec_quote(s);
    assert(q.subrange(1, q.len() - 1) =~= json_body(s, true) + Seq::<char>::empty());
    lemma_decode_body(s, true, Seq::<char>::empty());
    assert(s + Seq::<char>::empty() =~= s);
}

/// A control character as JSON forbids it raw (below U+0020), or DEL.
pub open spec fn is_control(c: char) -> bool {
    (c as u32) < 0x20 || c as u32 == 0x7f
}

proof fn lemma_hex_digits_plain(u: int, width: nat)
    ensures
        forall|j: int| 0 <= j < hex_digits(u, width).len() ==> !is_control(#[trigger] hex_digits(u, width)[j]),
    decreases width,
{
    if width > 0 {
        lemma_hex_digits_plain(u / 16, (width - 1) as nat);
        let d = u % 16;
        assert(0 <= d < 16);
        assert(!is_control(hex_digit(d)));
        let h = hex_digits(u, width);
        assert forall|j: int| 0 <= j < h.len() implies !is_control(#[trigger] h[j]) by {
            if j < h.len() - 1 {
                assert(h[j] == hex_digits(u / 16, (width - 1) as nat)[j]);
            }
        }
    }
}

proof fn lemma_json_body_plain(s: Seq<char>)
    ensures
        forall|j: int| 0 <= j < json_body(s, true).len() ==> !is_control(#[trigger] json_body(s, true)[j]),
    decreases s.len(),
{
    if s.len() > 0 {
        lemma_json_body_plain(s.drop_last());
        let c = s.last();
        let p = json_body(s.drop_last(), true);
        let e = json_esc(c, true);
        lemma_hex_digits_plain(c as int, 4);
        assert forall|j: int| 0 <= j < e.len() implies !is_control(#[trigger] e[j]) by {
            if !(c == '"' || c == '\\' || c == '\n' || c == '\r' || c == '\t') && ((c as u32) < 0x20 || c as u32 == 0x7f) {
                if j >= 2 {
                    assert(e[j] == hex_digits(c as int, 4)[j - 2]);
                }
            }
        }
        let b = json_body(s, true);
        assert(b == p + e);
        assert forall|j: int| 0 <= j < b.len() implies !is_control(#[trigger] b[j]) by {
            if j < p.len() {
                assert(b[j] == p[j]);
            } else {
                assert(b[j] == e[j - p.len()]);
            }
        }
    }
}

/// A quoted string is one JSON string literal that holds no raw control
/// character: it starts and ends with `"`, and nothing in it is below
/// U+0020 or DEL, so it can be written into a JSON document as it is.
pub proof fn lemma_quote_no_control(s: Seq<char>)
    ensures
        spec_quote(s)[0] == '"',
        spec_quote(s).last() == '"',
        forall|j: int| 0 <= j < spec_quote(s).len() ==> !is_control(#[trigger] spec_quote(s)[j]),
{
    lemma_json_body_plain(s);
    let q = spec_quote(s);
    let b = json_body(s, true);
    assert forall|j: int| 0 <= j < q.len() implies !is_control(#[trigger] q[j]) by {
        if j > 0 && j < q.len() - 1 {
            assert(q[j] == b[j - 1]);
        }
    }
}

} // verus!

