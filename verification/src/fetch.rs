//! The pure parts of `fetch`: HTML sanitising, markdown clean-up, YAML
//! front-matter output and the small classification helpers.

use crate::frontmatter::{opt_str_view, spec_parse};
use crate::strs::{
    char_code, decimal, extend_all, extend_range, extend_str, find, find_char_from,
    find_char_in, find_seq_from, from_chars, hex_digits, is_ws, lead_ws, lines, line_ranges,
    lower, lower_chars, lower_seq, push_decimal, push_hex, skip_ws, skip_ws_back, slice_of,
    splice, splice_vec, split_char, split_ranges, starts_with, starts_with_at, ends_with,
    ends_with_seq, strip_char, to_chars, trim, trim_end, trim_range, trim_start, matches_at,
    is_first_match, is_first_char,
};
use crate::text::{fence_next, fence_step, opt_view};
use vstd::prelude::*;

verus! {

// ---------------------------------------------------------------------------
// URL classification
// ---------------------------------------------------------------------------

/// Length of the part of a URL before its first `?` or `#`.
pub open spec fn path_len(s: Seq<char>) -> int
    decreases s.len(),
{
    if s.len() == 0 || s[0] == '?' || s[0] == '#' {
        0
    } else {
        1 + path_len(s.drop_first())
    }
}

/// The URL's path ends in `.md` or `.markdown` (any case), query and
/// fragment ignored.
pub open spec fn spec_url_path_is_markdown(url: Seq<char>) -> bool {
    let lower_path = lower_seq(url.take(path_len(url)));
    ends_with(lower_path, seq!['.', 'm', 'd']) || ends_with(
        lower_path,
        seq!['.', 'm', 'a', 'r', 'k', 'd', 'o', 'w', 'n'],
    )
}

proof fn lemma_path_len(s: Seq<char>, k: int)
    requires
        0 <= k <= s.len(),
        forall|j: int| 0 <= j < k ==> #[trigger] s[j] != '?' && s[j] != '#',
        k < s.len() ==> (s[k] == '?' || s[k] == '#'),
    ensures
        path_len(s) == k,
    decreases s.len(),
{
    if k > 0 {
        assert forall|j: int| 0 <= j < k - 1 implies #[trigger] s.drop_first()[j] != '?'
            && s.drop_first()[j] != '#' by {
            assert(s.drop_first()[j] == s[j + 1]);
        }
        if k - 1 < s.drop_first().len() {
            assert(s.drop_first()[k - 1] == s[k]);
        }
        lemma_path_len(s.drop_first(), k - 1);
    }
}

/// Whether a URL names a markdown file.
pub fn url_path_is_markdown(url: &str) -> (b: bool)
    ensures
        b == spec_url_path_is_markdown(url@),
{
    let cs = to_chars(url);
    let mut k: usize = 0;
    while k < cs.len() && cs[k] != '?' && cs[k] != '#'
        invariant
            k <= cs@.len(),
            forall|j: int| 0 <= j < k ==> #[trigger] cs@[j] != '?' && cs@[j] != '#',
        decreases cs.len() - k,
    {
        k = k + 1;
    }
    proof {
        lemma_path_len(cs@, k as int);
    }
    let path = slice_of(&cs, 0, k);
    assert(path@ =~= cs@.take(k as int));
    let lp = lower_chars(&path);
    let md = to_chars(".md");
    let markdown = to_chars(".markdown");
    proof {
        reveal_strlit(".md");
        reveal_strlit(".markdown");
        assert(md@ =~= seq!['.', 'm', 'd']);
        assert(markdown@ =~= seq!['.', 'm', 'a', 'r', 'k', 'd', 'o', 'w', 'n']);
    }
    ends_with_seq(&lp, &md) || ends_with_seq(&lp, &markdown)
}

// ---------------------------------------------------------------------------
// Content-Signal header
// ---------------------------------------------------------------------------

/// One comma-separated part of a `Content-Signal` header says `ai-input=no`
/// (keys and values trimmed, compared without ASCII case).
pub open spec fn part_denies_ai_input(part: Seq<char>) -> bool {
    let p = trim(part);
    match crate::strs::find_char(p, '=') {
        Some(i) => lower_seq(trim(p.take(i))) == seq!['a', 'i', '-', 'i', 'n', 'p', 'u', 't']
            && lower_seq(trim(p.skip(i + 1))) == seq!['n', 'o'],
        None => false,
    }
}

/// Number of parts that deny AI input, among the first `n` parts.
pub open spec fn denial_count(parts: Seq<Seq<char>>) -> int
    decreases parts.len(),
{
    if parts.len() == 0 {
        0
    } else {
        denial_count(parts.drop_last()) + if part_denies_ai_input(parts.last()) {
            1int
        } else {
            0
        }
    }
}

/// What `content_signal_denials` returns.
pub open spec fn spec_content_signal_denials(header: Option<Seq<char>>) -> int {
    match header {
        Some(v) => denial_count(split_char(v, ',')),
        None => 0,
    }
}

/// Number of parts of a `Content-Signal` header that carry `ai-input=no`;
/// each one earns the user a warning.
pub fn content_signal_denials(header: Option<&str>) -> (n: usize)
    ensures
        n == spec_content_signal_denials(match header {
            Some(h) => Some(h@),
            None => None,
        }),
{
    let h = match header {
        Some(h) => h,
        None => return 0,
    };
    let cs = to_chars(h);
    let parts = split_ranges(&cs, ',');
    let ghost ps = split_char(cs@, ',');
    let key = to_chars("ai-input");
    let no = to_chars("no");
    proof {
        reveal_strlit("ai-input");
        reveal_strlit("no");
        assert(key@ =~= seq!['a', 'i', '-', 'i', 'n', 'p', 'u', 't']);
        assert(no@ =~= seq!['n', 'o']);
    }
    let mut n: usize = 0;
    let mut k: usize = 0;
    while k < parts.len()
        invariant
            k <= parts@.len(),
            parts@.len() == ps.len(),
            n <= k,
            key@ == seq!['a', 'i', '-', 'i', 'n', 'p', 'u', 't'],
            no@ == seq!['n', 'o'],
            forall|j: int|
                0 <= j < parts@.len() ==> {
                    &&& (#[trigger] parts@[j]).0 <= parts@[j].1 <= cs@.len()
                    &&& cs@.subrange(parts@[j].0 as int, parts@[j].1 as int) == ps[j]
                },
            n == denial_count(ps.take(k as int)),
        decreases parts.len() - k,
    {
        let (lo, hi) = parts[k];
        let (a, b) = trim_range(&cs, lo, hi);
        let part = slice_of(&cs, a, b);
        let ghost p = trim(ps[k as int]);
        assert(part@ == p);
        let mut hit = false;
        match find_char_in(&part, '=', 0) {
            Some(i) => {
                let (ka, kb) = trim_range(&part, 0, i);
                let (va, vb) = trim_range(&part, i + 1, part.len());
                let kl = lower_chars(&slice_of(&part, ka, kb));
                let vl = lower_chars(&slice_of(&part, va, vb));
                assert(part@.subrange(0, i as int) =~= p.take(i as int));
                assert(part@.subrange(i + 1, part@.len() as int) =~= p.skip(i + 1));
                hit = crate::strs::seq_eq(&kl, &key) && crate::strs::seq_eq(&vl, &no);
            },
            None => {},
        }
        assert(hit == part_denies_ai_input(ps[k as int]));
        assert(ps.take(k + 1).drop_last() =~= ps.take(k as int));
        if hit {
            n = n + 1;
        }
        k = k + 1;
    }
    assert(ps.take(parts@.len() as int) =~= ps);
    n
}

// ---------------------------------------------------------------------------
// HTML sanitising
// ---------------------------------------------------------------------------

/// `<tag`.
pub open spec fn open_pat(tag: Seq<char>) -> Seq<char> {
    seq!['<'] + tag
}

/// `</tag>`.
pub open spec fn close_pat(tag: Seq<char>) -> Seq<char> {
    seq!['<', '/'] + tag + seq!['>']
}

/// One removal of a `tag` element: from the first `<tag` (ASCII case
/// ignored) through the matching `</tag>`, or, when there is none, through
/// the next `>`. `None` when nothing can be removed.
pub open spec fn tag_removal(s: Seq<char>, tag: Seq<char>) -> Option<Seq<char>> {
    let l = lower_seq(s);
    match find(l, open_pat(tag)) {
        None => None,
        Some(start) => match crate::strs::find_from(l, close_pat(tag), start) {
            Some(cp) => Some(s.take(start) + s.skip(cp + close_pat(tag).len())),
            None => match find_char_from(s, '>', start) {
                Some(g) => Some(s.take(start) + s.skip(g + 1)),
                None => None,
            },
        },
    }
}

/// Removes `tag` elements until none is left (or the last one is unclosed
/// with no `>` after it). The length test only guarantees termination:
/// each removal shortens the text (`lemma_tag_removal_shrinks`).
pub open spec fn strip_tag(s: Seq<char>, tag: Seq<char>) -> Seq<char>
    decreases s.len(),
{
    match tag_removal(s, tag) {
        Some(t) => if t.len() < s.len() {
            strip_tag(t, tag)
        } else {
            t
        },
        None => s,
    }
}

/// `attr="` / `attr='` followed by a scheme.
pub open spec fn attr_pat(attr: Seq<char>, q: char, scheme: Seq<char>) -> Seq<char> {
    attr + seq!['=', q] + scheme
}

/// Replaces the first `attr="scheme..."` (or, when there is none,
/// `attr='scheme...'`) by `attr="#"` (`attr='#'`), up to the closing quote.
pub open spec fn scheme_replace(s: Seq<char>, attr: Seq<char>, scheme: Seq<char>) -> Option<Seq<char>> {
    let l = lower_seq(s);
    match find(l, attr_pat(attr, '"', scheme)) {
        Some(pos) => match find_char_from(s, '"', pos + attr.len() + 2) {
            Some(e) => Some(splice(s, pos, e + 1, attr + seq!['=', '"', '#', '"'])),
            None => None,
        },
        None => match find(l, attr_pat(attr, '\'', scheme)) {
            Some(pos) => match find_char_from(s, '\'', pos + attr.len() + 2) {
                Some(e) => Some(splice(s, pos, e + 1, attr + seq!['=', '\'', '#', '\''])),
                None => None,
            },
            None => None,
        },
    }
}

pub open spec fn js_scheme() -> Seq<char> {
    seq!['j', 'a', 'v', 'a', 's', 'c', 'r', 'i', 'p', 't', ':']
}

pub open spec fn data_scheme() -> Seq<char> {
    seq!['d', 'a', 't', 'a', ':']
}

pub open spec fn vb_scheme() -> Seq<char> {
    seq!['v', 'b', 's', 'c', 'r', 'i', 'p', 't', ':']
}

/// The first replacement that one of the dangerous schemes allows.
pub open spec fn attr_step(s: Seq<char>, attr: Seq<char>) -> Option<Seq<char>> {
    match scheme_replace(s, attr, js_scheme()) {
        Some(t) => Some(t),
        None => match scheme_replace(s, attr, data_scheme()) {
            Some(t) => Some(t),
            None => scheme_replace(s, attr, vb_scheme()),
        },
    }
}

/// Neutralises dangerous `attr` URLs until none is left. The length test
/// only guarantees termination (`lemma_scheme_replace_shrinks`).
pub open spec fn neutralize(s: Seq<char>, attr: Seq<char>) -> Seq<char>
    decreases s.len(),
{
    match attr_step(s, attr) {
        Some(t) => if t.len() < s.len() {
            neutralize(t, attr)
        } else {
            t
        },
        None => s,
    }
}

pub open spec fn tag_script() -> Seq<char> {
    seq!['s', 'c', 'r', 'i', 'p', 't']
}

pub open spec fn tag_style() -> Seq<char> {
    seq!['s', 't', 'y', 'l', 'e']
}

pub open spec fn tag_noscript() -> Seq<char> {
    seq!['n', 'o', 's', 'c', 'r', 'i', 'p', 't']
}

pub open spec fn tag_iframe() -> Seq<char> {
    seq!['i', 'f', 'r', 'a', 'm', 'e']
}

pub open spec fn tag_object() -> Seq<char> {
    seq!['o', 'b', 'j', 'e', 'c', 't']
}

pub open spec fn tag_embed() -> Seq<char> {
    seq!['e', 'm', 'b', 'e', 'd']
}

/// What `sanitize_html` returns: the dangerous elements removed in turn,
/// then `href` and `src` URLs with dangerous schemes neutralised.
pub open spec fn spec_sanitize_html(html: Seq<char>) -> Seq<char> {
    let s1 = strip_tag(html, tag_script());
    let s2 = strip_tag(s1, tag_style());
    let s3 = strip_tag(s2, tag_noscript());
    let s4 = strip_tag(s3, tag_iframe());
    let s5 = strip_tag(s4, tag_object());
    let s6 = strip_tag(s5, tag_embed());
    neutralize(neutralize(s6, seq!['h', 'r', 'e', 'f']), seq!['s', 'r', 'c'])
}

/// Each removal shortens the text.
pub proof fn lemma_tag_removal_shrinks(s: Seq<char>, tag: Seq<char>)
    ensures
        tag_removal(s, tag) matches Some(t) ==> t.len() < s.len(),
{
    let l = lower_seq(s);
    if let Some(start) = find(l, open_pat(tag)) {
        assert(is_first_match(l, open_pat(tag), 0, start));
        match crate::strs::find_from(l, close_pat(tag), start) {
            Some(cp) => {
                assert(is_first_match(l, close_pat(tag), start, cp));
            },
            None => {
                if let Some(g) = find_char_from(s, '>', start) {
                    assert(is_first_char(s, '>', start, g));
                }
            },
        }
    }
}

/// A dangerous-scheme replacement shortens the text.
pub proof fn lemma_scheme_replace_shrinks(s: Seq<char>, attr: Seq<char>, scheme: Seq<char>)
    requires
        scheme.len() >= 2,
        forall|j: int| 0 <= j < scheme.len() ==> #[trigger] scheme[j] != '"' && scheme[j] != '\'',
    ensures
        scheme_replace(s, attr, scheme) matches Some(t) ==> t.len() < s.len(),
{
    let l = lower_seq(s);
    if let Some(pos) = find(l, attr_pat(attr, '"', scheme)) {
        lemma_quote_after_pattern(s, attr, '"', scheme, pos);
    } else if let Some(pos) = find(l, attr_pat(attr, '\'', scheme)) {
        lemma_quote_after_pattern(s, attr, '\'', scheme, pos);
    }
}

/// The closing quote after a matched `attr=qscheme` lies beyond the scheme.
proof fn lemma_quote_after_pattern(s: Seq<char>, attr: Seq<char>, q: char, scheme: Seq<char>, pos: int)
    requires
        find(lower_seq(s), attr_pat(attr, q, scheme)) == Some(pos),
        q == '"' || q == '\'',
        forall|j: int| 0 <= j < scheme.len() ==> #[trigger] scheme[j] != '"' && scheme[j] != '\'',
    ensures
        pos + attr.len() + 2 + scheme.len() <= s.len(),
        find_char_from(s, q, pos + attr.len() + 2) matches Some(e) ==> e >= pos + attr.len() + 2
            + scheme.len() && e < s.len(),
{
    let l = lower_seq(s);
    let p = attr_pat(attr, q, scheme);
    assert(is_first_match(l, p, 0, pos));
    let vs = pos + attr.len() + 2;
    if let Some(e) = find_char_from(s, q, vs) {
        assert(is_first_char(s, q, vs, e));
        if e < vs + scheme.len() {
            let j = e - vs;
            assert(l.subrange(pos, pos + p.len())[attr.len() + 2 + j] == p[attr.len() + 2 + j]);
            assert(p[attr.len() + 2 + j] == scheme[j]);
            assert(l[e] == lower(s[e]));
            assert(false);
        }
    }
}

/// One removal pass for `tag`.
fn strip_tag_exec(s: Vec<char>, tag: &[char]) -> (r: Vec<char>)
    ensures
        r@ == strip_tag(s@, tag@),
{
    let mut open: Vec<char> = Vec::new();
    open.push('<');
    extend_all(&mut open, tag);
    let mut close: Vec<char> = Vec::new();
    close.push('<');
    close.push('/');
    extend_all(&mut close, tag);
    close.push('>');
    assert(open@ =~= open_pat(tag@));
    assert(close@ =~= close_pat(tag@));
    let mut cur = s;
    loop
        invariant
            open@ == open_pat(tag@),
            close@ == close_pat(tag@),
            strip_tag(cur@, tag@) == strip_tag(s@, tag@),
        decreases cur.len(),
    {
        proof {
            lemma_tag_removal_shrinks(cur@, tag@);
        }
        let l = lower_chars(&cur);
        match find_seq_from(&l, &open, 0) {
            None => {
                return cur;
            },
            Some(start) => {
                assert(is_first_match(l@, open@, 0, start as int));
                match find_seq_from(&l, &close, start) {
                    Some(cp) => {
                        assert(is_first_match(l@, close@, start as int, cp as int));
                        let next = splice_vec(&cur, start, cp + close.len(), &[]);
                        assert(next@ =~= cur@.take(start as int) + cur@.skip(cp + close@.len()));
                        cur = next;
                    },
                    None => {
                        match find_char_in(&cur, '>', start) {
                            Some(g) => {
                                let next = splice_vec(&cur, start, g + 1, &[]);
                                assert(next@ =~= cur@.take(start as int) + cur@.skip(g + 1));
                                cur = next;
                            },
                            None => {
                                return cur;
                            },
                        }
                    },
                }
            },
        }
    }
}

/// Tries one scheme; `Some` with the replaced text when it applies.
fn scheme_replace_exec(s: &[char], attr: &[char], scheme: &[char]) -> (r: Option<Vec<char>>)
    ensures
        match r {
            Some(t) => scheme_replace(s@, attr@, scheme@) == Some(t@),
            None => scheme_replace(s@, attr@, scheme@) is None,
        },
{
    let l = lower_chars(s);
    let mut dq: Vec<char> = Vec::new();
    extend_all(&mut dq, attr);
    dq.push('=');
    dq.push('"');
    extend_all(&mut dq, scheme);
    assert(dq@ =~= attr_pat(attr@, '"', scheme@));
    match find_seq_from(&l, &dq, 0) {
        Some(pos) => {
            assert(is_first_match(l@, dq@, 0, pos as int));
            assert(l@.len() == l.len());
            let vs = pos + attr.len() + 2;
            match find_char_in(s, '"', vs) {
                Some(e) => {
                    let mut rep: Vec<char> = Vec::new();
                    extend_all(&mut rep, attr);
                    rep.push('=');
                    rep.push('"');
                    rep.push('#');
                    rep.push('"');
                    assert(rep@ =~= attr@ + seq!['=', '"', '#', '"']);
                    Some(splice_vec(s, pos, e + 1, &rep))
                },
                None => None,
            }
        },
        None => {
            let mut sq: Vec<char> = Vec::new();
            extend_all(&mut sq, attr);
            sq.push('=');
            sq.push('\'');
            extend_all(&mut sq, scheme);
            assert(sq@ =~= attr_pat(attr@, '\'', scheme@));
            match find_seq_from(&l, &sq, 0) {
                Some(pos) => {
                    assert(is_first_match(l@, sq@, 0, pos as int));
                    assert(l@.len() == l.len());
                    let vs = pos + attr.len() + 2;
                    match find_char_in(s, '\'', vs) {
                        Some(e) => {
                            let mut rep: Vec<char> = Vec::new();
                            extend_all(&mut rep, attr);
                            rep.push('=');
                            rep.push('\'');
                            rep.push('#');
                            rep.push('\'');
                            assert(rep@ =~= attr@ + seq!['=', '\'', '#', '\'']);
                            Some(splice_vec(s, pos, e + 1, &rep))
                        },
                        None => None,
                    }
                },
                None => None,
            }
        },
    }
}

/// The scheme literals, with the facts the shrink lemma needs.
fn schemes() -> (r: (Vec<char>, Vec<char>, Vec<char>))
    ensures
        r.0@ == js_scheme(),
        r.1@ == data_scheme(),
        r.2@ == vb_scheme(),
{
    let a = to_chars("javascript:");
    let b = to_chars("data:");
    let c = to_chars("vbscript:");
    proof {
        reveal_strlit("javascript:");
        reveal_strlit("data:");
        reveal_strlit("vbscript:");
        assert(a@ =~= js_scheme());
        assert(b@ =~= data_scheme());
        assert(c@ =~= vb_scheme());
    }
    (a, b, c)
}

/// Neutralising pass for one attribute.
fn neutralize_exec(s: Vec<char>, attr: &[char]) -> (r: Vec<char>)
    ensures
        r@ == neutralize(s@, attr@),
{
    let (js, data, vb) = schemes();
    let mut cur = s;
    loop
        invariant
            js@ == js_scheme(),
            data@ == data_scheme(),
            vb@ == vb_scheme(),
            neutralize(cur@, attr@) == neutralize(s@, attr@),
        decreases cur.len(),
    {
        proof {
            lemma_scheme_replace_shrinks(cur@, attr@, js_scheme());
            lemma_scheme_replace_shrinks(cur@, attr@, data_scheme());
            lemma_scheme_replace_shrinks(cur@, attr@, vb_scheme());
        }
        let step = match scheme_replace_exec(&cur, attr, &js) {
            Some(t) => Some(t),
            None => match scheme_replace_exec(&cur, attr, &data) {
                Some(t) => Some(t),
                None => scheme_replace_exec(&cur, attr, &vb),
            },
        };
        match step {
            Some(t) => {
                cur = t;
            },
            None => {
                return cur;
            },
        }
    }
}

/// Strip dangerous elements and URL schemes from HTML before it is
/// converted as a whole page.
pub fn sanitize_html(html: &str) -> (r: String)
    ensures
        r@ == spec_sanitize_html(html@),
{
    let tags = [
        to_chars("script"),
        to_chars("style"),
        to_chars("noscript"),
        to_chars("iframe"),
        to_chars("object"),
        to_chars("embed"),
    ];
    proof {
        reveal_strlit("script");
        reveal_strlit("style");
        reveal_strlit("noscript");
        reveal_strlit("iframe");
        reveal_strlit("object");
        reveal_strlit("embed");
        assert(tags[0]@ =~= tag_script());
        assert(tags[1]@ =~= tag_style());
        assert(tags[2]@ =~= tag_noscript());
        assert(tags[3]@ =~= tag_iframe());
        assert(tags[4]@ =~= tag_object());
        assert(tags[5]@ =~= tag_embed());
    }
    let s0 = to_chars(html);
    let s1 = strip_tag_exec(s0, &tags[0]);
    let s2 = strip_tag_exec(s1, &tags[1]);
    let s3 = strip_tag_exec(s2, &tags[2]);
    let s4 = strip_tag_exec(s3, &tags[3]);
    let s5 = strip_tag_exec(s4, &tags[4]);
    let s6 = strip_tag_exec(s5, &tags[5]);
    let href = to_chars("href");
    let src = to_chars("src");
    proof {
        reveal_strlit("href");
        reveal_strlit("src");
        assert(href@ =~= seq!['h', 'r', 'e', 'f']);
        assert(src@ =~= seq!['s', 'r', 'c']);
    }
    let s7 = neutralize_exec(s6, &href);
    let s8 = neutralize_exec(s7, &src);
    from_chars(&s8)
}

/// Law: after one tag's removal pass, the text holds no `<tag` (ASCII case
/// ignored) unless the first one is unclosed and has no `>` after it.
pub proof fn lemma_strip_tag_leaves_no_open_tag(s: Seq<char>, tag: Seq<char>)
    ensures
        ({
            let r = strip_tag(s, tag);
            let l = lower_seq(r);
            match find(l, open_pat(tag)) {
                None => true,
                Some(start) => crate::strs::find_from(l, close_pat(tag), start) is None
                    && find_char_from(r, '>', start) is None,
            }
        }),
    decreases s.len(),
{
    lemma_tag_removal_shrinks(s, tag);
    match tag_removal(s, tag) {
        Some(t) => {
            lemma_strip_tag_leaves_no_open_tag(t, tag);
        },
        None => {},
    }
}

// ---------------------------------------------------------------------------
// Markdown clean-up
// ---------------------------------------------------------------------------

/// Characters whose backslash escape carries meaning in markdown.
pub open spec fn is_meaningful(c: char) -> bool {
    c == '*' || c == '_' || c == '`' || c == '[' || c == ']' || c == '<' || c == '>' || c == '~'
        || c == '|' || c == '\\' || c == '#'
}

/// Every character is an ASCII digit or `.`.
pub open spec fn digits_or_dots(s: Seq<char>) -> bool {
    forall|j: int| 0 <= j < s.len() ==> crate::strs::is_ascii_digit(#[trigger] s[j]) || s[j] == '.'
}

/// The backslash at `i` is kept: it escapes a meaningful character, or it
/// sits in the line's leading run (`1999\.` must not become a list).
pub open spec fn keeps_backslash(line: Seq<char>, i: int) -> bool {
    is_meaningful(line[i + 1]) || (i <= lead_ws(line) + 6 && digits_or_dots(
        trim_start(line.take(i)),
    ))
}

/// The line from index `i` on, with pointless backslash escapes dropped.
pub open spec fn unescape_from(line: Seq<char>, i: int) -> Seq<char>
    decreases line.len() - i,
{
    if i < 0 || i >= line.len() {
        seq![]
    } else if line[i] != '\\' {
        seq![line[i]] + unescape_from(line, i + 1)
    } else if i + 1 >= line.len() {
        seq!['\\']
    } else {
        (if keeps_backslash(line, i) {
            seq!['\\', line[i + 1]]
        } else {
            seq![line[i + 1]]
        }) + unescape_from(line, i + 2)
    }
}

/// Output so far, current run of blank lines, and fence state.
pub type CleanState = (Seq<char>, int, Option<(char, int)>);

/// The effect of one line on `clean_markdown`'s state: fenced lines are
/// kept verbatim, at most two blank lines in a row survive, and other lines
/// lose their pointless escapes.
pub open spec fn clean_step(st: CleanState, line: Seq<char>) -> CleanState {
    let f = fence_step(st.2, line);
    if f is Some {
        (st.0 + line + seq!['\n'], 0, f)
    } else if trim(line).len() == 0 {
        let b = st.1 + 1;
        (if b <= 2 {
            st.0 + seq!['\n']
        } else {
            st.0
        }, b, f)
    } else {
        (st.0 + unescape_from(line, 0) + seq!['\n'], 0, f)
    }
}

pub open spec fn clean_fold(ls: Seq<Seq<char>>) -> CleanState
    decreases ls.len(),
{
    if ls.len() == 0 {
        (seq![], 0, None)
    } else {
        clean_step(clean_fold(ls.drop_last()), ls.last())
    }
}

/// What `clean_markdown` returns.
pub open spec fn spec_clean_markdown(input: Seq<char>) -> Seq<char> {
    trim_end(clean_fold(lines(input)).0) + seq!['\n']
}

/// Unescapes one line `s[lo..hi]` onto `out`.
fn unescape_line(out: &mut Vec<char>, s: &[char], lo: usize, hi: usize)
    requires
        lo <= hi <= s@.len(),
    ensures
        final(out)@ == old(out)@ + unescape_from(s@.subrange(lo as int, hi as int), 0),
{
    let line = slice_of(s, lo, hi);
    let ghost ln = line@;
    let ind = skip_ws(&line, 0, line.len());
    assert(line@.subrange(0, line@.len() as int) =~= line@);
    let ghost start = out@;
    let mut i: usize = 0;
    while i < line.len()
        invariant
            i <= line@.len() + 1,
            ind as int == lead_ws(ln),
            line@ == ln,
            start + unescape_from(ln, 0) == out@ + unescape_from(ln, i as int),
        decreases line.len() + 1 - i,
    {
        let c = line[i];
        if c != '\\' {
            out.push(c);
            i = i + 1;
        } else if i + 1 >= line.len() {
            out.push(c);
            i = i + 1;
            assert(unescape_from(ln, i as int) =~= Seq::<char>::empty());
        } else {
            let next = line[i + 1];
            let meaningful = next == '*' || next == '_' || next == '`' || next == '[' || next
                == ']' || next == '<' || next == '>' || next == '~' || next == '|' || next == '\\'
                || next == '#';
            let mut leading = false;
            if i < ind || i - ind <= 6 {
                let a = skip_ws(&line, 0, i);
                let mut all = true;
                let mut j = a;
                while j < i
                    invariant
                        a <= j <= i < line@.len(),
                        all == (forall|k: int|
                            a <= k < j ==> crate::strs::is_ascii_digit(#[trigger] line@[k]) || line@[k] == '.'),
                    decreases i - j,
                {
                    let d = line[j];
                    if !(('0' <= d && d <= '9') || d == '.') {
                        all = false;
                    }
                    j = j + 1;
                }
                proof {
                    let t = trim_start(ln.take(i as int));
                    assert(ln.take(i as int) =~= line@.subrange(0, i as int));
                    assert(t =~= line@.subrange(a as int, i as int));
                    if all {
                        assert forall|k: int| 0 <= k < t.len() implies crate::strs::is_ascii_digit(#[trigger] t[k]) || t[k] == '.' by {
                            assert(t[k] == line@[a + k]);
                        }
                    } else {
                        let k = choose|k: int| a <= k < i && !(crate::strs::is_ascii_digit(#[trigger] line@[k]) || line@[k] == '.');
                        assert(t[k - a] == line@[k]);
                    }
                }
                leading = all;
            }
            assert(leading == (i <= lead_ws(ln) + 6 && digits_or_dots(trim_start(ln.take(i as int)))));
            if meaningful || leading {
                out.push('\\');
            }
            out.push(next);
            i = i + 2;
        }
    }
    assert(unescape_from(ln, i as int) =~= Seq::<char>::empty());
}

/// Remove unnecessary backslash escapes and collapse runs of more than two
/// blank lines, leaving fenced code untouched.
pub fn clean_markdown(input: &str) -> (r: String)
    ensures
        r@ == spec_clean_markdown(input@),
{
    let cs = to_chars(input);
    let ranges = line_ranges(&cs);
    let ghost ls = lines(cs@);
    let mut out: Vec<char> = Vec::new();
    let mut blanks: u64 = 0;
    let mut fence: Option<(char, usize)> = None;
    let mut k: usize = 0;
    while k < ranges.len()
        invariant
            k <= ranges@.len(),
            ranges@.len() == ls.len(),
            forall|j: int|
                0 <= j < ranges@.len() ==> {
                    &&& (#[trigger] ranges@[j]).0 <= ranges@[j].1 <= cs@.len()
                    &&& cs@.subrange(ranges@[j].0 as int, ranges@[j].1 as int) == ls[j]
                },
            out@ == clean_fold(ls.take(k as int)).0,
            opt_view(fence) == clean_fold(ls.take(k as int)).2,
            blanks <= 3,
            blanks as int == if clean_fold(ls.take(k as int)).1 >= 3 {
                3
            } else {
                clean_fold(ls.take(k as int)).1
            },
            clean_fold(ls.take(k as int)).1 >= 0,
        decreases ranges.len() - k,
    {
        let (lo, hi) = ranges[k];
        let ghost line = ls[k as int];
        assert(ls.take(k + 1).drop_last() =~= ls.take(k as int));
        assert(ls.take(k + 1).last() == line);
        fence = fence_next(fence, &cs, lo, hi);
        if fence.is_some() {
            extend_range(&mut out, &cs, lo, hi);
            out.push('\n');
            blanks = 0;
        } else {
            let (a, b) = trim_range(&cs, lo, hi);
            if a == b {
                if blanks < 3 {
                    blanks = blanks + 1;
                }
                if blanks <= 2 {
                    out.push('\n');
                }
            } else {
                blanks = 0;
                unescape_line(&mut out, &cs, lo, hi);
                out.push('\n');
            }
        }
        k = k + 1;
    }
    assert(ls.take(ranges@.len() as int) =~= ls);
    let e = skip_ws_back(&out, 0, out.len());
    assert(out@.subrange(0, out@.len() as int) =~= out@);
    let mut res = slice_of(&out, 0, e);
    res.push('\n');
    assert(res@ =~= spec_clean_markdown(input@));
    from_chars(&res)
}

// ---------------------------------------------------------------------------
// YAML front matter output
// ---------------------------------------------------------------------------

/// The YAML double-quoted escape of one character.
pub open spec fn yaml_esc(c: char) -> Seq<char> {
    let u = c as int;
    if c == '\\' {
        seq!['\\', '\\']
    } else if c == '"' {
        seq!['\\', '"']
    } else if c == '\n' {
        seq!['\\', 'n']
    } else if c == '\r' {
        seq!['\\', 'r']
    } else if c == '\t' {
        seq!['\\', 't']
    } else if u < 0x20 || u == 0x7f {
        seq!['\\', 'x'] + hex_digits(u, 2)
    } else if u == 0x85 || u == 0x2028 || u == 0x2029 {
        seq!['\\', 'u'] + hex_digits(u, 4)
    } else {
        seq![c]
    }
}

/// What `yaml_escape` returns.
pub open spec fn spec_yaml_escape(s: Seq<char>) -> Seq<char>
    decreases s.len(),
{
    if s.len() == 0 {
        seq![]
    } else {
        spec_yaml_escape(s.drop_last()) + yaml_esc(s.last())
    }
}

/// Appends the YAML escape of `s` to `out`.
fn push_yaml_escaped(out: &mut Vec<char>, s: &[char])
    ensures
        final(out)@ == old(out)@ + spec_yaml_escape(s@),
{
    let ghost start = out@;
    let mut i: usize = 0;
    while i < s.len()
        invariant
            i <= s@.len(),
            out@ == start + spec_yaml_escape(s@.take(i as int)),
        decreases s.len() - i,
    {
        let c = s[i];
        let u = char_code(c);
        let ghost before = out@;
        if c == '\\' {
            out.push('\\');
            out.push('\\');
        } else if c == '"' {
            out.push('\\');
            out.push('"');
        } else if c == '\n' {
            out.push('\\');
            out.push('n');
        } else if c == '\r' {
            out.push('\\');
            out.push('r');
        } else if c == '\t' {
            out.push('\\');
            out.push('t');
        } else if u < 0x20 || u == 0x7f {
            out.push('\\');
            out.push('x');
            push_hex(out, u, 2);
        } else if u == 0x85 || u == 0x2028 || u == 0x2029 {
            out.push('\\');
            out.push('u');
            push_hex(out, u, 4);
        } else {
            out.push(c);
        }
        assert(out@ =~= before + yaml_esc(c));
        assert(s@.take(i + 1).drop_last() =~= s@.take(i as int));
        i = i + 1;
    }
    assert(s@.take(s@.len() as int) =~= s@);
}

/// Escape a string value for a YAML double-quoted string.
pub fn yaml_escape(s: &str) -> (r: String)
    ensures
        r@ == spec_yaml_escape(s@),
{
    let cs = to_chars(s);
    let mut out: Vec<char> = Vec::new();
    push_yaml_escaped(&mut out, &cs);
    assert(out@ =~= spec_yaml_escape(s@));
    from_chars(&out)
}

/// A character a terminal may act on: C0 controls, DEL, and the Unicode
/// line and paragraph separators (NEL, U+2028, U+2029).
pub open spec fn is_unsafe_in_yaml(c: char) -> bool {
    (c as int) < 0x20 || c as int == 0x7f || c as int == 0x85 || c as int == 0x2028 || c as int
        == 0x2029
}

proof fn lemma_hex_digits_safe(u: int, w: nat)
    ensures
        forall|j: int| 0 <= j < hex_digits(u, w).len() ==> !is_unsafe_in_yaml(#[trigger] hex_digits(u, w)[j]) && hex_digits(u, w)[j] != '"',
        hex_digits(u, w).len() == w,
    decreases w,
{
    if w > 0 {
        lemma_hex_digits_safe(u / 16, (w - 1) as nat);
        let d = u % 16;
        assert(0 <= d < 16);
    }
}

/// Law: the escaped value holds no control character, DEL, NEL, line or
/// paragraph separator, and no bare `"`: it cannot end the YAML string early
/// or write terminal control sequences into the file.
pub proof fn lemma_yaml_escape_is_safe(s: Seq<char>)
    ensures
        forall|j: int| 0 <= j < spec_yaml_escape(s).len() ==> !is_unsafe_in_yaml(
            #[trigger] spec_yaml_escape(s)[j],
        ),
        forall|j: int|
            0 <= j < spec_yaml_escape(s).len() && #[trigger] spec_yaml_escape(s)[j] == '"' ==> j > 0
                && spec_yaml_escape(s)[j - 1] == '\\',
    decreases s.len(),
{
    if s.len() > 0 {
        let p = spec_yaml_escape(s.drop_last());
        let e = yaml_esc(s.last());
        lemma_yaml_escape_is_safe(s.drop_last());
        let u = s.last() as int;
        lemma_hex_digits_safe(u, 2);
        lemma_hex_digits_safe(u, 4);
        let r = spec_yaml_escape(s);
        assert(r == p + e);
        assert forall|j: int| 0 <= j < r.len() implies !is_unsafe_in_yaml(#[trigger] r[j]) by {
            if j >= p.len() {
                assert(r[j] == e[j - p.len()]);
            } else {
                assert(r[j] == p[j]);
            }
        }
        assert forall|j: int| 0 <= j < r.len() && #[trigger] r[j] == '"' implies j > 0 && r[j - 1] == '\\' by {
            if j >= p.len() {
                assert(r[j] == e[j - p.len()]);
                if j - p.len() == 1 {
                    assert(r[j - 1] == e[0]);
                }
            } else {
                assert(r[j] == p[j]);
                assert(r[j - 1] == p[j - 1]);
            }
        }
    }
}

/// Article metadata: from readability, or from a markdown document's front
/// matter.
#[derive(Debug, Clone)]
pub struct ArticleMeta {
    pub title: Option<String>,
    pub byline: Option<String>,
    pub excerpt: Option<String>,
    pub published_time: Option<String>,
    pub image: Option<String>,
    pub url: Option<String>,
    pub site_name: Option<String>,
}

impl Default for ArticleMeta {
    /// Metadata with no field set.
    fn default() -> (m: Self)
        ensures
            m.title is None && m.byline is None && m.excerpt is None && m.published_time is None
                && m.image is None && m.url is None && m.site_name is None,
    {
        ArticleMeta {
            title: None,
            byline: None,
            excerpt: None,
            published_time: None,
            image: None,
            url: None,
            site_name: None,
        }
    }
}

/// `key: "escaped value"\n` when the value is present.
pub open spec fn yaml_field(key: Seq<char>, v: Option<Seq<char>>) -> Seq<char> {
    match v {
        Some(s) => key + seq![':', ' ', '"'] + spec_yaml_escape(s) + seq!['"', '\n'],
        None => seq![],
    }
}

pub open spec fn fm_delim() -> Seq<char> {
    seq!['-', '-', '-', '\n']
}

/// What `format_front_matter` returns.
pub open spec fn spec_format_front_matter(
    title: Option<Seq<char>>,
    byline: Option<Seq<char>>,
    published_time: Option<Seq<char>>,
    url: Seq<char>,
    excerpt: Option<Seq<char>>,
    image: Option<Seq<char>>,
    og_url: Option<Seq<char>>,
    site_name: Option<Seq<char>>,
    tokens: Option<u64>,
) -> Seq<char> {
    fm_delim() + yaml_field(seq!['t', 'i', 't', 'l', 'e'], title) + yaml_field(
        seq!['a', 'u', 't', 'h', 'o', 'r'],
        byline,
    ) + yaml_field(seq!['d', 'a', 't', 'e'], published_time) + yaml_field(
        seq!['s', 'o', 'u', 'r', 'c', 'e'],
        Some(url),
    ) + yaml_field(seq!['e', 'x', 'c', 'e', 'r', 'p', 't'], excerpt) + yaml_field(
        seq!['i', 'm', 'a', 'g', 'e'],
        image,
    ) + yaml_field(seq!['u', 'r', 'l'], og_url) + yaml_field(
        seq!['s', 'i', 't', 'e', '_', 'n', 'a', 'm', 'e'],
        site_name,
    ) + match tokens {
        Some(t) => seq!['t', 'o', 'k', 'e', 'n', 's', ':', ' '] + decimal(t as nat) + seq!['\n'],
        None => seq![],
    } + seq!['-', '-', '-', '\n', '\n']
}

/// Appends `key: "escaped value"\n` when the value is present.
fn push_yaml_field(out: &mut Vec<char>, key: &str, v: &Option<String>)
    ensures
        final(out)@ == old(out)@ + yaml_field(key@, opt_str_view(*v)),
{
    match v {
        Some(s) => {
            extend_str(out, key);
            out.push(':');
            out.push(' ');
            out.push('"');
            let cs = to_chars(s.as_str());
            push_yaml_escaped(out, &cs);
            out.push('"');
            out.push('\n');
            assert(out@ =~= old(out)@ + yaml_field(key@, opt_str_view(*v)));
        },
        None => {
            assert(out@ =~= old(out)@ + yaml_field(key@, opt_str_view(*v)));
        },
    }
}

/// The YAML front-matter block for fetched content.
pub fn format_front_matter(meta: &ArticleMeta, url: &str, tokens: Option<u64>) -> (r: String)
    ensures
        r@ == spec_format_front_matter(
            opt_str_view(meta.title),
            opt_str_view(meta.byline),
            opt_str_view(meta.published_time),
            url@,
            opt_str_view(meta.excerpt),
            opt_str_view(meta.image),
            opt_str_view(meta.url),
            opt_str_view(meta.site_name),
            tokens,
        ),
{
    proof {
        reveal_strlit("title");
        reveal_strlit("author");
        reveal_strlit("date");
        reveal_strlit("source");
        reveal_strlit("excerpt");
        reveal_strlit("image");
        reveal_strlit("url");
        reveal_strlit("site_name");
        reveal_strlit("tokens: ");
        reveal_strlit("---\n");
        reveal_strlit("---\n\n");
        assert("title"@ =~= seq!['t', 'i', 't', 'l', 'e']);
        assert("author"@ =~= seq!['a', 'u', 't', 'h', 'o', 'r']);
        assert("date"@ =~= seq!['d', 'a', 't', 'e']);
        assert("source"@ =~= seq!['s', 'o', 'u', 'r', 'c', 'e']);
        assert("excerpt"@ =~= seq!['e', 'x', 'c', 'e', 'r', 'p', 't']);
        assert("image"@ =~= seq!['i', 'm', 'a', 'g', 'e']);
        assert("url"@ =~= seq!['u', 'r', 'l']);
        assert("site_name"@ =~= seq!['s', 'i', 't', 'e', '_', 'n', 'a', 'm', 'e']);
        assert("tokens: "@ =~= seq!['t', 'o', 'k', 'e', 'n', 's', ':', ' ']);
        assert("---\n"@ =~= fm_delim());
        assert("---\n\n"@ =~= seq!['-', '-', '-', '\n', '\n']);
    }
    let mut out: Vec<char> = Vec::new();
    extend_str(&mut out, "---\n");
    push_yaml_field(&mut out, "title", &meta.title);
    push_yaml_field(&mut out, "author", &meta.byline);
    push_yaml_field(&mut out, "date", &meta.published_time);
    let src = Some(url.to_owned());
    push_yaml_field(&mut out, "source", &src);
    push_yaml_field(&mut out, "excerpt", &meta.excerpt);
    push_yaml_field(&mut out, "image", &meta.image);
    push_yaml_field(&mut out, "url", &meta.url);
    push_yaml_field(&mut out, "site_name", &meta.site_name);
    let ghost before_tokens = out@;
    match tokens {
        Some(t) => {
            extend_str(&mut out, "tokens: ");
            push_decimal(&mut out, t);
            out.push('\n');
        },
        None => {},
    }
    extend_str(&mut out, "---\n\n");
    assert(out@ =~= spec_format_front_matter(
        opt_str_view(meta.title),
        opt_str_view(meta.byline),
        opt_str_view(meta.published_time),
        url@,
        opt_str_view(meta.excerpt),
        opt_str_view(meta.image),
        opt_str_view(meta.url),
        opt_str_view(meta.site_name),
        tokens,
    ));
    from_chars(&out)
}

/// What `article_meta_from_front_matter` returns: `None` unless the
/// document (leading whitespace ignored) opens with `---`; otherwise the
/// front-matter fields, mapped onto article metadata.
pub open spec fn spec_article_meta_present(markdown: Seq<char>) -> bool {
    starts_with(trim_start(markdown), seq!['-', '-', '-'])
}

/// Article metadata from a markdown document's front matter.
pub fn article_meta_from_front_matter(markdown: &str) -> (r: Option<ArticleMeta>)
    ensures
        r is Some == spec_article_meta_present(markdown@),
        r matches Some(m) ==> {
            let fm = spec_parse(markdown@);
            &&& opt_str_view(m.title) == fm.title
            &&& opt_str_view(m.byline) == fm.author
            &&& opt_str_view(m.published_time) == fm.date
            &&& opt_str_view(m.excerpt) == fm.excerpt
            &&& opt_str_view(m.image) == fm.image
            &&& opt_str_view(m.site_name) == fm.site_name
            &&& opt_str_view(m.url) == fm.url
        },
{
    let cs = to_chars(markdown);
    let a = skip_ws(&cs, 0, cs.len());
    assert(cs@.subrange(0, cs@.len() as int) =~= cs@);
    let t = slice_of(&cs, a, cs.len());
    assert(t@ =~= trim_start(markdown@));
    let d = to_chars("---");
    proof {
        reveal_strlit("---");
        assert(d@ =~= seq!['-', '-', '-']);
    }
    if !starts_with_at(&t, &d) {
        return None;
    }
    let fm = crate::frontmatter::parse(markdown);
    Some(ArticleMeta {
        title: fm.title,
        byline: fm.author,
        published_time: fm.date,
        excerpt: fm.excerpt,
        image: fm.image,
        site_name: fm.site_name,
        url: fm.url,
    })
}

// ---------------------------------------------------------------------------
// Whole-page conversion (htmd)
// ---------------------------------------------------------------------------

/// What `htmd::convert` returns for an HTML document (`None` on its error).
pub uninterp spec fn spec_htmd_convert(html: Seq<char>) -> Option<Seq<char>>;

/// Calls `htmd::convert`, keeping the markdown or dropping the error.
#[verifier::external_body]
fn htmd_convert(html: &str) -> (r: Option<String>)
    ensures
        opt_str_view(r) == spec_htmd_convert(html@),
{
    htmd::convert(html).ok()
}

/// What `convert_raw` returns.
pub open spec fn spec_convert_raw(html: Seq<char>) -> Option<Seq<char>> {
    match spec_htmd_convert(html) {
        Some(md) => Some(spec_clean_markdown(md)),
        None => None,
    }
}

/// Convert a whole HTML page to markdown, then clean it up.
pub fn convert_raw(html: &str) -> (r: Option<String>)
    ensures
        opt_str_view(r) == spec_convert_raw(html@),
{
    match htmd_convert(html) {
        Some(md) => Some(clean_markdown(md.as_str())),
        None => None,
    }
}

/// What `raw_fallback` returns.
pub open spec fn spec_raw_fallback(html: Seq<char>) -> Seq<char> {
    spec_clean_markdown(
        match spec_convert_raw(spec_sanitize_html(html)) {
            Some(md) => md,
            None => seq![],
        },
    )
}

/// Sanitise, then convert the whole page: every path that hands raw page
/// HTML to the converter goes through here.
pub fn raw_fallback(html: &str) -> (r: String)
    ensures
        r@ == spec_raw_fallback(html@),
{
    let clean = sanitize_html(html);
    let md = match convert_raw(clean.as_str()) {
        Some(m) => m,
        None => String::new(),
    };
    clean_markdown(md.as_str())
}

// ---------------------------------------------------------------------------
// Readability
// ---------------------------------------------------------------------------

/// What readability extracts from a page: its title, its text (as
/// markdown) and its metadata.
#[derive(Debug, Clone)]
pub struct Readable {
    pub title: String,
    pub text: String,
    pub byline: Option<String>,
    pub excerpt: Option<String>,
    pub published_time: Option<String>,
    pub image: Option<String>,
    pub url: Option<String>,
    pub site_name: Option<String>,
}

/// The values of a `Readable`.
pub struct ReadableView {
    pub title: Seq<char>,
    pub text: Seq<char>,
    pub byline: Option<Seq<char>>,
    pub excerpt: Option<Seq<char>>,
    pub published_time: Option<Seq<char>>,
    pub image: Option<Seq<char>>,
    pub url: Option<Seq<char>>,
    pub site_name: Option<Seq<char>>,
}

impl View for Readable {
    type V = ReadableView;

    open spec fn view(&self) -> ReadableView {
        ReadableView {
            title: self.title@,
            text: self.text@,
            byline: opt_str_view(self.byline),
            excerpt: opt_str_view(self.excerpt),
            published_time: opt_str_view(self.published_time),
            image: opt_str_view(self.image),
            url: opt_str_view(self.url),
            site_name: opt_str_view(self.site_name),
        }
    }
}

/// What `dom_smoothie` readability (markdown text mode) extracts from a
/// page fetched from `url`; `None` when it fails.
pub uninterp spec fn spec_readability(html: Seq<char>, url: Seq<char>) -> Option<ReadableView>;

/// Runs `dom_smoothie::Readability` in markdown text mode and copies out the
/// article; the contract names the result. Its errors (a URL that is not
/// absolute, a page with no content) become `None`.
#[verifier::external_body]
fn readability(html: &str, url: &str) -> (r: Option<Readable>)
    ensures
        match r {
            Some(a) => spec_readability(html@, url@) == Some(a@),
            None => spec_readability(html@, url@) is None,
        },
{
    let cfg = dom_smoothie::Config { text_mode: dom_smoothie::TextMode::Markdown, ..Default::default() };
    let mut reader = dom_smoothie::Readability::new(html, Some(url), Some(cfg)).ok()?;
    let a = reader.parse().ok()?;
    Some(Readable {
        title: a.title,
        text: a.text_content.to_string(),
        byline: a.byline,
        excerpt: a.excerpt,
        published_time: a.published_time,
        image: a.image,
        url: a.url,
        site_name: a.site_name,
    })
}

/// The markdown of an extracted article: its title as a level-1 heading
/// (when it has one), then its text, cleaned.
pub open spec fn article_markdown(a: ReadableView) -> Seq<char> {
    spec_clean_markdown(
        (if a.title.len() > 0 { seq!['#', ' '] + a.title + seq!['\n', '\n'] } else { seq![] }) + a.text,
    )
}

/// Whether readability found usable text.
pub open spec fn article_usable(a: Option<ReadableView>) -> bool {
    match a {
        Some(v) => trim(v.text).len() > 0,
        None => false,
    }
}

/// Turn what readability extracted into markdown and metadata; with nothing
/// usable (no article, or only whitespace), convert the whole page instead
/// and report no metadata.
pub fn readable_markdown(article: Option<Readable>, html: &str) -> (r: (String, Option<ArticleMeta>))
    ensures
        !article_usable(match article { Some(a) => Some(a@), None => None }) ==> r.0@ == spec_raw_fallback(html@)
            && r.1 is None,
        match article {
            Some(a) => article_usable(Some(a@)) ==> {
                &&& r.0@ == article_markdown(a@)
                &&& match r.1 {
                    Some(m) => {
                        &&& opt_str_view(m.title) == (if a.title@.len() > 0 { Some(a.title@) } else { None })
                        &&& opt_str_view(m.byline) == a@.byline
                        &&& opt_str_view(m.excerpt) == a@.excerpt
                        &&& opt_str_view(m.published_time) == a@.published_time
                        &&& opt_str_view(m.image) == a@.image
                        &&& opt_str_view(m.url) == a@.url
                        &&& opt_str_view(m.site_name) == a@.site_name
                    },
                    None => false,
                }
            },
            None => true,
        },
{
    match article {
        Some(a) => {
            let text = to_chars(a.text.as_str());
            let trimmed_text = crate::strs::trimmed(&text);
            if trimmed_text.len() == 0 {
                return (raw_fallback(html), None);
            }
            let title = to_chars(a.title.as_str());
            let mut md: Vec<char> = Vec::new();
            if title.len() > 0 {
                md.push('#');
                md.push(' ');
                extend_all(&mut md, &title);
                md.push('\n');
                md.push('\n');
            }
            extend_all(&mut md, &text);
            assert(md@ =~= (if a.title@.len() > 0 { seq!['#', ' '] + a.title@ + seq!['\n', '\n'] } else { seq![] }) + a.text@);
            let meta = ArticleMeta {
                title: if title.len() > 0 { Some(a.title.clone()) } else { None },
                byline: a.byline.clone(),
                excerpt: a.excerpt.clone(),
                published_time: a.published_time.clone(),
                image: a.image.clone(),
                url: a.url.clone(),
                site_name: a.site_name.clone(),
            };
            (clean_markdown(from_chars(&md).as_str()), Some(meta))
        },
        None => (raw_fallback(html), None),
    }
}

/// Readability extraction of a page: the article as markdown with its
/// metadata, or the whole page converted when extraction finds nothing.
pub fn extract_readable(html: &str, url: &str) -> (r: (String, Option<ArticleMeta>))
    ensures
        !article_usable(spec_readability(html@, url@)) ==> r.0@ == spec_raw_fallback(html@) && r.1 is None,
        match spec_readability(html@, url@) {
            Some(a) => article_usable(Some(a)) ==> {
                &&& r.0@ == article_markdown(a)
                &&& match r.1 {
                    Some(m) => {
                        &&& opt_str_view(m.title) == (if a.title.len() > 0 { Some(a.title) } else { None })
                        &&& opt_str_view(m.byline) == a.byline
                        &&& opt_str_view(m.excerpt) == a.excerpt
                        &&& opt_str_view(m.published_time) == a.published_time
                        &&& opt_str_view(m.image) == a.image
                        &&& opt_str_view(m.url) == a.url
                        &&& opt_str_view(m.site_name) == a.site_name
                    },
                    None => false,
                }
            },
            None => true,
        },
{
    let article = readability(html, url);
    readable_markdown(article, html)
}

// ---------------------------------------------------------------------------
// What a response holds
// ---------------------------------------------------------------------------

/// How a fetched response is treated.
#[derive(Debug, Clone, Copy, PartialEq, Eq, Structural)]
pub enum BodyKind {
    /// Markdown to use as it is.
    Markdown,
    /// HTML to extract markdown from.
    Html,
    /// No content type: the body decides.
    Sniff,
    /// Anything else is refused.
    Unsupported,
}

/// The treatment of a response by its (lowercased) content type: markdown
/// as it is; plain text for a `.md` URL (how GitHub serves raw files) as
/// markdown; HTML or XHTML as HTML; no type at all sniffed.
pub open spec fn spec_body_kind(content_type: Seq<char>, url_is_markdown: bool) -> BodyKind {
    if crate::strs::contains_seq(content_type, "text/markdown"@) {
        BodyKind::Markdown
    } else if crate::strs::contains_seq(content_type, "text/plain"@) && url_is_markdown {
        BodyKind::Markdown
    } else if content_type.len() == 0 {
        BodyKind::Sniff
    } else if crate::strs::contains_seq(content_type, "text/html"@) || crate::strs::contains_seq(
        content_type,
        "application/xhtml"@,
    ) {
        BodyKind::Html
    } else {
        BodyKind::Unsupported
    }
}

/// How to treat a response with this content type fetched from `url`.
pub fn body_kind(content_type: &str, url: &str) -> (k: BodyKind)
    ensures
        k == spec_body_kind(content_type@, spec_url_path_is_markdown(url@)),
{
    let ct = to_chars(content_type);
    let md = url_path_is_markdown(url);
    if crate::search::contains_chars(&ct, &to_chars("text/markdown")) {
        BodyKind::Markdown
    } else if crate::search::contains_chars(&ct, &to_chars("text/plain")) && md {
        BodyKind::Markdown
    } else if ct.len() == 0 {
        BodyKind::Sniff
    } else if crate::search::contains_chars(&ct, &to_chars("text/html")) || crate::search::contains_chars(
        &ct,
        &to_chars("application/xhtml"),
    ) {
        BodyKind::Html
    } else {
        BodyKind::Unsupported
    }
}

/// A body without a content type is HTML when, after leading whitespace and
/// in lowercase, it opens with a doctype or an `<html` tag.
pub open spec fn spec_sniffs_html(body: Seq<char>) -> bool {
    starts_with(lower_seq(trim_start(body)), "<!doctype"@) || starts_with(lower_seq(trim_start(body)), "<html"@)
}

/// Whether an untyped body is an HTML page.
pub fn sniffs_html(body: &str) -> (b: bool)
    ensures
        b == spec_sniffs_html(body@),
{
    let cs = to_chars(body);
    let start = skip_ws(&cs, 0, cs.len());
    proof {
        assert(cs@.subrange(0, cs@.len() as int) =~= cs@);
    }
    let rest = slice_of(&cs, start, cs.len());
    proof {
        crate::strs::lemma_lead_ws(cs@);
        assert(rest@ =~= trim_start(cs@));
    }
    let low = lower_chars(&rest);
    starts_with_at(&low, &to_chars("<!doctype")) || starts_with_at(&low, &to_chars("<html"))
}

/// A response that says it is markdown is used as markdown, whatever the
/// URL.
pub proof fn lemma_markdown_type_wins(content_type: Seq<char>, url_is_markdown: bool)
    requires
        crate::strs::contains_seq(content_type, "text/markdown"@),
    ensures
        spec_body_kind(content_type, url_is_markdown) == BodyKind::Markdown,
{
}

// ---------------------------------------------------------------------------
// What `mdx fetch` writes
// ---------------------------------------------------------------------------

/// The front matter for a page's metadata (all fields absent when there is
/// none).
pub open spec fn meta_front_matter(meta: Option<ArticleMeta>, url: Seq<char>, tokens: Option<u64>) -> Seq<char> {
    match meta {
        Some(m) => spec_format_front_matter(
            opt_str_view(m.title),
            opt_str_view(m.byline),
            opt_str_view(m.published_time),
            url,
            opt_str_view(m.excerpt),
            opt_str_view(m.image),
            opt_str_view(m.url),
            opt_str_view(m.site_name),
            tokens,
        ),
        None => spec_format_front_matter(None, None, None, url, None, None, None, None, tokens),
    }
}

/// The text `mdx fetch` writes: with `metadata`, the YAML front matter of
/// the page (its token estimate in it when `show_tokens`), then the
/// markdown.
pub fn fetch_output(
    markdown: &str,
    meta: &Option<ArticleMeta>,
    final_url: &str,
    metadata: bool,
    tokens: u64,
    show_tokens: bool,
) -> (r: String)
    ensures
        r@ == (if metadata {
            meta_front_matter(*meta, final_url@, if show_tokens { Some(tokens) } else { None })
        } else {
            seq![]
        }) + markdown@,
{
    let mut out: Vec<char> = Vec::new();
    if metadata {
        let token_arg = if show_tokens { Some(tokens) } else { None };
        let fm = match meta {
            Some(m) => format_front_matter(m, final_url, token_arg),
            None => format_front_matter(&ArticleMeta::default(), final_url, token_arg),
        };
        out = to_chars(fm.as_str());
    }
    let md = to_chars(markdown);
    extend_all(&mut out, &md);
    from_chars(&out)
}

/// The token count of a page the server sent as markdown: the server's own
/// count when it gave one, else the estimate for the body.
pub fn markdown_tokens(server_tokens: Option<u64>, body: &str) -> (r: u64)
    ensures
        r as int == match server_tokens {
            Some(t) => t as int,
            None => crate::spec_estimate_tokens(body@.len()) as int,
        },
{
    match server_tokens {
        Some(t) => t,
        None => crate::estimate_tokens(body),
    }
}

} // verus!

