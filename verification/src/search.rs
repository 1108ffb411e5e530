//! Full-text search over markdown files: tokens, term counts, result
//! snippets and term highlighting. Ranking (BM25, in floating point) is
//! done by the caller from the counts computed here.

use crate::strs::{
    extend_all, find, find_from, find_seq_from, from_chars, lemma_first_match_none, lemma_no_first_match,
    contains_seq, lines, line_ranges, matches_at, rfind_char, rfind_char_in, seq_eq, slice_of, starts_with,
    starts_with_at, to_chars, trim, trimmed,
};
use crate::ast::{
    comrak_parse, inline_text, node_children, node_heading_level, node_line, node_literal, node_tag, spec_inline_text,
    spec_parse, spec_tree, CodeStyle, MdTree, NodeTag,
};
use crate::dump::join_with;
use crate::options::{MarkdownOptions, MarkdownOptionsView};
use comrak::nodes::AstNode;
use vstd::prelude::*;

verus! {

// ---------------------------------------------------------------------------
// Character classes and case (std, Unicode tables)
// ---------------------------------------------------------------------------

/// What `char::is_alphanumeric` says of a character.
pub uninterp spec fn spec_is_alphanumeric(c: char) -> bool;

/// The characters `char::to_lowercase` yields for a character.
pub uninterp spec fn spec_char_lowercase(c: char) -> Seq<char>;

/// What `str::to_lowercase` returns.
pub uninterp spec fn spec_str_lowercase(s: Seq<char>) -> Seq<char>;

/// Calls `char::is_alphanumeric` (Unicode alphabetic or numeric); the
/// contract names its result.
#[verifier::external_body]
fn is_alphanumeric(c: char) -> (b: bool)
    ensures
        b == spec_is_alphanumeric(c),
{
    c.is_alphanumeric()
}

/// Calls `char::to_lowercase` and collects what it yields; the contract
/// names the result.
#[verifier::external_body]
fn char_lowercase(c: char) -> (r: Vec<char>)
    ensures
        r@ == spec_char_lowercase(c),
{
    c.to_lowercase().collect()
}

/// Calls `str::to_lowercase`; the contract names the result.
#[verifier::external_body]
fn str_lowercase(s: &str) -> (r: String)
    ensures
        r@ == spec_str_lowercase(s@),
{
    s.to_lowercase()
}

/// Whether `p` occurs anywhere in `s`.
pub fn contains_chars(s: &[char], p: &[char]) -> (b: bool)
    ensures
        b == contains_seq(s@, p@),
{
    match find_seq_from(s, p, 0) {
        Some(i) => {
            assert(matches_at(s@, p@, i as int));
            true
        },
        None => {
            proof {
                assert forall|j: int| !matches_at(s@, p@, j) by {
                    if 0 <= j {
                        lemma_no_first_match(s@, p@, 0, j);
                    }
                }
            }
            false
        },
    }
}

// ---------------------------------------------------------------------------
// Tokens
// ---------------------------------------------------------------------------

/// The tokens finished so far and the one being read.
pub open spec fn token_scan(s: Seq<char>) -> (Seq<Seq<char>>, Seq<char>)
    decreases s.len(),
{
    if s.len() == 0 {
        (seq![], seq![])
    } else {
        let (done, cur) = token_scan(s.drop_last());
        let c = s.last();
        if spec_is_alphanumeric(c) {
            (done, cur + spec_char_lowercase(c))
        } else if cur.len() > 0 {
            (done.push(cur), seq![])
        } else {
            (done, cur)
        }
    }
}

/// The search tokens of a text: its runs of alphanumeric characters,
/// lowercased.
pub open spec fn spec_tokenize(s: Seq<char>) -> Seq<Seq<char>> {
    let (done, cur) = token_scan(s);
    if cur.len() > 0 {
        done.push(cur)
    } else {
        done
    }
}

/// Two texts that agree position by position in which characters are
/// letters or digits and in each character's lowercase form: texts that
/// differ only in letter case.
pub open spec fn same_but_case(a: Seq<char>, b: Seq<char>) -> bool {
    &&& a.len() == b.len()
    &&& forall|i: int|
        0 <= i < a.len() ==> spec_is_alphanumeric(#[trigger] a[i]) == spec_is_alphanumeric(b[i])
            && spec_char_lowercase(a[i]) == spec_char_lowercase(b[i])
}

proof fn lemma_token_scan_ignores_case(a: Seq<char>, b: Seq<char>)
    requires
        same_but_case(a, b),
    ensures
        token_scan(a) == token_scan(b),
    decreases a.len(),
{
    if a.len() > 0 {
        assert(same_but_case(a.drop_last(), b.drop_last())) by {
            assert forall|i: int| 0 <= i < a.drop_last().len() implies spec_is_alphanumeric(
                #[trigger] a.drop_last()[i],
            ) == spec_is_alphanumeric(b.drop_last()[i]) && spec_char_lowercase(a.drop_last()[i])
                == spec_char_lowercase(b.drop_last()[i]) by {
                assert(a.drop_last()[i] == a[i]);
                assert(b.drop_last()[i] == b[i]);
            }
        }
        lemma_token_scan_ignores_case(a.drop_last(), b.drop_last());
        let n = a.len() - 1;
        assert(spec_is_alphanumeric(a[n]) == spec_is_alphanumeric(b[n]));
    }
}

proof fn lemma_token_scan_from_fresh(x: Seq<char>, b: Seq<char>)
    requires
        token_scan(x).1.len() == 0,
    ensures
        token_scan(x + b) == (token_scan(x).0 + token_scan(b).0, token_scan(b).1),
    decreases b.len(),
{
    if b.len() == 0 {
        assert(x + b =~= x);
        assert(token_scan(x).0 + Seq::<Seq<char>>::empty() =~= token_scan(x).0);
    } else {
        lemma_token_scan_from_fresh(x, b.drop_last());
        assert((x + b).drop_last() =~= x + b.drop_last());
        assert((x + b).last() == b.last());
        let d = token_scan(b.drop_last()).0;
        let cur = token_scan(b.drop_last()).1;
        assert((token_scan(x).0 + d).push(cur) =~= token_scan(x).0 + d.push(cur));
    }
}

/// A character that is not a letter or digit ends tokens: the tokens of
/// two texts joined by it are those of the first, then those of the second.
pub proof fn lemma_tokenize_split(a: Seq<char>, c: char, b: Seq<char>)
    requires
        !spec_is_alphanumeric(c),
    ensures
        spec_tokenize(a + seq![c] + b) == spec_tokenize(a) + spec_tokenize(b),
{
    let x = a.push(c);
    assert(x.drop_last() =~= a);
    assert(token_scan(x) == (spec_tokenize(a), Seq::<char>::empty()));
    assert(a + seq![c] + b =~= x + b);
    lemma_token_scan_from_fresh(x, b);
    let (db, cb) = token_scan(b);
    assert((spec_tokenize(a) + db).push(cb) =~= spec_tokenize(a) + db.push(cb));
}

/// A run of letters and digits is one token: the lowercase forms of its
/// characters, one after another.
pub proof fn lemma_tokenize_run(s: Seq<char>)
    requires
        s.len() > 0,
        forall|i: int| 0 <= i < s.len() ==> spec_is_alphanumeric(#[trigger] s[i]),
        forall|i: int| 0 <= i < s.len() ==> spec_char_lowercase(#[trigger] s[i]).len() > 0,
    ensures
        spec_tokenize(s) == seq![lowered(s)],
{
    lemma_token_scan_run(s);
}

/// The lowercase forms of the characters of `s`, one after another.
pub open spec fn lowered(s: Seq<char>) -> Seq<char>
    decreases s.len(),
{
    if s.len() == 0 { seq![] } else { lowered(s.drop_last()) + spec_char_lowercase(s.last()) }
}

proof fn lemma_token_scan_run(s: Seq<char>)
    requires
        forall|i: int| 0 <= i < s.len() ==> spec_is_alphanumeric(#[trigger] s[i]),
        forall|i: int| 0 <= i < s.len() ==> spec_char_lowercase(#[trigger] s[i]).len() > 0,
    ensures
        token_scan(s) == (Seq::<Seq<char>>::empty(), lowered(s)),
        s.len() > 0 ==> lowered(s).len() > 0,
    decreases s.len(),
{
    if s.len() > 0 {
        let p = s.drop_last();
        assert forall|i: int| 0 <= i < p.len() implies spec_is_alphanumeric(#[trigger] p[i]) by {
            assert(p[i] == s[i]);
        }
        assert forall|i: int| 0 <= i < p.len() implies spec_char_lowercase(#[trigger] p[i]).len() > 0 by {
            assert(p[i] == s[i]);
        }
        lemma_token_scan_run(p);
        assert(spec_is_alphanumeric(s[s.len() - 1]));
        assert(spec_char_lowercase(s[s.len() - 1]).len() > 0);
    }
}

/// Search ignores letter case: texts that differ only in case give the
/// same tokens, so a query and a document match whatever case either is
/// written in.
pub proof fn lemma_tokenize_ignores_case(a: Seq<char>, b: Seq<char>)
    requires
        same_but_case(a, b),
    ensures
        spec_tokenize(a) == spec_tokenize(b),
{
    lemma_token_scan_ignores_case(a, b);
}

/// The text of each string.
pub open spec fn strings_view(v: Seq<String>) -> Seq<Seq<char>> {
    Seq::new(v.len(), |i: int| v[i]@)
}

fn push_string(v: &mut Vec<String>, s: &[char])
    ensures
        strings_view(final(v)@) == strings_view(old(v)@).push(s@),
{
    v.push(from_chars(s));
    assert(strings_view(v@) =~= strings_view(old(v)@).push(s@));
}

/// Split a text into lowercased alphanumeric tokens.
pub fn tokenize(text: &str) -> (r: Vec<String>)
    ensures
        strings_view(r@) == spec_tokenize(text@),
{
    let cs = to_chars(text);
    let mut tokens: Vec<String> = Vec::new();
    let mut current: Vec<char> = Vec::new();
    let mut i: usize = 0;
    assert(strings_view(tokens@) =~= seq![]);
    while i < cs.len()
        invariant
            i <= cs@.len(),
            cs@ == text@,
            (strings_view(tokens@), current@) == token_scan(cs@.take(i as int)),
        decreases cs.len() - i,
    {
        assert(cs@.take(i + 1).drop_last() =~= cs@.take(i as int));
        let c = cs[i];
        if is_alphanumeric(c) {
            let low = char_lowercase(c);
            extend_all(&mut current, &low);
        } else if current.len() > 0 {
            push_string(&mut tokens, &current);
            current = Vec::new();
        }
        i = i + 1;
    }
    assert(cs@.take(i as int) =~= cs@);
    if current.len() > 0 {
        push_string(&mut tokens, &current);
    }
    tokens
}

/// The tokens with repeats dropped, first occurrences kept in order.
pub open spec fn spec_dedup(ts: Seq<Seq<char>>) -> Seq<Seq<char>>
    decreases ts.len(),
{
    if ts.len() == 0 {
        seq![]
    } else {
        let d = spec_dedup(ts.drop_last());
        if d.contains(ts.last()) {
            d
        } else {
            d.push(ts.last())
        }
    }
}

fn has_string(v: &Vec<String>, s: &[char]) -> (b: bool)
    ensures
        b == strings_view(v@).contains(s@),
{
    let mut i: usize = 0;
    while i < v.len()
        invariant
            i <= v@.len(),
            forall|k: int| 0 <= k < i ==> v@[k]@ != s@,
        decreases v.len() - i,
    {
        if seq_eq(&to_chars(v[i].as_str()), s) {
            assert(strings_view(v@)[i as int] == s@);
            return true;
        }
        i = i + 1;
    }
    proof {
        if strings_view(v@).contains(s@) {
            let k = choose|k: int| 0 <= k < strings_view(v@).len() && strings_view(v@)[k] == s@;
            assert(v@[k]@ == s@);
        }
    }
    false
}

/// Drop repeated tokens, keeping the first of each in order.
pub fn dedup_tokens(tokens: Vec<String>) -> (r: Vec<String>)
    ensures
        strings_view(r@) == spec_dedup(strings_view(tokens@)),
{
    let ghost tv = strings_view(tokens@);
    let mut out: Vec<String> = Vec::new();
    let mut i: usize = 0;
    assert(strings_view(out@) =~= seq![]);
    while i < tokens.len()
        invariant
            i <= tokens@.len(),
            tv == strings_view(tokens@),
            strings_view(out@) == spec_dedup(tv.take(i as int)),
        decreases tokens.len() - i,
    {
        assert(tv.take(i + 1).drop_last() =~= tv.take(i as int));
        let t = to_chars(tokens[i].as_str());
        if !has_string(&out, &t) {
            push_string(&mut out, &t);
        }
        i = i + 1;
    }
    assert(tv.take(i as int) =~= tv);
    out
}

// ---------------------------------------------------------------------------
// Term counts
// ---------------------------------------------------------------------------

/// How often `t` occurs in `ts`.
pub open spec fn occurrences(ts: Seq<Seq<char>>, t: Seq<char>) -> nat
    decreases ts.len(),
{
    if ts.len() == 0 {
        0
    } else {
        occurrences(ts.drop_last(), t) + (if ts.last() == t { 1nat } else { 0nat })
    }
}

/// The counts of one field of a document: each distinct term with its
/// number of occurrences (in order of first occurrence), and the number of
/// tokens.
#[derive(Debug, Clone)]
pub struct FieldStats {
    pub term_freqs: Vec<(String, u32)>,
    pub total_tokens: u32,
}

/// Each term and its count.
pub open spec fn freqs_view(v: Seq<(String, u32)>) -> Seq<(Seq<char>, u32)> {
    Seq::new(v.len(), |i: int| (v[i].0@, v[i].1))
}

proof fn lemma_occurrences_bound(ts: Seq<Seq<char>>, t: Seq<char>)
    ensures
        occurrences(ts, t) <= ts.len(),
    decreases ts.len(),
{
    if ts.len() > 0 {
        lemma_occurrences_bound(ts.drop_last(), t);
    }
}

/// Every token of `ts` is kept by the dedup, and nothing else.
proof fn lemma_dedup_contains(ts: Seq<Seq<char>>, t: Seq<char>)
    ensures
        spec_dedup(ts).contains(t) <==> ts.contains(t),
    decreases ts.len(),
{
    if ts.len() > 0 {
        let pre = ts.drop_last();
        lemma_dedup_contains(pre, t);
        if ts.contains(t) && !pre.contains(t) {
            let j = choose|j: int| 0 <= j < ts.len() && ts[j] == t;
            if j < pre.len() {
                assert(pre[j] == t);
            }
        }
        if pre.contains(t) {
            let j = choose|j: int| 0 <= j < pre.len() && pre[j] == t;
            assert(ts[j] == t);
        }
        if spec_dedup(ts).contains(t) && !spec_dedup(pre).contains(t) {
            assert(ts[ts.len() - 1] == t);
        }
        if spec_dedup(pre).contains(t) {
            let j = choose|j: int| 0 <= j < spec_dedup(pre).len() && spec_dedup(pre)[j] == t;
            if !spec_dedup(pre).contains(ts.last()) {
                assert(spec_dedup(ts)[j] == t);
            }
        }
        if ts.last() == t && !spec_dedup(pre).contains(t) {
            assert(spec_dedup(ts)[spec_dedup(ts).len() - 1] == t);
        }
    }
}

/// A token missing from the dedup does not occur at all.
proof fn lemma_occurrences_absent(ts: Seq<Seq<char>>, t: Seq<char>)
    requires
        !spec_dedup(ts).contains(t),
    ensures
        occurrences(ts, t) == 0,
    decreases ts.len(),
{
    lemma_dedup_contains(ts, t);
    if ts.len() > 0 {
        let pre = ts.drop_last();
        lemma_dedup_contains(pre, t);
        if pre.contains(t) {
            let j = choose|j: int| 0 <= j < pre.len() && pre[j] == t;
            assert(ts[j] == t);
        }
        lemma_occurrences_absent(pre, t);
        assert(ts[ts.len() - 1] != t);
    }
}

/// The dedup holds no token twice.
pub proof fn lemma_dedup_distinct(ts: Seq<Seq<char>>)
    ensures
        forall|i: int, j: int| 0 <= i < j < spec_dedup(ts).len() ==> spec_dedup(ts)[i] != spec_dedup(ts)[j],
    decreases ts.len(),
{
    if ts.len() > 0 {
        let pre = ts.drop_last();
        lemma_dedup_distinct(pre);
        let d = spec_dedup(pre);
        if !d.contains(ts.last()) {
            assert forall|i: int, j: int| 0 <= i < j < spec_dedup(ts).len() implies spec_dedup(ts)[i] != spec_dedup(ts)[j] by {
                if j == d.len() {
                    if d[i] == ts.last() {
                        assert(d.contains(ts.last()));
                    }
                }
            }
        }
    }
}

fn find_term(freqs: &Vec<(String, u32)>, t: &[char]) -> (r: Option<usize>)
    ensures
        match r {
            Some(k) => k < freqs@.len() && freqs@[k as int].0@ == t@,
            None => forall|j: int| 0 <= j < freqs@.len() ==> freqs@[j].0@ != t@,
        },
{
    let mut k: usize = 0;
    while k < freqs.len()
        invariant
            k <= freqs@.len(),
            forall|j: int| 0 <= j < k ==> freqs@[j].0@ != t@,
        decreases freqs.len() - k,
    {
        if seq_eq(&to_chars(freqs[k].0.as_str()), t) {
            return Some(k);
        }
        k = k + 1;
    }
    None
}

/// The expected table after counting `ts`: each distinct term with its
/// count.
pub open spec fn term_table(ts: Seq<Seq<char>>) -> Seq<(Seq<char>, u32)> {
    Seq::new(spec_dedup(ts).len(), |k: int| (spec_dedup(ts)[k], occurrences(ts, spec_dedup(ts)[k]) as u32))
}

/// Count the tokens of a field's text (at most `u32::MAX` of them, the
/// width the index keeps its counts in).
pub fn build_field_stats(text: &str) -> (r: FieldStats)
    requires
        spec_tokenize(text@).len() <= u32::MAX,
    ensures
        r.total_tokens == spec_tokenize(text@).len(),
        freqs_view(r.term_freqs@) == term_table(spec_tokenize(text@)),
{
    let tokens = tokenize(text);
    let ghost tv = strings_view(tokens@);
    let mut freqs: Vec<(String, u32)> = Vec::new();
    let mut i: usize = 0;
    assert(freqs_view(freqs@) =~= term_table(tv.take(0)));
    while i < tokens.len()
        invariant
            i <= tokens@.len(),
            tv == strings_view(tokens@),
            tv.len() <= u32::MAX,
            freqs_view(freqs@) == term_table(tv.take(i as int)),
        decreases tokens.len() - i,
    {
        let ghost pre = tv.take(i as int);
        let ghost now = tv.take(i + 1);
        let ghost t = tv[i as int];
        assert(now.drop_last() =~= pre);
        assert(now.last() == t);
        proof {
            lemma_occurrences_bound(now, t);
        }
        let tc = to_chars(tokens[i].as_str());
        assert(tc@ == t);
        proof {
            lemma_dedup_distinct(pre);
        }
        match find_term(&freqs, &tc) {
            Some(k) => {
                assert(freqs_view(freqs@)[k as int].0 == t);
                assert(freqs_view(freqs@).len() == spec_dedup(pre).len());
                assert(term_table(pre)[k as int].0 == spec_dedup(pre)[k as int]);
                assert(spec_dedup(pre)[k as int] == t);
                assert(spec_dedup(pre).contains(t));
                assert(spec_dedup(now) == spec_dedup(pre));
                let c = freqs[k].1;
                assert(c == occurrences(pre, t) as u32);
                assert(occurrences(pre, t) < occurrences(now, t) <= now.len());
                let name = freqs[k].0.clone();
                freqs.set(k, (name, c + 1));
                proof {
                    assert forall|j: int| 0 <= j < spec_dedup(pre).len() && j != k implies spec_dedup(pre)[j] != t by {
                        if j < k {
                            assert(spec_dedup(pre)[j] != spec_dedup(pre)[k as int]);
                        } else {
                            assert(spec_dedup(pre)[k as int] != spec_dedup(pre)[j]);
                        }
                    }
                    assert forall|j: int| 0 <= j < term_table(now).len() implies #[trigger] freqs_view(freqs@)[j] == term_table(now)[j] by {
                        let x = spec_dedup(pre)[j];
                        assert(occurrences(now, x) == occurrences(pre, x) + (if x == t { 1nat } else { 0nat }));
                        lemma_occurrences_bound(pre, x);
                        if j != k {
                            assert(freqs_view(freqs@)[j] == term_table(pre)[j]);
                        }
                    }
                    assert(freqs_view(freqs@) =~= term_table(now));
                }
            },
            None => {
                proof {
                    assert(!spec_dedup(pre).contains(t)) by {
                        if spec_dedup(pre).contains(t) {
                            let j = choose|j: int| 0 <= j < spec_dedup(pre).len() && spec_dedup(pre)[j] == t;
                            assert(term_table(pre)[j].0 == spec_dedup(pre)[j]);
                            assert(freqs_view(freqs@).len() == spec_dedup(pre).len());
                            assert(freqs_view(freqs@)[j].0 == freqs@[j].0@);
                            assert(freqs@[j].0@ != t);
                        }
                    }
                    assert(spec_dedup(now) == spec_dedup(pre).push(t));
                    lemma_occurrences_absent(pre, t);
                }
                let ghost before = freqs_view(freqs@);
                freqs.push((from_chars(&tc), 1));
                proof {
                    assert forall|j: int| 0 <= j < term_table(now).len() implies #[trigger] freqs_view(freqs@)[j] == term_table(now)[j] by {
                        let x = spec_dedup(now)[j];
                        assert(occurrences(now, x) == occurrences(pre, x) + (if x == t { 1nat } else { 0nat }));
                        lemma_occurrences_bound(pre, x);
                        if j < before.len() {
                            assert(freqs_view(freqs@)[j] == before[j]);
                            assert(before[j] == term_table(pre)[j]);
                            assert(x != t);
                        }
                    }
                    assert(freqs_view(freqs@) =~= term_table(now));
                }
            },
        }
        i = i + 1;
    }
    assert(tv.take(i as int) =~= tv);
    FieldStats { term_freqs: freqs, total_tokens: tokens.len() as u32 }
}

// ---------------------------------------------------------------------------
// Documents
// ---------------------------------------------------------------------------

/// The lighter option set search parses with: front matter, tables and
/// strikethrough only.
pub open spec fn spec_search_options() -> MarkdownOptionsView {
    MarkdownOptionsView {
        strikethrough: true,
        table: true,
        autolink: false,
        tasklist: false,
        footnotes: false,
        alerts: false,
        front_matter_delimiter: Some(seq!['-', '-', '-']),
        math_dollars: false,
        math_code: false,
        leave_footnote_definitions: false,
        unsafe_html: false,
        width: 0,
    }
}

/// The options search parses with.
pub fn search_options() -> (o: MarkdownOptions)
    ensures
        o@ == spec_search_options(),
{
    let delim = from_chars(&to_chars("---"));
    proof {
        reveal_strlit("---");
        assert(delim@ =~= seq!['-', '-', '-']);
    }
    MarkdownOptions {
        strikethrough: true,
        table: true,
        autolink: false,
        tasklist: false,
        footnotes: false,
        alerts: false,
        front_matter_delimiter: Some(delim),
        math_dollars: false,
        math_code: false,
        leave_footnote_definitions: false,
        unsafe_html: false,
        width: 0,
    }
}

/// Parse a document for indexing.
pub fn parse_markdown_for_search<'a>(arena: &'a typed_arena::Arena<AstNode<'a>>, input: &str) -> (root: &'a AstNode<'a>)
    ensures
        spec_tree(root) == spec_parse(input@, spec_search_options()),
{
    let options = search_options();
    comrak_parse(arena, input, &options)
}

/// The searchable text of a document: its headings (level, text, line),
/// its prose and inline code, and its code blocks.
#[derive(Debug, Clone)]
pub struct DocText {
    pub headings: Vec<(u8, String, usize)>,
    pub body_text: String,
    pub code_text: String,
}

/// Headings, prose and code gathered so far.
pub type TextScan = (Seq<(u8, Seq<char>, usize)>, Seq<char>, Seq<char>);

/// What one node adds: a heading with text, a text or code span (and a
/// space) to the prose, a code block (and a space) to the code.
pub open spec fn text_visit(st: TextScan, t: MdTree) -> TextScan {
    let (hs, body, code) = st;
    match t.tag {
        NodeTag::Heading => if spec_inline_text(t, CodeStyle::Fenced).len() > 0 {
            (hs.push((t.level, spec_inline_text(t, CodeStyle::Fenced), t.line)), body, code)
        } else {
            st
        },
        NodeTag::Text | NodeTag::Code => (hs, body + t.literal + seq![' '], code),
        NodeTag::CodeBlock => (hs, body, code + t.literal + seq![' ']),
        _ => st,
    }
}

/// The scan over a subtree in document order.
pub open spec fn text_walk(st: TextScan, t: MdTree) -> TextScan
    decreases t, 1nat,
{
    text_walk_all(text_visit(st, t), t.children)
}

/// The scan over a sequence of subtrees.
pub open spec fn text_walk_all(st: TextScan, ts: Seq<MdTree>) -> TextScan
    decreases ts, 0nat,
{
    if ts.len() == 0 {
        st
    } else {
        text_walk(text_walk_all(st, ts.drop_last()), ts.last())
    }
}

/// Level, text and line of each heading.
pub open spec fn doc_headings_view(v: Seq<(u8, String, usize)>) -> Seq<(u8, Seq<char>, usize)> {
    Seq::new(v.len(), |i: int| (v[i].0, v[i].1@, v[i].2))
}

fn text_node<'a>(n: &'a AstNode<'a>, hs: &mut Vec<(u8, String, usize)>, body: &mut Vec<char>, code: &mut Vec<char>)
    ensures
        (doc_headings_view(final(hs)@), final(body)@, final(code)@) == text_walk(
            (doc_headings_view(old(hs)@), old(body)@, old(code)@),
            spec_tree(n),
        ),
    decreases spec_tree(n),
{
    let ghost t = spec_tree(n);
    let tag = node_tag(n);
    match tag {
        NodeTag::Heading => {
            let text = inline_text(n, CodeStyle::Fenced);
            if to_chars(text.as_str()).len() > 0 {
                let ghost text_v = text@;
                hs.push((node_heading_level(n), text, node_line(n)));
                assert(doc_headings_view(hs@) =~= doc_headings_view(old(hs)@).push((t.level, text_v, t.line)));
            }
        },
        NodeTag::Text | NodeTag::Code => {
            extend_all(body, &to_chars(node_literal(n).as_str()));
            body.push(' ');
        },
        NodeTag::CodeBlock => {
            extend_all(code, &to_chars(node_literal(n).as_str()));
            code.push(' ');
        },
        _ => {},
    }
    let ghost st1 = (doc_headings_view(hs@), body@, code@);
    assert(st1 == text_visit((doc_headings_view(old(hs)@), old(body)@, old(code)@), t));
    let kids = node_children(n);
    let mut i: usize = 0;
    while i < kids.len()
        invariant
            i <= kids@.len(),
            kids@.len() == t.children.len(),
            t == spec_tree(n),
            forall|k: int| 0 <= k < kids@.len() ==> spec_tree(#[trigger] kids@[k]) == t.children[k],
            (doc_headings_view(hs@), body@, code@) == text_walk_all(st1, t.children.take(i as int)),
        decreases kids.len() - i,
    {
        proof {
            assert(decreases_to!(t => t.children));
            assert(decreases_to!(t.children => t.children[i as int]));
            assert(t.children.take(i + 1).drop_last() =~= t.children.take(i as int));
        }
        text_node(kids[i], hs, body, code);
        i = i + 1;
    }
    assert(t.children.take(i as int) =~= t.children);
}

/// The prose starts with the title (and a space) when there is one.
pub open spec fn initial_body(title: Option<Seq<char>>) -> Seq<char> {
    match title {
        Some(t) => t + seq![' '],
        None => seq![],
    }
}

/// Gather the searchable text of a parsed document whose front matter
/// gave `title`.
pub fn document_text<'a>(root: &'a AstNode<'a>, title: &Option<String>) -> (d: DocText)
    ensures
        (doc_headings_view(d.headings@), d.body_text@, d.code_text@) == text_walk(
            (seq![], initial_body(match title { Some(t) => Some(t@), None => None }), seq![]),
            spec_tree(root),
        ),
{
    let mut hs: Vec<(u8, String, usize)> = Vec::new();
    let mut body: Vec<char> = Vec::new();
    let mut code: Vec<char> = Vec::new();
    match title {
        Some(t) => {
            extend_all(&mut body, &to_chars(t.as_str()));
            body.push(' ');
        },
        None => {},
    }
    assert(doc_headings_view(hs@) =~= seq![]);
    assert(body@ =~= initial_body(match title { Some(t) => Some(t@), None => None }));
    text_node(root, &mut hs, &mut body, &mut code);
    DocText { headings: hs, body_text: from_chars(&body), code_text: from_chars(&code) }
}

// ---------------------------------------------------------------------------
// Snippets
// ---------------------------------------------------------------------------

/// `...`.
pub open spec fn ellipsis() -> Seq<char> {
    seq!['.', '.', '.']
}

/// At most `max_chars` characters: longer text is cut there, back to its
/// last space if it has one, and ends with `...`.
pub open spec fn spec_truncate_chars(s: Seq<char>, max_chars: nat) -> Seq<char> {
    if s.len() <= max_chars {
        s
    } else {
        let t = s.take(max_chars as int);
        match rfind_char(t, ' ') {
            Some(p) => t.take(p) + ellipsis(),
            None => t + ellipsis(),
        }
    }
}

/// Cut a string to `max_chars` characters at a word boundary.
pub fn truncate_chars(s: &str, max_chars: usize) -> (r: String)
    ensures
        r@ == spec_truncate_chars(s@, max_chars as nat),
{
    let cs = to_chars(s);
    if cs.len() <= max_chars {
        return from_chars(&cs);
    }
    let t = slice_of(&cs, 0, max_chars);
    assert(t@ =~= cs@.take(max_chars as int));
    let mut out = match rfind_char_in(&t, ' ') {
        Some(p) => slice_of(&t, 0, p),
        None => slice_of(&t, 0, t.len()),
    };
    out.push('.');
    out.push('.');
    out.push('.');
    proof {
        match rfind_char(t@, ' ') {
            Some(p) => assert(out@ =~= t@.take(p) + ellipsis()),
            None => assert(out@ =~= t@ + ellipsis()),
        }
    }
    from_chars(&out)
}

/// The number of front matter lines at the top of a file (the `---`
/// lines included), or zero when there is none.
pub open spec fn spec_content_start(content: Seq<char>) -> nat {
    if !starts_with(content, seq!['-', '-', '-']) {
        0
    } else {
        match find(content.skip(3), seq!['\n', '-', '-', '-']) {
            Some(e) => lines(content.take(3 + e + 4)).len(),
            None => 0,
        }
    }
}

/// The first line after the front matter.
pub fn find_content_start(content: &str) -> (n: usize)
    ensures
        n == spec_content_start(content@),
{
    let cs = to_chars(content);
    let dashes: Vec<char> = vec!['-', '-', '-'];
    if !starts_with_at(&cs, &dashes) {
        return 0;
    }
    let close: Vec<char> = vec!['\n', '-', '-', '-'];
    let r = find_seq_from(&cs, &close, 3);
    proof {
        crate::strs::lemma_find_suffix(cs@, close@, 3);
    }
    match r {
        Some(i) => {
            assert(close@.len() == 4);
            assert(i + 4 <= cs@.len());
            assert(cs@.len() == cs.len());
            let head = slice_of(&cs, 0, i + 4);
            assert(head@ =~= cs@.take(3 + (i - 3) + 4));
            line_ranges(&head).len()
        },
        None => 0,
    }
}

/// How many query tokens occur in the lowercased line.
pub open spec fn line_score(line: Seq<char>, qts: Seq<Seq<char>>) -> nat
    decreases qts.len(),
{
    if qts.len() == 0 {
        0
    } else {
        line_score(line, qts.drop_last()) + (if contains_seq(spec_str_lowercase(line), qts.last()) {
            1nat
        } else {
            0nat
        })
    }
}

/// The best line among the first `n` (from `start` on) and its score: the
/// first line with the highest score, `start` with score 0 when none
/// scores.
pub open spec fn best_line(ls: Seq<Seq<char>>, qts: Seq<Seq<char>>, start: nat, n: nat) -> (nat, nat)
    decreases n,
{
    if n == 0 {
        (start, 0)
    } else {
        let (bl, bs) = best_line(ls, qts, start, (n - 1) as nat);
        let i = (n - 1) as nat;
        if i < start {
            (bl, bs)
        } else if line_score(ls[i as int], qts) > bs {
            (i, line_score(ls[i as int], qts))
        } else {
            (bl, bs)
        }
    }
}

/// Lines `start..end`, trimmed and joined with spaces.
pub open spec fn joined_trimmed(ls: Seq<Seq<char>>, start: int, end: int) -> Seq<char> {
    join_with(Seq::new((end - start) as nat, |k: int| trim(ls[start + k])), seq![' '])
}

/// `#` repeated `level` times, a space and the text.
pub open spec fn heading_label(level: u8, text: Seq<char>) -> Seq<char> {
    Seq::new(level as nat, |_i: int| '#') + seq![' '] + text
}

/// The last heading that starts on or before line `line` (0-based).
pub open spec fn context_heading(hs: Seq<(u8, Seq<char>, usize)>, line: int) -> Option<Seq<char>>
    decreases hs.len(),
{
    if hs.len() == 0 {
        None
    } else if hs.last().2 <= line + 1 {
        Some(heading_label(hs.last().0, hs.last().1))
    } else {
        context_heading(hs.drop_last(), line)
    }
}

/// The snippet shown for a result: the best-matching line after the front
/// matter with a line of context either side, trimmed, joined and cut to
/// 200 characters, and the heading it falls under; `None` when no line
/// matches.
pub open spec fn spec_snippet(raw: Seq<char>, hs: Seq<(u8, Seq<char>, usize)>, qts: Seq<Seq<char>>) -> Option<
    (Seq<char>, Option<Seq<char>>),
> {
    let ls = lines(raw);
    let cs = spec_content_start(raw);
    let (bl, bs) = best_line(ls, qts, cs, ls.len());
    if ls.len() == 0 || bs == 0 {
        None
    } else {
        let start: int = if bl > cs { bl - 1 } else { cs as int };
        let end: int = if bl + 2 < ls.len() { (bl + 2) as int } else { ls.len() as int };
        Some((spec_truncate_chars(joined_trimmed(ls, start, end), 200), context_heading(hs, bl as int)))
    }
}

fn score_line(line: &[char], qts: &Vec<String>) -> (n: usize)
    ensures
        n == line_score(line@, strings_view(qts@)),
{
    let lower = to_chars(str_lowercase(from_chars(line).as_str()).as_str());
    let ghost qv = strings_view(qts@);
    let mut n: usize = 0;
    let mut k: usize = 0;
    while k < qts.len()
        invariant
            k <= qts@.len(),
            qv == strings_view(qts@),
            lower@ == spec_str_lowercase(line@),
            n == line_score(line@, qv.take(k as int)),
            n <= k,
        decreases qts.len() - k,
    {
        assert(qv.take(k + 1).drop_last() =~= qv.take(k as int));
        if contains_chars(&lower, &to_chars(qts[k].as_str())) {
            n = n + 1;
        }
        k = k + 1;
    }
    assert(qv.take(k as int) =~= qv);
    n
}

/// The snippet and context heading for a search result.
pub fn generate_snippet(raw_content: &str, headings: &Vec<(u8, String, usize)>, query_tokens: &Vec<String>) -> (r: Option<
    (String, Option<String>),
>)
    ensures
        match r {
            Some((snip, head)) => spec_snippet(raw_content@, doc_headings_view(headings@), strings_view(query_tokens@))
                == Some((snip@, match head { Some(h) => Some(h@), None => None::<Seq<char>> })),
            None => spec_snippet(raw_content@, doc_headings_view(headings@), strings_view(query_tokens@)) is None,
        },
{
    let cs = to_chars(raw_content);
    let ranges = line_ranges(&cs);
    let ghost ls = lines(raw_content@);
    let ghost qv = strings_view(query_tokens@);
    let content_start = find_content_start(raw_content);
    let n = ranges.len();
    let mut best: usize = content_start;
    let mut best_score: usize = 0;
    let mut i: usize = 0;
    while i < n
        invariant
            i <= n == ranges@.len() == ls.len(),
            cs@ == raw_content@,
            ls == lines(raw_content@),
            qv == strings_view(query_tokens@),
            content_start == spec_content_start(raw_content@),
            forall|j: int|
                0 <= j < ranges@.len() ==> {
                    &&& (#[trigger] ranges@[j]).0 <= ranges@[j].1 <= cs@.len()
                    &&& cs@.subrange(ranges@[j].0 as int, ranges@[j].1 as int) == ls[j]
                },
            (best as nat, best_score as nat) == best_line(ls, qv, content_start as nat, i as nat),
            best_score <= qv.len(),
            best == content_start || best < i,
            best_score > 0 ==> best < i,
            best >= content_start,
        decreases n - i,
    {
        if i >= content_start {
            let (lo, hi) = ranges[i];
            let line = slice_of(&cs, lo, hi);
            let score = score_line(&line, query_tokens);
            proof {
                lemma_line_score_bound(line@, qv);
            }
            if score > best_score {
                best_score = score;
                best = i;
            }
        }
        i = i + 1;
    }
    if n == 0 || best_score == 0 {
        return None;
    }
    assert(best < n);
    let start: usize = if best > content_start { best - 1 } else { content_start };
    let end: usize = if n - best > 2 { best + 2 } else { n };
    assert(start <= end);
    // the context lines, trimmed and joined
    let mut joined: Vec<char> = Vec::new();
    let ghost parts = Seq::new((end - start) as nat, |k: int| trim(ls[start + k]));
    let mut k: usize = start;
    while k < end
        invariant
            start <= k <= end <= n == ranges@.len() == ls.len(),
            cs@ == raw_content@,
            parts == Seq::new((end - start) as nat, |k: int| trim(ls[start + k])),
            forall|j: int|
                0 <= j < ranges@.len() ==> {
                    &&& (#[trigger] ranges@[j]).0 <= ranges@[j].1 <= cs@.len()
                    &&& cs@.subrange(ranges@[j].0 as int, ranges@[j].1 as int) == ls[j]
                },
            joined@ == join_with(parts.take(k - start), seq![' ']),
        decreases end - k,
    {
        let (lo, hi) = ranges[k];
        let line = slice_of(&cs, lo, hi);
        let t = trimmed(&line);
        proof {
            crate::dump::lemma_join_push(parts.take(k - start), seq![' '], parts[k - start]);
            assert(parts.take(k - start).push(parts[k - start]) =~= parts.take(k - start + 1));
        }
        if k > start {
            joined.push(' ');
        }
        extend_all(&mut joined, &t);
        k = k + 1;
    }
    assert(parts.take(end - start) =~= parts);
    assert(joined@ == joined_trimmed(ls, start as int, end as int));
    let snippet = truncate_chars(from_chars(&joined).as_str(), 200);
    let ghost snip_v = snippet@;
    assert(snip_v == spec_truncate_chars(joined_trimmed(ls, start as int, end as int), 200));
    assert(best_line(ls, qv, content_start as nat, n as nat) == (best as nat, best_score as nat));
    assert(spec_snippet(raw_content@, doc_headings_view(headings@), qv) == Some((snip_v, context_heading(doc_headings_view(headings@), best as int))));
    // the heading the best line falls under
    let ghost hv = doc_headings_view(headings@);
    assert(hv.take(headings@.len() as int) =~= hv);
    let mut h = headings.len();
    while h > 0
        invariant
            h <= headings@.len(),
            best < n,
            hv == doc_headings_view(headings@),
            context_heading(hv, best as int) == context_heading(hv.take(h as int), best as int),
            snippet@ == snip_v,
            spec_snippet(raw_content@, hv, strings_view(query_tokens@)) == Some((snip_v, context_heading(hv, best as int))),
        decreases h,
    {
        assert(hv.take(h as int).drop_last() =~= hv.take(h - 1));
        assert(hv.take(h as int).last() == hv[h - 1]);
        if headings[h - 1].2 <= best + 1 {
            let label = heading_label_of(headings[h - 1].0, headings[h - 1].1.as_str());
            let context = Some(from_chars(&label));
            assert(context_heading(hv, best as int) == Some(label@));
            return Some((snippet, context));
        }
        h = h - 1;
    }
    assert(hv.take(0) =~= Seq::<(u8, Seq<char>, usize)>::empty());
    Some((snippet, None))
}

fn heading_label_of(level: u8, text: &str) -> (r: Vec<char>)
    ensures
        r@ == heading_label(level, text@),
{
    let mut label: Vec<char> = Vec::new();
    let mut d: u8 = 0;
    while d < level
        invariant
            d <= level,
            label@ == Seq::new(d as nat, |_i: int| '#'),
        decreases level - d,
    {
        label.push('#');
        d = d + 1;
        assert(label@ =~= Seq::new(d as nat, |_i: int| '#'));
    }
    label.push(' ');
    extend_all(&mut label, &to_chars(text));
    assert(label@ =~= heading_label(level, text@));
    label
}

proof fn lemma_line_score_bound(line: Seq<char>, qts: Seq<Seq<char>>)
    ensures
        line_score(line, qts) <= qts.len(),
    decreases qts.len(),
{
    if qts.len() > 0 {
        lemma_line_score_bound(line, qts.drop_last());
    }
}

// ---------------------------------------------------------------------------
// Highlighting
// ---------------------------------------------------------------------------

/// The first query token (by position in `qts`) that the lowercased text
/// holds at index `i`.
pub open spec fn first_hit(lower: Seq<char>, qts: Seq<Seq<char>>, i: int, k: int) -> Option<int>
    decreases qts.len() - k,
{
    if k >= qts.len() || k < 0 {
        None
    } else if i + qts[k].len() <= lower.len() && lower.subrange(i, i + qts[k].len()) == qts[k] {
        Some(k)
    } else {
        first_hit(lower, qts, i, k + 1)
    }
}

/// The highlighted text from index `i` on: where a query token starts in
/// the lowercased text, the same number of original characters wrapped in
/// `on`/`off`; `None` where such a run would pass the end of the original
/// text.
pub open spec fn highlight_from(orig: Seq<char>, lower: Seq<char>, qts: Seq<Seq<char>>, on: Seq<char>, off: Seq<char>, i: int) -> Option<
    Seq<char>,
>
    decreases orig.len() - i,
{
    if i >= orig.len() || i < 0 {
        Some(seq![])
    } else {
        match first_hit(lower, qts, i, 0) {
            Some(k) => if 0 <= k < qts.len() && qts[k].len() > 0 && i + qts[k].len() <= orig.len() {
                match highlight_from(orig, lower, qts, on, off, i + qts[k].len()) {
                    Some(rest) => Some(on + orig.subrange(i, i + qts[k].len()) + off + rest),
                    None => None,
                }
            } else {
                None
            },
            None => match highlight_from(orig, lower, qts, on, off, i + 1) {
                Some(rest) => Some(seq![orig[i]] + rest),
                None => None,
            },
        }
    }
}

/// No query token is empty.
pub open spec fn tokens_nonempty(qts: Seq<Seq<char>>) -> bool {
    forall|k: int| 0 <= k < qts.len() ==> #[trigger] qts[k].len() > 0
}

/// What `highlight_terms` returns, when it can: the text as it is when
/// `on` is empty.
pub open spec fn spec_highlight(text: Seq<char>, qts: Seq<Seq<char>>, on: Seq<char>, off: Seq<char>) -> Option<Seq<char>> {
    if on.len() == 0 {
        Some(text)
    } else {
        highlight_from(text, spec_str_lowercase(text), qts, on, off, 0)
    }
}

fn hit_at(lower: &[char], qts: &Vec<Vec<char>>, i: usize) -> (r: Option<usize>)
    ensures
        match r {
            Some(k) => first_hit(lower@, qts_chars(qts@), i as int, 0) == Some(k as int) && k < qts@.len(),
            None => first_hit(lower@, qts_chars(qts@), i as int, 0) is None,
        },
{
    let ghost qv = qts_chars(qts@);
    let mut k: usize = 0;
    while k < qts.len()
        invariant
            k <= qts@.len(),
            qv == qts_chars(qts@),
            first_hit(lower@, qv, i as int, 0) == first_hit(lower@, qv, i as int, k as int),
        decreases qts.len() - k,
    {
        let q = &qts[k];
        assert(qv[k as int] == q@);
        if q.len() <= lower.len() && i <= lower.len() - q.len() && crate::strs::match_at(lower, q, i) {
            return Some(k);
        }
        k = k + 1;
    }
    None
}

/// The characters of each token.
pub open spec fn qts_chars(v: Seq<Vec<char>>) -> Seq<Seq<char>> {
    Seq::new(v.len(), |i: int| v[i]@)
}

/// Whether highlighting `text` stays within it (the lowercased text can be
/// longer than the text, and a token matched near its end would then run
/// past the original).
pub fn highlight_fits(text: &str, query_tokens: &Vec<String>, on: &str, off: &str) -> (b: bool)
    requires
        tokens_nonempty(strings_view(query_tokens@)),
    ensures
        b == spec_highlight(text@, strings_view(query_tokens@), on@, off@) is Some,
{
    if to_chars(on).len() == 0 {
        return true;
    }
    let r = highlight_walk(text, query_tokens, on, off);
    r.is_some()
}

fn highlight_walk(text: &str, query_tokens: &Vec<String>, on: &str, off: &str) -> (r: Option<String>)
    requires
        tokens_nonempty(strings_view(query_tokens@)),
    ensures
        match r {
            Some(s) => highlight_from(text@, spec_str_lowercase(text@), strings_view(query_tokens@), on@, off@, 0) == Some(s@),
            None => highlight_from(text@, spec_str_lowercase(text@), strings_view(query_tokens@), on@, off@, 0) is None,
        },
{
    let orig = to_chars(text);
    let lower = to_chars(str_lowercase(text).as_str());
    let onv = to_chars(on);
    let offv = to_chars(off);
    let ghost qv = strings_view(query_tokens@);
    let mut qts: Vec<Vec<char>> = Vec::new();
    let mut k: usize = 0;
    while k < query_tokens.len()
        invariant
            k <= query_tokens@.len(),
            qv == strings_view(query_tokens@),
            qts@.len() == k,
            forall|j: int| 0 <= j < k ==> #[trigger] qts@[j]@ == qv[j],
        decreases query_tokens.len() - k,
    {
        qts.push(to_chars(query_tokens[k].as_str()));
        k = k + 1;
    }
    assert(qts_chars(qts@) =~= qv);
    // Walk from the end: the pieces are built front to back, so compute the
    // positions first.
    let mut out: Vec<char> = Vec::new();
    let mut i: usize = 0;
    while i < orig.len()
        invariant
            i <= orig@.len(),
            orig@ == text@,
            lower@ == spec_str_lowercase(text@),
            qts_chars(qts@) == qv,
            qv == strings_view(query_tokens@),
            tokens_nonempty(qv),
            onv@ == on@,
            offv@ == off@,
            highlight_from(orig@, lower@, qv, on@, off@, 0) == match highlight_from(orig@, lower@, qv, on@, off@, i as int) {
                Some(rest) => Some(out@ + rest),
                None => None::<Seq<char>>,
            },
        decreases orig.len() - i,
    {
        match hit_at(&lower, &qts, i) {
            Some(k) => {
                let len = qts[k].len();
                assert(qv[k as int].len() == len);
                if len > orig.len() - i {
                    assert(qv[k as int].len() > 0);
                    assert(highlight_from(orig@, lower@, qv, on@, off@, i as int) is None);
                    return None;
                }
                let ghost before = out@;
                extend_all(&mut out, &onv);
                crate::strs::extend_range(&mut out, &orig, i, i + len);
                extend_all(&mut out, &offv);
                proof {
                    assert(qv[k as int].len() > 0);
                    match highlight_from(orig@, lower@, qv, on@, off@, (i + len) as int) {
                        Some(r2) => {
                            assert(before + (on@ + orig@.subrange(i as int, i + len) + off@ + r2) =~= out@ + r2);
                        },
                        None => {},
                    }
                }
                i = i + len;
            },
            None => {
                let ghost before = out@;
                out.push(orig[i]);
                proof {
                    match highlight_from(orig@, lower@, qv, on@, off@, i + 1) {
                        Some(r2) => {
                            assert(before + (seq![orig@[i as int]] + r2) =~= out@ + r2);
                        },
                        None => {},
                    }
                }
                i = i + 1;
            },
        }
    }
    assert(out@ + Seq::<char>::empty() =~= out@);
    Some(from_chars(&out))
}

/// Wrap every occurrence of a query token in `on`/`off` (matching against
/// the lowercased text); the text as it is when `on` is empty.
pub fn highlight_terms(text: &str, query_tokens: &Vec<String>, on: &str, off: &str) -> (r: String)
    requires
        tokens_nonempty(strings_view(query_tokens@)),
        spec_highlight(text@, strings_view(query_tokens@), on@, off@) is Some,
    ensures
        spec_highlight(text@, strings_view(query_tokens@), on@, off@) == Some(r@),
{
    if to_chars(on).len() == 0 {
        return text.to_string();
    }
    match highlight_walk(text, query_tokens, on, off) {
        Some(s) => s,
        None => String::new(),
    }
}

// ---------------------------------------------------------------------------
// Laws
// ---------------------------------------------------------------------------

/// Dropping repeated tokens keeps exactly the tokens there were.
pub proof fn lemma_dedup_same_tokens(ts: Seq<Seq<char>>, t: Seq<char>)
    ensures
        spec_dedup(ts).contains(t) <==> ts.contains(t),
{
    lemma_dedup_contains(ts, t);
}

/// A cut snippet is at most the limit and three dots long, and a short one
/// is unchanged.
pub proof fn lemma_truncate_chars_bound(s: Seq<char>, max_chars: nat)
    ensures
        spec_truncate_chars(s, max_chars).len() <= max_chars + 3,
        s.len() <= max_chars ==> spec_truncate_chars(s, max_chars) == s,
{
    if s.len() > max_chars {
        let t = s.take(max_chars as int);
        match rfind_char(t, ' ') {
            Some(p) => {
                assert(crate::strs::is_last_char(t, ' ', p));
            },
            None => {},
        }
    }
}

/// Every token is lowercase alphanumeric text: no token is empty.
pub proof fn lemma_tokens_nonempty(s: Seq<char>)
    ensures
        tokens_nonempty(spec_tokenize(s)),
{
    lemma_token_scan_nonempty(s);
}

proof fn lemma_token_scan_nonempty(s: Seq<char>)
    ensures
        tokens_nonempty(token_scan(s).0),
    decreases s.len(),
{
    if s.len() > 0 {
        lemma_token_scan_nonempty(s.drop_last());
        let (done, cur) = token_scan(s.drop_last());
        if !spec_is_alphanumeric(s.last()) && cur.len() > 0 {
            assert forall|k: int| 0 <= k < done.push(cur).len() implies #[trigger] done.push(cur)[k].len() > 0 by {
                if k < done.len() {
                    assert(done.push(cur)[k] == done[k]);
                }
            }
        }
    }
}

} // verus!
