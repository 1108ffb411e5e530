//! YAML-style front matter: the `---` delimited block at the top of a
//! document, read as simple `key: value` lines.

use crate::strs::{
    find, find_char, find_char_in, is_first_match, find_seq_from, from_chars, lines, line_ranges,
    lower_chars, lower_seq, seq_eq, slice_of, split_char, split_ranges, starts_with,
    starts_with_at, strip_char, strip_char_range, to_chars, trim, trim_range, lead_count, trail_count,
    lemma_strip_char_ends,
};
use vstd::prelude::*;

verus! {

/// The front-matter fields, as character sequences.
pub struct FrontMatterView {
    pub title: Option<Seq<char>>,
    pub date: Option<Seq<char>>,
    pub author: Option<Seq<char>>,
    pub lang: Option<Seq<char>>,
    pub excerpt: Option<Seq<char>>,
    pub image: Option<Seq<char>>,
    pub site_name: Option<Seq<char>>,
    pub url: Option<Seq<char>>,
    pub tags: Seq<Seq<char>>,
    pub draft: bool,
}

/// Front-matter fields read from a document.
pub struct FrontMatter {
    pub title: Option<String>,
    pub date: Option<String>,
    pub author: Option<String>,
    pub lang: Option<String>,
    pub excerpt: Option<String>,
    pub image: Option<String>,
    pub site_name: Option<String>,
    pub url: Option<String>,
    pub tags: Vec<String>,
    pub draft: bool,
}

/// The character sequences of a list of strings.
pub open spec fn strings_view(v: Seq<String>) -> Seq<Seq<char>> {
    v.map_values(|t: String| t@)
}

pub open spec fn opt_str_view(o: Option<String>) -> Option<Seq<char>> {
    match o {
        Some(s) => Some(s@),
        None => None,
    }
}

impl View for FrontMatter {
    type V = FrontMatterView;

    open spec fn view(&self) -> FrontMatterView {
        FrontMatterView {
            title: opt_str_view(self.title),
            date: opt_str_view(self.date),
            author: opt_str_view(self.author),
            lang: opt_str_view(self.lang),
            excerpt: opt_str_view(self.excerpt),
            image: opt_str_view(self.image),
            site_name: opt_str_view(self.site_name),
            url: opt_str_view(self.url),
            tags: strings_view(self.tags@),
            draft: self.draft,
        }
    }
}

/// No fields set.
pub open spec fn fm_empty() -> FrontMatterView {
    FrontMatterView {
        title: None,
        date: None,
        author: None,
        lang: None,
        excerpt: None,
        image: None,
        site_name: None,
        url: None,
        tags: seq![],
        draft: false,
    }
}

/// The non-empty trimmed pieces, in order.
pub open spec fn tag_list(pieces: Seq<Seq<char>>) -> Seq<Seq<char>>
    decreases pieces.len(),
{
    if pieces.len() == 0 {
        seq![]
    } else {
        let t = trim(pieces.last());
        tag_list(pieces.drop_last()) + if t.len() > 0 {
            seq![t]
        } else {
            seq![]
        }
    }
}

/// The key of a `key: value` line (trimmed, ASCII-lowercased).
pub open spec fn line_key(l: Seq<char>, i: int) -> Seq<char> {
    lower_seq(trim(l.take(i)))
}

/// The value of a `key: value` line: trimmed, then surrounding `"` and `'`
/// removed.
pub open spec fn line_value(l: Seq<char>, i: int) -> Seq<char> {
    strip_char(strip_char(trim(l.skip(i + 1)), '"'), '\'')
}

/// A value is read without its surrounding quotes: what a `key: value`
/// line gives never begins or ends with `'`; a value written in single or
/// double quotes is what stands between them; and a value with no quote at
/// either end is the trimmed text as it stands.
pub proof fn lemma_line_value_unquoted(l: Seq<char>, i: int)
    ensures
        line_value(l, i).len() == 0 || (line_value(l, i)[0] != '\'' && line_value(l, i).last() != '\''),
        forall|w: Seq<char>|
            #![trigger seq!['\''] + w + seq!['\'']]
            trim(l.skip(i + 1)) == seq!['\''] + w + seq!['\''] && w.len() > 0 && w[0] != '\'' && w.last() != '\''
                ==> line_value(l, i) == w,
        forall|w: Seq<char>|
            #![trigger seq!['"'] + w + seq!['"']]
            trim(l.skip(i + 1)) == seq!['"'] + w + seq!['"'] && w.len() > 0 && w[0] != '"' && w.last() != '"'
                && w[0] != '\'' && w.last() != '\'' ==> line_value(l, i) == w,
        ({
            let v = trim(l.skip(i + 1));
            v.len() > 0 && v[0] != '"' && v[0] != '\'' && v.last() != '"' && v.last() != '\'' ==> line_value(l, i) == v
        }),
{
    let v = trim(l.skip(i + 1));
    let q = strip_char(v, '"');
    lemma_strip_char_ends(v, '"');
    lemma_strip_char_ends(q, '\'');
    assert forall|w: Seq<char>|
        #![trigger seq!['\''] + w + seq!['\'']]
        v == seq!['\''] + w + seq!['\''] && w.len() > 0 && w[0] != '\'' && w.last() != '\''
            implies line_value(l, i) == w by {
        assert(v[0] == '\'');
        assert(v.last() == '\'');
        assert(q == v);
        assert(v.drop_first()[0] == w[0]);
        assert(lead_count(v.drop_first(), '\'') == 0);
        assert(lead_count(v, '\'') == 1);
        let t = v.skip(1);
        assert(t =~= w + seq!['\'']);
        assert(t.drop_last() =~= w);
        assert(trail_count(w, '\'') == 0);
        assert(trail_count(t, '\'') == 1);
        assert(strip_char(v, '\'') =~= w);
    }
    assert forall|w: Seq<char>|
        #![trigger seq!['"'] + w + seq!['"']]
        v == seq!['"'] + w + seq!['"'] && w.len() > 0 && w[0] != '"' && w.last() != '"' && w[0] != '\''
            && w.last() != '\'' implies line_value(l, i) == w by {
        assert(v[0] == '"');
        assert(v.last() == '"');
        assert(v.drop_first()[0] == w[0]);
        assert(lead_count(v.drop_first(), '"') == 0);
        assert(lead_count(v, '"') == 1);
        let t = v.skip(1);
        assert(t =~= w + seq!['"']);
        assert(t.drop_last() =~= w);
        assert(trail_count(w, '"') == 0);
        assert(trail_count(t, '"') == 1);
        assert(q =~= w);
        lemma_strip_char_ends(w, '\'');
    }
}

/// The keys that front matter understands.
#[derive(PartialEq, Eq, Structural, Clone, Copy)]
pub enum FmKey {
    Title,
    Date,
    Author,
    Lang,
    Excerpt,
    Image,
    SiteName,
    Url,
    Tags,
    Draft,
    Other,
}

/// Which key a (lowercased) key string names.
pub open spec fn key_kind(k: Seq<char>) -> FmKey {
    if k == seq!['t', 'i', 't', 'l', 'e'] {
        FmKey::Title
    } else if k == seq!['d', 'a', 't', 'e'] {
        FmKey::Date
    } else if k == seq!['a', 'u', 't', 'h', 'o', 'r'] {
        FmKey::Author
    } else if k == seq!['l', 'a', 'n', 'g'] {
        FmKey::Lang
    } else if k == seq!['e', 'x', 'c', 'e', 'r', 'p', 't'] {
        FmKey::Excerpt
    } else if k == seq!['i', 'm', 'a', 'g', 'e'] {
        FmKey::Image
    } else if k == seq!['s', 'i', 't', 'e', '_', 'n', 'a', 'm', 'e'] {
        FmKey::SiteName
    } else if k == seq!['u', 'r', 'l'] {
        FmKey::Url
    } else if k == seq!['t', 'a', 'g', 's'] {
        FmKey::Tags
    } else if k == seq!['d', 'r', 'a', 'f', 't'] {
        FmKey::Draft
    } else {
        FmKey::Other
    }
}

fn classify_key(key: &[char]) -> (r: FmKey)
    ensures
        r == key_kind(key@),
{
    proof {
        reveal_strlit("title");
        assert("title"@ =~= seq!['t', 'i', 't', 'l', 'e']);
        reveal_strlit("date");
        assert("date"@ =~= seq!['d', 'a', 't', 'e']);
        reveal_strlit("author");
        assert("author"@ =~= seq!['a', 'u', 't', 'h', 'o', 'r']);
        reveal_strlit("lang");
        assert("lang"@ =~= seq!['l', 'a', 'n', 'g']);
        reveal_strlit("excerpt");
        assert("excerpt"@ =~= seq!['e', 'x', 'c', 'e', 'r', 'p', 't']);
        reveal_strlit("image");
        assert("image"@ =~= seq!['i', 'm', 'a', 'g', 'e']);
        reveal_strlit("site_name");
        assert("site_name"@ =~= seq!['s', 'i', 't', 'e', '_', 'n', 'a', 'm', 'e']);
        reveal_strlit("url");
        assert("url"@ =~= seq!['u', 'r', 'l']);
        reveal_strlit("tags");
        assert("tags"@ =~= seq!['t', 'a', 'g', 's']);
        reveal_strlit("draft");
        assert("draft"@ =~= seq!['d', 'r', 'a', 'f', 't']);
    }
    if key_is(key, "title") {
        FmKey::Title
    } else if key_is(key, "date") {
        FmKey::Date
    } else if key_is(key, "author") {
        FmKey::Author
    } else if key_is(key, "lang") {
        FmKey::Lang
    } else if key_is(key, "excerpt") {
        FmKey::Excerpt
    } else if key_is(key, "image") {
        FmKey::Image
    } else if key_is(key, "site_name") {
        FmKey::SiteName
    } else if key_is(key, "url") {
        FmKey::Url
    } else if key_is(key, "tags") {
        FmKey::Tags
    } else if key_is(key, "draft") {
        FmKey::Draft
    } else {
        FmKey::Other
    }
}

/// The effect of one front-matter line; later lines override earlier ones.
pub open spec fn fm_line(fm: FrontMatterView, line: Seq<char>) -> FrontMatterView {
    let l = trim(line);
    match find_char(l, ':') {
        None => fm,
        Some(i) => {
            let key = line_key(l, i);
            let value = line_value(l, i);
            match key_kind(key) {
                FmKey::Title => FrontMatterView { title: Some(value), ..fm },
                FmKey::Date => FrontMatterView { date: Some(value), ..fm },
                FmKey::Author => FrontMatterView { author: Some(value), ..fm },
                FmKey::Lang => FrontMatterView { lang: Some(value), ..fm },
                FmKey::Excerpt => FrontMatterView { excerpt: Some(value), ..fm },
                FmKey::Image => FrontMatterView { image: Some(value), ..fm },
                FmKey::SiteName => FrontMatterView { site_name: Some(value), ..fm },
                FmKey::Url => FrontMatterView { url: Some(value), ..fm },
                FmKey::Tags => FrontMatterView { tags: tag_list(split_char(value, ',')), ..fm },
                FmKey::Draft => FrontMatterView { draft: value == seq!['t', 'r', 'u', 'e'], ..fm },
                FmKey::Other => fm,
            }
        },
    }
}

/// Front matter after reading the given lines.
pub open spec fn fm_fold(ls: Seq<Seq<char>>) -> FrontMatterView
    decreases ls.len(),
{
    if ls.len() == 0 {
        fm_empty()
    } else {
        fm_line(fm_fold(ls.drop_last()), ls.last())
    }
}

/// The opening delimiter `---`.
pub open spec fn dashes() -> Seq<char> {
    seq!['-', '-', '-']
}

/// The closing delimiter, searched for after the opening one.
pub open spec fn close_delim() -> Seq<char> {
    seq!['\n', '-', '-', '-']
}

/// The front-matter block of a document (between the delimiters), if any.
pub open spec fn fm_block(content: Seq<char>) -> Option<Seq<char>> {
    if !starts_with(content, dashes()) {
        None
    } else {
        let rest = content.skip(3);
        match find(rest, close_delim()) {
            Some(end) => Some(rest.take(end)),
            None => None,
        }
    }
}

/// What `parse` returns.
pub open spec fn spec_parse(content: Seq<char>) -> FrontMatterView {
    match fm_block(content) {
        Some(b) => fm_fold(lines(b)),
        None => fm_empty(),
    }
}

/// What `strip` returns: the document after the front-matter block, with
/// the newlines right after the closing delimiter removed.
pub open spec fn spec_strip(content: Seq<char>) -> Seq<char> {
    if !starts_with(content, dashes()) {
        content
    } else {
        let rest = content.skip(3);
        match find(rest, close_delim()) {
            Some(end) => {
                let after = rest.skip(end + 4);
                after.skip(lead_newlines(after))
            },
            None => content,
        }
    }
}

/// Number of leading `'\n'`.
pub open spec fn lead_newlines(s: Seq<char>) -> int
    decreases s.len(),
{
    if s.len() > 0 && s[0] == '\n' {
        1 + lead_newlines(s.drop_first())
    } else {
        0
    }
}

fn empty_front_matter() -> (fm: FrontMatter)
    ensures
        fm@ == fm_empty(),
{
    let fm = FrontMatter {
        title: None,
        date: None,
        author: None,
        lang: None,
        excerpt: None,
        image: None,
        site_name: None,
        url: None,
        tags: Vec::new(),
        draft: false,
    };
    assert(fm@.tags =~= Seq::<Seq<char>>::empty());
    fm
}

/// Builds the tag list of a `tags:` value.
fn parse_tags(value: &[char]) -> (r: Vec<String>)
    ensures
        strings_view(r@) == tag_list(split_char(value@, ',')),
{
    let pieces = split_ranges(value, ',');
    let ghost ps = split_char(value@, ',');
    let mut r: Vec<String> = Vec::new();
    let mut k: usize = 0;
    while k < pieces.len()
        invariant
            k <= pieces@.len(),
            pieces@.len() == ps.len(),
            forall|j: int|
                0 <= j < pieces@.len() ==> {
                    &&& (#[trigger] pieces@[j]).0 <= pieces@[j].1 <= value@.len()
                    &&& value@.subrange(pieces@[j].0 as int, pieces@[j].1 as int) == ps[j]
                },
            strings_view(r@) == tag_list(ps.take(k as int)),
        decreases pieces.len() - k,
    {
        let (lo, hi) = pieces[k];
        let (a, b) = trim_range(value, lo, hi);
        assert(ps.take(k + 1).drop_last() =~= ps.take(k as int));
        assert(ps.take(k + 1).last() == ps[k as int]);
        if a < b {
            let t = slice_of(value, a, b);
            let ts = from_chars(&t);
            r.push(ts);
        }
        assert(strings_view(r@) =~= tag_list(ps.take(k + 1)));
        k = k + 1;
    }
    assert(ps.take(pieces@.len() as int) =~= ps);
    r
}

/// Whether `key` equals the characters of `lit`.
fn key_is(key: &[char], lit: &str) -> (b: bool)
    ensures
        b == (key@ == lit@),
{
    let l = to_chars(lit);
    seq_eq(key, &l)
}

/// Applies one line `s[lo..hi]` to `fm`.
fn apply_line(fm: &mut FrontMatter, s: &[char], lo: usize, hi: usize)
    requires
        lo <= hi <= s@.len(),
    ensures
        final(fm)@ == fm_line(old(fm)@, s@.subrange(lo as int, hi as int)),
{
    let (a, b) = trim_range(s, lo, hi);
    let ghost l = trim(s@.subrange(lo as int, hi as int));
    assert(l =~= s@.subrange(a as int, b as int));
    let line = slice_of(s, a, b);
    match find_char_in(&line, ':', 0) {
        None => {
            assert(find_char(l, ':') is None);
        },
        Some(i) => {
            let (ka, kb) = trim_range(&line, 0, i);
            let kraw = slice_of(&line, ka, kb);
            let key = lower_chars(&kraw);
            assert(line@.subrange(0, i as int) =~= l.take(i as int));
            assert(key@ == line_key(l, i as int));
            let (va, vb) = trim_range(&line, i + 1, line.len());
            assert(line@.subrange(i + 1, line@.len() as int) =~= l.skip(i + 1));
            let (qa, qb) = strip_char_range(&line, va, vb, '"');
            let (pa, pb) = strip_char_range(&line, qa, qb, '\'');
            let value = slice_of(&line, pa, pb);
            assert(value@ == line_value(l, i as int));
            let kind = classify_key(&key);
            match kind {
                FmKey::Title => { fm.title = Some(from_chars(&value)); },
                FmKey::Date => { fm.date = Some(from_chars(&value)); },
                FmKey::Author => { fm.author = Some(from_chars(&value)); },
                FmKey::Lang => { fm.lang = Some(from_chars(&value)); },
                FmKey::Excerpt => { fm.excerpt = Some(from_chars(&value)); },
                FmKey::Image => { fm.image = Some(from_chars(&value)); },
                FmKey::SiteName => { fm.site_name = Some(from_chars(&value)); },
                FmKey::Url => { fm.url = Some(from_chars(&value)); },
                FmKey::Tags => { fm.tags = parse_tags(&value); },
                FmKey::Draft => {
                    proof {
                        reveal_strlit("true");
                        assert("true"@ =~= seq!['t', 'r', 'u', 'e']);
                    }
                    fm.draft = key_is(&value, "true");
                },
                FmKey::Other => {},
            }
        },
    }
}

/// Position of the closing delimiter inside `cs[3..]`, when `cs` opens with `---`.
fn block_end(cs: &[char]) -> (r: Option<usize>)
    ensures
        match r {
            Some(end) => 3 + end + 4 <= cs@.len() && fm_block(cs@) == Some(cs@.skip(3).take(
                end as int,
            )) && find(cs@.skip(3), close_delim()) == Some(end as int),
            None => fm_block(cs@) is None && (starts_with(cs@, dashes()) ==> find(
                cs@.skip(3),
                close_delim(),
            ) is None),
        },
{
    let open = to_chars("---");
    proof {
        reveal_strlit("---");
        assert(open@ =~= dashes());
    }
    if !starts_with_at(cs, &open) {
        return None;
    }
    let rest = slice_of(cs, 3, cs.len());
    assert(rest@ =~= cs@.skip(3));
    let close = to_chars("\n---");
    proof {
        reveal_strlit("\n---");
        assert(close@ =~= close_delim());
    }
    match find_seq_from(&rest, &close, 0) {
        Some(end) => {
            assert(is_first_match(rest@, close@, 0, end as int));
            Some(end)
        },
        None => None,
    }
}

/// Parse the front-matter block of `content` (if it opens with `---` and a
/// later line starts with `---`).
pub fn parse(content: &str) -> (fm: FrontMatter)
    ensures
        fm@ == spec_parse(content@),
{
    let cs = to_chars(content);
    let mut fm = empty_front_matter();
    match block_end(&cs) {
        None => fm,
        Some(end) => {
            let block = slice_of(&cs, 3, 3 + end);
            assert(block@ =~= cs@.skip(3).take(end as int));
            let ranges = line_ranges(&block);
            let ghost ls = lines(block@);
            let mut k: usize = 0;
            while k < ranges.len()
                invariant
                    k <= ranges@.len(),
                    ranges@.len() == ls.len(),
                    forall|j: int|
                        0 <= j < ranges@.len() ==> {
                            &&& (#[trigger] ranges@[j]).0 <= ranges@[j].1 <= block@.len()
                            &&& block@.subrange(ranges@[j].0 as int, ranges@[j].1 as int)
                                == ls[j]
                        },
                    fm@ == fm_fold(ls.take(k as int)),
                decreases ranges.len() - k,
            {
                let (lo, hi) = ranges[k];
                apply_line(&mut fm, &block, lo, hi);
                assert(ls.take(k + 1).drop_last() =~= ls.take(k as int));
                k = k + 1;
            }
            assert(ls.take(ranges@.len() as int) =~= ls);
            fm
        },
    }
}

/// The document with its front-matter block removed.
pub fn strip(content: &str) -> (r: String)
    ensures
        r@ == spec_strip(content@),
{
    let cs = to_chars(content);
    let open = to_chars("---");
    proof {
        reveal_strlit("---");
        assert(open@ =~= dashes());
    }
    if !starts_with_at(&cs, &open) {
        return content.to_owned();
    }
    match block_end(&cs) {
        None => content.to_owned(),
        Some(end) => {
            assert(cs@.len() == cs.len());
            let mut i = 3 + end + 4;
            let ghost after = cs@.skip(3).skip(end + 4);
            assert(after =~= cs@.skip(i as int));
            while i < cs.len() && cs[i] == '\n'
                invariant
                    3 + end + 4 <= i <= cs@.len(),
                    lead_newlines(after) == (i - (3 + end + 4)) + lead_newlines(cs@.skip(i as int)),
                decreases cs.len() - i,
            {
                assert(cs@.skip(i as int).drop_first() =~= cs@.skip(i + 1));
                i = i + 1;
            }
            if i == cs.len() {
                assert(cs@.skip(i as int).len() == 0);
            }
            assert(lead_newlines(cs@.skip(i as int)) == 0);
            let out = slice_of(&cs, i, cs.len());
            assert(out@ =~= after.skip(lead_newlines(after)));
            from_chars(&out)
        },
    }
}

} // verus!
