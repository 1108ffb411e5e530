//! Document statistics: counts over the parsed tree and the source text,
//! and the number formatting of the report.

use crate::ast::{node_children, node_literal, node_tag, spec_tree, MdTree, NodeTag};
use crate::strs::{decimal, from_chars, is_ws, line_ranges, lines, push_decimal, to_chars};
use comrak::nodes::AstNode;
use vstd::prelude::*;

verus! {

/// Digits grouped in threes from the right, separated by commas.
pub open spec fn grouped(ds: Seq<char>) -> Seq<char>
    decreases ds.len(),
{
    if ds.len() <= 3 {
        ds
    } else {
        grouped(ds.take(ds.len() - 3)) + seq![','] + ds.skip(ds.len() - 3)
    }
}

fn group_prefix(ds: &[char], n: usize) -> (r: Vec<char>)
    requires
        n <= ds@.len(),
    ensures
        r@ == grouped(ds@.take(n as int)),
    decreases n,
{
    if n <= 3 {
        let r = crate::strs::slice_of(ds, 0, n);
        assert(r@ =~= ds@.take(n as int));
        return r;
    }
    let mut r = group_prefix(ds, n - 3);
    r.push(',');
    crate::strs::extend_range(&mut r, ds, n - 3, n);
    proof {
        let t = ds@.take(n as int);
        assert(t.take(t.len() - 3) =~= ds@.take(n - 3));
        assert(t.skip(t.len() - 3) =~= ds@.subrange(n - 3, n as int));
    }
    r
}

/// `n` in decimal with commas between groups of three digits.
pub fn format_number(n: usize) -> (r: String)
    ensures
        r@ == grouped(decimal(n as nat)),
{
    let mut ds: Vec<char> = Vec::new();
    push_decimal(&mut ds, n as u64);
    assert(ds@ =~= decimal(n as nat));
    let g = group_prefix(&ds, ds.len());
    assert(ds@.take(ds@.len() as int) =~= ds@);
    from_chars(&g)
}

/// `s` with its commas removed.
pub open spec fn without_commas(s: Seq<char>) -> Seq<char>
    decreases s.len(),
{
    if s.len() == 0 {
        seq![]
    } else {
        without_commas(s.drop_last()) + (if s.last() == ',' {
            seq![]
        } else {
            seq![s.last()]
        })
    }
}

proof fn lemma_without_commas_add(a: Seq<char>, b: Seq<char>)
    ensures
        without_commas(a + b) == without_commas(a) + without_commas(b),
    decreases b.len(),
{
    if b.len() == 0 {
        assert(a + b =~= a);
    } else {
        lemma_without_commas_add(a, b.drop_last());
        assert((a + b).drop_last() =~= a + b.drop_last());
    }
}

proof fn lemma_without_commas_plain(s: Seq<char>)
    requires
        !s.contains(','),
    ensures
        without_commas(s) == s,
    decreases s.len(),
{
    if s.len() > 0 {
        assert(!s.drop_last().contains(',')) by {
            if s.drop_last().contains(',') {
                let j = choose|j: int| 0 <= j < s.drop_last().len() && s.drop_last()[j] == ',';
                assert(s[j] == ',');
            }
        }
        lemma_without_commas_plain(s.drop_last());
        assert(s.last() != ',') by {
            if s.last() == ',' {
                assert(s[s.len() - 1] == ',');
            }
        }
        assert(s.drop_last() + seq![s.last()] =~= s);
    }
}

/// Grouping only inserts separators: without its commas the result is the
/// digits it started from.
pub proof fn lemma_grouped_keeps_digits(ds: Seq<char>)
    requires
        !ds.contains(','),
    ensures
        without_commas(grouped(ds)) == ds,
    decreases ds.len(),
{
    if ds.len() <= 3 {
        lemma_without_commas_plain(ds);
    } else {
        let head = ds.take(ds.len() - 3);
        let tail = ds.skip(ds.len() - 3);
        assert(!head.contains(',')) by {
            if head.contains(',') {
                let j = choose|j: int| 0 <= j < head.len() && head[j] == ',';
                assert(ds[j] == ',');
            }
        }
        assert(!tail.contains(',')) by {
            if tail.contains(',') {
                let j = choose|j: int| 0 <= j < tail.len() && tail[j] == ',';
                assert(ds[ds.len() - 3 + j] == ',');
            }
        }
        lemma_grouped_keeps_digits(head);
        lemma_without_commas_plain(tail);
        lemma_without_commas_add(grouped(head) + seq![','], tail);
        lemma_without_commas_add(grouped(head), seq![',']);
        assert(without_commas(seq![',']) =~= Seq::<char>::empty()) by {
            let one = seq![','];
            assert(one.drop_last() =~= Seq::<char>::empty());
            assert(one.last() == ',');
            assert(without_commas(one.drop_last()) =~= Seq::<char>::empty());
        }
        assert(ds =~= head + tail);
    }
}

// ---------------------------------------------------------------------------
// Counting
// ---------------------------------------------------------------------------

/// The counts `mdx stats` reports.
#[derive(Debug, Clone, Copy, PartialEq, Eq, Structural)]
pub struct DocStats {
    pub words: usize,
    pub lines: usize,
    pub chars: usize,
    pub headings: usize,
    pub links: usize,
    pub code_blocks: usize,
    pub images: usize,
}

/// `n`, or `usize::MAX` when it does not fit (counters saturate).
pub open spec fn cap(n: int) -> int {
    if n < usize::MAX {
        n
    } else {
        usize::MAX as int
    }
}

/// The number of whitespace-separated words, as `split_whitespace().count()`.
pub open spec fn word_count(s: Seq<char>) -> nat
    decreases s.len(),
{
    if s.len() == 0 {
        0
    } else {
        word_count(s.drop_last()) + (if !is_ws(s.last()) && (s.len() == 1 || is_ws(s[s.len() - 2])) {
            1nat
        } else {
            0nat
        })
    }
}

/// Nodes of kind `tag` in a subtree.
pub open spec fn count_tag(t: MdTree, tag: NodeTag) -> nat
    decreases t, 1nat,
{
    (if t.tag == tag { 1nat } else { 0nat }) + count_tag_all(t.children, tag)
}

/// Nodes of kind `tag` in a sequence of subtrees.
pub open spec fn count_tag_all(ts: Seq<MdTree>, tag: NodeTag) -> nat
    decreases ts, 0nat,
{
    if ts.len() == 0 {
        0
    } else {
        count_tag_all(ts.drop_last(), tag) + count_tag(ts.last(), tag)
    }
}

/// Words in the text nodes of a subtree.
pub open spec fn tree_words(t: MdTree) -> nat
    decreases t, 1nat,
{
    (if t.tag == NodeTag::Text { word_count(t.literal) } else { 0nat }) + tree_words_all(t.children)
}

/// Words in the text nodes of a sequence of subtrees.
pub open spec fn tree_words_all(ts: Seq<MdTree>) -> nat
    decreases ts, 0nat,
{
    if ts.len() == 0 {
        0
    } else {
        tree_words_all(ts.drop_last()) + tree_words(ts.last())
    }
}

proof fn lemma_word_count_blank(s: Seq<char>)
    requires
        forall|j: int| 0 <= j < s.len() ==> is_ws(#[trigger] s[j]),
    ensures
        word_count(s) == 0,
    decreases s.len(),
{
    if s.len() > 0 {
        assert forall|j: int| 0 <= j < s.drop_last().len() implies is_ws(#[trigger] s.drop_last()[j]) by {
            assert(s.drop_last()[j] == s[j]);
        }
        lemma_word_count_blank(s.drop_last());
        assert(is_ws(s[s.len() - 1]));
    }
}

proof fn lemma_word_count_solid(s: Seq<char>)
    requires
        s.len() > 0,
        forall|j: int| 0 <= j < s.len() ==> !is_ws(#[trigger] s[j]),
    ensures
        word_count(s) == 1,
    decreases s.len(),
{
    assert(!is_ws(s[s.len() - 1]));
    if s.len() > 1 {
        assert forall|j: int| 0 <= j < s.drop_last().len() implies !is_ws(#[trigger] s.drop_last()[j]) by {
            assert(s.drop_last()[j] == s[j]);
        }
        lemma_word_count_solid(s.drop_last());
        assert(!is_ws(s[s.len() - 2]));
    } else {
        assert(s.drop_last().len() == 0);
        assert(word_count(s.drop_last()) == 0);
    }
}

proof fn lemma_word_count_split(a: Seq<char>, c: char, b: Seq<char>)
    requires
        is_ws(c),
    ensures
        word_count(a.push(c) + b) == word_count(a) + word_count(b),
    decreases b.len(),
{
    let t = a.push(c) + b;
    if b.len() == 0 {
        assert(t =~= a.push(c));
        assert(t.drop_last() =~= a);
    } else {
        lemma_word_count_split(a, c, b.drop_last());
        assert(t.drop_last() =~= a.push(c) + b.drop_last());
        assert(t.last() == b.last());
        if b.len() == 1 {
            assert(t[t.len() - 2] == c);
        } else {
            assert(t[t.len() - 2] == b[b.len() - 2]);
        }
    }
}

/// Words are the maximal runs of non-whitespace characters, however short:
/// text that is all whitespace has none, a run without whitespace is one
/// word (a single letter too), and whitespace between two texts makes the
/// count the sum of theirs.
pub proof fn lemma_word_count_runs(a: Seq<char>, c: char, b: Seq<char>)
    ensures
        (forall|j: int| 0 <= j < a.len() ==> is_ws(#[trigger] a[j])) ==> word_count(a) == 0,
        a.len() > 0 && (forall|j: int| 0 <= j < a.len() ==> !is_ws(#[trigger] a[j])) ==> word_count(a) == 1,
        is_ws(c) ==> word_count(a + seq![c] + b) == word_count(a) + word_count(b),
{
    if forall|j: int| 0 <= j < a.len() ==> is_ws(#[trigger] a[j]) {
        lemma_word_count_blank(a);
    }
    if a.len() > 0 && (forall|j: int| 0 <= j < a.len() ==> !is_ws(#[trigger] a[j])) {
        lemma_word_count_solid(a);
    }
    if is_ws(c) {
        assert(a + seq![c] == a.push(c));
        lemma_word_count_split(a, c, b);
    }
}

/// Words in `s`.
pub fn count_words(s: &[char]) -> (n: usize)
    ensures
        n == word_count(s@),
{
    let mut n: usize = 0;
    let mut i: usize = 0;
    while i < s.len()
        invariant
            i <= s@.len(),
            n == word_count(s@.take(i as int)),
            n <= i,
        decreases s.len() - i,
    {
        proof {
            assert(s@.take(i + 1).drop_last() =~= s@.take(i as int));
        }
        if !crate::strs::char_is_ws(s[i]) && (i == 0 || crate::strs::char_is_ws(s[i - 1])) {
            n = n + 1;
        }
        i = i + 1;
    }
    assert(s@.take(i as int) =~= s@);
    n
}

fn bump(c: usize, k: usize) -> (r: usize)
    ensures
        r == cap(c + k),
{
    c.saturating_add(k)
}

fn count_node<'a>(n: &'a AstNode<'a>, st: &mut DocStats)
    ensures
        final(st).words == cap(old(st).words + tree_words(spec_tree(n))),
        final(st).headings == cap(old(st).headings + count_tag(spec_tree(n), NodeTag::Heading)),
        final(st).links == cap(old(st).links + count_tag(spec_tree(n), NodeTag::Link)),
        final(st).images == cap(old(st).images + count_tag(spec_tree(n), NodeTag::Image)),
        final(st).code_blocks == cap(old(st).code_blocks + count_tag(spec_tree(n), NodeTag::CodeBlock)),
        final(st).lines == old(st).lines,
        final(st).chars == old(st).chars,
    decreases spec_tree(n),
{
    let ghost t = spec_tree(n);
    let ghost s0 = *st;
    let tag = node_tag(n);
    match tag {
        NodeTag::Heading => st.headings = bump(st.headings, 1),
        NodeTag::Link => st.links = bump(st.links, 1),
        NodeTag::Image => st.images = bump(st.images, 1),
        NodeTag::CodeBlock => st.code_blocks = bump(st.code_blocks, 1),
        NodeTag::Text => {
            let lit = to_chars(node_literal(n).as_str());
            let w = count_words(&lit);
            st.words = bump(st.words, w);
        },
        _ => {},
    }
    let ghost s1 = *st;
    let kids = node_children(n);
    let mut i: usize = 0;
    while i < kids.len()
        invariant
            i <= kids@.len(),
            kids@.len() == t.children.len(),
            t == spec_tree(n),
            forall|k: int| 0 <= k < kids@.len() ==> spec_tree(#[trigger] kids@[k]) == t.children[k],
            st.words == cap(s1.words + tree_words_all(t.children.take(i as int))),
            st.headings == cap(s1.headings + count_tag_all(t.children.take(i as int), NodeTag::Heading)),
            st.links == cap(s1.links + count_tag_all(t.children.take(i as int), NodeTag::Link)),
            st.images == cap(s1.images + count_tag_all(t.children.take(i as int), NodeTag::Image)),
            st.code_blocks == cap(s1.code_blocks + count_tag_all(t.children.take(i as int), NodeTag::CodeBlock)),
            st.lines == s1.lines,
            st.chars == s1.chars,
        decreases kids.len() - i,
    {
        proof {
            assert(decreases_to!(t => t.children));
            assert(decreases_to!(t.children => t.children[i as int]));
            assert(t.children.take(i + 1).drop_last() =~= t.children.take(i as int));
        }
        count_node(kids[i], st);
        i = i + 1;
    }
    assert(t.children.take(i as int) =~= t.children);
}

/// Count words, lines, characters (bytes), headings, links, code blocks and
/// images of a document: the counts of nodes come from the tree, the lines
/// and characters from the source text. Counters saturate at `usize::MAX`.
pub fn collect_stats<'a>(root: &'a AstNode<'a>, raw: &str) -> (r: DocStats)
    ensures
        r.words == cap(tree_words(spec_tree(root)) as int),
        r.lines == lines(raw@).len(),
        r.chars == raw.len(),
        r.headings == cap(count_tag(spec_tree(root), NodeTag::Heading) as int),
        r.links == cap(count_tag(spec_tree(root), NodeTag::Link) as int),
        r.images == cap(count_tag(spec_tree(root), NodeTag::Image) as int),
        r.code_blocks == cap(count_tag(spec_tree(root), NodeTag::CodeBlock) as int),
{
    let cs = to_chars(raw);
    let ranges = line_ranges(&cs);
    let mut st = DocStats {
        words: 0,
        lines: ranges.len(),
        chars: raw.len(),
        headings: 0,
        links: 0,
        code_blocks: 0,
        images: 0,
    };
    count_node(root, &mut st);
    st
}

/// Minutes of reading at 238 words a minute, rounded up, at least one.
pub fn reading_minutes(words: usize) -> (m: usize)
    ensures
        m == if words == 0 { 1 } else { (words - 1) / 238 + 1 },
{
    if words == 0 {
        1
    } else {
        (words - 1) / 238 + 1
    }
}

} // verus!
