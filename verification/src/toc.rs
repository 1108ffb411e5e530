//! Table of contents: the headings of a document with the anchors comrak
//! gives them in HTML, and the nested list `mdx toc` prints.

use crate::ast::{inline_text, node_children, node_heading_level, node_tag, spec_inline_text, spec_tree, CodeStyle, MdTree, NodeTag};
use crate::strs::{decimal, extend_all, from_chars, to_chars};
use comrak::nodes::AstNode;
use vstd::prelude::*;

verus! {

#[verifier::external_type_specification]
#[verifier::external_body]
pub struct ExAnchorizer(comrak::Anchorizer);

/// The anchors an anchorizer has handed out so far.
pub uninterp spec fn anchors_issued(a: comrak::Anchorizer) -> Set<Seq<char>>;

/// `Anchorizer::new`: an anchorizer that has handed out nothing yet.
#[verifier::external_body]
fn new_anchorizer() -> (a: comrak::Anchorizer)
    ensures
        anchors_issued(a) == Set::<Seq<char>>::empty(),
{
    comrak::Anchorizer::new()
}

/// What `Anchorizer::anchorize` builds from a heading text before making
/// it unique: the text lowercased (`str::to_lowercase`), only spaces,
/// hyphens, letters, marks, numbers and connector punctuation kept, and
/// spaces turned to hyphens.
pub uninterp spec fn spec_anchor_base(text: Seq<char>) -> Seq<char>;

/// The `k`-th anchor tried for a base: the base itself, then the base with
/// `-1`, `-2`, ... appended.
pub open spec fn anchor_candidate(base: Seq<char>, k: nat) -> Seq<char> {
    if k == 0 {
        base
    } else {
        base + seq!['-'] + decimal(k)
    }
}

/// Candidate `k` is the first one not handed out yet.
pub open spec fn is_first_free(base: Seq<char>, issued: Set<Seq<char>>, k: nat) -> bool {
    &&& !issued.contains(anchor_candidate(base, k))
    &&& forall|j: nat| j < k ==> issued.contains(#[trigger] anchor_candidate(base, j))
}

/// The first candidate for `base` not handed out yet.
pub open spec fn first_free(base: Seq<char>, issued: Set<Seq<char>>) -> Seq<char> {
    anchor_candidate(base, choose|k: nat| is_first_free(base, issued, k))
}

/// `Anchorizer::anchorize`: the first of the text's candidate anchors that
/// the anchorizer has not handed out before, which it then remembers. The
/// source keeps, per base, the next suffix to try; every candidate below it
/// has been handed out, so the anchor is the first free candidate. The base
/// itself rests on Unicode categories and is named, not spelt out.
#[verifier::external_body]
fn anchorize(a: &mut comrak::Anchorizer, text: &str) -> (r: String)
    ensures
        !anchors_issued(*old(a)).contains(r@),
        anchors_issued(*final(a)) == anchors_issued(*old(a)).insert(r@),
        exists|k: nat|
            r@ == anchor_candidate(spec_anchor_base(text@), k) && forall|j: nat|
                j < k ==> anchors_issued(*old(a)).contains(#[trigger] anchor_candidate(spec_anchor_base(text@), j)),
{
    a.anchorize(text)
}

/// Only one candidate is the first free one.
proof fn lemma_first_free(base: Seq<char>, issued: Set<Seq<char>>, k: nat)
    requires
        is_first_free(base, issued, k),
    ensures
        first_free(base, issued) == anchor_candidate(base, k),
{
    let m = choose|m: nat| is_first_free(base, issued, m);
    assert(is_first_free(base, issued, m));
    if m < k {
        assert(issued.contains(anchor_candidate(base, m)));
    } else if k < m {
        assert(issued.contains(anchor_candidate(base, k)));
    }
}

/// The anchors a fresh anchorizer gives a run of heading texts, in turn,
/// and the set it has handed out after them.
pub open spec fn anchors_for(texts: Seq<Seq<char>>) -> (Seq<Seq<char>>, Set<Seq<char>>)
    decreases texts.len(),
{
    if texts.len() == 0 {
        (seq![], Set::empty())
    } else {
        let (a, issued) = anchors_for(texts.drop_last());
        let x = first_free(spec_anchor_base(texts.last()), issued);
        (a.push(x), issued.insert(x))
    }
}

/// The texts of headings.
pub open spec fn heading_texts(v: Seq<Heading>) -> Seq<Seq<char>> {
    Seq::new(v.len(), |i: int| v[i].text@)
}

/// The anchors of headings.
pub open spec fn heading_anchors(v: Seq<Heading>) -> Seq<Seq<char>> {
    Seq::new(v.len(), |i: int| v[i].anchor@)
}

/// A heading of the document: level, text (code spans keep their
/// backticks) and anchor.
#[derive(Debug, Clone)]
pub struct Heading {
    pub level: u8,
    pub text: String,
    pub anchor: String,
}

/// A heading that gets an anchor: one with some text.
pub open spec fn toc_visit(acc: Seq<(u8, Seq<char>)>, t: MdTree) -> Seq<(u8, Seq<char>)> {
    if t.tag == NodeTag::Heading && spec_inline_text(t, CodeStyle::Fenced).len() > 0 {
        acc.push((t.level, spec_inline_text(t, CodeStyle::Fenced)))
    } else {
        acc
    }
}

/// The headings of a subtree in document order.
pub open spec fn toc_walk(acc: Seq<(u8, Seq<char>)>, t: MdTree) -> Seq<(u8, Seq<char>)>
    decreases t, 1nat,
{
    toc_walk_all(toc_visit(acc, t), t.children)
}

/// The headings of a sequence of subtrees.
pub open spec fn toc_walk_all(acc: Seq<(u8, Seq<char>)>, ts: Seq<MdTree>) -> Seq<(u8, Seq<char>)>
    decreases ts, 0nat,
{
    if ts.len() == 0 {
        acc
    } else {
        toc_walk(toc_walk_all(acc, ts.drop_last()), ts.last())
    }
}

/// Level and text of each heading.
pub open spec fn heading_view(v: Seq<Heading>) -> Seq<(u8, Seq<char>)> {
    Seq::new(v.len(), |i: int| (v[i].level, v[i].text@))
}

/// The anchors are all different and were all handed out by `a`.
pub open spec fn anchors_fresh(v: Seq<Heading>, issued: Set<Seq<char>>) -> bool {
    &&& forall|i: int, j: int| 0 <= i < j < v.len() ==> v[i].anchor@ != v[j].anchor@
    &&& forall|i: int| 0 <= i < v.len() ==> issued.contains(#[trigger] v[i].anchor@)
}

fn heading_node<'a>(n: &'a AstNode<'a>, anchorizer: &mut comrak::Anchorizer, out: &mut Vec<Heading>)
    requires
        anchors_fresh(old(out)@, anchors_issued(*old(anchorizer))),
        heading_anchors(old(out)@) == anchors_for(heading_texts(old(out)@)).0,
        anchors_issued(*old(anchorizer)) == anchors_for(heading_texts(old(out)@)).1,
    ensures
        heading_view(final(out)@) == toc_walk(heading_view(old(out)@), spec_tree(n)),
        anchors_fresh(final(out)@, anchors_issued(*final(anchorizer))),
        heading_anchors(final(out)@) == anchors_for(heading_texts(final(out)@)).0,
        anchors_issued(*final(anchorizer)) == anchors_for(heading_texts(final(out)@)).1,
    decreases spec_tree(n),
{
    let ghost t = spec_tree(n);
    if node_tag(n) == NodeTag::Heading {
        let text = inline_text(n, CodeStyle::Fenced);
        if to_chars(text.as_str()).len() > 0 {
            let ghost before = out@;
            let ghost issued = anchors_issued(*anchorizer);
            let anchor = anchorize(anchorizer, text.as_str());
            let ghost tx = text@;
            out.push(Heading { level: node_heading_level(n), text, anchor });
            proof {
                let base = spec_anchor_base(tx);
                let k = choose|k: nat|
                    anchor@ == anchor_candidate(base, k) && forall|j: nat|
                        j < k ==> issued.contains(#[trigger] anchor_candidate(base, j));
                assert(is_first_free(base, issued, k));
                lemma_first_free(base, issued, k);
                assert(heading_texts(out@).drop_last() =~= heading_texts(before));
                assert(heading_texts(out@).last() == tx);
                assert(heading_anchors(out@) =~= heading_anchors(before).push(anchor@));
                assert(heading_view(out@) =~= heading_view(before).push(
                    (t.level, spec_inline_text(t, CodeStyle::Fenced)),
                ));
                assert forall|i: int, j: int| 0 <= i < j < out@.len() implies out@[i].anchor@ != out@[j].anchor@ by {
                    if j == out@.len() - 1 {
                        assert(issued.contains(before[i].anchor@));
                    }
                }
                assert forall|i: int| 0 <= i < out@.len() implies anchors_issued(*anchorizer).contains(
                    #[trigger] out@[i].anchor@,
                ) by {
                    if i < before.len() {
                        assert(issued.contains(before[i].anchor@));
                    }
                }
            }
        }
    }
    let ghost acc1 = heading_view(out@);
    let kids = node_children(n);
    let mut i: usize = 0;
    while i < kids.len()
        invariant
            i <= kids@.len(),
            kids@.len() == t.children.len(),
            t == spec_tree(n),
            forall|k: int| 0 <= k < kids@.len() ==> spec_tree(#[trigger] kids@[k]) == t.children[k],
            heading_view(out@) == toc_walk_all(acc1, t.children.take(i as int)),
            anchors_fresh(out@, anchors_issued(*anchorizer)),
            heading_anchors(out@) == anchors_for(heading_texts(out@)).0,
            anchors_issued(*anchorizer) == anchors_for(heading_texts(out@)).1,
        decreases kids.len() - i,
    {
        proof {
            assert(decreases_to!(t => t.children));
            assert(decreases_to!(t.children => t.children[i as int]));
            assert(t.children.take(i + 1).drop_last() =~= t.children.take(i as int));
        }
        heading_node(kids[i], anchorizer, out);
        i = i + 1;
    }
    assert(t.children.take(i as int) =~= t.children);
}

/// Every heading with text, in document order, anchored the way comrak
/// anchors them when rendering HTML: each heading gets the first candidate
/// anchor of its text not given to an earlier heading.
pub fn collect_headings<'a>(root: &'a AstNode<'a>) -> (r: Vec<Heading>)
    ensures
        heading_view(r@) == toc_walk(seq![], spec_tree(root)),
        heading_anchors(r@) == anchors_for(heading_texts(r@)).0,
        forall|i: int, j: int| 0 <= i < j < r@.len() ==> r@[i].anchor@ != r@[j].anchor@,
{
    let mut anchorizer = new_anchorizer();
    let mut out: Vec<Heading> = Vec::new();
    assert(heading_view(out@) =~= seq![]);
    assert(heading_texts(out@) =~= Seq::<Seq<char>>::empty());
    assert(heading_anchors(out@) =~= Seq::<Seq<char>>::empty());
    heading_node(root, &mut anchorizer, &mut out);
    out
}

/// One line of the printed contents: two spaces per level below the first,
/// then a markdown link to the anchor.
pub open spec fn toc_line(level: u8, text: Seq<char>, anchor: Seq<char>) -> Seq<char> {
    Seq::new(if level >= 1 { 2 * (level - 1) } else { 0 } as nat, |_i: int| ' ') + seq!['-', ' ', '[']
        + text + seq![']', '(', '#'] + anchor + seq![')']
}

/// The lines for the headings at `depth` or above, in order.
pub open spec fn toc_lines_of(hs: Seq<Heading>, depth: u8) -> Seq<Seq<char>>
    decreases hs.len(),
{
    if hs.len() == 0 {
        seq![]
    } else {
        toc_lines_of(hs.drop_last(), depth) + (if hs.last().level <= depth {
            seq![toc_line(hs.last().level, hs.last().text@, hs.last().anchor@)]
        } else {
            seq![]
        })
    }
}

/// The contents list every heading at most `depth` deep and nothing else:
/// each such heading has its line, there are no more lines than headings,
/// and every line is that of some heading at most `depth` deep.
pub proof fn lemma_toc_lines_cover(hs: Seq<Heading>, depth: u8)
    ensures
        forall|i: int|
            0 <= i < hs.len() && #[trigger] hs[i].level <= depth ==> toc_lines_of(hs, depth).contains(
                toc_line(hs[i].level, hs[i].text@, hs[i].anchor@),
            ),
        toc_lines_of(hs, depth).len() <= hs.len(),
        forall|k: int|
            0 <= k < toc_lines_of(hs, depth).len() ==> exists|i: int|
                0 <= i < hs.len() && hs[i].level <= depth && #[trigger] toc_lines_of(hs, depth)[k] == toc_line(
                    hs[i].level,
                    hs[i].text@,
                    hs[i].anchor@,
                ),
    decreases hs.len(),
{
    if hs.len() > 0 {
        let p = hs.drop_last();
        lemma_toc_lines_cover(p, depth);
        let prev = toc_lines_of(p, depth);
        let all = toc_lines_of(hs, depth);
        let n = hs.len() - 1;
        assert forall|i: int|
            0 <= i < hs.len() && #[trigger] hs[i].level <= depth implies all.contains(
                toc_line(hs[i].level, hs[i].text@, hs[i].anchor@),
            ) by {
            let line = toc_line(hs[i].level, hs[i].text@, hs[i].anchor@);
            if i == n {
                assert(all[all.len() - 1] == line);
            } else {
                assert(p[i] == hs[i]);
                assert(prev.contains(line));
                let k = choose|k: int| 0 <= k < prev.len() && prev[k] == line;
                assert(all[k] == prev[k]);
            }
        }
        assert forall|k: int| 0 <= k < all.len() implies exists|i: int|
            0 <= i < hs.len() && hs[i].level <= depth && #[trigger] all[k] == toc_line(
                hs[i].level,
                hs[i].text@,
                hs[i].anchor@,
            ) by {
            if k < prev.len() {
                assert(all[k] == prev[k]);
                let i = choose|i: int|
                    0 <= i < p.len() && p[i].level <= depth && #[trigger] prev[k] == toc_line(
                        p[i].level,
                        p[i].text@,
                        p[i].anchor@,
                    );
                assert(p[i] == hs[i]);
            } else {
                assert(hs[n].level <= depth);
                assert(all[k] == toc_line(hs[n].level, hs[n].text@, hs[n].anchor@));
            }
        }
    }
}

/// The printed table of contents, one line per heading at most `depth`
/// deep.
pub fn toc_lines(headings: &Vec<Heading>, depth: u8) -> (r: Vec<String>)
    ensures
        r@.len() == toc_lines_of(headings@, depth).len(),
        forall|i: int| 0 <= i < r@.len() ==> #[trigger] r@[i]@ == toc_lines_of(headings@, depth)[i],
{
    let mut r: Vec<String> = Vec::new();
    let mut i: usize = 0;
    while i < headings.len()
        invariant
            i <= headings@.len(),
            r@.len() == toc_lines_of(headings@.take(i as int), depth).len(),
            forall|k: int| 0 <= k < r@.len() ==> #[trigger] r@[k]@ == toc_lines_of(headings@.take(i as int), depth)[k],
        decreases headings.len() - i,
    {
        proof {
            assert(headings@.take(i + 1).drop_last() =~= headings@.take(i as int));
        }
        let h = &headings[i];
        if h.level <= depth {
            let mut line: Vec<char> = Vec::new();
            let pad: usize = if h.level >= 1 { 2 * (h.level as usize - 1) } else { 0 };
            let mut k: usize = 0;
            while k < pad
                invariant
                    k <= pad,
                    line@ == Seq::new(k as nat, |_i: int| ' '),
                decreases pad - k,
            {
                line.push(' ');
                k = k + 1;
                assert(line@ =~= Seq::new(k as nat, |_i: int| ' '));
            }
            line.push('-');
            line.push(' ');
            line.push('[');
            extend_all(&mut line, &to_chars(h.text.as_str()));
            line.push(']');
            line.push('(');
            line.push('#');
            extend_all(&mut line, &to_chars(h.anchor.as_str()));
            line.push(')');
            assert(line@ =~= toc_line(h.level, h.text@, h.anchor@));
            r.push(from_chars(&line));
        }
        i = i + 1;
        proof {
            let prev = toc_lines_of(headings@.take(i - 1), depth);
            assert(toc_lines_of(headings@.take(i as int), depth) =~= prev + (if headings@[i - 1].level <= depth {
                seq![toc_line(headings@[i - 1].level, headings@[i - 1].text@, headings@[i - 1].anchor@)]
            } else {
                seq![]
            }));
        }
    }
    assert(headings@.take(i as int) =~= headings@);
    r
}

} // verus!
