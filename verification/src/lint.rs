//! Lint checks: stray trailing spaces in the source, and duplicate
//! headings, images without alt text and local links over the parsed tree.

use crate::ast::{node_children, node_line, node_link, node_literal, node_tag, spec_tree, MdTree, NodeTag};
use crate::strs::{
    extend_all, extend_str, find_char, find_char_in, from_chars, line_ranges, lines, seq_eq, slice_of,
    starts_with, starts_with_at, to_chars, trim, trimmed,
};
use comrak::nodes::AstNode;
use vstd::prelude::*;

verus! {

/// A lint finding: a 1-based line number and a message.
#[derive(Debug, Clone)]
pub struct Issue {
    pub line: usize,
    pub message: String,
}

/// A single trailing space (two spaces are a deliberate hard line break).
pub open spec fn has_stray_trailing_space(line: Seq<char>) -> bool {
    line.len() > 1 && line.last() == ' ' && line[line.len() - 2] != ' '
}

/// The 0-based indexes of the lines with a stray trailing space.
pub open spec fn stray_space_lines(ls: Seq<Seq<char>>) -> Seq<int>
    decreases ls.len(),
{
    if ls.len() == 0 {
        seq![]
    } else {
        stray_space_lines(ls.drop_last()) + (if has_stray_trailing_space(ls.last()) {
            seq![ls.len() - 1]
        } else {
            seq![]
        })
    }
}

/// Report every line that ends in a single space.
pub fn check_trailing_whitespace(content: &str, issues: &mut Vec<Issue>)
    ensures
        final(issues)@.len() == old(issues)@.len() + stray_space_lines(lines(content@)).len(),
        forall|k: int| 0 <= k < old(issues)@.len() ==> #[trigger] final(issues)@[k] == old(issues)@[k],
        forall|k: int|
            0 <= k < stray_space_lines(lines(content@)).len() ==> {
                &&& (#[trigger] final(issues)@[old(issues)@.len() + k]).line == stray_space_lines(
                    lines(content@),
                )[k] + 1
                &&& final(issues)@[old(issues)@.len() + k].message@ == "trailing whitespace"@
            },
{
    let cs = to_chars(content);
    let ranges = line_ranges(&cs);
    let ghost ls = lines(cs@);
    let ghost base = issues@;
    let mut i: usize = 0;
    while i < ranges.len()
        invariant
            i <= ranges@.len() == ls.len(),
            ls == lines(content@),
            cs@ == content@,
            forall|j: int|
                0 <= j < ranges@.len() ==> {
                    &&& (#[trigger] ranges@[j]).0 <= ranges@[j].1 <= cs@.len()
                    &&& cs@.subrange(ranges@[j].0 as int, ranges@[j].1 as int) == ls[j]
                },
            issues@.len() == base.len() + stray_space_lines(ls.take(i as int)).len(),
            forall|k: int| 0 <= k < base.len() ==> #[trigger] issues@[k] == base[k],
            forall|k: int|
                0 <= k < stray_space_lines(ls.take(i as int)).len() ==> {
                    &&& (#[trigger] issues@[base.len() + k]).line == stray_space_lines(
                        ls.take(i as int),
                    )[k] + 1
                    &&& issues@[base.len() + k].message@ == "trailing whitespace"@
                },
        decreases ranges.len() - i,
    {
        let (lo, hi) = ranges[i];
        let ghost line = ls[i as int];
        assert(ls.take(i + 1).drop_last() =~= ls.take(i as int));
        assert(ls.take(i + 1).last() == line);
        if hi - lo > 1 && cs[hi - 1] == ' ' && cs[hi - 2] != ' ' {
            assert(line.last() == cs@[hi - 1] && line[line.len() - 2] == cs@[hi - 2]);
            issues.push(Issue { line: i + 1, message: "trailing whitespace".to_string() });
        } else {
            proof {
                if line.len() > 1 {
                    assert(line.last() == cs@[hi - 1] && line[line.len() - 2] == cs@[hi - 2]);
                }
            }
        }
        i = i + 1;
    }
    assert(ls.take(i as int) =~= ls);
}

/// The line and message of each issue.
pub open spec fn issue_view(v: Seq<Issue>) -> Seq<(usize, Seq<char>)> {
    Seq::new(v.len(), |i: int| (v[i].line, v[i].message@))
}

fn push_issue(issues: &mut Vec<Issue>, line: usize, message: &[char])
    ensures
        issue_view(final(issues)@) == issue_view(old(issues)@).push((line, message@)),
{
    issues.push(Issue { line, message: from_chars(message) });
    assert(issue_view(issues@) =~= issue_view(old(issues)@).push((line, message@)));
}

// ---------------------------------------------------------------------------
// Text of a subtree
// ---------------------------------------------------------------------------

/// The text nodes of a subtree, concatenated in document order.
pub open spec fn text_of(t: MdTree) -> Seq<char>
    decreases t, 1nat,
{
    (if t.tag == NodeTag::Text { t.literal } else { seq![] }) + text_of_all(t.children)
}

/// The text nodes of a sequence of subtrees.
pub open spec fn text_of_all(ts: Seq<MdTree>) -> Seq<char>
    decreases ts, 0nat,
{
    if ts.len() == 0 {
        seq![]
    } else {
        text_of_all(ts.drop_last()) + text_of(ts.last())
    }
}

fn push_text<'a>(n: &'a AstNode<'a>, out: &mut Vec<char>)
    ensures
        final(out)@ == old(out)@ + text_of(spec_tree(n)),
    decreases spec_tree(n),
{
    let ghost t = spec_tree(n);
    let ghost start = out@;
    if node_tag(n) == NodeTag::Text {
        let lit = to_chars(node_literal(n).as_str());
        extend_all(out, &lit);
    }
    let ghost mid = out@;
    let kids = node_children(n);
    let mut i: usize = 0;
    while i < kids.len()
        invariant
            i <= kids@.len(),
            kids@.len() == t.children.len(),
            t == spec_tree(n),
            forall|k: int| 0 <= k < kids@.len() ==> spec_tree(#[trigger] kids@[k]) == t.children[k],
            out@ == mid + text_of_all(t.children.take(i as int)),
        decreases kids.len() - i,
    {
        proof {
            assert(decreases_to!(t => t.children));
            assert(decreases_to!(t.children => t.children[i as int]));
            assert(t.children.take(i + 1).drop_last() =~= t.children.take(i as int));
        }
        push_text(kids[i], out);
        i = i + 1;
    }
    assert(t.children.take(i as int) =~= t.children);
}

/// The text of a node's subtree (text nodes only).
pub fn extract_text<'a>(node: &'a AstNode<'a>) -> (r: String)
    ensures
        r@ == text_of(spec_tree(node)),
{
    let mut out: Vec<char> = Vec::new();
    push_text(node, &mut out);
    from_chars(&out)
}

// ---------------------------------------------------------------------------
// Duplicate headings
// ---------------------------------------------------------------------------

/// The texts seen so far and the issues found so far.
pub type DupScan = (Set<Seq<char>>, Seq<(usize, Seq<char>)>);

/// `duplicate heading: "text"`.
pub open spec fn duplicate_message(text: Seq<char>) -> Seq<char> {
    "duplicate heading: \""@ + text + seq!['"']
}

/// A heading with text is reported when its text was seen before, and
/// remembered otherwise.
pub open spec fn dup_visit(st: DupScan, t: MdTree) -> DupScan {
    if t.tag == NodeTag::Heading && text_of(t).len() > 0 {
        if st.0.contains(text_of(t)) {
            (st.0, st.1.push((t.line, duplicate_message(text_of(t)))))
        } else {
            (st.0.insert(text_of(t)), st.1)
        }
    } else {
        st
    }
}

/// The scan over a subtree in document order.
pub open spec fn dup_walk(st: DupScan, t: MdTree) -> DupScan
    decreases t, 1nat,
{
    dup_walk_all(dup_visit(st, t), t.children)
}

/// The scan over a sequence of subtrees.
pub open spec fn dup_walk_all(st: DupScan, ts: Seq<MdTree>) -> DupScan
    decreases ts, 0nat,
{
    if ts.len() == 0 {
        st
    } else {
        dup_walk(dup_walk_all(st, ts.drop_last()), ts.last())
    }
}

/// The set of texts held in `v`.
pub open spec fn text_set(v: Seq<Vec<char>>) -> Set<Seq<char>> {
    Set::new(|x: Seq<char>| exists|i: int| 0 <= i < v.len() && v[i]@ == x)
}

fn seen_contains(seen: &Vec<Vec<char>>, text: &[char]) -> (b: bool)
    ensures
        b == text_set(seen@).contains(text@),
{
    let mut i: usize = 0;
    while i < seen.len()
        invariant
            i <= seen@.len(),
            forall|k: int| 0 <= k < i ==> seen@[k]@ != text@,
        decreases seen.len() - i,
    {
        if seq_eq(&seen[i], text) {
            assert(seen@[i as int]@ == text@);
            return true;
        }
        i = i + 1;
    }
    false
}

fn dup_node<'a>(n: &'a AstNode<'a>, seen: &mut Vec<Vec<char>>, issues: &mut Vec<Issue>)
    ensures
        (text_set(final(seen)@), issue_view(final(issues)@)) == dup_walk(
            (text_set(old(seen)@), issue_view(old(issues)@)),
            spec_tree(n),
        ),
    decreases spec_tree(n),
{
    let ghost t = spec_tree(n);
    let ghost st0 = (text_set(seen@), issue_view(issues@));
    if node_tag(n) == NodeTag::Heading {
        let mut text: Vec<char> = Vec::new();
        push_text(n, &mut text);
        assert(text@ =~= text_of(t));
        if text.len() > 0 {
            if seen_contains(seen, &text) {
                let mut msg: Vec<char> = Vec::new();
                extend_str(&mut msg, "duplicate heading: \"");
                extend_all(&mut msg, &text);
                msg.push('"');
                assert(msg@ =~= duplicate_message(text_of(t)));
                push_issue(issues, node_line(n), &msg);
            } else {
                let ghost before = seen@;
                seen.push(text);
                proof {
                    assert(text_set(seen@) =~= text_set(before).insert(text_of(t))) by {
                        assert(seen@.last()@ == text_of(t));
                        assert forall|x: Seq<char>| #[trigger] text_set(seen@).contains(x) implies text_set(before).insert(text_of(t)).contains(x) by {
                            let i = choose|i: int| 0 <= i < seen@.len() && seen@[i]@ == x;
                            if i < before.len() {
                                assert(before[i]@ == x);
                            }
                        }
                        assert forall|x: Seq<char>| #[trigger] text_set(before).insert(text_of(t)).contains(x) implies text_set(seen@).contains(x) by {
                            if x == text_of(t) {
                                assert(seen@[before.len() as int]@ == x);
                            } else {
                                let i = choose|i: int| 0 <= i < before.len() && before[i]@ == x;
                                assert(seen@[i]@ == x);
                            }
                        }
                    }
                }
            }
        }
    }
    let ghost st1 = (text_set(seen@), issue_view(issues@));
    assert(st1 == dup_visit(st0, t));
    let kids = node_children(n);
    let mut i: usize = 0;
    while i < kids.len()
        invariant
            i <= kids@.len(),
            kids@.len() == t.children.len(),
            t == spec_tree(n),
            forall|k: int| 0 <= k < kids@.len() ==> spec_tree(#[trigger] kids@[k]) == t.children[k],
            (text_set(seen@), issue_view(issues@)) == dup_walk_all(st1, t.children.take(i as int)),
        decreases kids.len() - i,
    {
        proof {
            assert(decreases_to!(t => t.children));
            assert(decreases_to!(t.children => t.children[i as int]));
            assert(t.children.take(i + 1).drop_last() =~= t.children.take(i as int));
        }
        dup_node(kids[i], seen, issues);
        i = i + 1;
    }
    assert(t.children.take(i as int) =~= t.children);
}

/// Report every heading whose text repeats an earlier heading's.
pub fn check_duplicate_headings<'a>(root: &'a AstNode<'a>, issues: &mut Vec<Issue>)
    ensures
        issue_view(final(issues)@) == issue_view(old(issues)@) + dup_walk(
            (Set::empty(), seq![]),
            spec_tree(root),
        ).1,
{
    let mut seen: Vec<Vec<char>> = Vec::new();
    assert(text_set(seen@) =~= Set::empty());
    let ghost base = issue_view(issues@);
    let mut found: Vec<Issue> = Vec::new();
    dup_node(root, &mut seen, &mut found);
    assert(issue_view(found@) == dup_walk((Set::empty(), seq![]), spec_tree(root)).1) by {
        assert(issue_view(Seq::<Issue>::empty()) =~= seq![]);
    }
    let mut i: usize = 0;
    while i < found.len()
        invariant
            i <= found@.len(),
            issue_view(issues@) == base + issue_view(found@).take(i as int),
        decreases found.len() - i,
    {
        let line = found[i].line;
        let msg = to_chars(found[i].message.as_str());
        push_issue(issues, line, &msg);
        i = i + 1;
        assert(issue_view(issues@) =~= base + issue_view(found@).take(i as int));
    }
    assert(issue_view(found@).take(i as int) =~= issue_view(found@));
}

// ---------------------------------------------------------------------------
// Images without alt text
// ---------------------------------------------------------------------------

/// An image whose alt text is blank and which has no title is reported.
pub open spec fn alt_visit(acc: Seq<(usize, Seq<char>)>, t: MdTree) -> Seq<(usize, Seq<char>)> {
    if t.tag == NodeTag::Image && trim(text_of(t)).len() == 0 && t.title.len() == 0 {
        acc.push((t.line, "image missing alt text"@))
    } else {
        acc
    }
}

/// The alt-text scan over a subtree in document order.
pub open spec fn alt_walk(acc: Seq<(usize, Seq<char>)>, t: MdTree) -> Seq<(usize, Seq<char>)>
    decreases t, 1nat,
{
    alt_walk_all(alt_visit(acc, t), t.children)
}

/// The alt-text scan over a sequence of subtrees.
pub open spec fn alt_walk_all(acc: Seq<(usize, Seq<char>)>, ts: Seq<MdTree>) -> Seq<(usize, Seq<char>)>
    decreases ts, 0nat,
{
    if ts.len() == 0 {
        acc
    } else {
        alt_walk(alt_walk_all(acc, ts.drop_last()), ts.last())
    }
}

fn alt_node<'a>(n: &'a AstNode<'a>, issues: &mut Vec<Issue>)
    ensures
        issue_view(final(issues)@) == alt_walk(issue_view(old(issues)@), spec_tree(n)),
    decreases spec_tree(n),
{
    let ghost t = spec_tree(n);
    if node_tag(n) == NodeTag::Image {
        let mut alt: Vec<char> = Vec::new();
        push_text(n, &mut alt);
        assert(alt@ =~= text_of(t));
        let (_url, title) = node_link(n);
        let tt = to_chars(title.as_str());
        let trimmed_alt = trimmed(&alt);
        if trimmed_alt.len() == 0 && tt.len() == 0 {
            let msg = to_chars("image missing alt text");
            push_issue(issues, node_line(n), &msg);
        }
    }
    let ghost acc1 = issue_view(issues@);
    let kids = node_children(n);
    let mut i: usize = 0;
    while i < kids.len()
        invariant
            i <= kids@.len(),
            kids@.len() == t.children.len(),
            t == spec_tree(n),
            forall|k: int| 0 <= k < kids@.len() ==> spec_tree(#[trigger] kids@[k]) == t.children[k],
            issue_view(issues@) == alt_walk_all(acc1, t.children.take(i as int)),
        decreases kids.len() - i,
    {
        proof {
            assert(decreases_to!(t => t.children));
            assert(decreases_to!(t.children => t.children[i as int]));
            assert(t.children.take(i + 1).drop_last() =~= t.children.take(i as int));
        }
        alt_node(kids[i], issues);
        i = i + 1;
    }
    assert(t.children.take(i as int) =~= t.children);
}

/// Report every image with blank alt text and no title.
pub fn check_image_alt_text<'a>(root: &'a AstNode<'a>, issues: &mut Vec<Issue>)
    ensures
        issue_view(final(issues)@) == alt_walk(issue_view(old(issues)@), spec_tree(root)),
{
    alt_node(root, issues);
}

// ---------------------------------------------------------------------------
// Local links
// ---------------------------------------------------------------------------

/// A local link to check on disk: its line, its destination, and the path
/// part of the destination (before any `#`).
#[derive(Debug, Clone)]
pub struct LinkCheck {
    pub line: usize,
    pub url: String,
    pub path: String,
}

/// Destinations that are not web, mail or in-page links are local files.
pub open spec fn is_local_link(url: Seq<char>) -> bool {
    !starts_with(url, "http://"@) && !starts_with(url, "https://"@) && !starts_with(url, seq!['#'])
        && !starts_with(url, "mailto:"@)
}

/// The destination up to its first `#`.
pub open spec fn path_part(url: Seq<char>) -> Seq<char> {
    match find_char(url, '#') {
        Some(i) => url.take(i),
        None => url,
    }
}

/// A link with a local destination and a non-empty path is checked.
pub open spec fn link_visit(acc: Seq<(usize, Seq<char>, Seq<char>)>, t: MdTree) -> Seq<(usize, Seq<char>, Seq<char>)> {
    if t.tag == NodeTag::Link && is_local_link(t.url) && path_part(t.url).len() > 0 {
        acc.push((t.line, t.url, path_part(t.url)))
    } else {
        acc
    }
}

/// The link scan over a subtree in document order.
pub open spec fn link_walk(acc: Seq<(usize, Seq<char>, Seq<char>)>, t: MdTree) -> Seq<(usize, Seq<char>, Seq<char>)>
    decreases t, 1nat,
{
    link_walk_all(link_visit(acc, t), t.children)
}

/// The link scan over a sequence of subtrees.
pub open spec fn link_walk_all(acc: Seq<(usize, Seq<char>, Seq<char>)>, ts: Seq<MdTree>) -> Seq<(usize, Seq<char>, Seq<char>)>
    decreases ts, 0nat,
{
    if ts.len() == 0 {
        acc
    } else {
        link_walk(link_walk_all(acc, ts.drop_last()), ts.last())
    }
}

/// The line, destination and path of each check.
pub open spec fn check_view(v: Seq<LinkCheck>) -> Seq<(usize, Seq<char>, Seq<char>)> {
    Seq::new(v.len(), |i: int| (v[i].line, v[i].url@, v[i].path@))
}

/// A destination on the web, in the page or to a mail address:
/// `http://…`, `https://…`, `#…` or `mailto:…`.
pub open spec fn not_on_disk(u: Seq<char>) -> bool {
    ||| u.len() >= 7 && u.subrange(0, 7) == seq!['h', 't', 't', 'p', ':', '/', '/']
    ||| u.len() >= 8 && u.subrange(0, 8) == seq!['h', 't', 't', 'p', 's', ':', '/', '/']
    ||| u.len() >= 1 && u[0] == '#'
    ||| u.len() >= 7 && u.subrange(0, 7) == seq!['m', 'a', 'i', 'l', 't', 'o', ':']
}

/// The checks of a scan: each a local destination with a path.
pub open spec fn only_local(v: Seq<(usize, Seq<char>, Seq<char>)>) -> bool {
    forall|k: int| 0 <= k < v.len() ==> !not_on_disk(#[trigger] v[k].1) && v[k].2.len() > 0
}

proof fn lemma_not_on_disk_not_local(u: Seq<char>)
    ensures
        not_on_disk(u) ==> !is_local_link(u),
{
    reveal_strlit("http://");
    reveal_strlit("https://");
    reveal_strlit("mailto:");
    assert("http://"@ =~= seq!['h', 't', 't', 'p', ':', '/', '/']);
    assert("https://"@ =~= seq!['h', 't', 't', 'p', 's', ':', '/', '/']);
    assert("mailto:"@ =~= seq!['m', 'a', 'i', 'l', 't', 'o', ':']);
    if u.len() >= 1 && u[0] == '#' {
        assert(u.subrange(0, 1) =~= seq!['#']);
    }
}

proof fn lemma_link_walk_local(acc: Seq<(usize, Seq<char>, Seq<char>)>, t: MdTree)
    requires
        only_local(acc),
    ensures
        only_local(link_walk(acc, t)),
    decreases t, 1nat,
{
    lemma_not_on_disk_not_local(t.url);
    let a1 = link_visit(acc, t);
    assert(only_local(a1)) by {
        if a1 != acc {
            assert forall|k: int| 0 <= k < a1.len() implies !not_on_disk(#[trigger] a1[k].1) && a1[k].2.len() > 0 by {
                if k < acc.len() {
                    assert(a1[k] == acc[k]);
                }
            }
        }
    }
    lemma_link_walk_all_local(a1, t.children);
}

proof fn lemma_link_walk_all_local(acc: Seq<(usize, Seq<char>, Seq<char>)>, ts: Seq<MdTree>)
    requires
        only_local(acc),
    ensures
        only_local(link_walk_all(acc, ts)),
    decreases ts, 0nat,
{
    if ts.len() > 0 {
        lemma_link_walk_all_local(acc, ts.drop_last());
        lemma_link_walk_local(link_walk_all(acc, ts.drop_last()), ts.last());
    }
}

/// Web, in-page and mail links are never checked on disk: no destination
/// in a document's link checks starts with `http://`, `https://`, `#` or
/// `mailto:`, and each check has a path to look up.
pub proof fn lemma_link_checks_local_only(t: MdTree)
    ensures
        forall|k: int|
            0 <= k < link_walk(seq![], t).len() ==> !not_on_disk(#[trigger] link_walk(seq![], t)[k].1)
                && link_walk(seq![], t)[k].2.len() > 0,
{
    let e = Seq::<(usize, Seq<char>, Seq<char>)>::empty();
    assert(only_local(e));
    lemma_link_walk_local(e, t);
    let r = link_walk(e, t);
    assert forall|k: int| 0 <= k < r.len() implies !not_on_disk(#[trigger] r[k].1) && r[k].2.len() > 0 by {}
}

fn link_node<'a>(n: &'a AstNode<'a>, checks: &mut Vec<LinkCheck>)
    ensures
        check_view(final(checks)@) == link_walk(check_view(old(checks)@), spec_tree(n)),
    decreases spec_tree(n),
{
    let ghost t = spec_tree(n);
    if node_tag(n) == NodeTag::Link {
        let (url, _title) = node_link(n);
        let u = to_chars(url.as_str());
        let local = !starts_with_at(&u, &to_chars("http://")) && !starts_with_at(&u, &to_chars("https://"))
            && !(u.len() > 0 && u[0] == '#') && !starts_with_at(&u, &to_chars("mailto:"));
        proof {
            if u@.len() > 0 {
                if starts_with(u@, seq!['#']) {
                    assert(u@.subrange(0, 1)[0] == seq!['#'][0]);
                }
                if u@[0] == '#' {
                    assert(u@.subrange(0, 1) =~= seq!['#']);
                }
            } else {
                assert(!starts_with(u@, seq!['#']));
            }
        }
        if local {
            let end = match find_char_in(&u, '#', 0) {
                Some(i) => i,
                None => u.len(),
            };
            let path = slice_of(&u, 0, end);
            proof {
                assert(u@.skip(0) =~= u@);
                assert(path@ =~= path_part(u@));
            }
            if path.len() > 0 {
                let ghost before = check_view(checks@);
                checks.push(LinkCheck { line: node_line(n), url, path: from_chars(&path) });
                assert(check_view(checks@) =~= before.push((t.line, t.url, path_part(t.url))));
            }
        }
    }
    let ghost acc1 = check_view(checks@);
    let kids = node_children(n);
    let mut i: usize = 0;
    while i < kids.len()
        invariant
            i <= kids@.len(),
            kids@.len() == t.children.len(),
            t == spec_tree(n),
            forall|k: int| 0 <= k < kids@.len() ==> spec_tree(#[trigger] kids@[k]) == t.children[k],
            check_view(checks@) == link_walk_all(acc1, t.children.take(i as int)),
        decreases kids.len() - i,
    {
        proof {
            assert(decreases_to!(t => t.children));
            assert(decreases_to!(t.children => t.children[i as int]));
            assert(t.children.take(i + 1).drop_last() =~= t.children.take(i as int));
        }
        link_node(kids[i], checks);
        i = i + 1;
    }
    assert(t.children.take(i as int) =~= t.children);
}

/// The local links of a document, in order, that need a file on disk.
pub fn link_checks<'a>(root: &'a AstNode<'a>) -> (r: Vec<LinkCheck>)
    ensures
        check_view(r@) == link_walk(seq![], spec_tree(root)),
{
    let mut checks: Vec<LinkCheck> = Vec::new();
    assert(check_view(checks@) =~= seq![]);
    link_node(root, &mut checks);
    checks
}

/// `broken link: url`.
pub open spec fn broken_message(url: Seq<char>) -> Seq<char> {
    "broken link: "@ + url
}

/// The issues for the checks whose target is missing, in order.
pub open spec fn broken_issues(checks: Seq<(usize, Seq<char>, Seq<char>)>, exists: Seq<bool>) -> Seq<(usize, Seq<char>)>
    decreases checks.len(),
{
    if checks.len() == 0 {
        seq![]
    } else {
        broken_issues(checks.drop_last(), exists.take(exists.len() - 1)) + (if exists.last() {
            seq![]
        } else {
            seq![(checks.last().0, broken_message(checks.last().1))]
        })
    }
}

/// Report each checked link whose target does not exist; `exists[i]`
/// says whether the target of `checks[i]` was found.
pub fn check_broken_links(checks: &Vec<LinkCheck>, exists: &Vec<bool>, issues: &mut Vec<Issue>)
    requires
        exists@.len() == checks@.len(),
    ensures
        issue_view(final(issues)@) == issue_view(old(issues)@) + broken_issues(check_view(checks@), exists@),
{
    let ghost base = issue_view(issues@);
    let mut i: usize = 0;
    while i < checks.len()
        invariant
            i <= checks@.len() == exists@.len(),
            issue_view(issues@) == base + broken_issues(check_view(checks@).take(i as int), exists@.take(i as int)),
        decreases checks.len() - i,
    {
        proof {
            let cv = check_view(checks@);
            assert(cv.take(i + 1).drop_last() =~= cv.take(i as int));
            assert(exists@.take(i + 1).take(i as int) =~= exists@.take(i as int));
        }
        if !exists[i] {
            let mut msg: Vec<char> = Vec::new();
            extend_str(&mut msg, "broken link: ");
            let u = to_chars(checks[i].url.as_str());
            extend_all(&mut msg, &u);
            push_issue(issues, checks[i].line, &msg);
        }
        i = i + 1;
    }
    assert(check_view(checks@).take(i as int) =~= check_view(checks@));
    assert(exists@.take(i as int) =~= exists@);
}

// ---------------------------------------------------------------------------
// The report
// ---------------------------------------------------------------------------

/// The trailing-whitespace issues of a text, as plain values.
pub open spec fn trailing_issues(content: Seq<char>) -> Seq<(usize, Seq<char>)> {
    stray_space_lines(lines(content)).map_values(|l: int| ((l + 1) as usize, "trailing whitespace"@))
}

/// `x` placed after every issue whose line is not after its own.
pub open spec fn insert_by_line(s: Seq<(usize, Seq<char>)>, x: (usize, Seq<char>)) -> Seq<(usize, Seq<char>)>
    decreases s.len(),
{
    if s.len() == 0 {
        seq![x]
    } else if s.last().0 <= x.0 {
        s.push(x)
    } else {
        insert_by_line(s.drop_last(), x).push(s.last())
    }
}

/// Issues in line order, issues on the same line in the order they came:
/// a stable sort by line.
pub open spec fn sorted_by_line(s: Seq<(usize, Seq<char>)>) -> Seq<(usize, Seq<char>)>
    decreases s.len(),
{
    if s.len() == 0 {
        seq![]
    } else {
        insert_by_line(sorted_by_line(s.drop_last()), s.last())
    }
}

proof fn lemma_insert_at(s: Seq<(usize, Seq<char>)>, x: (usize, Seq<char>), p: int)
    requires
        0 <= p <= s.len(),
        forall|k: int| p <= k < s.len() ==> s[k].0 > x.0,
        p > 0 ==> s[p - 1].0 <= x.0,
    ensures
        insert_by_line(s, x) == s.insert(p, x),
    decreases s.len(),
{
    if s.len() == 0 {
        assert(s.insert(p, x) =~= seq![x]);
    } else if s.last().0 <= x.0 {
        assert(p == s.len());
        assert(s.insert(p, x) =~= s.push(x));
    } else {
        lemma_insert_at(s.drop_last(), x, p);
        assert(s.insert(p, x) =~= s.drop_last().insert(p, x).push(s.last()));
    }
}

/// Sort issues by line, keeping the order of issues on the same line.
pub fn sort_issues(issues: &mut Vec<Issue>)
    ensures
        issue_view(final(issues)@) == sorted_by_line(issue_view(old(issues)@)),
{
    let mut src: Vec<Issue> = Vec::new();
    std::mem::swap(&mut src, issues);
    let ghost orig = issue_view(src@);
    let mut out: Vec<Issue> = Vec::new();
    let ghost mut k: int = 0;
    assert(orig.take(0) =~= Seq::<(usize, Seq<char>)>::empty());
    assert(issue_view(src@) =~= orig.skip(0));
    while src.len() > 0
        invariant
            0 <= k <= orig.len(),
            issue_view(out@) == sorted_by_line(orig.take(k)),
            issue_view(src@) == orig.skip(k),
        decreases src.len(),
    {
        let ghost old_src = src@;
        proof {
            assert(issue_view(old_src).len() == orig.skip(k).len());
            assert(k < orig.len());
        }
        let x = src.remove(0);
        proof {
            assert(issue_view(old_src)[0] == orig.skip(k)[0]);
            assert(orig.skip(k)[0] == (x.line, x.message@));
            assert forall|q: int| 0 <= q < issue_view(src@).len() implies #[trigger] issue_view(src@)[q] == orig.skip(k + 1)[q] by {
                assert(src@[q] == old_src[q + 1]);
                assert(issue_view(old_src)[q + 1] == orig.skip(k)[q + 1]);
            }
            assert(issue_view(src@) =~= orig.skip(k + 1));
        }
        let mut p: usize = out.len();
        while p > 0 && out[p - 1].line > x.line
            invariant
                p <= out@.len(),
                forall|q: int| p <= q < out@.len() ==> #[trigger] out@[q].line > x.line,
            decreases p,
        {
            p = p - 1;
        }
        let ghost before = issue_view(out@);
        proof {
            lemma_insert_at(before, (x.line, x.message@), p as int);
            let t = orig.take(k + 1);
            assert(t.drop_last() =~= orig.take(k));
            assert(t.last() == (x.line, x.message@));
        }
        out.insert(p, x);
        proof {
            assert(issue_view(out@) =~= before.insert(p as int, (x.line, x.message@)));
            k = k + 1;
        }
    }
    assert(orig.take(k) =~= orig);
    *issues = out;
}

/// Every issue of a document in line order: broken local links (`exists`
/// tells, for each of `checks`, whether its file is there), repeated
/// headings, images without alt text, then trailing whitespace, sorted
/// stably by line.
pub fn lint_issues<'a>(root: &'a AstNode<'a>, content: &str, checks: &Vec<LinkCheck>, exists: &Vec<bool>) -> (r: Vec<Issue>)
    requires
        exists@.len() == checks@.len(),
    ensures
        issue_view(r@) == sorted_by_line(
            alt_walk(
                broken_issues(check_view(checks@), exists@) + dup_walk((Set::empty(), seq![]), spec_tree(root)).1,
                spec_tree(root),
            ) + trailing_issues(content@),
        ),
{
    let mut issues: Vec<Issue> = Vec::new();
    assert(issue_view(issues@) =~= Seq::<(usize, Seq<char>)>::empty());
    check_broken_links(checks, exists, &mut issues);
    check_duplicate_headings(root, &mut issues);
    check_image_alt_text(root, &mut issues);
    let ghost before = issue_view(issues@);
    let ghost old_issues = issues@;
    let ghost old_len = issues@.len();
    check_trailing_whitespace(content, &mut issues);
    proof {
        let t = trailing_issues(content@);
        assert forall|k: int| 0 <= k < old_len implies #[trigger] issue_view(issues@)[k] == before[k] by {
            assert(issues@[k] == old_issues[k]);
        }
        assert forall|k: int| 0 <= k < t.len() implies #[trigger] issue_view(issues@)[old_len + k] == t[k] by {
            assert(issues@[old_len + k].message@ == "trailing whitespace"@);
        }
        assert forall|k: int| 0 <= k < issue_view(issues@).len() implies #[trigger] issue_view(issues@)[k] == (before + t)[k] by {
            if k < old_len {
                assert(issue_view(issues@)[k] == before[k]);
            } else {
                assert(issue_view(issues@)[old_len + (k - old_len)] == t[k - old_len]);
            }
        }
        assert(issue_view(issues@) =~= before + t);
    }
    sort_issues(&mut issues);
    issues
}

/// Where `insert_by_line` puts `x`: after the last issue not after it.
pub open spec fn ins_pos(s: Seq<(usize, Seq<char>)>, x: (usize, Seq<char>)) -> int
    decreases s.len(),
{
    if s.len() == 0 {
        0
    } else if s.last().0 <= x.0 {
        s.len() as int
    } else {
        ins_pos(s.drop_last(), x)
    }
}

proof fn lemma_ins_pos(s: Seq<(usize, Seq<char>)>, x: (usize, Seq<char>))
    ensures
        0 <= ins_pos(s, x) <= s.len(),
        forall|k: int| ins_pos(s, x) <= k < s.len() ==> s[k].0 > x.0,
        ins_pos(s, x) > 0 ==> s[ins_pos(s, x) - 1].0 <= x.0,
        insert_by_line(s, x) == s.insert(ins_pos(s, x), x),
    decreases s.len(),
{
    if s.len() > 0 && !(s.last().0 <= x.0) {
        lemma_ins_pos(s.drop_last(), x);
        assert forall|k: int| ins_pos(s, x) <= k < s.len() implies s[k].0 > x.0 by {
            if k < s.len() - 1 {
                assert(s.drop_last()[k] == s[k]);
            }
        }
        if ins_pos(s, x) > 0 {
            assert(s.drop_last()[ins_pos(s, x) - 1] == s[ins_pos(s, x) - 1]);
        }
    }
    lemma_insert_at(s, x, ins_pos(s, x));
}

/// Issues are in line order.
pub open spec fn line_sorted(s: Seq<(usize, Seq<char>)>) -> bool {
    forall|i: int, j: int| 0 <= i < j < s.len() ==> s[i].0 <= s[j].0
}

/// Sorting the issues puts them in line order and keeps every one of them,
/// as often as it occurred.
pub proof fn lemma_sorted_by_line(s: Seq<(usize, Seq<char>)>)
    ensures
        line_sorted(sorted_by_line(s)),
        sorted_by_line(s).to_multiset() == s.to_multiset(),
    decreases s.len(),
{
    broadcast use vstd::seq_lib::to_multiset_insert, vstd::seq_lib::to_multiset_build;
    if s.len() > 0 {
        let r = sorted_by_line(s.drop_last());
        let x = s.last();
        lemma_sorted_by_line(s.drop_last());
        lemma_ins_pos(r, x);
        let p = ins_pos(r, x);
        let t = r.insert(p, x);
        assert forall|i: int, j: int| 0 <= i < j < t.len() implies t[i].0 <= t[j].0 by {
            if j < p {
                assert(t[i] == r[i] && t[j] == r[j]);
            } else if j == p {
                if i < p {
                    assert(r[i].0 <= r[p - 1].0);
                }
            } else if i < p {
                assert(r[i].0 <= r[p - 1].0);
                assert(t[j] == r[j - 1]);
            } else if i == p {
                assert(t[j] == r[j - 1]);
            } else {
                assert(t[i] == r[i - 1] && t[j] == r[j - 1]);
            }
        }
        assert(s =~= s.drop_last().push(x));
        assert(sorted_by_line(s) == t);
        assert(t.to_multiset() == r.to_multiset().insert(x));
        assert(s.drop_last().push(x).to_multiset() == s.drop_last().to_multiset().insert(x));
    } else {
        assert(sorted_by_line(s) =~= s);
    }
}

} // verus!


