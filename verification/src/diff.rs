//! `mdx diff`: the line changes between two texts, laid out as a colored
//! unified diff or as two columns side by side.

use crate::strs::{from_chars, to_chars, extend_all};
use crate::text::{pad_to_width, spaces_of, spec_pad, spec_truncate, truncate_to_width, repeat_vec, Alignment};
use vstd::prelude::*;

verus! {

/// What happened to a line.
#[derive(Debug, Clone, Copy, PartialEq, Eq, Structural)]
pub enum ChangeKind {
    /// In both texts.
    Equal,
    /// Only in the old text.
    Delete,
    /// Only in the new text.
    Insert,
}

/// One line of a diff, with its line ending as the text had it.
#[derive(Debug, Clone)]
pub struct LineChange {
    pub kind: ChangeKind,
    pub line: String,
}

/// A hunk of a unified diff: its range header and its lines.
#[derive(Debug, Clone)]
pub struct Hunk {
    pub header: String,
    pub changes: Vec<LineChange>,
}

/// A change as plain values.
pub open spec fn change_view(c: LineChange) -> (ChangeKind, Seq<char>) {
    (c.kind, c.line@)
}

/// Changes as plain values.
pub open spec fn changes_view(v: Seq<LineChange>) -> Seq<(ChangeKind, Seq<char>)> {
    v.map_values(|c: LineChange| change_view(c))
}

/// Hunks as plain values.
pub open spec fn hunks_view(v: Seq<Hunk>) -> Seq<(Seq<char>, Seq<(ChangeKind, Seq<char>)>)> {
    v.map_values(|h: Hunk| (h.header@, changes_view(h.changes@)))
}

/// Lines as plain values.
pub open spec fn lines_view(v: Seq<String>) -> Seq<Seq<char>> {
    v.map_values(|s: String| s@)
}

/// What `similar` finds between the lines of two texts, every line in order.
pub uninterp spec fn spec_line_diff(old: Seq<char>, new: Seq<char>) -> Seq<(ChangeKind, Seq<char>)>;

/// The hunks of `similar`'s unified diff of two texts with `radius` lines
/// of context; each header is the hunk's `@@ -a,b +c,d @@` line.
pub uninterp spec fn spec_unified_hunks(old: Seq<char>, new: Seq<char>, radius: usize) -> Seq<(Seq<char>, Seq<(ChangeKind, Seq<char>)>)>;

/// `similar::TextDiff::from_lines(old, new).iter_all_changes()`, each change
/// copied out with its kind and its line. The default configuration has no
/// deadline, so the result depends on the two texts alone; the contract
/// names it.
#[verifier::external_body]
fn line_diff(old: &str, new: &str) -> (r: Vec<LineChange>)
    ensures
        changes_view(r@) == spec_line_diff(old@, new@),
{
    let diff = similar::TextDiff::from_lines(old, new);
    let mut out = Vec::new();
    for c in diff.iter_all_changes() {
        let kind = match c.tag() {
            similar::ChangeTag::Equal => ChangeKind::Equal,
            similar::ChangeTag::Delete => ChangeKind::Delete,
            similar::ChangeTag::Insert => ChangeKind::Insert,
        };
        out.push(LineChange { kind, line: c.value().to_string() });
    }
    out
}

/// `similar`'s unified diff of two texts with `radius` lines of context:
/// each hunk's header (`UnifiedDiffHunk::header`, displayed) and its
/// changes. The contract names the result.
#[verifier::external_body]
fn unified_hunks(old: &str, new: &str, radius: usize) -> (r: Vec<Hunk>)
    ensures
        hunks_view(r@) == spec_unified_hunks(old@, new@, radius),
{
    let diff = similar::TextDiff::from_lines(old, new);
    let mut out = Vec::new();
    for h in diff.unified_diff().context_radius(radius).iter_hunks() {
        let changes = h.iter_changes().map(|c| LineChange { kind: match c.tag() {
            similar::ChangeTag::Equal => ChangeKind::Equal,
            similar::ChangeTag::Delete => ChangeKind::Delete,
            similar::ChangeTag::Insert => ChangeKind::Insert,
        }, line: c.value().to_string() }).collect();
        out.push(Hunk { header: h.header().to_string(), changes });
    }
    out
}

// ---------------------------------------------------------------------------
// Colors
// ---------------------------------------------------------------------------

/// An SGR escape with a one-character code.
pub open spec fn sgr1(a: char) -> Seq<char> {
    seq!['\u{1b}', '[', a, 'm']
}

/// An SGR escape with a two-character code.
pub open spec fn sgr2(a: char, b: char) -> Seq<char> {
    seq!['\u{1b}', '[', a, b, 'm']
}

/// The escape that ends a colored run.
pub open spec fn reset() -> Seq<char> {
    sgr1('0')
}

fn push_sgr1(out: &mut Vec<char>, a: char)
    ensures
        final(out)@ == old(out)@ + sgr1(a),
{
    out.push('\u{1b}');
    out.push('[');
    out.push(a);
    out.push('m');
}

fn push_sgr2(out: &mut Vec<char>, a: char, b: char)
    ensures
        final(out)@ == old(out)@ + sgr2(a, b),
{
    out.push('\u{1b}');
    out.push('[');
    out.push(a);
    out.push(b);
    out.push('m');
}

/// A line without its final newline, if it has one.
pub open spec fn strip_newline(s: Seq<char>) -> Seq<char> {
    if s.len() > 0 && s.last() == '\n' { s.drop_last() } else { s }
}

fn line_body(s: &str) -> (r: Vec<char>)
    ensures
        r@ == strip_newline(s@),
{
    let mut v = to_chars(s);
    if v.len() > 0 && v[v.len() - 1] == '\n' {
        v.pop();
    }
    v
}

// ---------------------------------------------------------------------------
// Unified layout
// ---------------------------------------------------------------------------

/// One change line of the unified layout: red `-`, green `+` or gray
/// space, then the line.
pub open spec fn unified_change_line(kind: ChangeKind, line: Seq<char>) -> Seq<char> {
    match kind {
        ChangeKind::Delete => sgr2('3', '1') + seq!['-'] + strip_newline(line) + reset(),
        ChangeKind::Insert => sgr2('3', '2') + seq!['+'] + strip_newline(line) + reset(),
        ChangeKind::Equal => sgr2('9', '0') + seq![' '] + strip_newline(line) + reset(),
    }
}

/// The header line of a hunk, in cyan.
pub open spec fn hunk_header_line(header: Seq<char>) -> Seq<char> {
    sgr2('3', '6') + seq!['@', '@', ' '] + header + seq![' ', '@', '@'] + reset()
}

/// A hunk's lines: its header, then each change.
pub open spec fn hunk_lines(h: (Seq<char>, Seq<(ChangeKind, Seq<char>)>)) -> Seq<Seq<char>> {
    seq![hunk_header_line(h.0)] + h.1.map_values(|c: (ChangeKind, Seq<char>)| unified_change_line(c.0, c.1))
}

/// The lines of all hunks in order.
pub open spec fn all_hunk_lines(hs: Seq<(Seq<char>, Seq<(ChangeKind, Seq<char>)>)>) -> Seq<Seq<char>>
    decreases hs.len(),
{
    if hs.len() == 0 {
        seq![]
    } else {
        all_hunk_lines(hs.drop_last()) + hunk_lines(hs.last())
    }
}

/// The unified layout: the two names in bold after `---` and `+++`, then
/// every hunk.
pub open spec fn spec_unified_lines(
    name_a: Seq<char>,
    name_b: Seq<char>,
    hs: Seq<(Seq<char>, Seq<(ChangeKind, Seq<char>)>)>,
) -> Seq<Seq<char>> {
    seq![
        sgr1('1') + seq!['-', '-', '-', ' '] + name_a + reset(),
        sgr1('1') + seq!['+', '+', '+', ' '] + name_b + reset(),
    ] + all_hunk_lines(hs)
}

fn unified_change(c: &LineChange) -> (r: String)
    ensures
        r@ == unified_change_line(c.kind, c.line@),
{
    let mut out: Vec<char> = Vec::new();
    match c.kind {
        ChangeKind::Delete => {
            push_sgr2(&mut out, '3', '1');
            out.push('-');
        },
        ChangeKind::Insert => {
            push_sgr2(&mut out, '3', '2');
            out.push('+');
        },
        ChangeKind::Equal => {
            push_sgr2(&mut out, '9', '0');
            out.push(' ');
        },
    }
    let body = line_body(c.line.as_str());
    extend_all(&mut out, &body);
    push_sgr1(&mut out, '0');
    from_chars(&out)
}

/// Lay out hunks as a colored unified diff.
pub fn unified_lines(name_a: &str, name_b: &str, hunks: &Vec<Hunk>) -> (r: Vec<String>)
    ensures
        lines_view(r@) == spec_unified_lines(name_a@, name_b@, hunks_view(hunks@)),
{
    let mut out: Vec<String> = Vec::new();
    let mut l: Vec<char> = Vec::new();
    push_sgr1(&mut l, '1');
    l.push('-');
    l.push('-');
    l.push('-');
    l.push(' ');
    extend_all(&mut l, &to_chars(name_a));
    push_sgr1(&mut l, '0');
    out.push(from_chars(&l));
    let mut l2: Vec<char> = Vec::new();
    push_sgr1(&mut l2, '1');
    l2.push('+');
    l2.push('+');
    l2.push('+');
    l2.push(' ');
    extend_all(&mut l2, &to_chars(name_b));
    push_sgr1(&mut l2, '0');
    out.push(from_chars(&l2));
    let ghost hs = hunks_view(hunks@);
    let ghost head = lines_view(out@);
    proof {
        assert(l@ =~= sgr1('1') + seq!['-', '-', '-', ' '] + name_a@ + reset());
        assert(l2@ =~= sgr1('1') + seq!['+', '+', '+', ' '] + name_b@ + reset());
        assert(head =~= seq![l@, l2@]);
    }
    assert(hs.take(0) =~= Seq::<(Seq<char>, Seq<(ChangeKind, Seq<char>)>)>::empty());
    assert(head + all_hunk_lines(hs.take(0)) =~= head);
    let mut i: usize = 0;
    while i < hunks.len()
        invariant
            i <= hunks@.len(),
            hs == hunks_view(hunks@),
            lines_view(out@) == head + all_hunk_lines(hs.take(i as int)),
        decreases hunks.len() - i,
    {
        let h = &hunks[i];
        let mut hl: Vec<char> = Vec::new();
        push_sgr2(&mut hl, '3', '6');
        hl.push('@');
        hl.push('@');
        hl.push(' ');
        extend_all(&mut hl, &to_chars(h.header.as_str()));
        hl.push(' ');
        hl.push('@');
        hl.push('@');
        push_sgr1(&mut hl, '0');
        let ghost before = lines_view(out@);
        out.push(from_chars(&hl));
        let ghost cs = changes_view(h.changes@);
        proof {
            assert(hl@ =~= hunk_header_line(h.header@));
            assert(cs.take(0).map_values(|c: (ChangeKind, Seq<char>)| unified_change_line(c.0, c.1))
                =~= Seq::<Seq<char>>::empty());
            assert(lines_view(out@) =~= before + seq![hunk_header_line(h.header@)]
                + cs.take(0).map_values(|c: (ChangeKind, Seq<char>)| unified_change_line(c.0, c.1)));
        }
        let mut j: usize = 0;
        while j < h.changes.len()
            invariant
                j <= h.changes@.len(),
                cs == changes_view(h.changes@),
                lines_view(out@) == before + seq![hunk_header_line(h.header@)]
                    + cs.take(j as int).map_values(|c: (ChangeKind, Seq<char>)| unified_change_line(c.0, c.1)),
            decreases h.changes.len() - j,
        {
            let line = unified_change(&h.changes[j]);
            let ghost prev = lines_view(out@);
            out.push(line);
            assert(lines_view(out@) =~= prev.push(line@));
            assert(cs.take(j + 1).map_values(|c: (ChangeKind, Seq<char>)| unified_change_line(c.0, c.1))
                =~= cs.take(j as int).map_values(|c: (ChangeKind, Seq<char>)| unified_change_line(c.0, c.1))
                    .push(unified_change_line(h.changes@[j as int].kind, h.changes@[j as int].line@)));
            j = j + 1;
        }
        proof {
            assert(cs.take(j as int) =~= cs);
            let t = hs.take(i + 1);
            assert(t.drop_last() =~= hs.take(i as int));
            assert(t.last() == (h.header@, cs));
            assert(lines_view(out@) =~= head + all_hunk_lines(hs.take(i + 1)));
        }
        i = i + 1;
    }
    assert(hs.take(i as int) =~= hs);
    out
}

// ---------------------------------------------------------------------------
// Side-by-side layout
// ---------------------------------------------------------------------------

/// The column separator.
pub open spec fn bar() -> Seq<char> {
    seq![' ', '|', ' ']
}

/// One change in two columns `col` wide: a kept line in gray on both
/// sides, a removed line in red on the left, an added line in green on the
/// right; lines too wide are cut to the column.
pub open spec fn side_change_line(kind: ChangeKind, line: Seq<char>, col: int) -> Seq<char> {
    let l = spec_truncate(strip_newline(line), col);
    match kind {
        ChangeKind::Equal => sgr2('9', '0') + spec_pad(l, col, Alignment::Left) + reset() + bar() + sgr2('9', '0') + l + reset(),
        ChangeKind::Delete => sgr2('3', '1') + spec_pad(l, col, Alignment::Left) + reset() + bar(),
        ChangeKind::Insert => spaces_of(' ', col as nat) + bar() + sgr2('3', '2') + l + reset(),
    }
}

/// The side-by-side layout for a terminal `width` columns wide: the two
/// names in bold over their columns, a rule, then every change.
pub open spec fn spec_side_by_side(
    name_a: Seq<char>,
    name_b: Seq<char>,
    changes: Seq<(ChangeKind, Seq<char>)>,
    width: int,
) -> Seq<Seq<char>> {
    let col = (width - 3) / 2;
    let rule_len = if width <= col * 2 + 3 { width } else { col * 2 + 3 };
    seq![
        sgr1('1') + spec_pad(spec_truncate(name_a, col), col, Alignment::Left) + reset() + bar() + sgr1('1')
            + spec_truncate(name_b, col) + reset(),
        spaces_of('-', rule_len as nat),
    ] + changes.map_values(|c: (ChangeKind, Seq<char>)| side_change_line(c.0, c.1, col))
}

fn push_bar(out: &mut Vec<char>)
    ensures
        final(out)@ == old(out)@ + bar(),
{
    out.push(' ');
    out.push('|');
    out.push(' ');
}

fn side_change(c: &LineChange, col: usize) -> (r: String)
    ensures
        r@ == side_change_line(c.kind, c.line@, col as int),
{
    let body = line_body(c.line.as_str());
    let l = truncate_to_width(from_chars(&body).as_str(), col);
    let mut out: Vec<char> = Vec::new();
    match c.kind {
        ChangeKind::Equal => {
            push_sgr2(&mut out, '9', '0');
            extend_all(&mut out, &to_chars(pad_to_width(l.as_str(), col, Alignment::Left).as_str()));
            push_sgr1(&mut out, '0');
            push_bar(&mut out);
            push_sgr2(&mut out, '9', '0');
            extend_all(&mut out, &to_chars(l.as_str()));
            push_sgr1(&mut out, '0');
        },
        ChangeKind::Delete => {
            push_sgr2(&mut out, '3', '1');
            extend_all(&mut out, &to_chars(pad_to_width(l.as_str(), col, Alignment::Left).as_str()));
            push_sgr1(&mut out, '0');
            push_bar(&mut out);
        },
        ChangeKind::Insert => {
            extend_all(&mut out, &repeat_vec(' ', col));
            push_bar(&mut out);
            push_sgr2(&mut out, '3', '2');
            extend_all(&mut out, &to_chars(l.as_str()));
            push_sgr1(&mut out, '0');
        },
    }
    from_chars(&out)
}

/// Lay out changes in two columns for a terminal `width` columns wide.
pub fn side_by_side_lines(name_a: &str, name_b: &str, changes: &Vec<LineChange>, width: usize) -> (r: Vec<String>)
    requires
        width >= 3,
    ensures
        lines_view(r@) == spec_side_by_side(name_a@, name_b@, changes_view(changes@), width as int),
{
    let col = (width - 3) / 2;
    let mut h: Vec<char> = Vec::new();
    push_sgr1(&mut h, '1');
    let ta = truncate_to_width(name_a, col);
    extend_all(&mut h, &to_chars(pad_to_width(ta.as_str(), col, Alignment::Left).as_str()));
    push_sgr1(&mut h, '0');
    push_bar(&mut h);
    push_sgr1(&mut h, '1');
    extend_all(&mut h, &to_chars(truncate_to_width(name_b, col).as_str()));
    push_sgr1(&mut h, '0');
    let mut out: Vec<String> = Vec::new();
    out.push(from_chars(&h));
    let rule_len = if width <= col * 2 + 3 { width } else { col * 2 + 3 };
    out.push(from_chars(&repeat_vec('-', rule_len)));
    let ghost cs = changes_view(changes@);
    let ghost head = lines_view(out@);
    let mut j: usize = 0;
    while j < changes.len()
        invariant
            j <= changes@.len(),
            cs == changes_view(changes@),
            col == (width - 3) / 2,
            lines_view(out@) == head + cs.take(j as int).map_values(
                |c: (ChangeKind, Seq<char>)| side_change_line(c.0, c.1, col as int),
            ),
        decreases changes.len() - j,
    {
        let line = side_change(&changes[j], col);
        let ghost prev = lines_view(out@);
        out.push(line);
        assert(lines_view(out@) =~= prev.push(line@));
        assert(cs.take(j + 1).map_values(|c: (ChangeKind, Seq<char>)| side_change_line(c.0, c.1, col as int))
            =~= cs.take(j as int).map_values(|c: (ChangeKind, Seq<char>)| side_change_line(c.0, c.1, col as int))
                .push(side_change_line(changes@[j as int].kind, changes@[j as int].line@, col as int)));
        j = j + 1;
    }
    assert(cs.take(j as int) =~= cs);
    out
}

// ---------------------------------------------------------------------------
// The command
// ---------------------------------------------------------------------------

/// The lines of `mdx diff`: nothing when the two texts are the same;
/// otherwise the unified layout (three lines of context) or the
/// side-by-side layout for a terminal `width` columns wide.
pub fn diff_lines(name_a: &str, name_b: &str, old: &str, new: &str, unified: bool, width: usize) -> (r: Option<Vec<String>>)
    requires
        unified || width >= 3,
    ensures
        r is None <==> old@ == new@,
        match r {
            Some(v) => lines_view(v@) == if unified {
                spec_unified_lines(name_a@, name_b@, spec_unified_hunks(old@, new@, 3))
            } else {
                spec_side_by_side(name_a@, name_b@, spec_line_diff(old@, new@), width as int)
            },
            None => true,
        },
{
    if crate::strs::seq_eq(&to_chars(old), &to_chars(new)) {
        return None;
    }
    if unified {
        let hunks = unified_hunks(old, new, 3);
        Some(unified_lines(name_a, name_b, &hunks))
    } else {
        let changes = line_diff(old, new);
        Some(side_by_side_lines(name_a, name_b, &changes, width))
    }
}

} // verus!
