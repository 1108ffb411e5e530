//! Tables in the terminal: the cells collected while walking a table, the
//! column widths, and the lines of the drawn table (boxed, or pipe-separated
//! in plain mode).

use crate::ast::TableAlign;
use crate::render::Chars;
use crate::strs::{extend_all, from_chars, to_chars};
use crate::text::{
    display_width, pad_to_width, repeat_char, spaces_of, spec_display_width, spec_pad, spec_wrap,
    wrap_lines, Alignment,
};
use vstd::prelude::*;

verus! {

// ---------------------------------------------------------------------------
// Collecting cells
// ---------------------------------------------------------------------------

/// The rows of a table as they are collected during the walk.
#[derive(Debug, Clone)]
pub struct TableState {
    pub rows: Vec<Vec<String>>,
    pub alignments: Vec<TableAlign>,
    pub in_header: bool,
    pub header_rows: usize,
    pub current_cell: String,
}

/// The text of every cell, row by row.
pub open spec fn rows_view(rows: Seq<Vec<String>>) -> Seq<Seq<Seq<char>>> {
    Seq::new(rows.len(), |r: int| Seq::new(rows[r]@.len(), |c: int| rows[r]@[c]@))
}

impl TableState {
    /// A table with no rows yet and the given column alignments.
    pub fn new(alignments: Vec<TableAlign>) -> (t: TableState)
        ensures
            t.rows@.len() == 0,
            t.alignments@ == alignments@,
            !t.in_header,
            t.header_rows == 0,
            t.current_cell@.len() == 0,
    {
        TableState { rows: Vec::new(), alignments, in_header: false, header_rows: 0, current_cell: String::new() }
    }

    /// A new row begins; `header` says whether it is the header row.
    pub fn start_row(&mut self, header: bool)
        ensures
            rows_view(final(self).rows@) == rows_view(old(self).rows@).push(seq![]),
            final(self).in_header == header,
            final(self).header_rows == old(self).header_rows,
            final(self).alignments@ == old(self).alignments@,
            final(self).current_cell@ == old(self).current_cell@,
    {
        self.in_header = header;
        self.rows.push(Vec::new());
        proof {
            let want = rows_view(old(self).rows@).push(seq![]);
            assert forall|r: int| 0 <= r < want.len() implies #[trigger] rows_view(self.rows@)[r] =~= want[r] by {
                if r < old(self).rows@.len() {
                    assert(self.rows@[r] == old(self).rows@[r]);
                }
            }
            assert(rows_view(self.rows@) =~= want);
        }
    }

    /// A row ends: a header row sets the number of header rows to the rows
    /// seen so far.
    pub fn end_row(&mut self)
        ensures
            final(self).header_rows == if old(self).in_header { old(self).rows@.len() as int } else { old(self).header_rows as int },
            final(self).rows@ == old(self).rows@,
            final(self).in_header == old(self).in_header,
            final(self).alignments@ == old(self).alignments@,
            final(self).current_cell@ == old(self).current_cell@,
    {
        if self.in_header {
            self.header_rows = self.rows.len();
        }
    }

    /// A cell begins with no text.
    pub fn start_cell(&mut self)
        ensures
            final(self).current_cell@.len() == 0,
            final(self).rows@ == old(self).rows@,
            final(self).in_header == old(self).in_header,
            final(self).header_rows == old(self).header_rows,
            final(self).alignments@ == old(self).alignments@,
    {
        self.current_cell = String::new();
    }

    /// Text rendered inside the current cell.
    pub fn push_text(&mut self, text: &str)
        ensures
            final(self).current_cell@ == old(self).current_cell@ + text@,
            final(self).rows@ == old(self).rows@,
            final(self).in_header == old(self).in_header,
            final(self).header_rows == old(self).header_rows,
            final(self).alignments@ == old(self).alignments@,
    {
        let mut v = to_chars(self.current_cell.as_str());
        extend_all(&mut v, &to_chars(text));
        self.current_cell = from_chars(&v);
    }

    /// A cell ends: its text joins the last row (if there is one).
    pub fn end_cell(&mut self)
        ensures
            final(self).current_cell@.len() == 0,
            old(self).rows@.len() == 0 ==> rows_view(final(self).rows@) == rows_view(old(self).rows@),
            old(self).rows@.len() > 0 ==> rows_view(final(self).rows@) == rows_view(old(self).rows@).update(
                old(self).rows@.len() - 1,
                rows_view(old(self).rows@).last().push(old(self).current_cell@),
            ),
            final(self).in_header == old(self).in_header,
            final(self).header_rows == old(self).header_rows,
            final(self).alignments@ == old(self).alignments@,
    {
        let mut cell = String::new();
        std::mem::swap(&mut cell, &mut self.current_cell);
        let n = self.rows.len();
        if n > 0 {
            let mut last = self.rows.pop().unwrap();
            let ghost before_last = last@;
            last.push(cell);
            self.rows.push(last);
            proof {
                let old_rows = rows_view(old(self).rows@);
                let want = old_rows.update(n - 1, old_rows.last().push(old(self).current_cell@));
                assert(rows_view(self.rows@).len() == want.len());
                assert forall|r: int| 0 <= r < want.len() implies #[trigger] rows_view(self.rows@)[r] =~= want[r] by {
                    if r < n - 1 {
                        assert(self.rows@[r] == old(self).rows@[r]);
                    }
                }
                assert(rows_view(self.rows@) =~= want);
            }
        }
    }
}

// ---------------------------------------------------------------------------
// Column widths
// ---------------------------------------------------------------------------

/// The number of columns: the length of the longest row.
pub open spec fn num_cols(rows: Seq<Seq<Seq<char>>>) -> nat
    decreases rows.len(),
{
    if rows.len() == 0 {
        0
    } else {
        let m = num_cols(rows.drop_last());
        if rows.last().len() > m { rows.last().len() } else { m }
    }
}

/// The widest cell of column `c`.
pub open spec fn col_max(rows: Seq<Seq<Seq<char>>>, c: int) -> nat
    decreases rows.len(),
{
    if rows.len() == 0 {
        0
    } else {
        let m = col_max(rows.drop_last(), c);
        let w: nat = if c < rows.last().len() { spec_display_width(rows.last()[c]) as nat } else { 0 };
        if w > m { w } else { m }
    }
}

/// The natural width of each column: its widest cell, at least three.
pub open spec fn natural_widths(rows: Seq<Seq<Seq<char>>>) -> Seq<usize> {
    Seq::new(num_cols(rows), |c: int| if col_max(rows, c) > 3 { col_max(rows, c) as usize } else { 3usize })
}

/// Column widths before fitting the table to the screen.
pub fn column_widths(rows: &Vec<Vec<String>>) -> (w: Vec<usize>)
    ensures
        w@ == natural_widths(rows_view(rows@)),
{
    let ghost rv = rows_view(rows@);
    let mut n: usize = 0;
    let mut r: usize = 0;
    while r < rows.len()
        invariant
            r <= rows@.len(),
            rv == rows_view(rows@),
            n == num_cols(rv.take(r as int)),
        decreases rows.len() - r,
    {
        assert(rv.take(r + 1).drop_last() =~= rv.take(r as int));
        assert(rv.take(r + 1).last().len() == rows@[r as int]@.len());
        if rows[r].len() > n {
            n = rows[r].len();
        }
        r = r + 1;
    }
    assert(rv.take(r as int) =~= rv);
    let mut w: Vec<usize> = Vec::new();
    let mut c: usize = 0;
    while c < n
        invariant
            c <= n,
            n == num_cols(rv),
            rv == rows_view(rows@),
            w@.len() == c,
            forall|k: int| 0 <= k < c ==> #[trigger] w@[k] == natural_widths(rv)[k],
        decreases n - c,
    {
        let mut m: usize = 0;
        let mut r2: usize = 0;
        while r2 < rows.len()
            invariant
                r2 <= rows@.len(),
                rv == rows_view(rows@),
                m == col_max(rv.take(r2 as int), c as int),
            decreases rows.len() - r2,
        {
            assert(rv.take(r2 + 1).drop_last() =~= rv.take(r2 as int));
            assert(rv.take(r2 + 1).last() == rv[r2 as int]);
            if c < rows[r2].len() {
                let dw = display_width(rows[r2][c].as_str());
                if dw > m {
                    m = dw;
                }
            }
            r2 = r2 + 1;
        }
        assert(rv.take(r2 as int) =~= rv);
        w.push(if m > 3 { m } else { 3 });
        c = c + 1;
    }
    assert(w@ =~= natural_widths(rv));
    w
}

/// The sum of the widths.
pub open spec fn width_sum(ws: Seq<usize>) -> nat
    decreases ws.len(),
{
    if ws.len() == 0 {
        0
    } else {
        width_sum(ws.drop_last()) + (ws.last() as nat)
    }
}

/// When a table with these column widths is wider than `max_width` (its
/// bars and one space of padding on either side of each cell counted), the
/// width left for cell content, which the columns are then scaled to;
/// `None` when the table fits or nothing is left for content.
pub open spec fn spec_shrink_budget(ws: Seq<usize>, max_width: int) -> Option<int> {
    let overhead = ws.len() + 1 + 2 * ws.len();
    let content = width_sum(ws);
    if content + overhead > max_width && content > 0 && max_width - overhead > 0 {
        Some(max_width - overhead)
    } else {
        None
    }
}

/// Whether, and to how much content width, a table must shrink to fit.
pub fn shrink_budget(widths: &Vec<usize>, max_width: usize) -> (r: Option<usize>)
    ensures
        match r {
            Some(b) => spec_shrink_budget(widths@, max_width as int) == Some(b as int),
            None => spec_shrink_budget(widths@, max_width as int) is None,
        },
{
    let n = widths.len();
    let mut total: u128 = 0;
    let mut i: usize = 0;
    while i < n
        invariant
            i <= n == widths@.len(),
            total == width_sum(widths@.take(i as int)),
            total <= i * (usize::MAX as nat),
        decreases n - i,
    {
        assert(widths@.take(i + 1).drop_last() =~= widths@.take(i as int));
        assert(total + widths[i as int] <= (i + 1) * (usize::MAX as nat)) by (nonlinear_arith)
            requires
                total <= i * (usize::MAX as nat),
                widths[i as int] <= usize::MAX,
        ;
        assert((i + 1) * (usize::MAX as nat) <= usize::MAX as nat * usize::MAX as nat) by (nonlinear_arith)
            requires
                i + 1 <= usize::MAX,
        ;
        total = total + widths[i] as u128;
        i = i + 1;
    }
    assert(widths@.take(i as int) =~= widths@);
    assert(total <= (usize::MAX as nat) * (usize::MAX as nat)) by (nonlinear_arith)
        requires
            total <= n * (usize::MAX as nat),
            n <= usize::MAX,
    ;
    let overhead: u128 = 3 * (n as u128) + 1;
    if (max_width as u128) > overhead {
        let avail = max_width as u128 - overhead;
        if total > avail && total > 0 {
            Some(avail as usize)
        } else {
            None
        }
    } else {
        None
    }
}

// ---------------------------------------------------------------------------
// Drawing
// ---------------------------------------------------------------------------

/// What a piece of a drawn line is, which decides its style: the box, a
/// header cell, a body cell, or the unstyled space beside a cell.
#[derive(Debug, Clone, Copy, PartialEq, Eq, Structural)]
pub enum TableRole {
    Border,
    Header,
    Cell,
    Gap,
}

/// A run of text of a drawn line, written in one style.
#[derive(Debug, Clone)]
pub struct Piece {
    pub text: String,
    pub role: TableRole,
}

/// The text and role of each piece of a line.
pub open spec fn pieces_view(l: Seq<Piece>) -> Seq<(Seq<char>, TableRole)> {
    Seq::new(l.len(), |i: int| (l[i].text@, l[i].role))
}

/// The pieces of each line.
pub open spec fn lines_view(ls: Seq<Vec<Piece>>) -> Seq<Seq<(Seq<char>, TableRole)>> {
    Seq::new(ls.len(), |i: int| pieces_view(ls[i]@))
}

fn push_piece(line: &mut Vec<Piece>, text: String, role: TableRole)
    ensures
        pieces_view(final(line)@) == pieces_view(old(line)@).push((text@, role)),
{
    let ghost t = text@;
    line.push(Piece { text, role });
    assert(pieces_view(line@) =~= pieces_view(old(line)@).push((t, role)));
}

fn push_line(lines: &mut Vec<Vec<Piece>>, line: Vec<Piece>)
    ensures
        lines_view(final(lines)@) == lines_view(old(lines)@).push(pieces_view(line@)),
{
    let ghost l = pieces_view(line@);
    lines.push(line);
    assert(lines_view(lines@) =~= lines_view(old(lines)@).push(l));
}

/// The segments between the corners of a horizontal rule: one run of `h`
/// per column, two wider than the column, with `cross` between runs.
pub open spec fn border_mid(ws: Seq<usize>, cross: Seq<char>, h: char) -> Seq<(Seq<char>, TableRole)>
    decreases ws.len(),
{
    if ws.len() == 0 {
        seq![]
    } else if ws.len() == 1 {
        seq![(spaces_of(h, (ws[0] + 2) as nat), TableRole::Border)]
    } else {
        border_mid(ws.drop_last(), cross, h) + seq![
            (cross, TableRole::Border),
            (spaces_of(h, (ws.last() + 2) as nat), TableRole::Border),
        ]
    }
}

/// A horizontal rule of the table.
pub open spec fn border_line(ws: Seq<usize>, left: Seq<char>, cross: Seq<char>, right: Seq<char>, h: char) -> Seq<
    (Seq<char>, TableRole),
> {
    seq![(left, TableRole::Border)] + border_mid(ws, cross, h) + seq![(right, TableRole::Border)]
}

/// Widths a table can be drawn with: no column so wide that its rule would
/// not fit in memory.
pub open spec fn drawable(ws: Seq<usize>) -> bool {
    forall|i: int| 0 <= i < ws.len() ==> #[trigger] ws[i] < usize::MAX - 2
}

fn border<'a>(ws: &Vec<usize>, left: &str, cross: &str, right: &str, h: char) -> (r: Vec<Piece>)
    requires
        drawable(ws@),
    ensures
        pieces_view(r@) == border_line(ws@, left@, cross@, right@, h),
{
    let mut line: Vec<Piece> = Vec::new();
    push_piece(&mut line, left.to_string(), TableRole::Border);
    let ghost start = pieces_view(line@);
    let mut i: usize = 0;
    while i < ws.len()
        invariant
            i <= ws@.len(),
            drawable(ws@),
            pieces_view(line@) == start + border_mid(ws@.take(i as int), cross@, h),
        decreases ws.len() - i,
    {
        assert(ws@.take(i + 1).drop_last() =~= ws@.take(i as int));
        if i > 0 {
            push_piece(&mut line, cross.to_string(), TableRole::Border);
        }
        let w = ws[i];
        push_piece(&mut line, repeat_char(h, w + 2), TableRole::Border);
        i = i + 1;
        proof {
            if i == 1 {
                assert(border_mid(ws@.take(1), cross@, h) =~= seq![(spaces_of(h, (ws@[0] + 2) as nat), TableRole::Border)]);
            }
        }
        assert(pieces_view(line@) =~= start + border_mid(ws@.take(i as int), cross@, h));
    }
    assert(ws@.take(i as int) =~= ws@);
    push_piece(&mut line, right.to_string(), TableRole::Border);
    assert(pieces_view(line@) =~= border_line(ws@, left@, cross@, right@, h));
    line
}

/// The lines of a wrapped cell: as it is for a zero width, one empty line
/// when wrapping leaves nothing.
pub open spec fn spec_wrap_cell(text: Seq<char>, w: usize) -> Seq<Seq<char>> {
    if w == 0 {
        seq![text]
    } else if spec_wrap(text, w).len() == 0 {
        seq![seq![]]
    } else {
        spec_wrap(text, w)
    }
}

fn wrap_cell(text: &str, w: usize) -> (r: Vec<String>)
    ensures
        r@.len() == spec_wrap_cell(text@, w).len(),
        forall|i: int| 0 <= i < r@.len() ==> #[trigger] r@[i]@ == spec_wrap_cell(text@, w)[i],
{
    if w == 0 {
        let mut r: Vec<String> = Vec::new();
        r.push(text.to_string());
        return r;
    }
    let lines = wrap_lines(text, w);
    if lines.len() == 0 {
        let mut r: Vec<String> = Vec::new();
        r.push(String::new());
        return r;
    }
    lines
}

/// The wrapped lines of each column of a row; columns past the row's end
/// hold one empty line.
pub open spec fn row_cells(row: Seq<Seq<char>>, ws: Seq<usize>) -> Seq<Seq<Seq<char>>> {
    Seq::new(ws.len(), |c: int| if c < row.len() { spec_wrap_cell(row[c], ws[c]) } else { seq![seq![]] })
}

/// The number of lines a row takes: its tallest cell, at least one.
pub open spec fn row_height(cells: Seq<Seq<Seq<char>>>) -> nat
    decreases cells.len(),
{
    if cells.len() == 0 {
        1
    } else {
        let m = row_height(cells.drop_last());
        if cells.last().len() > m { cells.last().len() } else { m }
    }
}

/// How a column is aligned (unaligned and missing columns go left).
pub open spec fn align_of(aligns: Seq<TableAlign>, c: int) -> Alignment {
    if c < aligns.len() {
        match aligns[c] {
            TableAlign::Center => Alignment::Center,
            TableAlign::Right => Alignment::Right,
            _ => Alignment::Left,
        }
    } else {
        Alignment::Left
    }
}

/// Line `j` of a cell's lines, or nothing past its end.
pub open spec fn line_at(lines: Seq<Seq<char>>, j: int) -> Seq<char> {
    if j < lines.len() {
        lines[j]
    } else {
        seq![]
    }
}

/// The pieces of line `j` of a row for its first `k` columns: a bar, a
/// space, the padded text, a space.
pub open spec fn row_line_cols(
    cells: Seq<Seq<Seq<char>>>,
    ws: Seq<usize>,
    aligns: Seq<TableAlign>,
    role: TableRole,
    v: Seq<char>,
    j: int,
    k: int,
) -> Seq<(Seq<char>, TableRole)>
    decreases k,
{
    if k <= 0 {
        seq![]
    } else {
        row_line_cols(cells, ws, aligns, role, v, j, k - 1) + seq![
            (v, TableRole::Border),
            (seq![' '], TableRole::Gap),
            (spec_pad(line_at(cells[k - 1], j), ws[k - 1] as int, align_of(aligns, k - 1)), role),
            (seq![' '], TableRole::Gap),
        ]
    }
}

/// Line `j` of a row: every column, then the closing bar.
pub open spec fn row_line(
    cells: Seq<Seq<Seq<char>>>,
    ws: Seq<usize>,
    aligns: Seq<TableAlign>,
    role: TableRole,
    v: Seq<char>,
    j: int,
) -> Seq<(Seq<char>, TableRole)> {
    row_line_cols(cells, ws, aligns, role, v, j, ws.len() as int) + seq![(v, TableRole::Border)]
}

/// All the lines of a row.
pub open spec fn row_lines(row: Seq<Seq<char>>, ws: Seq<usize>, aligns: Seq<TableAlign>, role: TableRole, v: Seq<char>) -> Seq<
    Seq<(Seq<char>, TableRole)>,
> {
    let cells = row_cells(row, ws);
    Seq::new(row_height(cells), |j: int| row_line(cells, ws, aligns, role, v, j))
}

fn draw_row(row: &Vec<String>, ws: &Vec<usize>, aligns: &Vec<TableAlign>, role: TableRole, v: &str, out: &mut Vec<Vec<Piece>>)
    requires
        row@.len() <= ws@.len(),
    ensures
        lines_view(final(out)@) == lines_view(old(out)@) + row_lines(rows_view(seq![*row])[0], ws@, aligns@, role, v@),
{
    let ghost rowv = rows_view(seq![*row])[0];
    let ghost cells_spec = row_cells(rowv, ws@);
    let mut cells: Vec<Vec<String>> = Vec::new();
    let mut c: usize = 0;
    while c < ws.len()
        invariant
            c <= ws@.len(),
            row@.len() <= ws@.len(),
            rowv == rows_view(seq![*row])[0],
            cells_spec == row_cells(rowv, ws@),
            cells@.len() == c,
            forall|k: int| 0 <= k < c ==> #[trigger] rows_view(cells@)[k] == cells_spec[k],
        decreases ws.len() - c,
    {
        let ghost before = cells@;
        if c < row.len() {
            assert(rowv[c as int] == row@[c as int]@);
            cells.push(wrap_cell(row[c].as_str(), ws[c]));
        } else {
            let mut one: Vec<String> = Vec::new();
            one.push(String::new());
            cells.push(one);
        }
        proof {
            assert(rows_view(cells@)[c as int] =~= cells_spec[c as int]);
            assert forall|k: int| 0 <= k < c + 1 implies #[trigger] rows_view(cells@)[k] == cells_spec[k] by {
                if k < c {
                    assert(cells@[k] == before[k]);
                    assert(rows_view(cells@)[k] == rows_view(before)[k]);
                }
            }
        }
        c = c + 1;
    }
    assert(rows_view(cells@) =~= cells_spec);
    let mut height: usize = 1;
    let mut c2: usize = 0;
    while c2 < cells.len()
        invariant
            c2 <= cells@.len(),
            rows_view(cells@) == cells_spec,
            height == row_height(cells_spec.take(c2 as int)),
        decreases cells.len() - c2,
    {
        assert(cells_spec.take(c2 + 1).drop_last() =~= cells_spec.take(c2 as int));
        assert(cells_spec[c2 as int].len() == cells@[c2 as int]@.len());
        if cells[c2].len() > height {
            height = cells[c2].len();
        }
        c2 = c2 + 1;
    }
    assert(cells_spec.take(c2 as int) =~= cells_spec);
    let ghost start = lines_view(out@);
    let mut j: usize = 0;
    while j < height
        invariant
            j <= height,
            height == row_height(cells_spec),
            rows_view(cells@) == cells_spec,
            cells@.len() == ws@.len(),
            lines_view(out@) == start + Seq::new(j as nat, |jj: int| row_line(cells_spec, ws@, aligns@, role, v@, jj)),
        decreases height - j,
    {
        let mut line: Vec<Piece> = Vec::new();
        let mut k: usize = 0;
        while k < ws.len()
            invariant
                k <= ws@.len(),
                cells@.len() == ws@.len(),
                rows_view(cells@) == cells_spec,
                pieces_view(line@) == row_line_cols(cells_spec, ws@, aligns@, role, v@, j as int, k as int),
            decreases ws.len() - k,
        {
            let text: String = if j < cells[k].len() {
                assert(cells_spec[k as int][j as int] == cells@[k as int]@[j as int]@);
                cells[k][j].clone()
            } else {
                String::new()
            };
            assert(text@ == line_at(cells_spec[k as int], j as int));
            let align = if k < aligns.len() {
                match aligns[k] {
                    TableAlign::Center => Alignment::Center,
                    TableAlign::Right => Alignment::Right,
                    _ => Alignment::Left,
                }
            } else {
                Alignment::Left
            };
            proof {
                reveal_strlit(" ");
                assert(" "@ =~= seq![' ']);
            }
            assert(align == align_of(aligns@, k as int));
            let ghost before = pieces_view(line@);
            push_piece(&mut line, v.to_string(), TableRole::Border);
            push_piece(&mut line, " ".to_string(), TableRole::Gap);
            push_piece(&mut line, pad_to_width(text.as_str(), ws[k], align), role);
            push_piece(&mut line, " ".to_string(), TableRole::Gap);
            assert(pieces_view(line@) =~= before + seq![
                (v@, TableRole::Border),
                (seq![' '], TableRole::Gap),
                (spec_pad(line_at(cells_spec[k as int], j as int), ws@[k as int] as int, align_of(aligns@, k as int)), role),
                (seq![' '], TableRole::Gap),
            ]);
            k = k + 1;
        }
        push_piece(&mut line, v.to_string(), TableRole::Border);
        assert(pieces_view(line@) =~= row_line(cells_spec, ws@, aligns@, role, v@, j as int));
        let ghost prev = lines_view(out@);
        push_line(out, line);
        j = j + 1;
        assert(lines_view(out@) =~= start + Seq::new(j as nat, |jj: int| row_line(cells_spec, ws@, aligns@, role, v@, jj)));
    }
    assert(lines_view(out@) =~= start + row_lines(rowv, ws@, aligns@, role, v@));
}

/// The rows' lines, each header row in the header style, and the header
/// rule after the last header row.
pub open spec fn body_lines(
    rows: Seq<Seq<Seq<char>>>,
    ws: Seq<usize>,
    aligns: Seq<TableAlign>,
    header_rows: nat,
    chars: Chars,
) -> Seq<Seq<(Seq<char>, TableRole)>>
    decreases rows.len(),
{
    if rows.len() == 0 {
        seq![]
    } else {
        let idx = rows.len() - 1;
        let role = if idx < header_rows { TableRole::Header } else { TableRole::Cell };
        body_lines(rows.drop_last(), ws, aligns, header_rows, chars) + row_lines(rows.last(), ws, aligns, role, chars.table_v@)
            + (if idx + 1 == header_rows {
            seq![
                border_line(
                    ws,
                    chars.table_header_left@,
                    chars.table_header_cross@,
                    chars.table_header_right@,
                    chars.table_header_h,
                ),
            ]
        } else {
            seq![]
        })
    }
}

/// The drawn table: the top rule, the rows, the bottom rule.
pub open spec fn spec_table_lines(
    rows: Seq<Seq<Seq<char>>>,
    ws: Seq<usize>,
    aligns: Seq<TableAlign>,
    header_rows: nat,
    chars: Chars,
) -> Seq<Seq<(Seq<char>, TableRole)>> {
    seq![border_line(ws, chars.table_tl@, chars.table_t_down@, chars.table_tr@, chars.table_h)] + body_lines(
        rows,
        ws,
        aligns,
        header_rows,
        chars,
    ) + seq![border_line(ws, chars.table_bl@, chars.table_t_up@, chars.table_br@, chars.table_h)]
}

/// Draw a table whose columns have the given widths (the natural widths,
/// or those scaled down to fit the screen).
pub fn draw_table(
    rows: &Vec<Vec<String>>,
    widths: &Vec<usize>,
    aligns: &Vec<TableAlign>,
    header_rows: usize,
    chars: &Chars,
) -> (r: Vec<Vec<Piece>>)
    requires
        drawable(widths@),
        widths@.len() == num_cols(rows_view(rows@)),
    ensures
        lines_view(r@) == spec_table_lines(rows_view(rows@), widths@, aligns@, header_rows as nat, *chars),
{
    let ghost rv = rows_view(rows@);
    proof {
        lemma_rows_fit(rv);
    }
    let mut out: Vec<Vec<Piece>> = Vec::new();
    push_line(&mut out, border(widths, chars.table_tl, chars.table_t_down, chars.table_tr, chars.table_h));
    let ghost top = lines_view(out@);
    let mut r: usize = 0;
    while r < rows.len()
        invariant
            r <= rows@.len(),
            rv == rows_view(rows@),
            drawable(widths@),
            widths@.len() == num_cols(rv),
            forall|k: int| 0 <= k < rv.len() ==> #[trigger] rv[k].len() <= num_cols(rv),
            lines_view(out@) == top + body_lines(rv.take(r as int), widths@, aligns@, header_rows as nat, *chars),
        decreases rows.len() - r,
    {
        assert(rv.take(r + 1).drop_last() =~= rv.take(r as int));
        assert(rows_view(seq![rows@[r as int]])[0] =~= rv[r as int]);
        assert(rv[r as int].len() == rows@[r as int]@.len());
        let role = if r < header_rows { TableRole::Header } else { TableRole::Cell };
        draw_row(&rows[r], widths, aligns, role, chars.table_v, &mut out);
        if r + 1 == header_rows {
            push_line(
                &mut out,
                border(widths, chars.table_header_left, chars.table_header_cross, chars.table_header_right, chars.table_header_h),
            );
        }
        r = r + 1;
        assert(lines_view(out@) =~= top + body_lines(rv.take(r as int), widths@, aligns@, header_rows as nat, *chars));
    }
    assert(rv.take(r as int) =~= rv);
    push_line(&mut out, border(widths, chars.table_bl, chars.table_t_up, chars.table_br, chars.table_h));
    assert(lines_view(out@) =~= spec_table_lines(rv, widths@, aligns@, header_rows as nat, *chars));
    out
}

/// No row is longer than the number of columns.
proof fn lemma_rows_fit(rows: Seq<Seq<Seq<char>>>)
    ensures
        forall|k: int| 0 <= k < rows.len() ==> #[trigger] rows[k].len() <= num_cols(rows),
    decreases rows.len(),
{
    if rows.len() > 0 {
        lemma_rows_fit(rows.drop_last());
        assert forall|k: int| 0 <= k < rows.len() implies #[trigger] rows[k].len() <= num_cols(rows) by {
            if k < rows.len() - 1 {
                assert(rows.drop_last()[k] == rows[k]);
            }
        }
    }
}

// ---------------------------------------------------------------------------
// Plain tables
// ---------------------------------------------------------------------------

/// The first `k` cells of a plain row: a space, the text padded on the right
/// (or blanks past the row's end), a space and a bar.
pub open spec fn plain_cells(row: Seq<Seq<char>>, ws: Seq<usize>, k: int) -> Seq<char>
    decreases k,
{
    if k <= 0 {
        seq![]
    } else {
        plain_cells(row, ws, k - 1) + seq![' '] + (if k - 1 < row.len() {
            spec_pad(row[k - 1], ws[k - 1] as int, Alignment::Left)
        } else {
            spaces_of(' ', ws[k - 1] as nat)
        }) + seq![' ', '|']
    }
}

/// The first `k` columns of the plain header rule.
pub open spec fn plain_rule(ws: Seq<usize>, k: int) -> Seq<char>
    decreases k,
{
    if k <= 0 {
        seq![]
    } else {
        plain_rule(ws, k - 1) + seq!['-'] + spaces_of('-', ws[k - 1] as nat) + seq!['-', '|']
    }
}

/// The lines of a plain table: one per row, the rule after the last header
/// row.
pub open spec fn plain_lines(rows: Seq<Seq<Seq<char>>>, ws: Seq<usize>, header_rows: nat) -> Seq<Seq<char>>
    decreases rows.len(),
{
    if rows.len() == 0 {
        seq![]
    } else {
        plain_lines(rows.drop_last(), ws, header_rows) + seq![seq!['|'] + plain_cells(rows.last(), ws, ws.len() as int)]
            + (if rows.len() == header_rows { seq![seq!['|'] + plain_rule(ws, ws.len() as int)] } else { seq![] })
    }
}

/// The plain (`--plain`) table: pipe-separated cells padded to the natural
/// column widths; nothing for a table without columns.
pub open spec fn spec_plain_table(rows: Seq<Seq<Seq<char>>>, header_rows: nat) -> Seq<Seq<char>> {
    if num_cols(rows) == 0 {
        seq![]
    } else {
        plain_lines(rows, natural_widths(rows), header_rows)
    }
}

/// Draw a table in plain mode.
pub fn plain_table(rows: &Vec<Vec<String>>, header_rows: usize) -> (r: Vec<String>)
    ensures
        r@.len() == spec_plain_table(rows_view(rows@), header_rows as nat).len(),
        forall|i: int| 0 <= i < r@.len() ==> #[trigger] r@[i]@ == spec_plain_table(rows_view(rows@), header_rows as nat)[i],
{
    let ghost rv = rows_view(rows@);
    let ws = column_widths(rows);
    let mut out: Vec<String> = Vec::new();
    if ws.len() == 0 {
        return out;
    }
    proof {
        lemma_rows_fit(rv);
    }
    let mut r: usize = 0;
    while r < rows.len()
        invariant
            r <= rows@.len(),
            rv == rows_view(rows@),
            ws@ == natural_widths(rv),
            forall|k: int| 0 <= k < rv.len() ==> #[trigger] rv[k].len() <= num_cols(rv),
            out@.len() == plain_lines(rv.take(r as int), ws@, header_rows as nat).len(),
            forall|k: int| 0 <= k < out@.len() ==> #[trigger] out@[k]@ == plain_lines(rv.take(r as int), ws@, header_rows as nat)[k],
        decreases rows.len() - r,
    {
        let ghost row = rv[r as int];
        let ghost prev = plain_lines(rv.take(r as int), ws@, header_rows as nat);
        assert(rv.take(r + 1).drop_last() =~= rv.take(r as int));
        let mut line: Vec<char> = Vec::new();
        line.push('|');
        let mut c: usize = 0;
        while c < ws.len()
            invariant
                c <= ws@.len(),
                ws@.len() == num_cols(rv),
                row == rv[r as int],
                row.len() <= num_cols(rv),
                r < rows@.len(),
                rv == rows_view(rows@),
                line@ == seq!['|'] + plain_cells(row, ws@, c as int),
            decreases ws.len() - c,
        {
            let ghost before = line@;
            line.push(' ');
            if c < rows[r].len() {
                assert(row[c as int] == rows@[r as int]@[c as int]@);
                let padded = pad_to_width(rows[r][c].as_str(), ws[c], Alignment::Left);
                extend_all(&mut line, &to_chars(padded.as_str()));
            } else {
                let blank = repeat_char(' ', ws[c]);
                extend_all(&mut line, &to_chars(blank.as_str()));
            }
            line.push(' ');
            line.push('|');
            c = c + 1;
            assert(line@ =~= seq!['|'] + plain_cells(row, ws@, c as int));
        }
        let ghost l1 = line@;
        out.push(from_chars(&line));
        if r + 1 == header_rows {
            let mut sep: Vec<char> = Vec::new();
            sep.push('|');
            let mut c2: usize = 0;
            while c2 < ws.len()
                invariant
                    c2 <= ws@.len(),
                    sep@ == seq!['|'] + plain_rule(ws@, c2 as int),
                decreases ws.len() - c2,
            {
                sep.push('-');
                let dashes = repeat_char('-', ws[c2]);
                extend_all(&mut sep, &to_chars(dashes.as_str()));
                sep.push('-');
                sep.push('|');
                c2 = c2 + 1;
                assert(sep@ =~= seq!['|'] + plain_rule(ws@, c2 as int));
            }
            out.push(from_chars(&sep));
        }
        r = r + 1;
        proof {
            let now = plain_lines(rv.take(r as int), ws@, header_rows as nat);
            assert(out@.len() == now.len());
            assert forall|k: int| 0 <= k < out@.len() implies #[trigger] out@[k]@ == now[k] by {
                if k < prev.len() {
                    assert(out@[k]@ == prev[k]);
                } else if k == prev.len() {
                    assert(out@[k]@ == l1);
                }
            }
        }
    }
    assert(rv.take(r as int) =~= rv);
    out
}

} // verus!
