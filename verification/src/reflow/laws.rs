//! What holds of the lines of a screen that was wrapped anew.
use super::{
    all_rows, columns, joining_one_line, line_rows, lines, merging_nothing, pieces, reflowed,
    rows_of_lines, trimmed, wrapped, wrapped_fits, LineView,
};
use crate::cell::CellView;
use crate::cursor::Cursor;
use crate::grid::GridView;
use crate::mark::RowMark;
use crate::row::{blank_cells, blank_rows, RowView};
use crate::scrollback::ScrollbackView;
use vstd::prelude::*;

verus! {

/// Whether all cells take one column each.
pub open spec fn plain(cells: Seq<CellView>) -> bool {
    forall|i: int|
        0 <= i < cells.len() ==> columns(#[trigger] cells[i]) == 1 && !cells[i].is_spacer()
}

/// The cells of a list of rows, one row after the other.
spec fn run_together(p: Seq<Seq<CellView>>) -> Seq<CellView>
    decreases p.len(),
{
    if p.len() == 0 {
        Seq::empty()
    } else {
        run_together(p.drop_last()) + p.last()
    }
}

proof fn one_row_more(p: Seq<Seq<CellView>>, row: Seq<CellView>)
    ensures
        run_together(p.push(row)) == run_together(p) + row,
{
    assert(p.push(row).drop_last() =~= p);
}

proof fn wrapping_plain_cells(cells: Seq<CellView>, n: int, cols: int)
    requires
        0 <= n <= cells.len(),
        cols >= 1,
        plain(cells),
    ensures
        run_together(wrapped(cells, n, cols).full) + wrapped(cells, n, cols).open == cells.take(n),
        forall|i: int|
            0 <= i < wrapped(cells, n, cols).full.len() ==> (#[trigger] wrapped(
                cells,
                n,
                cols,
            ).full[i]).len() == cols,
    decreases n,
{
    if n == 0 {
        assert(run_together(Seq::empty()) + Seq::<CellView>::empty() =~= cells.take(0));
    } else {
        wrapping_plain_cells(cells, n - 1, cols);
        wrapped_fits(cells, n - 1, cols);
        let w = wrapped(cells, n - 1, cols);
        let c = cells[n - 1];
        let w2 = w.room(c, cols);
        one_row_more(w.full, w.open);
        assert(run_together(w2.full) + w2.open =~= cells.take(n - 1));
        assert(wrapped(cells, n, cols).open == w2.open.push(c));
        assert(run_together(w2.full) + w2.open.push(c) =~= cells.take(n));
    }
}

/// The rows of a line of plain cells hold these cells, and all but the last are full.
proof fn pieces_of_plain_cells(cells: Seq<CellView>, cols: int)
    requires
        cols >= 1,
        plain(cells),
    ensures
        run_together(pieces(cells, cols)) == cells,
        pieces(cells, cols).len() >= 1,
        pieces(cells, cols).last().len() <= cols,
        forall|i: int|
            0 <= i < pieces(cells, cols).len() - 1 ==> (#[trigger] pieces(cells, cols)[i]).len()
                == cols,
{
    let w = wrapped(cells, cells.len() as int, cols);
    wrapping_plain_cells(cells, cells.len() as int, cols);
    wrapped_fits(cells, cells.len() as int, cols);
    one_row_more(w.full, w.open);
    assert(cells.take(cells.len() as int) =~= cells);
    assert forall|i: int| 0 <= i < pieces(cells, cols).len() - 1 implies (#[trigger] pieces(
        cells,
        cols,
    )[i]).len() == cols by {
        assert(pieces(cells, cols)[i] == w.full[i]);
    }
}

/// Joining the first rows of a wrapped line of plain cells gives its cells back, with
/// blanks behind them once the last row is there.
proof fn joining_plain_rows(a: Seq<RowView>, line: LineView, number: int, cols: nat, n: int)
    requires
        cols >= 1,
        plain(trimmed(line.cells)),
        1 <= n <= line_rows(line, number, cols).len(),
    ensures
        ({
            let p = pieces(trimmed(line.cells), cols as int);
            lines(a + line_rows(line, number, cols).take(n)).last().cells == run_together(p.take(n))
                + (if n == p.len() {
                blank_cells((cols - p.last().len()) as nat)
            } else {
                Seq::empty()
            })
        }),
        lines(a + line_rows(line, number, cols).take(n)).len() > 0,
    decreases n,
{
    let cells = trimmed(line.cells);
    let p = pieces(cells, cols as int);
    let b = line_rows(line, number, cols);
    pieces_of_plain_cells(cells, cols as int);
    assert((a + b.take(n)).drop_last() =~= a + b.take(n - 1));
    assert((a + b.take(n)).last() == b[n - 1]);
    assert(p.take(n).drop_last() =~= p.take(n - 1));
    assert(p.take(n).last() == p[n - 1]);
    let pad = blank_cells((cols - p[n - 1].len()) as nat);
    assert(b[n - 1].cells == p[n - 1] + pad);
    if n < p.len() {
        assert(p[n - 1].len() == cols);
        assert(pad =~= Seq::empty());
    }
    let done = lines(a + b.take(n - 1));
    if n == 1 {
        assert(a + b.take(0) =~= a);
        assert(run_together(p.take(0)) =~= Seq::empty());
        assert(Seq::<CellView>::empty() + (p[0] + pad) =~= p[0] + pad);
    } else {
        joining_plain_rows(a, line, number, cols, n - 1);
        assert(done.last().cells =~= run_together(p.take(n - 1)));
        assert(run_together(p.take(n - 1)) + (p[n - 1] + pad) =~= run_together(p.take(n)) + pad);
    }
    assert(lines(a + b.take(n)).last().cells =~= run_together(p.take(n)) + pad);
}

proof fn trimming_twice(cells: Seq<CellView>)
    ensures
        trimmed(trimmed(cells)) == trimmed(cells),
    decreases cells.len(),
{
    if cells.len() > 0 && cells.last() == CellView::blank() {
        trimming_twice(cells.drop_last());
    }
}

proof fn trimming_blanks(cells: Seq<CellView>, n: nat)
    ensures
        trimmed(cells + blank_cells(n)) == trimmed(cells),
    decreases n,
{
    if n == 0 {
        assert(cells + blank_cells(0) =~= cells);
    } else {
        let all = cells + blank_cells(n);
        assert(all.last() == CellView::blank());
        assert(all.drop_last() =~= cells + blank_cells((n - 1) as nat));
        trimming_blanks(cells, (n - 1) as nat);
    }
}

proof fn wrapping_one_plain_line(a: Seq<RowView>, line: LineView, number: int, cols: nat)
    requires
        cols >= 1,
        plain(trimmed(line.cells)),
    ensures
        trimmed(lines(a + line_rows(line, number, cols)).last().cells) == trimmed(line.cells),
{
    let cells = trimmed(line.cells);
    let p = pieces(cells, cols as int);
    let b = line_rows(line, number, cols);
    pieces_of_plain_cells(cells, cols as int);
    joining_plain_rows(a, line, number, cols, b.len() as int);
    assert(b.take(b.len() as int) =~= b);
    assert(p.take(p.len() as int) =~= p);
    trimming_blanks(cells, (cols - p.last().len()) as nat);
    trimming_twice(line.cells);
}

/// Wrapping keeps a line whose cells take one column each: joining the rows that come
/// out gives its cells back, but for the blanks at the end.
proof fn wrapping_keeps_plain_lines(ls: Seq<LineView>, n: int, cols: nat, k: int)
    requires
        cols >= 1,
        0 <= k < n <= ls.len(),
        plain(trimmed(ls[k].cells)),
        forall|i: int| 0 <= i < ls.len() ==> (#[trigger] ls[i]).mark.wf(),
    ensures
        lines(rows_of_lines(ls, n, cols)).len() == n,
        trimmed(lines(rows_of_lines(ls, n, cols))[k].cells) == trimmed(ls[k].cells),
    decreases n,
{
    let a = rows_of_lines(ls, n - 1, cols);
    let b = line_rows(ls[n - 1], n - 1, cols);
    super::wrapping_keeps_lines_and_marks(ls, n, cols, k);
    assert(b.take(b.len() as int) =~= b);
    joining_one_line(a, ls[n - 1], n - 1, cols, b.len() as int);
    if k == n - 1 {
        wrapping_one_plain_line(a, ls[n - 1], n - 1, cols);
    } else {
        wrapping_keeps_plain_lines(ls, n - 1, cols, k);
        assert(lines(a + b).drop_last()[k] == lines(a + b)[k]);
    }
}

/// Blank rows are lines of their own, without cells and without marks.
proof fn blank_rows_are_lines(a: Seq<RowView>, n: nat, cols: nat)
    ensures
        lines(a + blank_rows(n, cols)).len() == lines(a).len() + n,
        forall|k: int|
            0 <= k < lines(a).len() ==> #[trigger] lines(a + blank_rows(n, cols))[k] == lines(
                a,
            )[k],
        forall|k: int|
            lines(a).len() <= k < lines(a).len() + n ==> (#[trigger] lines(
                a + blank_rows(n, cols),
            )[k]) == (LineView { cells: blank_cells(cols), mark: RowMark::none() }),
    decreases n,
{
    let all = a + blank_rows(n, cols);
    if n == 0 {
        assert(all =~= a);
    } else {
        let shorter = (n - 1) as nat;
        blank_rows_are_lines(a, shorter, cols);
        assert(all.drop_last() =~= a + blank_rows(shorter, cols));
        assert(all.last() == RowView::blank(cols));
        merging_nothing(RowMark::none());
    }
}

pub proof fn marks_of_lines_are_normal(rows: Seq<RowView>)
    requires
        forall|i: int| 0 <= i < rows.len() ==> (#[trigger] rows[i]).mark.wf(),
    ensures
        forall|i: int| 0 <= i < lines(rows).len() ==> (#[trigger] lines(rows)[i]).mark.wf(),
    decreases rows.len(),
{
    if rows.len() > 0 {
        let front = rows.drop_last();
        assert forall|i: int| 0 <= i < front.len() implies (#[trigger] front[i]).mark.wf() by {
            assert(front[i] == rows[i]);
        }
        marks_of_lines_are_normal(front);
        let done = lines(front);
        let m = rows.last().mark;
        assert(rows[rows.len() - 1].mark == m);
        crate::mark::marks_stay_normal(m, m, 0, 0, None, false, None);
        crate::mark::marks_stay_normal(RowMark::none(), m, 0, 0, None, false, None);
        if done.len() > 0 {
            assert(done[done.len() - 1].mark.wf());
            crate::mark::marks_stay_normal(done.last().mark, m, 0, 0, None, false, None);
        }
    }
}

/// The logical lines of a screen and its scrollback survive another size. They keep
/// their order and their marks, and a line whose cells take one column each keeps its
/// cells with their styles, but for the blanks at its end. What follows them is empty.
/// The scrollback must be large enough for the rows above the screen, else the oldest
/// go.
pub proof fn lines_survive_another_size(
    active: GridView,
    scrollback: ScrollbackView,
    cursor: Cursor,
    new_rows: u16,
    new_cols: u16,
    k: int,
)
    requires
        forall|i: int|
            0 <= i < (scrollback.rows + active.rows).len() ==> (#[trigger] (scrollback.rows
                + active.rows)[i]).mark.wf(),
        all_rows(
            lines(scrollback.rows + active.rows),
            crate::coords::max16(new_rows, 1) as nat,
            crate::coords::max16(new_cols, 1) as nat,
        ).len() <= crate::coords::max16(new_rows, 1) + scrollback.cap,
    ensures
        ({
            let before = lines(scrollback.rows + active.rows);
            let (g, sb, _) = reflowed(active, scrollback, cursor, new_rows, new_cols);
            let after = lines(sb.rows + g.rows);
            &&& after.len() >= before.len()
            &&& 0 <= k < before.len() ==> after[k].mark == before[k].mark
            &&& 0 <= k < before.len() && plain(trimmed(before[k].cells)) ==> trimmed(after[k].cells)
                == trimmed(before[k].cells)
            &&& before.len() <= k < after.len() ==> trimmed(after[k].cells).len() == 0
                && after[k].mark == RowMark::none()
        }),
{
    let nr = crate::coords::max16(new_rows, 1) as nat;
    let nc = crate::coords::max16(new_cols, 1) as nat;
    let rows = scrollback.rows + active.rows;
    let before = lines(rows);
    let text = rows_of_lines(before, before.len() as int, nc);
    let all = all_rows(before, nr, nc);
    let split = all.len() - nr;
    let (g, sb, _) = reflowed(active, scrollback, cursor, new_rows, new_cols);
    assert(sb.rows + g.rows =~= all);
    marks_of_lines_are_normal(rows);
    let pad = if text.len() < nr {
        (nr - text.len()) as nat
    } else {
        0
    };
    assert(all =~= text + blank_rows(pad, nc));
    blank_rows_are_lines(text, pad, nc);
    if before.len() > 0 {
        super::wrapping_keeps_lines_and_marks(before, before.len() as int, nc, 0);
    }
    if 0 <= k < before.len() {
        super::wrapping_keeps_lines_and_marks(before, before.len() as int, nc, k);
        if plain(trimmed(before[k].cells)) {
            wrapping_keeps_plain_lines(before, before.len() as int, nc, k);
        }
    }
    trimming_blanks(Seq::empty(), nc);
    assert(Seq::empty() + blank_cells(nc) =~= blank_cells(nc));
}

} // verus!
