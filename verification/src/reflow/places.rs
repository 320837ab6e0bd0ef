//! Where the cursor stands after a screen was wrapped anew.
use super::{
    all_rows, columns, line_rows, lines, off_spacer, pieces, place_in_lines, place_in_pieces,
    reflowed, rows_of_lines, trimmed, wrapped, wrapped_fits, LineView,
};
use super::laws::plain;
use crate::cell::CellView;
use crate::cursor::Cursor;
use crate::grid::GridView;
use crate::row::{blank_rows, RowView};
use crate::scrollback::ScrollbackView;
use vstd::prelude::*;

verus! {

/// Whether the rows from `first` to `last` are the rows of one line, each with `width`
/// cells: the first begins a line, the others go on with it, and the row behind them, if
/// there is one, begins another.
pub open spec fn one_line(rows: Seq<RowView>, first: int, last: int, width: int) -> bool {
    &&& 0 <= first <= last < rows.len()
    &&& first == 0 || !(rows[first].wrap_origin is SoftFrom)
    &&& forall|i: int| first < i <= last ==> (#[trigger] rows[i]).wrap_origin is SoftFrom
    &&& last + 1 == rows.len() || !(rows[last + 1].wrap_origin is SoftFrom)
    &&& forall|i: int| first <= i <= last ==> (#[trigger] rows[i]).cells.len() == width
}

/// Whether the text of such a line has `n` cells: behind them there are only blanks, and
/// the last of them is none.
pub open spec fn text_has(rows: Seq<RowView>, first: int, last: int, width: int, n: int) -> bool {
    &&& 0 <= n <= (last - first + 1) * width
    &&& forall|i: int, c: int|
        first <= i <= last && 0 <= c < width && (i - first) * width + c >= n
            ==> #[trigger] rows[i].cells[c] == CellView::blank()
    &&& forall|i: int, c: int|
        first <= i <= last && 0 <= c < width && (i - first) * width + c == n - 1
            ==> #[trigger] rows[i].cells[c] != CellView::blank()
}

/// Whether the first `n` cells of such a line take one column each.
pub open spec fn one_column_each(
    rows: Seq<RowView>,
    first: int,
    last: int,
    width: int,
    n: int,
) -> bool {
    forall|i: int, c: int|
        first <= i <= last && 0 <= c < width && (i - first) * width + c < n ==> columns(
            #[trigger] rows[i].cells[c],
        ) == 1 && !rows[i].cells[c].is_spacer()
}

proof fn row_and_column(q: int, c: int, w: int)
    by (nonlinear_arith)
    requires
        0 <= c < w,
        q >= 0,
    ensures
        0 <= q * w,
        (q + 1) * w == q * w + w,
        (q * w + c) / w == q,
        (q * w + c) % w == c,
{
}

proof fn row_and_column_of(j: int, w: int)
    by (nonlinear_arith)
    requires
        0 <= j,
        w >= 1,
    ensures
        0 <= j % w < w,
        j / w >= 0,
        (j / w) * w + j % w == j,
{
}

proof fn rows_below(q: int, last: int, w: int, c: int)
    by (nonlinear_arith)
    requires
        0 <= c < w,
        q * w + c < (last + 1) * w,
    ensures
        q <= last,
{
}

/// Joining the rows of a line gives its cells, row by row.
proof fn joining_rows(rows: Seq<RowView>, first: int, last: int, width: int, r: int)
    requires
        one_line(rows, first, last, width),
        width >= 1,
        first <= r <= last,
    ensures
        lines(rows.take(r + 1)).len() == lines(rows.take(first)).len() + 1,
        lines(rows.take(r + 1)).last().cells.len() == (r - first + 1) * width,
        forall|i: int, c: int|
            first <= i <= r && 0 <= c < width ==> lines(rows.take(r + 1)).last().cells[(i - first)
                * width + c] == #[trigger] rows[i].cells[c],
    decreases r,
{
    let upto = rows.take(r + 1);
    assert(upto.drop_last() =~= rows.take(r));
    assert(upto.last() == rows[r]);
    if r == first {
        if first == 0 {
            assert(rows.take(0) =~= Seq::empty());
        }
        assert(lines(upto).last().cells == rows[r].cells);
        assert(0 * width == 0 && 1 * width == width) by (nonlinear_arith);
        assert forall|i: int, c: int| first <= i <= r && 0 <= c < width implies lines(
            upto,
        ).last().cells[(i - first) * width + c] == #[trigger] rows[i].cells[c] by {
            assert(i - first == 0);
        }
    } else {
        joining_rows(rows, first, last, width, r - 1);
        let done = lines(rows.take(r));
        row_and_column(r - 1 - first, 0, width);
        row_and_column(r - first, 0, width);
        assert(lines(upto).last().cells == done.last().cells + rows[r].cells);
        assert forall|i: int, c: int| first <= i <= r && 0 <= c < width implies lines(
            upto,
        ).last().cells[(i - first) * width + c] == #[trigger] rows[i].cells[c] by {
            if i < r {
                row_and_column(i - first, c, width);
                assert((i - first) * width + width <= (r - first) * width) by (nonlinear_arith)
                    requires
                        i < r,
                        width >= 1,
                ;
            }
        }
    }
}

/// Rows behind a line do not change it.
proof fn rows_behind_a_line(rows: Seq<RowView>, first: int, last: int, width: int, m: int)
    requires
        one_line(rows, first, last, width),
        width >= 1,
        last < m <= rows.len(),
    ensures
        lines(rows.take(m)).len() > lines(rows.take(first)).len(),
        m > last + 1 ==> lines(rows.take(m)).len() > lines(rows.take(first)).len() + 1,
        lines(rows.take(m))[lines(rows.take(first)).len() as int] == lines(
            rows.take(last + 1),
        ).last(),
    decreases m,
{
    joining_rows(rows, first, last, width, last);
    if m > last + 1 {
        rows_behind_a_line(rows, first, last, width, m - 1);
        assert(rows.take(m).drop_last() =~= rows.take(m - 1));
        assert(rows.take(m).last() == rows[m - 1]);
    }
}

proof fn trimming_behind(cells: Seq<CellView>, n: int)
    requires
        0 <= n <= cells.len(),
        forall|i: int| n <= i < cells.len() ==> #[trigger] cells[i] == CellView::blank(),
        n > 0 ==> cells[n - 1] != CellView::blank(),
    ensures
        trimmed(cells) == cells.take(n),
    decreases cells.len(),
{
    if cells.len() == n {
        assert(cells.take(n) =~= cells);
    } else {
        assert(cells[cells.len() - 1] == CellView::blank());
        trimming_behind(cells.drop_last(), n);
        assert(cells.drop_last().take(n) =~= cells.take(n));
    }
}

/// Which cell of the rows a cell of their line is.
proof fn the_cell_of_a_line(rows: Seq<RowView>, first: int, last: int, width: int, j: int)
    requires
        one_line(rows, first, last, width),
        width >= 1,
        0 <= j < (last - first + 1) * width,
    ensures
        ({
            let i = first + j / width;
            let c = j % width;
            &&& first <= i <= last
            &&& 0 <= c < width
            &&& (i - first) * width + c == j
            &&& lines(rows.take(last + 1)).last().cells[j] == rows[i].cells[c]
        }),
{
    joining_rows(rows, first, last, width, last);
    row_and_column_of(j, width);
    rows_below(j / width, last - first, width, j % width);
    let i = first + j / width;
    let c = j % width;
    assert(lines(rows.take(last + 1)).last().cells[(i - first) * width + c] == rows[i].cells[c]);
}

/// The line of a list of rows that the rows from `first` to `last` make: its text, and
/// the place in it of a column of a row.
proof fn the_line_of_rows(
    rows: Seq<RowView>,
    first: int,
    last: int,
    width: int,
    n: int,
    r: int,
    col: int,
)
    requires
        one_line(rows, first, last, width),
        text_has(rows, first, last, width, n),
        width >= 1,
        first <= r <= last,
        0 <= col < width,
    ensures
        ({
            let k = lines(rows.take(first)).len() as int;
            let text = trimmed(lines(rows)[k].cells);
            &&& k < lines(rows).len()
            &&& place_in_lines(rows, r, col) == Some((k, (r - first) * width + col))
            &&& text.len() == n
            &&& (r - first) * width + col < n ==> text[(r - first) * width + col]
                == rows[r].cells[col]
            &&& one_column_each(rows, first, last, width, n) ==> plain(text)
        }),
{
    let k = lines(rows.take(first)).len() as int;
    joining_rows(rows, first, last, width, r);
    row_and_column(r - first, 0, width);
    rows_behind_a_line(rows, first, last, width, rows.len() as int);
    assert(rows.take(rows.len() as int) =~= rows);
    joining_rows(rows, first, last, width, last);
    let cells = lines(rows)[k].cells;
    assert(cells.len() == (last - first + 1) * width);
    assert forall|j: int| n <= j < cells.len() implies #[trigger] cells[j] == CellView::blank() by {
        the_cell_of_a_line(rows, first, last, width, j);
    }
    if n > 0 {
        the_cell_of_a_line(rows, first, last, width, n - 1);
    }
    trimming_behind(cells, n);
    if (r - first) * width + col < n {
        assert(cells[(r - first) * width + col] == rows[r].cells[col]);
    }
    let text = trimmed(cells);
    if one_column_each(rows, first, last, width, n) {
        assert forall|j: int| 0 <= j < text.len() implies columns(#[trigger] text[j]) == 1
            && !text[j].is_spacer() by {
            the_cell_of_a_line(rows, first, last, width, j);
        }
    }
}

/// Wrapping cells of one column each fills row after row.
proof fn wrapping_fills_rows(cells: Seq<CellView>, n: int, cols: int)
    requires
        0 <= n <= cells.len(),
        cols >= 1,
        plain(cells),
    ensures
        ({
            let w = wrapped(cells, n, cols);
            &&& w.full.len() * cols + w.open.len() == n
            &&& n > 0 ==> 0 < w.open.len()
            &&& w.open.len() <= cols
        }),
    decreases n,
{
    if n > 0 {
        wrapping_fills_rows(cells, n - 1, cols);
        let w = wrapped(cells, n - 1, cols);
        let c = cells[n - 1];
        row_and_column(w.full.len() as int, 0, cols);
        assert(wrapped(cells, n, cols).open == w.room(c, cols).open.push(c));
    }
}

/// Where cells of one column each come to stand does not change when more follow.
proof fn wrapping_more(cells: Seq<CellView>, i: int, n: int, cols: int)
    requires
        0 <= i < n <= cells.len(),
        cols >= 1,
        plain(cells),
    ensures
        ({
            let before = wrapped(cells, i, cols).room(cells[i], cols);
            let w = wrapped(cells, n, cols);
            let q = before.full.len() as int;
            let c = before.open.len() as int;
            &&& c < cols
            &&& q <= w.full.len()
            &&& q == w.full.len() ==> c < w.open.len() && w.open[c] == cells[i]
            &&& q < w.full.len() ==> c < w.full[q].len() && w.full[q][c] == cells[i]
        }),
    decreases n,
{
    wrapped_fits(cells, i, cols);
    if n - 1 == i {
    } else {
        wrapping_more(cells, i, n - 1, cols);
    }
}

/// Where the rows of a line stand among all rows.
proof fn rows_of_one_line(ls: Seq<LineView>, n: int, cols: nat, k: int)
    requires
        0 <= k < n <= ls.len(),
    ensures
        ({
            let all = rows_of_lines(ls, n, cols);
            let top = rows_of_lines(ls, k, cols).len() as int;
            let b = line_rows(ls[k], k, cols);
            &&& top + b.len() <= all.len()
            &&& all.take(top) == rows_of_lines(ls, k, cols)
            &&& forall|i: int| top <= i < top + b.len() ==> #[trigger] all[i] == b[i - top]
            &&& top + b.len() == all.len() || all[top + b.len()].wrap_origin is Hard
        }),
    decreases n,
{
    let a = rows_of_lines(ls, n - 1, cols);
    let b = line_rows(ls[n - 1], n - 1, cols);
    let all = rows_of_lines(ls, n, cols);
    assert(b.len() >= 1);
    if k == n - 1 {
        assert(all.take(a.len() as int) =~= a);
    } else {
        rows_of_one_line(ls, n - 1, cols, k);
        let top = rows_of_lines(ls, k, cols).len() as int;
        assert(all.take(top) =~= a.take(top));
        let rows = line_rows(ls[k], k, cols);
        assert forall|i: int| top <= i < top + rows.len() implies #[trigger] all[i] == rows[i
            - top] by {
            assert(a[i] == rows[i - top]);
        }
        if top + rows.len() == a.len() {
            assert(all[top + rows.len()] == b[0]);
        } else {
            assert(all[top + rows.len()] == a[top + rows.len()]);
        }
    }
}

proof fn lines_before(ls: Seq<LineView>, n: int, cols: nat)
    requires
        0 <= n <= ls.len(),
        forall|i: int| 0 <= i < ls.len() ==> (#[trigger] ls[i]).mark.wf(),
    ensures
        lines(rows_of_lines(ls, n, cols)).len() == n,
{
    if n > 0 {
        super::wrapping_keeps_lines_and_marks(ls, n, cols, 0);
    }
}

/// The cursor stays where it was in its line when a screen is given another size.
///
/// The rows from `first` to `last` are the line that the cursor is on, and its text has
/// `n` cells. The result tells which rows the same line has afterwards, and in which of
/// them and how far to the right the place of the cursor is. If that row is on the
/// screen, the cursor is there; if it has gone up into the scrollback, the cursor is at
/// home.
///
/// A cursor at or behind the end of the text comes to stand on the last row of the
/// line, with only blanks from there on. Of a line whose cells take one column each,
/// the number of cells before the cursor is the same before and after, as far as the
/// text goes, and so is the cell that it stands on. Only where the text fills its last
/// row does the cursor stay on the last column of it.
///
/// The scrollback must be large enough for the rows above the screen.
pub proof fn the_cursor_keeps_its_place_in_the_line(
    active: GridView,
    scrollback: ScrollbackView,
    cursor: Cursor,
    new_rows: u16,
    new_cols: u16,
    first: int,
    last: int,
    n: int,
) -> (place: (int, int, int, int))
    requires
        new_rows >= 1,
        new_cols >= 1,
        active.cols >= 1,
        cursor.row.0 < active.rows.len(),
        cursor.col.0 < active.cols,
        forall|i: int|
            0 <= i < (scrollback.rows + active.rows).len() ==> (#[trigger] (scrollback.rows
                + active.rows)[i]).mark.wf(),
        all_rows(
            lines(scrollback.rows + active.rows),
            new_rows as nat,
            new_cols as nat,
        ).len() <= new_rows + scrollback.cap,
        one_line(scrollback.rows + active.rows, first, last, active.cols as int),
        first <= scrollback.rows.len() + cursor.row.0 <= last,
        text_has(scrollback.rows + active.rows, first, last, active.cols as int, n),
    ensures
        ({
            let (g, sb, after) = reflowed(active, scrollback, cursor, new_rows, new_cols);
            let rows = scrollback.rows + active.rows;
            let new = sb.rows + g.rows;
            let r = scrollback.rows.len() + cursor.row.0;
            let before = (r - first) * active.cols + cursor.col.0;
            let (top, bottom, row, col) = place;
            let at = if col < new_cols {
                col
            } else {
                new_cols - 1
            };
            &&& g.rows.len() == new_rows
            &&& one_line(new, top, bottom, new_cols as int)
            &&& lines(new.take(top)).len() == lines(rows.take(first)).len()
            &&& before >= n || one_column_each(rows, first, last, active.cols as int, n) ==> {
                &&& top <= row <= bottom
                &&& 0 <= col <= new_cols
                &&& row >= sb.rows.len() ==> after.row.0 == row - sb.rows.len() && after.col.0 == at
                &&& row < sb.rows.len() ==> after.row.0 == 0 && after.col.0 == 0
            }
            &&& before >= n ==> {
                &&& row == bottom
                &&& forall|c: int|
                    col <= c < new_cols ==> #[trigger] new[row].cells[c] == CellView::blank()
            }
            &&& one_column_each(rows, first, last, active.cols as int, n) ==> {
                &&& (row - top) * new_cols + col == (if before < n {
                    before
                } else {
                    n
                })
                &&& before < n ==> col < new_cols && new[row].cells[col]
                    == rows[r].cells[cursor.col.0 as int]
            }
        }),
{
    let nr = new_rows as nat;
    let nc = new_cols as nat;
    let (g, sb, after) = reflowed(active, scrollback, cursor, new_rows, new_cols);
    let rows = scrollback.rows + active.rows;
    let w = active.cols as int;
    let r = scrollback.rows.len() + cursor.row.0;
    let before = (r - first) * w + cursor.col.0;
    row_and_column(r - first, cursor.col.0 as int, w);
    the_line_of_rows(rows, first, last, w, n, r, cursor.col.0 as int);
    let ls = lines(rows);
    let k = lines(rows.take(first)).len() as int;
    let cells = trimmed(ls[k].cells);
    let all = all_rows(ls, nr, nc);
    let text = rows_of_lines(ls, ls.len() as int, nc);
    assert(sb.rows + g.rows =~= all);
    rows_of_one_line(ls, ls.len() as int, nc, k);
    super::laws::marks_of_lines_are_normal(rows);
    lines_before(ls, k, nc);
    let b = line_rows(ls[k], k, nc);
    let p = pieces(cells, nc as int);
    let top = rows_of_lines(ls, k, nc).len() as int;
    let bottom = top + b.len() - 1;
    assert(all.take(top) =~= text.take(top));
    wrapped_fits(cells, cells.len() as int, nc as int);
    let full = wrapped(cells, cells.len() as int, nc as int);
    assert forall|i: int| top <= i <= bottom implies (#[trigger] all[i]) == b[i - top] by {
        assert(all[i] == text[i]);
    }
    assert forall|i: int| top <= i <= bottom implies (#[trigger] all[i]).cells.len() == nc by {
        assert(all[i] == b[i - top]);
        assert(p[i - top].len() <= nc) by {
            if i - top < full.full.len() {
                assert(p[i - top] == full.full[i - top]);
            }
        }
    }
    if bottom + 1 < text.len() {
        assert(all[bottom + 1] == text[bottom + 1]);
    } else if bottom + 1 < all.len() {
        assert(all[bottom + 1] == blank_rows((nr - text.len()) as nat, nc)[0]);
    }
    assert(one_line(all, top, bottom, nc as int));
    let plainly = one_column_each(rows, first, last, w, n);
    let i = off_spacer(cells, before);
    if before >= n {
        assert(i == before);
        let (q, c) = (full.full.len() as int, full.open.len() as int);
        assert(place_in_pieces(cells, nc as int, i) == Some((q, c)));
        assert(all[bottom] == b[q]);
        assert(p[q] == full.open);
        if plainly {
            wrapping_fills_rows(cells, n, nc as int);
        }
        (top, bottom, bottom, c)
    } else if plainly {
        assert(!cells[before].is_spacer());
        assert(i == before);
        let room = wrapped(cells, before, nc as int).room(cells[before], nc as int);
        let (q, c) = (room.full.len() as int, room.open.len() as int);
        assert(place_in_pieces(cells, nc as int, i) == Some((q, c)));
        wrapping_fills_rows(cells, before, nc as int);
        wrapping_more(cells, before, n, nc as int);
        let done = wrapped(cells, before, nc as int);
        row_and_column(done.full.len() as int, 0, nc as int);
        assert(all[top + q] == b[q]);
        assert(p[q][c] == cells[before]);
        (top, bottom, top + q, c)
    } else {
        (top, bottom, top, 0)
    }
}

/// The cells that are no spacers, in their order.
pub open spec fn without_spacers(cells: Seq<CellView>) -> Seq<CellView>
    decreases cells.len(),
{
    if cells.len() == 0 {
        Seq::empty()
    } else if cells.last().is_spacer() {
        without_spacers(cells.drop_last())
    } else {
        without_spacers(cells.drop_last()).push(cells.last())
    }
}

/// The cells of a list of rows that are no spacers, row after row.
pub open spec fn rows_without_spacers(p: Seq<Seq<CellView>>) -> Seq<CellView>
    decreases p.len(),
{
    if p.len() == 0 {
        Seq::empty()
    } else {
        rows_without_spacers(p.drop_last()) + without_spacers(p.last())
    }
}

/// Whether each cell of two columns in a row has its spacer behind it, and each spacer
/// such a cell before it.
pub open spec fn pairs_are_whole(row: Seq<CellView>) -> bool {
    &&& forall|j: int|
        0 <= j < row.len() && !(#[trigger] row[j]).is_spacer() && columns(row[j]) == 2 ==> j + 1
            < row.len() && row[j + 1].is_spacer()
    &&& forall|j: int|
        0 <= j < row.len() && (#[trigger] row[j]).is_spacer() ==> j > 0 && !row[j - 1].is_spacer()
            && columns(row[j - 1]) == 2
}

proof fn wrapping_whole_cells(cells: Seq<CellView>, n: int, cols: int)
    requires
        0 <= n <= cells.len(),
        cols >= 2,
        forall|k: int|
            0 <= k < cells.len() ==> (#[trigger] cells[k]).is_spacer() || columns(cells[k]) == 1
                || columns(cells[k]) == 2,
    ensures
        ({
            let w = wrapped(cells, n, cols);
            &&& pairs_are_whole(w.open)
            &&& forall|i: int| 0 <= i < w.full.len() ==> pairs_are_whole(#[trigger] w.full[i])
            &&& rows_without_spacers(w.full) + without_spacers(w.open) == without_spacers(
                cells.take(n),
            )
        }),
    decreases n,
{
    if n == 0 {
        assert(cells.take(0) =~= Seq::empty());
        assert(rows_without_spacers(Seq::empty()) + without_spacers(Seq::empty())
            =~= without_spacers(Seq::empty()));
    } else {
        wrapping_whole_cells(cells, n - 1, cols);
        let w = wrapped(cells, n - 1, cols);
        let c = cells[n - 1];
        assert(cells.take(n).drop_last() =~= cells.take(n - 1));
        assert(cells.take(n).last() == c);
        if !c.is_spacer() {
            let r = w.room(c, cols);
            assert(w.closed().full.drop_last() =~= w.full);
            assert(rows_without_spacers(r.full) + without_spacers(r.open) =~= without_spacers(
                cells.take(n - 1),
            ));
            let row = r.open;
            assert(row.push(c).drop_last() =~= row);
            assert(without_spacers(row.push(c)) == without_spacers(row).push(c));
            let done = r.put(c, cols);
            if columns(c) == 2 {
                let pair = row.push(c).push(CellView::spacer());
                assert(pair.drop_last() =~= row.push(c));
                assert(done.open == pair);
                assert(without_spacers(pair) == without_spacers(row.push(c)));
            }
            assert(rows_without_spacers(done.full) + without_spacers(done.open)
                =~= without_spacers(cells.take(n)));
        }
    }
}

/// Wrapping at two columns or more keeps every cell with its colors and attributes, in
/// its order, also those of two columns; none of these is cut in half.
pub proof fn wrapping_keeps_all_cells(cells: Seq<CellView>, cols: int, i: int)
    requires
        cols >= 2,
        forall|k: int|
            0 <= k < cells.len() ==> (#[trigger] cells[k]).is_spacer() || columns(cells[k]) == 1
                || columns(cells[k]) == 2,
        0 <= i < pieces(cells, cols).len(),
    ensures
        rows_without_spacers(pieces(cells, cols)) == without_spacers(cells),
        pairs_are_whole(pieces(cells, cols)[i]),
{
    wrapping_whole_cells(cells, cells.len() as int, cols);
    let w = wrapped(cells, cells.len() as int, cols);
    assert(cells.take(cells.len() as int) =~= cells);
    assert(w.closed().full.drop_last() =~= w.full);
    if i < w.full.len() {
        assert(pieces(cells, cols)[i] == w.full[i]);
    }
}

} // verus!
