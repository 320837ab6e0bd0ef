//! The rectangular grid of cells.
use crate::cell::{Cell, CellView};
use crate::coords::{larger, smaller};
pub use crate::mark::RowMark;
pub use crate::row::{Row, WrapOrigin};
use vstd::prelude::*;

verus! {

broadcast use crate::row::group_contents;

/// A grid of rows with `cols` cells each.
#[derive(Debug)]
pub struct Grid {
    pub rows: Vec<Row>,
    pub cols: u16,
}

/// The contents of a grid.
#[verifier::ext_equal]
pub ghost struct GridView {
    pub rows: Seq<crate::row::RowView>,
    pub cols: u16,
}

impl View for Grid {
    type V = GridView;

    open spec fn view(&self) -> GridView {
        GridView { rows: crate::row::rows_view(self.rows@), cols: self.cols }
    }
}

/// Whether the cell at `i` is half of a wide character whose other half is missing.
pub open spec fn orphan(cells: Seq<CellView>, i: int) -> bool {
    ||| cells[i].is_spacer() && !(i > 0 && cells[i - 1].is_wide())
    ||| cells[i].is_wide() && !(i + 1 < cells.len() && cells[i + 1].is_spacer())
}

/// Every wide character is followed by its spacer, and every spacer follows a wide
/// character.
pub open spec fn well_paired(cells: Seq<CellView>) -> bool {
    forall|i: int| 0 <= i < cells.len() ==> !#[trigger] orphan(cells, i)
}

/// The cells with every orphaned half blanked.
pub open spec fn paired(cells: Seq<CellView>) -> Seq<CellView> {
    Seq::new(
        cells.len(),
        |i: int|
            if orphan(cells, i) {
                CellView::blank()
            } else {
                cells[i]
            },
    )
}

/// `n` blanks inserted at `col`; as many cells fall off the right edge.
pub open spec fn cells_inserted(cells: Seq<CellView>, col: int, n: int) -> Seq<CellView> {
    cells.take(col) + crate::row::blank_cells(n as nat) + cells.subrange(col, cells.len() - n)
}

/// `n` cells removed at `col`; as many blanks come in from the right edge.
pub open spec fn cells_deleted(cells: Seq<CellView>, col: int, n: int) -> Seq<CellView> {
    cells.take(col) + cells.skip(col + n) + crate::row::blank_cells(n as nat)
}

/// The smaller of two integers.
pub open spec fn least(a: int, b: int) -> int {
    if a <= b {
        a
    } else {
        b
    }
}

impl GridView {
    /// A blank grid. It has at least one row and one column.
    pub open spec fn blank(rows: u16, cols: u16) -> GridView {
        let r = crate::coords::max16(rows, 1);
        let c = crate::coords::max16(cols, 1);
        GridView { rows: crate::row::blank_rows(r as nat, c as nat), cols: c }
    }

    /// The grid is rectangular, has at least one cell, and its height is an index.
    pub open spec fn wf(self) -> bool {
        &&& 1 <= self.cols
        &&& 1 <= self.rows.len() <= u16::MAX
        &&& forall|i: int|
            0 <= i < self.rows.len() ==> (#[trigger] self.rows[i]).cells.len() == self.cols
    }

    /// The cell at the position, if the grid has one there.
    pub open spec fn cell(self, row: u16, col: u16) -> Option<CellView> {
        if row < self.rows.len() && col < self.rows[row as int].cells.len() {
            Some(self.rows[row as int].cells[col as int])
        } else {
            None
        }
    }

    /// The grid with row `row` holding `cells`.
    pub open spec fn with_cells(self, row: int, cells: Seq<CellView>) -> GridView {
        GridView {
            rows: self.rows.update(
                row,
                crate::row::RowView { cells, ..self.rows[row] },
            ),
            ..self
        }
    }

    /// The grid with `cell` written at a position; unchanged if there is no such
    /// position.
    pub open spec fn put(self, row: u16, col: u16, cell: CellView) -> GridView {
        if row < self.rows.len() && col < self.rows[row as int].cells.len() {
            self.with_cells(row as int, self.rows[row as int].cells.update(col as int, cell))
        } else {
            self
        }
    }

    /// The grid with row `row` annotated by `mark`.
    pub open spec fn with_mark(self, row: int, mark: RowMark) -> GridView {
        GridView {
            rows: self.rows.update(row, crate::row::RowView { mark, ..self.rows[row] }),
            ..self
        }
    }

    /// The grid with row `row` continuing or beginning a line.
    pub open spec fn with_origin(self, row: int, wrap_origin: WrapOrigin) -> GridView {
        GridView {
            rows: self.rows.update(
                row,
                crate::row::RowView { wrap_origin, ..self.rows[row] },
            ),
            ..self
        }
    }

    /// Every row blank and unmarked, with its length kept.
    pub open spec fn cleared(self) -> GridView {
        GridView {
            rows: Seq::new(
                self.rows.len(),
                |i: int| crate::row::RowView::blank(self.rows[i].cells.len()),
            ),
            ..self
        }
    }

    /// The cells of the inclusive rectangle blank; marks and wrap origins kept.
    pub open spec fn cleared_rect(
        self,
        start_row: int,
        start_col: int,
        end_row: int,
        end_col: int,
    ) -> GridView {
        GridView {
            rows: Seq::new(
                self.rows.len(),
                |r: int|
                    if start_row <= r <= end_row {
                        crate::row::RowView {
                            cells: Seq::new(
                                self.rows[r].cells.len(),
                                |c: int|
                                    if start_col <= c <= end_col {
                                        CellView::blank()
                                    } else {
                                        self.rows[r].cells[c]
                                    },
                            ),
                            ..self.rows[r]
                        }
                    } else {
                        self.rows[r]
                    },
            ),
            ..self
        }
    }

    /// `n` blank cells inserted at a position of a row, and orphaned halves blanked.
    pub open spec fn inserted(self, row: u16, col: u16, n: u16) -> GridView {
        if row < self.rows.len() && col < self.cols {
            self.with_cells(
                row as int,
                paired(
                    cells_inserted(
                        self.rows[row as int].cells,
                        col as int,
                        least(n as int, self.cols - col),
                    ),
                ),
            )
        } else {
            self
        }
    }

    /// `n` cells deleted at a position of a row, and orphaned halves blanked.
    pub open spec fn deleted(self, row: u16, col: u16, n: u16) -> GridView {
        if row < self.rows.len() && col < self.cols {
            self.with_cells(
                row as int,
                paired(
                    cells_deleted(
                        self.rows[row as int].cells,
                        col as int,
                        least(n as int, self.cols - col),
                    ),
                ),
            )
        } else {
            self
        }
    }

    /// The number of rows by which a scroll of `n` moves the region: at most its
    /// height, and none for an empty region.
    pub open spec fn scroll_amount(self, top: u16, bottom: u16, n: u16) -> int {
        let last = least(bottom as int, self.rows.len() - 1);
        if top > last {
            0
        } else {
            least(n as int, last - top + 1)
        }
    }

    /// The rows of the region moved up by `n`, with blank rows below them.
    pub open spec fn scrolled_up(self, top: u16, bottom: u16, n: u16) -> GridView {
        let last = least(bottom as int, self.rows.len() - 1);
        let k = self.scroll_amount(top, bottom, n);
        if top > last {
            self
        } else {
            GridView {
                rows: self.rows.take(top as int) + self.rows.subrange(top + k, last + 1)
                    + crate::row::blank_rows(k as nat, self.cols as nat) + self.rows.skip(last + 1),
                ..self
            }
        }
    }

    /// The rows that such a scroll pushes out at the top of the region.
    pub open spec fn pushed_out(
        self,
        top: u16,
        bottom: u16,
        n: u16,
    ) -> Seq<crate::row::RowView> {
        let k = self.scroll_amount(top, bottom, n);
        if k == 0 {
            Seq::empty()
        } else {
            self.rows.subrange(top as int, top + k)
        }
    }

    /// The rows of the region moved down by `n`, with blank rows above them.
    pub open spec fn scrolled_down(self, top: u16, bottom: u16, n: u16) -> GridView {
        let last = least(bottom as int, self.rows.len() - 1);
        let k = self.scroll_amount(top, bottom, n);
        if top > last {
            self
        } else {
            GridView {
                rows: self.rows.take(top as int) + crate::row::blank_rows(
                    k as nat,
                    self.cols as nat,
                ) + self.rows.subrange(top as int, last + 1 - k) + self.rows.skip(last + 1),
                ..self
            }
        }
    }
}

/// Blanks every half of a wide character whose other half is missing, as a splice
/// of cells may leave one.
fn normalize_wide_pairs(cells: &mut Vec<Cell>)
    ensures
        crate::row::cells_view(final(cells)@) == paired(crate::row::cells_view(old(cells)@)),
        well_paired(crate::row::cells_view(final(cells)@)),
{
    let ghost before = crate::row::cells_view(cells@);
    let blank: Cell = Cell::default();
    let blank_is_wide: bool = blank.is_wide();
    let n: usize = cells.len();
    let mut i: usize = 0;
    while i < n
        invariant
            i <= n,
            n == cells.len(),
            n == before.len(),
            blank@ == CellView::blank(),
            !CellView::blank().is_wide(),
            forall|k: int| 0 <= k < i ==> (#[trigger] cells@[k])@ == paired(before)[k],
            forall|k: int| i <= k < n ==> (#[trigger] cells@[k])@ == before[k],
        decreases n - i,
    {
        if cells[i].is_wide_spacer() {
            let has_left: bool = i > 0 && cells[i - 1].is_wide();
            if !has_left {
                cells.set(i, blank.clone());
            }
        } else if cells[i].is_wide() {
            let has_right: bool = i + 1 < n && cells[i + 1].is_wide_spacer();
            if !has_right {
                cells.set(i, blank.clone());
            }
        }
        i += 1;
    }
    assert(crate::row::cells_view(cells@) =~= paired(before));
}

/// Inserts `n` blank cells at `col`, dropping as many at the end.
fn insert_blanks(cells: &mut Vec<Cell>, col: usize, n: usize)
    requires
        col + n <= old(cells).len(),
    ensures
        crate::row::cells_view(final(cells)@) == cells_inserted(
            crate::row::cells_view(old(cells)@),
            col as int,
            n as int,
        ),
{
    let ghost before = crate::row::cells_view(cells@);
    let mut i: usize = 0;
    assert(before =~= cells_inserted(before, col as int, 0));
    while i < n
        invariant
            i <= n,
            col + n <= cells.len() == before.len(),
            crate::row::cells_view(cells@) == cells_inserted(before, col as int, i as int),
        decreases n - i,
    {
        let ghost now = cells_inserted(before, col as int, i as int);
        let dropped: Option<Cell> = cells.pop();
        cells.insert(col, Cell::default());
        i += 1;
        assert(now.drop_last().insert(col as int, CellView::blank()) =~= cells_inserted(
            before,
            col as int,
            i as int,
        ));
    }
}

/// Removes `n` cells at `col`, filling up with blanks at the end.
fn remove_cells(cells: &mut Vec<Cell>, col: usize, n: usize)
    requires
        col + n <= old(cells).len(),
    ensures
        crate::row::cells_view(final(cells)@) == cells_deleted(
            crate::row::cells_view(old(cells)@),
            col as int,
            n as int,
        ),
{
    let ghost before = crate::row::cells_view(cells@);
    let mut i: usize = 0;
    assert(before =~= cells_deleted(before, col as int, 0));
    while i < n
        invariant
            i <= n,
            col + n <= cells.len() == before.len(),
            crate::row::cells_view(cells@) == cells_deleted(before, col as int, i as int),
        decreases n - i,
    {
        let ghost now = cells_deleted(before, col as int, i as int);
        let removed: Cell = cells.remove(col);
        cells.push(Cell::default());
        i += 1;
        assert(now.remove(col as int).push(CellView::blank()) =~= cells_deleted(
            before,
            col as int,
            i as int,
        ));
    }
}

impl Grid {
    /// A blank grid of at least one row and one column.
    pub fn new(rows: u16, cols: u16) -> (g: Grid)
        ensures
            g@ == GridView::blank(rows, cols),
            g@.wf(),
    {
        let height: u16 = larger(rows, 1);
        let width: u16 = larger(cols, 1);
        let mut list: Vec<Row> = Vec::new();
        let mut i: u16 = 0;
        while i < height
            invariant
                i <= height,
                crate::row::rows_view(list@) =~= crate::row::blank_rows(i as nat, width as nat),
            decreases height - i,
        {
            list.push(Row::blank(width));
            i += 1;
        }
        Grid { rows: list, cols: width }
    }

    /// The number of rows, as far as it fits the type.
    pub fn num_rows(&self) -> (n: u16)
        ensures
            n == self@.rows.len() as u16,
            self@.wf() ==> n == self@.rows.len(),
    {
        self.rows.len() as u16
    }

    /// The number of columns.
    pub fn num_cols(&self) -> (n: u16)
        ensures
            n == self@.cols,
    {
        self.cols
    }

    /// Writes a cell. A position outside the grid is ignored.
    pub fn put_cell(&mut self, row: u16, col: u16, cell: Cell)
        ensures
            final(self)@ == old(self)@.put(row, col, cell@),
    {
        if (row as usize) < self.rows.len() {
            if (col as usize) < self.rows[row as usize].cells.len() {
                self.rows[row as usize].cells.set(col as usize, cell);
            }
        }
    }

    /// The cell at a position, if the grid has one there.
    pub fn get_cell(&self, row: u16, col: u16) -> (c: Option<&Cell>)
        ensures
            match c {
                Some(cell) => self@.cell(row, col) == Some(cell@),
                None => self@.cell(row, col) is None,
            },
    {
        if (row as usize) < self.rows.len() {
            if (col as usize) < self.rows[row as usize].cells.len() {
                return Some(&self.rows[row as usize].cells[col as usize]);
            }
        }
        None
    }

    /// Blanks every cell, and removes every mark: the blocks that the marks stood
    /// for are gone from view.
    pub fn clear(&mut self)
        ensures
            final(self)@ == old(self)@.cleared(),
    {
        let ghost before = self@;
        let mut r: usize = 0;
        while r < self.rows.len()
            invariant
                r <= self.rows.len(),
                self.cols == before.cols,
                self.rows.len() == before.rows.len(),
                forall|k: int|
                    0 <= k < r ==> (#[trigger] self.rows@[k])@ == before.cleared().rows[k],
                forall|k: int| r <= k < self.rows.len() ==> (#[trigger] self.rows@[k])@ == before.rows[k],
            decreases self.rows.len() - r,
        {
            let mut c: usize = 0;
            let ghost width = self.rows@[r as int].cells.len();
            while c < self.rows[r].cells.len()
                invariant
                    r < self.rows.len(),
                    c <= self.rows@[r as int].cells.len() == width,
                    width == before.rows[r as int].cells.len(),
                    self.cols == before.cols,
                    self.rows.len() == before.rows.len(),
                    forall|k: int| 0 <= k < c ==> (#[trigger] self.rows@[r as int].cells@[k])@ == CellView::blank(),
                    forall|k: int|
                        0 <= k < r ==> (#[trigger] self.rows@[k])@ == before.cleared().rows[k],
                    forall|k: int| r < k < self.rows.len() ==> (#[trigger] self.rows@[k])@ == before.rows[k],
                decreases width - c,
            {
                self.rows[r].cells.set(c, Cell::default());
                c += 1;
            }
            self.rows[r].wrap_origin = WrapOrigin::Hard;
            self.rows[r].mark = RowMark::default();
            assert(self.rows@[r as int]@.cells =~= crate::row::blank_cells(width as nat));
            r += 1;
        }
        assert(self@.rows =~= before.cleared().rows);
    }

    /// Blanks an inclusive rectangle, cut to the grid. The marks of its rows stay:
    /// erasing part of a line does not unmake the block that begins on it.
    pub fn clear_rect(&mut self, start_row: u16, start_col: u16, end_row: u16, end_col: u16)
        requires
            old(self)@.wf(),
        ensures
            final(self)@ == old(self)@.cleared_rect(
                start_row as int,
                start_col as int,
                end_row as int,
                end_col as int,
            ),
            final(self)@.wf(),
    {
        let ghost before = self@;
        let ghost after = before.cleared_rect(
            start_row as int,
            start_col as int,
            end_row as int,
            end_col as int,
        );
        let last_row: u16 = smaller(end_row, self.num_rows() - 1);
        let last_col: u16 = smaller(end_col, self.cols - 1);
        if start_row > last_row || start_col > last_col {
            assert(forall|k: int| 0 <= k < before.rows.len() ==> after.rows[k].cells =~= before.rows[k].cells);
            assert(after.rows =~= before.rows);
            return;
        }
        let mut r: usize = start_row as usize;
        while r <= last_row as usize
            invariant
                start_row <= r <= last_row + 1,
                last_row < self.rows.len(),
                last_col < self.cols,
                start_col <= last_col,
                last_row == crate::coords::min16(end_row, (before.rows.len() - 1) as u16),
                last_col == crate::coords::min16(end_col, (before.cols - 1) as u16),
                before.wf(),
                after == before.cleared_rect(
                    start_row as int,
                    start_col as int,
                    end_row as int,
                    end_col as int,
                ),
                self.cols == before.cols,
                self.rows.len() == before.rows.len(),
                forall|k: int| 0 <= k < r ==> (#[trigger] self.rows@[k])@ == after.rows[k],
                forall|k: int| r <= k < self.rows.len() ==> (#[trigger] self.rows@[k])@ == before.rows[k],
            decreases last_row + 1 - r,
        {
            let mut c: usize = start_col as usize;
            let ghost row = self.rows@[r as int];
            while c <= last_col as usize
                invariant
                    r < self.rows.len(),
                    start_col <= c <= last_col + 1,
                    last_col < self.cols,
                    self.cols == before.cols,
                    self.rows.len() == before.rows.len(),
                    row.cells.len() == self.cols,
                    self.rows@[r as int].cells.len() == self.cols,
                    self.rows@[r as int].mark == row.mark,
                    self.rows@[r as int].wrap_origin == row.wrap_origin,
                    forall|k: int|
                        0 <= k < self.cols ==> (#[trigger] self.rows@[r as int].cells@[k])@ == (
                        if start_col <= k < c {
                            CellView::blank()
                        } else {
                            row.cells@[k]@
                        }),
                    forall|k: int| 0 <= k < r ==> (#[trigger] self.rows@[k])@ == after.rows[k],
                    forall|k: int| r < k < self.rows.len() ==> (#[trigger] self.rows@[k])@ == before.rows[k],
                decreases last_col + 1 - c,
            {
                self.rows[r].cells.set(c, Cell::default());
                c += 1;
            }
            assert(row@ == before.rows[r as int]);
            assert(forall|k: int| 0 <= k < self.cols ==> row.cells@[k]@ == row@.cells[k]);
            assert(self.rows@[r as int]@.cells =~= after.rows[r as int].cells);
            r += 1;
        }
        assert(self@.rows =~= after.rows);
    }

    /// Inserts `n` blank cells at a position (ICH). The rest of the row moves right,
    /// and what passes the right edge is lost. A position outside the grid is
    /// ignored.
    pub fn insert_cells(&mut self, row: u16, col: u16, n: u16)
        requires
            old(self)@.wf(),
        ensures
            final(self)@ == old(self)@.inserted(row, col, n),
            final(self)@.wf(),
            row < old(self)@.rows.len() && col < old(self)@.cols ==> well_paired(
                final(self)@.rows[row as int].cells,
            ),
    {
        let ghost before = self@;
        let r: usize = row as usize;
        let c: usize = col as usize;
        if r >= self.rows.len() || col >= self.cols {
            return;
        }
        assert(self.rows@[r as int]@ == before.rows[r as int]);
        let count: u16 = smaller(n, self.cols - col);
        insert_blanks(&mut self.rows[r].cells, c, count as usize);
        normalize_wide_pairs(&mut self.rows[r].cells);
        assert(self@.rows =~= before.inserted(row, col, n).rows);
    }

    /// Deletes `n` cells at a position (DCH). The rest of the row moves left, and
    /// blanks come in at the right edge. A position outside the grid is ignored.
    pub fn delete_cells(&mut self, row: u16, col: u16, n: u16)
        requires
            old(self)@.wf(),
        ensures
            final(self)@ == old(self)@.deleted(row, col, n),
            final(self)@.wf(),
            row < old(self)@.rows.len() && col < old(self)@.cols ==> well_paired(
                final(self)@.rows[row as int].cells,
            ),
    {
        let ghost before = self@;
        let r: usize = row as usize;
        let c: usize = col as usize;
        if r >= self.rows.len() || col >= self.cols {
            return;
        }
        assert(self.rows@[r as int]@ == before.rows[r as int]);
        let count: u16 = smaller(n, self.cols - col);
        remove_cells(&mut self.rows[r].cells, c, count as usize);
        normalize_wide_pairs(&mut self.rows[r].cells);
        assert(self@.rows =~= before.deleted(row, col, n).rows);
    }

    /// Scrolls the region from `top` to `bottom`, both included, up by `n`. The rows
    /// that leave it at the top are appended to `popped`, if there is one, and blank
    /// rows come in at the bottom.
    pub fn scroll_up(&mut self, top: u16, bottom: u16, n: u16, popped: Option<&mut Vec<Row>>)
        requires
            old(self)@.wf(),
        ensures
            final(self)@ == old(self)@.scrolled_up(top, bottom, n),
            final(self)@.wf(),
            popped matches Some(out) ==> crate::row::rows_view(final(out)@)
                == crate::row::rows_view(out@) + old(self)@.pushed_out(top, bottom, n),
    {
        match popped {
            Some(out) => {
                self.scroll_up_into(top, bottom, n, out);
            },
            None => {
                let mut dropped: Vec<Row> = Vec::new();
                self.scroll_up_into(top, bottom, n, &mut dropped);
            },
        }
    }

    fn scroll_up_into(&mut self, top: u16, bottom: u16, n: u16, out: &mut Vec<Row>)
        requires
            old(self)@.wf(),
        ensures
            final(self)@ == old(self)@.scrolled_up(top, bottom, n),
            final(self)@.wf(),
            crate::row::rows_view(final(out)@) == crate::row::rows_view(old(out)@) + old(
                self,
            )@.pushed_out(top, bottom, n),
    {
        let ghost before = self@;
        let ghost out_before = crate::row::rows_view(out@);
        let last: u16 = smaller(bottom, self.num_rows() - 1);
        if top > last {
            assert(crate::row::rows_view(out@) =~= out_before + before.pushed_out(top, bottom, n));
            return;
        }
        let count: u16 = if n <= last - top {
            n
        } else {
            last - top + 1
        };
        let first: usize = top as usize;
        let end: usize = last as usize;
        let mut i: u16 = 0;
        assert(before.rows =~= before.scrolled_up(top, bottom, 0).rows);
        while i < count
            invariant
                i <= count <= last - top + 1,
                first == top,
                end == last,
                top <= last < before.rows.len(),
                last == least(bottom as int, before.rows.len() - 1),
                before.wf(),
                self.cols == before.cols,
                self.rows.len() == before.rows.len(),
                self@.rows == before.scrolled_up(top, bottom, i).rows,
                crate::row::rows_view(out@) =~= out_before + before.rows.subrange(top as int, top + i),
            decreases count - i,
        {
            let ghost now = self@.rows;
            let r: Row = self.rows.remove(first);
            assert(r@ == now[first as int]);
            out.push(r);
            self.rows.insert(end, Row::blank(self.cols));
            i += 1;
            assert(now.remove(first as int).insert(
                end as int,
                crate::row::RowView::blank(before.cols as nat),
            ) =~= before.scrolled_up(top, bottom, i).rows);
        }
    }

    /// Scrolls the region from `top` to `bottom`, both included, down by `n`. The
    /// rows that leave it at the bottom are lost, and blank rows come in at the top.
    pub fn scroll_down(&mut self, top: u16, bottom: u16, n: u16)
        requires
            old(self)@.wf(),
        ensures
            final(self)@ == old(self)@.scrolled_down(top, bottom, n),
            final(self)@.wf(),
    {
        let ghost before = self@;
        let last: u16 = smaller(bottom, self.num_rows() - 1);
        if top > last {
            return;
        }
        let count: u16 = if n <= last - top {
            n
        } else {
            last - top + 1
        };
        let first: usize = top as usize;
        let end: usize = last as usize;
        let mut i: u16 = 0;
        assert(before.rows =~= before.scrolled_down(top, bottom, 0).rows);
        while i < count
            invariant
                i <= count <= last - top + 1,
                first == top,
                end == last,
                top <= last < before.rows.len(),
                last == least(bottom as int, before.rows.len() - 1),
                before.wf(),
                self.cols == before.cols,
                self.rows.len() == before.rows.len(),
                self@.rows == before.scrolled_down(top, bottom, i).rows,
            decreases count - i,
        {
            let ghost now = self@.rows;
            let removed: Row = self.rows.remove(end);
            self.rows.insert(first, Row::blank(self.cols));
            i += 1;
            assert(now.remove(end as int).insert(
                first as int,
                crate::row::RowView::blank(before.cols as nat),
            ) =~= before.scrolled_down(top, bottom, i).rows);
        }
    }
}

impl Clone for Grid {
    fn clone(&self) -> (g: Grid)
        ensures
            g@ == self@,
    {
        let mut rows: Vec<Row> = Vec::new();
        let mut i: usize = 0;
        while i < self.rows.len()
            invariant
                i <= self.rows.len(),
                crate::row::rows_view(rows@) =~= self@.rows.take(i as int),
            decreases self.rows.len() - i,
        {
            rows.push(self.rows[i].clone());
            i += 1;
        }
        Grid { rows, cols: self.cols }
    }
}

} // verus!
