//! One row of the grid, and what it holds.
use crate::cell::{Cell, CellView};
use crate::mark::RowMark;
use vstd::prelude::*;

verus! {

/// Where the logical line of a row begins. Reflow joins rows by this.
#[derive(Debug, Clone, Copy, PartialEq, Eq, Structural)]
pub enum WrapOrigin {
    /// The row is the first of its logical line.
    Hard,
    /// The row continues the logical line with this number.
    SoftFrom(u32),
}

/// One row of the grid.
#[derive(Debug, PartialEq, Eq)]
pub struct Row {
    pub cells: Vec<Cell>,
    pub wrap_origin: WrapOrigin,
    /// The annotations of shell integration on this row.
    pub mark: RowMark,
}

/// The contents of a row.
#[verifier::ext_equal]
pub ghost struct RowView {
    pub cells: Seq<CellView>,
    pub wrap_origin: WrapOrigin,
    pub mark: RowMark,
}

/// The contents of a run of cells.
pub open spec fn cells_view(cells: Seq<Cell>) -> Seq<CellView> {
    Seq::new(cells.len(), |i: int| cells[i]@)
}

/// The contents of a run of rows.
pub open spec fn rows_view(rows: Seq<Row>) -> Seq<RowView> {
    Seq::new(rows.len(), |i: int| rows[i]@)
}

pub broadcast proof fn cells_view_push(v: Seq<Cell>, x: Cell)
    ensures
        #[trigger] cells_view(v.push(x)) == cells_view(v).push(x@),
{
    assert(cells_view(v.push(x)) =~= cells_view(v).push(x@));
}

pub broadcast proof fn cells_view_update(v: Seq<Cell>, i: int, x: Cell)
    requires
        0 <= i < v.len(),
    ensures
        #[trigger] cells_view(v.update(i, x)) == cells_view(v).update(i, x@),
{
    assert(cells_view(v.update(i, x)) =~= cells_view(v).update(i, x@));
}

pub broadcast proof fn cells_view_insert(v: Seq<Cell>, i: int, x: Cell)
    requires
        0 <= i <= v.len(),
    ensures
        #[trigger] cells_view(v.insert(i, x)) == cells_view(v).insert(i, x@),
{
    assert(cells_view(v.insert(i, x)) =~= cells_view(v).insert(i, x@));
}

pub broadcast proof fn cells_view_remove(v: Seq<Cell>, i: int)
    requires
        0 <= i < v.len(),
    ensures
        #[trigger] cells_view(v.remove(i)) == cells_view(v).remove(i),
{
    assert(cells_view(v.remove(i)) =~= cells_view(v).remove(i));
}

pub broadcast proof fn cells_view_subrange(v: Seq<Cell>, i: int, j: int)
    requires
        0 <= i <= j <= v.len(),
    ensures
        #[trigger] cells_view(v.subrange(i, j)) == cells_view(v).subrange(i, j),
{
    assert(cells_view(v.subrange(i, j)) =~= cells_view(v).subrange(i, j));
}

pub broadcast proof fn cells_view_add(v: Seq<Cell>, w: Seq<Cell>)
    ensures
        #[trigger] cells_view(v + w) == cells_view(v) + cells_view(w),
{
    assert(cells_view(v + w) =~= cells_view(v) + cells_view(w));
}

pub broadcast proof fn rows_view_push(v: Seq<Row>, x: Row)
    ensures
        #[trigger] rows_view(v.push(x)) == rows_view(v).push(x@),
{
    assert(rows_view(v.push(x)) =~= rows_view(v).push(x@));
}

pub broadcast proof fn rows_view_update(v: Seq<Row>, i: int, x: Row)
    requires
        0 <= i < v.len(),
    ensures
        #[trigger] rows_view(v.update(i, x)) == rows_view(v).update(i, x@),
{
    assert(rows_view(v.update(i, x)) =~= rows_view(v).update(i, x@));
}

pub broadcast proof fn rows_view_insert(v: Seq<Row>, i: int, x: Row)
    requires
        0 <= i <= v.len(),
    ensures
        #[trigger] rows_view(v.insert(i, x)) == rows_view(v).insert(i, x@),
{
    assert(rows_view(v.insert(i, x)) =~= rows_view(v).insert(i, x@));
}

pub broadcast proof fn rows_view_remove(v: Seq<Row>, i: int)
    requires
        0 <= i < v.len(),
    ensures
        #[trigger] rows_view(v.remove(i)) == rows_view(v).remove(i),
{
    assert(rows_view(v.remove(i)) =~= rows_view(v).remove(i));
}

pub broadcast proof fn rows_view_subrange(v: Seq<Row>, i: int, j: int)
    requires
        0 <= i <= j <= v.len(),
    ensures
        #[trigger] rows_view(v.subrange(i, j)) == rows_view(v).subrange(i, j),
{
    assert(rows_view(v.subrange(i, j)) =~= rows_view(v).subrange(i, j));
}

pub broadcast proof fn rows_view_add(v: Seq<Row>, w: Seq<Row>)
    ensures
        #[trigger] rows_view(v + w) == rows_view(v) + rows_view(w),
{
    assert(rows_view(v + w) =~= rows_view(v) + rows_view(w));
}

/// The contents of a run of cells or rows follow every change of the run.
pub broadcast group group_contents {
    cells_view_push,
    cells_view_update,
    cells_view_insert,
    cells_view_remove,
    cells_view_subrange,
    cells_view_add,
    rows_view_push,
    rows_view_update,
    rows_view_insert,
    rows_view_remove,
    rows_view_subrange,
    rows_view_add,
}

/// `n` blank cells.
pub open spec fn blank_cells(n: nat) -> Seq<CellView> {
    Seq::new(n, |i: int| CellView::blank())
}

/// `n` blank rows of `cols` cells each.
pub open spec fn blank_rows(n: nat, cols: nat) -> Seq<RowView> {
    Seq::new(n, |i: int| RowView::blank(cols))
}

impl View for Row {
    type V = RowView;

    open spec fn view(&self) -> RowView {
        RowView {
            cells: cells_view(self.cells@),
            wrap_origin: self.wrap_origin,
            mark: self.mark,
        }
    }
}

impl RowView {
    /// An unmarked row of `cols` blank cells that begins a logical line.
    pub open spec fn blank(cols: nat) -> RowView {
        RowView {
            cells: blank_cells(cols),
            wrap_origin: WrapOrigin::Hard,
            mark: RowMark::none(),
        }
    }
}

impl Row {
    /// A blank row of `cols` cells.
    pub fn blank(cols: u16) -> (r: Row)
        ensures
            r@ == RowView::blank(cols as nat),
    {
        broadcast use group_contents;

        let mut cells: Vec<Cell> = Vec::new();
        let mut i: u16 = 0;
        while i < cols
            invariant
                i <= cols,
                cells_view(cells@) =~= blank_cells(i as nat),
            decreases cols - i,
        {
            broadcast use group_contents;

            cells.push(Cell::default());
            i += 1;
        }
        Row { cells, wrap_origin: WrapOrigin::Hard, mark: RowMark::default() }
    }
}

impl Clone for Row {
    fn clone(&self) -> (r: Row)
        ensures
            r@ == self@,
    {
        broadcast use group_contents;

        let mut cells: Vec<Cell> = Vec::new();
        let mut i: usize = 0;
        while i < self.cells.len()
            invariant
                i <= self.cells.len(),
                cells_view(cells@) =~= cells_view(self.cells@).take(i as int),
            decreases self.cells.len() - i,
        {
            broadcast use group_contents;

            cells.push(self.cells[i].clone());
            i += 1;
        }
        Row { cells, wrap_origin: self.wrap_origin, mark: self.mark }
    }
}

} // verus!
