//! Wrapping the lines of a screen anew when its width changes.
pub mod laws;
pub mod places;

use crate::cell::{Cell, CellView};
use crate::coords::{larger, smaller, Col};
use crate::cursor::Cursor;
use crate::grid::{Grid, GridView};
use crate::mark::RowMark;
use crate::row::{Row, RowView, WrapOrigin};
use crate::scrollback::{Scrollback, ScrollbackView};
use crate::text::smol;
use crate::width::display_width;
use vstd::prelude::*;
use vstd::string::StringExecFns;

verus! {

broadcast use crate::row::group_contents;

/// A logical line: the cells of the rows that it was wrapped into, and their marks
/// joined.
struct Line {
    cells: Vec<Cell>,
    mark: RowMark,
}

/// The contents of a logical line.
#[verifier::ext_equal]
pub ghost struct LineView {
    pub cells: Seq<CellView>,
    pub mark: RowMark,
}

impl View for Line {
    type V = LineView;

    closed spec fn view(&self) -> LineView {
        LineView { cells: crate::row::cells_view(self.cells@), mark: self.mark }
    }
}

spec fn lines_view(v: Seq<Line>) -> Seq<LineView> {
    Seq::new(v.len(), |i: int| v[i]@)
}

/// The logical lines of a list of rows. A row that continues a line is joined to
/// the row before it, if there is one.
pub open spec fn lines(rows: Seq<RowView>) -> Seq<LineView>
    decreases rows.len(),
{
    if rows.len() == 0 {
        Seq::empty()
    } else {
        let done = lines(rows.drop_last());
        let row = rows.last();
        if row.wrap_origin is SoftFrom && done.len() > 0 {
            done.drop_last().push(
                LineView {
                    cells: done.last().cells + row.cells,
                    mark: done.last().mark.merged(row.mark),
                },
            )
        } else {
            done.push(LineView { cells: row.cells, mark: RowMark::none().merged(row.mark) })
        }
    }
}

/// The line that row `r` belongs to, and the position in that line of column `col`
/// of the row.
pub open spec fn place_in_lines(rows: Seq<RowView>, r: int, col: int) -> Option<(int, int)> {
    if 0 <= r < rows.len() {
        let upto = lines(rows.take(r + 1));
        Some((upto.len() - 1, upto.last().cells.len() - rows[r].cells.len() + col))
    } else {
        None
    }
}

/// The cells without the blank cells at the end.
pub open spec fn trimmed(cells: Seq<CellView>) -> Seq<CellView>
    decreases cells.len(),
{
    if cells.len() > 0 && cells.last() == CellView::blank() {
        trimmed(cells.drop_last())
    } else {
        cells
    }
}

/// The position of the wide character if position `i` is its spacer.
pub open spec fn off_spacer(cells: Seq<CellView>, i: int) -> int {
    if 0 <= i < cells.len() && cells[i].is_spacer() {
        if i > 0 {
            i - 1
        } else {
            0
        }
    } else {
        i
    }
}

/// The number of columns of a cell.
pub open spec fn columns(c: CellView) -> u16 {
    crate::width::text_width(c.grapheme) as u16
}

/// A line being wrapped: the rows that are full, and the row being filled.
#[verifier::ext_equal]
pub ghost struct Wrap {
    pub full: Seq<Seq<CellView>>,
    pub open: Seq<CellView>,
}

impl Wrap {
    /// Nothing wrapped yet.
    pub open spec fn start() -> Wrap {
        Wrap { full: Seq::empty(), open: Seq::empty() }
    }

    /// The row being filled put to the full ones.
    pub open spec fn closed(self) -> Wrap {
        Wrap { full: self.full.push(self.open), open: Seq::empty() }
    }

    /// Room made for a cell: a new row begins where the cell would pass the edge.
    pub open spec fn room(self, c: CellView, cols: int) -> Wrap {
        if columns(c) > 0 && self.open.len() + columns(c) > cols && self.open.len() > 0 {
            self.closed()
        } else {
            self
        }
    }

    /// A cell put into the row. A wide cell brings its spacer, if that fits; a cell
    /// without width joins the cell before it, if there is one.
    pub open spec fn put(self, c: CellView, cols: int) -> Wrap {
        let row = self.open;
        if columns(c) == 2 && row.len() + 1 < cols {
            Wrap { open: row.push(c).push(CellView::spacer()), ..self }
        } else if columns(c) == 0 && row.len() > 0 {
            Wrap {
                open: row.drop_last().push(
                    CellView { grapheme: row.last().grapheme + c.grapheme, ..row.last() },
                ),
                ..self
            }
        } else {
            Wrap { open: row.push(c), ..self }
        }
    }
}

/// The first `n` cells of a line wrapped at `cols` columns. Spacers come with their
/// wide cells.
pub open spec fn wrapped(cells: Seq<CellView>, n: int, cols: int) -> Wrap
    decreases n,
{
    if n <= 0 {
        Wrap::start()
    } else {
        let done = wrapped(cells, n - 1, cols);
        if cells[n - 1].is_spacer() {
            done
        } else {
            done.room(cells[n - 1], cols).put(cells[n - 1], cols)
        }
    }
}

/// The rows of a line wrapped at `cols` columns; at least one.
pub open spec fn pieces(cells: Seq<CellView>, cols: int) -> Seq<Seq<CellView>> {
    wrapped(cells, cells.len() as int, cols).closed().full
}

/// Where position `i` of a line comes to stand: the number of the row and the
/// column. A position behind the end stands behind the last cell.
pub open spec fn place_in_pieces(cells: Seq<CellView>, cols: int, i: int) -> Option<(int, int)> {
    if i >= cells.len() {
        let w = wrapped(cells, cells.len() as int, cols);
        Some((w.full.len() as int, w.open.len() as int))
    } else if 0 <= i && !cells[i].is_spacer() {
        let w = wrapped(cells, i, cols).room(cells[i], cols);
        Some((w.full.len() as int, w.open.len() as int))
    } else {
        None
    }
}

/// A row of a wrapped line, filled up with blanks. The first row of the line
/// carries its mark; the others continue it.
pub open spec fn piece_row(
    piece: Seq<CellView>,
    cols: nat,
    first: bool,
    number: int,
    mark: RowMark,
) -> RowView {
    RowView {
        cells: piece + crate::row::blank_cells((cols - piece.len()) as nat),
        wrap_origin: if first {
            WrapOrigin::Hard
        } else {
            WrapOrigin::SoftFrom(number as u32)
        },
        mark: if first {
            mark
        } else {
            RowMark::none()
        },
    }
}

/// The rows of the line with the given number.
pub open spec fn line_rows(line: LineView, number: int, cols: nat) -> Seq<RowView> {
    let p = pieces(trimmed(line.cells), cols as int);
    Seq::new(p.len(), |i: int| piece_row(p[i], cols, i == 0, number, line.mark))
}

/// The rows of the first `n` lines.
pub open spec fn rows_of_lines(ls: Seq<LineView>, n: int, cols: nat) -> Seq<RowView>
    decreases n,
{
    if n <= 0 {
        Seq::empty()
    } else {
        rows_of_lines(ls, n - 1, cols) + line_rows(ls[n - 1], n - 1, cols)
    }
}

/// All rows of the lines, followed by blank rows if they are fewer than `rows`.
pub open spec fn all_rows(ls: Seq<LineView>, rows: nat, cols: nat) -> Seq<RowView> {
    let text = rows_of_lines(ls, ls.len() as int, cols);
    if text.len() < rows {
        text + crate::row::blank_rows((rows - text.len()) as nat, cols)
    } else {
        text
    }
}

/// The row and column, counted over all rows, of a position in a line.
pub open spec fn place_in_rows(
    ls: Seq<LineView>,
    place: Option<(int, int)>,
    cols: nat,
) -> Option<(int, int)> {
    match place {
        Some((l, i)) => {
            let cells = trimmed(ls[l].cells);
            match place_in_pieces(cells, cols as int, off_spacer(cells, i)) {
                Some((r, c)) => Some((rows_of_lines(ls, l, cols).len() + r, c)),
                None => None,
            }
        },
        None => None,
    }
}

proof fn wrapped_fits(cells: Seq<CellView>, n: int, cols: int)
    requires
        0 <= n <= cells.len(),
        cols >= 1,
    ensures
        wrapped(cells, n, cols).open.len() <= cols,
        forall|i: int|
            0 <= i < wrapped(cells, n, cols).full.len() ==> (#[trigger] wrapped(
                cells,
                n,
                cols,
            ).full[i]).len() <= cols,
    decreases n,
{
    if n > 0 {
        wrapped_fits(cells, n - 1, cols);
    }
}

/// The rows of a wrapped line.
pub open spec fn rows_of_pieces(
    p: Seq<Seq<CellView>>,
    cols: nat,
    number: int,
    mark: RowMark,
) -> Seq<RowView> {
    Seq::new(p.len(), |i: int| piece_row(p[i], cols, i == 0, number, mark))
}

fn push_row(
    buf: &mut Vec<Row>,
    piece: Vec<Cell>,
    first: bool,
    number: usize,
    cols: u16,
    mark: RowMark,
)
    requires
        piece@.len() <= cols,
    ensures
        crate::row::rows_view(final(buf)@) == crate::row::rows_view(old(buf)@).push(
            piece_row(
                crate::row::cells_view(piece@),
                cols as nat,
                first,
                number as int,
                mark,
            ),
        ),
{
    let ghost text = crate::row::cells_view(piece@);
    let mut cells: Vec<Cell> = piece;
    while cells.len() < cols as usize
        invariant
            text.len() <= cells@.len() <= cols,
            crate::row::cells_view(cells@) =~= text + crate::row::blank_cells(
                (cells@.len() - text.len()) as nat,
            ),
        decreases cols - cells.len(),
    {
        cells.push(Cell::default());
    }
    let wrap_origin = if first {
        WrapOrigin::Hard
    } else {
        WrapOrigin::SoftFrom(number as u32)
    };
    buf.push(
        Row {
            cells,
            wrap_origin,
            mark: if first {
                mark
            } else {
                RowMark::default()
            },
        },
    );
}

/// Joins a cell without width to the last of the others.
fn join_to_last(cells: &mut Vec<Cell>, c: &Cell)
    requires
        old(cells)@.len() > 0,
    ensures
        crate::row::cells_view(final(cells)@) == crate::row::cells_view(
            old(cells)@,
        ).drop_last().push(
            CellView {
                grapheme: crate::row::cells_view(old(cells)@).last().grapheme + c@.grapheme,
                ..crate::row::cells_view(old(cells)@).last()
            },
        ),
{
    let ghost before = crate::row::cells_view(cells@);
    let last: usize = cells.len() - 1;
    let mut text: String = String::from_str(cells[last].grapheme.as_str());
    text.append(c.grapheme.as_str());
    let mut joined: Cell = cells[last].clone();
    joined.grapheme = smol(text.as_str());
    cells.set(last, joined);
    assert(crate::row::cells_view(cells@) =~= before.drop_last().push(joined@));
}

/// Wraps a line and appends its rows. Returns where the wanted position of the line
/// came to stand.
fn wrap_line(
    line: &Vec<Cell>,
    mark: RowMark,
    number: usize,
    cols: u16,
    want: Option<usize>,
    out: &mut Vec<Row>,
) -> (found: Option<(usize, usize)>)
    requires
        cols >= 1,
    ensures
        crate::row::rows_view(final(out)@) == crate::row::rows_view(old(out)@) + rows_of_pieces(
            pieces(crate::row::cells_view(line@), cols as int),
            cols as nat,
            number as int,
            mark,
        ),
        match want {
            Some(i) => match place_in_pieces(
                crate::row::cells_view(line@),
                cols as int,
                i as int,
            ) {
                Some((r, c)) => found matches Some(f) && f.0 == old(out)@.len() + r && f.1 == c,
                None => found is None,
            },
            None => found is None,
        },
{
    let ghost cells = crate::row::cells_view(line@);
    let ghost base = crate::row::rows_view(out@);
    let mut open: Vec<Cell> = Vec::new();
    let mut first: bool = true;
    let mut found: Option<(usize, usize)> = None;
    let mut k: usize = 0;
    assert(crate::row::cells_view(open@) =~= Seq::empty());
    assert(base + rows_of_pieces(Seq::empty(), cols as nat, number as int, mark) =~= base);
    while k < line.len()
        invariant
            k <= line.len(),
            cols >= 1,
            cells == crate::row::cells_view(line@),
            base == crate::row::rows_view(old(out)@),
            crate::row::cells_view(open@) == wrapped(cells, k as int, cols as int).open,
            crate::row::rows_view(out@) == base + rows_of_pieces(
                wrapped(cells, k as int, cols as int).full,
                cols as nat,
                number as int,
                mark,
            ),
            first == (wrapped(cells, k as int, cols as int).full.len() == 0),
            match want {
                Some(i) => if i < k {
                    match place_in_pieces(cells, cols as int, i as int) {
                        Some((r, c)) => found matches Some(f) && f.0 == base.len() + r && f.1 == c,
                        None => found is None,
                    }
                } else {
                    found is None
                },
                None => found is None,
            },
        decreases line.len() - k,
    {
        let c: &Cell = &line[k];
        let ghost w = wrapped(cells, k as int, cols as int);
        assert(c@ == cells[k as int]);
        proof {
            wrapped_fits(cells, k as int, cols as int);
        }
        if !c.is_wide_spacer() {
            let cw: u16 = display_width(c.grapheme.as_str()) as u16;
            if cw > 0 && open.len() > 0 && open.len() + cw as usize > cols as usize {
                push_row(out, open, first, number, cols, mark);
                open = Vec::new();
                first = false;
                assert(crate::row::cells_view(open@) =~= Seq::empty());
                assert(crate::row::rows_view(out@) =~= base + rows_of_pieces(
                    w.closed().full,
                    cols as nat,
                    number as int,
                    mark,
                ));
            }
            let ghost w2 = w.room(c@, cols as int);
            assert(crate::row::cells_view(open@) == w2.open);
            assert(crate::row::rows_view(out@).len() == base.len() + w2.full.len());
            match want {
                Some(i) => {
                    if i == k {
                        assert(place_in_pieces(cells, cols as int, i as int) == Some(
                            (w2.full.len() as int, w2.open.len() as int),
                        ));
                        found = Some((out.len(), open.len()));
                    }
                },
                None => {},
            }
            if cw == 0 && open.len() > 0 {
                join_to_last(&mut open, c);
            } else {
                open.push(c.clone());
                if cw == 2 && open.len() < cols as usize {
                    open.push(Cell::wide_spacer());
                }
            }
        }
        k += 1;
    }
    let ghost w = wrapped(cells, cells.len() as int, cols as int);
    proof {
        wrapped_fits(cells, cells.len() as int, cols as int);
    }
    match want {
        Some(i) => {
            if i >= line.len() {
                found = Some((out.len(), open.len()));
            }
        },
        None => {},
    }
    push_row(out, open, first, number, cols, mark);
    assert(crate::row::rows_view(out@) =~= base + rows_of_pieces(
        w.closed().full,
        cols as nat,
        number as int,
        mark,
    ));
    found
}

/// Drops the blank cells at the end of a line.
fn trim_line(cells: &mut Vec<Cell>)
    ensures
        crate::row::cells_view(final(cells)@) == trimmed(crate::row::cells_view(old(cells)@)),
{
    let ghost before = crate::row::cells_view(cells@);
    while cells.len() > 0 && cells[cells.len() - 1].is_blank()
        invariant
            trimmed(before) == trimmed(crate::row::cells_view(cells@)),
        decreases cells.len(),
    {
        let ghost now = crate::row::cells_view(cells@);
        let dropped: Option<Cell> = cells.pop();
        assert(crate::row::cells_view(cells@) =~= now.drop_last());
    }
}

/// Joins rows to logical lines, and finds the place of a column of one row in them.
fn join_rows(rows: Vec<Row>, at: usize, col: u16) -> (r: (Vec<Line>, Option<(usize, usize)>))
    ensures
        lines_view(r.0@) == lines(crate::row::rows_view(rows@)),
        match place_in_lines(crate::row::rows_view(rows@), at as int, col as int) {
            Some((l, i)) => r.1 matches Some(p) && p.0 == l && p.0 < r.0@.len() && p.1 == (if i
                > usize::MAX {
                usize::MAX as int
            } else {
                i
            }),
            None => r.1 is None,
        },
{
    let ghost all = crate::row::rows_view(rows@);
    let total: usize = rows.len();
    let mut list: Vec<Line> = Vec::new();
    let mut place: Option<(usize, usize)> = None;
    let mut n: usize = 0;
    assert(lines_view(list@) =~= lines(all.take(0)));
    for row in it: rows
        invariant
            it.seq() == rows@,
            all == crate::row::rows_view(rows@),
            total == rows@.len(),
            n == it.index(),
            lines_view(list@) == lines(all.take(n as int)),
            n > 0 ==> list@.len() > 0,
            at >= n ==> place is None,
            at < n ==> match place_in_lines(all, at as int, col as int) {
                Some((l, i)) => place matches Some(p) && p.0 == l && p.0 < list@.len() && p.1 == (
                if i > usize::MAX {
                    usize::MAX as int
                } else {
                    i
                }),
                None => false,
            },
    {
        let ghost before = lines_view(list@);
        let ghost width = row@.cells.len();
        let soft: bool = match row.wrap_origin {
            WrapOrigin::SoftFrom(_) => true,
            WrapOrigin::Hard => false,
        };
        assert(all.take(n + 1).drop_last() =~= all.take(n as int));
        assert(all.take(n + 1).last() == row@);
        let mut offset: usize = 0;
        if !soft || list.len() == 0 {
            let mut mark = RowMark::default();
            mark.merge(row.mark);
            list.push(Line { cells: row.cells, mark });
            assert(lines_view(list@) =~= before.push(list@.last()@));
        } else {
            let last: usize = list.len() - 1;
            offset = list[last].cells.len();
            let mut cells: Vec<Cell> = row.cells;
            list[last].cells.append(&mut cells);
            list[last].mark.merge(row.mark);
            assert(lines_view(list@) =~= before.drop_last().push(list@.last()@));
        }
        assert(lines_view(list@) == lines(all.take(n + 1)));
        if n == at {
            let i: usize = if offset > usize::MAX - col as usize {
                usize::MAX
            } else {
                offset + col as usize
            };
            assert(lines_view(list@).last().cells.len() == offset + width);
            place = Some((list.len() - 1, i));
        }
        n += 1;
    }
    assert(all.take(all.len() as int) =~= all);
    (list, place)
}

proof fn trimming_shortens(cells: Seq<CellView>)
    ensures
        trimmed(cells).len() <= cells.len(),
        trimmed(cells) == cells.take(trimmed(cells).len() as int),
        forall|i: int|
            trimmed(cells).len() <= i < cells.len() ==> #[trigger] cells[i] == CellView::blank(),
    decreases cells.len(),
{
    if cells.len() > 0 && cells.last() == CellView::blank() {
        trimming_shortens(cells.drop_last());
        assert(cells.drop_last().take(trimmed(cells).len() as int) =~= cells.take(
            trimmed(cells).len() as int,
        ));
        assert forall|i: int| trimmed(cells).len() <= i < cells.len() implies #[trigger] cells[i]
            == CellView::blank() by {
            if i < cells.len() - 1 {
                assert(cells.drop_last()[i] == CellView::blank());
            }
        }
    } else {
        assert(cells.take(cells.len() as int) =~= cells);
    }
}

proof fn wrapping_only_adds_rows(cells: Seq<CellView>, m: int, n: int, cols: int)
    requires
        0 <= m <= n,
    ensures
        wrapped(cells, m, cols).full.len() <= wrapped(cells, n, cols).full.len(),
        m < n && !cells[m].is_spacer() ==> wrapped(cells, m, cols).room(cells[m], cols).full.len()
            <= wrapped(cells, n, cols).full.len(),
    decreases n,
{
    if m < n - 1 {
        wrapping_only_adds_rows(cells, m, n - 1, cols);
    }
}

/// All rows that come out have the new width.
proof fn rows_have_width(ls: Seq<LineView>, n: int, cols: nat)
    requires
        0 <= n <= ls.len(),
        cols >= 1,
    ensures
        forall|i: int|
            0 <= i < rows_of_lines(ls, n, cols).len() ==> (#[trigger] rows_of_lines(
                ls,
                n,
                cols,
            )[i]).cells.len() == cols,
    decreases n,
{
    if n > 0 {
        rows_have_width(ls, n - 1, cols);
        let cells = trimmed(ls[n - 1].cells);
        wrapped_fits(cells, cells.len() as int, cols as int);
        let before = rows_of_lines(ls, n - 1, cols);
        let w = wrapped(cells, cells.len() as int, cols as int);
        assert forall|i: int| 0 <= i < rows_of_lines(ls, n, cols).len() implies (
        #[trigger] rows_of_lines(ls, n, cols)[i]).cells.len() == cols by {
            if i >= before.len() {
                let p = pieces(cells, cols as int)[i - before.len()];
                if i - before.len() < w.full.len() {
                    assert(p == w.full[i - before.len()]);
                } else {
                    assert(p == w.open);
                }
            }
        }
    }
}

proof fn earlier_lines_have_fewer_rows(ls: Seq<LineView>, m: int, n: int, cols: nat)
    requires
        0 <= m <= n <= ls.len(),
    ensures
        rows_of_lines(ls, m, cols).len() <= rows_of_lines(ls, n, cols).len(),
        m < n ==> rows_of_lines(ls, m, cols).len() + line_rows(ls[m], m, cols).len()
            <= rows_of_lines(ls, n, cols).len(),
    decreases n,
{
    if m < n {
        earlier_lines_have_fewer_rows(ls, m, n - 1, cols);
    }
}

/// Every place is in one of the rows.
proof fn places_are_in_rows(ls: Seq<LineView>, place: Option<(int, int)>, cols: nat)
    requires
        place matches Some(p) ==> 0 <= p.0 < ls.len(),
    ensures
        place_in_rows(ls, place, cols) matches Some(p) ==> 0 <= p.0 < rows_of_lines(
            ls,
            ls.len() as int,
            cols,
        ).len() && 0 <= p.1,
{
    match place {
        Some((l, i)) => {
            let cells = trimmed(ls[l].cells);
            let k = off_spacer(cells, i);
            earlier_lines_have_fewer_rows(ls, l, ls.len() as int, cols);
            if 0 <= k < cells.len() {
                wrapping_only_adds_rows(cells, k, cells.len() as int, cols as int);
            }
        },
        None => {},
    }
}

/// Wraps all lines, and finds where a place in them came to stand.
fn wrap_lines(lines_in: Vec<Line>, place: Option<(usize, usize)>, cols: u16) -> (r: (
    Vec<Row>,
    Option<(usize, usize)>,
))
    requires
        cols >= 1,
        place matches Some(p) ==> p.0 < lines_in@.len(),
    ensures
        crate::row::rows_view(r.0@) == rows_of_lines(
            lines_view(lines_in@),
            lines_in@.len() as int,
            cols as nat,
        ),
        match place {
            Some((l, i)) => match place_in_rows(
                lines_view(lines_in@),
                Some((l as int, i as int)),
                cols as nat,
            ) {
                Some((row, c)) => r.1 matches Some(f) && f.0 == row && f.1 == c,
                None => r.1 is None,
            },
            None => r.1 is None,
        },
{
    let ghost ls = lines_view(lines_in@);
    let mut list: Vec<Line> = lines_in;
    let mut out: Vec<Row> = Vec::new();
    let mut found: Option<(usize, usize)> = None;
    let mut k: usize = 0;
    assert(crate::row::rows_view(out@) =~= rows_of_lines(ls, 0, cols as nat));
    while k < list.len()
        invariant
            k <= list@.len() == ls.len(),
            cols >= 1,
            forall|j: int| k <= j < list@.len() ==> (#[trigger] list@[j])@ == ls[j],
            crate::row::rows_view(out@) == rows_of_lines(ls, k as int, cols as nat),
            place matches Some(p) ==> p.0 < ls.len(),
            match place {
                Some((l, i)) => if l < k {
                    match place_in_rows(ls, Some((l as int, i as int)), cols as nat) {
                        Some((row, c)) => found matches Some(f) && f.0 == row && f.1 == c,
                        None => found is None,
                    }
                } else {
                    found is None
                },
                None => found is None,
            },
        decreases list.len() - k,
    {
        let ghost cells = trimmed(ls[k as int].cells);
        assert(list@[k as int]@ == ls[k as int]);
        trim_line(&mut list[k].cells);
        assert(crate::row::cells_view(list@[k as int].cells@) == cells);
        let mut col: Option<usize> = None;
        match place {
            Some((l, i)) => {
                if l == k {
                    if i < list[k].cells.len() {
                        assert(list@[k as int].cells@[i as int]@ == cells[i as int]);
                    }
                    if i < list[k].cells.len() && list[k].cells[i].is_wide_spacer() {
                        col = Some(
                            if i > 0 {
                                i - 1
                            } else {
                                0
                            },
                        );
                    } else {
                        col = Some(i);
                    }
                    assert(col == Some(off_spacer(cells, i as int) as usize));
                }
            },
            None => {},
        }
        let here = wrap_line(&list[k].cells, list[k].mark, k, cols, col, &mut out);
        if here.is_some() {
            found = here;
        }
        assert(rows_of_pieces(
            pieces(cells, cols as int),
            cols as nat,
            k as int,
            ls[k as int].mark,
        ) =~= line_rows(ls[k as int], k as int, cols as nat));
        k += 1;
    }
    (out, found)
}

/// Divides rows into a scrollback and a screen of `rows` rows, with blank rows at
/// the end where there are too few. Returns the number of rows above the screen.
fn divide_rows(
    list: Vec<Row>,
    rows: u16,
    cols: u16,
    active: &mut Grid,
    scrollback: &mut Scrollback,
) -> (split: usize)
    requires
        rows >= 1,
        cols >= 1,
        old(scrollback)@.rows.len() == 0,
        forall|i: int| 0 <= i < list@.len() ==> (#[trigger] list@[i])@.cells.len() == cols,
    ensures
        ({
            let text = crate::row::rows_view(list@);
            let all = if text.len() < rows {
                text + crate::row::blank_rows((rows - text.len()) as nat, cols as nat)
            } else {
                text
            };
            &&& split == all.len() - rows
            &&& final(active)@ == (GridView { rows: all.skip(split as int), cols })
            &&& final(scrollback)@ == (ScrollbackView {
                rows: crate::scrollback::newest(
                    all.take(split as int),
                    old(scrollback)@.cap as nat,
                ),
                ..old(scrollback)@
            })
        }),
        final(active)@.wf(),
        final(scrollback)@.wf(),
{
    let ghost text = crate::row::rows_view(list@);
    let ghost empty = scrollback@;
    let mut out: Vec<Row> = list;
    while out.len() < rows as usize
        invariant
            crate::row::rows_view(out@) =~= text + crate::row::blank_rows(
                (out@.len() - text.len()) as nat,
                cols as nat,
            ),
            text.len() <= out@.len(),
            out@.len() <= rows || out@.len() == text.len(),
            forall|i: int| 0 <= i < out@.len() ==> (#[trigger] out@[i])@.cells.len() == cols,
        decreases rows - out.len(),
    {
        out.push(Row::blank(cols));
    }
    let ghost all = crate::row::rows_view(out@);
    assert(all =~= if text.len() < rows {
        text + crate::row::blank_rows((rows - text.len()) as nat, cols as nat)
    } else {
        text
    });
    let split: usize = out.len() - rows as usize;
    let new_active: Vec<Row> = out.split_off(split);
    assert(crate::row::rows_view(new_active@) =~= all.skip(split as int));
    assert(crate::row::rows_view(out@) =~= all.take(split as int));
    active.rows = new_active;
    active.cols = cols;
    for row in it: out
        invariant
            it.seq() == out@,
            crate::row::rows_view(out@) == all.take(split as int),
            scrollback@ == empty.pushed_all(all.take(split as int).take(it.index() as int)),
    {
        assert(all.take(split as int).take(it.index() + 1).drop_last() =~= all.take(
            split as int,
        ).take(it.index() as int));
        assert(all.take(split as int).take(it.index() + 1).last() == row@);
        let evicted: usize = scrollback.push(row);
    }
    proof {
        crate::scrollback::pushing_rows_keeps_the_newest(empty, all.take(split as int));
        assert(all.take(split as int).take(split as int) =~= all.take(split as int));
        assert(empty.rows + all.take(split as int) =~= all.take(split as int));
    }
    split
}

/// Wraps the screen, its scrollback and the cursor anew at another size.
pub fn reflow(
    active: &mut Grid,
    scrollback: &mut Scrollback,
    cursor: &mut Cursor,
    new_rows: u16,
    new_cols: u16,
)
    ensures
        (final(active)@, final(scrollback)@, *final(cursor)) == reflowed(
            old(active)@,
            old(scrollback)@,
            *old(cursor),
            new_rows,
            new_cols,
        ),
        final(active)@.wf(),
        final(scrollback)@.wf(),
        final(cursor).within(final(active)@.rows.len() as int, final(active)@.cols as int),
{
    let nr: u16 = larger(new_rows, 1);
    let nc: u16 = larger(new_cols, 1);
    let ghost sb = scrollback@;
    let ghost old_rows = sb.rows + active@.rows;
    let ghost ls = lines(old_rows);
    let mut rows: Vec<Row> = scrollback.take_rows();
    let above: usize = rows.len();
    rows.append(&mut active.rows);
    let total: usize = rows.len();
    assert(crate::row::rows_view(rows@) =~= old_rows);
    let at: usize = if above > usize::MAX - cursor.row.get() as usize {
        usize::MAX
    } else {
        above + cursor.row.get() as usize
    };
    let (list, place) = join_rows(rows, at, cursor.col.get());
    let ghost want = place_in_lines(old_rows, sb.rows.len() + cursor.row.0, cursor.col.0 as int);
    proof {
        match want {
            Some((l, i)) => {
                assert(list@[l]@ == ls[l]);
                assert(list@[l].cells.len() <= usize::MAX);
                trimming_shortens(ls[l].cells);
            },
            None => {},
        }
        places_are_in_rows(ls, want, nc as nat);
        rows_have_width(ls, ls.len() as int, nc as nat);
    }
    let (out, found) = wrap_lines(list, place, nc);
    assert forall|i: int| 0 <= i < out@.len() implies (#[trigger] out@[i])@.cells.len() == nc by {
        assert(crate::row::rows_view(out@)[i] == out@[i]@);
    }
    let split: usize = divide_rows(out, nr, nc, active, scrollback);
    match found {
        Some((r, c)) => {
            if r < split {
                cursor.row = crate::coords::Row::new(0);
                cursor.col = Col::new(0);
            } else {
                cursor.row = crate::coords::Row::new((r - split) as u16);
                cursor.col = Col::new(
                    if c < nc as usize {
                        c as u16
                    } else {
                        nc - 1
                    },
                );
            }
        },
        None => {
            cursor.row = crate::coords::Row::new(smaller(cursor.row.get(), nr - 1));
            cursor.col = Col::new(smaller(cursor.col.get(), nc - 1));
        },
    }
    cursor.pending_wrap = false;
}

/// A screen, its scrollback and its cursor wrapped anew at another size: the last
/// rows make the screen, the others the scrollback, and the cursor stays with its
/// character.
pub open spec fn reflowed(
    active: GridView,
    scrollback: ScrollbackView,
    cursor: Cursor,
    new_rows: u16,
    new_cols: u16,
) -> (GridView, ScrollbackView, Cursor) {
    let nr = crate::coords::max16(new_rows, 1);
    let nc = crate::coords::max16(new_cols, 1);
    let old_rows = scrollback.rows + active.rows;
    let ls = lines(old_rows);
    let all = all_rows(ls, nr as nat, nc as nat);
    let split = all.len() - nr;
    let place = place_in_lines(
        old_rows,
        scrollback.rows.len() + cursor.row.0,
        cursor.col.0 as int,
    );
    (
        GridView { rows: all.skip(split), cols: nc },
        ScrollbackView {
            rows: crate::scrollback::newest(all.take(split), scrollback.cap as nat),
            ..scrollback
        },
        match place_in_rows(ls, place, nc as nat) {
            Some((r, c)) => if r < split {
                cursor.at(0, 0)
            } else {
                cursor.at(
                    (r - split) as u16,
                    crate::grid::least(c, nc - 1) as u16,
                )
            },
            None => cursor.at(
                crate::coords::min16(cursor.row.0, (nr - 1) as u16),
                crate::coords::min16(cursor.col.0, (nc - 1) as u16),
            ),
        },
    )
}

/// The text that cells show.
pub open spec fn text_of(cells: Seq<CellView>) -> Seq<char>
    decreases cells.len(),
{
    if cells.len() == 0 {
        Seq::empty()
    } else {
        text_of(cells.drop_last()) + cells.last().grapheme
    }
}

/// The text that a list of rows shows.
pub open spec fn text_of_pieces(p: Seq<Seq<CellView>>) -> Seq<char>
    decreases p.len(),
{
    if p.len() == 0 {
        Seq::empty()
    } else {
        text_of_pieces(p.drop_last()) + text_of(p.last())
    }
}

proof fn text_of_wrapped(cells: Seq<CellView>, n: int, cols: int)
    requires
        0 <= n <= cells.len(),
    ensures
        text_of_pieces(wrapped(cells, n, cols).full) + text_of(wrapped(cells, n, cols).open)
            == text_of(cells.take(n)),
    decreases n,
{
    if n == 0 {
        assert(text_of_pieces(Seq::empty()) + text_of(Seq::empty()) =~= text_of(cells.take(0)));
    } else {
        text_of_wrapped(cells, n - 1, cols);
        let w = wrapped(cells, n - 1, cols);
        let c = cells[n - 1];
        assert(cells.take(n).drop_last() =~= cells.take(n - 1));
        assert(cells.take(n).last() == c);
        if c.is_spacer() {
            assert(text_of(cells.take(n)) =~= text_of(cells.take(n - 1)));
        } else {
            let w2 = w.room(c, cols);
            assert(w.closed().full.drop_last() =~= w.full);
            assert(text_of_pieces(w2.full) + text_of(w2.open) =~= text_of(cells.take(n - 1)));
            let row = w2.open;
            assert(row.push(c).drop_last() =~= row);
            assert(text_of(row.push(c)) == text_of(row) + c.grapheme);
            if columns(c) == 2 && row.len() + 1 < cols {
                assert(row.push(c).push(CellView::spacer()).drop_last() =~= row.push(c));
            } else if columns(c) == 0 && row.len() > 0 {
                let joined = CellView { grapheme: row.last().grapheme + c.grapheme, ..row.last() };
                assert(row.drop_last().push(joined).drop_last() =~= row.drop_last());
            }
            let w3 = w2.put(c, cols);
            assert(text_of(w3.open) =~= text_of(row) + c.grapheme);
            assert(text_of_pieces(w3.full) + text_of(w3.open) =~= text_of(cells.take(n)));
        }
    }
}

/// Wrapping a line neither loses nor adds nor reorders text: what its rows show,
/// before they are filled up with blanks, is what the line showed.
pub proof fn wrapping_keeps_the_text(cells: Seq<CellView>, cols: int)
    ensures
        text_of_pieces(pieces(cells, cols)) == text_of(cells),
{
    text_of_wrapped(cells, cells.len() as int, cols);
    let w = wrapped(cells, cells.len() as int, cols);
    assert(w.closed().full.drop_last() =~= w.full);
    assert(cells.take(cells.len() as int) =~= cells);
}

/// No row of a wrapped line is wider than the screen.
pub proof fn wrapped_rows_fit(cells: Seq<CellView>, cols: int, i: int)
    requires
        cols >= 1,
        0 <= i < pieces(cells, cols).len(),
    ensures
        pieces(cells, cols)[i].len() <= cols,
{
    wrapped_fits(cells, cells.len() as int, cols);
    let w = wrapped(cells, cells.len() as int, cols);
    if i < w.full.len() {
        assert(pieces(cells, cols)[i] == w.full[i]);
    }
}

/// The mark of a line stands on its first row and on no other.
pub proof fn only_the_first_row_is_marked(line: LineView, number: int, cols: nat, i: int)
    requires
        0 <= i < line_rows(line, number, cols).len(),
    ensures
        line_rows(line, number, cols)[i].mark == (if i == 0 {
            line.mark
        } else {
            RowMark::none()
        }),
        line_rows(line, number, cols)[i].wrap_origin is Hard <==> i == 0,
{
}

proof fn merging_nothing(m: RowMark)
    ensures
        m.merged(RowMark::none()) == m,
        m.wf() ==> RowMark::none().merged(m) == m,
{
    let f: u8 = m.flags;
    assert(f | 0 == f && 0 | f == f && 0u8 & 8 == 0 && 0u8 & 32 == 0 && 0u8 & 128 == 0)
        by (bit_vector);
}

proof fn joining_one_line(a: Seq<RowView>, line: LineView, number: int, cols: nat, n: int)
    requires
        1 <= n <= line_rows(line, number, cols).len(),
        line.mark.wf(),
    ensures
        lines(a + line_rows(line, number, cols).take(n)).len() == lines(a).len() + 1,
        lines(a + line_rows(line, number, cols).take(n)).drop_last() == lines(a),
        lines(a + line_rows(line, number, cols).take(n)).last().mark == line.mark,
    decreases n,
{
    let b = line_rows(line, number, cols);
    assert((a + b.take(n)).drop_last() =~= a + b.take(n - 1));
    assert((a + b.take(n)).last() == b[n - 1]);
    merging_nothing(line.mark);
    if n == 1 {
        assert(a + b.take(0) =~= a);
        assert(lines(a + b.take(1)).drop_last() =~= lines(a));
    } else {
        joining_one_line(a, line, number, cols, n - 1);
        let done = lines(a + b.take(n - 1));
        assert(lines(a + b.take(n)).drop_last() =~= done.drop_last());
    }
}

/// Wrapping keeps the lines apart and keeps their marks: joining the rows that come
/// out gives as many lines as went in, with the same marks in the same order.
pub proof fn wrapping_keeps_lines_and_marks(ls: Seq<LineView>, n: int, cols: nat, k: int)
    requires
        0 <= k < n <= ls.len(),
        forall|i: int| 0 <= i < ls.len() ==> (#[trigger] ls[i]).mark.wf(),
    ensures
        lines(rows_of_lines(ls, n, cols)).len() == n,
        lines(rows_of_lines(ls, n, cols))[k].mark == ls[k].mark,
    decreases n,
{
    let a = rows_of_lines(ls, n - 1, cols);
    let b = line_rows(ls[n - 1], n - 1, cols);
    assert(b.take(b.len() as int) =~= b);
    joining_one_line(a, ls[n - 1], n - 1, cols, b.len() as int);
    if n == 1 {
        assert(lines(a).len() == 0);
    } else if k == n - 1 {
        wrapping_keeps_lines_and_marks(ls, n - 1, cols, 0);
    } else {
        wrapping_keeps_lines_and_marks(ls, n - 1, cols, k);
        assert(lines(a + b).drop_last()[k] == lines(a + b)[k]);
    }
}

} // verus!
