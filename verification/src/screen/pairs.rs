//! Wide characters take two cells: the character, and a spacer to its right. Printing
//! never leaves one half without the other.
use super::laws::sound;
use super::model::ScreenView;
use crate::cell::CellView;
use crate::grid::{orphan, well_paired, GridView};
use crate::modes::Modes;
use vstd::prelude::*;

verus! {

/// A rectangular grid in which every wide character has its spacer, and every spacer
/// its wide character.
pub open spec fn whole(g: GridView) -> bool {
    &&& g.wf()
    &&& forall|r: int| 0 <= r < g.rows.len() ==> well_paired((#[trigger] g.rows[r]).cells)
}

/// The cells of a row with those that columns `c` to `e` would cut in half blanked
/// outside of these columns.
spec fn parted(cells: Seq<CellView>, c: int, e: int) -> Seq<CellView> {
    let a = if c > 0 && cells[c].is_spacer() {
        cells.update(c - 1, CellView::blank())
    } else {
        cells
    };
    if a[e].is_wide() && e + 1 < a.len() {
        a.update(e + 1, CellView::blank())
    } else {
        a
    }
}

proof fn writing_one(cells: Seq<CellView>, c: int, x: CellView)
    requires
        well_paired(cells),
        0 <= c < cells.len(),
        !CellView::blank().is_wide(),
        !x.is_wide(),
        !x.is_spacer(),
    ensures
        well_paired(parted(cells, c, c).update(c, x)),
{
    let f = parted(cells, c, c).update(c, x);
    assert(!CellView::blank().is_spacer());
    assert(!orphan(cells, c));
    assert forall|i: int| 0 <= i < f.len() implies !#[trigger] orphan(f, i) by {
        assert(!orphan(cells, i));
        if i > 0 {
            assert(!orphan(cells, i - 1));
        }
        if i + 1 < cells.len() {
            assert(!orphan(cells, i + 1));
        }
    }
}

proof fn writing_two(cells: Seq<CellView>, c: int, x: CellView)
    requires
        well_paired(cells),
        0 <= c,
        c + 1 < cells.len(),
        !CellView::blank().is_wide(),
        x.is_wide(),
    ensures
        well_paired(parted(cells, c, c + 1).update(c, x).update(c + 1, CellView::spacer())),
{
    let f = parted(cells, c, c + 1).update(c, x).update(c + 1, CellView::spacer());
    assert(!CellView::blank().is_spacer());
    assert(CellView::spacer().is_spacer());
    assert(!orphan(cells, c));
    assert(!orphan(cells, c + 1));
    assert forall|i: int| 0 <= i < f.len() implies !#[trigger] orphan(f, i) by {
        assert(!orphan(cells, i));
        if i > 0 {
            assert(!orphan(cells, i - 1));
        }
        if i + 1 < cells.len() {
            assert(!orphan(cells, i + 1));
        }
    }
}

proof fn scrolling_keeps_whole(g: GridView, top: u16, bottom: u16, n: u16)
    requires
        whole(g),
        !CellView::blank().is_wide(),
    ensures
        whole(g.scrolled_up(top, bottom, n)),
{
    let h = g.scrolled_up(top, bottom, n);
    let last = crate::grid::least(bottom as int, g.rows.len() - 1);
    let k = g.scroll_amount(top, bottom, n);
    if top <= last {
        assert forall|r: int| 0 <= r < h.rows.len() implies (#[trigger] h.rows[r]).cells.len()
            == h.cols && well_paired(h.rows[r].cells) by {
            if r < top {
                assert(h.rows[r] == g.rows[r]);
            } else if r < last + 1 - k {
                assert(h.rows[r] == g.rows[r + k]);
            } else if r < last + 1 {
                assert(h.rows[r] == crate::row::RowView::blank(g.cols as nat));
                assert forall|i: int| 0 <= i < h.rows[r].cells.len() implies !#[trigger] orphan(
                    h.rows[r].cells,
                    i,
                ) by {
                    assert(h.rows[r].cells[i] == CellView::blank());
                }
            } else {
                assert(h.rows[r] == g.rows[r]);
            }
        }
    }
}

proof fn stepping_keeps_whole(s: ScreenView, soft: bool)
    requires
        whole(s.active),
        !CellView::blank().is_wide(),
    ensures
        whole(s.next_row(soft).active),
{
    scrolling_keeps_whole(s.active, s.scroll_region.0, s.scroll_region.1, 1);
    super::print::scrolling_keeps_the_rest(s, 1);
}

proof fn wrapping_keeps_whole(s: ScreenView)
    requires
        whole(s.active),
        !CellView::blank().is_wide(),
    ensures
        whole(s.wrapped().active),
{
    stepping_keeps_whole(s, true);
}

proof fn parting(s: ScreenView, end: u16)
    requires
        sound(s),
        whole(s.active),
        s.cursor.col.0 <= end < s.active.cols,
    ensures
        ({
            let r = s.cursor.row.0 as int;
            let t = s.unstraddled(s.cursor.col.0, end);
            &&& t.active.cols == s.active.cols
            &&& t.active.rows == s.active.rows.update(
                r,
                crate::row::RowView {
                    cells: parted(s.active.rows[r].cells, s.cursor.col.0 as int, end as int),
                    ..s.active.rows[r]
                },
            )
            &&& t.cursor == s.cursor
        }),
{
    let r = s.cursor.row.0 as int;
    let c = s.cursor.col.0 as int;
    let cells = s.active.rows[r].cells;
    let row = s.active.rows[r];
    assert(cells.len() == s.active.cols);
    let t = s.unstraddled(s.cursor.col.0, end);
    assert(s.active.rows.update(r, row) =~= s.active.rows);
    assert(t.active.rows =~= s.active.rows.update(
        r,
        crate::row::RowView { cells: parted(cells, c, end as int), ..row },
    ));
}

proof fn blanking_keeps_whole(s: ScreenView)
    requires
        sound(s),
        whole(s.active),
        !CellView::blank().is_wide(),
    ensures
        whole(s.unstraddled(s.cursor.col.0, s.cursor.col.0).put_cell(CellView::blank()).active),
{
    let c = s.cursor.col.0;
    let r = s.cursor.row.0 as int;
    parting(s, c);
    writing_one(s.active.rows[r].cells, c as int, CellView::blank());
}

proof fn writing_keeps_whole(s: ScreenView, text: Seq<char>, w: u16)
    requires
        sound(s),
        whole(s.active),
        !CellView::blank().is_wide(),
        text.len() > 0,
        w == 2 <==> crate::width::text_width(text) == 2,
        w == 2 ==> s.cursor.col.0 + 1 < s.active.cols,
    ensures
        whole(s.write(text, w).active),
{
    let c = s.cursor.col.0;
    let r = s.cursor.row.0 as int;
    let x = s.pen_cell(text);
    let cells = s.active.rows[r].cells;
    if w == 2 {
        parting(s, (c + 1) as u16);
        writing_two(cells, c as int, x);
        let t = s.unstraddled(c, (c + 1) as u16).put_cell(x);
        assert(s.write(text, w).active.rows[r].cells =~= parted(cells, c as int, c + 1).update(
            c as int,
            x,
        ).update(c + 1, CellView::spacer()));
    } else {
        parting(s, c);
        writing_one(cells, c as int, x);
        assert(s.write(text, w).active.rows[r].cells =~= parted(cells, c as int, c as int).update(
            c as int,
            x,
        ));
    }
}

/// Printing a character never leaves half of a wide one: not when it is written over
/// one half, not when it does not fit at the end of a row, and not when rows scroll.
pub proof fn printing_keeps_wide_characters_whole(s: ScreenView, text: Seq<char>, w: u16)
    requires
        sound(s),
        whole(s.active),
        text.len() > 0,
        w > 0,
    ensures
        !CellView::blank().is_wide() && (w == 2 <==> crate::width::text_width(text) == 2)
            ==> whole(s.printed_as(text, w).active),
{
    if !CellView::blank().is_wide() && (w == 2 <==> crate::width::text_width(text) == 2) {
        reveal(ScreenView::printed_as);
        let auto = s.modes.has(Modes::AUTOWRAP);
        wrapping_keeps_whole(s);
        super::laws::wrapping(s);
        let t = if s.cursor.pending_wrap && auto {
            s.wrapped()
        } else {
            s
        };
        let col = t.cursor.col.0;
        if w == 2 && col + 1 >= t.cols() && auto {
            let u = t.unstraddled(col, col).put_cell(CellView::blank());
            blanking_keeps_whole(t);
            wrapping_keeps_whole(u);
        }
        super::laws::room_made(s, w);
        writing_keeps_whole(s.make_room(w), text, w);
    }
}

} // verus!
