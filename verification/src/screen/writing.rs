//! Where characters come to stand when they are printed.
use super::model::ScreenView;
use super::sequences::{empty_cell, same_shape};
use crate::cell::CellView;
use crate::cursor::Cursor;
use crate::modes::Modes;
use crate::row::{RowView, WrapOrigin};
use vstd::prelude::*;

verus! {

/// Whether a cell holds a text, in the colors and with the attributes and the link that
/// new cells have.
pub open spec fn written(s: ScreenView, c: CellView, text: Seq<char>) -> bool {
    &&& c.grapheme == text
    &&& c.fg == s.cursor.fg
    &&& c.bg == s.cursor.bg
    &&& c.underline_color == s.cursor.underline_color
    &&& c.underline_style == s.cursor.underline_style
    &&& c.attrs == s.cursor.attrs
    &&& c.hyperlink_id == s.cursor.hyperlink_id
}

/// A character is written at the cursor, where it fits into the row; a wide one takes the
/// next column too. The cursor goes behind it, or stays on the last column with a wrap
/// pending. No other row changes, and in the same row only a neighbor that was half of a
/// wide character, which becomes empty.
#[verifier::spinoff_prover]
pub proof fn printing_where_there_is_room(
    s: ScreenView,
    text: Seq<char>,
    w: u16,
    r: int,
    c: int,
)
    requires
        s.wf(),
        s.in_bounds(),
        w == 1 || w == 2,
        s.cursor.col.0 + w <= s.active.cols,
        !(s.cursor.pending_wrap && s.modes.has(Modes::AUTOWRAP)),
        0 <= r < s.active.rows.len(),
        0 <= c < s.active.cols,
    ensures
        ({
            let t = s.printed_as(text, w);
            let (row, col) = (s.cursor.row.0 as int, s.cursor.col.0 as int);
            let old_row = s.active.rows[row].cells;
            let new_row = t.active.rows[row].cells;
            let full = col + w == s.active.cols;
            &&& written(s, new_row[col], text)
            &&& w == 2 ==> new_row[col + 1].grapheme.len() == 0
            &&& r != row ==> t.active.rows[r] == s.active.rows[r]
            &&& c < col - 1 || c > col + w ==> new_row[c] == old_row[c]
            &&& c == col - 1 || c == col + w ==> new_row[c] == old_row[c] || empty_cell(new_row[c])
            &&& new_row.len() == old_row.len()
            &&& t.cursor == (Cursor {
                col: t.cursor.col,
                pending_wrap: full || s.cursor.pending_wrap,
                ..s.cursor
            })
            &&& !full ==> t.cursor.col.0 == col + w
            &&& full ==> t.cursor.col.0 == s.active.cols - 1
            &&& t == (ScreenView { active: t.active, cursor: t.cursor, ..s })
            &&& t.active.rows[row].mark == s.active.rows[row].mark
            &&& t.active.rows[row].wrap_origin == s.active.rows[row].wrap_origin
        }),
{
    reveal(ScreenView::printed_as);
    let (row, col) = (s.cursor.row.0 as int, s.cursor.col.0 as int);
    assert(s.active.rows[row].cells.len() == s.active.cols);
    assert(s.make_room(w) == s);
}

/// A character behind a full row goes to the start of the next row, as after a carriage
/// return and a line feed; but that row continues the line.
pub proof fn printing_behind_a_full_row(s: ScreenView, text: Seq<char>, w: u16)
    requires
        s.wf(),
        s.in_bounds(),
        w == 1 || w == 2,
        s.active.cols >= 2,
        s.cursor.pending_wrap,
        s.modes.has(Modes::AUTOWRAP),
    ensures
        ({
            let fed = s.controlled(0x0d).controlled(0x0a);
            let row = fed.cursor.row.0 as int;
            let going_on = ScreenView {
                active: crate::grid::GridView {
                    rows: fed.active.rows.update(
                        row,
                        RowView {
                            wrap_origin: WrapOrigin::SoftFrom(row as u32),
                            ..fed.active.rows[row]
                        },
                    ),
                    ..fed.active
                },
                ..fed
            };
            &&& fed.cursor.col.0 == 0 && !fed.cursor.pending_wrap
            &&& s.printed_as(text, w) == going_on.printed_as(text, w)
        }),
{
    wrapping_is_feeding(s);
    let t = s.wrapped();
    assert(t.make_room(w) == s.make_room(w)) by {
        assert(!t.cursor.pending_wrap);
    }
    assert(s.printed_as(text, w) == t.printed_as(text, w)) by {
        reveal(ScreenView::printed_as);
    }
}

proof fn wrapping_is_feeding(s: ScreenView)
    requires
        s.wf(),
        s.in_bounds(),
    ensures
        ({
            let fed = s.controlled(0x0d).controlled(0x0a);
            let row = fed.cursor.row.0 as int;
            &&& fed.cursor.col.0 == 0 && !fed.cursor.pending_wrap
            &&& s.wrapped().modes == s.modes
            &&& s.wrapped() == (ScreenView {
                active: fed.active.with_origin(row, WrapOrigin::SoftFrom(row as u32)),
                ..fed
            })
        }),
{
    let returned = s.at(s.cursor.row.0, 0);
    let fed = returned.next_row(false).settled();
    assert(s.controlled(0x0d).controlled(0x0a) == fed) by {
        reveal(ScreenView::controlled);
    }
    super::print::scrolling_keeps_the_rest(s, 1);
    super::print::scrolling_keeps_the_rest(returned, 1);
    same_rows_are_kept(s, returned);
}

proof fn same_rows_are_kept(s: ScreenView, t: ScreenView)
    requires
        t == (ScreenView { cursor: t.cursor, ..s }),
    ensures
        t.scrolled_up(1).active == s.scrolled_up(1).active,
        t.scrolled_up(1).scrollback == s.scrolled_up(1).scrollback,
        t.scrolled_up(1).placements == s.scrolled_up(1).placements,
{
    let (top, bottom) = s.scroll_region;
    let a = ScreenView { active: s.active.scrolled_up(top, bottom, 1), ..s };
    let b = ScreenView { active: t.active.scrolled_up(top, bottom, 1), ..t };
    keeping_the_same(a, b, s.active.pushed_out(top, bottom, 1));
}

proof fn keeping_the_same(a: ScreenView, b: ScreenView, rows: Seq<RowView>)
    requires
        b == (ScreenView { cursor: b.cursor, ..a }),
    ensures
        b.keep_rows(rows) == (ScreenView { cursor: b.cursor, ..a.keep_rows(rows) }),
    decreases rows.len(),
{
    if rows.len() > 0 {
        keeping_the_same(a, b, rows.drop_last());
    }
}

/// A wide character that does not fit at the end of a row leaves the last column empty
/// and goes to the start of the next row, which continues the line. Without autowrap it
/// takes the last two columns.
#[verifier::spinoff_prover]
pub proof fn a_wide_character_at_the_edge(s: ScreenView, text: Seq<char>)
    requires
        s.wf(),
        s.in_bounds(),
        s.active.cols >= 2,
        s.cursor.col.0 + 1 == s.active.cols,
        !s.cursor.pending_wrap,
        s.cursor.row.0 < s.scroll_region.1,
    ensures
        ({
            let t = s.printed_as(text, 2);
            let row = s.cursor.row.0 as int;
            let last = s.active.cols - 1;
            let here = t.active.rows[row].cells;
            let next = t.active.rows[row + 1];
            &&& s.modes.has(Modes::AUTOWRAP) ==> {
                &&& empty_cell(here[last])
                &&& written(s, next.cells[0], text)
                &&& next.cells[1].grapheme.len() == 0
                &&& next.wrap_origin is SoftFrom
                &&& t.cursor.row.0 == row + 1
                &&& s.active.cols > 2 ==> t.cursor.col.0 == 2 && !t.cursor.pending_wrap
            }
            &&& !s.modes.has(Modes::AUTOWRAP) ==> {
                &&& written(s, here[last - 1], text)
                &&& here[last].grapheme.len() == 0
                &&& t.cursor.row.0 == row
                &&& t.cursor.col.0 == last
                &&& next == s.active.rows[row + 1]
            }
        }),
{
    reveal(ScreenView::printed_as);
    let row = s.cursor.row.0 as int;
    assert(s.active.rows[row].cells.len() == s.active.cols);
    assert(s.active.rows[row + 1].cells.len() == s.active.cols);
}

/// Text without width joins the character before the cursor: the one to the left, or
/// the last of the row above. The cursor stays, and nothing else changes.
pub proof fn printing_without_width(s: ScreenView, text: Seq<char>, r: int, c: int)
    requires
        s.wf(),
        s.in_bounds(),
        0 <= r < s.active.rows.len(),
        0 <= c < s.active.cols,
    ensures
        ({
            let t = s.printed_as(text, 0);
            let (row, col) = (s.cursor.row.0 as int, s.cursor.col.0 as int);
            let before = if col > 0 {
                r == row && c == col - 1
            } else {
                r == row - 1 && c == s.active.cols - 1
            };
            let old_cell = s.active.rows[r].cells[c];
            let new_cell = t.active.rows[r].cells[c];
            &&& same_shape(s, t)
            &&& t == (ScreenView { active: t.active, ..s })
            &&& before ==> new_cell == (CellView { grapheme: old_cell.grapheme + text, ..old_cell })
            &&& !before ==> new_cell == old_cell
        }),
{
    reveal(ScreenView::printed_as);
    assert(s.active.rows[r].cells.len() == s.active.cols);
    if s.cursor.row.0 > 0 {
        assert(s.active.rows[s.cursor.row.0 - 1].cells.len() == s.active.cols);
    }
    assert(s.active.rows[s.cursor.row.0 as int].cells.len() == s.active.cols);
}

} // verus!
