//! What a program sees of each control sequence: which cells, which rows and which
//! position of the cursor it leaves behind.
use super::model::{count, first_of, index, param_or, ScreenView};
use crate::cell::CellView;
use crate::color::Color;
use crate::coords::Col;
use crate::cursor::Cursor;
use crate::modes::Modes;
use crate::row::{RowView, WrapOrigin};
use vstd::prelude::*;
use vstd::utf8::is_ascii_chars_encode_utf8;

verus! {

/// Whether a sequence states the number `n` as its parameter `i`.
pub open spec fn states(p: Seq<Seq<u16>>, i: int, n: int) -> bool {
    0 <= i < p.len() && p[i].len() > 0 && p[i][0] == n
}

/// Whether a sequence leaves its parameter `i` out.
pub open spec fn omits(p: Seq<Seq<u16>>, i: int) -> bool {
    i >= p.len() || p[i].len() == 0
}

/// Whether a sequence asks for something `n` times. Once is what it asks for if it
/// says nothing or zero.
pub open spec fn asks_times(p: Seq<Seq<u16>>, n: int) -> bool {
    states(p, 0, n) && n > 0 || n == 1 && (omits(p, 0) || states(p, 0, 0))
}

/// Whether the parameter `i` of a sequence means the row or column `n`, counted from 0.
/// It is written counted from 1, and the first is meant if it is left out or zero.
pub open spec fn asks_place(p: Seq<Seq<u16>>, i: int, n: int) -> bool {
    states(p, i, n + 1) && n >= 0 || n == 0 && (omits(p, i) || states(p, i, 0))
}

/// Whether a cell is a space in the default colors.
pub open spec fn empty_cell(c: CellView) -> bool {
    &&& c.grapheme == seq![' ']
    &&& c.fg == Color::Default
    &&& c.bg == Color::Default
    &&& c.underline_color == Color::Default
    &&& c.underline_style == crate::attrs::UnderlineStyle::Off
    &&& c.attrs.bits == 0
    &&& c.hyperlink_id is None
}

/// Whether a row is empty, begins a line, and has no mark.
pub open spec fn empty_row(row: RowView, cols: int) -> bool {
    &&& row.cells.len() == cols
    &&& forall|c: int| 0 <= c < cols ==> empty_cell(#[trigger] row.cells[c])
    &&& row.wrap_origin == WrapOrigin::Hard
    &&& row.mark.flags == 0
}

/// Whether two screens have the same shape: as many rows, each as long as before.
pub open spec fn same_shape(s: ScreenView, t: ScreenView) -> bool {
    &&& t.active.cols == s.active.cols
    &&& t.active.rows.len() == s.active.rows.len()
    &&& forall|r: int|
        0 <= r < s.active.rows.len() ==> (#[trigger] t.active.rows[r]).cells.len()
            == s.active.rows[r].cells.len()
}

/// Whether nothing but the grid changed, and the cursor stays where it is with no wrap
/// pending.
pub open spec fn only_the_grid(s: ScreenView, t: ScreenView) -> bool {
    t == (ScreenView {
        active: t.active,
        cursor: Cursor { pending_wrap: false, ..s.cursor },
        ..s
    })
}

/// Whether nothing but the position of the cursor changed, and no wrap is pending.
pub open spec fn only_moved(s: ScreenView, t: ScreenView) -> bool {
    t == (ScreenView {
        cursor: Cursor {
            row: t.cursor.row,
            col: t.cursor.col,
            pending_wrap: false,
            ..s.cursor
        },
        ..s
    })
}

/// Whether the place `(r, c)` stands before the cursor in reading order.
pub open spec fn before_cursor(s: ScreenView, r: int, c: int) -> bool {
    r < s.cursor.row.0 || r == s.cursor.row.0 && c < s.cursor.col.0
}

/// Whether the place `(r, c)` stands behind the cursor in reading order.
pub open spec fn behind_cursor(s: ScreenView, r: int, c: int) -> bool {
    r > s.cursor.row.0 || r == s.cursor.row.0 && c > s.cursor.col.0
}

/// What the letters of the sequences stand for.
proof fn sequences_are_told_apart(s: ScreenView, p: Seq<Seq<u16>>, inter: Seq<u8>)
    ensures
        s.csi(p, inter, 'J') == s.display_erased(param_or(p, 0, 0)),
        s.csi(p, inter, 'K') == s.line_erased(param_or(p, 0, 0)),
        s.csi(p, inter, 'X') == s.cells_erased(count(p)),
        s.csi(p, inter, 'A') == s.cursor_up(count(p)),
        s.csi(p, inter, 'B') == s.cursor_down(count(p)),
        s.csi(p, inter, 'H') == s.cursor_to(index(p, 0), index(p, 1)),
        s.csi(p, inter, 'S') == s.scrolled_up(count(p)),
        s.csi(p, inter, '@') == s.blanks_inserted(count(p)),
        s.csi(p, inter, 'P') == s.chars_deleted(count(p)),
        s.csi(p, inter, 'L') == s.lines_inserted(count(p)),
        s.csi(p, inter, 'M') == s.lines_deleted(count(p)),
        s.csi(p, inter, 'n') == s.status_reported(
            first_of(inter) == Some(0x3fu8),
            param_or(p, 0, 0),
        ),
        s.csi(p, inter, 't') == s.size_reported(param_or(p, 0, 0)),
        s.csi(p, inter, 'u') == s.kitty_keys(p, inter),
        s.csi(p, inter, 'h') == s.modes_set(p, first_of(inter) == Some(0x3fu8), true),
        s.csi(p, inter, 'l') == s.modes_set(p, first_of(inter) == Some(0x3fu8), false),
        s.csi(p, inter, 'r') == s.region_set(index(p, 0), param_or(p, 1, s.rows())),
{
    reveal(ScreenView::csi);
}

/// Erasing the display leaves no cell at the cursor or behind it, or none at the cursor
/// or before it, or none at all, and every other cell as it was. Rows keep their marks
/// unless all is erased.
pub proof fn erasing_the_display(
    s: ScreenView,
    p: Seq<Seq<u16>>,
    inter: Seq<u8>,
    r: int,
    c: int,
)
    requires
        s.wf(),
        s.in_bounds(),
        0 <= r < s.active.rows.len(),
        0 <= c < s.active.cols,
    ensures
        ({
            let t = s.csi(p, inter, 'J');
            let before = s.active.rows[r];
            let after = t.active.rows[r];
            let down = omits(p, 0) || states(p, 0, 0);
            let up = states(p, 0, 1);
            let all = states(p, 0, 2) || states(p, 0, 3);
            &&& only_the_grid(s, t) && same_shape(s, t)
            &&& down && !before_cursor(s, r, c) ==> empty_cell(after.cells[c])
            &&& down && before_cursor(s, r, c) ==> after.cells[c] == before.cells[c]
            &&& up && !behind_cursor(s, r, c) ==> empty_cell(after.cells[c])
            &&& up && behind_cursor(s, r, c) ==> after.cells[c] == before.cells[c]
            &&& all ==> empty_row(after, s.active.cols as int)
            &&& !all ==> after.mark == before.mark && after.wrap_origin == before.wrap_origin
            &&& !down && !up && !all ==> after == before
        }),
{
    sequences_are_told_apart(s, p, inter);
}

/// Erasing a line leaves no cell of the cursor's row at the cursor or right of it, or
/// none at the cursor or left of it, or none at all. Every other cell stays, and the row
/// keeps its mark.
pub proof fn erasing_a_line(s: ScreenView, p: Seq<Seq<u16>>, inter: Seq<u8>, r: int, c: int)
    requires
        s.wf(),
        s.in_bounds(),
        0 <= r < s.active.rows.len(),
        0 <= c < s.active.cols,
    ensures
        ({
            let t = s.csi(p, inter, 'K');
            let before = s.active.rows[r];
            let after = t.active.rows[r];
            let right = omits(p, 0) || states(p, 0, 0) || states(p, 0, 2);
            let left = states(p, 0, 1) || states(p, 0, 2);
            let erased = r == s.cursor.row.0 && (right && c >= s.cursor.col.0 || left && c
                <= s.cursor.col.0);
            &&& only_the_grid(s, t) && same_shape(s, t)
            &&& erased ==> empty_cell(after.cells[c])
            &&& !erased ==> after.cells[c] == before.cells[c]
            &&& after.mark == before.mark && after.wrap_origin == before.wrap_origin
        }),
{
    reveal(ScreenView::csi);
}

/// Erasing characters leaves none in as many cells as are asked for, from the cursor on
/// and not beyond its row. No cell moves.
pub proof fn erasing_characters(
    s: ScreenView,
    p: Seq<Seq<u16>>,
    inter: Seq<u8>,
    n: int,
    r: int,
    c: int,
)
    requires
        s.wf(),
        s.in_bounds(),
        asks_times(p, n),
        0 <= r < s.active.rows.len(),
        0 <= c < s.active.cols,
    ensures
        ({
            let t = s.csi(p, inter, 'X');
            let before = s.active.rows[r];
            let after = t.active.rows[r];
            let erased = r == s.cursor.row.0 && s.cursor.col.0 <= c < s.cursor.col.0 + n;
            &&& only_the_grid(s, t) && same_shape(s, t)
            &&& erased ==> empty_cell(after.cells[c])
            &&& !erased ==> after.cells[c] == before.cells[c]
            &&& after.mark == before.mark && after.wrap_origin == before.wrap_origin
        }),
{
    reveal(ScreenView::csi);
}

/// The cursor goes up and down by as many rows as are asked for, and not past the margin
/// of the scroll region or, from outside of it, the edge of the screen. It stays in its
/// column.
pub proof fn moving_up_and_down(s: ScreenView, p: Seq<Seq<u16>>, inter: Seq<u8>, n: int)
    requires
        s.wf(),
        s.in_bounds(),
        asks_times(p, n),
    ensures
        ({
            let t = s.csi(p, inter, 'A');
            let row = s.cursor.row.0;
            let edge: int = if row >= s.scroll_region.0 {
                s.scroll_region.0 as int
            } else {
                0
            };
            &&& only_moved(s, t) && t.cursor.col == s.cursor.col
            &&& row - n >= edge ==> t.cursor.row.0 == row - n
            &&& row - n < edge ==> t.cursor.row.0 == edge
        }),
        ({
            let t = s.csi(p, inter, 'B');
            let row = s.cursor.row.0;
            let edge: int = if row <= s.scroll_region.1 {
                s.scroll_region.1 as int
            } else {
                s.active.rows.len() - 1
            };
            &&& only_moved(s, t) && t.cursor.col == s.cursor.col
            &&& row + n <= edge ==> t.cursor.row.0 == row + n
            &&& row + n > edge ==> t.cursor.row.0 == edge
        }),
{
    reveal(ScreenView::csi);
}

/// The cursor goes right and left by as many columns as are asked for, and not past the
/// edge of the screen. It stays in its row.
pub proof fn moving_left_and_right(s: ScreenView, p: Seq<Seq<u16>>, inter: Seq<u8>, n: int)
    requires
        s.wf(),
        s.in_bounds(),
        asks_times(p, n),
    ensures
        ({
            let t = s.csi(p, inter, 'C');
            let to = s.cursor.col.0 + n;
            &&& only_moved(s, t) && t.cursor.row == s.cursor.row
            &&& to < s.active.cols ==> t.cursor.col.0 == to
            &&& to >= s.active.cols ==> t.cursor.col.0 == s.active.cols - 1
        }),
        ({
            let t = s.csi(p, inter, 'D');
            let to = s.cursor.col.0 - n;
            &&& only_moved(s, t) && t.cursor.row == s.cursor.row
            &&& to >= 0 ==> t.cursor.col.0 == to
            &&& to < 0 ==> t.cursor.col.0 == 0
        }),
{
    reveal(ScreenView::csi);
}

/// The cursor goes to the row and the column that are asked for, or to the last one. In
/// origin mode rows are counted from the top of the scroll region, and the cursor does
/// not leave it.
pub proof fn going_to_a_place(
    s: ScreenView,
    p: Seq<Seq<u16>>,
    inter: Seq<u8>,
    row: int,
    col: int,
)
    requires
        s.wf(),
        s.in_bounds(),
        asks_place(p, 0, row),
        asks_place(p, 1, col),
    ensures
        ({
            let t = s.csi(p, inter, 'H');
            let (top, bottom) = if s.modes.has(Modes::ORIGIN) {
                (s.scroll_region.0 as int, s.scroll_region.1 as int)
            } else {
                (0int, s.active.rows.len() - 1)
            };
            &&& only_moved(s, t)
            &&& top + row <= bottom ==> t.cursor.row.0 == top + row
            &&& top + row > bottom ==> t.cursor.row.0 == bottom
            &&& col < s.active.cols ==> t.cursor.col.0 == col
            &&& col >= s.active.cols ==> t.cursor.col.0 == s.active.cols - 1
            &&& s.csi(p, inter, 'f') == t
        }),
        ({
            let t = s.csi(p, inter, 'd');
            &&& only_moved(s, t) && t.cursor.col == s.cursor.col
            &&& t.cursor.row == s.csi(p, inter, 'H').cursor.row
        }),
        ({
            let t = s.csi(p, inter, 'G');
            &&& only_moved(s, t) && t.cursor.row == s.cursor.row
            &&& row < s.active.cols ==> t.cursor.col.0 == row
            &&& row >= s.active.cols ==> t.cursor.col.0 == s.active.cols - 1
        }),
{
    reveal(ScreenView::csi);
}

/// The position that the cursor was sent to is the one that a report of its position
/// states: row and column, counted from 1.
pub proof fn a_position_is_reported_as_it_was_asked_for(
    s: ScreenView,
    p: Seq<Seq<u16>>,
    q: Seq<Seq<u16>>,
    inter: Seq<u8>,
    row: int,
    col: int,
)
    requires
        s.wf(),
        s.in_bounds(),
        !s.modes.has(Modes::ORIGIN),
        states(p, 0, row),
        states(p, 1, col),
        1 <= row <= s.active.rows.len(),
        1 <= col <= s.active.cols,
        states(q, 0, 6),
        inter.len() == 0,
    ensures
        ({
            let t = s.csi(p, inter, 'H');
            t.csi(q, inter, 'n').replies == t.replies.push(
                seq![0x1bu8, 0x5bu8] + crate::reply::decimal(row as nat) + seq![0x3bu8]
                    + crate::reply::decimal(col as nat) + seq![0x52u8],
            )
        }),
{
    let t = s.csi(p, inter, 'H');
    sequences_are_told_apart(s, p, inter);
    sequences_are_told_apart(t, q, inter);
    reveal_strlit("\x1b[");
    reveal_strlit(";");
    reveal_strlit("R");
    is_ascii_chars_encode_utf8("\x1b["@);
    is_ascii_chars_encode_utf8(";"@);
    is_ascii_chars_encode_utf8("R"@);
    assert(super::model::b("\x1b["@) =~= seq![0x1bu8, 0x5bu8]);
    assert(super::model::b(";"@) =~= seq![0x3bu8]);
    assert(super::model::b("R"@) =~= seq![0x52u8]);
    assert(t.cursor.row.0 == row - 1 && t.cursor.col.0 == col - 1);
}

/// Scrolling up moves the rows of the scroll region up by as many as are asked for, and
/// what comes in below is empty. Rows outside of the region and the cursor stay.
pub proof fn scrolling_up(s: ScreenView, p: Seq<Seq<u16>>, inter: Seq<u8>, n: int, r: int)
    requires
        s.wf(),
        s.in_bounds(),
        asks_times(p, n),
        0 <= r < s.active.rows.len(),
    ensures
        ({
            let t = s.csi(p, inter, 'S');
            let (top, bottom) = s.scroll_region;
            &&& same_shape(s, t)
            &&& t.cursor == s.cursor
            &&& r < top || r > bottom ==> t.active.rows[r] == s.active.rows[r]
            &&& top <= r && r + n <= bottom ==> t.active.rows[r] == s.active.rows[r + n]
            &&& top <= r <= bottom < r + n ==> empty_row(
                t.active.rows[r],
                s.active.cols as int,
            )
        }),
{
    assert(s.csi(p, inter, 'S') == s.scrolled_up(n as u16)) by {
        reveal(ScreenView::csi);
    }
    super::print::scrolling_keeps_the_rest(s, n as u16);
}

/// Scrolling down moves the rows of the scroll region down by as many as are asked for,
/// and what comes in above is empty. Rows outside of the region, the cursor and the
/// scrollback stay.
pub proof fn scrolling_down(s: ScreenView, p: Seq<Seq<u16>>, inter: Seq<u8>, n: int, r: int)
    requires
        s.wf(),
        s.in_bounds(),
        asks_times(p, n),
        0 <= r < s.active.rows.len(),
    ensures
        ({
            let t = s.csi(p, inter, 'T');
            let (top, bottom) = s.scroll_region;
            &&& t == (ScreenView { active: t.active, ..s }) && same_shape(s, t)
            &&& r < top || r > bottom ==> t.active.rows[r] == s.active.rows[r]
            &&& top <= r - n && r <= bottom ==> t.active.rows[r] == s.active.rows[r - n]
            &&& r - n < top <= r <= bottom ==> empty_row(
                t.active.rows[r],
                s.active.cols as int,
            )
        }),
{
    assert(s.csi(p, inter, 'T').active == s.active.scrolled_down(
        s.scroll_region.0,
        s.scroll_region.1,
        n as u16,
    ) && s.csi(p, inter, 'T') == (ScreenView { active: s.csi(p, inter, 'T').active, ..s })) by {
        reveal(ScreenView::csi);
    }
}

/// Inserting lines moves the cursor's row and those below it down within the scroll
/// region, and empty rows come in above them. The cursor goes to the first column.
/// Outside of the region nothing happens.
pub proof fn inserting_lines(s: ScreenView, p: Seq<Seq<u16>>, inter: Seq<u8>, n: int, r: int)
    requires
        s.wf(),
        s.in_bounds(),
        asks_times(p, n),
        0 <= r < s.active.rows.len(),
    ensures
        ({
            let t = s.csi(p, inter, 'L');
            let (top, bottom) = s.scroll_region;
            let at = s.cursor.row.0;
            &&& at < top || at > bottom ==> t == s
            &&& top <= at <= bottom ==> {
                &&& same_shape(s, t)
                &&& t == (ScreenView {
                    active: t.active,
                    cursor: Cursor { col: Col(0), pending_wrap: false, ..s.cursor },
                    ..s
                })
                &&& r < at || r > bottom ==> t.active.rows[r] == s.active.rows[r]
                &&& at <= r - n && r <= bottom ==> t.active.rows[r] == s.active.rows[r - n]
                &&& r - n < at <= r <= bottom ==> empty_row(
                    t.active.rows[r],
                    s.active.cols as int,
                )
            }
        }),
{
    assert(s.csi(p, inter, 'L') == s.lines_inserted(n as u16)) by {
        reveal(ScreenView::csi);
    }
}

/// Deleting lines moves the rows below the cursor's row up over it within the scroll
/// region, and empty rows come in below them. What is deleted is gone: it does not go to
/// the scrollback. The cursor goes to the first column. Outside of the region nothing
/// happens.
pub proof fn deleting_lines(s: ScreenView, p: Seq<Seq<u16>>, inter: Seq<u8>, n: int, r: int)
    requires
        s.wf(),
        s.in_bounds(),
        asks_times(p, n),
        0 <= r < s.active.rows.len(),
    ensures
        ({
            let t = s.csi(p, inter, 'M');
            let (top, bottom) = s.scroll_region;
            let at = s.cursor.row.0;
            &&& at < top || at > bottom ==> t == s
            &&& top <= at <= bottom ==> {
                &&& same_shape(s, t)
                &&& t == (ScreenView {
                    active: t.active,
                    cursor: Cursor { col: Col(0), pending_wrap: false, ..s.cursor },
                    ..s
                })
                &&& r < at || r > bottom ==> t.active.rows[r] == s.active.rows[r]
                &&& at <= r && r + n <= bottom ==> t.active.rows[r] == s.active.rows[r + n]
                &&& at <= r <= bottom < r + n ==> empty_row(
                    t.active.rows[r],
                    s.active.cols as int,
                )
            }
        }),
{
    assert(s.csi(p, inter, 'M') == s.lines_deleted(n as u16)) by {
        reveal(ScreenView::csi);
    }
}

/// Inserting characters moves the cells of the cursor's row at the cursor and right of
/// it to the right, and empty cells come in at the cursor. Of a wide character that this
/// cuts in half nothing is left.
pub proof fn inserting_characters(
    s: ScreenView,
    p: Seq<Seq<u16>>,
    inter: Seq<u8>,
    n: int,
    r: int,
    c: int,
)
    requires
        s.wf(),
        s.in_bounds(),
        asks_times(p, n),
        0 <= r < s.active.rows.len(),
        0 <= c < s.active.cols,
    ensures
        ({
            let t = s.csi(p, inter, '@');
            let at = s.cursor.col.0;
            let before = s.active.rows[r];
            let after = t.active.rows[r];
            let from = if c < at {
                c
            } else {
                c - n
            };
            &&& only_the_grid(s, t) && same_shape(s, t)
            &&& r != s.cursor.row.0 ==> after == before
            &&& after.mark == before.mark && after.wrap_origin == before.wrap_origin
            &&& r == s.cursor.row.0 && at <= c < at + n ==> empty_cell(after.cells[c])
            &&& r == s.cursor.row.0 && !(at <= c < at + n) ==> {
                ||| after.cells[c] == before.cells[from]
                ||| empty_cell(after.cells[c]) && (before.cells[from].is_wide()
                    || before.cells[from].is_spacer())
            }
        }),
{
    assert(s.csi(p, inter, '@') == s.blanks_inserted(n as u16)) by {
        reveal(ScreenView::csi);
    }
}

/// Deleting characters moves the cells of the cursor's row right of the cursor to the
/// left over it, and empty cells come in at the edge. Of a wide character that this cuts
/// in half nothing is left.
pub proof fn deleting_characters(
    s: ScreenView,
    p: Seq<Seq<u16>>,
    inter: Seq<u8>,
    n: int,
    r: int,
    c: int,
)
    requires
        s.wf(),
        s.in_bounds(),
        asks_times(p, n),
        0 <= r < s.active.rows.len(),
        0 <= c < s.active.cols,
    ensures
        ({
            let t = s.csi(p, inter, 'P');
            let at = s.cursor.col.0;
            let before = s.active.rows[r];
            let after = t.active.rows[r];
            let from = if c < at {
                c
            } else {
                c + n
            };
            &&& only_the_grid(s, t) && same_shape(s, t)
            &&& r != s.cursor.row.0 ==> after == before
            &&& after.mark == before.mark && after.wrap_origin == before.wrap_origin
            &&& r == s.cursor.row.0 && from >= s.active.cols ==> empty_cell(after.cells[c])
            &&& r == s.cursor.row.0 && from < s.active.cols ==> {
                ||| after.cells[c] == before.cells[from]
                ||| empty_cell(after.cells[c]) && (before.cells[from].is_wide()
                    || before.cells[from].is_spacer())
            }
        }),
{
    assert(s.csi(p, inter, 'P') == s.chars_deleted(n as u16)) by {
        reveal(ScreenView::csi);
    }
}

/// The scroll region is what is asked for, where that is at least two rows of the
/// screen, and else the whole screen. The cursor goes home: to the top left of the
/// screen, or of the region in origin mode.
pub proof fn setting_the_scroll_region(
    s: ScreenView,
    p: Seq<Seq<u16>>,
    inter: Seq<u8>,
    top: int,
    bottom: int,
)
    requires
        s.wf(),
        s.in_bounds(),
        asks_place(p, 0, top),
    ensures
        ({
            let t = s.csi(p, inter, 'r');
            let last = s.active.rows.len() - 1;
            &&& only_moved(ScreenView { scroll_region: t.scroll_region, ..s }, t)
            &&& t.cursor.col.0 == 0
            &&& s.modes.has(Modes::ORIGIN) ==> t.cursor.row.0 == t.scroll_region.0
            &&& !s.modes.has(Modes::ORIGIN) ==> t.cursor.row.0 == 0
            &&& states(p, 1, bottom + 1) && top < bottom <= last ==> within_region(t, top, bottom)
            &&& states(p, 1, bottom + 1) && top < last < bottom ==> within_region(t, top, last)
            &&& omits(p, 1) && top < last ==> within_region(t, top, last)
            &&& top >= last || states(p, 1, bottom + 1) && bottom <= top ==> within_region(
                t,
                0,
                last,
            )
        }),
{
    assert(s.csi(p, inter, 'r') == s.region_set(top as u16, param_or(p, 1, s.rows()))) by {
        reveal(ScreenView::csi);
    }
}

/// Whether the scroll region reaches from one row to the other.
pub open spec fn within_region(s: ScreenView, top: int, bottom: int) -> bool {
    s.scroll_region.0 == top && s.scroll_region.1 == bottom
}

/// A line feed goes one row down. At the bottom of the scroll region the rows of the
/// region go up instead, and an empty one comes in; below the region the cursor stops at
/// the last row. The column stays. Vertical tab, form feed and the index sequence are
/// line feeds.
pub proof fn feeding_a_line(s: ScreenView, r: int)
    requires
        s.wf(),
        s.in_bounds(),
        0 <= r < s.active.rows.len(),
    ensures
        ({
            let t = s.controlled(0x0a);
            let (top, bottom) = s.scroll_region;
            let row = s.cursor.row.0;
            &&& same_shape(s, t)
            &&& t.cursor == (Cursor { row: t.cursor.row, pending_wrap: false, ..s.cursor })
            &&& row != bottom ==> t.active == s.active && t.scrollback == s.scrollback
            &&& row != bottom && row + 1 < s.active.rows.len() ==> t.cursor.row.0 == row + 1
            &&& row != bottom && row + 1 == s.active.rows.len() ==> t.cursor.row.0 == row
            &&& row == bottom ==> t.cursor.row.0 == row
            &&& row == bottom && (r < top || r > bottom) ==> t.active.rows[r]
                == s.active.rows[r]
            &&& row == bottom && top <= r < bottom ==> t.active.rows[r] == s.active.rows[r + 1]
            &&& row == bottom && r == bottom ==> empty_row(
                t.active.rows[r],
                s.active.cols as int,
            )
            &&& s.controlled(0x0b) == t && s.controlled(0x0c) == t
            &&& s.esc(Seq::empty(), 0x44) == t
        }),
{
    reveal(ScreenView::controlled);
    reveal(ScreenView::esc);
    super::print::scrolling_keeps_the_rest(s, 1);
}

/// A carriage return goes to the first column and stays in the row; a backspace goes one
/// column to the left. Next line is a carriage return and a line feed.
pub proof fn returning_and_backspacing(s: ScreenView)
    requires
        s.wf(),
        s.in_bounds(),
    ensures
        only_moved(s, s.controlled(0x0d)),
        s.controlled(0x0d).cursor.row == s.cursor.row,
        s.controlled(0x0d).cursor.col.0 == 0,
        only_moved(s, s.controlled(0x08)),
        s.controlled(0x08).cursor.row == s.cursor.row,
        s.cursor.col.0 > 0 ==> s.controlled(0x08).cursor.col.0 == s.cursor.col.0 - 1,
        s.cursor.col.0 == 0 ==> s.controlled(0x08).cursor.col.0 == 0,
        s.esc(Seq::empty(), 0x45) == s.controlled(0x0d).controlled(0x0a),
{
    reveal(ScreenView::controlled);
    reveal(ScreenView::esc);
    let a = ScreenView { cursor: Cursor { col: Col(0), ..s.cursor }, ..s };
    super::print::scrolling_keeps_the_rest(a, 1);
    super::print::scrolling_keeps_the_rest(s.controlled(0x0d), 1);
    let b = s.controlled(0x0d);
    assert(b == a.settled());
    if s.cursor.row.0 == s.scroll_region.1 {
        settling_and_scrolling(a);
    }
}

/// A wrap that is pending makes no difference to scrolling.
proof fn settling_and_scrolling(s: ScreenView)
    ensures
        s.settled().scrolled_up(1).settled() == s.scrolled_up(1).settled(),
{
    let (top, bottom) = s.scroll_region;
    let g = s.active.scrolled_up(top, bottom, 1);
    settling_and_keeping(
        ScreenView { active: g, ..s },
        s.active.pushed_out(top, bottom, 1),
    );
}

proof fn settling_and_keeping(s: ScreenView, rows: Seq<RowView>)
    ensures
        s.settled().keep_rows(rows) == s.keep_rows(rows).settled(),
    decreases rows.len(),
{
    if rows.len() > 0 {
        settling_and_keeping(s, rows.drop_last());
    }
}

/// Reverse index goes one row up. At the top of the scroll region the rows of the region
/// go down instead, and an empty one comes in. It takes back an index that scrolled
/// nothing.
pub proof fn going_back_a_line(s: ScreenView, r: int)
    requires
        s.wf(),
        s.in_bounds(),
        0 <= r < s.active.rows.len(),
    ensures
        ({
            let t = s.esc(Seq::empty(), 0x4d);
            let (top, bottom) = s.scroll_region;
            let row = s.cursor.row.0;
            &&& same_shape(s, t) && t.scrollback == s.scrollback
            &&& t.cursor.col == s.cursor.col
            &&& row != top ==> t.active == s.active
            &&& row != top && row > 0 ==> t.cursor.row.0 == row - 1
            &&& row != top && row == 0 ==> t.cursor.row.0 == 0
            &&& row == top ==> t.cursor.row.0 == row
            &&& row == top && (r < top || r > bottom) ==> t.active.rows[r] == s.active.rows[r]
            &&& row == top && top < r <= bottom ==> t.active.rows[r] == s.active.rows[r - 1]
            &&& row == top && r == top ==> empty_row(t.active.rows[r], s.active.cols as int)
            &&& row < bottom && row + 1 != top ==> s.controlled(0x0a).esc(
                Seq::empty(),
                0x4d,
            ).cursor.row == s.cursor.row
        }),
{
    reveal(ScreenView::controlled);
    reveal(ScreenView::esc);
}

/// A tab goes to the nearest tab stop right of the cursor, or to the last column if there
/// is none on the screen.
pub proof fn tabbing(s: ScreenView, k: int)
    requires
        s.wf(),
        s.in_bounds(),
        s.tabs.len() == s.active.cols,
    ensures
        ({
            let t = s.controlled(0x09);
            let to = t.cursor.col.0 as int;
            let last = s.active.cols - 1;
            &&& only_moved(s, t) && t.cursor.row == s.cursor.row
            &&& s.cursor.col.0 < last ==> s.cursor.col.0 < to <= last
            &&& s.cursor.col.0 == last ==> to == last
            &&& s.tabs[to] || to == last
            &&& s.cursor.col.0 < k < to ==> !s.tabs[k]
        }),
{
    reveal(ScreenView::controlled);
    crate::tabs::the_next_stop_is_the_nearest(s.tabs, s.cursor.col.0, k);
}

/// Setting a tab stop sets the one at the cursor, and clearing it clears that one, or
/// all. No other stop changes.
pub proof fn setting_and_clearing_stops(s: ScreenView, p: Seq<Seq<u16>>, inter: Seq<u8>, k: int)
    requires
        s.wf(),
        s.in_bounds(),
        s.tabs.len() == s.active.cols,
        0 <= k < s.tabs.len(),
    ensures
        ({
            let set = s.esc(Seq::empty(), 0x48);
            let cleared = s.csi(p, inter, 'g');
            let here = k == s.cursor.col.0;
            &&& set == (ScreenView { tabs: set.tabs, ..s }) && set.tabs.len() == s.tabs.len()
            &&& set.tabs[k] == (here || s.tabs[k])
            &&& cleared == (ScreenView { tabs: cleared.tabs, ..s })
            &&& cleared.tabs.len() == s.tabs.len()
            &&& omits(p, 0) || states(p, 0, 0) ==> cleared.tabs[k] == (s.tabs[k] && !here)
            &&& states(p, 0, 3) ==> !cleared.tabs[k]
            &&& !omits(p, 0) && !states(p, 0, 0) && !states(p, 0, 3) ==> cleared == s
        }),
{
    reveal(ScreenView::csi);
    reveal(ScreenView::esc);
}

/// The rows that leave the top of the main screen are the newest of the scrollback, in
/// the order in which they left. Nothing else goes there: not what leaves a region
/// further down, and not what leaves the alternate screen.
pub proof fn what_scrolls_off_is_kept(s: ScreenView, p: Seq<Seq<u16>>, inter: Seq<u8>, n: int)
    requires
        s.wf(),
        s.in_bounds(),
        asks_times(p, n),
        s.scrollback.rows.len() + s.active.rows.len() <= s.scrollback.cap,
    ensures
        ({
            let t = s.csi(p, inter, 'S');
            let (top, bottom) = s.scroll_region;
            &&& top > 0 || s.alt is Some ==> t.scrollback == s.scrollback
            &&& top == 0 && s.alt is None && n <= bottom + 1 ==> t.scrollback.rows
                == s.scrollback.rows + s.active.rows.take(n)
            &&& top == 0 && s.alt is None && n > bottom + 1 ==> t.scrollback.rows
                == s.scrollback.rows + s.active.rows.take(bottom + 1)
        }),
{
    assert(s.csi(p, inter, 'S') == s.scrolled_up(n as u16)) by {
        reveal(ScreenView::csi);
    }
    super::laws::only_the_top_feeds_the_scrollback(s, n as u16);
    let out = s.active.pushed_out(s.scroll_region.0, s.scroll_region.1, n as u16);
    crate::scrollback::pushing_rows_keeps_the_newest(s.scrollback, out);
    if s.scroll_region.0 == 0 {
        assert(out =~= s.active.rows.take(out.len() as int));
    }
}

} // verus!
