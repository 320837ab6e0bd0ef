//! Printing text and moving to the next row.
use super::model::{moved_up, ScreenView};
use super::Screen;
use crate::cell::Cell;
use crate::coords::{smaller, Col};
use crate::graphics::Placement;
use crate::modes::Modes;
use crate::row::{Row, WrapOrigin};
use crate::text::smol;
use crate::width::display_width;
use vstd::prelude::*;
use vstd::string::StringExecFns;

verus! {

broadcast use crate::row::group_contents;

/// Moves the anchors of placements up by `n` lines.
fn move_up(list: &mut Vec<Placement>, n: u32)
    ensures
        final(list)@ == moved_up(old(list)@, n),
{
    let ghost before = list@;
    let mut kept: Vec<Placement> = Vec::new();
    let mut i: usize = 0;
    assert(before.take(0).len() == 0);
    while i < list.len()
        invariant
            i <= list.len(),
            list@ == before,
            kept@ == moved_up(before.take(i as int), n),
        decreases list.len() - i,
    {
        assert(before.take(i + 1).drop_last() =~= before.take(i as int));
        let p: Placement = list[i];
        if p.anchor_line >= n {
            kept.push(Placement { anchor_line: p.anchor_line - n, ..p });
        }
        i += 1;
    }
    assert(before.take(i as int) =~= before);
    *list = kept;
}

proof fn moving_by_nothing(s: Seq<Placement>)
    ensures
        moved_up(s, 0) == s,
    decreases s.len(),
{
    if s.len() > 0 {
        moving_by_nothing(s.drop_last());
        assert(s.drop_last().push(s.last()) =~= s);
    }
}

impl Screen {
    /// Puts a row into the scrollback. Placements keep to their lines.
    fn push_scrollback(&mut self, row: Row)
        requires
            old(self)@.wf(),
        ensures
            final(self)@ == old(self)@.keep_row(row@),
            final(self)@.wf(),
    {
        let ghost before = self@;
        let evicted: usize = self.scrollback.push(row);
        proof {
            crate::scrollback::scrollback_is_bounded_and_in_order(before.scrollback, row@);
            moving_by_nothing(before.placements);
        }
        if evicted > 0 {
            move_up(&mut self.placements, evicted as u32);
        }
    }

    /// Moves the scroll region up by `n` rows.
    pub(crate) fn scroll_region_up(&mut self, n: u16)
        requires
            old(self)@.wf(),
        ensures
            final(self)@ == old(self)@.scrolled_up(n),
            final(self)@.wf(),
            final(self)@.cursor == old(self)@.cursor,
            final(self)@.scroll_region == old(self)@.scroll_region,
            final(self)@.active.rows.len() == old(self)@.active.rows.len(),
            final(self)@.active.cols == old(self)@.active.cols,
    {
        let ghost before = self@;
        let (top, bottom) = self.scroll_region;
        if self.alt.is_none() && top == 0 {
            let mut popped: Vec<Row> = Vec::new();
            self.active.scroll_up(top, bottom, n, Some(&mut popped));
            let ghost out = before.active.pushed_out(top, bottom, n);
            let ghost next = ScreenView {
                active: before.active.scrolled_up(top, bottom, n),
                ..before
            };
            assert(crate::row::rows_view(popped@) =~= out);
            for row in it: popped
                invariant
                    it.seq() == popped@,
                    out == crate::row::rows_view(popped@),
                    self@.wf(),
                    self@ == next.keep_rows(out.take(it.index() as int)),
                    self@.cursor == before.cursor,
                    self@.scroll_region == before.scroll_region,
                    self@.active == next.active,
            {
                assert(out.take(it.index() + 1).drop_last() =~= out.take(it.index() as int));
                assert(out.take(it.index() + 1).last() == row@);
                self.push_scrollback(row);
            }
            assert(out.take(out.len() as int) =~= out);
        } else {
            self.active.scroll_up(top, bottom, n, None);
        }
    }

    /// Moves the cursor to the next row. At the bottom of the scroll region, the
    /// region moves up instead. With `soft_wrap` the new row continues the line.
    pub fn advance_to_next_row(&mut self, soft_wrap: bool)
        requires
            old(self)@.wf(),
        ensures
            final(self)@ == old(self)@.next_row(soft_wrap),
            final(self)@.wf(),
            final(self)@.active.cols == old(self)@.active.cols,
            final(self)@.modes == old(self)@.modes,
    {
        let bottom: u16 = self.scroll_region.1;
        let row: u16 = self.cursor.row.get();
        let ghost before = self@;
        if row == bottom {
            self.scroll_region_up(1);
            proof {
                scrolling_keeps_the_rest(before, 1);
            }
        } else if row > bottom {
            self.cursor.row = crate::coords::Row::new(
                smaller(row.saturating_add(1), self.rows().saturating_sub(1)),
            );
        } else {
            self.cursor.row = crate::coords::Row::new(row + 1);
        }
        if soft_wrap {
            let dest: u16 = self.cursor.row.get();
            if (dest as usize) < self.active.rows.len() {
                let ghost moved = self@;
                self.active.rows[dest as usize].wrap_origin = WrapOrigin::SoftFrom(dest as u32);
                assert(self@.active.rows =~= moved.active.with_origin(
                    dest as int,
                    WrapOrigin::SoftFrom(dest as u32),
                ).rows);
            }
        }
    }

    fn wrap_to_next_row(&mut self)
        requires
            old(self)@.wf(),
        ensures
            final(self)@ == old(self)@.wrapped(),
            final(self)@.wf(),
            final(self)@.active.cols == old(self)@.active.cols,
            final(self)@.modes == old(self)@.modes,
            final(self)@.cursor.col.0 == 0,
    {
        self.advance_to_next_row(true);
        self.cursor.col = Col::new(0);
        self.cursor.pending_wrap = false;
    }

    fn put_cell_at_cursor(&mut self, cell: Cell)
        requires
            old(self)@.wf(),
        ensures
            final(self)@ == old(self)@.put_cell(cell@),
            final(self)@.wf(),
    {
        self.active.put_cell(self.cursor.row.get(), self.cursor.col.get(), cell);
    }

    /// Blanks the outer halves of wide characters that columns `start` to `end` of
    /// the cursor's row would cut.
    fn clear_wide_straddle(&mut self, start: u16, end: u16)
        requires
            old(self)@.wf(),
        ensures
            final(self)@ == old(self)@.unstraddled(start, end),
            final(self)@.wf(),
    {
        let row: u16 = self.cursor.row.get();
        let on_spacer: bool = match self.active.get_cell(row, start) {
            Some(c) => c.is_wide_spacer(),
            None => false,
        };
        if start > 0 && on_spacer {
            self.active.put_cell(row, start - 1, Cell::default());
        }
        let on_wide: bool = match self.active.get_cell(row, end) {
            Some(c) => c.is_wide(),
            None => false,
        };
        if on_wide {
            self.active.put_cell(row, end + 1, Cell::default());
        }
    }

    fn join_at(&mut self, row: u16, col: u16, cluster: &str)
        requires
            old(self)@.wf(),
        ensures
            final(self)@ == old(self)@.joined_at(row, col, cluster@),
            final(self)@.wf(),
    {
        let mut joined: Option<Cell> = None;
        if let Some(prev) = self.active.get_cell(row, col) {
            let mut text: String = String::from_str(prev.grapheme.as_str());
            text.append(cluster);
            let mut cell: Cell = prev.clone();
            cell.grapheme = smol(text.as_str());
            joined = Some(cell);
        }
        if let Some(cell) = joined {
            self.active.put_cell(row, col, cell);
        }
    }

    fn attach_zero_width(&mut self, cluster: &str)
        requires
            old(self)@.wf(),
        ensures
            final(self)@ == old(self)@.joined(cluster@),
            final(self)@.wf(),
    {
        let row: u16 = self.cursor.row.get();
        let col: u16 = self.cursor.col.get();
        if col > 0 {
            self.join_at(row, col - 1, cluster);
        } else if row > 0 {
            let last: u16 = self.cols() - 1;
            self.join_at(row - 1, last, cluster);
        }
    }

    fn make_room(&mut self, w: u16)
        requires
            old(self)@.wf(),
        ensures
            final(self)@ == old(self)@.make_room(w),
            final(self)@.wf(),
            w == 2 ==> final(self)@.cursor.col.0 < u16::MAX,
    {
        let auto: bool = self.modes.contains(Modes::AUTOWRAP);
        if self.cursor.pending_wrap && auto {
            self.wrap_to_next_row();
        }
        let col: u16 = self.cursor.col.get();
        if w == 2 && col as u32 + 1 >= self.cols() as u32 {
            if auto {
                if col < self.cols() {
                    self.clear_wide_straddle(col, col);
                    self.put_cell_at_cursor(Cell::default());
                }
                self.wrap_to_next_row();
            } else {
                self.cursor.col = Col::new(self.cols().saturating_sub(2));
            }
        }
    }

    /// Writes a character of `w` columns at the cursor, where there is room for it.
    fn write(&mut self, cluster: &str, w: u16)
        requires
            old(self)@.wf(),
            w == 2 ==> old(self)@.cursor.col.0 < u16::MAX,
        ensures
            final(self)@ == old(self)@.write(cluster@, w),
            final(self)@.wf(),
    {
        let col: u16 = self.cursor.col.get();
        let cell: Cell = Cell {
            grapheme: smol(cluster),
            fg: self.cursor.fg,
            bg: self.cursor.bg,
            underline_color: self.cursor.underline_color,
            underline_style: self.cursor.underline_style,
            attrs: self.cursor.attrs,
            hyperlink_id: self.cursor.hyperlink_id,
        };
        assert(cell@ == self@.pen_cell(cluster@));
        let end: u16 = if w == 2 {
            col + 1
        } else {
            col
        };
        self.clear_wide_straddle(col, end);
        self.put_cell_at_cursor(cell);
        if w == 2 {
            self.cursor.col = Col::new(col + 1);
            self.put_cell_at_cursor(Cell::wide_spacer());
        }
        let at: u16 = self.cursor.col.get();
        if at as u32 + 1 >= self.cols() as u32 {
            self.cursor.pending_wrap = true;
        } else {
            self.cursor.col = Col::new(at + 1);
        }
    }

    /// Prints one grapheme cluster, which takes `w` columns, at the cursor.
    pub fn put_sized(&mut self, cluster: &str, w: u16)
        requires
            old(self)@.wf(),
        ensures
            final(self)@ == old(self)@.printed_as(cluster@, w),
            final(self)@.wf(),
    {
        reveal(ScreenView::printed_as);
        if w == 0 {
            self.attach_zero_width(cluster);
        } else {
            self.make_room(w);
            self.write(cluster, w);
        }
    }

    /// Prints one grapheme cluster at the cursor.
    pub fn put_grapheme(&mut self, cluster: &str)
        requires
            old(self)@.wf(),
        ensures
            final(self)@ == old(self)@.printed(cluster@),
            final(self)@.wf(),
    {
        self.put_sized(cluster, display_width(cluster) as u16);
    }

    /// Executes a C0 control character: bell, backspace, tab, line feeds, carriage
    /// return. Others do nothing.
    pub fn execute_c0(&mut self, byte: u8)
        requires
            old(self)@.wf(),
        ensures
            final(self)@ == old(self)@.controlled(byte),
            final(self)@.wf(),
    {
        reveal(ScreenView::controlled);
        match byte {
            0x07 => {
                self.bell_pending = true;
            },
            0x08 => {
                self.cursor.left(1);
            },
            0x09 => {
                let last: u16 = self.cols() - 1;
                let stop: u16 = match self.tabs.next(self.cursor.col.get()) {
                    Some(stop) => smaller(stop, last),
                    None => last,
                };
                self.cursor.col = Col::new(stop);
                self.cursor.pending_wrap = false;
            },
            0x0a..=0x0c => {
                self.advance_to_next_row(false);
                self.cursor.pending_wrap = false;
            },
            0x0d => {
                self.cursor.col = Col::new(0);
                self.cursor.pending_wrap = false;
            },
            _ => {},
        }
    }
}

/// Keeping rows changes the scrollback and the placements, and nothing else.
pub proof fn keeping_rows_keeps_the_rest(s: ScreenView, rows: Seq<crate::row::RowView>)
    ensures
        s.keep_rows(rows) == (ScreenView {
            scrollback: s.keep_rows(rows).scrollback,
            placements: s.keep_rows(rows).placements,
            ..s
        }),
    decreases rows.len(),
{
    if rows.len() > 0 {
        keeping_rows_keeps_the_rest(s, rows.drop_last());
    }
}

/// Scrolling changes the grid, the scrollback and the placements, and nothing else.
pub proof fn scrolling_keeps_the_rest(s: ScreenView, n: u16)
    ensures
        s.scrolled_up(n) == (ScreenView {
            active: s.active.scrolled_up(s.scroll_region.0, s.scroll_region.1, n),
            scrollback: s.scrolled_up(n).scrollback,
            placements: s.scrolled_up(n).placements,
            ..s
        }),
{
    let (top, bottom) = s.scroll_region;
    let next = ScreenView { active: s.active.scrolled_up(top, bottom, n), ..s };
    keeping_rows_keeps_the_rest(next, s.active.pushed_out(top, bottom, n));
}

} // verus!
