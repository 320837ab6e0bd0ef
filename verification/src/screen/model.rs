//! What a screen holds, and what each control function does to it.
use super::{ColorQuery, TxView};
use crate::attrs::{Attrs, UnderlineStyle};
use crate::cell::CellView;
use crate::color::Color;
use crate::coords::{Col, Row};
use crate::cursor::Cursor;
use crate::graphics::{Placement, VirtualPlacement};
use crate::grid::GridView;
use crate::image_store::StoreView;
use crate::keyboard::KeyboardView;
use crate::modes::Modes;
use crate::row::{RowView, WrapOrigin};
use crate::scrollback::ScrollbackView;
use vstd::prelude::*;

verus! {

/// The contents of a screen.
pub ghost struct ScreenView {
    pub active: GridView,
    pub alt: Option<GridView>,
    pub scrollback: ScrollbackView,
    pub cursor: Cursor,
    pub saved_cursor: Option<Cursor>,
    pub modes: Modes,
    pub tabs: Seq<bool>,
    pub title: Seq<char>,
    pub icon_title: Seq<char>,
    pub cwd: Option<Seq<char>>,
    pub hyperlinks: Seq<Seq<char>>,
    pub scroll_region: (u16, u16),
    pub replies: Seq<Seq<u8>>,
    pub clipboard_writes: Seq<Seq<u8>>,
    pub color_queries: Seq<(usize, ColorQuery)>,
    pub bell_pending: bool,
    pub kbd: KeyboardView,
    pub term: Seq<char>,
    pub color_scheme_dark: bool,
    pub blocks_completed: u64,
    pub last_block_exit: Option<i32>,
    pub last_block_duration: Option<u32>,
    /// Whether a command is running, and the clock with it.
    pub command_running: bool,
    pub area_px_w: u16,
    pub area_px_h: u16,
    pub images: StoreView,
    pub placements: Seq<Placement>,
    pub virtual_placements: Seq<VirtualPlacement>,
    pub pending_tx: Option<TxView>,
    pub graphics_seq: u64,
    pub placement_id_seq: u32,
    pub image_id_seq: u32,
    pub image_gen: u64,
}

/// The items of a list that a test accepts, in their order.
pub open spec fn retained<T>(s: Seq<T>, keep: spec_fn(T) -> bool) -> Seq<T>
    decreases s.len(),
{
    if s.len() == 0 {
        Seq::empty()
    } else if keep(s.last()) {
        retained(s.drop_last(), keep).push(s.last())
    } else {
        retained(s.drop_last(), keep)
    }
}

/// The placements after `n` lines left the scrollback: all lines move up, and what
/// was anchored to a line that left is gone.
pub open spec fn moved_up(s: Seq<Placement>, n: u32) -> Seq<Placement>
    decreases s.len(),
{
    if s.len() == 0 {
        Seq::empty()
    } else if s.last().anchor_line >= n {
        moved_up(s.drop_last(), n).push(
            Placement { anchor_line: (s.last().anchor_line - n) as u32, ..s.last() },
        )
    } else {
        moved_up(s.drop_last(), n)
    }
}

/// The first number of the parameter with index `i`.
pub open spec fn param(p: Seq<Seq<u16>>, i: int) -> Option<u16> {
    if i < p.len() && p[i].len() > 0 {
        Some(p[i][0])
    } else {
        None
    }
}

/// A parameter, or a default where it is missing.
pub open spec fn param_or(p: Seq<Seq<u16>>, i: int, default: u16) -> u16 {
    match param(p, i) {
        Some(n) => n,
        None => default,
    }
}

/// The count in the first parameter; a missing one and zero count as one.
pub open spec fn count(p: Seq<Seq<u16>>) -> u16 {
    match param(p, 0) {
        Some(n) => if n > 0 {
            n
        } else {
            1
        },
        None => 1,
    }
}

/// The index in a parameter that counts from one.
pub open spec fn index(p: Seq<Seq<u16>>, i: int) -> u16 {
    crate::coords::sat_sub(param_or(p, i, 1), 1)
}

/// The first byte, if there is one.
pub open spec fn first_of(s: Seq<u8>) -> Option<u8> {
    if s.len() > 0 {
        Some(s[0])
    } else {
        None
    }
}

/// A blank screen of the given size, for a terminal that calls itself `term`.
pub open spec fn blank_screen(rows: u16, cols: u16, term: Seq<char>, dark: bool) -> ScreenView {
    ScreenView {
        active: GridView::blank(rows, cols),
        alt: None,
        scrollback: ScrollbackView {
            rows: Seq::empty(),
            cap: crate::scrollback::DEFAULT_SCROLLBACK_LINES,
        },
        cursor: Cursor::initial(),
        saved_cursor: None,
        modes: Modes::initial(),
        tabs: crate::tabs::default_stops(cols as nat),
        title: Seq::empty(),
        icon_title: Seq::empty(),
        cwd: None,
        hyperlinks: Seq::empty(),
        scroll_region: (0, crate::coords::sat_sub(rows, 1)),
        replies: Seq::empty(),
        clipboard_writes: Seq::empty(),
        color_queries: Seq::empty(),
        bell_pending: false,
        kbd: KeyboardView::initial(),
        term,
        color_scheme_dark: dark,
        blocks_completed: 0,
        last_block_exit: None,
        last_block_duration: None,
        command_running: false,
        area_px_w: 0,
        area_px_h: 0,
        images: StoreView { images: Seq::empty(), bytes: 0 },
        placements: Seq::empty(),
        virtual_placements: Seq::empty(),
        pending_tx: None,
        graphics_seq: 0,
        placement_id_seq: 0,
        image_id_seq: 0x8000_0000,
        image_gen: 0,
    }
}

impl ScreenView {
    /// The grids are rectangular, the scrollback within its cap, the tables sound.
    pub open spec fn wf(self) -> bool {
        &&& self.active.wf()
        &&& (self.alt matches Some(g) ==> g.wf())
        &&& self.scrollback.wf()
        &&& self.tabs.len() <= u16::MAX
        &&& crate::hyperlinks::table_wf(self.hyperlinks)
        &&& self.images.wf()
    }

    /// Whether the cursor and the cursor that was saved stand in the screen, and
    /// the scroll region is a region of it.
    pub open spec fn in_bounds(self) -> bool {
        &&& self.cursor.within(self.active.rows.len() as int, self.active.cols as int)
        &&& (self.saved_cursor matches Some(c) ==> c.within(
            self.active.rows.len() as int,
            self.active.cols as int,
        ))
        &&& (self.alt matches Some(g) ==> g.rows.len() == self.active.rows.len() && g.cols
            == self.active.cols)
        &&& self.scroll_region.0 <= self.scroll_region.1 < self.active.rows.len()
    }

    pub open spec fn rows(self) -> u16 {
        self.active.rows.len() as u16
    }

    pub open spec fn cols(self) -> u16 {
        self.active.cols
    }

    pub open spec fn last_row(self) -> u16 {
        (self.active.rows.len() - 1) as u16
    }

    pub open spec fn last_col(self) -> u16 {
        (self.active.cols - 1) as u16
    }

    /// The screen with the cursor at another position; no wrap is pending.
    pub open spec fn at(self, row: u16, col: u16) -> ScreenView {
        ScreenView { cursor: self.cursor.at(row, col), ..self }
    }

    /// The screen without a pending wrap.
    pub open spec fn settled(self) -> ScreenView {
        ScreenView { cursor: Cursor { pending_wrap: false, ..self.cursor }, ..self }
    }

    /// The screen with one more reply to send.
    pub open spec fn replied(self, bytes: Seq<u8>) -> ScreenView {
        ScreenView { replies: self.replies.push(bytes), ..self }
    }

    /// A row that left the screen at its top, put into the scrollback. Placements
    /// follow the lines that they are anchored to.
    pub open spec fn keep_row(self, row: RowView) -> ScreenView {
        ScreenView {
            scrollback: self.scrollback.pushed(row),
            placements: moved_up(self.placements, self.scrollback.evicted() as u32),
            ..self
        }
    }

    /// A list of rows, put into the scrollback one by one.
    pub open spec fn keep_rows(self, rows: Seq<RowView>) -> ScreenView
        decreases rows.len(),
    {
        if rows.len() == 0 {
            self
        } else {
            self.keep_rows(rows.drop_last()).keep_row(rows.last())
        }
    }

    /// The scroll region moved up by `n` rows. What leaves the top of the main
    /// screen goes to the scrollback; what leaves a region below the top, or the
    /// alternate screen, is lost.
    pub open spec fn scrolled_up(self, n: u16) -> ScreenView {
        let (top, bottom) = self.scroll_region;
        let next = ScreenView { active: self.active.scrolled_up(top, bottom, n), ..self };
        if self.alt is None && top == 0 {
            next.keep_rows(self.active.pushed_out(top, bottom, n))
        } else {
            next
        }
    }

    /// The cursor one row further down. At the bottom of the scroll region the
    /// region moves up instead; below it, the cursor stops at the last row. The new
    /// row continues the line if that wrapped.
    pub open spec fn next_row(self, soft_wrap: bool) -> ScreenView {
        let bottom = self.scroll_region.1;
        let row = self.cursor.row.0;
        let moved = if row == bottom {
            self.scrolled_up(1)
        } else {
            ScreenView {
                cursor: Cursor {
                    row: Row(
                        if row > bottom {
                            crate::coords::min16(
                                crate::coords::sat_add(row, 1),
                                crate::coords::sat_sub(self.rows(), 1),
                            )
                        } else {
                            (row + 1) as u16
                        },
                    ),
                    ..self.cursor
                },
                ..self
            }
        };
        let dest = moved.cursor.row.0;
        if soft_wrap && dest < moved.active.rows.len() {
            ScreenView {
                active: moved.active.with_origin(
                    dest as int,
                    WrapOrigin::SoftFrom(dest as u32),
                ),
                ..moved
            }
        } else {
            moved
        }
    }

    /// The start of the next row, as a full row wraps to it.
    pub open spec fn wrapped(self) -> ScreenView {
        let next = self.next_row(true);
        next.at(next.cursor.row.0, 0)
    }

    /// A cell written at the cursor, which stays.
    pub open spec fn put_cell(self, cell: CellView) -> ScreenView {
        ScreenView { active: self.active.put(self.cursor.row.0, self.cursor.col.0, cell), ..self }
    }

    /// Wide characters that columns `start` to `end` of the cursor's row would cut
    /// in half, blanked on the outside of these columns.
    pub open spec fn unstraddled(self, start: u16, end: u16) -> ScreenView {
        let row = self.cursor.row.0;
        let left = if start > 0 && (self.active.cell(row, start) matches Some(c)
            && c.is_spacer()) {
            self.active.put(row, (start - 1) as u16, CellView::blank())
        } else {
            self.active
        };
        let both = if left.cell(row, end) matches Some(c) && c.is_wide() {
            left.put(row, (end + 1) as u16, CellView::blank())
        } else {
            left
        };
        ScreenView { active: both, ..self }
    }

    /// A cell with the pen of the cursor.
    pub open spec fn pen_cell(self, grapheme: Seq<char>) -> CellView {
        CellView {
            grapheme,
            fg: self.cursor.fg,
            bg: self.cursor.bg,
            underline_color: self.cursor.underline_color,
            underline_style: self.cursor.underline_style,
            attrs: self.cursor.attrs,
            hyperlink_id: self.cursor.hyperlink_id,
        }
    }

    /// Text without width, joined to the cell at a position if there is one.
    pub open spec fn joined_at(self, row: u16, col: u16, text: Seq<char>) -> ScreenView {
        match self.active.cell(row, col) {
            Some(c) => ScreenView {
                active: self.active.put(
                    row,
                    col,
                    CellView { grapheme: c.grapheme + text, ..c },
                ),
                ..self
            },
            None => self,
        }
    }

    /// Text without width, joined to the cell before the cursor: to its left, or at
    /// the end of the row above.
    pub open spec fn joined(self, text: Seq<char>) -> ScreenView {
        let (row, col) = (self.cursor.row.0, self.cursor.col.0);
        if col > 0 {
            self.joined_at(row, (col - 1) as u16, text)
        } else if row > 0 {
            self.joined_at((row - 1) as u16, self.last_col(), text)
        } else {
            self
        }
    }

    /// Room for a character of `w` columns: a pending wrap is done, and a wide
    /// character that does not fit wraps too, leaving a blank, or without autowrap
    /// is moved to the left.
    pub open spec fn make_room(self, w: u16) -> ScreenView {
        let auto = self.modes.has(Modes::AUTOWRAP);
        let s = if self.cursor.pending_wrap && auto {
            self.wrapped()
        } else {
            self
        };
        let col = s.cursor.col.0;
        if w == 2 && col + 1 >= s.cols() {
            if auto {
                if col < s.cols() {
                    s.unstraddled(col, col).put_cell(CellView::blank()).wrapped()
                } else {
                    s.wrapped()
                }
            } else {
                ScreenView {
                    cursor: Cursor { col: Col(crate::coords::sat_sub(s.cols(), 2)), ..s.cursor },
                    ..s
                }
            }
        } else {
            s
        }
    }

    /// A character of `w` columns written at the cursor, where there is room for it;
    /// the cursor moves behind it, or a wrap becomes pending.
    pub open spec fn write(self, text: Seq<char>, w: u16) -> ScreenView {
        let col = self.cursor.col.0;
        let s = self.unstraddled(
            col,
            if w == 2 {
                (col + 1) as u16
            } else {
                col
            },
        ).put_cell(self.pen_cell(text));
        let t = if w == 2 {
            ScreenView { cursor: Cursor { col: Col((col + 1) as u16), ..s.cursor }, ..s }.put_cell(
                CellView::spacer(),
            )
        } else {
            s
        };
        if t.cursor.col.0 + 1 >= t.cols() {
            ScreenView { cursor: Cursor { pending_wrap: true, ..t.cursor }, ..t }
        } else {
            ScreenView {
                cursor: Cursor { col: Col((t.cursor.col.0 + 1) as u16), ..t.cursor },
                ..t
            }
        }
    }

    /// A grapheme cluster of `w` columns printed.
    #[verifier::opaque]
    pub open spec fn printed_as(self, text: Seq<char>, w: u16) -> ScreenView {
        if w == 0 {
            self.joined(text)
        } else {
            self.make_room(w).write(text, w)
        }
    }

    /// A grapheme cluster printed.
    pub open spec fn printed(self, text: Seq<char>) -> ScreenView {
        self.printed_as(text, crate::width::text_width(text) as u16)
    }

    /// A C0 control character executed.
    #[verifier::opaque]
    pub open spec fn controlled(self, byte: u8) -> ScreenView {
        let (row, col) = (self.cursor.row.0, self.cursor.col.0);
        if byte == 0x07 {
            ScreenView { bell_pending: true, ..self }
        } else if byte == 0x08 {
            self.at(row, crate::coords::sat_sub(col, 1))
        } else if byte == 0x09 {
            self.at(
                row,
                match crate::tabs::next_stop(self.tabs, col) {
                    Some(stop) => crate::coords::min16(stop, self.last_col()),
                    None => self.last_col(),
                },
            )
        } else if 0x0a <= byte <= 0x0c {
            self.next_row(false).settled()
        } else if byte == 0x0d {
            self.at(row, 0)
        } else {
            self
        }
    }

    /// The row that a row argument means: counted from the top of the scroll region
    /// and kept inside it in origin mode, else counted from the top of the screen.
    pub open spec fn absolute_row(self, arg: u16) -> u16 {
        if self.modes.has(Modes::ORIGIN) {
            crate::coords::min16(
                crate::coords::sat_add(self.scroll_region.0, arg),
                self.scroll_region.1,
            )
        } else {
            crate::coords::min16(arg, self.last_row())
        }
    }

    /// The cursor up by `n`, as far as the top of the scroll region, or of the
    /// screen if it stands above the region (CUU).
    pub open spec fn cursor_up(self, n: u16) -> ScreenView {
        let (row, top) = (self.cursor.row.0, self.scroll_region.0);
        let floor = if row >= top {
            top
        } else {
            0
        };
        self.at(
            crate::coords::max16(crate::coords::sat_sub(row, n), floor),
            self.cursor.col.0,
        )
    }

    /// The cursor down by `n`, as far as the bottom of the scroll region, or of the
    /// screen if it stands below the region (CUD).
    pub open spec fn cursor_down(self, n: u16) -> ScreenView {
        let (row, bottom) = (self.cursor.row.0, self.scroll_region.1);
        let ceil = if row <= bottom {
            bottom
        } else {
            self.last_row()
        };
        self.at(
            crate::coords::min16(crate::coords::sat_add(row, n), ceil),
            self.cursor.col.0,
        )
    }

    /// The cursor to a position (CUP).
    pub open spec fn cursor_to(self, row_arg: u16, col: u16) -> ScreenView {
        self.at(self.absolute_row(row_arg), crate::coords::min16(col, self.last_col()))
    }

    /// Part of the display erased: below the cursor, above it, or all (ED).
    pub open spec fn display_erased(self, mode: u16) -> ScreenView {
        let (r, c) = (self.cursor.row.0 as int, self.cursor.col.0 as int);
        let (last_r, last_c) = (self.last_row() as int, self.last_col() as int);
        let g = if mode == 0 {
            let line = self.active.cleared_rect(r, c, r, last_c);
            if r < last_r {
                line.cleared_rect(r + 1, 0, last_r, last_c)
            } else {
                line
            }
        } else if mode == 1 {
            let above = if r > 0 {
                self.active.cleared_rect(0, 0, r - 1, last_c)
            } else {
                self.active
            };
            above.cleared_rect(r, 0, r, c)
        } else if mode == 2 || mode == 3 {
            self.active.cleared()
        } else {
            self.active
        };
        ScreenView { active: g, ..self }.settled()
    }

    /// Part of the cursor's line erased: to its right, to its left, or all (EL).
    pub open spec fn line_erased(self, mode: u16) -> ScreenView {
        let (r, c) = (self.cursor.row.0 as int, self.cursor.col.0 as int);
        let last_c = self.last_col() as int;
        let g = if mode == 0 {
            self.active.cleared_rect(r, c, r, last_c)
        } else if mode == 1 {
            self.active.cleared_rect(r, 0, r, c)
        } else if mode == 2 {
            self.active.cleared_rect(r, 0, r, last_c)
        } else {
            self.active
        };
        ScreenView { active: g, ..self }.settled()
    }

    /// The cursor at home, as a change of the region or of its meaning puts it.
    pub open spec fn homed(self) -> ScreenView {
        ScreenView {
            cursor: self.cursor.moved_to(
                if self.modes.has(Modes::ORIGIN) {
                    self.scroll_region.0
                } else {
                    0
                },
                0,
                self.rows(),
                self.cols(),
            ),
            ..self
        }
    }

    /// The scroll region set; an empty one means the whole screen (DECSTBM).
    pub open spec fn region_set(self, top: u16, bottom_arg: u16) -> ScreenView {
        let bottom = crate::coords::min16(crate::coords::sat_sub(bottom_arg, 1), self.last_row());
        ScreenView {
            scroll_region: if top < bottom {
                (top, bottom)
            } else {
                (0, self.last_row())
            },
            ..self
        }.homed()
    }

    /// Cells erased from the cursor on (ECH).
    pub open spec fn cells_erased(self, n: u16) -> ScreenView {
        let (r, c) = (self.cursor.row.0 as int, self.cursor.col.0);
        let last = crate::coords::min16(
            crate::coords::sat_add(c, crate::coords::sat_sub(n, 1)),
            self.last_col(),
        );
        ScreenView {
            active: self.active.cleared_rect(r, c as int, r, last as int),
            ..self
        }.settled()
    }

    /// Blank cells inserted at the cursor (ICH).
    pub open spec fn blanks_inserted(self, n: u16) -> ScreenView {
        ScreenView {
            active: self.active.inserted(self.cursor.row.0, self.cursor.col.0, n),
            ..self
        }.settled()
    }

    /// Cells deleted at the cursor (DCH).
    pub open spec fn chars_deleted(self, n: u16) -> ScreenView {
        ScreenView {
            active: self.active.deleted(self.cursor.row.0, self.cursor.col.0, n),
            ..self
        }.settled()
    }

    /// Whether the cursor stands in the scroll region.
    pub open spec fn in_region(self) -> bool {
        self.scroll_region.0 <= self.cursor.row.0 <= self.scroll_region.1
    }

    /// Blank lines inserted at the cursor (IL).
    pub open spec fn lines_inserted(self, n: u16) -> ScreenView {
        let row = self.cursor.row.0;
        if self.in_region() {
            ScreenView {
                active: self.active.scrolled_down(row, self.scroll_region.1, n),
                ..self
            }.at(row, 0)
        } else {
            self
        }
    }

    /// Lines deleted at the cursor (DL). They do not go to the scrollback.
    pub open spec fn lines_deleted(self, n: u16) -> ScreenView {
        let row = self.cursor.row.0;
        if self.in_region() {
            ScreenView {
                active: self.active.scrolled_up(row, self.scroll_region.1, n),
                ..self
            }.at(row, 0)
        } else {
            self
        }
    }

    /// Tab stops cleared: the one at the cursor, or all (TBC).
    pub open spec fn tabs_cleared(self, mode: u16) -> ScreenView {
        let col = self.cursor.col.0;
        ScreenView {
            tabs: if mode == 0 && col < self.tabs.len() {
                self.tabs.update(col as int, false)
            } else if mode == 3 {
                Seq::new(self.tabs.len(), |i: int| false)
            } else {
                self.tabs
            },
            ..self
        }
    }

    /// The size of a cell in pixels. Where the size of the text area is unknown, a
    /// usual one is given.
    pub open spec fn cell_pixels(self) -> (u16, u16) {
        if self.area_px_w == 0 || self.area_px_h == 0 {
            (10, 20)
        } else {
            (
                crate::coords::max16(self.area_px_w / self.cols(), 1),
                crate::coords::max16(self.area_px_h / self.rows(), 1),
            )
        }
    }
}

/// Bytes of a text.
pub open spec fn b(text: Seq<char>) -> Seq<u8> {
    crate::reply::bytes_of(text)
}

/// Digits of a number.
pub open spec fn d(n: int) -> Seq<u8> {
    crate::reply::decimal(n as nat)
}

/// `a * b`, or the largest value where that does not fit.
pub open spec fn sat_mul(a: u16, b: u16) -> u16 {
    if a * b > u16::MAX {
        u16::MAX
    } else {
        (a * b) as u16
    }
}

/// The number under which the terminal reports its version.
pub const REPORTED_VERSION: u32 = 100;

impl ScreenView {
    /// The answer to a status report: that the terminal works, where the cursor is,
    /// or which color scheme is in use (DSR).
    pub open spec fn status_reported(self, private: bool, mode: u16) -> ScreenView {
        if private {
            if mode == 996 {
                self.replied(
                    b("\x1b[?997;"@) + d(
                        if self.color_scheme_dark {
                            1
                        } else {
                            2
                        },
                    ) + b("n"@),
                )
            } else {
                self
            }
        } else if mode == 5 {
            self.replied(b("\x1b[0n"@))
        } else if mode == 6 {
            self.replied(
                b("\x1b["@) + d(crate::coords::sat_add(self.cursor.row.0, 1) as int) + b(";"@) + d(
                    crate::coords::sat_add(self.cursor.col.0, 1) as int,
                ) + b("R"@),
            )
        } else {
            self
        }
    }

    /// The answer to a question for device attributes (DA).
    pub open spec fn attributes_reported(self, secondary: bool) -> ScreenView {
        if secondary {
            self.replied(b("\x1b[>0;"@) + d(REPORTED_VERSION as int) + b(";0c"@))
        } else {
            self.replied(b("\x1b[?1;2c"@))
        }
    }

    /// A reply of the form `CSI kind ; x ; y t`.
    pub open spec fn size_reply(self, kind: int, x: u16, y: u16) -> ScreenView {
        self.replied(
            b("\x1b["@) + d(kind) + b(";"@) + d(x as int) + b(";"@) + d(y as int) + b("t"@),
        )
    }

    /// The answer to a question for a size. Nothing else is honored: a program does
    /// not move or resize the window.
    pub open spec fn size_reported(self, op: u16) -> ScreenView {
        let (w, h) = self.cell_pixels();
        let (rows, cols) = (self.rows(), self.cols());
        if op == 14 {
            self.size_reply(4, sat_mul(h, rows), sat_mul(w, cols))
        } else if op == 15 {
            self.size_reply(5, sat_mul(h, rows), sat_mul(w, cols))
        } else if op == 16 {
            self.size_reply(6, h, w)
        } else if op == 18 {
            self.size_reply(8, rows, cols)
        } else if op == 19 {
            self.size_reply(9, rows, cols)
        } else {
            self
        }
    }

    /// The state of a mode reported (DECRQM). Only private modes have one.
    pub open spec fn mode_reported(self, p: Seq<Seq<u16>>, private: bool) -> ScreenView {
        match param(p, 0) {
            Some(ps) => {
                let pm: int = if private {
                    match crate::modes::reported_flag(ps) {
                        Some(flag) => if self.modes.has(flag) {
                            1
                        } else {
                            2
                        },
                        None => 0,
                    }
                } else {
                    0
                };
                self.replied(
                    b(
                        if private {
                            "\x1b[?"@
                        } else {
                            "\x1b["@
                        },
                    ) + d(ps as int) + b(";"@) + d(pm) + b("$y"@),
                )
            },
            None => self,
        }
    }

    /// The pen reset and what was negotiated forgotten (DECSTR).
    pub open spec fn soft_reset(self) -> ScreenView {
        ScreenView {
            kbd: KeyboardView::initial(),
            cursor: Cursor { pending_wrap: false, ..plain_pen(self.cursor) },
            saved_cursor: None,
            ..self
        }
    }

    /// The level of modifyOtherKeys set or reset (XTMODKEYS).
    pub open spec fn modify_keys_set(self, p: Seq<Seq<u16>>) -> ScreenView {
        if param(p, 0) == Some(4u16) {
            ScreenView { kbd: self.kbd.with_level(param_or(p, 1, 0)), ..self }
        } else {
            self
        }
    }

    /// The level of modifyOtherKeys reported (XTQMODKEYS).
    pub open spec fn modify_keys_reported(self, p: Seq<Seq<u16>>) -> ScreenView {
        if param(p, 0) == Some(4u16) {
            self.replied(b("\x1b[>4;"@) + d(self.kbd.modify_other_keys as int) + b("m"@))
        } else {
            self
        }
    }

    /// The flags of the Kitty keyboard protocol reported, set, saved or restored.
    pub open spec fn kitty_keys(self, p: Seq<Seq<u16>>, inter: Seq<u8>) -> ScreenView {
        let alt = self.modes.has(Modes::ALT_SCREEN);
        let k = self.kbd.kitty(alt);
        if first_of(inter) == Some(0x3fu8) {
            self.replied(b("\x1b[?"@) + d(k.current as int) + b("u"@))
        } else if first_of(inter) == Some(0x3du8) {
            ScreenView {
                kbd: self.kbd.with_kitty(
                    alt,
                    k.set(param_or(p, 0, 0) as u8, param_or(p, 1, 1) as u8),
                ),
                ..self
            }
        } else if first_of(inter) == Some(0x3eu8) {
            ScreenView {
                kbd: self.kbd.with_kitty(alt, k.pushed(param_or(p, 0, 0) as u8)),
                ..self
            }
        } else if first_of(inter) == Some(0x3cu8) {
            ScreenView { kbd: self.kbd.with_kitty(alt, k.popped(param_or(p, 0, 1))), ..self }
        } else {
            self
        }
    }

    /// The alternate screen, blank, with a fresh cursor.
    pub open spec fn alt_entered(self) -> ScreenView {
        if self.alt is Some {
            self
        } else {
            ScreenView {
                active: GridView::blank(self.rows(), self.cols()),
                alt: Some(self.active),
                saved_cursor: Some(self.cursor),
                cursor: Cursor::initial(),
                modes: self.modes.with(Modes::ALT_SCREEN),
                ..self
            }
        }
    }

    /// The main screen again, with the cursor that was saved.
    pub open spec fn alt_left(self) -> ScreenView {
        match self.alt {
            Some(g) => ScreenView {
                active: g,
                alt: None,
                saved_cursor: None,
                cursor: match self.saved_cursor {
                    Some(c) => c,
                    None => self.cursor,
                },
                modes: self.modes.without(Modes::ALT_SCREEN),
                ..self
            },
            None => self,
        }
    }

    /// A DEC private mode switched.
    pub open spec fn private_mode(self, code: u16, on: bool) -> ScreenView {
        if code == 6 {
            ScreenView { modes: self.modes.switched(Modes::ORIGIN, on), ..self }.homed_by(on)
        } else if code == 1049 {
            if on {
                self.alt_entered()
            } else {
                self.alt_left()
            }
        } else {
            match switchable_flag(code) {
                Some(flag) => ScreenView { modes: self.modes.switched(flag, on), ..self },
                None => self,
            }
        }
    }

    /// The cursor at the top of the scroll region, or of the screen.
    pub open spec fn homed_by(self, region: bool) -> ScreenView {
        ScreenView {
            cursor: self.cursor.moved_to(
                if region {
                    self.scroll_region.0
                } else {
                    0
                },
                0,
                self.rows(),
                self.cols(),
            ),
            ..self
        }
    }

    /// A list of modes switched. No ANSI mode is supported.
    pub open spec fn modes_set(self, p: Seq<Seq<u16>>, private: bool, on: bool) -> ScreenView
        decreases p.len(),
    {
        if p.len() == 0 {
            self
        } else {
            let s = self.modes_set(p.drop_last(), private, on);
            match param(p, p.len() - 1) {
                Some(code) => if private {
                    s.private_mode(code, on)
                } else {
                    s
                },
                None => s,
            }
        }
    }

    /// What a control sequence does.
    #[verifier::opaque]
    pub open spec fn csi(self, p: Seq<Seq<u16>>, inter: Seq<u8>, action: char) -> ScreenView {
        let (row, col) = (self.cursor.row.0, self.cursor.col.0);
        if action == 'A' {
            self.cursor_up(count(p))
        } else if action == 'B' {
            self.cursor_down(count(p))
        } else if action == 'C' {
            ScreenView { cursor: self.cursor.moved_right(count(p), self.cols()), ..self }
        } else if action == 'D' {
            ScreenView { cursor: self.cursor.moved_left(count(p)), ..self }
        } else if action == 'G' {
            self.at(row, crate::coords::min16(index(p, 0), self.last_col()))
        } else if action == 'H' || action == 'f' {
            self.cursor_to(index(p, 0), index(p, 1))
        } else if action == 'd' {
            self.at(self.absolute_row(index(p, 0)), col)
        } else if action == 'J' {
            self.display_erased(param_or(p, 0, 0))
        } else if action == 'K' {
            self.line_erased(param_or(p, 0, 0))
        } else if action == 'm' {
            if first_of(inter) == Some(0x3eu8) {
                self.modify_keys_set(p)
            } else if first_of(inter) == Some(0x3fu8) {
                self.modify_keys_reported(p)
            } else {
                ScreenView { cursor: super::sgr::rendition(self.cursor, p), ..self }
            }
        } else if action == 'h' {
            self.modes_set(p, first_of(inter) == Some(0x3fu8), true)
        } else if action == 'l' {
            self.modes_set(p, first_of(inter) == Some(0x3fu8), false)
        } else if action == 'r' {
            self.region_set(index(p, 0), param_or(p, 1, self.rows()))
        } else if action == 'S' {
            self.scrolled_up(count(p))
        } else if action == 'T' {
            ScreenView {
                active: self.active.scrolled_down(
                    self.scroll_region.0,
                    self.scroll_region.1,
                    count(p),
                ),
                ..self
            }
        } else if action == '@' {
            self.blanks_inserted(count(p))
        } else if action == 'P' {
            self.chars_deleted(count(p))
        } else if action == 'X' {
            self.cells_erased(count(p))
        } else if action == 'L' {
            self.lines_inserted(count(p))
        } else if action == 'M' {
            self.lines_deleted(count(p))
        } else if action == 'g' {
            self.tabs_cleared(param_or(p, 0, 0))
        } else if action == 'n' {
            self.status_reported(first_of(inter) == Some(0x3fu8), param_or(p, 0, 0))
        } else if action == 'c' {
            self.attributes_reported(first_of(inter) == Some(0x3eu8))
        } else if action == 'q' {
            if first_of(inter) == Some(0x3eu8) {
                self.replied(b("\x1bP>|plexy-glass(0.1.0)\x1b\\"@))
            } else {
                self
            }
        } else if action == 't' {
            self.size_reported(param_or(p, 0, 0))
        } else if action == 'p' {
            if inter.contains(0x24) {
                self.mode_reported(p, inter.contains(0x3f))
            } else if first_of(inter) == Some(0x21u8) {
                self.soft_reset()
            } else {
                self
            }
        } else if action == 'u' {
            self.kitty_keys(p, inter)
        } else {
            self
        }
    }

    /// The cursor one row up. At the top of the scroll region the region moves down
    /// instead (RI).
    pub open spec fn reverse_indexed(self) -> ScreenView {
        let (top, bottom) = self.scroll_region;
        if self.cursor.row.0 == top {
            ScreenView { active: self.active.scrolled_down(top, bottom, 1), ..self }
        } else {
            ScreenView { cursor: self.cursor.moved_up(1), ..self }
        }
    }

    /// What an escape sequence does. Sequences with intermediates are ignored.
    #[verifier::opaque]
    pub open spec fn esc(self, inter: Seq<u8>, byte: u8) -> ScreenView {
        let (row, col) = (self.cursor.row.0, self.cursor.col.0);
        if inter.len() > 0 {
            self
        } else if byte == 0x37 {
            ScreenView { saved_cursor: Some(self.cursor), ..self }
        } else if byte == 0x38 {
            match self.saved_cursor {
                Some(c) => ScreenView { cursor: Cursor { pending_wrap: false, ..c }, ..self },
                None => self,
            }
        } else if byte == 0x48 {
            ScreenView {
                tabs: if col < self.tabs.len() {
                    self.tabs.update(col as int, true)
                } else {
                    self.tabs
                },
                ..self
            }
        } else if byte == 0x63 {
            blank_screen(self.rows(), self.cols(), self.term, self.color_scheme_dark)
        } else if byte == 0x4d {
            self.reverse_indexed()
        } else if byte == 0x44 {
            self.next_row(false).settled()
        } else if byte == 0x45 {
            ScreenView { cursor: Cursor { col: Col(0), ..self.cursor }, ..self }.next_row(
                false,
            ).settled()
        } else {
            self
        }
    }
}

/// The cursor with a plain pen.
pub open spec fn plain_pen(c: Cursor) -> Cursor {
    Cursor {
        attrs: Attrs { bits: 0 },
        fg: Color::Default,
        bg: Color::Default,
        underline_color: Color::Default,
        underline_style: UnderlineStyle::Off,
        ..c
    }
}

/// The flag that a DEC private mode switches and nothing more.
pub open spec fn switchable_flag(code: u16) -> Option<u64> {
    if code == 1 {
        Some(Modes::APP_CURSOR_KEYS)
    } else if code == 7 {
        Some(Modes::AUTOWRAP)
    } else if code == 9 {
        Some(Modes::MOUSE_X10)
    } else if code == 25 {
        Some(Modes::CURSOR_VISIBLE)
    } else if code == 1000 {
        Some(Modes::MOUSE_BTN)
    } else if code == 1002 {
        Some(Modes::MOUSE_BTN_EVENT)
    } else if code == 1003 {
        Some(Modes::MOUSE_ANY)
    } else if code == 1004 {
        Some(Modes::FOCUS_EVENTS)
    } else if code == 1006 {
        Some(Modes::MOUSE_SGR)
    } else if code == 2004 {
        Some(Modes::BRACKETED_PASTE)
    } else if code == 2031 {
        Some(Modes::COLOR_SCHEME_UPDATES)
    } else {
        None
    }
}

} // verus!
