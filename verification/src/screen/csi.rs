//! Control sequences and escape sequences.
use super::model::{b, d, ScreenView};
use super::sgr::groups;
use super::Screen;
use crate::attrs::{Attrs, UnderlineStyle};
use crate::color::Color;
use crate::coords::{larger, smaller, Col, Row};
use crate::cursor::Cursor;
use crate::grid::Grid;
use crate::modes::Modes;
use crate::reply::{push_number, push_text};
use vstd::prelude::*;

verus! {

/// The first number of the parameter with index `i`.
fn param(params: &[Vec<u16>], i: usize) -> (r: Option<u16>)
    ensures
        r == super::model::param(groups(params@), i as int),
{
    if i < params.len() && params[i].len() > 0 {
        Some(params[i][0])
    } else {
        None
    }
}

fn param_or(params: &[Vec<u16>], i: usize, default: u16) -> (r: u16)
    ensures
        r == super::model::param_or(groups(params@), i as int, default),
{
    match param(params, i) {
        Some(n) => n,
        None => default,
    }
}

fn count(params: &[Vec<u16>]) -> (n: u16)
    ensures
        n == super::model::count(groups(params@)),
        n >= 1,
{
    let n: u16 = param_or(params, 0, 1);
    if n > 0 {
        n
    } else {
        1
    }
}

fn index(params: &[Vec<u16>], i: usize) -> (r: u16)
    ensures
        r == super::model::index(groups(params@), i as int),
{
    param_or(params, i, 1).saturating_sub(1)
}

fn first_of(s: &[u8]) -> (r: Option<u8>)
    ensures
        r == super::model::first_of(s@),
{
    if s.len() > 0 {
        Some(s[0])
    } else {
        None
    }
}

fn holds(s: &[u8], b: u8) -> (r: bool)
    ensures
        r == s@.contains(b),
{
    let mut i: usize = 0;
    while i < s.len()
        invariant
            i <= s.len(),
            forall|k: int| 0 <= k < i ==> s@[k] != b,
        decreases s.len() - i,
    {
        if s[i] == b {
            assert(s@[i as int] == b);
            return true;
        }
        i += 1;
    }
    false
}

fn times(a: u16, b: u16) -> (r: u16)
    ensures
        r == super::model::sat_mul(a, b),
{
    assert(a * b <= 0xffff * 0xffff) by (nonlinear_arith)
        requires
            a <= 0xffff,
            b <= 0xffff,
    ;
    let wide: u32 = a as u32 * b as u32;
    if wide > u16::MAX as u32 {
        u16::MAX
    } else {
        wide as u16
    }
}

impl Screen {
    fn absolute_row(&self, arg: u16) -> (r: u16)
        requires
            self@.wf(),
        ensures
            r == self@.absolute_row(arg),
    {
        if self.modes.contains(Modes::ORIGIN) {
            let (top, bottom) = self.scroll_region;
            smaller(top.saturating_add(arg), bottom)
        } else {
            smaller(arg, self.rows() - 1)
        }
    }

    fn move_cursor(&mut self, row: u16, col: u16)
        requires
            old(self)@.wf(),
        ensures
            final(self)@ == old(self)@.at(row, col),
            final(self)@.wf(),
    {
        self.cursor.row = Row::new(row);
        self.cursor.col = Col::new(col);
        self.cursor.pending_wrap = false;
    }

    fn cursor_up(&mut self, n: u16)
        requires
            old(self)@.wf(),
        ensures
            final(self)@ == old(self)@.cursor_up(n),
            final(self)@.wf(),
    {
        let top: u16 = self.scroll_region.0;
        let row: u16 = self.cursor.row.get();
        let floor: u16 = if row >= top {
            top
        } else {
            0
        };
        self.move_cursor(larger(row.saturating_sub(n), floor), self.cursor.col.get());
    }

    fn cursor_down(&mut self, n: u16)
        requires
            old(self)@.wf(),
        ensures
            final(self)@ == old(self)@.cursor_down(n),
            final(self)@.wf(),
    {
        let bottom: u16 = self.scroll_region.1;
        let row: u16 = self.cursor.row.get();
        let ceil: u16 = if row <= bottom {
            bottom
        } else {
            self.rows() - 1
        };
        self.move_cursor(smaller(row.saturating_add(n), ceil), self.cursor.col.get());
    }

    fn cursor_right(&mut self, n: u16)
        requires
            old(self)@.wf(),
        ensures
            final(self)@ == (ScreenView {
                cursor: old(self)@.cursor.moved_right(n, old(self)@.cols()),
                ..old(self)@
            }),
            final(self)@.wf(),
    {
        let max: Col = Col::new(self.cols());
        self.cursor.right(n, max);
    }

    fn cursor_left(&mut self, n: u16)
        requires
            old(self)@.wf(),
        ensures
            final(self)@ == (ScreenView {
                cursor: old(self)@.cursor.moved_left(n),
                ..old(self)@
            }),
            final(self)@.wf(),
    {
        self.cursor.left(n);
    }

    fn cursor_to_column(&mut self, col: u16)
        requires
            old(self)@.wf(),
        ensures
            final(self)@ == old(self)@.at(
                old(self)@.cursor.row.0,
                crate::coords::min16(col, old(self)@.last_col()),
            ),
            final(self)@.wf(),
    {
        let c: u16 = smaller(col, self.cols() - 1);
        self.move_cursor(self.cursor.row.get(), c);
    }

    fn cursor_to_row(&mut self, arg: u16)
        requires
            old(self)@.wf(),
        ensures
            final(self)@ == old(self)@.at(
                old(self)@.absolute_row(arg),
                old(self)@.cursor.col.0,
            ),
            final(self)@.wf(),
    {
        let row: u16 = self.absolute_row(arg);
        self.move_cursor(row, self.cursor.col.get());
    }

    fn cursor_to(&mut self, row_arg: u16, col: u16)
        requires
            old(self)@.wf(),
        ensures
            final(self)@ == old(self)@.cursor_to(row_arg, col),
            final(self)@.wf(),
    {
        let row: u16 = self.absolute_row(row_arg);
        let c: u16 = smaller(col, self.cols() - 1);
        self.move_cursor(row, c);
    }

    fn set_rendition(&mut self, params: &[Vec<u16>])
        requires
            old(self)@.wf(),
        ensures
            final(self)@ == (ScreenView {
                cursor: super::sgr::rendition(old(self)@.cursor, groups(params@)),
                ..old(self)@
            }),
            final(self)@.wf(),
    {
        super::sgr::handle_sgr(&mut self.cursor, params);
    }

    fn scroll_region_down(&mut self, n: u16)
        requires
            old(self)@.wf(),
        ensures
            final(self)@ == (ScreenView {
                active: old(self)@.active.scrolled_down(
                    old(self)@.scroll_region.0,
                    old(self)@.scroll_region.1,
                    n,
                ),
                ..old(self)@
            }),
            final(self)@.wf(),
    {
        let (top, bottom) = self.scroll_region;
        self.active.scroll_down(top, bottom, n);
    }

    fn insert_blanks(&mut self, n: u16)
        requires
            old(self)@.wf(),
        ensures
            final(self)@ == old(self)@.blanks_inserted(n),
            final(self)@.wf(),
    {
        self.active.insert_cells(self.cursor.row.get(), self.cursor.col.get(), n);
        self.cursor.pending_wrap = false;
    }

    fn delete_chars(&mut self, n: u16)
        requires
            old(self)@.wf(),
        ensures
            final(self)@ == old(self)@.chars_deleted(n),
            final(self)@.wf(),
    {
        self.active.delete_cells(self.cursor.row.get(), self.cursor.col.get(), n);
        self.cursor.pending_wrap = false;
    }

    fn erase_display(&mut self, mode: u16)
        requires
            old(self)@.wf(),
        ensures
            final(self)@ == old(self)@.display_erased(mode),
            final(self)@.wf(),
    {
        let r: u16 = self.cursor.row.get();
        let c: u16 = self.cursor.col.get();
        let last_r: u16 = self.rows() - 1;
        let last_c: u16 = self.cols() - 1;
        match mode {
            0 => {
                self.active.clear_rect(r, c, r, last_c);
                if r < last_r {
                    self.active.clear_rect(r + 1, 0, last_r, last_c);
                }
            },
            1 => {
                if r > 0 {
                    self.active.clear_rect(0, 0, r - 1, last_c);
                }
                self.active.clear_rect(r, 0, r, c);
            },
            2 | 3 => {
                self.active.clear();
            },
            _ => {},
        }
        self.cursor.pending_wrap = false;
    }

    fn erase_line(&mut self, mode: u16)
        requires
            old(self)@.wf(),
        ensures
            final(self)@ == old(self)@.line_erased(mode),
            final(self)@.wf(),
    {
        let r: u16 = self.cursor.row.get();
        let c: u16 = self.cursor.col.get();
        let last_c: u16 = self.cols() - 1;
        match mode {
            0 => {
                self.active.clear_rect(r, c, r, last_c);
            },
            1 => {
                self.active.clear_rect(r, 0, r, c);
            },
            2 => {
                self.active.clear_rect(r, 0, r, last_c);
            },
            _ => {},
        }
        self.cursor.pending_wrap = false;
    }

    fn set_region(&mut self, top: u16, bottom_arg: u16)
        requires
            old(self)@.wf(),
        ensures
            final(self)@ == old(self)@.region_set(top, bottom_arg),
            final(self)@.wf(),
    {
        let last: u16 = self.rows() - 1;
        let bottom: u16 = smaller(bottom_arg.saturating_sub(1), last);
        if top < bottom {
            self.scroll_region = (top, bottom);
        } else {
            self.scroll_region = (0, last);
        }
        let origin: bool = self.modes.contains(Modes::ORIGIN);
        self.home(origin);
    }

    fn home(&mut self, region: bool)
        requires
            old(self)@.wf(),
        ensures
            final(self)@ == old(self)@.homed_by(region),
            final(self)@.wf(),
    {
        let row: u16 = if region {
            self.scroll_region.0
        } else {
            0
        };
        let max_rows: u16 = self.rows();
        let max_cols: u16 = self.cols();
        self.cursor.move_to(
            Row::new(row),
            Col::new(0),
            Row::new(max_rows),
            Col::new(max_cols),
        );
    }

    fn erase_cells(&mut self, n: u16)
        requires
            old(self)@.wf(),
        ensures
            final(self)@ == old(self)@.cells_erased(n),
            final(self)@.wf(),
    {
        let r: u16 = self.cursor.row.get();
        let c: u16 = self.cursor.col.get();
        let last: u16 = smaller(c.saturating_add(n.saturating_sub(1)), self.cols() - 1);
        self.active.clear_rect(r, c, r, last);
        self.cursor.pending_wrap = false;
    }

    fn insert_lines(&mut self, n: u16)
        requires
            old(self)@.wf(),
        ensures
            final(self)@ == old(self)@.lines_inserted(n),
            final(self)@.wf(),
    {
        let (top, bottom) = self.scroll_region;
        let row: u16 = self.cursor.row.get();
        if row >= top && row <= bottom {
            self.active.scroll_down(row, bottom, n);
            self.move_cursor(row, 0);
        }
    }

    fn delete_lines(&mut self, n: u16)
        requires
            old(self)@.wf(),
        ensures
            final(self)@ == old(self)@.lines_deleted(n),
            final(self)@.wf(),
    {
        let (top, bottom) = self.scroll_region;
        let row: u16 = self.cursor.row.get();
        if row >= top && row <= bottom {
            self.active.scroll_up(row, bottom, n, None);
            self.move_cursor(row, 0);
        }
    }

    fn clear_tabs(&mut self, mode: u16)
        requires
            old(self)@.wf(),
        ensures
            final(self)@ == old(self)@.tabs_cleared(mode),
            final(self)@.wf(),
    {
        match mode {
            0 => {
                self.tabs.clear(self.cursor.col.get());
            },
            3 => {
                self.tabs.clear_all();
            },
            _ => {},
        }
    }

    fn report_status(&mut self, private: bool, mode: u16)
        requires
            old(self)@.wf(),
        ensures
            final(self)@ == old(self)@.status_reported(private, mode),
            final(self)@.wf(),
    {
        let mut reply: Vec<u8> = Vec::new();
        if private {
            if mode != 996 {
                return;
            }
            push_text(&mut reply, "\x1b[?997;");
            push_number(
                &mut reply,
                if self.color_scheme_dark {
                    1
                } else {
                    2
                },
            );
            push_text(&mut reply, "n");
            assert(reply@ =~= b("\x1b[?997;"@) + d(
                if self@.color_scheme_dark {
                    1
                } else {
                    2
                },
            ) + b("n"@));
        } else if mode == 5 {
            push_text(&mut reply, "\x1b[0n");
            assert(reply@ =~= b("\x1b[0n"@));
        } else if mode == 6 {
            let r: u16 = self.cursor.row.get().saturating_add(1);
            let c: u16 = self.cursor.col.get().saturating_add(1);
            push_text(&mut reply, "\x1b[");
            push_number(&mut reply, r as u64);
            push_text(&mut reply, ";");
            push_number(&mut reply, c as u64);
            push_text(&mut reply, "R");
            assert(reply@ =~= b("\x1b["@) + d(r as int) + b(";"@) + d(c as int) + b("R"@));
        } else {
            return;
        }
        self.push_reply(reply);
    }

    fn report_attributes(&mut self, secondary: bool)
        requires
            old(self)@.wf(),
        ensures
            final(self)@ == old(self)@.attributes_reported(secondary),
            final(self)@.wf(),
    {
        let mut reply: Vec<u8> = Vec::new();
        if secondary {
            push_text(&mut reply, "\x1b[>0;");
            push_number(&mut reply, pack_da2_version() as u64);
            push_text(&mut reply, ";0c");
            assert(reply@ =~= b("\x1b[>0;"@) + d(super::model::REPORTED_VERSION as int) + b(
                ";0c"@,
            ));
        } else {
            push_text(&mut reply, "\x1b[?1;2c");
            assert(reply@ =~= b("\x1b[?1;2c"@));
        }
        self.push_reply(reply);
    }

    fn report_name(&mut self)
        requires
            old(self)@.wf(),
        ensures
            final(self)@ == old(self)@.replied(b("\x1bP>|plexy-glass(0.1.0)\x1b\\"@)),
            final(self)@.wf(),
    {
        let mut reply: Vec<u8> = Vec::new();
        push_text(&mut reply, "\x1bP>|plexy-glass(0.1.0)\x1b\\");
        assert(reply@ =~= b("\x1bP>|plexy-glass(0.1.0)\x1b\\"@));
        self.push_reply(reply);
    }

    fn push_size(&mut self, kind: u64, x: u16, y: u16)
        requires
            old(self)@.wf(),
        ensures
            final(self)@ == old(self)@.size_reply(kind as int, x, y),
            final(self)@.wf(),
    {
        let mut reply: Vec<u8> = Vec::new();
        push_text(&mut reply, "\x1b[");
        push_number(&mut reply, kind);
        push_text(&mut reply, ";");
        push_number(&mut reply, x as u64);
        push_text(&mut reply, ";");
        push_number(&mut reply, y as u64);
        push_text(&mut reply, "t");
        assert(reply@ =~= b("\x1b["@) + d(kind as int) + b(";"@) + d(x as int) + b(";"@) + d(
            y as int,
        ) + b("t"@));
        self.push_reply(reply);
    }

    fn report_size(&mut self, op: u16)
        requires
            old(self)@.wf(),
        ensures
            final(self)@ == old(self)@.size_reported(op),
            final(self)@.wf(),
    {
        let (w, h) = self.cell_pixels();
        let rows: u16 = self.rows();
        let cols: u16 = self.cols();
        match op {
            14 => {
                self.push_size(4, times(h, rows), times(w, cols));
            },
            15 => {
                self.push_size(5, times(h, rows), times(w, cols));
            },
            16 => {
                self.push_size(6, h, w);
            },
            18 => {
                self.push_size(8, rows, cols);
            },
            19 => {
                self.push_size(9, rows, cols);
            },
            _ => {},
        }
    }

    fn handle_decrqm(&mut self, params: &[Vec<u16>], private: bool)
        requires
            old(self)@.wf(),
        ensures
            final(self)@ == old(self)@.mode_reported(groups(params@), private),
            final(self)@.wf(),
    {
        let ps: u16 = match param(params, 0) {
            Some(ps) => ps,
            None => {
                return;
            },
        };
        let pm: u8 = if private {
            self.modes.decrqm_state(ps)
        } else {
            0
        };
        let mut reply: Vec<u8> = Vec::new();
        if private {
            push_text(&mut reply, "\x1b[?");
        } else {
            push_text(&mut reply, "\x1b[");
        }
        let ghost head = reply@;
        push_number(&mut reply, ps as u64);
        push_text(&mut reply, ";");
        push_number(&mut reply, pm as u64);
        push_text(&mut reply, "$y");
        assert(head =~= b(
            if private {
                "\x1b[?"@
            } else {
                "\x1b["@
            },
        ));
        assert(reply@ =~= head + d(ps as int) + b(";"@) + d(pm as int) + b("$y"@));
        self.push_reply(reply);
    }

    fn handle_decstr(&mut self)
        requires
            old(self)@.wf(),
        ensures
            final(self)@ == old(self)@.soft_reset(),
            final(self)@.wf(),
    {
        self.kbd.reset();
        self.cursor.attrs = Attrs::empty();
        self.cursor.fg = Color::Default;
        self.cursor.bg = Color::Default;
        self.cursor.underline_color = Color::Default;
        self.cursor.underline_style = UnderlineStyle::Off;
        self.cursor.pending_wrap = false;
        self.saved_cursor = None;
    }

    fn handle_xtmodkeys(&mut self, params: &[Vec<u16>])
        requires
            old(self)@.wf(),
        ensures
            final(self)@ == old(self)@.modify_keys_set(groups(params@)),
            final(self)@.wf(),
    {
        match param(params, 0) {
            Some(4) => {
                match param(params, 1) {
                    Some(level) => {
                        self.kbd.set_modify_other_keys(level);
                    },
                    None => {
                        self.kbd.reset_modify_other_keys();
                    },
                }
            },
            _ => {},
        }
    }

    fn xtqmodkeys_report(&mut self, params: &[Vec<u16>])
        requires
            old(self)@.wf(),
        ensures
            final(self)@ == old(self)@.modify_keys_reported(groups(params@)),
            final(self)@.wf(),
    {
        match param(params, 0) {
            Some(4) => {
                let level: u8 = self.kbd.modify_other_keys();
                let mut reply: Vec<u8> = Vec::new();
                push_text(&mut reply, "\x1b[>4;");
                push_number(&mut reply, level as u64);
                push_text(&mut reply, "m");
                assert(reply@ =~= b("\x1b[>4;"@) + d(level as int) + b("m"@));
                self.push_reply(reply);
            },
            _ => {},
        }
    }

    fn handle_kitty_kbd(&mut self, params: &[Vec<u16>], intermediates: &[u8])
        requires
            old(self)@.wf(),
        ensures
            final(self)@ == old(self)@.kitty_keys(groups(params@), intermediates@),
            final(self)@.wf(),
    {
        let alt: bool = self.modes.contains(Modes::ALT_SCREEN);
        match first_of(intermediates) {
            Some(0x3f) => {
                let flags: u8 = self.kbd.kitty_flags(alt);
                let mut reply: Vec<u8> = Vec::new();
                push_text(&mut reply, "\x1b[?");
                push_number(&mut reply, flags as u64);
                push_text(&mut reply, "u");
                assert(reply@ =~= b("\x1b[?"@) + d(flags as int) + b("u"@));
                self.push_reply(reply);
            },
            Some(0x3d) => {
                let flags: u8 = param_or(params, 0, 0) as u8;
                let mode: u8 = param_or(params, 1, 1) as u8;
                self.kbd.kitty_set(alt, flags, mode);
            },
            Some(0x3e) => {
                let flags: u8 = param_or(params, 0, 0) as u8;
                self.kbd.kitty_push(alt, flags);
            },
            Some(0x3c) => {
                self.kbd.kitty_pop(alt, param_or(params, 0, 1));
            },
            _ => {},
        }
    }

    fn enter_alt_screen(&mut self)
        requires
            old(self)@.wf(),
        ensures
            final(self)@ == old(self)@.alt_entered(),
            final(self)@.wf(),
    {
        if self.alt.is_some() {
            return;
        }
        let mut shown: Grid = Grid::new(self.rows(), self.cols());
        std::mem::swap(&mut shown, &mut self.active);
        self.alt = Some(shown);
        self.saved_cursor = Some(self.cursor);
        self.cursor = Cursor::default();
        self.modes.insert(Modes::ALT_SCREEN);
    }

    fn leave_alt_screen(&mut self)
        requires
            old(self)@.wf(),
        ensures
            final(self)@ == old(self)@.alt_left(),
            final(self)@.wf(),
    {
        let mut alt: Option<Grid> = None;
        std::mem::swap(&mut alt, &mut self.alt);
        if let Some(grid) = alt {
            self.active = grid;
            if let Some(c) = self.saved_cursor {
                self.cursor = c;
            }
            self.saved_cursor = None;
            self.modes.remove(Modes::ALT_SCREEN);
        }
    }

    fn set_dec_private_mode(&mut self, code: u16, on: bool)
        requires
            old(self)@.wf(),
        ensures
            final(self)@ == old(self)@.private_mode(code, on),
            final(self)@.wf(),
    {
        let flag: u64 = match code {
            1 => Modes::APP_CURSOR_KEYS,
            6 => {
                if on {
                    self.modes.insert(Modes::ORIGIN);
                } else {
                    self.modes.remove(Modes::ORIGIN);
                }
                self.home(on);
                return;
            },
            7 => Modes::AUTOWRAP,
            25 => Modes::CURSOR_VISIBLE,
            1049 => {
                if on {
                    self.enter_alt_screen();
                } else {
                    self.leave_alt_screen();
                }
                return;
            },
            2004 => Modes::BRACKETED_PASTE,
            9 => Modes::MOUSE_X10,
            1000 => Modes::MOUSE_BTN,
            1002 => Modes::MOUSE_BTN_EVENT,
            1003 => Modes::MOUSE_ANY,
            1004 => Modes::FOCUS_EVENTS,
            1006 => Modes::MOUSE_SGR,
            2031 => Modes::COLOR_SCHEME_UPDATES,
            _ => {
                return;
            },
        };
        if on {
            self.modes.insert(flag);
        } else {
            self.modes.remove(flag);
        }
    }

    fn set_mode(&mut self, params: &[Vec<u16>], intermediates: &[u8], on: bool)
        requires
            old(self)@.wf(),
        ensures
            final(self)@ == old(self)@.modes_set(
                groups(params@),
                super::model::first_of(intermediates@) == Some(0x3fu8),
                on,
            ),
            final(self)@.wf(),
    {
        let private: bool = match first_of(intermediates) {
            Some(0x3f) => true,
            _ => false,
        };
        let ghost before = self@;
        let ghost p = groups(params@);
        let mut i: usize = 0;
        assert(p.take(0).len() == 0);
        while i < params.len()
            invariant
                i <= params.len(),
                p == groups(params@),
                self@ == before.modes_set(p.take(i as int), private, on),
                self@.wf(),
            decreases params.len() - i,
        {
            assert(p.take(i + 1).drop_last() =~= p.take(i as int));
            if let Some(code) = param(params, i) {
                if private {
                    self.set_dec_private_mode(code, on);
                }
            }
            i += 1;
        }
        assert(p.take(i as int) =~= p);
    }

    /// Executes a control sequence. `params` holds its parameters, each with its
    /// sub-parameters.
    #[verifier::spinoff_prover]
    pub fn handle_csi(&mut self, params: &[Vec<u16>], intermediates: &[u8], final_byte: char)
        requires
            old(self)@.wf(),
        ensures
            final(self)@ == old(self)@.csi(groups(params@), intermediates@, final_byte),
            final(self)@.wf(),
    {
        reveal(ScreenView::csi);
        match final_byte {
            'A' => {
                self.cursor_up(count(params));
            },
            'B' => {
                self.cursor_down(count(params));
            },
            'C' => {
                self.cursor_right(count(params));
            },
            'D' => {
                self.cursor_left(count(params));
            },
            'G' => {
                self.cursor_to_column(index(params, 0));
            },
            'H' | 'f' => {
                self.cursor_to(index(params, 0), index(params, 1));
            },
            'd' => {
                self.cursor_to_row(index(params, 0));
            },
            'J' => {
                self.erase_display(param_or(params, 0, 0));
            },
            'K' => {
                self.erase_line(param_or(params, 0, 0));
            },
            'm' => {
                match first_of(intermediates) {
                    Some(0x3e) => {
                        self.handle_xtmodkeys(params);
                    },
                    Some(0x3f) => {
                        self.xtqmodkeys_report(params);
                    },
                    _ => {
                        self.set_rendition(params);
                    },
                }
            },
            'h' => {
                self.set_mode(params, intermediates, true);
            },
            'l' => {
                self.set_mode(params, intermediates, false);
            },
            'r' => {
                let bottom: u16 = param_or(params, 1, self.rows());
                self.set_region(index(params, 0), bottom);
            },
            'S' => {
                self.scroll_region_up(count(params));
            },
            'T' => {
                self.scroll_region_down(count(params));
            },
            '@' => {
                self.insert_blanks(count(params));
            },
            'P' => {
                self.delete_chars(count(params));
            },
            'X' => {
                self.erase_cells(count(params));
            },
            'L' => {
                self.insert_lines(count(params));
            },
            'M' => {
                self.delete_lines(count(params));
            },
            'g' => {
                self.clear_tabs(param_or(params, 0, 0));
            },
            'n' => {
                let private: bool = match first_of(intermediates) {
                    Some(0x3f) => true,
                    _ => false,
                };
                self.report_status(private, param_or(params, 0, 0));
            },
            'c' => {
                let secondary: bool = match first_of(intermediates) {
                    Some(0x3e) => true,
                    _ => false,
                };
                self.report_attributes(secondary);
            },
            'q' => {
                match first_of(intermediates) {
                    Some(0x3e) => {
                        self.report_name();
                    },
                    _ => {},
                }
            },
            't' => {
                self.report_size(param_or(params, 0, 0));
            },
            'p' => {
                if holds(intermediates, 0x24) {
                    let private: bool = holds(intermediates, 0x3f);
                    self.handle_decrqm(params, private);
                } else {
                    match first_of(intermediates) {
                        Some(0x21) => {
                            self.handle_decstr();
                        },
                        _ => {},
                    }
                }
            },
            'u' => {
                self.handle_kitty_kbd(params, intermediates);
            },
            _ => {},
        }
    }

    fn reset(&mut self)
        requires
            old(self)@.wf(),
        ensures
            final(self)@ == super::model::blank_screen(
                old(self)@.rows(),
                old(self)@.cols(),
                old(self)@.term,
                old(self)@.color_scheme_dark,
            ),
            final(self)@.wf(),
    {
        let term: String = self.term.clone();
        let blank: Screen = Screen::blank(
            self.rows(),
            self.cols(),
            term,
            self.color_scheme_dark,
        );
        *self = blank;
    }

    pub(crate) fn line_feed(&mut self)
        requires
            old(self)@.wf(),
        ensures
            final(self)@ == old(self)@.next_row(false).settled(),
            final(self)@.wf(),
    {
        self.advance_to_next_row(false);
        self.cursor.pending_wrap = false;
    }

    fn next_line(&mut self)
        requires
            old(self)@.wf(),
        ensures
            final(self)@ == (ScreenView {
                cursor: Cursor { col: Col(0), ..old(self)@.cursor },
                ..old(self)@
            }).next_row(false).settled(),
            final(self)@.wf(),
    {
        self.cursor.col = Col::new(0);
        self.line_feed();
    }

    fn reverse_index(&mut self)
        requires
            old(self)@.wf(),
        ensures
            final(self)@ == old(self)@.reverse_indexed(),
            final(self)@.wf(),
    {
        let (top, bottom) = self.scroll_region;
        if self.cursor.row.get() == top {
            self.active.scroll_down(top, bottom, 1);
        } else {
            self.cursor.up(1);
        }
    }

    /// Executes an escape sequence: saving and restoring the cursor, setting a tab
    /// stop, full reset, and the index functions.
    pub fn handle_esc(&mut self, intermediates: &[u8], byte: u8)
        requires
            old(self)@.wf(),
        ensures
            final(self)@ == old(self)@.esc(intermediates@, byte),
            final(self)@.wf(),
    {
        reveal(ScreenView::esc);
        if intermediates.len() > 0 {
            return;
        }
        match byte {
            0x37 => {
                self.saved_cursor = Some(self.cursor);
            },
            0x38 => {
                if let Some(c) = self.saved_cursor {
                    self.cursor = c;
                    self.cursor.pending_wrap = false;
                }
            },
            0x48 => {
                self.tabs.set(self.cursor.col.get());
            },
            0x63 => {
                self.reset();
            },
            0x4d => {
                self.reverse_index();
            },
            0x44 => {
                self.line_feed();
            },
            0x45 => {
                self.next_line();
            },
            _ => {},
        }
    }
}

/// The number under which the terminal reports its version: ten thousands for the
/// major, hundreds for the minor version, and the patch level.
pub fn pack_da2_version() -> (v: u32)
    ensures
        v == super::model::REPORTED_VERSION,
{
    let (major, minor, patch): (u32, u32, u32) = (0, 1, 0);
    major * 10000 + minor * 100 + patch
}

} // verus!
