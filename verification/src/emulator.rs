//! A terminal emulator: the parser and the screen that it drives.
use crate::coords::larger;
use crate::cursor::Cursor;
use crate::parser::StreamParser;
use crate::reflow::reflow;
use crate::row::Row;
use crate::screen::{ColorQuery, Screen};
use crate::scrollback::Scrollback;
use vstd::prelude::*;

verus! {

/// A terminal emulator.
pub struct Emulator {
    parser: StreamParser,
    screen: Screen,
}

/// The state of an emulator.
pub ghost struct EmulatorView {
    pub parser: crate::parser::ParserView,
    pub screen: crate::screen::model::ScreenView,
}

impl View for Emulator {
    type V = EmulatorView;

    closed spec fn view(&self) -> EmulatorView {
        EmulatorView { parser: self.parser@, screen: self.screen@ }
    }
}

/// The questions of a list, without their places among the replies.
pub open spec fn questions(s: Seq<(usize, ColorQuery)>) -> Seq<ColorQuery> {
    Seq::new(s.len(), |i: int| s[i].1)
}

impl crate::screen::model::ScreenView {
    /// The screen at another size. Lines are wrapped anew and the cursor stays with
    /// its character; the alternate screen and the main screen behind it are wrapped
    /// each by itself, and their scrollback is left alone. The scroll region is the
    /// whole screen again, and what was anchored to lines is gone.
    pub open spec fn resized(self, rows: u16, cols: u16) -> crate::screen::model::ScreenView {
        let r = crate::coords::max16(rows, 1);
        let c = crate::coords::max16(cols, 1);
        let no_lines = crate::scrollback::ScrollbackView { rows: Seq::empty(), cap: 0 };
        let wrapped = match self.alt {
            Some(parked) => {
                let (active, _, cursor) = crate::reflow::reflowed(
                    self.active,
                    no_lines,
                    self.cursor,
                    r,
                    c,
                );
                let (main, _, saved) = crate::reflow::reflowed(
                    parked,
                    no_lines,
                    match self.saved_cursor {
                        Some(saved) => saved,
                        None => Cursor::initial(),
                    },
                    r,
                    c,
                );
                crate::screen::model::ScreenView {
                    active,
                    cursor,
                    alt: Some(main),
                    saved_cursor: match self.saved_cursor {
                        Some(_) => Some(saved),
                        None => None,
                    },
                    ..self
                }
            },
            None => {
                let (active, scrollback, cursor) = crate::reflow::reflowed(
                    self.active,
                    self.scrollback,
                    self.cursor,
                    r,
                    c,
                );
                crate::screen::model::ScreenView { active, scrollback, cursor, ..self }
            },
        };
        crate::screen::model::ScreenView {
            tabs: crate::tabs::resized(self.tabs, c as nat),
            scroll_region: (0, (r - 1) as u16),
            placements: Seq::empty(),
            ..wrapped
        }
    }
}

impl Emulator {
    /// An emulator with a blank screen.
    pub fn new(rows: u16, cols: u16) -> (e: Emulator)
        ensures
            e@.parser == crate::parser::ParserView::start(),
            e@.screen == crate::screen::model::blank_screen(rows, cols, "xterm-256color"@, true),
            e@.screen.wf(),
    {
        Emulator { parser: StreamParser::new(), screen: Screen::new(rows, cols) }
    }

    /// Takes in what the program behind the terminal wrote.
    pub fn advance(&mut self, bytes: &[u8])
        requires
            old(self)@.screen.wf(),
        ensures
            final(self)@.parser == old(self)@.parser.advanced(bytes@).0,
            exists|clock: Seq<std::time::Duration>|
                clock.len() == old(self)@.parser.advanced(bytes@).1.len() && final(self)@.screen
                    == old(self)@.screen.done_all(
                    old(self)@.parser.advanced(bytes@).1,
                    #[trigger] crate::screen::ops::readings(clock),
                ),
            final(self)@.screen.wf(),
    {
        let ghost before = self.screen;
        let ghost ops = self.parser@.advanced(bytes@).1;
        self.parser.advance(&mut self.screen, bytes);
        proof {
            crate::screen::ops::screens_follow_operations(before, ops, self.screen);
        }
    }

    /// Prints text that waits for a cluster to become complete. For the end of the
    /// input: while it goes on, all that is no text does this too.
    pub fn flush(&mut self)
        requires
            old(self)@.screen.wf(),
        ensures
            final(self)@.parser == old(self)@.parser.flush().0,
            exists|clock: Seq<std::time::Duration>|
                clock.len() == old(self)@.parser.flush().1.len() && final(self)@.screen
                    == old(self)@.screen.done_all(
                    old(self)@.parser.flush().1,
                    #[trigger] crate::screen::ops::readings(clock),
                ),
            final(self)@.screen.wf(),
    {
        let ghost before = self.screen;
        let ghost ops = self.parser@.flush().1;
        self.parser.flush(&mut self.screen);
        proof {
            crate::screen::ops::screens_follow_operations(before, ops, self.screen);
        }
    }

    fn resize_alternate(&mut self, rows: u16, cols: u16)
        requires
            old(self)@.screen.alt is Some,
            rows >= 1,
            cols >= 1,
        ensures
            final(self)@.parser == old(self)@.parser,
            ({
                let before = old(self)@.screen;
                let after = final(self)@.screen;
                before.resized(rows, cols) == (crate::screen::model::ScreenView {
                    tabs: crate::tabs::resized(before.tabs, cols as nat),
                    scroll_region: (0, (rows - 1) as u16),
                    placements: Seq::empty(),
                    ..after
                })
            }),
            final(self)@.screen.active.wf(),
            final(self)@.screen.alt matches Some(g) && g.wf(),
            final(self)@.screen.scrollback == old(self)@.screen.scrollback,
            final(self)@.screen.hyperlinks == old(self)@.screen.hyperlinks,
            final(self)@.screen.images == old(self)@.screen.images,
            final(self)@.screen.tabs == old(self)@.screen.tabs,
            final(self)@.screen.cursor.within(
                final(self)@.screen.active.rows.len() as int,
                final(self)@.screen.active.cols as int,
            ),
    {
        let mut no_lines: Scrollback = Scrollback::with_cap(0);
        reflow(
            &mut self.screen.active,
            &mut no_lines,
            &mut self.screen.cursor,
            rows,
            cols,
        );
        let mut parked_lines: Scrollback = Scrollback::with_cap(0);
        let mut saved: Cursor = match self.screen.saved_cursor {
            Some(c) => c,
            None => Cursor::default(),
        };
        match &mut self.screen.alt {
            Some(parked) => reflow(parked, &mut parked_lines, &mut saved, rows, cols),
            None => {},
        }
        if self.screen.saved_cursor.is_some() {
            self.screen.saved_cursor = Some(saved);
        }
    }

    /// Changes the size of the screen.
    pub fn resize(&mut self, rows: u16, cols: u16)
        requires
            old(self)@.screen.wf(),
        ensures
            final(self)@.screen == old(self)@.screen.resized(rows, cols),
            final(self)@.parser == old(self)@.parser,
            final(self)@.screen.wf(),
            final(self)@.screen.active.rows.len() == crate::coords::max16(rows, 1),
            final(self)@.screen.active.cols == crate::coords::max16(cols, 1),
            final(self)@.screen.cursor.within(
                final(self)@.screen.active.rows.len() as int,
                final(self)@.screen.active.cols as int,
            ),
    {
        let r: u16 = larger(rows, 1);
        let c: u16 = larger(cols, 1);
        if self.screen.alt.is_some() {
            self.resize_alternate(r, c);
        } else {
            reflow(
                &mut self.screen.active,
                &mut self.screen.scrollback,
                &mut self.screen.cursor,
                r,
                c,
            );
        }
        self.screen.tabs.resize(c);
        self.screen.scroll_region = (0, r - 1);
        self.screen.placements = Vec::new();
    }

    /// Sets the size of the text area in pixels.
    pub fn set_pixel_area(&mut self, w: u16, h: u16)
        ensures
            final(self)@.parser == old(self)@.parser,
            final(self)@.screen == (crate::screen::model::ScreenView {
                area_px_w: w,
                area_px_h: h,
                ..old(self)@.screen
            }),
    {
        self.screen.set_pixel_area(w, h);
    }

    /// Puts restored rows into the scrollback, the oldest first.
    pub fn preseed_scrollback(&mut self, rows: Vec<Row>)
        requires
            old(self)@.screen.wf(),
        ensures
            final(self)@.parser == old(self)@.parser,
            final(self)@.screen == (crate::screen::model::ScreenView {
                scrollback: old(self)@.screen.scrollback.pushed_all(crate::row::rows_view(rows@)),
                ..old(self)@.screen
            }),
            final(self)@.screen.wf(),
    {
        self.screen.preseed_scrollback(rows);
    }

    /// The screen.
    pub fn screen(&self) -> (s: &Screen)
        ensures
            s@ == self@.screen,
    {
        &self.screen
    }

    /// The screen, to change it.
    pub fn screen_mut(&mut self) -> (s: &mut Screen)
        ensures
            s@ == old(self)@.screen,
            final(self)@.screen == final(s)@,
            final(self)@.parser == old(self)@.parser,
    {
        &mut self.screen
    }

    /// Takes the replies that the program behind the terminal waits for.
    pub fn take_replies(&mut self) -> (r: Vec<Vec<u8>>)
        ensures
            crate::screen::byte_strings(r@) == old(self)@.screen.replies,
            final(self)@.parser == old(self)@.parser,
            final(self)@.screen == (crate::screen::model::ScreenView {
                replies: Seq::empty(),
                ..old(self)@.screen
            }),
    {
        self.screen.take_replies()
    }

    /// Takes what the program put on the clipboard.
    pub fn take_clipboard_writes(&mut self) -> (r: Vec<Vec<u8>>)
        ensures
            crate::screen::byte_strings(r@) == old(self)@.screen.clipboard_writes,
            final(self)@.parser == old(self)@.parser,
            final(self)@.screen == (crate::screen::model::ScreenView {
                clipboard_writes: Seq::empty(),
                ..old(self)@.screen
            }),
    {
        self.screen.take_clipboard_writes()
    }

    /// Takes the questions for colors of the palette.
    pub fn take_color_queries(&mut self) -> (r: Vec<ColorQuery>)
        ensures
            r@ == questions(old(self)@.screen.color_queries),
            final(self)@.parser == old(self)@.parser,
            final(self)@.screen == (crate::screen::model::ScreenView {
                color_queries: Seq::empty(),
                ..old(self)@.screen
            }),
    {
        let ghost all = self@.screen.color_queries;
        let asked: Vec<(usize, ColorQuery)> = self.screen.take_color_queries();
        let mut out: Vec<ColorQuery> = Vec::new();
        let mut i: usize = 0;
        while i < asked.len()
            invariant
                i <= asked.len(),
                asked@ == all,
                out@ =~= questions(all).take(i as int),
            decreases asked.len() - i,
        {
            out.push(asked[i].1);
            i += 1;
        }
        out
    }

    /// Takes the signal of the bell.
    pub fn take_bell(&mut self) -> (r: bool)
        ensures
            r == old(self)@.screen.bell_pending,
            final(self)@.parser == old(self)@.parser,
            final(self)@.screen == (crate::screen::model::ScreenView {
                bell_pending: false,
                ..old(self)@.screen
            }),
    {
        self.screen.take_bell()
    }
}

} // verus!
