//! What holds of a screen that gets another size, another buffer or a new start.
use super::model::ScreenView;
use super::sequences::empty_row;
use super::settings::private;
use crate::color::Color;
use crate::cursor::Cursor;
use crate::modes::Modes;
use crate::reflow::reflowed;
use crate::scrollback::ScrollbackView;
use vstd::prelude::*;

verus! {

/// A screen that gets another size has that many rows and columns, scrolls as a whole and
/// has no pictures. Tab stops stay where they were, and new columns have one in every
/// eighth. On the main screen the lines of the screen and of the scrollback are wrapped
/// together; the alternate screen and the main screen behind it are wrapped each by
/// itself, and the scrollback stays. Nothing else changes.
pub proof fn getting_another_size(s: ScreenView, rows: u16, cols: u16, k: int)
    requires
        rows >= 1,
        cols >= 1,
    ensures
        ({
            let t = s.resized(rows, cols);
            let alone = ScrollbackView { rows: Seq::empty(), cap: 0 };
            &&& t == (ScreenView {
                active: t.active,
                scrollback: t.scrollback,
                cursor: t.cursor,
                alt: t.alt,
                saved_cursor: t.saved_cursor,
                tabs: t.tabs,
                scroll_region: (0, (rows - 1) as u16),
                placements: Seq::empty(),
                ..s
            })
            &&& t.tabs.len() == cols
            &&& 0 <= k < cols && k < s.tabs.len() ==> t.tabs[k] == s.tabs[k]
            &&& s.tabs.len() <= k < cols ==> t.tabs[k] == (k % 8 == 0)
            &&& t.alt is Some <==> s.alt is Some
            &&& s.alt is None ==> {
                &&& (t.active, t.scrollback, t.cursor) == reflowed(
                    s.active,
                    s.scrollback,
                    s.cursor,
                    rows,
                    cols,
                )
                &&& t.saved_cursor == s.saved_cursor
            }
            &&& s.alt matches Some(main) ==> {
                &&& t.scrollback == s.scrollback
                &&& t.active == reflowed(s.active, alone, s.cursor, rows, cols).0
                &&& t.cursor == reflowed(s.active, alone, s.cursor, rows, cols).2
                &&& s.saved_cursor matches Some(c) ==> t.alt == Some(
                    reflowed(main, alone, c, rows, cols).0,
                ) && t.saved_cursor == Some(reflowed(main, alone, c, rows, cols).2)
                &&& s.saved_cursor is None ==> t.saved_cursor is None
            }
        }),
{
}

/// The sequence for the alternate screen shows an empty one with the cursor at home and
/// plain new cells; the one that ends it brings the main screen and its cursor back. To
/// ask for the one that is shown does nothing.
pub proof fn switching_screens(s: ScreenView, r: int)
    requires
        s.wf(),
        s.in_bounds(),
        0 <= r < s.active.rows.len(),
    ensures
        ({
            let p = seq![seq![1049u16]];
            let t = s.csi(p, private(), 'h');
            let u = t.csi(p, private(), 'l');
            &&& s.alt is None ==> {
                &&& t.alt == Some(s.active)
                &&& t.active.rows.len() == s.active.rows.len() && t.active.cols == s.active.cols
                &&& empty_row(t.active.rows[r], s.active.cols as int)
                &&& t.cursor.row.0 == 0 && t.cursor.col.0 == 0
                &&& t.cursor.fg == Color::Default && t.cursor.bg == Color::Default
                    && t.cursor.attrs.bits == 0
                &&& t.modes.has(Modes::ALT_SCREEN)
                &&& t.scrollback == s.scrollback
                &&& u.active == s.active && u.alt is None && u.cursor == s.cursor
                &&& !u.modes.has(Modes::ALT_SCREEN)
                &&& u.scrollback == s.scrollback
                &&& s.csi(p, private(), 'l') == s
            }
            &&& s.alt is Some ==> t == s
        }),
{
    let p = seq![seq![1049u16]];
    super::settings::switching_one(s, 1049, true);
    super::settings::switching_one(s, 1049, false);
    super::settings::switching_one(s.csi(p, private(), 'h'), 1049, false);
    let f: u64 = Modes::ALT_SCREEN;
    assert(f & 0 == 0) by (bit_vector);
    crate::modes::switching_one_mode_keeps_the_others(s.modes, Modes::ALT_SCREEN, 0, true);
    crate::modes::switching_one_mode_keeps_the_others(
        s.alt_entered().modes,
        Modes::ALT_SCREEN,
        0,
        false,
    );
}

/// A soft reset takes the negotiated keyboard, the look of new cells and the saved cursor
/// back, and leaves what is on the screen and where the cursor is.
pub proof fn resetting_softly(s: ScreenView)
    ensures
        ({
            let t = s.csi(Seq::empty(), seq![0x21u8], 'p');
            &&& t == (ScreenView {
                kbd: t.kbd,
                cursor: Cursor {
                    attrs: t.cursor.attrs,
                    fg: Color::Default,
                    bg: Color::Default,
                    underline_color: Color::Default,
                    underline_style: crate::attrs::UnderlineStyle::Off,
                    pending_wrap: false,
                    ..s.cursor
                },
                saved_cursor: None,
                ..s
            })
            &&& t.cursor.attrs.bits == 0
            &&& t.kbd.modify_other_keys == 0
            &&& t.kbd.kitty(true).current == 0 && t.kbd.kitty(false).current == 0
            &&& t.kbd.kitty(true).stack.len() == 0 && t.kbd.kitty(false).stack.len() == 0
        }),
{
    let inter = seq![0x21u8];
    assert(inter[0] == 0x21);
    assert(!inter.contains(0x24)) by {
        assert forall|i: int| 0 <= i < inter.len() implies inter[i] != 0x24 by {}
    }
    assert(s.csi(Seq::empty(), inter, 'p') == s.soft_reset()) by {
        reveal(ScreenView::csi);
    }
}

/// A new screen is empty, with the cursor at home and visible, autowrap on and no other
/// mode, a tab stop in every eighth column, and all rows scrolling. Nothing is waiting.
pub proof fn a_new_screen_is_empty(
    rows: u16,
    cols: u16,
    term: Seq<char>,
    dark: bool,
    r: int,
    k: int,
)
    requires
        rows >= 1,
        0 <= r < rows,
        0 <= k < cols,
    ensures
        ({
            let s = super::model::blank_screen(rows, cols, term, dark);
            &&& s.active.rows.len() == rows && s.active.cols == cols
            &&& empty_row(s.active.rows[r], cols as int)
            &&& s.cursor.row.0 == 0 && s.cursor.col.0 == 0 && !s.cursor.pending_wrap
            &&& s.cursor.fg == Color::Default && s.cursor.bg == Color::Default
                && s.cursor.attrs.bits == 0 && s.cursor.hyperlink_id is None
            &&& s.modes.has(Modes::AUTOWRAP) && s.modes.has(Modes::CURSOR_VISIBLE)
            &&& !s.modes.has(Modes::ORIGIN) && !s.modes.has(Modes::ALT_SCREEN)
                && !s.modes.has(Modes::BRACKETED_PASTE) && !s.modes.has(Modes::MOUSE_SGR)
                && !s.modes.has(Modes::APP_CURSOR_KEYS)
            &&& s.tabs.len() == cols && s.tabs[k] == (k % 8 == 0)
            &&& s.scroll_region.0 == 0 && s.scroll_region.1 == rows - 1
            &&& s.scrollback.rows.len() == 0 && s.replies.len() == 0 && s.images.images.len() == 0
            &&& s.alt is None && s.saved_cursor is None && s.pending_tx is None
            &&& s.term == term && s.color_scheme_dark == dark
        }),
{
    assert(0x1u64 | 0x10 == 0x11u64 && 0x11u64 & 0x1 == 0x1 && 0x11u64 & 0x10 == 0x10 && 0x11u64
        & 0x2 == 0 && 0x11u64 & 0x8 == 0 && 0x11u64 & 0x20 == 0 && 0x11u64 & 0x200 == 0
        && 0x11u64 & 0x400 == 0) by (bit_vector);
}

} // verus!
