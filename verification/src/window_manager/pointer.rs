//! What a mouse event is about: places in a pane, selections, and what a program is
//! told.
use super::types::{Effect, MouseEncoding, MouseEvent, PaneId, Rect, Selection};
use crate::coords::{min16, sat_sub, smaller};
use crate::modes::Modes;
use crate::screen::Screen;
use vstd::prelude::*;

verus! {

/// The bytes before pasted text, `ESC [ 200 ~`.
pub open spec fn paste_begin() -> Seq<u8> {
    seq![0x1b, 0x5b, 0x32, 0x30, 0x30, 0x7e]
}

/// The bytes behind pasted text, `ESC [ 201 ~`.
pub open spec fn paste_end() -> Seq<u8> {
    seq![0x1b, 0x5b, 0x32, 0x30, 0x31, 0x7e]
}

/// Text as it is pasted, in brackets if the program asked for them.
pub open spec fn pasted(bytes: Seq<u8>, bracketed: bool) -> Seq<u8> {
    if bracketed {
        paste_begin() + bytes + paste_end()
    } else {
        bytes
    }
}

/// Text as it is pasted into a pane, in brackets if its program asked for them. There
/// is nothing to send if there is no text.
pub fn paste_bytes(bytes: Vec<u8>, modes: Modes) -> (r: Option<Vec<u8>>)
    ensures
        match r {
            Some(out) => bytes@.len() > 0 && out@ == pasted(
                bytes@,
                modes.has(Modes::BRACKETED_PASTE),
            ),
            None => bytes@.len() == 0,
        },
{
    if bytes.len() == 0 {
        return None;
    }
    if modes.contains(Modes::BRACKETED_PASTE) {
        let ghost text = bytes@;
        let mut bytes: Vec<u8> = bytes;
        let mut out: Vec<u8> = vec![0x1b, 0x5b, 0x32, 0x30, 0x30, 0x7e];
        let mut end: Vec<u8> = vec![0x1b, 0x5b, 0x32, 0x30, 0x31, 0x7e];
        out.append(&mut bytes);
        out.append(&mut end);
        assert(out@ =~= pasted(text, true));
        Some(out)
    } else {
        Some(bytes)
    }
}

/// How mouse events are told to a program in these modes.
pub open spec fn encoding_of(modes: Modes) -> MouseEncoding {
    if modes.has(Modes::MOUSE_SGR) {
        MouseEncoding::Sgr
    } else if modes.has(Modes::MOUSE_ANY) {
        MouseEncoding::AnyEvent
    } else if modes.has(Modes::MOUSE_BTN) || modes.has(Modes::MOUSE_BTN_EVENT) {
        MouseEncoding::ButtonEvent
    } else {
        MouseEncoding::X10
    }
}

/// How mouse events are told to a program in these modes.
pub fn mouse_encoding_for(modes: Modes) -> (r: MouseEncoding)
    ensures
        r == encoding_of(modes),
{
    if modes.contains(Modes::MOUSE_SGR) {
        MouseEncoding::Sgr
    } else if modes.contains(Modes::MOUSE_ANY) {
        MouseEncoding::AnyEvent
    } else if modes.contains(Modes::MOUSE_BTN) || modes.contains(Modes::MOUSE_BTN_EVENT) {
        MouseEncoding::ButtonEvent
    } else {
        MouseEncoding::X10
    }
}

/// Whether a program in these modes is told of the mouse.
pub open spec fn wants_mouse(modes: Modes) -> bool {
    modes.has(Modes::MOUSE_X10) || modes.has(Modes::MOUSE_BTN) || modes.has(
        Modes::MOUSE_BTN_EVENT,
    ) || modes.has(Modes::MOUSE_ANY) || modes.has(Modes::MOUSE_SGR)
}

impl MouseEvent {
    /// The event in the coordinates of a rectangle.
    pub open spec fn within(self, rect: Rect) -> MouseEvent {
        MouseEvent {
            row: sat_sub(self.row, rect.row),
            col: sat_sub(self.col, rect.col),
            ..self
        }
    }

    /// The event in the coordinates of the pane band.
    pub open spec fn below(self, offset: u16) -> MouseEvent {
        MouseEvent { row: sat_sub(self.row, offset), ..self }
    }

    /// The event in the coordinates of a rectangle.
    pub fn local_to(self, rect: Rect) -> (r: MouseEvent)
        ensures
            r == self.within(rect),
    {
        MouseEvent {
            row: self.row.saturating_sub(rect.row),
            col: self.col.saturating_sub(rect.col),
            ..self
        }
    }
}

impl Rect {
    /// Whether a cell is inside, not on the frame.
    pub open spec fn inside(self, row: u16, col: u16) -> bool {
        &&& self.row < row < self.row + self.rows - 1
        &&& self.col < col < self.col + self.cols - 1
    }

    /// Whether a cell is inside, not on the frame.
    pub fn contains_inside(self, row: u16, col: u16) -> (r: bool)
        ensures
            r == self.inside(row, col),
    {
        let last_row: u32 = self.row as u32 + self.rows as u32;
        let last_col: u32 = self.col as u32 + self.cols as u32;
        self.row < row && (row as u32) + 1 < last_row && self.col < col && (col as u32) + 1
            < last_col
    }
}

impl Selection {
    /// A selection of nothing yet, at a place.
    pub open spec fn at(pane: super::types::PaneId, row: u16, col: u16) -> Selection {
        Selection {
            source_pane: pane,
            anchor_row: row,
            anchor_col: col,
            head_row: row,
            head_col: col,
        }
    }

    /// The selection up to a place, which is kept inside the pane.
    pub open spec fn extended(self, row: u16, col: u16, rect: Rect) -> Selection {
        Selection {
            head_row: min16(row, sat_sub(rect.rows, 1)),
            head_col: min16(col, sat_sub(rect.cols, 1)),
            ..self
        }
    }

    /// Nothing is selected.
    pub open spec fn empty(self) -> bool {
        self.anchor_row == self.head_row && self.anchor_col == self.head_col
    }

    /// The pointer hardly moved: one column at most.
    pub open spec fn clicked(self) -> bool {
        self.anchor_row == self.head_row && -1 <= self.head_col - self.anchor_col <= 1
    }

    /// A selection that starts at a place.
    pub fn start(pane: super::types::PaneId, row: u16, col: u16) -> (r: Selection)
        ensures
            r == Selection::at(pane, row, col),
    {
        Selection {
            source_pane: pane,
            anchor_row: row,
            anchor_col: col,
            head_row: row,
            head_col: col,
        }
    }

    /// Moves the head of the selection, but not out of the pane.
    pub fn extend(&mut self, row: u16, col: u16, rect: Rect)
        ensures
            *final(self) == old(self).extended(row, col, rect),
    {
        self.head_row = smaller(row, rect.rows.saturating_sub(1));
        self.head_col = smaller(col, rect.cols.saturating_sub(1));
    }

    /// Whether nothing is selected.
    pub fn is_empty(&self) -> (r: bool)
        ensures
            r == self.empty(),
    {
        self.anchor_row == self.head_row && self.anchor_col == self.head_col
    }

    /// Whether the pointer hardly moved. A hand that shakes a little still clicks.
    pub fn is_click(&self) -> (r: bool)
        ensures
            r == self.clicked(),
    {
        let drift: i32 = self.head_col as i32 - self.anchor_col as i32;
        self.anchor_row == self.head_row && -1 <= drift && drift <= 1
    }
}

/// The target of the link under a cell of the screen.
pub fn link_at(screen: &Screen, row: u16, col: u16) -> (r: Option<String>)
    ensures
        super::window::opt_text(r) == (match screen@.active.cell(row, col) {
            Some(cell) => match cell.hyperlink_id {
                Some(id) => if id < screen@.hyperlinks.len() {
                    Some(screen@.hyperlinks[id as int])
                } else {
                    None
                },
                None => None,
            },
            None => None,
        }),
{
    match screen.active.get_cell(row, col) {
        Some(cell) => match cell.hyperlink_id {
            Some(id) => match screen.hyperlinks.get(id) {
                Some(url) => Some(url.to_owned()),
                None => None,
            },
            None => None,
        },
        None => None,
    }
}

/// Where copy mode begins.
#[derive(Debug, Clone, Copy, PartialEq, Eq, Structural)]
pub struct CopyStart {
    /// The number of lines, of the past and of the grid.
    pub total_lines: u32,
    pub pane_rows: u16,
    /// The line and the column of the cursor.
    pub line: u32,
    pub col: u16,
}

/// Where copy mode begins: at the cursor, counted over all lines.
pub fn copy_mode_start(screen: &Screen) -> (r: CopyStart)
    requires
        screen@.active.wf(),
        screen@.scrollback.rows.len() + u16::MAX <= u32::MAX,
    ensures
        r.total_lines == screen@.scrollback.rows.len() + screen@.active.rows.len(),
        r.pane_rows == screen@.active.rows.len(),
        r.line == screen@.scrollback.rows.len() + screen@.cursor.row.0,
        r.col == screen@.cursor.col.0,
{
    let past: u32 = screen.scrollback.len() as u32;
    let rows: u16 = screen.active.num_rows();
    CopyStart {
        total_lines: past + rows as u32,
        pane_rows: rows,
        line: past + screen.cursor.row.get() as u32,
        col: screen.cursor.col.get(),
    }
}

/// What a mouse event did in copy mode.
#[derive(Debug, PartialEq, Eq)]
pub enum CopyOutcome {
    /// The picture changed.
    Render,
    /// Copy mode is over.
    Exit,
    /// A text was copied, and copy mode is over.
    Yank(String),
}

/// What an outcome of copy mode asks for: a new picture, after copy mode was left if it
/// is over.
pub open spec fn copy_mode_effects(pane: PaneId, outcome: CopyOutcome) -> Seq<Effect> {
    match outcome {
        CopyOutcome::Render => seq![Effect::Wake],
        _ => seq![Effect::LeaveCopyMode(pane), Effect::Wake],
    }
}

/// What follows from a mouse event in copy mode, and the text for the clipboard if one
/// was copied.
pub fn copy_mode_followed(pane: PaneId, outcome: CopyOutcome) -> (r: (
    Vec<Effect>,
    Option<String>,
))
    ensures
        r.0@ == copy_mode_effects(pane, outcome),
        r.1 == (match outcome {
            CopyOutcome::Yank(text) => Some(text),
            _ => None,
        }),
{
    let mut effects: Vec<Effect> = Vec::new();
    let ghost expected = copy_mode_effects(pane, outcome);
    let text: Option<String> = match outcome {
        CopyOutcome::Render => None,
        CopyOutcome::Exit => {
            effects.push(Effect::LeaveCopyMode(pane));
            None
        },
        CopyOutcome::Yank(text) => {
            effects.push(Effect::LeaveCopyMode(pane));
            Some(text)
        },
    };
    effects.push(Effect::Wake);
    assert(effects@ =~= expected);
    (effects, text)
}

/// Where a command that looks for a prompt scrolls to. Backwards there may be none,
/// and nothing happens; forwards there is the live view behind the last one.
pub fn prompt_offset(forward: bool, found: Option<u32>) -> (r: Option<u32>)
    ensures
        r == (match found {
            Some(offset) => Some(offset),
            None => if forward {
                Some(0)
            } else {
                None
            },
        }),
{
    match found {
        Some(offset) => Some(offset),
        None => if forward {
            Some(0)
        } else {
            None
        },
    }
}

} // verus!
