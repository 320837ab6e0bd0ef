//! The vocabulary of the window manager: numbers, sizes, commands, mouse events, and
//! the effects that it asks for.
use vstd::prelude::*;

verus! {

/// The number of a pane.
#[derive(Debug, Clone, Copy, PartialEq, Eq, Structural)]
pub struct PaneId(pub u32);

/// The number of a window.
#[derive(Debug, Clone, Copy, PartialEq, Eq, Structural)]
pub struct WindowId(pub u32);

/// The size of a terminal, in cells and in pixels. Unknown pixels are 0.
#[derive(Debug, Clone, Copy, PartialEq, Eq, Structural)]
pub struct PtySize {
    pub rows: u16,
    pub cols: u16,
    pub pixel_width: u16,
    pub pixel_height: u16,
}

/// A rectangle of cells.
#[derive(Debug, Clone, Copy, PartialEq, Eq, Structural)]
pub struct Rect {
    pub row: u16,
    pub col: u16,
    pub rows: u16,
    pub cols: u16,
}

/// The size of a cell in pixels; 0 if unknown.
#[derive(Debug, Clone, Copy, PartialEq, Eq, Structural)]
pub struct CellPx {
    pub width: u16,
    pub height: u16,
}

/// How a pane is divided.
#[derive(Debug, Clone, Copy, PartialEq, Eq, Structural)]
pub enum SplitDir {
    /// Side by side.
    Vertical,
    /// One above the other.
    Horizontal,
}

#[derive(Debug, Clone, Copy, PartialEq, Eq, Structural)]
pub enum Direction {
    Left,
    Right,
    Up,
    Down,
}

/// A ready arrangement of the panes of a window.
#[derive(Debug, Clone, Copy, PartialEq, Eq, Structural)]
pub enum LayoutPreset {
    EvenHorizontal,
    EvenVertical,
    MainHorizontal,
    MainVertical,
    Tiled,
}

impl LayoutPreset {
    /// The arrangement after this one; the first follows the last.
    pub open spec fn following(self) -> LayoutPreset {
        match self {
            LayoutPreset::EvenHorizontal => LayoutPreset::EvenVertical,
            LayoutPreset::EvenVertical => LayoutPreset::MainHorizontal,
            LayoutPreset::MainHorizontal => LayoutPreset::MainVertical,
            LayoutPreset::MainVertical => LayoutPreset::Tiled,
            LayoutPreset::Tiled => LayoutPreset::EvenHorizontal,
        }
    }

    /// The arrangement after this one; the first follows the last.
    pub fn next(self) -> (r: LayoutPreset)
        ensures
            r == self.following(),
    {
        match self {
            LayoutPreset::EvenHorizontal => LayoutPreset::EvenVertical,
            LayoutPreset::EvenVertical => LayoutPreset::MainHorizontal,
            LayoutPreset::MainHorizontal => LayoutPreset::MainVertical,
            LayoutPreset::MainVertical => LayoutPreset::Tiled,
            LayoutPreset::Tiled => LayoutPreset::EvenHorizontal,
        }
    }
}

/// Which glyphs the font of the terminal has.
#[derive(Debug, Clone, Copy, PartialEq, Eq, Structural)]
pub enum GlyphTier {
    Ascii,
    Unicode,
    Nerd,
}

/// The severity of a message on the status line. It selects the glyph before the
/// message and the color, so that it is legible without color too.
#[derive(Debug, Clone, Copy, PartialEq, Eq, Structural)]
pub enum Severity {
    /// A neutral notice.
    Info,
    /// An action succeeded.
    Success,
    /// Something was left out.
    Warn,
    /// Something failed.
    Error,
}

impl Severity {
    /// The key of the color in the palette.
    pub open spec fn key(self) -> Seq<char> {
        match self {
            Severity::Info => "info"@,
            Severity::Success => "ok"@,
            Severity::Warn => "warn"@,
            Severity::Error => "alert"@,
        }
    }

    /// The glyph before the message.
    pub open spec fn mark(self, tier: GlyphTier) -> Seq<char> {
        match tier {
            GlyphTier::Ascii => match self {
                Severity::Info => "i"@,
                Severity::Success => "+"@,
                Severity::Warn => "!"@,
                Severity::Error => "x"@,
            },
            _ => match self {
                Severity::Info => "ℹ"@,
                Severity::Success => "✓"@,
                Severity::Warn => "⚠"@,
                Severity::Error => "✗"@,
            },
        }
    }

    /// The key of the color in the palette.
    pub fn palette_key(self) -> (key: &'static str)
        ensures
            key@ == self.key(),
    {
        match self {
            Severity::Info => "info",
            Severity::Success => "ok",
            Severity::Warn => "warn",
            Severity::Error => "alert",
        }
    }

    /// The glyph before the message. It tells the severity without color, also on a
    /// terminal that has plain letters only.
    pub fn glyph(self, tier: GlyphTier) -> (glyph: &'static str)
        ensures
            glyph@ == self.mark(tier),
    {
        match tier {
            GlyphTier::Ascii => match self {
                Severity::Info => "i",
                Severity::Success => "+",
                Severity::Warn => "!",
                Severity::Error => "x",
            },
            _ => match self {
                Severity::Info => "ℹ",
                Severity::Success => "✓",
                Severity::Warn => "⚠",
                Severity::Error => "✗",
            },
        }
    }
}

/// A command of the user.
#[derive(Debug, Clone, Copy, PartialEq, Eq, Structural)]
pub enum Command {
    SplitV,
    SplitH,
    SelectNextPane,
    SelectPrevPane,
    SelectPane(Direction),
    KillPane,
    NewWindow,
    NextWindow,
    PrevWindow,
    SelectWindow(u8),
    SelectLastWindow,
    SelectLastPane,
    MarkPane,
    BreakPane,
    /// Exchange the active pane with the next one, or else the one before it.
    SwapPane(bool),
    JoinPane(SplitDir),
    SwapMarkedPane,
    ToggleMonitorActivity,
    ToggleMonitorBell,
    ToggleMonitorCommand,
    /// A number of seconds, or nothing to stop.
    SetMonitorSilence(Option<u64>),
    ResizePane(Direction),
    KillWindow,
    RenameWindow,
    RenamePane,
    ShowHelp,
    ZoomToggle,
    ToggleSyncPanes,
    EnterCopyMode,
    OpenPopup,
    ClosePopup,
    SelectLayout(LayoutPreset),
    NextLayout,
    PrevPrompt,
    NextPrompt,
    Detach,
    Cancel,
    ReloadConfig,
    CommandPrompt,
    ChooseSession,
    ChooseTree,
    History,
    Hints,
    PasteBuffer,
    ChooseBuffer,
    EnterBlockMode,
    CopyOutput,
}

/// Why a pane leaves its place in a window.
#[derive(Debug, Clone, Copy, PartialEq, Eq, Structural)]
pub enum Purpose {
    /// It is closed.
    Close,
    /// It gets a window of its own.
    Break,
    /// It joins the active pane.
    Join(SplitDir),
}

/// What the manager asks of its surroundings, which hold the layouts, the programs
/// and the terminals.
#[derive(Debug, Clone, Copy, PartialEq, Eq, Structural)]
pub enum Effect {
    /// Draw anew.
    Wake,
    /// Show all panes of the window again, each at its size.
    Unzoom(WindowId),
    /// Give all panes of the window their sizes.
    Resize(WindowId),
    /// Tell the panes of the window the size of a cell.
    SetCell(WindowId, CellPx),
    /// Split the active pane, and start a shell in the new one. To be reported.
    Split(WindowId, SplitDir, PaneId),
    /// Split a given pane, and start a program in the new one. To be reported.
    SplitAt(WindowId, PaneId, SplitDir, PaneId),
    /// Start a program in a new window. To be reported.
    SpawnWindow(WindowId, PaneId),
    /// Start a program in a popup. To be reported.
    SpawnPopup(PaneId),
    /// Start a shell in the place of a pane whose program ended. To be reported.
    Respawn(WindowId, PaneId, PaneId),
    /// End the program in a pane.
    KillChild(PaneId),
    /// Take a pane out of the layout of its window. To be reported.
    Remove(WindowId, PaneId, Purpose),
    /// Make a window of a pane that was taken out.
    Adopt(WindowId, PaneId),
    /// Split a pane, and put a pane that was taken out there.
    AdoptSplit(WindowId, PaneId, SplitDir, PaneId),
    /// Focus a pane. To be reported, as are the next three.
    Focus(WindowId, PaneId),
    FocusNext(WindowId),
    FocusPrev(WindowId),
    FocusToward(WindowId, Direction),
    /// Exchange the active pane with its neighbor, if it has one. To be reported.
    SwapWithNeighbor(WindowId, PaneId, bool),
    /// Exchange two panes of a window.
    SwapPanes(WindowId, PaneId, PaneId),
    /// Exchange two panes of two windows.
    SwapAcross(WindowId, PaneId, WindowId, PaneId),
    /// Move a border of the pane by a number of cells.
    Grow(WindowId, PaneId, SplitDir, i32),
    /// Rearrange the panes, with a given one in the main place.
    Arrange(WindowId, LayoutPreset, Option<PaneId>),
    /// Enter copy mode.
    CopyMode(PaneId),
    /// Leave copy mode.
    LeaveCopyMode(PaneId),
    /// Scroll to the prompt before or after the first visible line.
    ScrollToPrompt(PaneId, bool),
    /// Give the popup its size.
    ResizePopup(PaneId),
}

#[derive(Debug, Clone, Copy, PartialEq, Eq, Structural)]
pub enum MouseButton {
    Left,
    Middle,
    Right,
    Absent,
}

#[derive(Debug, Clone, Copy, PartialEq, Eq, Structural)]
pub enum MouseKind {
    Press,
    Release,
    Move,
    /// The wheel; up is positive.
    Wheel(i16),
}

#[derive(Debug, Clone, Copy, PartialEq, Eq, Structural)]
pub struct MouseModifiers {
    pub shift: bool,
    pub alt: bool,
    pub ctrl: bool,
}

/// A mouse event at a cell.
#[derive(Debug, Clone, Copy, PartialEq, Eq, Structural)]
pub struct MouseEvent {
    pub kind: MouseKind,
    pub button: MouseButton,
    pub modifiers: MouseModifiers,
    pub row: u16,
    pub col: u16,
}

/// The side of a pane on which a border runs.
#[derive(Debug, Clone, Copy, PartialEq, Eq, Structural)]
pub enum BorderSide {
    Right,
    Bottom,
}

/// A border under the pointer.
#[derive(Debug, Clone, Copy, PartialEq, Eq, Structural)]
pub struct BorderHit {
    pub adjacent_pane: PaneId,
    pub side: BorderSide,
}

/// How mouse events are sent to a program.
#[derive(Debug, Clone, Copy, PartialEq, Eq, Structural)]
pub enum MouseEncoding {
    X10,
    ButtonEvent,
    AnyEvent,
    Sgr,
}

/// What a click on a part of the status bar does.
#[derive(Debug, Clone, Copy, PartialEq, Eq, Structural)]
pub enum ClickAction {
    SelectWindow(usize),
    ToggleSyncPanes,
    ExitCopyMode,
    Detach,
    NoOp,
}

/// A part of the status bar that can be clicked: columns `start` to `end - 1`.
#[derive(Debug, Clone, Copy, PartialEq, Eq, Structural)]
pub struct StatusHit {
    pub start: u16,
    pub end: u16,
    pub action: ClickAction,
}

/// A selection of text in a pane, from the anchor to the head.
#[derive(Debug, Clone, Copy, PartialEq, Eq, Structural)]
pub struct Selection {
    pub source_pane: PaneId,
    pub anchor_row: u16,
    pub anchor_col: u16,
    pub head_row: u16,
    pub head_col: u16,
}

} // verus!
