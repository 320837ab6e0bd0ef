//! The state of the window manager and its invariant.
use super::spawn::SpawnView;
use super::types::{
    BorderSide, CellPx, Effect, PaneId, PtySize, Rect, Selection, Severity, StatusHit, WindowId,
};
use super::window::{place_is_found, place_of, WindowView};
use vstd::prelude::*;

verus! {

/// A border that is being dragged.
#[derive(Debug, Clone, Copy, PartialEq, Eq, Structural)]
pub struct ResizeDrag {
    pub adjacent_pane: PaneId,
    pub side: BorderSide,
    pub last_row: u16,
    pub last_col: u16,
}

/// A window that is being dragged to another place in the status bar.
#[derive(Debug, Clone, Copy, PartialEq, Eq, Structural)]
pub struct TabDrag {
    pub source: WindowId,
}

/// A pane that is being dragged to the place of another.
#[derive(Debug, Clone, Copy, PartialEq, Eq, Structural)]
pub struct PaneDrag {
    pub source: PaneId,
    pub target: Option<PaneId>,
}

/// The last press of the left button.
#[derive(Debug, Clone, Copy, PartialEq, Eq, Structural)]
pub struct ClickHistory {
    pub pane: PaneId,
    pub row: u16,
    pub col: u16,
    /// When it was, in milliseconds.
    pub at: u64,
    pub count: u8,
}

/// What the mouse is doing.
#[derive(Debug, Clone, Copy, PartialEq, Eq, Structural)]
pub struct Gestures {
    pub selection: Option<Selection>,
    /// How far the pane was scrolled back when the selection began.
    pub press_scroll: u32,
    /// The selection is a word or a line, by a double or triple click.
    pub word_line: bool,
    pub resize: Option<ResizeDrag>,
    pub tab: Option<TabDrag>,
    pub pane: Option<PaneDrag>,
    pub click: Option<ClickHistory>,
}

impl Gestures {
    pub open spec fn initial() -> Gestures {
        Gestures {
            selection: None,
            press_scroll: 0,
            word_line: false,
            resize: None,
            tab: None,
            pane: None,
            click: None,
        }
    }

    /// Nothing in progress. The last press stays: it loses its meaning by itself.
    pub open spec fn dropped(self) -> Gestures {
        Gestures { selection: None, resize: None, tab: None, pane: None, ..self }
    }
}

/// What is shown above the windows and takes all keys.
#[derive(Debug, Clone, Copy, PartialEq, Eq, Structural)]
pub enum Overlay {
    RenameWindow,
    RenamePane,
    Help,
    Welcome,
    Command,
    SessionPicker,
    Tree,
    BufferPicker,
    Hints,
}

/// A message on the status line.
pub ghost struct MessageView {
    pub text: Seq<char>,
    pub severity: Severity,
    pub expires_at: u64,
}

/// A pane that floats above the windows.
pub ghost struct PopupView {
    pub pane: PaneId,
    pub title: Seq<char>,
}

/// How long a message stays, in milliseconds.
pub const STATUS_TTL: u64 = 3_000;

/// The number of commands that are remembered.
pub const COMMAND_HISTORY_CAP: usize = 100;

/// The state of the window manager.
pub ghost struct WmView {
    pub windows: Seq<WindowView>,
    pub active: WindowId,
    pub last_active: Option<WindowId>,
    pub next_pane: u32,
    pub next_window: u32,
    pub host_size: PtySize,
    pub shell: SpawnView,
    pub session_cwd: Option<Seq<char>>,
    pub marked: Option<PaneId>,
    pub popup: Option<PopupView>,
    pub message: Option<MessageView>,
    pub overlay: Option<Overlay>,
    pub rename_target: Option<PaneId>,
    pub history: Seq<Seq<char>>,
    pub gestures: Gestures,
    pub status_row: Option<u16>,
    pub row_offset: u16,
    pub hits: Seq<StatusHit>,
    pub detach_requested: bool,
}

/// The place of a window in the list.
pub open spec fn slot_of(ws: Seq<WindowView>, id: WindowId) -> Option<int>
    decreases ws.len(),
{
    if ws.len() == 0 {
        None
    } else {
        match slot_of(ws.drop_last(), id) {
            Some(i) => Some(i),
            None => if ws.last().id == id {
                Some(ws.len() - 1)
            } else {
                None
            },
        }
    }
}

/// The place of the window that holds a pane.
pub open spec fn holder_of(ws: Seq<WindowView>, pane: PaneId) -> Option<int>
    decreases ws.len(),
{
    if ws.len() == 0 {
        None
    } else {
        match holder_of(ws.drop_last(), pane) {
            Some(i) => Some(i),
            None => if ws.last().holds(pane) {
                Some(ws.len() - 1)
            } else {
                None
            },
        }
    }
}

/// A window is found where it stands first, if it stands in the list.
pub proof fn slot_is_found(ws: Seq<WindowView>, id: WindowId)
    ensures
        match slot_of(ws, id) {
            Some(i) => 0 <= i < ws.len() && ws[i].id == id && forall|j: int|
                0 <= j < i ==> (#[trigger] ws[j]).id != id,
            None => forall|j: int| 0 <= j < ws.len() ==> (#[trigger] ws[j]).id != id,
        },
    decreases ws.len(),
{
    if ws.len() > 0 {
        let front = ws.drop_last();
        slot_is_found(front, id);
        assert forall|j: int| 0 <= j < ws.len() - 1 implies #[trigger] ws[j] == front[j] by {}
    }
}

/// A holder is found where it stands first, if there is one.
pub proof fn holder_is_found(ws: Seq<WindowView>, pane: PaneId)
    ensures
        match holder_of(ws, pane) {
            Some(i) => 0 <= i < ws.len() && ws[i].holds(pane) && forall|j: int|
                0 <= j < i ==> !(#[trigger] ws[j]).holds(pane),
            None => forall|j: int| 0 <= j < ws.len() ==> !(#[trigger] ws[j]).holds(pane),
        },
    decreases ws.len(),
{
    if ws.len() > 0 {
        let front = ws.drop_last();
        holder_is_found(front, pane);
        assert forall|j: int| 0 <= j < ws.len() - 1 implies #[trigger] ws[j] == front[j] by {}
    }
}

/// Windows with different numbers, each sound, that share no pane; and all numbers
/// below the next ones.
pub open spec fn apart(ws: Seq<WindowView>, next_pane: u32, next_window: u32) -> bool {
    &&& forall|i: int|
        0 <= i < ws.len() ==> (#[trigger] ws[i]).wf() && ws[i].id.0 < next_window
    &&& forall|i: int, j: int|
        0 <= i < j < ws.len() ==> (#[trigger] ws[i]).id != (#[trigger] ws[j]).id
    &&& forall|i: int, a: int|
        0 <= i < ws.len() && 0 <= a < ws[i].panes.len() ==> (#[trigger] ws[i].panes[a]).id.0
            < next_pane
    &&& forall|i: int, j: int, a: int, b: int|
        0 <= i < ws.len() && 0 <= j < ws.len() && i != j && 0 <= a < ws[i].panes.len() && 0 <= b
            < ws[j].panes.len() ==> (#[trigger] ws[i].panes[a]).id != (
        #[trigger] ws[j].panes[b]).id
}

impl WmView {
    /// The invariant. The active window and the last one are windows, the marked pane
    /// is in a window, and the popup is in none.
    pub open spec fn wf(self) -> bool {
        &&& apart(self.windows, self.next_pane, self.next_window)
        &&& (self.windows.len() > 0 ==> slot_of(self.windows, self.active) is Some)
        &&& (self.last_active matches Some(id) ==> slot_of(self.windows, id) is Some)
        &&& (self.marked matches Some(p) ==> holder_of(self.windows, p) is Some)
        &&& (self.popup matches Some(p) ==> p.pane.0 < self.next_pane && holder_of(
            self.windows,
            p.pane,
        ) is None)
        &&& self.history.len() <= COMMAND_HISTORY_CAP
    }

    /// The state is sound, and there is a window.
    pub open spec fn live(self) -> bool {
        self.wf() && self.windows.len() > 0
    }

    /// A number for a new pane is left.
    pub open spec fn has_pane_number(self) -> bool {
        self.next_pane < u32::MAX
    }

    /// Numbers for a new pane and a new window are left.
    pub open spec fn has_numbers(self) -> bool {
        self.next_pane < u32::MAX && self.next_window < u32::MAX
    }

    /// The place of the active window.
    pub open spec fn here(self) -> int {
        slot_of(self.windows, self.active)->0
    }

    /// The active window.
    pub open spec fn window(self) -> WindowView {
        self.windows[self.here()]
    }

    /// The state with another record of a window.
    pub open spec fn with(self, i: int, w: WindowView) -> WmView {
        WmView { windows: self.windows.update(i, w), ..self }
    }

    /// The state with another record of the active window.
    pub open spec fn with_active(self, w: WindowView) -> WmView {
        self.with(self.here(), w)
    }

    /// The state with a message.
    pub open spec fn told(self, text: Seq<char>, severity: Severity, now: u64) -> WmView {
        WmView {
            message: Some(
                MessageView { text, severity, expires_at: now.saturating_add(STATUS_TTL) },
            ),
            ..self
        }
    }

    /// The state with no popup, and what that asks for.
    pub open spec fn popup_closed(self) -> (WmView, Seq<Effect>) {
        match self.popup {
            Some(p) => (
                WmView { popup: None, ..self },
                seq![Effect::KillChild(p.pane), Effect::Wake],
            ),
            None => (self, Seq::empty()),
        }
    }

    /// Another window active; the one before is remembered.
    pub open spec fn switched_to(self, i: int) -> WmView {
        if 0 <= i < self.windows.len() && self.windows[i].id != self.active {
            WmView {
                last_active: Some(self.active),
                active: self.windows[i].id,
                ..self
            }
        } else {
            self
        }
    }

    /// The state without a window. If it was active, the window now in its place is,
    /// or the last one; it is not remembered, nor is a window that is active now. With
    /// the last window the popup goes.
    pub open spec fn window_removed(self, i: int) -> (WmView, Seq<Effect>) {
        let gone = self.windows[i].id;
        let rest = self.windows.remove(i);
        if rest.len() == 0 {
            WmView { windows: rest, last_active: None, ..self }.popup_closed()
        } else {
            let active = if self.active == gone {
                rest[crate::grid::least(i, rest.len() - 1)].id
            } else {
                self.active
            };
            (
                WmView {
                    windows: rest,
                    active,
                    last_active: if self.last_active == Some(gone) || self.last_active == Some(
                        active,
                    ) {
                        None
                    } else {
                        self.last_active
                    },
                    ..self
                },
                Seq::empty(),
            )
        }
    }
}

/// The pane band of a terminal: a row is left for the status bar, and a frame of one
/// cell on every side.
pub open spec fn viewport_of(host: PtySize) -> Rect {
    Rect {
        row: 1,
        col: 1,
        rows: crate::coords::max16(crate::coords::sat_sub(host.rows, 3), 1),
        cols: crate::coords::max16(crate::coords::sat_sub(host.cols, 2), 1),
    }
}

/// The size of a cell of a terminal; 0 where its size in pixels or in cells is 0.
pub open spec fn cell_of(host: PtySize) -> CellPx {
    CellPx {
        width: if host.cols == 0 {
            0
        } else {
            host.pixel_width / host.cols
        },
        height: if host.rows == 0 {
            0
        } else {
            host.pixel_height / host.rows
        },
    }
}

/// A window with a given number stands in one place only.
pub proof fn slots_are_unique(ws: Seq<WindowView>, np: u32, nw: u32, i: int)
    requires
        apart(ws, np, nw),
        0 <= i < ws.len(),
    ensures
        slot_of(ws, ws[i].id) == Some(i),
{
    slot_is_found(ws, ws[i].id);
}

/// A pane is held by one window only.
pub proof fn holders_are_unique(ws: Seq<WindowView>, np: u32, nw: u32, i: int, pane: PaneId)
    requires
        apart(ws, np, nw),
        0 <= i < ws.len(),
        ws[i].holds(pane),
    ensures
        holder_of(ws, pane) == Some(i),
{
    holder_is_found(ws, pane);
    let h = holder_of(ws, pane)->0;
    place_is_found(ws[i].panes, pane);
    place_is_found(ws[h].panes, pane);
    let a = place_of(ws[i].panes, pane)->0;
    let b = place_of(ws[h].panes, pane)->0;
    if h != i {
        assert(ws[i].panes[a].id != ws[h].panes[b].id);
    }
}

/// Changing one record keeps the windows apart, if the window stays sound, keeps its
/// number, and takes in no pane that another window holds.
pub proof fn update_keeps_apart(ws: Seq<WindowView>, np: u32, nw: u32, i: int, w: WindowView)
    requires
        apart(ws, np, nw),
        0 <= i < ws.len(),
        w.wf(),
        w.id == ws[i].id,
        forall|b: int|
            0 <= b < w.panes.len() ==> (#[trigger] w.panes[b]).id.0 < np && (ws[i].holds(
                w.panes[b].id,
            ) || holder_of(ws, w.panes[b].id) is None),
    ensures
        apart(ws.update(i, w), np, nw),
{
    let t = ws.update(i, w);
    assert forall|j: int, k: int, a: int, b: int|
        0 <= j < t.len() && 0 <= k < t.len() && j != k && 0 <= a < t[j].panes.len() && 0 <= b
            < t[k].panes.len() implies (#[trigger] t[j].panes[a]).id != (
    #[trigger] t[k].panes[b]).id by {
        if j == i {
            other_window_lacks(ws, np, nw, i, k, w.panes[a].id);
            place_is_found(ws[k].panes, w.panes[a].id);
        } else if k == i {
            other_window_lacks(ws, np, nw, i, j, w.panes[b].id);
            place_is_found(ws[j].panes, w.panes[b].id);
        }
    }
}

proof fn other_window_lacks(ws: Seq<WindowView>, np: u32, nw: u32, i: int, k: int, pane: PaneId)
    requires
        apart(ws, np, nw),
        0 <= i < ws.len(),
        0 <= k < ws.len(),
        i != k,
        ws[i].holds(pane) || holder_of(ws, pane) is None,
    ensures
        !ws[k].holds(pane),
{
    holder_is_found(ws, pane);
    if ws[i].holds(pane) && ws[k].holds(pane) {
        holders_are_unique(ws, np, nw, i, pane);
        holders_are_unique(ws, np, nw, k, pane);
    }
}

/// A record that keeps its panes, its number and its soundness can change.
pub proof fn touch_keeps_apart(ws: Seq<WindowView>, np: u32, nw: u32, i: int, w: WindowView)
    requires
        apart(ws, np, nw),
        0 <= i < ws.len(),
        w.id == ws[i].id,
        w.panes == ws[i].panes,
        w.wf(),
    ensures
        apart(ws.update(i, w), np, nw),
        forall|id: WindowId| #[trigger] slot_of(ws.update(i, w), id) == slot_of(ws, id),
        forall|p: PaneId| #[trigger] holder_of(ws.update(i, w), p) == holder_of(ws, p),
{
    assert forall|b: int| 0 <= b < w.panes.len() implies (#[trigger] w.panes[b]).id.0 < np && ws[
        i
    ].holds(w.panes[b].id) by {
        assert(ws[i].panes[b].id.0 < np);
        place_is_found(ws[i].panes, w.panes[b].id);
    }
    update_keeps_apart(ws, np, nw, i, w);
    assert forall|id: WindowId| #[trigger] slot_of(ws.update(i, w), id) == slot_of(ws, id) by {
        slots_after_update(ws, i, w, id);
    }
    assert forall|p: PaneId| #[trigger] holder_of(ws.update(i, w), p) == holder_of(ws, p) by {
        holders_after_touch(ws, i, w, p);
    }
}

/// Changing a record but not its number keeps the places of windows.
pub proof fn slots_after_update(ws: Seq<WindowView>, i: int, w: WindowView, id: WindowId)
    requires
        0 <= i < ws.len(),
        w.id == ws[i].id,
    ensures
        slot_of(ws.update(i, w), id) == slot_of(ws, id),
    decreases ws.len(),
{
    if i < ws.len() - 1 {
        assert(ws.update(i, w).drop_last() =~= ws.drop_last().update(i, w));
        slots_after_update(ws.drop_last(), i, w, id);
    } else {
        assert(ws.update(i, w).drop_last() =~= ws.drop_last());
    }
}

proof fn holders_after_touch(ws: Seq<WindowView>, i: int, w: WindowView, p: PaneId)
    requires
        0 <= i < ws.len(),
        w.panes == ws[i].panes,
    ensures
        holder_of(ws.update(i, w), p) == holder_of(ws, p),
    decreases ws.len(),
{
    if i < ws.len() - 1 {
        assert(ws.update(i, w).drop_last() =~= ws.drop_last().update(i, w));
        holders_after_touch(ws.drop_last(), i, w, p);
    } else {
        assert(ws.update(i, w).drop_last() =~= ws.drop_last());
    }
}

/// Windows stay apart when one of them goes.
pub proof fn remove_keeps_apart(ws: Seq<WindowView>, np: u32, nw: u32, i: int)
    requires
        apart(ws, np, nw),
        0 <= i < ws.len(),
    ensures
        apart(ws.remove(i), np, nw),
        forall|id: WindowId|
            slot_of(ws, id) is Some && id != ws[i].id ==> #[trigger] slot_of(ws.remove(i), id)
                is Some,
        forall|p: PaneId|
            (#[trigger] holder_of(ws.remove(i), p)) is Some <==> holder_of(ws, p) is Some
                && !ws[i].holds(p),
{
    let t = ws.remove(i);
    assert forall|j: int| 0 <= j < t.len() implies #[trigger] t[j] == ws[if j < i {
        j
    } else {
        j + 1
    }] by {}
    assert forall|id: WindowId| slot_of(ws, id) is Some && id != ws[i].id implies (
    #[trigger] slot_of(t, id)) is Some by {
        slot_is_found(ws, id);
        slot_is_found(t, id);
        let k = slot_of(ws, id)->0;
        assert(t[if k < i {
            k
        } else {
            k - 1
        }].id == id);
    }
    assert forall|p: PaneId|
        (#[trigger] holder_of(t, p)) is Some <==> holder_of(ws, p) is Some && !ws[i].holds(p) by {
        holder_is_found(ws, p);
        holder_is_found(t, p);
        match holder_of(t, p) {
            Some(j) => {
                let k = if j < i {
                    j
                } else {
                    j + 1
                };
                assert(ws[k].holds(p));
                holders_are_unique(ws, np, nw, k, p);
                if ws[i].holds(p) {
                    holders_are_unique(ws, np, nw, i, p);
                }
            },
            None => {
                match holder_of(ws, p) {
                    Some(k) => {
                        if k != i {
                            assert(t[if k < i {
                                k
                            } else {
                                k - 1
                            }].holds(p));
                        }
                    },
                    None => {},
                }
            },
        }
    }
}

/// Windows stay apart when one with a new number and no pane of theirs is added.
pub proof fn push_keeps_apart(ws: Seq<WindowView>, np: u32, nw: u32, w: WindowView)
    requires
        apart(ws, np, nw),
        w.wf(),
        w.id.0 < nw,
        slot_of(ws, w.id) is None,
        forall|b: int|
            0 <= b < w.panes.len() ==> (#[trigger] w.panes[b]).id.0 < np && holder_of(
                ws,
                w.panes[b].id,
            ) is None,
    ensures
        apart(ws.push(w), np, nw),
        forall|id: WindowId|
            (#[trigger] slot_of(ws.push(w), id)) is Some <==> slot_of(ws, id) is Some || id
                == w.id,
        forall|p: PaneId|
            (#[trigger] holder_of(ws.push(w), p)) is Some <==> holder_of(ws, p) is Some
                || w.holds(p),
{
    let t = ws.push(w);
    let n = ws.len() as int;
    assert(t.drop_last() =~= ws);
    slot_is_found(ws, w.id);
    assert forall|j: int, k: int, a: int, b: int|
        0 <= j < t.len() && 0 <= k < t.len() && j != k && 0 <= a < t[j].panes.len() && 0 <= b
            < t[k].panes.len() implies (#[trigger] t[j].panes[a]).id != (
    #[trigger] t[k].panes[b]).id by {
        if j == n {
            holder_is_found(ws, w.panes[a].id);
            place_is_found(ws[k].panes, w.panes[a].id);
        } else if k == n {
            holder_is_found(ws, w.panes[b].id);
            place_is_found(ws[j].panes, w.panes[b].id);
        }
    }
}

/// Larger next numbers are fine too.
pub proof fn numbers_may_grow(ws: Seq<WindowView>, np: u32, nw: u32, np2: u32, nw2: u32)
    requires
        apart(ws, np, nw),
        np <= np2,
        nw <= nw2,
    ensures
        apart(ws, np2, nw2),
{
}

/// A number that was not given yet is the number of no window and no pane.
pub proof fn next_numbers_are_free(ws: Seq<WindowView>, np: u32, nw: u32, p: u32, w: u32)
    requires
        apart(ws, np, nw),
        p >= np,
        w >= nw,
    ensures
        slot_of(ws, WindowId(w)) is None,
        holder_of(ws, PaneId(p)) is None,
{
    slot_is_found(ws, WindowId(w));
    holder_is_found(ws, PaneId(p));
    match holder_of(ws, PaneId(p)) {
        Some(i) => {
            place_is_found(ws[i].panes, PaneId(p));
            assert(ws[i].panes[place_of(ws[i].panes, PaneId(p))->0].id.0 < np);
        },
        None => {},
    }
}

} // verus!
