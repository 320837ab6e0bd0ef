//! The window manager: which windows and panes there are, which of them are active,
//! and what commands and mouse events do to them. It decides; the effects it returns
//! are carried out by its surroundings, which report back what came of them.
pub mod commands;
pub mod facts;
pub mod gestures;
pub mod laws;
pub mod lifecycle;
pub mod messages;
pub mod monitor;
pub mod mouse;
pub mod orders;
pub mod overlays;
pub mod pointer;
pub mod reports;
pub mod spawn;
pub mod state;
pub mod structure;
pub mod types;
pub mod window;

use spawn::{SpawnSpec, SpawnView};
use state::{
    cell_of, holder_of, slot_is_found, slot_of, viewport_of, Gestures, MessageView, Overlay,
    PopupView, WmView, STATUS_TTL,
};
use types::{CellPx, PaneId, PtySize, Rect, Selection, Severity, StatusHit, WindowId};
use vstd::prelude::*;
use vstd::string::StringExecFns;
use window::{opt_text, windows_view, Pane, Window, WindowView};

verus! {

broadcast use window::group_windows;

/// A message on the status line.
#[derive(Debug)]
pub struct StatusMessage {
    pub text: String,
    pub severity: Severity,
    /// When it goes, in milliseconds.
    pub expires_at: u64,
}

/// A pane that floats above the windows and takes all input.
#[derive(Debug)]
pub struct Popup {
    pub pane: PaneId,
    pub title: String,
}

/// All windows of a session.
#[derive(Debug)]
pub struct WindowManager {
    windows: Vec<Window>,
    /// The number of the active window, not its place: moving windows does not
    /// change it.
    active: WindowId,
    /// The window that was active before.
    last_active: Option<WindowId>,
    next_pane: u32,
    next_window: u32,
    host_size: PtySize,
    /// What runs in new panes.
    shell: SpawnSpec,
    /// Where new windows start.
    session_cwd: Option<String>,
    /// The pane that is joined or exchanged next.
    marked: Option<PaneId>,
    popup: Option<Popup>,
    message: Option<StatusMessage>,
    overlay: Option<Overlay>,
    /// The pane that is being renamed.
    rename_target: Option<PaneId>,
    /// The commands of the prompt, the newest last.
    history: Vec<String>,
    gestures: Gestures,
    /// The row of the status bar, if it is shown.
    status_row: Option<u16>,
    /// The number of rows above the pane band.
    row_offset: u16,
    hits: Vec<StatusHit>,
    /// A click asked for the client to be detached.
    pub detach_requested: bool,
}

/// The contents of a popup.
pub open spec fn popup_view(p: Option<Popup>) -> Option<PopupView> {
    match p {
        Some(p) => Some(PopupView { pane: p.pane, title: p.title@ }),
        None => None,
    }
}

/// The contents of a message.
pub open spec fn message_view(m: Option<StatusMessage>) -> Option<MessageView> {
    match m {
        Some(m) => Some(
            MessageView { text: m.text@, severity: m.severity, expires_at: m.expires_at },
        ),
        None => None,
    }
}

impl View for WindowManager {
    type V = WmView;

    closed spec fn view(&self) -> WmView {
        WmView {
            windows: windows_view(self.windows@),
            active: self.active,
            last_active: self.last_active,
            next_pane: self.next_pane,
            next_window: self.next_window,
            host_size: self.host_size,
            shell: self.shell@,
            session_cwd: opt_text(self.session_cwd),
            marked: self.marked,
            popup: popup_view(self.popup),
            message: message_view(self.message),
            overlay: self.overlay,
            rename_target: self.rename_target,
            history: crate::hyperlinks::texts(self.history@),
            gestures: self.gestures,
            status_row: self.status_row,
            row_offset: self.row_offset,
            hits: self.hits@,
            detach_requested: self.detach_requested,
        }
    }
}

proof fn slots_stay(ws: Seq<WindowView>, n: int, id: WindowId)
    requires
        0 <= n <= ws.len(),
        slot_of(ws.take(n), id) is Some,
    ensures
        slot_of(ws, id) == slot_of(ws.take(n), id),
    decreases ws.len(),
{
    if n == ws.len() {
        assert(ws.take(n) =~= ws);
    } else {
        assert(ws.drop_last().take(n) =~= ws.take(n));
        slots_stay(ws.drop_last(), n, id);
    }
}

proof fn holders_stay(ws: Seq<WindowView>, n: int, pane: PaneId)
    requires
        0 <= n <= ws.len(),
        holder_of(ws.take(n), pane) is Some,
    ensures
        holder_of(ws, pane) == holder_of(ws.take(n), pane),
    decreases ws.len(),
{
    if n == ws.len() {
        assert(ws.take(n) =~= ws);
    } else {
        assert(ws.drop_last().take(n) =~= ws.take(n));
        holders_stay(ws.drop_last(), n, pane);
    }
}

/// The place of a window in the list.
fn find_window(windows: &Vec<Window>, id: WindowId) -> (r: Option<usize>)
    ensures
        match slot_of(windows_view(windows@), id) {
            Some(i) => r matches Some(k) && k == i && i < windows@.len(),
            None => r is None,
        },
{
    let ghost all = windows_view(windows@);
    let mut i: usize = 0;
    assert(all.take(0) =~= Seq::empty());
    while i < windows.len()
        invariant
            i <= windows.len(),
            all == windows_view(windows@),
            slot_of(all.take(i as int), id) is None,
        decreases windows.len() - i,
    {
        assert(all.take(i + 1).drop_last() =~= all.take(i as int));
        assert(all.take(i + 1).last() == windows@[i as int]@);
        if windows[i].id == id {
            proof {
                slots_stay(all, i + 1, id);
            }
            return Some(i);
        }
        i += 1;
    }
    assert(all.take(i as int) =~= all);
    None
}

/// The place of the window that holds a pane.
fn find_holder(windows: &Vec<Window>, pane: PaneId) -> (r: Option<usize>)
    ensures
        match holder_of(windows_view(windows@), pane) {
            Some(i) => r matches Some(k) && k == i && i < windows@.len(),
            None => r is None,
        },
{
    let ghost all = windows_view(windows@);
    let mut i: usize = 0;
    assert(all.take(0) =~= Seq::empty());
    while i < windows.len()
        invariant
            i <= windows.len(),
            all == windows_view(windows@),
            holder_of(all.take(i as int), pane) is None,
        decreases windows.len() - i,
    {
        assert(all.take(i + 1).drop_last() =~= all.take(i as int));
        assert(all.take(i + 1).last() == windows@[i as int]@);
        if windows[i].holds(pane) {
            proof {
                holders_stay(all, i + 1, pane);
            }
            return Some(i);
        }
        i += 1;
    }
    assert(all.take(i as int) =~= all);
    None
}

/// The size of a cell of a terminal.
pub fn host_cell_px(host: PtySize) -> (r: CellPx)
    ensures
        r == cell_of(host),
{
    CellPx {
        width: if host.cols == 0 {
            0
        } else {
            host.pixel_width / host.cols
        },
        height: if host.rows == 0 {
            0
        } else {
            host.pixel_height / host.rows
        },
    }
}

/// The pane band of a terminal.
pub fn host_viewport(host: PtySize) -> (r: Rect)
    ensures
        r == viewport_of(host),
{
    Rect {
        row: 1,
        col: 1,
        rows: crate::coords::larger(host.rows.saturating_sub(3), 1),
        cols: crate::coords::larger(host.cols.saturating_sub(2), 1),
    }
}

/// The state of a manager with one window, which holds one pane.
pub open spec fn first_state(
    shell: SpawnView,
    host_size: PtySize,
    respawn: bool,
    now: u64,
) -> WmView {
    WmView {
        windows: seq![
            window::new_window(
                WindowId(0),
                "shell"@,
                None,
                window::PaneView { id: PaneId(0), name: None, respawn },
                now,
            ),
        ],
        active: WindowId(0),
        last_active: None,
        next_pane: 1,
        next_window: 1,
        host_size,
        shell,
        session_cwd: None,
        marked: None,
        popup: None,
        message: None,
        overlay: None,
        rename_target: None,
        history: Seq::empty(),
        gestures: Gestures::initial(),
        status_row: None,
        row_offset: 0,
        hits: Seq::empty(),
        detach_requested: false,
    }
}

impl WindowManager {
    /// A manager with one window, in whose only pane the program `first` was started.
    /// `respawn` says that it is a command and no shell. New panes run the shell, with
    /// the environment of `first`.
    pub fn new(
        first: &SpawnSpec,
        shell: String,
        host_size: PtySize,
        respawn: bool,
        now: u64,
    ) -> (m: WindowManager)
        ensures
            m@ == first_state(first@.shell(shell@), host_size, respawn, now),
            m@.live(),
            m@.has_numbers(),
    {
        let pane = Pane { id: PaneId(0), name: None, respawn };
        let window = Window::new(WindowId(0), String::from_str("shell"), None, pane, now);
        let mut windows: Vec<Window> = Vec::new();
        windows.push(window);
        let m = WindowManager {
            windows,
            active: WindowId(0),
            last_active: None,
            next_pane: 1,
            next_window: 1,
            host_size,
            shell: spawn::shell_of(first, shell),
            session_cwd: None,
            marked: None,
            popup: None,
            message: None,
            overlay: None,
            rename_target: None,
            history: Vec::new(),
            gestures: Gestures {
                selection: None,
                press_scroll: 0,
                word_line: false,
                resize: None,
                tab: None,
                pane: None,
                click: None,
            },
            status_row: None,
            row_offset: 0,
            hits: Vec::new(),
            detach_requested: false,
        };
        proof {
            assert(m@.windows =~= first_state(first@.shell(shell@), host_size, respawn, now).windows);
            assert(m@.history =~= Seq::empty());
            let w = m@.windows[0];
            assert(w.panes[0].id == PaneId(0));
            window::place_is_found(w.panes, PaneId(0));
            slot_is_found(m@.windows, WindowId(0));
        }
        m
    }

    /// The windows, in their order.
    pub fn windows(&self) -> (r: &Vec<Window>)
        ensures
            windows_view(r@) == self@.windows,
    {
        &self.windows
    }

    /// Whether a number for a new pane is left.
    pub fn has_pane_number(&self) -> (r: bool)
        ensures
            r == self@.has_pane_number(),
    {
        self.next_pane < u32::MAX
    }

    /// Whether there are numbers for a new pane and a new window.
    pub fn has_numbers(&self) -> (r: bool)
        ensures
            r == self@.has_numbers(),
    {
        self.next_pane < u32::MAX && self.next_window < u32::MAX
    }

    /// Whether no window is left.
    pub fn is_empty(&self) -> (r: bool)
        ensures
            r == (self@.windows.len() == 0),
    {
        self.windows.len() == 0
    }

    /// The place of the active window.
    pub fn active_idx(&self) -> (i: usize)
        requires
            self@.live(),
        ensures
            i == self@.here(),
            i < self@.windows.len(),
    {
        match find_window(&self.windows, self.active) {
            Some(i) => i,
            None => 0,
        }
    }

    /// The active window.
    pub fn active_window(&self) -> (w: &Window)
        requires
            self@.live(),
        ensures
            w@ == self@.window(),
    {
        let i: usize = self.active_idx();
        &self.windows[i]
    }

    /// The marked pane.
    pub fn marked_pane(&self) -> (r: Option<PaneId>)
        ensures
            r == self@.marked,
    {
        self.marked
    }

    /// The pane that is dragged, and the one under the pointer.
    pub fn pane_drag_roles(&self) -> (r: Option<(PaneId, Option<PaneId>)>)
        ensures
            r == (match self@.gestures.pane {
                Some(d) => Some((d.source, d.target)),
                None => None,
            }),
    {
        match self.gestures.pane {
            Some(d) => Some((d.source, d.target)),
            None => None,
        }
    }

    /// The place of the window that is dragged.
    pub fn dragging_window_idx(&self) -> (r: Option<usize>)
        ensures
            match self@.gestures.tab {
                Some(d) => match slot_of(self@.windows, d.source) {
                    Some(i) => r matches Some(k) && k == i,
                    None => r is None,
                },
                None => r is None,
            },
    {
        match self.gestures.tab {
            Some(d) => find_window(&self.windows, d.source),
            None => None,
        }
    }

    /// The selection in progress.
    pub fn selection(&self) -> (r: Option<Selection>)
        ensures
            r == self@.gestures.selection,
    {
        self.gestures.selection
    }

    /// Drops what the mouse is doing. A popup takes the release of the button, and a
    /// client that is gone never sends it; nothing may happen at the next click.
    pub fn reset_mouse_gestures(&mut self)
        ensures
            final(self)@ == (WmView { gestures: old(self)@.gestures.dropped(), ..old(self)@ }),
    {
        self.gestures.selection = None;
        self.gestures.resize = None;
        self.gestures.tab = None;
        self.gestures.pane = None;
    }

    /// Sets the row of the status bar and the number of rows above the pane band.
    pub fn set_status_layout(&mut self, status_row: Option<u16>, pane_row_offset: u16)
        ensures
            final(self)@ == (WmView { status_row, row_offset: pane_row_offset, ..old(self)@ }),
    {
        self.status_row = status_row;
        self.row_offset = pane_row_offset;
    }

    /// Sets the parts of the status bar that can be clicked.
    pub fn set_status_hits(&mut self, hits: Vec<StatusHit>)
        ensures
            final(self)@ == (WmView { hits: hits@, ..old(self)@ }),
    {
        self.hits = hits;
    }

    /// What is shown above the windows.
    pub fn overlay(&self) -> (r: Option<Overlay>)
        ensures
            r == self@.overlay,
    {
        self.overlay
    }

    /// Shows a message on the status line for a while, in place of any other.
    pub fn set_status_message(&mut self, text: String, severity: Severity, now: u64)
        ensures
            final(self)@ == old(self)@.told(text@, severity, now),
    {
        self.message = Some(
            StatusMessage { text, severity, expires_at: now.saturating_add(STATUS_TTL) },
        );
    }

    /// The message on the status line. One whose time is over is dropped.
    pub fn take_active_message(&mut self, now: u64) -> (r: Option<&str>)
        ensures
            match old(self)@.message {
                Some(m) => if now >= m.expires_at {
                    r is None && final(self)@ == (WmView { message: None, ..old(self)@ })
                } else {
                    r matches Some(t) && t@ == m.text && final(self)@ == old(self)@
                },
                None => r is None && final(self)@ == old(self)@,
            },
    {
        let expired: bool = match &self.message {
            Some(m) => now >= m.expires_at,
            None => false,
        };
        if expired {
            self.message = None;
        }
        match &self.message {
            Some(m) => Some(m.text.as_str()),
            None => None,
        }
    }

    /// The severity of the message; that of a notice if there is none.
    pub fn active_severity(&self) -> (r: Severity)
        ensures
            r == (match self@.message {
                Some(m) => m.severity,
                None => Severity::Info,
            }),
    {
        match &self.message {
            Some(m) => m.severity,
            None => Severity::Info,
        }
    }

    /// Whether there is a message.
    pub fn has_active_message(&self) -> (r: bool)
        ensures
            r == (self@.message is Some),
    {
        self.message.is_some()
    }

    /// The size of the terminal.
    pub fn host_size(&self) -> (r: PtySize)
        ensures
            r == self@.host_size,
    {
        self.host_size
    }

    /// The pane band.
    pub fn viewport(&self) -> (r: Rect)
        ensures
            r == viewport_of(self@.host_size),
    {
        host_viewport(self.host_size)
    }

    /// The popup.
    pub fn popup(&self) -> (r: Option<&Popup>)
        ensures
            match self@.popup {
                Some(v) => r matches Some(p) && p.pane == v.pane && p.title@ == v.title,
                None => r is None,
            },
    {
        match &self.popup {
            Some(p) => Some(p),
            None => None,
        }
    }

    /// Whether a popup is shown.
    pub fn has_popup(&self) -> (r: bool)
        ensures
            r == (self@.popup is Some),
    {
        self.popup.is_some()
    }

    /// The pane that input goes to: the popup while there is one, else the active
    /// pane.
    pub fn input_target_pane(&self) -> (r: PaneId)
        requires
            self@.live(),
        ensures
            r == (match self@.popup {
                Some(p) => p.pane,
                None => self@.window().active,
            }),
    {
        match &self.popup {
            Some(p) => p.pane,
            None => self.active_window().active,
        }
    }

    /// Sets where new windows start.
    pub fn set_session_cwd(&mut self, cwd: Option<String>)
        ensures
            final(self)@ == (WmView { session_cwd: opt_text(cwd), ..old(self)@ }),
    {
        self.session_cwd = cwd;
    }

    /// Where a new pane of the active window starts: at its home, wherever its active
    /// pane is now.
    pub fn split_cwd(&self) -> (r: Option<String>)
        requires
            self@.live(),
        ensures
            opt_text(r) == self@.window().home_cwd,
    {
        match &self.active_window().home_cwd {
            Some(s) => Some(s.clone()),
            None => None,
        }
    }

    /// Where a new window starts.
    pub fn session_cwd(&self) -> (r: Option<String>)
        ensures
            opt_text(r) == self@.session_cwd,
    {
        match &self.session_cwd {
            Some(s) => Some(s.clone()),
            None => None,
        }
    }

    /// Where a program started for a pane runs: where the pane is now, or else at the
    /// home of the active window.
    pub fn pane_cwd(&self, live: Option<String>) -> (r: Option<String>)
        requires
            self@.live(),
        ensures
            opt_text(r) == (match opt_text(live) {
                Some(s) => Some(s),
                None => self@.window().home_cwd,
            }),
    {
        match live {
            Some(s) => Some(s),
            None => self.split_cwd(),
        }
    }

    /// Where a popup starts: where the active pane is now, or else at the home of its
    /// window. A popup is about what is at hand; a new pane starts at home.
    pub fn popup_cwd(&self, live: Option<String>) -> (r: Option<String>)
        requires
            self@.live(),
        ensures
            opt_text(r) == (match opt_text(live) {
                Some(s) => Some(s),
                None => self@.window().home_cwd,
            }),
    {
        self.pane_cwd(live)
    }

    /// Makes the window at a place active, if there is one.
    pub fn set_active_window(&mut self, idx: usize)
        ensures
            final(self)@ == (if idx < old(self)@.windows.len() {
                WmView { active: old(self)@.windows[idx as int].id, ..old(self)@ }
            } else {
                old(self)@
            }),
            old(self)@.wf() ==> final(self)@.wf(),
    {
        if idx < self.windows.len() {
            self.active = self.windows[idx].id;
            proof {
                slot_is_found(self@.windows, self.active);
            }
        }
    }
}

} // verus!
