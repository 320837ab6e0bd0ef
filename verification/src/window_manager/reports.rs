//! What follows from what is reported: panes that went, programs that ended, output.
use super::monitor::WindowDrain;
use super::orders::active_at;
use super::overlays::{KeyOutcome, OverlayKeyResult};
use super::pointer::{encoding_of, pasted, wants_mouse};
use super::state::{holders_are_unique, slots_are_unique, Overlay, WmView};
use super::types::{
    CellPx, Effect, MouseEncoding, PaneId, PtySize, Purpose, Severity, SplitDir, WindowId,
};
use super::window::{place_is_found, place_of, PaneView, WindowView};
use crate::modes::Modes;
use vstd::prelude::*;

verus! {

/// The pane stands at place `k` of the window at place `i`.
pub open spec fn pane_at(s: WmView, i: int, k: int, pane: PaneId) -> bool {
    &&& s.live()
    &&& 0 <= i < s.windows.len()
    &&& 0 <= k < s.windows[i].panes.len()
    &&& s.windows[i].panes[k].id == pane
}

proof fn the_pane_is_there(s: WmView, i: int, k: int, pane: PaneId)
    requires
        pane_at(s, i, k, pane),
    ensures
        super::state::slot_of(s.windows, s.windows[i].id) == Some(i),
        super::state::holder_of(s.windows, pane) == Some(i),
        place_of(s.windows[i].panes, pane) == Some(k),
        s.windows[i].wf(),
{
    slots_are_unique(s.windows, s.next_pane, s.next_window, i);
    place_is_found(s.windows[i].panes, pane);
    assert(s.windows[i].wf());
    holders_are_unique(s.windows, s.next_pane, s.next_window, i, pane);
}

/// A closed pane is gone from its window, and the pane that has the focus is active
/// there. A mark and a zoom on it are gone too. Other windows stay as they are.
pub proof fn closing_a_pane(
    s: WmView,
    i: int,
    k: int,
    m: int,
    pane: PaneId,
    focus: PaneId,
    now: u64,
)
    requires
        pane_at(s, i, k, pane),
        pane_at(s, i, m, focus),
        m != k,
    ensures
        ({
            let w = s.windows[i];
            let (t, effects) = s.removal_reported(
                w.id,
                pane,
                Some(focus),
                Purpose::Close,
                now,
            );
            let v = t.windows[i];
            &&& effects == seq![Effect::Resize(w.id), Effect::Wake]
            &&& t.windows == s.windows.update(i, v)
            &&& v.panes == w.panes.remove(k)
            &&& v.active == focus
            &&& v.last != Some(pane) && v.last != Some(focus)
            &&& w.zoomed == Some(pane) ==> v.zoomed is None
            &&& w.zoomed != Some(pane) ==> v.zoomed == w.zoomed
            &&& v.id == w.id && v.name == w.name && v.monitor == w.monitor
            &&& s.marked == Some(pane) ==> t.marked is None
            &&& s.marked != Some(pane) ==> t.marked == s.marked
            &&& t == (WmView { windows: t.windows, marked: t.marked, ..s })
        }),
{
    the_pane_is_there(s, i, k, pane);
    the_pane_is_there(s, i, m, focus);
    let w = s.windows[i];
    let r = s.removal_reported(w.id, pane, Some(focus), Purpose::Close, now);
    assert(r.1 =~= seq![Effect::Resize(w.id), Effect::Wake]);
}

/// With its last pane a window is gone.
pub proof fn closing_the_last_pane(s: WmView, i: int, pane: PaneId, now: u64)
    requires
        pane_at(s, i, 0, pane),
        s.windows[i].panes.len() == 1,
    ensures
        ({
            let t = s.removal_reported(s.windows[i].id, pane, None, Purpose::Close, now).0;
            &&& t.windows == s.windows.remove(i)
            &&& s.active != s.windows[i].id ==> t.active == s.active
            &&& s.windows.len() == 1 ==> t.popup is None
            &&& s.marked == Some(pane) ==> t.marked is None
        }),
{
    the_pane_is_there(s, i, 0, pane);
}

/// A pane that is broken out of its window is the only one of a new window at the end
/// of the list, which is active. The window that it left stays where it is.
pub proof fn breaking_a_pane_out(
    s: WmView,
    i: int,
    k: int,
    m: int,
    pane: PaneId,
    focus: PaneId,
    now: u64,
)
    requires
        pane_at(s, i, k, pane),
        pane_at(s, i, m, focus),
        m != k,
        s.next_window < u32::MAX,
    ensures
        ({
            let w = s.windows[i];
            let n = s.windows.len() as int;
            let (t, effects) = s.removal_reported(
                w.id,
                pane,
                Some(focus),
                Purpose::Break,
                now,
            );
            let new = t.windows[n];
            let id = WindowId(s.next_window);
            &&& t.windows.len() == n + 1
            &&& t.windows[i].panes == w.panes.remove(k) && t.windows[i].active == focus
            &&& new.id == id && new.panes == seq![w.panes[k]] && new.active == pane
            &&& new.zoomed is None && new.last is None && !new.sync_input
            &&& w.panes[k].name matches Some(name) ==> new.name == name && new.shown_name == name
            &&& t.active == id && t.last_active == Some(s.active)
            &&& t.next_window == s.next_window + 1
            &&& t.marked == s.marked
            &&& effects == seq![
                Effect::Resize(w.id),
                Effect::Adopt(id, pane),
                Effect::Resize(id),
                Effect::Wake,
            ]
        }),
{
    the_pane_is_there(s, i, k, pane);
    the_pane_is_there(s, i, m, focus);
}

/// A pane that joins the active window from another one is its last pane there and the
/// active one; it is marked no more. The pane that was active is split for it.
pub proof fn joining_a_pane(
    s: WmView,
    h: int,
    i: int,
    k: int,
    m: int,
    pane: PaneId,
    focus: PaneId,
    dir: SplitDir,
    now: u64,
)
    requires
        active_at(s, h),
        pane_at(s, i, k, pane),
        pane_at(s, i, m, focus),
        m != k,
        i != h,
    ensures
        ({
            let w = s.windows[i];
            let a = s.windows[h];
            let (t, effects) = s.removal_reported(
                w.id,
                pane,
                Some(focus),
                Purpose::Join(dir),
                now,
            );
            &&& t.windows[i].panes == w.panes.remove(k) && t.windows[i].active == focus
            &&& t.windows[h].panes == a.panes.push(w.panes[k])
            &&& t.windows[h].active == pane && t.windows[h].last == Some(a.active)
            &&& t.windows.len() == s.windows.len()
            &&& t.active == s.active
            &&& t.marked is None
            &&& effects == seq![
                Effect::Resize(w.id),
                Effect::AdoptSplit(a.id, a.active, dir, pane),
                Effect::Wake,
            ]
        }),
{
    the_pane_is_there(s, i, k, pane);
    the_pane_is_there(s, i, m, focus);
    slots_are_unique(s.windows, s.next_pane, s.next_window, h);
    assert(s.windows[h].wf());
    place_is_found(s.windows[h].panes, s.windows[h].active);
    let at = place_of(s.windows[h].panes, s.windows[h].active)->0;
    assert(s.windows[h].panes[at].id != s.windows[i].panes[k].id);
    let v = s.windows[i].without(pane, focus);
    super::state::slots_after_update(s.windows, i, v, s.active);
    let r = s.removal_reported(s.windows[i].id, pane, Some(focus), Purpose::Join(dir), now);
    assert(r.1 =~= seq![
        Effect::Resize(s.windows[i].id),
        Effect::AdoptSplit(s.windows[h].id, s.windows[h].active, dir, pane),
        Effect::Wake,
    ]);
}

/// When the program of a pane ends, the pane is to be closed; one that ran a command is
/// to get a shell in a new pane. When the program of the popup ends, the popup closes.
pub proof fn programs_end(s: WmView, i: int, k: int, pane: PaneId)
    requires
        pane_at(s, i, k, pane),
        s.next_pane < u32::MAX,
    ensures
        ({
            let w = s.windows[i];
            &&& !w.panes[k].respawn ==> s.death_reported(pane) == (
                s,
                seq![Effect::Remove(w.id, pane, Purpose::Close)],
            )
            &&& w.panes[k].respawn ==> s.death_reported(pane) == (
                WmView { next_pane: (s.next_pane + 1) as u32, ..s },
                seq![Effect::Respawn(w.id, pane, PaneId(s.next_pane))],
            )
            &&& s.popup matches Some(p) ==> s.death_reported(p.pane) == (
                WmView { popup: None, ..s },
                seq![Effect::Wake],
            )
        }),
{
    the_pane_is_there(s, i, k, pane);
}

/// A shell that was started for a pane takes its place: among the panes, as the active
/// one, as the one before it, as the one that fills the window, and under the mark. If
/// it could not be started, the pane is to be closed.
pub proof fn a_shell_takes_the_place(
    s: WmView,
    i: int,
    k: int,
    pane: PaneId,
    shell: PaneId,
    now: u64,
)
    requires
        pane_at(s, i, k, pane),
        s.awaits(shell),
    ensures
        ({
            let w = s.windows[i];
            let (t, effects) = s.respawn_reported(w.id, pane, shell, true, now);
            let v = t.windows[i];
            &&& v.panes.len() == w.panes.len()
            &&& v.panes[k].id == shell && v.panes[k].name is None && !v.panes[k].respawn
            &&& v.panes == w.panes.update(k, v.panes[k])
            &&& v.active == (if w.active == pane {
                shell
            } else {
                w.active
            })
            &&& v.zoomed == (if w.zoomed == Some(pane) {
                Some(shell)
            } else {
                w.zoomed
            })
            &&& v.last == (if w.last == Some(pane) {
                Some(shell)
            } else {
                w.last
            })
            &&& t.marked == (if s.marked == Some(pane) {
                Some(shell)
            } else {
                s.marked
            })
            &&& effects == seq![Effect::Wake]
            &&& t.windows == s.windows.update(i, v)
            &&& t.message is Some
            &&& s.respawn_reported(w.id, pane, shell, false, now) == (
                s,
                seq![Effect::Remove(w.id, pane, Purpose::Close)],
            )
        }),
{
    the_pane_is_there(s, i, k, pane);
}

/// A popup that was started is shown, with its command or a plain title. The one before
/// it is ended.
pub proof fn a_popup_is_shown(s: WmView, pane: PaneId, command: Option<Seq<char>>)
    requires
        s.awaits(pane),
    ensures
        ({
            let (t, effects) = s.popup_reported(pane, command);
            &&& t.popup matches Some(p) && p.pane == pane && (command matches Some(text)
                ==> p.title == text) && (command is None ==> p.title == "popup"@)
            &&& t == (WmView { popup: t.popup, gestures: t.gestures, ..s })
            &&& s.popup matches Some(p) ==> effects.contains(Effect::KillChild(p.pane))
            &&& effects.last() == Effect::Wake
        }),
{
    if let Some(p) = s.popup {
        assert(s.popup_reported(pane, command).1[0] == Effect::KillChild(p.pane));
    }
}

/// When the terminal gets another size, every window gets it, and is told how many
/// pixels a cell has: the width of the terminal over its columns, its height over its
/// rows.
pub proof fn every_window_is_resized(s: WmView, size: PtySize, i: int)
    requires
        0 <= i < s.windows.len(),
        size.rows > 0 && size.cols > 0,
    ensures
        ({
            let (t, effects) = s.host_resized(size);
            let cell = CellPx {
                width: size.pixel_width / size.cols,
                height: size.pixel_height / size.rows,
            };
            &&& t == (WmView { host_size: size, ..s })
            &&& effects[2 * i] == Effect::SetCell(s.windows[i].id, cell)
            &&& effects[2 * i + 1] == Effect::Resize(s.windows[i].id)
            &&& s.popup matches Some(p) ==> effects.contains(Effect::ResizePopup(p.pane))
            &&& effects.last() == Effect::Wake
        }),
{
    let cell = super::state::cell_of(size);
    windows_are_resized(s.windows, cell, i);
    let all = super::lifecycle::resizes(s.windows, cell);
    let effects = s.host_resized(size).1;
    assert(effects[2 * i] == all[2 * i] && effects[2 * i + 1] == all[2 * i + 1]);
    if let Some(p) = s.popup {
        assert(effects[all.len() as int] == Effect::ResizePopup(p.pane));
    }
}

proof fn windows_are_resized(ws: Seq<WindowView>, cell: CellPx, i: int)
    requires
        0 <= i < ws.len(),
    ensures
        super::lifecycle::resizes(ws, cell).len() == 2 * ws.len(),
        super::lifecycle::resizes(ws, cell)[2 * i] == Effect::SetCell(ws[i].id, cell),
        super::lifecycle::resizes(ws, cell)[2 * i + 1] == Effect::Resize(ws[i].id),
    decreases ws.len(),
{
    let front = ws.drop_last();
    if i < ws.len() - 1 {
        windows_are_resized(front, cell, i);
    } else if front.len() > 0 {
        windows_are_resized(front, cell, 0);
    } else {
        assert(super::lifecycle::resizes(front, cell).len() == 0);
    }
}

/// What happens in a window that is not looked at is remembered, if it is watched for:
/// output, a bell, and the end of a command, which succeeded if its exit code is zero or
/// unknown. Of a window that is looked at nothing is remembered. Output ends a silence.
pub proof fn what_happens_is_remembered(
    s: WmView,
    h: int,
    ds: Seq<WindowDrain>,
    now: u64,
    i: int,
)
    requires
        active_at(s, h),
        ds.len() == s.windows.len(),
        0 <= i < s.windows.len(),
    ensures
        ({
            let m = s.windows[i].monitor;
            let t = s.drained(ds, now);
            let n = t.windows[i].monitor;
            let d = ds[i];
            &&& i == h ==> !n.activity_flag && !n.bell_flag && n.done_flag is None
                && !n.silence_flag
            &&& i != h ==> {
                &&& n.activity_flag == (m.activity_flag || d.acted && m.activity)
                &&& n.bell_flag == (m.bell_flag || d.belled && m.bell)
                &&& m.done_flag is Some || !m.command || d.completion is None ==> n.done_flag
                    == m.done_flag
                &&& m.done_flag is None && m.command && d.completion is Some ==> n.done_flag
                    == Some(
                    d.completion->0.exit is None || d.completion->0.exit == Some(0i32),
                )
                &&& n.silence_flag == m.silence_flag
            }
            &&& d.acted ==> n.last_output == now && !n.silence_reported
            &&& !d.acted ==> n.last_output == m.last_output && n.silence_reported
                == m.silence_reported
            &&& n.activity == m.activity && n.bell == m.bell && n.command == m.command
                && n.silence == m.silence
            &&& t.windows[i] == (WindowView { monitor: n, ..s.windows[i] })
            &&& t == (WmView { windows: t.windows, message: t.message, ..s })
        }),
{
    slots_are_unique(s.windows, s.next_pane, s.next_window, h);
}

/// A window that is watched for silence and not looked at is reported once its last
/// output is long enough ago, and not before.
pub proof fn silence_is_noticed_in_time(s: WmView, h: int, now: u64, i: int, ms: u64)
    requires
        active_at(s, h),
        0 <= i < s.windows.len(),
        i != h,
        s.windows[i].monitor.silence == Some(ms),
        !s.windows[i].monitor.silence_reported,
        !s.windows[i].monitor.silence_flag,
    ensures
        ({
            let m = s.windows[i].monitor;
            let t = s.silenced(now);
            &&& t.windows[i].monitor.silence_flag == (now - m.last_output >= ms)
            &&& t.windows[i].monitor.silence_reported == (now - m.last_output >= ms)
            &&& t.windows[h] == s.windows[h]
        }),
{
    slots_are_unique(s.windows, s.next_pane, s.next_window, h);
}

/// A name that is entered is the name of the window or of the pane that it was asked
/// for, unless it is blank. A command line is handed out and is the newest of the
/// history. Whatever is entered, the overlay closes.
pub proof fn what_is_entered(s: WmView, h: int, k: int, text: String)
    requires
        active_at(s, h),
        0 <= k < s.windows[h].panes.len(),
    ensures
        ({
            let (t, r) = s.key_taken(KeyOutcome::Commit(text));
            let blank = super::overlays::is_blank(text@);
            let asked = s.rename_target == Some(s.windows[h].panes[k].id);
            &&& s.overlay is Some ==> t.overlay is None && t.rename_target is None
            &&& s.overlay == Some(Overlay::RenameWindow) && !blank ==> {
                &&& r == OverlayKeyResult::Committed
                &&& t.windows[h].name == text@ && t.windows[h].shown_name == text@
                &&& t.windows[h].panes == s.windows[h].panes
            }
            &&& s.overlay == Some(Overlay::RenameWindow) && blank ==> t.windows == s.windows
            &&& s.overlay == Some(Overlay::RenamePane) && asked && !blank ==> {
                &&& r == OverlayKeyResult::Committed
                &&& t.windows[h].panes[k].name == Some(text@)
                &&& t.windows[h].panes[k].id == s.windows[h].panes[k].id
                &&& t.windows[h].name == s.windows[h].name
            }
            &&& s.overlay == Some(Overlay::RenamePane) && blank ==> t.windows == s.windows
            &&& s.overlay == Some(Overlay::Command) ==> r == OverlayKeyResult::Command(text)
                && t.history.len() > 0 && t.history.last() == text@ && t.windows == s.windows
            &&& s.overlay == Some(Overlay::SessionPicker) ==> r
                == OverlayKeyResult::SwitchSession(text) && t.windows == s.windows
            &&& s.overlay is None ==> t == s && r == OverlayKeyResult::Ignored
        }),
{
    the_pane_is_there(s, h, k, s.windows[h].panes[k].id);
    slots_are_unique(s.windows, s.next_pane, s.next_window, h);
}

/// To cancel closes the overlay and changes nothing else.
pub proof fn cancelling_changes_nothing(s: WmView)
    requires
        s.overlay is Some,
    ensures
        s.key_taken(KeyOutcome::Cancel) == (
            WmView { overlay: None, rename_target: None, ..s },
            OverlayKeyResult::Redraw,
        ),
{
}

/// What is pasted arrives as it is; a program that asked for it gets it between the
/// brackets `ESC [ 200 ~` and `ESC [ 201 ~`.
pub proof fn pastes_are_bracketed(bytes: Seq<u8>)
    ensures
        pasted(bytes, false) == bytes,
        pasted(bytes, true).len() == bytes.len() + 12,
        pasted(bytes, true).subrange(6, 6 + bytes.len() as int) == bytes,
        pasted(bytes, true).take(6) == seq![0x1bu8, 0x5bu8, 0x32u8, 0x30u8, 0x30u8, 0x7eu8],
        pasted(bytes, true).skip(6 + bytes.len() as int) == seq![
            0x1bu8,
            0x5bu8,
            0x32u8,
            0x30u8,
            0x31u8,
            0x7eu8,
        ],
{
    assert(pasted(bytes, true).subrange(6, 6 + bytes.len() as int) =~= bytes);
    assert(pasted(bytes, true).take(6) =~= seq![0x1bu8, 0x5bu8, 0x32u8, 0x30u8, 0x30u8, 0x7eu8]);
    assert(pasted(bytes, true).skip(6 + bytes.len() as int) =~= seq![
        0x1bu8,
        0x5bu8,
        0x32u8,
        0x30u8,
        0x31u8,
        0x7eu8,
    ]);
}

/// A program wants the mouse as soon as it set one of the mouse modes, and gets it in
/// the richest form that it set.
pub proof fn the_mouse_is_told_as_asked(modes: Modes)
    ensures
        modes.has(Modes::MOUSE_SGR) ==> encoding_of(modes) == MouseEncoding::Sgr && wants_mouse(
            modes,
        ),
        modes.has(Modes::MOUSE_ANY) ==> wants_mouse(modes),
        modes.has(Modes::MOUSE_ANY) && !modes.has(Modes::MOUSE_SGR) ==> encoding_of(modes)
            == MouseEncoding::AnyEvent,
        modes.has(Modes::MOUSE_BTN) || modes.has(Modes::MOUSE_BTN_EVENT) ==> wants_mouse(modes),
        (modes.has(Modes::MOUSE_BTN) || modes.has(Modes::MOUSE_BTN_EVENT)) && !modes.has(
            Modes::MOUSE_SGR,
        ) && !modes.has(Modes::MOUSE_ANY) ==> encoding_of(modes) == MouseEncoding::ButtonEvent,
        modes.has(Modes::MOUSE_X10) ==> wants_mouse(modes),
        !modes.has(Modes::MOUSE_BTN) && !modes.has(Modes::MOUSE_BTN_EVENT) && !modes.has(
            Modes::MOUSE_SGR,
        ) && !modes.has(Modes::MOUSE_ANY) ==> encoding_of(modes) == MouseEncoding::X10
            && wants_mouse(modes) == modes.has(Modes::MOUSE_X10),
{
}

/// The panes have the terminal to themselves but for a frame and the status bar; there
/// is always a cell.
pub proof fn panes_fill_the_terminal(host: PtySize)
    ensures
        ({
            let v = super::state::viewport_of(host);
            &&& v.row == 1 && v.col == 1
            &&& v.rows >= 1 && v.cols >= 1
            &&& host.rows >= 4 ==> v.rows + 3 == host.rows
            &&& host.cols >= 3 ==> v.cols + 2 == host.cols
        }),
{
}

/// Nothing happened in a window.
pub open spec fn quiet(d: WindowDrain) -> bool {
    !d.acted && !d.belled && d.completion is None
}

/// What happens in one window that is not looked at is told with its number, counted
/// from one, and its name, if it is watched for and was not told before: first of all
/// the end of a command with its exit code, else the bell, else output.
pub proof fn what_happens_is_told(
    s: WmView,
    h: int,
    ds: Seq<WindowDrain>,
    now: u64,
    i: int,
)
    requires
        active_at(s, h),
        ds.len() == s.windows.len(),
        0 <= i < s.windows.len(),
        i != h,
        forall|j: int| 0 <= j < ds.len() && j != i ==> quiet(#[trigger] ds[j]),
    ensures
        ({
            let w = s.windows[i];
            let m = w.monitor;
            let d = ds[i];
            let t = s.drained(ds, now);
            let done = m.command && m.done_flag is None && d.completion is Some;
            let bell = m.bell && !m.bell_flag && d.belled;
            let output = m.activity && !m.activity_flag && d.acted;
            let said = |text: Seq<char>| t.message matches Some(msg) && msg.text == text
                && msg.severity == Severity::Info;
            let place = super::messages::number((i + 1) as nat) + " ("@ + w.shown_name + ")"@;
            &&& done && d.completion->0.exit is None ==> said("done in window "@ + place)
            &&& done && (d.completion->0.exit matches Some(code) && code >= 0) ==> said(
                "done in window "@ + place + ": exit "@ + super::messages::number(
                    d.completion->0.exit->0 as nat,
                ),
            )
            &&& !done && bell ==> said("bell in window "@ + place)
            &&& !done && !bell && output ==> said("activity in window "@ + place)
            &&& !done && !bell && !output ==> t.message == s.message
        }),
{
    slots_are_unique(s.windows, s.next_pane, s.next_window, h);
    one_window_is_heard(s.windows, ds, h, s.windows.len() as int, i);
    let w = s.windows[i];
    let place = super::messages::number((i + 1) as nat) + " ("@ + w.shown_name + ")"@;
    assert(super::messages::named_window("done in window "@, i, w.shown_name)
        =~= "done in window "@ + place);
    assert(super::messages::named_window("bell in window "@, i, w.shown_name)
        =~= "bell in window "@ + place);
    assert(super::messages::named_window("activity in window "@, i, w.shown_name)
        =~= "activity in window "@ + place);
}

proof fn one_window_is_heard(
    ws: Seq<WindowView>,
    ds: Seq<WindowDrain>,
    h: int,
    n: int,
    i: int,
)
    requires
        0 <= n <= ds.len(),
        i != h,
        forall|j: int| 0 <= j < ds.len() && j != i ==> quiet(#[trigger] ds[j]),
    ensures
        0 <= i < n ==> super::monitor::alerts(ws, ds, h, n) == super::monitor::alert(
            ws[i],
            i,
            ds[i],
        ),
        i >= n || i < 0 ==> super::monitor::alerts(ws, ds, h, n) is None,
    decreases n,
{
    if n > 0 {
        one_window_is_heard(ws, ds, h, n - 1, i);
        if n - 1 != i {
            assert(quiet(ds[n - 1]));
        }
    }
}

/// A new pane comes last and is active; the pane that was active is the one before it.
/// Focusing a pane makes it active; focusing the one before goes back.
pub proof fn panes_take_the_focus(w: WindowView, p: PaneView, pane: PaneId)
    ensures
        ({
            let v = w.with_pane(p);
            let f = w.focused(pane);
            &&& v == (WindowView {
                panes: w.panes.push(p),
                active: p.id,
                last: Some(w.active),
                ..w
            })
            &&& f.active == pane
            &&& f == (WindowView { active: pane, last: f.last, ..w })
            &&& pane != w.active ==> f.last == Some(w.active) && f.focused(w.active).active
                == w.active && f.focused(w.active).last == Some(pane)
            &&& pane == w.active ==> f == w
        }),
{
}

/// A new window comes last and is active, with one pane, which is active there. Only its
/// bell is watched. The window that was active is remembered, if that is wished.
pub proof fn windows_are_added(
    s: WmView,
    id: WindowId,
    name: Seq<char>,
    home: Option<Seq<char>>,
    p: PaneView,
    now: u64,
    remember: bool,
)
    ensures
        ({
            let w = super::window::new_window(id, name, home, p, now);
            let t = s.window_added(w, remember);
            let m = w.monitor;
            &&& t.windows == s.windows.push(w) && t.active == id
            &&& remember ==> t.last_active == Some(s.active)
            &&& !remember ==> t.last_active == s.last_active
            &&& w.id == id && w.name == name && w.shown_name == name && w.home_cwd == home
            &&& w.panes == seq![p] && w.active == p.id
            &&& w.last is None && w.zoomed is None && !w.sync_input && w.last_preset is None
            &&& m.bell && !m.activity && !m.command && m.silence is None
            &&& !m.activity_flag && !m.bell_flag && m.done_flag is None && !m.silence_flag
            &&& m.last_output == now
        }),
{
}

/// Focusing a pane wherever it is makes its window active and ends the zoom there.
pub proof fn a_pane_is_focused_anywhere(s: WmView, i: int, k: int, pane: PaneId)
    requires
        pane_at(s, i, k, pane),
    ensures
        ({
            let (t, effects) = s.pane_focused(i, pane);
            let w = s.windows[i];
            &&& t.active == w.id
            &&& t.windows[i].active == pane && t.windows[i].zoomed is None
            &&& t.windows[i].panes == w.panes
            &&& t.windows == s.windows.update(i, t.windows[i])
            &&& w.zoomed is None ==> effects == seq![
                Effect::Focus(w.id, pane),
                Effect::Resize(w.id),
            ]
            &&& w.zoomed is Some ==> effects == seq![
                Effect::Unzoom(w.id),
                Effect::Focus(w.id, pane),
                Effect::Resize(w.id),
            ]
        }),
{
    let (t, effects) = s.pane_focused(i, pane);
    let w = s.windows[i];
    if w.zoomed is None {
        assert(effects =~= seq![Effect::Focus(w.id, pane), Effect::Resize(w.id)]);
    } else {
        assert(effects =~= seq![
            Effect::Unzoom(w.id),
            Effect::Focus(w.id, pane),
            Effect::Resize(w.id),
        ]);
    }
}

/// Names go to the window or to the pane that they are for, and to nothing else.
pub proof fn names_are_given(s: WmView, i: int, k: int, pane: PaneId, name: Seq<char>)
    requires
        pane_at(s, i, k, pane),
    ensures
        ({
            let w = s.windows[i];
            &&& s.window_renamed(i, name) == (WmView {
                windows: s.windows.update(i, WindowView { name, shown_name: name, ..w }),
                ..s
            })
            &&& s.pane_renamed(i, pane, name) == (WmView {
                windows: s.windows.update(
                    i,
                    WindowView {
                        panes: w.panes.update(k, PaneView { name: Some(name), ..w.panes[k] }),
                        ..w
                    },
                ),
                ..s
            })
        }),
{
    the_pane_is_there(s, i, k, pane);
}

/// A split by place asks for the pane at that place of the layout, in the window at that
/// place of the list; else it says which of the two is missing.
pub proof fn splits_by_place(s: WmView, i: usize, leaves: Seq<PaneId>, k: u32, dir: SplitDir)
    ensures
        ({
            let r = s.split_asked(i as int, leaves, k, dir);
            &&& i >= s.windows.len() ==> r == Err::<Effect, super::spawn::SplitError>(
                super::spawn::SplitError::WindowMissing(i),
            )
            &&& i < s.windows.len() && k >= leaves.len() ==> r == Err::<
                Effect,
                super::spawn::SplitError,
            >(super::spawn::SplitError::OutOfRange(k))
            &&& i < s.windows.len() && k < leaves.len() ==> r == Ok::<
                Effect,
                super::spawn::SplitError,
            >(
                Effect::SplitAt(
                    s.windows[i as int].id,
                    leaves[k as int],
                    dir,
                    PaneId(s.next_pane),
                ),
            )
        }),
{
}

/// A command runs in the shell (`-c`), with the environment of the shell and where it is
/// told to; without a command the shell gets no arguments.
pub proof fn commands_run_in_the_shell(
    shell: super::spawn::SpawnView,
    text: Seq<char>,
    cwd: Option<Seq<char>>,
)
    ensures
        ({
            let c = shell.running(Some(text)).at(cwd);
            let n = shell.running(None).at(cwd);
            &&& c.program == shell.program && n.program == shell.program
            &&& c.args.len() == 2 && c.args[0] == "-c"@ && c.args[1] == text
            &&& n.args.len() == 0
            &&& c.env == shell.env && n.env == shell.env
            &&& c.cwd == cwd && n.cwd == cwd
        }),
{
}

/// A selection begins and ends where the pointer is. Extending it moves its end and never
/// beyond the pane. It is a click as long as it has not left its row by more than one
/// column.
pub proof fn selections_follow(pane: PaneId, row: u16, col: u16, to: u16, at: u16, rect: super::types::Rect)
    requires
        rect.rows >= 1,
        rect.cols >= 1,
    ensures
        ({
            let a = super::types::Selection::at(pane, row, col);
            let b = a.extended(to, at, rect);
            &&& a.empty() && a.clicked() && a.source_pane == pane
            &&& b.anchor_row == row && b.anchor_col == col && b.source_pane == pane
            &&& b.head_row < rect.rows && b.head_col < rect.cols
            &&& to < rect.rows ==> b.head_row == to
            &&& at < rect.cols ==> b.head_col == at
            &&& to != row && to < rect.rows ==> !b.clicked() && !b.empty()
            &&& to == row && to < rect.rows && at < rect.cols && (at > col + 1 || at < col - 1)
                ==> !b.clicked()
            &&& to == row && to < rect.rows && at < rect.cols && col - 1 <= at <= col + 1
                ==> b.clicked()
        }),
{
}

/// At first there is one window with one pane, both with the first number; new ones get
/// the next. Nothing is marked, dragged or shown above it.
pub proof fn the_first_window(
    shell: super::spawn::SpawnView,
    size: PtySize,
    respawn: bool,
    now: u64,
)
    ensures
        ({
            let s = super::first_state(shell, size, respawn, now);
            &&& s.windows.len() == 1 && s.windows[0].id == s.active
            &&& s.windows[0].panes.len() == 1
            &&& s.windows[0].panes[0].id == s.windows[0].active
            &&& s.windows[0].panes[0].respawn == respawn
            &&& s.windows[0].shown_name == "shell"@
            &&& s.next_pane == s.windows[0].active.0 + 1 && s.next_window == s.active.0 + 1
            &&& s.last_active is None && s.marked is None && s.popup is None && s.overlay is None
            &&& s.message is None && !s.detach_requested && s.history.len() == 0
            &&& s.gestures.selection is None && s.gestures.resize is None && s.gestures.tab is None
                && s.gestures.pane is None
            &&& s.host_size == size && s.shell == shell
        }),
{
}

/// Numbers in messages are written in decimal digits, as those in replies are.
pub proof fn numbers_in_messages(n: nat, i: int)
    requires
        0 <= i < super::messages::number(n).len(),
    ensures
        super::messages::number(n).len() == crate::reply::decimal(n).len(),
        super::messages::number(n)[i] as int == crate::reply::decimal(n)[i],
    decreases n,
{
    if n >= 10 {
        let front = super::messages::number(n / 10);
        if i < front.len() {
            numbers_in_messages(n / 10, i);
        } else if front.len() > 0 {
            numbers_in_messages(n / 10, 0);
        } else {
            no_number_is_empty(n / 10);
        }
    }
}

proof fn no_number_is_empty(n: nat)
    ensures
        super::messages::number(n).len() > 0,
{
}

/// Every window in which a command ended is told of, with its place, its name and what
/// ended; no other is. They come in the order of the windows.
pub proof fn ends_are_passed_on(
    ws: Seq<WindowView>,
    ds: Seq<WindowDrain>,
    h: int,
    n: int,
    i: int,
    k: int,
)
    requires
        0 <= i < n <= ws.len(),
        n <= ds.len(),
        0 <= k < super::monitor::completions(ws, ds, h, n).len(),
    ensures
        ({
            let all = super::monitor::completions(ws, ds, h, n);
            let p = all[k];
            &&& ds[i].completion matches Some(event) ==> all.contains(
                super::monitor::PendingView {
                    window_index: i,
                    window_name: ws[i].shown_name,
                    is_active_window: i == h,
                    event,
                },
            )
            &&& 0 <= p.window_index < n
            &&& ds[p.window_index].completion == Some(p.event)
            &&& p.window_name == ws[p.window_index].shown_name
            &&& p.is_active_window == (p.window_index == h)
            &&& k > 0 ==> all[k - 1].window_index < p.window_index
        }),
    decreases n,
{
    ends_in_order(ws, ds, h, n, i);
}

proof fn ends_in_order(ws: Seq<WindowView>, ds: Seq<WindowDrain>, h: int, n: int, i: int)
    requires
        0 <= n <= ws.len(),
        n <= ds.len(),
    ensures
        ({
            let all = super::monitor::completions(ws, ds, h, n);
            &&& 0 <= i < n ==> (ds[i].completion matches Some(event) ==> all.contains(
                super::monitor::PendingView {
                    window_index: i,
                    window_name: ws[i].shown_name,
                    is_active_window: i == h,
                    event,
                },
            ))
            &&& forall|k: int|
                0 <= k < all.len() ==> {
                    let p = #[trigger] all[k];
                    &&& 0 <= p.window_index < n
                    &&& ds[p.window_index].completion == Some(p.event)
                    &&& p.window_name == ws[p.window_index].shown_name
                    &&& p.is_active_window == (p.window_index == h)
                }
            &&& forall|k: int, m: int|
                0 <= k < m < all.len() ==> (#[trigger] all[k]).window_index < (
                #[trigger] all[m]).window_index
        }),
    decreases n,
{
    if n > 0 {
        ends_in_order(ws, ds, h, n - 1, i);
        let rest = super::monitor::completions(ws, ds, h, n - 1);
        let all = super::monitor::completions(ws, ds, h, n);
        if let Some(event) = ds[n - 1].completion {
            let last = super::monitor::PendingView {
                window_index: n - 1,
                window_name: ws[n - 1].shown_name,
                is_active_window: n - 1 == h,
                event,
            };
            assert(all == rest.push(last));
            assert(all[all.len() - 1] == last);
            if 0 <= i < n - 1 {
                if let Some(e) = ds[i].completion {
                    let p = super::monitor::PendingView {
                        window_index: i,
                        window_name: ws[i].shown_name,
                        is_active_window: i == h,
                        event: e,
                    };
                    let k = choose|k: int| 0 <= k < rest.len() && rest[k] == p;
                    assert(all[k] == p);
                }
            }
        }
    }
}

/// A tree closes when one goes somewhere, and stays while one kills or renames; a list of
/// buffers closes when one is pasted, and stays while they are deleted; hints close when
/// one is picked. What was chosen is handed out.
pub proof fn what_is_chosen(
    s: WmView,
    tree: super::overlays::TreeAction,
    buffer: super::overlays::BufferAction,
    hint: super::overlays::HintPick,
)
    requires
        s.overlay is Some,
    ensures
        ({
            let closed = WmView { overlay: None, rename_target: None, ..s };
            let t = s.key_taken(KeyOutcome::Tree(tree));
            let f = s.key_taken(KeyOutcome::Buffer(buffer));
            &&& t.1 == OverlayKeyResult::Tree(tree)
            &&& tree is Switch ==> t.0 == closed
            &&& tree is Kill || tree is Rename ==> t.0 == s
            &&& f.1 == OverlayKeyResult::Buffer(buffer)
            &&& buffer is Paste ==> f.0 == closed
            &&& buffer is Delete ==> f.0 == s
            &&& s.key_taken(KeyOutcome::Hint(hint)) == (closed, OverlayKeyResult::Hint(hint))
            &&& s.key_taken(KeyOutcome::Nothing) == (s, OverlayKeyResult::Ignored)
            &&& s.key_taken(KeyOutcome::Redraw) == (s, OverlayKeyResult::Redraw)
        }),
{
}

/// What a severity is called and marked with differs from that of any other.
pub proof fn severities_differ(a: Severity, b: Severity, tier: super::types::GlyphTier)
    requires
        a != b,
    ensures
        a.key() != b.key(),
        a.mark(tier) != b.mark(tier),
{
    reveal_strlit("info");
    reveal_strlit("ok");
    reveal_strlit("warn");
    reveal_strlit("alert");
    reveal_strlit("i");
    reveal_strlit("+");
    reveal_strlit("!");
    reveal_strlit("x");
    reveal_strlit("ℹ");
    reveal_strlit("✓");
    reveal_strlit("⚠");
    reveal_strlit("✗");
    assert("info"@[0] == 'i' && "ok"@[0] == 'o' && "warn"@[0] == 'w' && "alert"@[0] == 'a');
    assert("i"@[0] == 'i' && "+"@[0] == '+' && "!"@[0] == '!' && "x"@[0] == 'x');
    assert("ℹ"@[0] == 'ℹ' && "✓"@[0] == '✓' && "⚠"@[0] == '⚠' && "✗"@[0] == '✗');
}

/// Exchanged panes get their sizes, if the window is still there.
pub proof fn exchanged_panes_are_resized(s: WmView, i: int, id: WindowId)
    requires
        s.live(),
    ensures
        s.swap_reported(id, false) == Seq::<Effect>::empty(),
        0 <= i < s.windows.len() ==> s.swap_reported(s.windows[i].id, true) == seq![
            Effect::Resize(s.windows[i].id),
        ],
        (forall|j: int| 0 <= j < s.windows.len() ==> (#[trigger] s.windows[j]).id != id)
            ==> s.swap_reported(id, true) == Seq::<Effect>::empty(),
{
    if 0 <= i < s.windows.len() {
        slots_are_unique(s.windows, s.next_pane, s.next_window, i);
    }
    super::state::slot_is_found(s.windows, id);
}

} // verus!
