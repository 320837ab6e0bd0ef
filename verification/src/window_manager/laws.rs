//! What holds of the window manager as a whole.
use super::commands::clears_zoom;
use super::monitor::WindowDrain;
use super::mouse::{MouseAct, Scene};
use super::overlays::remembered;
use super::state::{
    holder_is_found, slot_is_found, slots_are_unique, WmView, COMMAND_HISTORY_CAP,
};
use super::structure::{moved, touching_keeps_wf};
use super::types::{Command, Effect, MouseEvent, PaneId};
use super::window::WindowView;
use vstd::prelude::*;

verus! {

/// Moving a window back undoes the move.
pub proof fn a_move_can_be_undone(s: WmView, from: int, to: int)
    requires
        0 <= from < s.windows.len(),
        0 <= to < s.windows.len(),
        from != to,
    ensures
        s.window_moved(from, to) is Some,
        s.window_moved(from, to)->0.window_moved(to, from) == Some(s),
{
    let t = s.window_moved(from, to)->0;
    assert(moved(t.windows, to, from) =~= s.windows);
}

/// Moving windows changes neither which window is active nor which was before, and
/// loses no window.
pub proof fn moving_keeps_what_is_active(s: WmView, from: int, to: int)
    requires
        s.live(),
        0 <= from,
        0 <= to,
        s.window_moved(from, to) is Some,
    ensures
        s.window_moved(from, to)->0.window() == s.window(),
        s.window_moved(from, to)->0.last_active == s.last_active,
        s.window_moved(from, to)->0.windows.to_multiset() == s.windows.to_multiset(),
{
    let dest = crate::grid::least(to, s.windows.len() - 1);
    let t = s.window_moved(from, to)->0;
    let w = s.windows[from];
    slot_is_found(s.windows, s.active);
    slot_is_found(t.windows, s.active);
    let h = s.here();
    let g = if h == from {
        dest
    } else {
        let k = if h < from {
            h
        } else {
            h - 1
        };
        if k < dest {
            k
        } else {
            k + 1
        }
    };
    assert(t.windows[g] == s.windows[h]);
    assert forall|j: int| 0 <= j < t.windows.len() && j != g implies (#[trigger] t.windows[j]).id
        != s.active by {
        let k = if j == dest {
            from
        } else {
            let k = if j < dest {
                j
            } else {
                j - 1
            };
            if k < from {
                k
            } else {
                k + 1
            }
        };
        assert(t.windows[j] == s.windows[k]);
        if k < h {
            assert(s.windows[k].id != s.windows[h].id);
        } else {
            assert(s.windows[h].id != s.windows[k].id);
        }
    }
    let all = s.windows.to_multiset();
    vstd::seq_lib::to_multiset_remove(s.windows, from);
    vstd::seq_lib::to_multiset_insert(s.windows.remove(from), dest, w);
    vstd::seq_lib::to_multiset_contains(s.windows, w);
    assert(s.windows.contains(w));
    assert(all.remove(w).insert(w) =~= all);
}

/// Marking the same pane again removes the mark.
pub proof fn marking_twice_clears(s: WmView, first: u64, second: u64)
    requires
        s.live(),
        s.marked != Some(s.window().active),
    ensures
        s.commanded(Command::MarkPane, first).0.marked == Some(s.window().active),
        s.commanded(Command::MarkPane, first).0.commanded(Command::MarkPane, second).0.marked
            is None,
{
}

/// Toggling the zoom twice changes nothing, if no pane filled the window before.
pub proof fn zooming_twice_changes_nothing(s: WmView, first: u64, second: u64)
    requires
        s.live(),
        s.window().zoomed is None,
    ensures
        s.commanded(Command::ZoomToggle, first).0.window().zoomed == Some(s.window().active),
        s.commanded(Command::ZoomToggle, first).0.commanded(Command::ZoomToggle, second).0 == s,
{
    slot_is_found(s.windows, s.active);
    let h = s.here();
    assert(s.windows[h].wf());
    let w = WindowView { zoomed: Some(s.window().active), ..s.window() };
    touching_keeps_wf(s, h, w);
    assert(s.windows.update(h, w).update(h, s.window()) =~= s.windows);
}

/// The zoom of the active window ended: the same windows in the same places.
proof fn unzooming_keeps_places(s: WmView)
    requires
        s.live(),
    ensures
        s.unzoomed().0.live(),
        s.unzoomed().0.here() == s.here(),
        s.unzoomed().0.windows.len() == s.windows.len(),
        s.unzoomed().0.window().zoomed is None,
        forall|i: int|
            0 <= i < s.windows.len() ==> (#[trigger] s.unzoomed().0.windows[i]).id
                == s.windows[i].id,
{
    slot_is_found(s.windows, s.active);
    let w = WindowView { zoomed: None, ..s.window() };
    assert(s.windows[s.here()].wf());
    if s.window().zoomed is Some {
        touching_keeps_wf(s, s.here(), w);
    }
}

/// The window before the next one is the one that was active.
pub proof fn previous_undoes_next(s: WmView, first: u64, second: u64)
    requires
        s.live(),
    ensures
        s.commanded(Command::NextWindow, first).0.commanded(
            Command::PrevWindow,
            second,
        ).0.active == s.active,
{
    let n = s.windows.len() as int;
    unzooming_keeps_places(s);
    let u = s.unzoomed().0;
    slot_is_found(s.windows, s.active);
    let next = if s.here() + 1 == n {
        0
    } else {
        s.here() + 1
    };
    let t = s.commanded(Command::NextWindow, first).0;
    assert(t == u.switched_to(next));
    slots_are_unique(u.windows, u.next_pane, u.next_window, next);
    assert(t.live());
    unzooming_keeps_places(t);
    assert(t.here() == next);
}

/// The last window is the one that was active before the switch.
pub proof fn the_last_window_comes_back(s: WmView, i: u8, first: u64, second: u64)
    requires
        s.live(),
        i < s.windows.len(),
        s.windows[i as int].id != s.active,
    ensures
        s.commanded(Command::SelectWindow(i), first).0.active == s.windows[i as int].id,
        s.commanded(Command::SelectWindow(i), first).0.commanded(
            Command::SelectLastWindow,
            second,
        ).0.active == s.active,
{
    unzooming_keeps_places(s);
    let u = s.unzoomed().0;
    slot_is_found(s.windows, s.active);
    let t = s.commanded(Command::SelectWindow(i), first).0;
    assert(t == u.switched_to(i as int));
    slots_are_unique(u.windows, u.next_pane, u.next_window, i as int);
    slots_are_unique(u.windows, u.next_pane, u.next_window, s.here());
    assert(t.live());
    unzooming_keeps_places(t);
    let v = t.unzoomed().0;
    slots_are_unique(v.windows, v.next_pane, v.next_window, s.here());
}

/// When the active window goes, the one behind it is active, or the last one; however
/// it goes, by a command or with its last program.
pub proof fn the_next_window_follows(s: WmView, pane: PaneId)
    requires
        s.live(),
        s.windows.len() > 1,
    ensures
        ({
            let h = s.here();
            let n = s.windows.len() as int;
            let heir = if h + 1 < n {
                s.windows[h + 1].id
            } else {
                s.windows[h - 1].id
            };
            &&& s.window_closed().0.active == heir
            &&& s.pane_closed(h, pane, None).0.active == heir
            &&& s.window_closed().0.last_active != Some(heir)
        }),
{
    slot_is_found(s.windows, s.active);
}

/// A command that changes what windows and panes there are, or which is active, ends
/// the zoom of the window in which it was given.
pub proof fn structural_commands_end_the_zoom(s: WmView, cmd: Command, now: u64, i: int)
    requires
        s.live(),
        clears_zoom(cmd),
        0 <= i < s.commanded(cmd, now).0.windows.len(),
        s.commanded(cmd, now).0.windows[i].id == s.active,
    ensures
        s.commanded(cmd, now).0.windows[i].zoomed is None,
{
    unzooming_keeps_places(s);
    let u = s.unzoomed().0;
    slot_is_found(u.windows, u.active);
    assert forall|k: int| 0 <= k < u.windows.len() && k != u.here() implies (
    #[trigger] u.windows[k]).id != s.active by {
        slots_are_unique(u.windows, u.next_pane, u.next_window, k);
    }
    if let Some(m) = u.marked {
        holder_is_found(u.windows, m);
    }
}

/// Commands on the connection leave the windows alone.
pub proof fn commands_on_the_connection_only_redraw(s: WmView, cmd: Command, now: u64)
    requires
        match cmd {
            Command::Detach | Command::Cancel | Command::ReloadConfig => true,
            Command::CommandPrompt | Command::ChooseSession | Command::ChooseTree => true,
            Command::History | Command::Hints | Command::PasteBuffer => true,
            Command::ChooseBuffer | Command::EnterBlockMode | Command::CopyOutput => true,
            _ => false,
        },
    ensures
        s.commanded(cmd, now) == (s, seq![Effect::Wake]),
{
    assert(s.commanded(cmd, now).1 =~= seq![Effect::Wake]);
}

/// While there is a popup, the mouse changes nothing, and only the program in the popup
/// is told of it.
pub proof fn a_popup_takes_the_mouse(s: WmView, event: MouseEvent, scene: Scene, now: u64)
    requires
        s.popup is Some,
    ensures
        s.moused(event, scene, now).0 == s,
        s.moused(event, scene, now).1 == Seq::<Effect>::empty(),
        s.moused(event, scene, now).2 matches MouseAct::Send(pane, _, _) ==> pane
            == s.popup->0.pane,
        s.moused(event, scene, now).2 is Send || s.moused(event, scene, now).2 is Nothing,
{
}

/// Whether nothing is dragged, or one thing.
pub open spec fn drags_one(s: WmView) -> bool {
    let g = s.gestures;
    &&& g.tab is Some ==> g.resize is None && g.pane is None
    &&& g.resize is Some ==> g.tab is None && g.pane is None
}

/// The mouse drags one thing at a time: a window, a border or a pane.
pub proof fn one_thing_is_dragged_at_a_time(
    s: WmView,
    event: MouseEvent,
    scene: Scene,
    now: u64,
)
    requires
        drags_one(s),
    ensures
        drags_one(s.moused(event, scene, now).0),
{
}

/// A popup that opens ends what the mouse was doing: its release will not be seen.
pub proof fn a_popup_ends_the_drag(s: WmView, pane: PaneId, command: Option<Seq<char>>)
    requires
        s.awaits(pane),
    ensures
        ({
            let t = s.popup_reported(pane, command).0;
            &&& t.popup is Some && t.popup->0.pane == pane
            &&& t.gestures.tab is None
            &&& t.gestures.resize is None
            &&& t.gestures.pane is None
            &&& t.gestures.selection is None
        }),
{
}

/// Whether no command stands behind the same command.
pub open spec fn repeats_nothing(history: Seq<Seq<char>>) -> bool {
    forall|i: int, j: int|
        0 <= i && j == i + 1 && j < history.len() ==> (#[trigger] history[i]) != (
        #[trigger] history[j])
}

/// The commands that are remembered are the newest, not too many, the last of them the
/// last one entered, and none repeats the one before it.
pub proof fn the_history_is_short_and_repeats_nothing(
    history: Seq<Seq<char>>,
    text: Seq<char>,
)
    requires
        history.len() <= COMMAND_HISTORY_CAP,
        repeats_nothing(history),
    ensures
        remembered(history, text).len() <= COMMAND_HISTORY_CAP,
        remembered(history, text).len() > 0,
        remembered(history, text).last() == text,
        repeats_nothing(remembered(history, text)),
{
    let t = remembered(history, text);
    let all = history.push(text);
    if !(history.len() > 0 && history.last() == text) {
        let cut = all.len() - t.len();
        assert forall|i: int, j: int| 0 <= i && j == i + 1 && j < t.len() implies (
        #[trigger] t[i]) != (#[trigger] t[j]) by {
            assert(t[i] == all[i + cut] && t[j] == all[j + cut]);
            if j + cut < history.len() {
                assert(history[i + cut] != history[j + cut]);
            }
        }
    }
}

/// What is known of the active window is forgotten when the windows are asked: the user
/// sees it. What is known of another window stays until then.
pub proof fn windows_are_remembered_until_seen(
    s: WmView,
    ds: Seq<WindowDrain>,
    now: u64,
    i: int,
)
    requires
        s.live(),
        0 <= i < s.windows.len(),
    ensures
        ({
            let old_m = s.windows[i].monitor;
            let m = s.drained(ds, now).windows[i].monitor;
            if i == s.here() {
                !m.activity_flag && !m.bell_flag && m.done_flag is None && !m.silence_flag
            } else {
                &&& old_m.activity_flag ==> m.activity_flag
                &&& old_m.bell_flag ==> m.bell_flag
                &&& old_m.done_flag is Some ==> m.done_flag == old_m.done_flag
                &&& old_m.silence_flag ==> m.silence_flag
            }
        }),
{
}

/// A window that was reported silent is not reported again until something is written
/// in it.
pub proof fn a_silence_is_told_once(s: WmView, now: u64, later: u64, i: int)
    requires
        s.live(),
        0 <= i < s.windows.len(),
        i != s.here(),
        s.windows[i].monitor.falls_silent(now),
    ensures
        s.silenced(now).windows[i].monitor.silence_flag,
        !s.silenced(now).windows[i].monitor.falls_silent(later),
        !s.silenced(now).windows[i].monitor.seen().falls_silent(later),
{
}

} // verus!
