//! What each command asks for, and how commands relate.
use super::state::{holders_are_unique, slots_are_unique, Overlay, WmView};
use super::structure::touching_keeps_wf;
use super::types::{
    Command, Direction, Effect, LayoutPreset, PaneId, Purpose, Severity, SplitDir, WindowId,
};
use super::window::{place_is_found, Monitor, WindowView};
use vstd::prelude::*;

verus! {

/// The active window stands at place `i`.
pub open spec fn active_at(s: WmView, i: int) -> bool {
    s.live() && 0 <= i < s.windows.len() && s.windows[i].id == s.active
}

/// The same, but no pane fills the window at place `i` any more.
pub open spec fn without_zoom(s: WmView, i: int) -> WmView {
    WmView {
        windows: s.windows.update(i, WindowView { zoomed: None, ..s.windows[i] }),
        ..s
    }
}

/// What a command asks for when it ends the zoom of the window at place `i` first.
pub open spec fn after_zoom(s: WmView, i: int, effects: Seq<Effect>) -> Seq<Effect> {
    if s.windows[i].zoomed is Some {
        seq![Effect::Unzoom(s.windows[i].id)] + effects
    } else {
        effects
    }
}

/// The message that is shown now.
pub open spec fn shows(s: WmView, text: Seq<char>, severity: Severity, now: u64) -> bool {
    s.message matches Some(m) && m.text == text && m.severity == severity && (now <= u64::MAX
        - 3000 ==> m.expires_at == now + 3000)
}

/// The same but for the message.
pub open spec fn only_told(s: WmView, t: WmView) -> bool {
    t == (WmView { message: t.message, ..s })
}

proof fn the_active_window(s: WmView, i: int)
    requires
        active_at(s, i),
    ensures
        s.here() == i,
        s.window() == s.windows[i],
        s.windows[i].wf(),
        s.unzoomed().0 == without_zoom(s, i),
        s.unzoomed().1 == after_zoom(s, i, Seq::empty()),
        active_at(without_zoom(s, i), i),
        without_zoom(s, i).here() == i,
        without_zoom(s, i).window() == (WindowView { zoomed: None, ..s.windows[i] }),
{
    slots_are_unique(s.windows, s.next_pane, s.next_window, i);
    let w = WindowView { zoomed: None, ..s.windows[i] };
    assert(s.windows[i].wf());
    touching_keeps_wf(s, i, w);
    if s.windows[i].zoomed is None {
        assert(s.windows.update(i, w) =~= s.windows);
    }
    assert(s.unzoomed().1 =~= after_zoom(s, i, Seq::empty()));
}

/// Splitting asks for a split of the active window, with a new pane: one beside the
/// other for the vertical command, one above the other for the horizontal one. The two
/// never ask for the same.
pub proof fn splitting(s: WmView, i: int, now: u64)
    requires
        active_at(s, i),
        s.next_pane < u32::MAX,
    ensures
        ({
            let id = s.windows[i].id;
            let pane = PaneId(s.next_pane);
            let (v, beside) = s.commanded(Command::SplitV, now);
            let (h, below) = s.commanded(Command::SplitH, now);
            &&& beside == after_zoom(
                s,
                i,
                seq![Effect::Split(id, SplitDir::Vertical, pane), Effect::Wake],
            )
            &&& below == after_zoom(
                s,
                i,
                seq![Effect::Split(id, SplitDir::Horizontal, pane), Effect::Wake],
            )
            &&& beside != below
            &&& v == h
            &&& v == (WmView { next_pane: (s.next_pane + 1) as u32, ..without_zoom(s, i) })
            &&& s.windows[i].panes.all(|p: super::window::PaneView| p.id != pane)
        }),
{
    the_active_window(s, i);
    let id = s.windows[i].id;
    let pane = PaneId(s.next_pane);
    let a = seq![Effect::Split(id, SplitDir::Vertical, pane), Effect::Wake];
    let b = seq![Effect::Split(id, SplitDir::Horizontal, pane), Effect::Wake];
    assert(s.commanded(Command::SplitV, now).1 =~= after_zoom(s, i, a));
    assert(s.commanded(Command::SplitH, now).1 =~= after_zoom(s, i, b));
    let k: int = if s.windows[i].zoomed is Some {
        1
    } else {
        0
    };
    assert(after_zoom(s, i, a)[k] == a[0] && after_zoom(s, i, b)[k] == b[0]);
}

/// Choosing a pane asks for the focus to go to the next, to the one before, or in a
/// direction, and changes nothing but the zoom.
pub proof fn going_to_a_pane(s: WmView, i: int, dir: Direction, now: u64)
    requires
        active_at(s, i),
    ensures
        ({
            let id = s.windows[i].id;
            &&& s.commanded(Command::SelectNextPane, now) == (
                without_zoom(s, i),
                after_zoom(s, i, seq![Effect::FocusNext(id), Effect::Wake]),
            )
            &&& s.commanded(Command::SelectPrevPane, now) == (
                without_zoom(s, i),
                after_zoom(s, i, seq![Effect::FocusPrev(id), Effect::Wake]),
            )
            &&& s.commanded(Command::SelectPane(dir), now) == (
                without_zoom(s, i),
                after_zoom(s, i, seq![Effect::FocusToward(id, dir), Effect::Wake]),
            )
        }),
{
    the_active_window(s, i);
    let id = s.windows[i].id;
    assert(s.commanded(Command::SelectNextPane, now).1 =~= after_zoom(
        s,
        i,
        seq![Effect::FocusNext(id), Effect::Wake],
    ));
    assert(s.commanded(Command::SelectPrevPane, now).1 =~= after_zoom(
        s,
        i,
        seq![Effect::FocusPrev(id), Effect::Wake],
    ));
    assert(s.commanded(Command::SelectPane(dir), now).1 =~= after_zoom(
        s,
        i,
        seq![Effect::FocusToward(id, dir), Effect::Wake],
    ));
}

/// Going to the last pane exchanges the active pane and the one before it, so that
/// going there twice comes back. Without such a pane nothing but the zoom changes.
pub proof fn going_to_the_last_pane(s: WmView, i: int, pane: PaneId, first: u64, second: u64)
    requires
        active_at(s, i),
        s.windows[i].last == Some(pane),
        pane != s.windows[i].active,
    ensures
        ({
            let (t, effects) = s.commanded(Command::SelectLastPane, first);
            let u = t.commanded(Command::SelectLastPane, second).0;
            &&& t.windows[i].active == pane
            &&& t.windows[i].last == Some(s.windows[i].active)
            &&& effects == after_zoom(
                s,
                i,
                seq![Effect::Focus(s.windows[i].id, pane), Effect::Wake],
            )
            &&& u == without_zoom(s, i)
        }),
{
    the_active_window(s, i);
    let u = without_zoom(s, i);
    let (t, effects) = s.commanded(Command::SelectLastPane, first);
    let w = WindowView {
        zoomed: None,
        active: pane,
        last: Some(s.windows[i].active),
        ..s.windows[i]
    };
    assert(effects =~= after_zoom(
        s,
        i,
        seq![Effect::Focus(s.windows[i].id, pane), Effect::Wake],
    ));
    touching_keeps_wf(u, i, w);
    assert(t == u.with(i, w));
    the_active_window(t, i);
    assert(without_zoom(t, i).windows =~= t.windows);
    assert(u.windows.update(i, w).update(i, u.windows[i]) =~= u.windows);
}

/// Closing, breaking out and exchanging act on the active pane.
pub proof fn acting_on_the_pane(s: WmView, i: int, next: bool, now: u64)
    requires
        active_at(s, i),
    ensures
        ({
            let w = s.windows[i];
            &&& s.commanded(Command::KillPane, now) == (
                without_zoom(s, i),
                after_zoom(
                    s,
                    i,
                    seq![Effect::Remove(w.id, w.active, Purpose::Close), Effect::Wake],
                ),
            )
            &&& w.panes.len() >= 2 ==> s.commanded(Command::BreakPane, now) == (
                without_zoom(s, i),
                after_zoom(
                    s,
                    i,
                    seq![Effect::Remove(w.id, w.active, Purpose::Break), Effect::Wake],
                ),
            )
            &&& w.panes.len() < 2 ==> {
                let (t, effects) = s.commanded(Command::BreakPane, now);
                &&& only_told(without_zoom(s, i), t)
                &&& shows(t, "only pane in window"@, Severity::Info, now)
                &&& effects == after_zoom(s, i, seq![Effect::Wake])
            }
            &&& s.commanded(Command::SwapPane(next), now) == (
                without_zoom(s, i),
                after_zoom(
                    s,
                    i,
                    seq![Effect::SwapWithNeighbor(w.id, w.active, next), Effect::Wake],
                ),
            )
        }),
{
    the_active_window(s, i);
    let w = s.windows[i];
    assert(s.commanded(Command::KillPane, now).1 =~= after_zoom(
        s,
        i,
        seq![Effect::Remove(w.id, w.active, Purpose::Close), Effect::Wake],
    ));
    if w.panes.len() >= 2 {
        assert(s.commanded(Command::BreakPane, now).1 =~= after_zoom(
            s,
            i,
            seq![Effect::Remove(w.id, w.active, Purpose::Break), Effect::Wake],
        ));
    } else {
        assert(s.commanded(Command::BreakPane, now).1 =~= after_zoom(s, i, seq![Effect::Wake]));
    }
    assert(s.commanded(Command::SwapPane(next), now).1 =~= after_zoom(
        s,
        i,
        seq![Effect::SwapWithNeighbor(w.id, w.active, next), Effect::Wake],
    ));
}

/// Growing a pane moves the border of its own axis by three cells: to the right and
/// down by as much as to the left and up, but the opposite way.
pub proof fn growing_a_pane(s: WmView, i: int, dir: Direction, now: u64)
    requires
        active_at(s, i),
    ensures
        ({
            let w = s.windows[i];
            let sideways = dir == Direction::Left || dir == Direction::Right;
            let back = dir == Direction::Left || dir == Direction::Up;
            s.commanded(Command::ResizePane(dir), now) == (
                without_zoom(s, i),
                after_zoom(
                    s,
                    i,
                    seq![
                        Effect::Grow(
                            w.id,
                            w.active,
                            if sideways {
                                SplitDir::Vertical
                            } else {
                                SplitDir::Horizontal
                            },
                            if back {
                                -3i32
                            } else {
                                3i32
                            },
                        ),
                        Effect::Resize(w.id),
                        Effect::Wake,
                    ],
                ),
            )
        }),
{
    the_active_window(s, i);
    let w = s.windows[i];
    let sideways = dir == Direction::Left || dir == Direction::Right;
    let back = dir == Direction::Left || dir == Direction::Up;
    assert(s.commanded(Command::ResizePane(dir), now).1 =~= after_zoom(
        s,
        i,
        seq![
            Effect::Grow(
                w.id,
                w.active,
                if sideways {
                    SplitDir::Vertical
                } else {
                    SplitDir::Horizontal
                },
                if back {
                    -3i32
                } else {
                    3i32
                },
            ),
            Effect::Resize(w.id),
            Effect::Wake,
        ],
    ));
}

/// Zooming, looking back and synchronous input keep the zoom as it is, and concern the
/// active pane and window only.
pub proof fn looking_at_the_pane(s: WmView, i: int, first: u64, second: u64)
    requires
        active_at(s, i),
    ensures
        ({
            let w = s.windows[i];
            let (z, resized) = s.commanded(Command::ZoomToggle, first);
            let (t, effects) = s.commanded(Command::ToggleSyncPanes, first);
            &&& resized == seq![Effect::Resize(w.id), Effect::Wake]
            &&& z.windows[i].zoomed == (if w.zoomed is Some {
                None
            } else {
                Some(w.active)
            })
            &&& without_zoom(z, i) == without_zoom(s, i)
            &&& effects == seq![Effect::Wake]
            &&& t.windows[i].sync_input == !w.sync_input
            &&& t.commanded(Command::ToggleSyncPanes, second).0 == s
            &&& s.commanded(Command::EnterCopyMode, first) == (
                s,
                seq![Effect::CopyMode(w.active), Effect::Wake],
            )
            &&& s.commanded(Command::PrevPrompt, first) == (
                s,
                seq![Effect::ScrollToPrompt(w.active, false), Effect::Wake],
            )
            &&& s.commanded(Command::NextPrompt, first) == (
                s,
                seq![Effect::ScrollToPrompt(w.active, true), Effect::Wake],
            )
        }),
{
    the_active_window(s, i);
    let w = s.windows[i];
    let (z, resized) = s.commanded(Command::ZoomToggle, first);
    let (t, effects) = s.commanded(Command::ToggleSyncPanes, first);
    assert(resized =~= seq![Effect::Resize(w.id), Effect::Wake]);
    assert(effects =~= seq![Effect::Wake]);
    assert(without_zoom(z, i).windows =~= without_zoom(s, i).windows);
    let v = WindowView { sync_input: !w.sync_input, ..w };
    touching_keeps_wf(s, i, v);
    the_active_window(t, i);
    assert(s.windows.update(i, v).update(i, w) =~= s.windows);
    assert(s.commanded(Command::EnterCopyMode, first).1 =~= seq![
        Effect::CopyMode(w.active),
        Effect::Wake,
    ]);
    assert(s.commanded(Command::PrevPrompt, first).1 =~= seq![
        Effect::ScrollToPrompt(w.active, false),
        Effect::Wake,
    ]);
    assert(s.commanded(Command::NextPrompt, first).1 =~= seq![
        Effect::ScrollToPrompt(w.active, true),
        Effect::Wake,
    ]);
}

/// Marking a pane and taking the mark away say so, and touch nothing but the mark.
pub proof fn marking_is_told(s: WmView, i: int, now: u64)
    requires
        active_at(s, i),
    ensures
        ({
            let (t, effects) = s.commanded(Command::MarkPane, now);
            let had = s.marked == Some(s.windows[i].active);
            &&& effects == seq![Effect::Wake]
            &&& only_told(WmView { marked: t.marked, ..s }, t)
            &&& had ==> t.marked is None && shows(t, "mark cleared"@, Severity::Info, now)
            &&& !had ==> t.marked == Some(s.windows[i].active) && shows(
                t,
                "marked pane"@,
                Severity::Success,
                now,
            )
        }),
{
    the_active_window(s, i);
    assert(s.commanded(Command::MarkPane, now).1 =~= seq![Effect::Wake]);
}

/// Joining asks for the marked pane to be taken out of its own window, to stand beside
/// the active one. Without another marked pane it only says so.
pub proof fn joining_the_marked_pane(s: WmView, i: int, dir: SplitDir, now: u64, j: int, k: int)
    requires
        active_at(s, i),
        0 <= j < s.windows.len(),
        0 <= k < s.windows[j].panes.len(),
    ensures
        ({
            let (t, effects) = s.commanded(Command::JoinPane(dir), now);
            let m = s.windows[j].panes[k].id;
            &&& s.marked is None ==> {
                &&& only_told(without_zoom(s, i), t)
                &&& shows(t, "no marked pane"@, Severity::Info, now)
                &&& effects == after_zoom(s, i, seq![Effect::Wake])
            }
            &&& s.marked == Some(s.windows[i].active) ==> {
                &&& only_told(without_zoom(s, i), t)
                &&& shows(t, "marked pane is the active pane"@, Severity::Info, now)
                &&& effects == after_zoom(s, i, seq![Effect::Wake])
            }
            &&& s.marked == Some(m) && m != s.windows[i].active ==> {
                &&& t == without_zoom(s, i)
                &&& effects == after_zoom(
                    s,
                    i,
                    seq![Effect::Remove(s.windows[j].id, m, Purpose::Join(dir)), Effect::Wake],
                )
            }
        }),
{
    the_active_window(s, i);
    let u = without_zoom(s, i);
    let m = s.windows[j].panes[k].id;
    place_is_found(u.windows[j].panes, m);
    holders_are_unique(u.windows, u.next_pane, u.next_window, j, m);
    let (t, effects) = s.commanded(Command::JoinPane(dir), now);
    if s.marked == Some(m) && m != s.windows[i].active {
        assert(effects =~= after_zoom(
            s,
            i,
            seq![Effect::Remove(s.windows[j].id, m, Purpose::Join(dir)), Effect::Wake],
        ));
    } else if s.marked is None || s.marked == Some(s.windows[i].active) {
        assert(effects =~= after_zoom(s, i, seq![Effect::Wake]));
    }
}

/// Exchanging the active pane with a marked one of the same window asks for just that.
/// With one of another window, each takes the place of the other, also as the active
/// pane.
pub proof fn exchanging_with_the_marked_pane(s: WmView, i: int, now: u64, j: int, k: int)
    requires
        active_at(s, i),
        0 <= j < s.windows.len(),
        0 <= k < s.windows[j].panes.len(),
        s.marked == Some(s.windows[j].panes[k].id),
        s.marked != Some(s.windows[i].active),
    ensures
        ({
            let (t, effects) = s.commanded(Command::SwapMarkedPane, now);
            let w = s.windows[i];
            let m = s.windows[j].panes[k].id;
            &&& t.marked == s.marked
            &&& j == i ==> {
                &&& t == without_zoom(s, i)
                &&& effects == after_zoom(
                    s,
                    i,
                    seq![
                        Effect::SwapPanes(w.id, w.active, m),
                        Effect::Resize(w.id),
                        Effect::Wake,
                    ],
                )
            }
            &&& j != i ==> {
                &&& t.windows[i].active == m
                &&& t.windows[j].panes[k].id == w.active
                &&& s.windows[j].active == m ==> t.windows[j].active == w.active
                &&& s.windows[j].active != m ==> t.windows[j].active == s.windows[j].active
                &&& effects == after_zoom(
                    s,
                    i,
                    seq![
                        Effect::SwapAcross(w.id, w.active, s.windows[j].id, m),
                        Effect::Resize(w.id),
                        Effect::Resize(s.windows[j].id),
                        Effect::Wake,
                    ],
                )
            }
        }),
{
    the_active_window(s, i);
    let u = without_zoom(s, i);
    let w = s.windows[i];
    let m = s.windows[j].panes[k].id;
    place_is_found(u.windows[j].panes, m);
    holders_are_unique(u.windows, u.next_pane, u.next_window, j, m);
    let (t, effects) = s.commanded(Command::SwapMarkedPane, now);
    if j == i {
        assert(effects =~= after_zoom(
            s,
            i,
            seq![Effect::SwapPanes(w.id, w.active, m), Effect::Resize(w.id), Effect::Wake],
        ));
    } else {
        if u.windows[i].holds(m) {
            holders_are_unique(u.windows, u.next_pane, u.next_window, i, m);
        }
        assert(u.windows[j].wf());
        place_is_found(u.windows[i].panes, w.active);
        assert(super::window::place_of(u.windows[j].panes, m) == Some(k));
        assert(u.windows[j] == s.windows[j]);
        assert(effects =~= after_zoom(
            s,
            i,
            seq![
                Effect::SwapAcross(w.id, w.active, s.windows[j].id, m),
                Effect::Resize(w.id),
                Effect::Resize(s.windows[j].id),
                Effect::Wake,
            ],
        ));
    }
}

/// Choosing a layout asks for the panes to be arranged so, with the active pane in the
/// main place where there is one, and remembers it.
pub proof fn choosing_a_layout(s: WmView, i: int, preset: LayoutPreset, now: u64)
    requires
        active_at(s, i),
    ensures
        ({
            let w = s.windows[i];
            let (t, effects) = s.commanded(Command::SelectLayout(preset), now);
            let has_main = preset == LayoutPreset::MainHorizontal || preset
                == LayoutPreset::MainVertical;
            &&& t.windows[i].last_preset == Some(preset)
            &&& t == (WmView {
                windows: s.windows.update(
                    i,
                    WindowView { zoomed: None, last_preset: Some(preset), ..w },
                ),
                ..s
            })
            &&& effects == after_zoom(
                s,
                i,
                seq![
                    Effect::Arrange(
                        w.id,
                        preset,
                        if has_main {
                            Some(w.active)
                        } else {
                            None
                        },
                    ),
                    Effect::Resize(w.id),
                    Effect::Wake,
                    Effect::Wake,
                ],
            )
        }),
{
    the_active_window(s, i);
    let w = s.windows[i];
    let (t, effects) = s.commanded(Command::SelectLayout(preset), now);
    let v = WindowView { zoomed: None, last_preset: Some(preset), ..w };
    assert(t.windows =~= s.windows.update(i, v));
    let has_main = preset == LayoutPreset::MainHorizontal || preset == LayoutPreset::MainVertical;
    assert(effects =~= after_zoom(
        s,
        i,
        seq![
            Effect::Arrange(
                w.id,
                preset,
                if has_main {
                    Some(w.active)
                } else {
                    None
                },
            ),
            Effect::Resize(w.id),
            Effect::Wake,
            Effect::Wake,
        ],
    ));
}

/// Going on from layout to layout begins with the columns, is never the layout that
/// there is, and comes round after all five.
pub proof fn layouts_come_round(s: WmView, i: int, now: u64)
    requires
        active_at(s, i),
        s.windows[i].zoomed is None,
    ensures
        ({
            let next = |t: WmView| t.commanded(Command::NextLayout, now).0;
            let a = next(s);
            let p = s.windows[i].last_preset;
            &&& p is None ==> a.windows[i].last_preset == Some(LayoutPreset::EvenHorizontal)
            &&& a.windows[i].last_preset is Some && a.windows[i].last_preset != p
            &&& s.commanded(Command::NextLayout, now) == s.commanded(
                Command::SelectLayout(a.windows[i].last_preset->0),
                now,
            )
            &&& p is Some ==> next(a).windows[i].last_preset != p && next(
                next(a),
            ).windows[i].last_preset != p && next(next(next(a))).windows[i].last_preset != p
                && next(next(next(next(a)))).windows[i].last_preset == p
        }),
{
    one_layout_on(s, i, now);
    let a = s.commanded(Command::NextLayout, now).0;
    one_layout_on(a, i, now);
    let b = a.commanded(Command::NextLayout, now).0;
    one_layout_on(b, i, now);
    let c = b.commanded(Command::NextLayout, now).0;
    one_layout_on(c, i, now);
    let d = c.commanded(Command::NextLayout, now).0;
    one_layout_on(d, i, now);
}

proof fn one_layout_on(s: WmView, i: int, now: u64)
    requires
        active_at(s, i),
        s.windows[i].zoomed is None,
    ensures
        ({
            let t = s.commanded(Command::NextLayout, now).0;
            let to = match s.windows[i].last_preset {
                Some(LayoutPreset::EvenHorizontal) => LayoutPreset::EvenVertical,
                Some(LayoutPreset::EvenVertical) => LayoutPreset::MainHorizontal,
                Some(LayoutPreset::MainHorizontal) => LayoutPreset::MainVertical,
                Some(LayoutPreset::MainVertical) => LayoutPreset::Tiled,
                Some(LayoutPreset::Tiled) => LayoutPreset::EvenHorizontal,
                None => LayoutPreset::EvenHorizontal,
            };
            &&& t.windows[i].last_preset == Some(to)
            &&& active_at(t, i)
            &&& t.windows[i].zoomed is None
            &&& s.commanded(Command::NextLayout, now) == s.commanded(
                Command::SelectLayout(to),
                now,
            )
        }),
{
    the_active_window(s, i);
    let t = s.commanded(Command::NextLayout, now).0;
    let u = without_zoom(s, i);
    touching_keeps_wf(u, i, t.windows[i]);
    assert(t == u.with(i, t.windows[i]));
}

/// A new window is asked for with new numbers for it and for its pane.
pub proof fn opening_a_window(s: WmView, i: int, now: u64)
    requires
        active_at(s, i),
        s.next_pane < u32::MAX,
        s.next_window < u32::MAX,
    ensures
        s.commanded(Command::NewWindow, now) == (
            WmView {
                next_pane: (s.next_pane + 1) as u32,
                next_window: (s.next_window + 1) as u32,
                ..without_zoom(s, i)
            },
            after_zoom(
                s,
                i,
                seq![
                    Effect::SpawnWindow(WindowId(s.next_window), PaneId(s.next_pane)),
                    Effect::Wake,
                ],
            ),
        ),
{
    the_active_window(s, i);
    assert(s.commanded(Command::NewWindow, now).1 =~= after_zoom(
        s,
        i,
        seq![Effect::SpawnWindow(WindowId(s.next_window), PaneId(s.next_pane)), Effect::Wake],
    ));
}

/// The next window is the one behind the active one, and behind the last comes the
/// first; the one before is the one before it, and before the first comes the last. A
/// window is chosen by its place. The window that was active is remembered.
pub proof fn going_to_a_window(s: WmView, i: int, k: u8, now: u64)
    requires
        active_at(s, i),
    ensures
        ({
            let n = s.windows.len() as int;
            let goes = |cmd: Command, to: int| {
                let (t, effects) = s.commanded(cmd, now);
                &&& effects == after_zoom(s, i, seq![Effect::Wake])
                &&& t.active == s.windows[to].id
                &&& to != i ==> t.last_active == Some(s.active)
                &&& to == i ==> t.last_active == s.last_active
                &&& t == (WmView {
                    active: t.active,
                    last_active: t.last_active,
                    ..without_zoom(s, i)
                })
            };
            &&& i + 1 < n ==> goes(Command::NextWindow, i + 1)
            &&& i + 1 == n ==> goes(Command::NextWindow, 0)
            &&& i > 0 ==> goes(Command::PrevWindow, i - 1)
            &&& i == 0 ==> goes(Command::PrevWindow, n - 1)
            &&& k < n ==> goes(Command::SelectWindow(k), k as int)
            &&& k >= n ==> goes(Command::SelectWindow(k), i)
        }),
{
    the_active_window(s, i);
    let u = without_zoom(s, i);
    assert forall|j: int| 0 <= j < s.windows.len() && j != i implies (#[trigger] u.windows[j]).id
        != s.active && u.windows[j].id == s.windows[j].id by {
        slots_are_unique(s.windows, s.next_pane, s.next_window, j);
    }
    assert(u.windows[i].id == s.active);
    assert(s.commanded(Command::NextWindow, now).1 =~= after_zoom(s, i, seq![Effect::Wake]));
    assert(s.commanded(Command::PrevWindow, now).1 =~= after_zoom(s, i, seq![Effect::Wake]));
    assert(s.commanded(Command::SelectWindow(k), now).1 =~= after_zoom(
        s,
        i,
        seq![Effect::Wake],
    ));
}

/// Killing the window takes it out of the list, ends all its programs, forgets a mark in
/// it, and says which it was, counted from one.
pub proof fn killing_the_window(s: WmView, i: int, now: u64, k: int)
    requires
        active_at(s, i),
        s.popup is None,
        s.windows[i].zoomed is None,
        0 <= k < s.windows[i].panes.len(),
    ensures
        ({
            let (t, effects) = s.commanded(Command::KillWindow, now);
            let w = s.windows[i];
            &&& t.windows == s.windows.remove(i)
            &&& effects.len() == w.panes.len() + 1
            &&& effects[k] == Effect::KillChild(w.panes[k].id)
            &&& effects.last() == Effect::Wake
            &&& s.marked == Some(w.panes[k].id) ==> t.marked is None
            &&& t.message matches Some(m) && m.text == super::messages::named_window(
                "killed window "@,
                i,
                w.shown_name,
            ) && m.severity == Severity::Success
        }),
{
    the_active_window(s, i);
    assert(without_zoom(s, i).windows =~= s.windows);
    place_is_found(s.windows[i].panes, s.windows[i].panes[k].id);
}

/// Each watch is switched by its own command and by no other, and says so. Switching
/// it twice is as before.
pub proof fn switching_a_watch(s: WmView, i: int, now: u64)
    requires
        active_at(s, i),
    ensures
        ({
            let m = s.windows[i].monitor;
            let after = |cmd: Command| s.commanded(cmd, now).0;
            let a = after(Command::ToggleMonitorActivity);
            let b = after(Command::ToggleMonitorBell);
            let c = after(Command::ToggleMonitorCommand);
            &&& a.windows[i].monitor == (Monitor { activity: !m.activity, ..m })
            &&& b.windows[i].monitor == (Monitor { bell: !m.bell, ..m })
            &&& c.windows[i].monitor == (Monitor { command: !m.command, ..m })
            &&& shows(
                a,
                "monitor-activity "@ + (if m.activity {
                    "off"@
                } else {
                    "on"@
                }),
                Severity::Info,
                now,
            )
            &&& shows(
                b,
                "monitor-bell "@ + (if m.bell {
                    "off"@
                } else {
                    "on"@
                }),
                Severity::Info,
                now,
            )
            &&& shows(
                c,
                "monitor-command "@ + (if m.command {
                    "off"@
                } else {
                    "on"@
                }),
                Severity::Info,
                now,
            )
            &&& only_told(s, WmView { windows: s.windows, ..a })
            &&& only_told(s, WmView { windows: s.windows, ..b })
            &&& only_told(s, WmView { windows: s.windows, ..c })
            &&& s.commanded(Command::ToggleMonitorActivity, now).1 == seq![Effect::Wake]
            &&& s.commanded(Command::ToggleMonitorBell, now).1 == seq![Effect::Wake]
            &&& s.commanded(Command::ToggleMonitorCommand, now).1 == seq![Effect::Wake]
        }),
{
    the_active_window(s, i);
    assert(s.commanded(Command::ToggleMonitorActivity, now).1 =~= seq![Effect::Wake]);
    assert(s.commanded(Command::ToggleMonitorBell, now).1 =~= seq![Effect::Wake]);
    assert(s.commanded(Command::ToggleMonitorCommand, now).1 =~= seq![Effect::Wake]);
}

/// Silence is watched for a number of seconds, which are counted in milliseconds; to
/// watch no more forgets what was found.
pub proof fn watching_for_silence(s: WmView, i: int, secs: u64, now: u64)
    requires
        active_at(s, i),
        secs * 1000 <= u64::MAX,
    ensures
        ({
            let m = s.windows[i].monitor;
            let on = s.commanded(Command::SetMonitorSilence(Some(secs)), now).0;
            let off = s.commanded(Command::SetMonitorSilence(None), now).0;
            &&& on.windows[i].monitor.silence matches Some(ms) && ms == secs * 1000
            &&& on.windows[i].monitor == (Monitor { silence: on.windows[i].monitor.silence, ..m })
            &&& off.windows[i].monitor == (Monitor {
                silence: None,
                silence_flag: false,
                silence_reported: false,
                ..m
            })
            &&& shows(
                on,
                "monitor-silence "@ + super::messages::number(secs as nat) + "s"@,
                Severity::Info,
                now,
            )
            &&& shows(off, "monitor-silence off"@, Severity::Info, now)
        }),
{
    the_active_window(s, i);
}

/// Names are asked for in an overlay of their own; a pane that is to be named is the
/// active one. A popup is asked for with a new number, and closing it ends its program.
pub proof fn opening_overlays(s: WmView, i: int, now: u64)
    requires
        active_at(s, i),
        s.next_pane < u32::MAX,
    ensures
        ({
            let w = s.commanded(Command::RenameWindow, now);
            let p = s.commanded(Command::RenamePane, now);
            let h = s.commanded(Command::ShowHelp, now);
            let o = s.commanded(Command::OpenPopup, now);
            let c = s.commanded(Command::ClosePopup, now);
            &&& w.0 == (WmView {
                overlay: Some(Overlay::RenameWindow),
                rename_target: None,
                ..s
            })
            &&& p.0 == (WmView {
                overlay: Some(Overlay::RenamePane),
                rename_target: Some(s.windows[i].active),
                ..s
            })
            &&& h.0 == (WmView { overlay: Some(Overlay::Help), rename_target: None, ..s })
            &&& w.1 == seq![Effect::Wake] && p.1 == w.1 && h.1 == w.1
            &&& o == (
                WmView { next_pane: (s.next_pane + 1) as u32, ..s },
                seq![Effect::SpawnPopup(PaneId(s.next_pane)), Effect::Wake],
            )
            &&& s.popup is None ==> c == (s, seq![Effect::Wake])
            &&& s.popup matches Some(popup) ==> c.0 == (WmView { popup: None, ..s })
                && c.1.contains(Effect::KillChild(popup.pane))
        }),
{
    the_active_window(s, i);
    assert(s.commanded(Command::RenameWindow, now).1 =~= seq![Effect::Wake]);
    assert(s.commanded(Command::RenamePane, now).1 =~= seq![Effect::Wake]);
    assert(s.commanded(Command::ShowHelp, now).1 =~= seq![Effect::Wake]);
    assert(s.commanded(Command::OpenPopup, now).1 =~= seq![
        Effect::SpawnPopup(PaneId(s.next_pane)),
        Effect::Wake,
    ]);
    let c = s.commanded(Command::ClosePopup, now);
    if let Some(popup) = s.popup {
        assert(c.1[0] == Effect::KillChild(popup.pane));
    } else {
        assert(c.1 =~= seq![Effect::Wake]);
    }
}

} // verus!
