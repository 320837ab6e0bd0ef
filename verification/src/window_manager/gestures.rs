//! What the pointer does, from a press to the release.
use super::mouse::{left_press, MouseAct, PaneHit, Scene};
use super::orders::active_at;
use super::pointer::{encoding_of, wants_mouse};
use super::state::{slots_are_unique, ClickHistory, Gestures, PaneDrag, ResizeDrag, TabDrag, WmView};
use super::types::{
    BorderSide, ClickAction, Command, Effect, MouseButton, MouseEvent, MouseKind, Selection,
};
use super::window::{place_is_found, WindowView};
use vstd::prelude::*;

verus! {

/// Nothing is dragged, and no popup is open.
pub open spec fn hands_free(s: WmView) -> bool {
    s.popup is None && s.gestures.tab is None && s.gestures.resize is None && s.gestures.pane
        is None
}

/// A border is dragged, and no popup is open.
pub open spec fn drags_border(s: WmView, drag: ResizeDrag) -> bool {
    s.popup is None && s.gestures.tab is None && s.gestures.resize == Some(drag)
}

/// The same but for what the pointer is about.
pub open spec fn only_gestures(s: WmView, t: WmView) -> bool {
    t == (WmView { gestures: t.gestures, ..s })
}

/// The place of the pointer along the axis of a border.
pub open spec fn along(side: BorderSide, row: int, col: int) -> int {
    match side {
        BorderSide::Right => col,
        BorderSide::Bottom => row,
    }
}

/// A dragged border is asked to move by the distance from where the drag stands to the
/// pointer, in the direction of the pointer. Once the whole distance is reported, the
/// place that is remembered is that of the pointer, and the same event asks for nothing
/// more. A border that moved less is asked for the rest.
pub proof fn a_dragged_border_follows_the_pointer(
    s: WmView,
    i: int,
    drag: ResizeDrag,
    event: MouseEvent,
    scene: Scene,
    first: u64,
    second: u64,
    applied: i32,
)
    requires
        active_at(s, i),
        drags_border(s, drag),
        event.kind == MouseKind::Move,
        event.row >= s.row_offset,
    ensures
        ({
            let there = along(drag.side, event.row - s.row_offset, event.col as int);
            let here = along(drag.side, drag.last_row as int, drag.last_col as int);
            let distance = there - here;
            let (t, effects, act) = s.moused(event, scene, first);
            let (u, after) = t.border_reported(applied);
            let again = u.moused(event, scene, second);
            let between = distance >= applied >= 0 || distance <= applied <= 0;
            &&& t == s && effects == Seq::<Effect>::empty()
            &&& distance == 0 ==> act == MouseAct::Nothing
            &&& distance != 0 ==> act == MouseAct::AdjustBorder(
                s.windows[i].id,
                drag.adjacent_pane,
                drag.side,
                distance as i32,
            )
            &&& between ==> {
                &&& only_gestures(s, u)
                &&& u.gestures.resize matches Some(d) && along(
                    drag.side,
                    d.last_row as int,
                    d.last_col as int,
                ) == here + applied && d.side == drag.side && d.adjacent_pane == drag.adjacent_pane
                &&& applied != 0 ==> after == seq![Effect::Resize(s.windows[i].id), Effect::Wake]
                &&& again.0 == u
                &&& applied == distance ==> again.2 == MouseAct::Nothing
                &&& applied != distance ==> again.2 == MouseAct::AdjustBorder(
                    s.windows[i].id,
                    drag.adjacent_pane,
                    drag.side,
                    (distance - applied) as i32,
                )
            }
        }),
{
    slots_are_unique(s.windows, s.next_pane, s.next_window, i);
}

/// A press on a border takes hold of it where the pointer is; the release lets go, and
/// the panes get their sizes. Between them the wheel and further presses do nothing.
pub proof fn a_border_is_taken_and_let_go(
    s: WmView,
    i: int,
    press: MouseEvent,
    release: MouseEvent,
    other: MouseEvent,
    scene: Scene,
    now: u64,
)
    requires
        active_at(s, i),
        hands_free(s),
        left_press(press),
        s.status_row != Some(press.row),
        press.row >= s.row_offset,
        scene.border is Some,
        release.kind == MouseKind::Release,
        other.kind == MouseKind::Press || other.kind is Wheel,
    ensures
        ({
            let (t, effects, act) = s.moused(press, scene, now);
            let (u, after, then_act) = t.moused(release, scene, now);
            &&& effects == Seq::<Effect>::empty() && act == MouseAct::Nothing
            &&& only_gestures(s, t)
            &&& t.gestures.resize == Some(
                ResizeDrag {
                    adjacent_pane: scene.border->0.adjacent_pane,
                    side: scene.border->0.side,
                    last_row: (press.row - s.row_offset) as u16,
                    last_col: press.col,
                },
            )
            &&& t.moused(other, scene, now) == (t, Seq::<Effect>::empty(), MouseAct::Nothing)
            &&& u == s
            &&& after == seq![Effect::Resize(s.windows[i].id), Effect::Wake]
            &&& then_act == MouseAct::Nothing
        }),
{
    slots_are_unique(s.windows, s.next_pane, s.next_window, i);
}

/// A press with Alt on a window in the status bar takes hold of it. Dropped on another
/// one there, it takes the place of that one; dropped elsewhere, or let go outside the
/// status bar, it stays.
pub proof fn a_window_is_dragged(
    s: WmView,
    press: MouseEvent,
    release: MouseEvent,
    scene: Scene,
    now: u64,
    a: int,
    b: int,
)
    requires
        s.live(),
        hands_free(s),
        left_press(press),
        press.modifiers.alt,
        s.status_row == Some(press.row),
        release.kind == MouseKind::Release,
        0 <= a < s.windows.len(),
        0 <= b < s.windows.len(),
        a != b,
        points_at(s, press.col, ClickAction::SelectWindow(a as usize)),
        a <= usize::MAX,
        b <= usize::MAX,
    ensures
        ({
            let (t, effects, act) = s.moused(press, scene, now);
            let (u, after, _) = t.moused(release, scene, now);
            &&& effects == seq![Effect::Wake] && act == MouseAct::Nothing
            &&& t == (WmView {
                gestures: Gestures {
                    tab: Some(TabDrag { source: s.windows[a].id }),
                    ..s.gestures
                },
                ..s
            })
            &&& after == seq![Effect::Wake]
            &&& u.gestures == s.gestures
            &&& s.status_row != Some(release.row) ==> u == s
            &&& s.status_row == Some(release.row) && points_at(
                s,
                release.col,
                ClickAction::SelectWindow(b as usize),
            ) ==> {
                &&& u.windows.len() == s.windows.len()
                &&& u.windows[b] == s.windows[a]
                &&& u.windows == s.windows.remove(a).insert(b, s.windows[a])
                &&& u == (WmView { windows: u.windows, ..s })
            }
        }),
{
    hits_are_found(s, press.col, ClickAction::SelectWindow(a as usize));
    slots_are_unique(s.windows, s.next_pane, s.next_window, a);
    if points_at(s, release.col, ClickAction::SelectWindow(b as usize)) {
        hits_are_found(s, release.col, ClickAction::SelectWindow(b as usize));
    }
}

/// The first part of the status bar at a column has the given action.
pub open spec fn points_at(s: WmView, col: u16, action: ClickAction) -> bool {
    exists|k: int|
        0 <= k < s.hits.len() && s.hits[k].start <= col < s.hits[k].end && s.hits[k].action
            == action && forall|j: int|
            0 <= j < k ==> !((#[trigger] s.hits[j]).start <= col < s.hits[j].end)
}

proof fn hits_are_found(s: WmView, col: u16, action: ClickAction)
    requires
        points_at(s, col, action),
    ensures
        super::mouse::hit_at(s.hits, col) == Some(action),
{
    let k = choose|k: int|
        0 <= k < s.hits.len() && s.hits[k].start <= col < s.hits[k].end && s.hits[k].action
            == action && forall|j: int|
            0 <= j < k ==> !((#[trigger] s.hits[j]).start <= col < s.hits[j].end);
    hits_before_are_passed(s.hits, col, k);
    assert(s.hits.skip(k)[0] == s.hits[k]);
}

proof fn hits_before_are_passed(hits: Seq<super::types::StatusHit>, col: u16, k: int)
    requires
        0 <= k <= hits.len(),
        forall|j: int| 0 <= j < k ==> !((#[trigger] hits[j]).start <= col < hits[j].end),
    ensures
        super::mouse::hit_at(hits, col) == super::mouse::hit_at(hits.skip(k), col),
    decreases k,
{
    if k == 0 {
        assert(hits.skip(0) =~= hits);
    } else {
        assert(!(hits[0].start <= col < hits[0].end));
        assert forall|j: int| 0 <= j < k - 1 implies !((#[trigger] hits.skip(1)[j]).start <= col
            < hits.skip(1)[j].end) by {
            assert(hits.skip(1)[j] == hits[j + 1]);
        }
        hits_before_are_passed(hits.skip(1), col, k - 1);
        assert(hits.skip(1).skip(k - 1) =~= hits.skip(k));
    }
}

/// A press on the status bar does what the part under the pointer is for: it goes to
/// the window there, it switches synchronous input, it leaves copy mode or it detaches.
pub proof fn pressing_on_the_status_bar(
    s: WmView,
    i: int,
    press: MouseEvent,
    scene: Scene,
    now: u64,
    action: ClickAction,
)
    requires
        active_at(s, i),
        hands_free(s),
        left_press(press),
        !press.modifiers.alt,
        s.status_row == Some(press.row),
        points_at(s, press.col, action),
    ensures
        ({
            let (t, effects, act) = s.moused(press, scene, now);
            &&& act == MouseAct::Nothing
            &&& action matches ClickAction::SelectWindow(k) ==> (k < 256 ==> (t, effects)
                == s.commanded(Command::SelectWindow(k as u8), now))
            &&& action == ClickAction::ToggleSyncPanes ==> (t, effects) == s.commanded(
                Command::ToggleSyncPanes,
                now,
            )
            &&& action == ClickAction::ExitCopyMode ==> t == s && effects == seq![
                Effect::LeaveCopyMode(s.windows[i].active),
                Effect::Wake,
            ]
            &&& action == ClickAction::Detach ==> t == (WmView { detach_requested: true, ..s })
                && effects == seq![Effect::Wake]
            &&& action == ClickAction::NoOp ==> t == s && effects == Seq::<Effect>::empty()
        }),
{
    hits_are_found(s, press.col, action);
    slots_are_unique(s.windows, s.next_pane, s.next_window, i);
}

/// The pointer is on a pane of the active window at place `i`, and not on anything that
/// comes before it.
pub open spec fn on_pane(s: WmView, i: int, event: MouseEvent, scene: Scene, h: PaneHit) -> bool {
    &&& active_at(s, i)
    &&& hands_free(s)
    &&& s.status_row != Some(event.row)
    &&& event.row >= s.row_offset
    &&& scene.hit == Some(h)
    &&& exists|k: int| 0 <= k < s.windows[i].panes.len() && #[trigger] s.windows[i].panes[k].id
        == h.pane
    &&& left_press(event) ==> scene.border is None
}

proof fn the_pane_is_found(s: WmView, i: int, event: MouseEvent, scene: Scene, h: PaneHit)
    requires
        on_pane(s, i, event, scene, h),
    ensures
        s.here() == i,
        s.window() == s.windows[i],
        s.pane_under(scene) == Some(h.pane),
        s.windows[i].wf(),
{
    slots_are_unique(s.windows, s.next_pane, s.next_window, i);
    place_is_found(s.windows[i].panes, h.pane);
    assert(s.windows[i].wf());
}

/// Where the pointer is in the pane, in cells.
pub open spec fn in_pane(s: WmView, event: MouseEvent, h: PaneHit, row: u16, col: u16) -> bool {
    event.row == s.row_offset + h.rect.row + row && event.col == h.rect.col + col
}

/// With Alt a press takes hold of the pane, whatever its program wants. Dropped on
/// another pane of the window, the two are exchanged and the one that was dragged is
/// active; let go elsewhere, nothing happened.
pub proof fn a_pane_is_dragged(
    s: WmView,
    i: int,
    press: MouseEvent,
    over: MouseEvent,
    release: MouseEvent,
    scene: Scene,
    dropped: Scene,
    h: PaneHit,
    to: PaneHit,
    now: u64,
    k: int,
)
    requires
        on_pane(s, i, press, scene, h),
        left_press(press),
        press.modifiers.alt,
        over.kind == MouseKind::Move,
        release.kind == MouseKind::Release,
        dropped.hit == Some(to),
        0 <= k < s.windows[i].panes.len(),
        to.pane == s.windows[i].panes[k].id,
    ensures
        ({
            let (t, effects, act) = s.moused(press, scene, now);
            let (m, wake, _) = t.moused(over, dropped, now);
            let (u, after, _) = m.moused(release, dropped, now);
            let w = s.windows[i];
            &&& effects == seq![Effect::Wake] && act == MouseAct::Nothing
            &&& only_gestures(s, t) && only_gestures(s, m)
            &&& t.gestures.pane == Some(PaneDrag { source: h.pane, target: None })
            &&& wake == seq![Effect::Wake]
            &&& m.gestures.pane == Some(
                PaneDrag {
                    source: h.pane,
                    target: if to.pane == h.pane {
                        None
                    } else {
                        Some(to.pane)
                    },
                },
            )
            &&& u.gestures == s.gestures
            &&& to.pane == h.pane ==> u == s && after == seq![Effect::Wake]
            &&& to.pane != h.pane ==> {
                &&& u.windows[i].active == h.pane
                &&& u.windows[i].panes == w.panes
                &&& after == seq![
                    Effect::SwapPanes(w.id, h.pane, to.pane),
                    Effect::Focus(w.id, h.pane),
                    Effect::Resize(w.id),
                    Effect::Wake,
                ]
            }
        }),
{
    the_pane_is_found(s, i, press, scene, h);
    place_is_found(s.windows[i].panes, to.pane);
    place_is_found(s.windows[i].panes, h.pane);
}

/// Copy mode takes what happens on its pane, in the coordinates of the pane. A press on
/// another pane focuses it and nothing else. A program that wants the mouse is told, in
/// the coordinates of its pane.
pub proof fn who_gets_the_pointer(
    s: WmView,
    i: int,
    event: MouseEvent,
    scene: Scene,
    h: PaneHit,
    now: u64,
    row: u16,
    col: u16,
)
    requires
        on_pane(s, i, event, scene, h),
        in_pane(s, event, h, row, col),
        !(left_press(event) && event.modifiers.alt),
    ensures
        ({
            let (t, effects, act) = s.moused(event, scene, now);
            let w = s.windows[i];
            let local = MouseEvent { row, col, ..event };
            &&& h.copy_mode ==> {
                &&& effects == Seq::<Effect>::empty()
                &&& only_gestures(s, t)
                &&& act matches MouseAct::CopyMode(pane, e, count) && pane == h.pane && e == local
                    && 1 <= count <= 3
                &&& !left_press(event) ==> t == s && act == MouseAct::CopyMode(h.pane, local, 1)
            }
            &&& !h.copy_mode && left_press(event) && h.pane != w.active ==> {
                &&& act == MouseAct::Nothing
                &&& effects == seq![Effect::Focus(w.id, h.pane), Effect::Wake]
                &&& t.windows[i] == (WindowView {
                    active: h.pane,
                    last: Some(w.active),
                    ..w
                })
                &&& t == (WmView { windows: s.windows.update(i, t.windows[i]), ..s })
            }
            &&& !h.copy_mode && !(left_press(event) && h.pane != w.active) && wants_mouse(h.modes)
                ==> {
                &&& t == s
                &&& effects == Seq::<Effect>::empty()
                &&& act == MouseAct::Send(h.pane, local, encoding_of(h.modes))
            }
        }),
{
    the_pane_is_found(s, i, event, scene, h);
}

/// What a program wants no mouse for: the wheel scrolls the pane under the pointer, and
/// the middle button pastes there.
pub proof fn wheel_and_middle_button(
    s: WmView,
    i: int,
    event: MouseEvent,
    scene: Scene,
    h: PaneHit,
    now: u64,
)
    requires
        on_pane(s, i, event, scene, h),
        !h.copy_mode,
        !wants_mouse(h.modes),
    ensures
        ({
            let (t, effects, act) = s.moused(event, scene, now);
            &&& event.kind matches MouseKind::Wheel(lines) ==> t == s && act == MouseAct::Scroll(
                h.pane,
                lines,
            ) && effects == seq![Effect::Wake]
            &&& event.kind == MouseKind::Press && event.button == MouseButton::Middle ==> t == s
                && act == MouseAct::Paste(h.pane) && effects == seq![Effect::Wake]
            &&& event.kind == MouseKind::Press && event.button == MouseButton::Right ==> t == s
                && act == MouseAct::Nothing
        }),
{
    the_pane_is_found(s, i, event, scene, h);
}

/// A press of the left button begins a selection at the pointer; moving the pointer
/// takes its end along, as far as the pane goes; the release copies what is selected.
/// A press and a release in one place on the live view bring the cursor there.
pub proof fn selecting(
    s: WmView,
    i: int,
    press: MouseEvent,
    over: MouseEvent,
    release: MouseEvent,
    scene: Scene,
    h: PaneHit,
    now: u64,
    row: u16,
    col: u16,
    to_row: u16,
    to_col: u16,
)
    requires
        on_pane(s, i, press, scene, h),
        in_pane(s, press, h, row, col),
        left_press(press),
        !press.modifiers.alt && !press.modifiers.shift,
        h.pane == s.windows[i].active,
        !h.copy_mode && !wants_mouse(h.modes),
        h.prompt is None && h.link is None,
        h.word is None && h.line is None,
        scene.source_rect == Some(h.rect),
        over.kind == MouseKind::Move && over.button == MouseButton::Left,
        s.status_row != Some(over.row),
        over.row >= s.row_offset,
        in_pane(s, over, h, to_row, to_col),
        release.kind == MouseKind::Release && release.button == MouseButton::Left,
        s.status_row != Some(release.row),
        h.rect.rows >= 1 && h.rect.cols >= 1,
    ensures
        ({
            let (t, effects, act) = s.moused(press, scene, now);
            let (m, _, none) = t.moused(over, scene, now);
            let (u, _, end) = m.moused(release, scene, now);
            let (c, _, click) = t.moused(release, scene, now);
            let last_row = if to_row < h.rect.rows {
                to_row
            } else {
                (h.rect.rows - 1) as u16
            };
            let last_col = if to_col < h.rect.cols {
                to_col
            } else {
                (h.rect.cols - 1) as u16
            };
            let swept = Selection {
                source_pane: h.pane,
                anchor_row: row,
                anchor_col: col,
                head_row: last_row,
                head_col: last_col,
            };
            &&& effects == seq![Effect::Wake] && act == MouseAct::Nothing
            &&& only_gestures(s, t) && only_gestures(s, m) && only_gestures(s, u)
            &&& t.gestures.selection == Some(
                Selection {
                    source_pane: h.pane,
                    anchor_row: row,
                    anchor_col: col,
                    head_row: row,
                    head_col: col,
                },
            )
            &&& m.gestures.selection == Some(swept) && none == MouseAct::Nothing
            &&& u.gestures.selection is None && c.gestures.selection is None
            &&& last_row != row || last_col > col + 1 || last_col < col - 1 ==> end
                == MouseAct::Copy(swept)
            &&& h.scroll == 0 ==> click == MouseAct::Reposition(h.pane, row, col)
            &&& h.scroll > 0 ==> click == MouseAct::Nothing
        }),
{
    the_pane_is_found(s, i, press, scene, h);
}

/// Presses in the same place within the time of a double click count up to three; one
/// elsewhere, in another pane or later counts as the first. Two clicks select the word
/// and three the line that is there, and the release copies it.
pub proof fn clicks_are_counted(
    s: WmView,
    i: int,
    press: MouseEvent,
    release: MouseEvent,
    scene: Scene,
    h: PaneHit,
    now: u64,
    before: ClickHistory,
)
    requires
        on_pane(s, i, press, scene, h),
        left_press(press),
        !press.modifiers.alt && !press.modifiers.shift,
        h.pane == s.windows[i].active,
        !h.copy_mode && !wants_mouse(h.modes),
        h.prompt is None && h.link is None,
        s.gestures.click == Some(before),
        1 <= before.count <= 3,
        release.kind == MouseKind::Release && release.button == MouseButton::Left,
        s.status_row != Some(release.row),
    ensures
        ({
            let (t, _, _) = s.moused(press, scene, now);
            let (u, _, end) = t.moused(release, scene, now);
            let row = press.row - s.row_offset;
            let again = before.pane == h.pane && before.row == row && before.col == press.col
                && now < before.at + 400;
            &&& t.gestures.click matches Some(click) && {
                &&& click.pane == h.pane && click.row == row && click.col == press.col
                &&& click.at == now
                &&& !again ==> click.count == 1
                &&& again && before.count == 1 ==> click.count == 2
                &&& again && before.count >= 2 ==> click.count == 3
            }
            &&& again && before.count == 1 && h.word is Some ==> {
                &&& t.gestures.selection == h.word
                &&& !h.word->0.empty() ==> end == MouseAct::Copy(h.word->0)
            }
            &&& again && before.count >= 2 && h.line is Some ==> {
                &&& t.gestures.selection == h.line
                &&& !h.line->0.empty() ==> end == MouseAct::Copy(h.line->0)
            }
            &&& u.gestures.selection is None
        }),
{
    the_pane_is_found(s, i, press, scene, h);
}

/// A press on a prompt of the past scrolls to it, as far as one can; a press on a link
/// opens it; a press with Shift takes the end of the selection there is to the pointer.
pub proof fn pressing_on_something(
    s: WmView,
    i: int,
    press: MouseEvent,
    scene: Scene,
    h: PaneHit,
    now: u64,
    row: u16,
    col: u16,
)
    requires
        on_pane(s, i, press, scene, h),
        in_pane(s, press, h, row, col),
        row < h.rect.rows && col < h.rect.cols,
        left_press(press),
        !press.modifiers.alt,
        h.pane == s.windows[i].active,
        !h.copy_mode && !wants_mouse(h.modes),
    ensures
        ({
            let (t, effects, act) = s.moused(press, scene, now);
            let more = press.modifiers.shift && (s.gestures.selection matches Some(sel)
                && sel.source_pane == h.pane);
            let past = !press.modifiers.shift && !press.modifiers.ctrl && h.scroll > 0 && h.prompt
                is Some;
            &&& effects == seq![Effect::Wake]
            &&& more ==> {
                &&& act == MouseAct::Nothing
                &&& t == (WmView {
                    gestures: Gestures {
                        selection: Some(
                            Selection {
                                head_row: row,
                                head_col: col,
                                ..s.gestures.selection->0
                            },
                        ),
                        ..s.gestures
                    },
                    ..s
                })
            }
            &&& past ==> t == s && (act matches MouseAct::ScrollTo(pane, lines) && pane == h.pane
                && lines <= h.prompt->0.offset && lines <= h.prompt->0.max && (lines
                == h.prompt->0.offset || lines == h.prompt->0.max))
            &&& !more && !past && h.link is Some ==> t == s && act == MouseAct::OpenUrl(h.link->0)
        }),
{
    the_pane_is_found(s, i, press, scene, h);
}

/// Inside the frame of a popup its program is told where the pointer is, counted from
/// the corner inside the frame.
pub proof fn pointing_at_a_popup(
    s: WmView,
    event: MouseEvent,
    scene: Scene,
    now: u64,
    row: u16,
    col: u16,
)
    requires
        s.popup is Some,
        event.row == s.row_offset + scene.popup_rect.row + 1 + row,
        event.col == scene.popup_rect.col + 1 + col,
        row + 2 < scene.popup_rect.rows,
        col + 2 < scene.popup_rect.cols,
        wants_mouse(scene.popup_modes),
    ensures
        s.moused(event, scene, now) == (
            s,
            Seq::<Effect>::empty(),
            MouseAct::Send(
                s.popup->0.pane,
                MouseEvent { row, col, ..event },
                encoding_of(scene.popup_modes),
            ),
        ),
{
}

/// A window that is dropped right of all windows in the status bar, beside anything else
/// there, goes to the end.
pub proof fn a_window_is_dropped_at_the_end(
    s: WmView,
    release: MouseEvent,
    scene: Scene,
    now: u64,
    a: int,
    k: int,
)
    requires
        s.live(),
        s.popup is None,
        0 <= a < s.windows.len() - 1,
        s.windows.len() <= usize::MAX,
        s.gestures.tab == Some(TabDrag { source: s.windows[a].id }),
        release.kind == MouseKind::Release,
        s.status_row == Some(release.row),
        0 <= k < s.hits.len() && s.hits[k].action is SelectWindow,
        forall|j: int|
            0 <= j < s.hits.len() ==> !((#[trigger] s.hits[j]).start <= release.col
                < s.hits[j].end),
        forall|j: int|
            0 <= j < s.hits.len() && (#[trigger] s.hits[j]).action is SelectWindow ==> s.hits[j].end
                <= release.col,
    ensures
        ({
            let u = s.moused(release, scene, now).0;
            &&& u.windows == s.windows.remove(a).push(s.windows[a])
            &&& u.gestures.tab is None
            &&& u.active == s.active
        }),
{
    slots_are_unique(s.windows, s.next_pane, s.next_window, a);
    hits_before_are_passed(s.hits, release.col, s.hits.len() as int);
    assert(s.hits.skip(s.hits.len() as int).len() == 0);
    assert(super::mouse::hit_at(s.hits, release.col) is None);
    assert(s.hits[k].action is SelectWindow);
    assert(super::mouse::right_of_tabs(s.hits, release.col));
    let n = s.windows.len() as int;
    assert(s.windows.remove(a).insert(n - 1, s.windows[a]) =~= s.windows.remove(a).push(
        s.windows[a],
    ));
}

} // verus!
