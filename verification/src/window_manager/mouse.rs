//! What the mouse does.
use super::pointer::{encoding_of, mouse_encoding_for, wants_mouse};
use super::state::{
    slot_is_found, slot_of, ClickHistory, Gestures, PaneDrag, ResizeDrag, TabDrag, WmView,
};
use super::structure::touching_keeps_wf;
use super::types::{
    BorderHit, BorderSide, ClickAction, Command, Effect, MouseButton, MouseEncoding, MouseEvent,
    MouseKind, PaneId, Rect, Selection, Severity, StatusHit, WindowId,
};

use super::WindowManager;
use crate::modes::Modes;
use vstd::prelude::*;
use vstd::string::StringExecFns;

verus! {

broadcast use super::window::group_windows;

/// The time within which a second press is a double click, in milliseconds.
pub const MULTI_CLICK: u64 = 400;

/// A prompt in a pane: how far to scroll back to have it on top, and how far one can
/// scroll.
#[derive(Debug, Clone, Copy, PartialEq, Eq, Structural)]
pub struct PromptJump {
    pub offset: u32,
    pub max: u32,
}

impl PromptJump {
    /// How far to scroll back: to the prompt, or as far as one can.
    pub open spec fn target(self) -> u32 {
        if self.offset < self.max {
            self.offset
        } else {
            self.max
        }
    }
}

/// What is known of the pane under the pointer.
#[derive(Debug)]
pub struct PaneHit {
    pub pane: PaneId,
    pub rect: Rect,
    pub copy_mode: bool,
    pub modes: Modes,
    /// How far the pane is scrolled back.
    pub scroll: u32,
    /// The prompt under the pointer.
    pub prompt: Option<PromptJump>,
    /// The target of the link under the pointer.
    pub link: Option<String>,
    /// The word under the pointer.
    pub word: Option<Selection>,
    /// The line under the pointer.
    pub line: Option<Selection>,
}

/// What is under the pointer, in the coordinates of the pane band.
#[derive(Debug)]
pub struct Scene {
    /// The frame of the popup.
    pub popup_rect: Rect,
    /// The modes of the program in the popup.
    pub popup_modes: Modes,
    pub border: Option<BorderHit>,
    pub hit: Option<PaneHit>,
    /// The place of the pane in which the selection began.
    pub source_rect: Option<Rect>,
}

/// What is to be done with a pane after a mouse event.
#[derive(Debug, PartialEq, Eq)]
pub enum MouseAct {
    Nothing,
    /// Tell the program in a pane.
    Send(PaneId, MouseEvent, MouseEncoding),
    /// Tell the copy mode of a pane, with the number of clicks. What it did has effects
    /// of its own.
    CopyMode(PaneId, MouseEvent, u8),
    /// Move a border by a number of cells. To be reported.
    AdjustBorder(WindowId, PaneId, BorderSide, i32),
    /// Scroll back to a prompt, by a number of lines from the end.
    ScrollTo(PaneId, u32),
    /// Scroll by a number of lines; back is positive.
    Scroll(PaneId, i16),
    OpenUrl(String),
    /// Paste the clipboard.
    Paste(PaneId),
    /// Bring the cursor of the shell to a place.
    Reposition(PaneId, u16, u16),
    /// Copy a selection to the clipboard.
    Copy(Selection),
}

/// What follows from a mouse event.
#[derive(Debug)]
pub struct MouseOutcome {
    pub effects: Vec<Effect>,
    pub act: MouseAct,
}

pub open spec fn left_press(event: MouseEvent) -> bool {
    event.kind == MouseKind::Press && event.button == MouseButton::Left
}

fn is_left_press(event: MouseEvent) -> (r: bool)
    ensures
        r == left_press(event),
{
    event.kind == MouseKind::Press && event.button == MouseButton::Left
}

/// The first part of the status bar at a column.
pub open spec fn hit_at(hits: Seq<StatusHit>, col: u16) -> Option<ClickAction>
    decreases hits.len(),
{
    if hits.len() == 0 {
        None
    } else if hits[0].start <= col < hits[0].end {
        Some(hits[0].action)
    } else {
        hit_at(hits.skip(1), col)
    }
}

/// Whether a column is right of all windows in the status bar, of which there are some.
pub open spec fn right_of_tabs(hits: Seq<StatusHit>, col: u16) -> bool {
    &&& exists|i: int| 0 <= i < hits.len() && (#[trigger] hits[i]).action is SelectWindow
    &&& forall|i: int|
        0 <= i < hits.len() && (#[trigger] hits[i]).action is SelectWindow ==> col >= hits[i].end
}

/// Where a window that is dropped on the status bar goes; nowhere, if it is dropped
/// beside the windows there.
pub open spec fn drop_place(hits: Seq<StatusHit>, col: u16) -> Option<usize> {
    match hit_at(hits, col) {
        Some(ClickAction::SelectWindow(i)) => Some(i),
        _ => if right_of_tabs(hits, col) {
            Some(usize::MAX)
        } else {
            None
        },
    }
}

/// The number of clicks that a press makes, with the presses before it.
pub open spec fn click_count(
    last: Option<ClickHistory>,
    pane: PaneId,
    event: MouseEvent,
    now: u64,
) -> u8 {
    match last {
        Some(h) => if h.pane == pane && h.row == event.row && h.col == event.col && now - h.at
            < MULTI_CLICK {
            if h.count >= 2 {
                3
            } else {
                (h.count + 1) as u8
            }
        } else {
            1
        },
        None => 1,
    }
}

/// A number of cells added to a coordinate, as far as there are coordinates.
pub open spec fn stepped(x: u16, by: i32) -> u16 {
    if x + by < 0 {
        0
    } else if x + by > u16::MAX {
        u16::MAX
    } else {
        (x + by) as u16
    }
}

impl WmView {
    /// A press counted. Other events are one click.
    pub open spec fn click_classified(self, pane: PaneId, event: MouseEvent, now: u64) -> (
        WmView,
        u8,
    ) {
        if left_press(event) {
            let count = click_count(self.gestures.click, pane, event, now);
            let click = Some(
                ClickHistory { pane, row: event.row, col: event.col, at: now, count },
            );
            (
                WmView {
                    gestures: Gestures { click, ..self.gestures },
                    ..self
                },
                count,
            )
        } else {
            (self, 1)
        }
    }

    /// A popup takes all events. Those inside its frame go to its program, if that
    /// wants them.
    pub open spec fn popup_moused(self, pane: PaneId, e: MouseEvent, scene: Scene) -> MouseAct {
        let rect = scene.popup_rect;
        if rect.inside(e.row, e.col) && wants_mouse(scene.popup_modes) {
            MouseAct::Send(
                pane,
                MouseEvent {
                    row: (e.row - rect.row - 1) as u16,
                    col: (e.col - rect.col - 1) as u16,
                    ..e
                },
                encoding_of(scene.popup_modes),
            )
        } else {
            MouseAct::Nothing
        }
    }

    /// A window that is dragged takes all events. Where it is dropped on the status
    /// bar, it is moved.
    pub open spec fn tab_dragged(self, drag: TabDrag, event: MouseEvent) -> (WmView, Seq<Effect>) {
        if event.kind == MouseKind::Release {
            let s = WmView {
                gestures: Gestures { tab: None, ..self.gestures },
                ..self
            };
            let to = if self.status_row == Some(event.row) {
                drop_place(self.hits, event.col)
            } else {
                None
            };
            let t = match to {
                Some(to) => match slot_of(self.windows, drag.source) {
                    Some(from) => match s.window_moved(from, to as int) {
                        Some(t) => t,
                        None => s,
                    },
                    None => s,
                },
                None => s,
            };
            (t, seq![Effect::Wake])
        } else {
            (self, Seq::empty())
        }
    }

    /// A border that is dragged takes all events.
    pub open spec fn border_dragged(self, drag: ResizeDrag, e: MouseEvent) -> (
        WmView,
        Seq<Effect>,
        MouseAct,
    ) {
        let w = self.window();
        match e.kind {
            MouseKind::Move => {
                let delta = match drag.side {
                    BorderSide::Right => e.col - drag.last_col,
                    BorderSide::Bottom => e.row - drag.last_row,
                };
                (
                    self,
                    Seq::empty(),
                    if delta == 0 {
                        MouseAct::Nothing
                    } else {
                        MouseAct::AdjustBorder(w.id, drag.adjacent_pane, drag.side, delta as i32)
                    },
                )
            },
            MouseKind::Release => (
                WmView {
                    gestures: Gestures { resize: None, ..self.gestures },
                    ..self
                },
                seq![Effect::Resize(w.id), Effect::Wake],
                MouseAct::Nothing,
            ),
            _ => (self, Seq::empty(), MouseAct::Nothing),
        }
    }

    /// What follows from a border that was moved. The drag goes on from there: a border
    /// that could not follow the pointer does not slip.
    pub open spec fn border_reported(self, applied: i32) -> (WmView, Seq<Effect>) {
        match self.gestures.resize {
            Some(drag) => if applied == 0 {
                (self, Seq::empty())
            } else {
                let next = match drag.side {
                    BorderSide::Right => ResizeDrag {
                        last_col: stepped(drag.last_col, applied),
                        ..drag
                    },
                    BorderSide::Bottom => ResizeDrag {
                        last_row: stepped(drag.last_row, applied),
                        ..drag
                    },
                };
                (
                    WmView {
                        gestures: Gestures { resize: Some(next), ..self.gestures },
                        ..self
                    },
                    seq![Effect::Resize(self.window().id), Effect::Wake],
                )
            },
            None => (self, Seq::empty()),
        }
    }

    /// The pane under the pointer, if it is one of the active window.
    pub open spec fn pane_under(self, scene: Scene) -> Option<PaneId> {
        match scene.hit {
            Some(h) => if self.window().holds(h.pane) {
                Some(h.pane)
            } else {
                None
            },
            None => None,
        }
    }

    /// A pane that is dragged takes all events. Where it is dropped on another, the two
    /// are exchanged, and it stays active.
    pub open spec fn pane_dragged(self, drag: PaneDrag, e: MouseEvent, scene: Scene) -> (
        WmView,
        Seq<Effect>,
    ) {
        let w = self.window();
        let target = match self.pane_under(scene) {
            Some(p) => if p == drag.source {
                None
            } else {
                Some(p)
            },
            None => None,
        };
        match e.kind {
            MouseKind::Move => (
                WmView {
                    gestures: Gestures {
                        pane: Some(PaneDrag { target, ..drag }),
                        ..self.gestures
                    },
                    ..self
                },
                seq![Effect::Wake],
            ),
            MouseKind::Release => {
                let s = WmView {
                    gestures: Gestures { pane: None, ..self.gestures },
                    ..self
                };
                match target {
                    Some(p) => if w.holds(drag.source) {
                        (
                            s.with_active(w.focused(drag.source)),
                            seq![
                                Effect::SwapPanes(w.id, drag.source, p),
                                Effect::Focus(w.id, drag.source),
                                Effect::Resize(w.id),
                                Effect::Wake,
                            ],
                        )
                    } else {
                        (s, seq![Effect::Wake])
                    },
                    None => (s, seq![Effect::Wake]),
                }
            },
            _ => (self, Seq::empty()),
        }
    }

    /// A press on the status bar. With Alt it takes hold of a window.
    pub open spec fn status_pressed(self, event: MouseEvent, now: u64) -> (WmView, Seq<Effect>) {
        match hit_at(self.hits, event.col) {
            Some(ClickAction::SelectWindow(i)) => if event.modifiers.alt {
                if i < self.windows.len() {
                    (
                        WmView {
                            gestures: Gestures {
                                tab: Some(TabDrag { source: self.windows[i as int].id }),
                                ..self.gestures
                            },
                            ..self
                        },
                        seq![Effect::Wake],
                    )
                } else {
                    (self, Seq::empty())
                }
            } else {
                self.commanded(
                    Command::SelectWindow(
                        if i <= u8::MAX {
                            i as u8
                        } else {
                            u8::MAX
                        },
                    ),
                    now,
                )
            },
            Some(ClickAction::ToggleSyncPanes) => self.commanded(Command::ToggleSyncPanes, now),
            Some(ClickAction::ExitCopyMode) => (
                self,
                seq![Effect::LeaveCopyMode(self.window().active), Effect::Wake],
            ),
            Some(ClickAction::Detach) => (
                WmView { detach_requested: true, ..self },
                seq![Effect::Wake],
            ),
            _ => (self, Seq::empty()),
        }
    }

    /// A press on the active pane.
    pub open spec fn pane_pressed(self, e: MouseEvent, h: PaneHit, now: u64) -> (
        WmView,
        MouseAct,
    ) {
        let at = e.within(h.rect);
        if e.modifiers.shift && (self.gestures.selection matches Some(sel) && sel.source_pane
            == h.pane) {
            (
                WmView {
                    gestures: Gestures {
                        selection: Some(
                            self.gestures.selection->0.extended(at.row, at.col, h.rect),
                        ),
                        ..self.gestures
                    },
                    ..self
                },
                MouseAct::Nothing,
            )
        } else if !e.modifiers.shift && !e.modifiers.alt && !e.modifiers.ctrl && h.scroll > 0
            && h.prompt is Some {
            (self, MouseAct::ScrollTo(h.pane, h.prompt->0.target()))
        } else if h.link is Some {
            (self, MouseAct::OpenUrl(h.link->0))
        } else {
            let (s, count) = self.click_classified(h.pane, e, now);
            let more = if count >= 3 {
                h.line
            } else if count == 2 {
                h.word
            } else {
                None
            };
            (
                WmView {
                    gestures: Gestures {
                        selection: Some(
                            match more {
                                Some(sel) => sel,
                                None => Selection::at(h.pane, at.row, at.col),
                            },
                        ),
                        press_scroll: h.scroll,
                        word_line: more is Some,
                        ..s.gestures
                    },
                    ..s
                },
                MouseAct::Nothing,
            )
        }
    }

    /// The left button released: the end of a selection or of a click. A click on the
    /// live view brings the cursor there; a word or a line is copied however short.
    pub open spec fn pane_released(self) -> (WmView, MouseAct) {
        match self.gestures.selection {
            Some(sel) => (
                WmView {
                    gestures: Gestures { selection: None, ..self.gestures },
                    ..self
                },
                if sel.clicked() && !self.gestures.word_line && self.gestures.press_scroll == 0 {
                    MouseAct::Reposition(sel.source_pane, sel.anchor_row, sel.anchor_col)
                } else if sel.empty() {
                    MouseAct::Nothing
                } else {
                    MouseAct::Copy(sel)
                },
            ),
            None => (self, MouseAct::Nothing),
        }
    }

    /// The pointer moved with the left button down.
    pub open spec fn pane_swept(self, e: MouseEvent, rect: Option<Rect>) -> WmView {
        match self.gestures.selection {
            Some(sel) => match rect {
                Some(rect) => {
                    let at = e.within(rect);
                    WmView {
                        gestures: Gestures {
                            selection: Some(sel.extended(at.row, at.col, rect)),
                            ..self.gestures
                        },
                        ..self
                    }
                },
                None => self,
            },
            None => self,
        }
    }

    /// An event on a pane whose program does not want it.
    pub open spec fn pane_default(
        self,
        e: MouseEvent,
        source_rect: Option<Rect>,
        h: PaneHit,
        now: u64,
    ) -> (WmView, Seq<Effect>, MouseAct) {
        let (s, act) = match e.kind {
            MouseKind::Press => match e.button {
                MouseButton::Left => self.pane_pressed(e, h, now),
                MouseButton::Middle => (self, MouseAct::Paste(h.pane)),
                _ => (self, MouseAct::Nothing),
            },
            MouseKind::Release => if e.button == MouseButton::Left {
                self.pane_released()
            } else {
                (self, MouseAct::Nothing)
            },
            MouseKind::Move => if e.button == MouseButton::Left {
                (self.pane_swept(e, source_rect), MouseAct::Nothing)
            } else {
                (self, MouseAct::Nothing)
            },
            MouseKind::Wheel(delta) => (self, MouseAct::Scroll(h.pane, delta)),
        };
        (s, seq![Effect::Wake], act)
    }

    /// An event on a pane of the active window.
    pub open spec fn pane_moused(
        self,
        e: MouseEvent,
        source_rect: Option<Rect>,
        h: PaneHit,
        now: u64,
    ) -> (WmView, Seq<Effect>, MouseAct) {
        let w = self.window();
        if left_press(e) && e.modifiers.alt {
            (
                WmView {
                    gestures: Gestures {
                        pane: Some(PaneDrag { source: h.pane, target: None }),
                        ..self.gestures
                    },
                    ..self
                },
                seq![Effect::Wake],
                MouseAct::Nothing,
            )
        } else if h.copy_mode {
            let (s, count) = self.click_classified(h.pane, e, now);
            (s, Seq::empty(), MouseAct::CopyMode(h.pane, e.within(h.rect), count))
        } else if left_press(e) && h.pane != w.active {
            (
                self.with_active(w.focused(h.pane)),
                seq![Effect::Focus(w.id, h.pane), Effect::Wake],
                MouseAct::Nothing,
            )
        } else if wants_mouse(h.modes) {
            (
                self,
                Seq::empty(),
                MouseAct::Send(h.pane, e.within(h.rect), encoding_of(h.modes)),
            )
        } else {
            self.pane_default(e, source_rect, h, now)
        }
    }

    /// What a mouse event does. It goes to the first that takes it: the popup, what is
    /// dragged, the status bar, a border, a pane.
    pub open spec fn moused(self, event: MouseEvent, scene: Scene, now: u64) -> (
        WmView,
        Seq<Effect>,
        MouseAct,
    ) {
        let e = event.below(self.row_offset);
        if self.popup is Some {
            (self, Seq::empty(), self.popup_moused(self.popup->0.pane, e, scene))
        } else if self.gestures.tab is Some {
            let (s, effects) = self.tab_dragged(self.gestures.tab->0, event);
            (s, effects, MouseAct::Nothing)
        } else if self.gestures.resize is Some {
            self.border_dragged(self.gestures.resize->0, e)
        } else if self.gestures.pane is Some {
            let (s, effects) = self.pane_dragged(self.gestures.pane->0, e, scene);
            (s, effects, MouseAct::Nothing)
        } else if self.status_row == Some(event.row) {
            if left_press(event) {
                let (s, effects) = self.status_pressed(event, now);
                (s, effects, MouseAct::Nothing)
            } else {
                (self, Seq::empty(), MouseAct::Nothing)
            }
        } else if left_press(e) && scene.border is Some {
            let hit = scene.border->0;
            (
                WmView {
                    gestures: Gestures {
                        resize: Some(
                            ResizeDrag {
                                adjacent_pane: hit.adjacent_pane,
                                side: hit.side,
                                last_row: e.row,
                                last_col: e.col,
                            },
                        ),
                        ..self.gestures
                    },
                    ..self
                },
                Seq::empty(),
                MouseAct::Nothing,
            )
        } else if self.pane_under(scene) is Some {
            self.pane_moused(e, scene.source_rect, scene.hit->0, now)
        } else {
            (self, Seq::empty(), MouseAct::Nothing)
        }
    }
}

/// The first part of the status bar at a column.
fn find_hit(hits: &Vec<StatusHit>, col: u16) -> (r: Option<ClickAction>)
    ensures
        r == hit_at(hits@, col),
{
    let mut i: usize = 0;
    assert(hits@.skip(0) =~= hits@);
    while i < hits.len()
        invariant
            i <= hits.len(),
            hit_at(hits@, col) == hit_at(hits@.skip(i as int), col),
        decreases hits.len() - i,
    {
        assert(hits@.skip(i as int).skip(1) =~= hits@.skip(i + 1));
        if hits[i].start <= col && col < hits[i].end {
            return Some(hits[i].action);
        }
        i += 1;
    }
    None
}

fn is_right_of_tabs(hits: &Vec<StatusHit>, col: u16) -> (r: bool)
    ensures
        r == right_of_tabs(hits@, col),
{
    let mut any: bool = false;
    let mut i: usize = 0;
    while i < hits.len()
        invariant
            i <= hits.len(),
            any == exists|k: int|
                0 <= k < i && (#[trigger] hits@[k]).action is SelectWindow,
            forall|k: int|
                0 <= k < i && (#[trigger] hits@[k]).action is SelectWindow ==> col
                    >= hits@[k].end,
        decreases hits.len() - i,
    {
        match hits[i].action {
            ClickAction::SelectWindow(_) => {
                assert(hits@[i as int].action is SelectWindow);
                any = true;
                if col < hits[i].end {
                    return false;
                }
            },
            _ => {},
        }
        i += 1;
    }
    any
}

fn find_drop_place(hits: &Vec<StatusHit>, col: u16) -> (r: Option<usize>)
    ensures
        r == drop_place(hits@, col),
{
    match find_hit(hits, col) {
        Some(ClickAction::SelectWindow(i)) => Some(i),
        _ => if is_right_of_tabs(hits, col) {
            Some(usize::MAX)
        } else {
            None
        },
    }
}

fn step(x: u16, by: i32) -> (r: u16)
    ensures
        r == stepped(x, by),
{
    let sum: i64 = x as i64 + by as i64;
    if sum < 0 {
        0
    } else if sum > 65535 {
        u16::MAX
    } else {
        sum as u16
    }
}

fn no_effect(act: MouseAct) -> (r: MouseOutcome)
    ensures
        r.effects@ == Seq::<Effect>::empty(),
        r.act == act,
{
    let effects: Vec<Effect> = Vec::new();
    assert(effects@ =~= Seq::empty());
    MouseOutcome { effects, act }
}

fn wake(act: MouseAct) -> (r: MouseOutcome)
    ensures
        r.effects@ == seq![Effect::Wake],
        r.act == act,
{
    let mut effects: Vec<Effect> = Vec::new();
    effects.push(Effect::Wake);
    assert(effects@ =~= seq![Effect::Wake]);
    MouseOutcome { effects, act }
}

fn wake_after(a: Effect) -> (r: MouseOutcome)
    ensures
        r.effects@ == seq![a, Effect::Wake],
        r.act == MouseAct::Nothing,
{
    let mut effects: Vec<Effect> = Vec::new();
    effects.push(a);
    effects.push(Effect::Wake);
    assert(effects@ =~= seq![a, Effect::Wake]);
    MouseOutcome { effects, act: MouseAct::Nothing }
}

impl WindowManager {
    /// The event in the coordinates of the pane band.
    pub fn to_pane_coords(&self, event: MouseEvent) -> (r: MouseEvent)
        ensures
            r == event.below(self@.row_offset),
    {
        MouseEvent { row: event.row.saturating_sub(self.row_offset), ..event }
    }

    /// Counts a press of the left button: 1, 2 or 3 in the same place in short
    /// succession. Other events count as 1 and are not remembered.
    pub fn classify_click_count(&mut self, pane: PaneId, event: MouseEvent, now: u64) -> (r: u8)
        ensures
            (final(self)@, r) == old(self)@.click_classified(pane, event, now),
            old(self)@.live() ==> final(self)@.live(),
    {
        if !is_left_press(event) {
            return 1;
        }
        let count: u8 = match self.gestures.click {
            Some(h) => {
                let soon: bool = now < h.at || now - h.at < MULTI_CLICK;
                if h.pane == pane && h.row == event.row && h.col == event.col && soon {
                    if h.count >= 2 {
                        3
                    } else {
                        h.count + 1
                    }
                } else {
                    1
                }
            },
            None => 1,
        };
        self.gestures.click = Some(
            ClickHistory { pane, row: event.row, col: event.col, at: now, count },
        );
        count
    }

    fn drag_tab(&mut self, drag: TabDrag, event: MouseEvent) -> (r: MouseOutcome)
        requires
            old(self)@.live(),
        ensures
            (final(self)@, r.effects@) == old(self)@.tab_dragged(drag, event),
            r.act == MouseAct::Nothing,
            final(self)@.live(),
    {
        if event.kind != MouseKind::Release {
            return no_effect(MouseAct::Nothing);
        }
        self.gestures.tab = None;
        if self.status_row == Some(event.row) {
            match find_drop_place(&self.hits, event.col) {
                Some(to) => {
                    let moved: bool = self.move_window_by_id(drag.source, to);
                },
                None => {},
            }
        }
        wake(MouseAct::Nothing)
    }

    fn drag_border(&mut self, drag: ResizeDrag, e: MouseEvent) -> (r: MouseOutcome)
        requires
            old(self)@.live(),
        ensures
            (final(self)@, r.effects@, r.act) == old(self)@.border_dragged(drag, e),
            final(self)@.live(),
    {
        let id: WindowId = self.active_window().id;
        match e.kind {
            MouseKind::Move => {
                let delta: i32 = match drag.side {
                    BorderSide::Right => e.col as i32 - drag.last_col as i32,
                    BorderSide::Bottom => e.row as i32 - drag.last_row as i32,
                };
                if delta == 0 {
                    no_effect(MouseAct::Nothing)
                } else {
                    no_effect(MouseAct::AdjustBorder(id, drag.adjacent_pane, drag.side, delta))
                }
            },
            MouseKind::Release => {
                self.gestures.resize = None;
                wake_after(Effect::Resize(id))
            },
            _ => no_effect(MouseAct::Nothing),
        }
    }

    /// Reports by how many cells a dragged border moved.
    pub fn report_border(&mut self, applied: i32) -> (effects: Vec<Effect>)
        requires
            old(self)@.live(),
        ensures
            (final(self)@, effects@) == old(self)@.border_reported(applied),
            final(self)@.live(),
    {
        match self.gestures.resize {
            Some(drag) => {
                if applied == 0 {
                    return no_effect(MouseAct::Nothing).effects;
                }
                let next: ResizeDrag = match drag.side {
                    BorderSide::Right => ResizeDrag {
                        last_col: step(drag.last_col, applied),
                        ..drag
                    },
                    BorderSide::Bottom => ResizeDrag {
                        last_row: step(drag.last_row, applied),
                        ..drag
                    },
                };
                self.gestures.resize = Some(next);
                wake_after(Effect::Resize(self.active_window().id)).effects
            },
            None => no_effect(MouseAct::Nothing).effects,
        }
    }

    /// Reports that a selection was copied.
    pub fn report_copied(&mut self, now: u64)
        ensures
            final(self)@ == old(self)@.told("copied"@, Severity::Success, now),
    {
        self.set_status_message(String::from_str("copied"), Severity::Success, now);
    }

    fn focus_here(&mut self, pane: PaneId)
        requires
            old(self)@.live(),
            old(self)@.window().holds(pane),
        ensures
            final(self)@ == old(self)@.with_active(old(self)@.window().focused(pane)),
            final(self)@.live(),
    {
        let ghost before = self@;
        let i: usize = self.active_idx();
        self.windows[i].focus(pane);
        proof {
            slot_is_found(before.windows, before.active);
            let w = before.window().focused(pane);
            assert(before.windows[i as int].wf());
            touching_keeps_wf(before, i as int, w);
            assert(self@.windows =~= before.windows.update(i as int, w));
        }
    }

    fn drag_pane(&mut self, drag: PaneDrag, e: MouseEvent, scene: &Scene) -> (r: MouseOutcome)
        requires
            old(self)@.live(),
        ensures
            (final(self)@, r.effects@) == old(self)@.pane_dragged(drag, e, *scene),
            r.act == MouseAct::Nothing,
            final(self)@.live(),
    {
        let ghost before = self@;
        let target: Option<PaneId> = match &scene.hit {
            Some(h) => if h.pane != drag.source && self.active_window().holds(h.pane) {
                Some(h.pane)
            } else {
                None
            },
            None => None,
        };
        match e.kind {
            MouseKind::Move => {
                self.gestures.pane = Some(PaneDrag { target, ..drag });
                wake(MouseAct::Nothing)
            },
            MouseKind::Release => {
                self.gestures.pane = None;
                let id: WindowId = self.active_window().id;
                let there: bool = self.active_window().holds(drag.source);
                match target {
                    Some(p) => {
                        if there {
                            self.focus_here(drag.source);
                            let mut effects: Vec<Effect> = Vec::new();
                            effects.push(Effect::SwapPanes(id, drag.source, p));
                            effects.push(Effect::Focus(id, drag.source));
                            effects.push(Effect::Resize(id));
                            effects.push(Effect::Wake);
                            assert(effects@ =~= before.pane_dragged(drag, e, *scene).1);
                            MouseOutcome { effects, act: MouseAct::Nothing }
                        } else {
                            wake(MouseAct::Nothing)
                        }
                    },
                    None => wake(MouseAct::Nothing),
                }
            },
            _ => no_effect(MouseAct::Nothing),
        }
    }

    fn press_status(&mut self, event: MouseEvent, now: u64) -> (r: MouseOutcome)
        requires
            old(self)@.live(),
        ensures
            (final(self)@, r.effects@) == old(self)@.status_pressed(event, now),
            r.act == MouseAct::Nothing,
            final(self)@.wf(),
    {
        match find_hit(&self.hits, event.col) {
            Some(ClickAction::SelectWindow(i)) => {
                if event.modifiers.alt {
                    if i < self.windows.len() {
                        self.gestures.tab = Some(TabDrag { source: self.windows[i].id });
                        wake(MouseAct::Nothing)
                    } else {
                        no_effect(MouseAct::Nothing)
                    }
                } else {
                    let n: u8 = if i <= 255 {
                        i as u8
                    } else {
                        u8::MAX
                    };
                    let effects: Vec<Effect> = self.handle_command(Command::SelectWindow(n), now);
                    MouseOutcome { effects, act: MouseAct::Nothing }
                }
            },
            Some(ClickAction::ToggleSyncPanes) => {
                let effects: Vec<Effect> = self.handle_command(Command::ToggleSyncPanes, now);
                MouseOutcome { effects, act: MouseAct::Nothing }
            },
            Some(ClickAction::ExitCopyMode) => {
                wake_after(Effect::LeaveCopyMode(self.active_window().active))
            },
            Some(ClickAction::Detach) => {
                self.detach_requested = true;
                wake(MouseAct::Nothing)
            },
            _ => no_effect(MouseAct::Nothing),
        }
    }

    fn press_pane(&mut self, e: MouseEvent, h: PaneHit, now: u64) -> (act: MouseAct)
        requires
            old(self)@.live(),
        ensures
            (final(self)@, act) == old(self)@.pane_pressed(e, h, now),
            final(self)@.live(),
    {
        let at: MouseEvent = e.local_to(h.rect);
        match self.gestures.selection {
            Some(sel) => {
                if e.modifiers.shift && sel.source_pane == h.pane {
                    let mut sel: Selection = sel;
                    sel.extend(at.row, at.col, h.rect);
                    self.gestures.selection = Some(sel);
                    return MouseAct::Nothing;
                }
            },
            None => {},
        }
        if !e.modifiers.shift && !e.modifiers.alt && !e.modifiers.ctrl && h.scroll > 0 {
            match h.prompt {
                Some(jump) => {
                    let target: u32 = if jump.offset < jump.max {
                        jump.offset
                    } else {
                        jump.max
                    };
                    return MouseAct::ScrollTo(h.pane, target);
                },
                None => {},
            }
        }
        match h.link {
            Some(url) => {
                return MouseAct::OpenUrl(url);
            },
            None => {},
        }
        let count: u8 = self.classify_click_count(h.pane, e, now);
        let more: Option<Selection> = if count >= 3 {
            h.line
        } else if count == 2 {
            h.word
        } else {
            None
        };
        self.gestures.word_line = more.is_some();
        self.gestures.press_scroll = h.scroll;
        self.gestures.selection = Some(
            match more {
                Some(sel) => sel,
                None => Selection::start(h.pane, at.row, at.col),
            },
        );
        MouseAct::Nothing
    }

    fn release_pane(&mut self) -> (act: MouseAct)
        requires
            old(self)@.live(),
        ensures
            (final(self)@, act) == old(self)@.pane_released(),
            final(self)@.live(),
    {
        let sel: Selection = match self.gestures.selection {
            Some(sel) => sel,
            None => {
                return MouseAct::Nothing;
            },
        };
        self.gestures.selection = None;
        if sel.is_click() && !self.gestures.word_line && self.gestures.press_scroll == 0 {
            MouseAct::Reposition(sel.source_pane, sel.anchor_row, sel.anchor_col)
        } else if sel.is_empty() {
            MouseAct::Nothing
        } else {
            MouseAct::Copy(sel)
        }
    }

    fn sweep_pane(&mut self, e: MouseEvent, rect: Option<Rect>)
        requires
            old(self)@.live(),
        ensures
            final(self)@ == old(self)@.pane_swept(e, rect),
            final(self)@.live(),
    {
        match self.gestures.selection {
            Some(sel) => {
                match rect {
                    Some(rect) => {
                        let at: MouseEvent = e.local_to(rect);
                        let mut sel: Selection = sel;
                        sel.extend(at.row, at.col, rect);
                        self.gestures.selection = Some(sel);
                    },
                    None => {},
                }
            },
            None => {},
        }
    }

    fn default_on_pane(
        &mut self,
        e: MouseEvent,
        source_rect: Option<Rect>,
        h: PaneHit,
        now: u64,
    ) -> (r: MouseOutcome)
        requires
            old(self)@.live(),
        ensures
            (final(self)@, r.effects@, r.act) == old(self)@.pane_default(e, source_rect, h, now),
            final(self)@.live(),
    {
        let act: MouseAct = match e.kind {
            MouseKind::Press => match e.button {
                MouseButton::Left => self.press_pane(e, h, now),
                MouseButton::Middle => MouseAct::Paste(h.pane),
                _ => MouseAct::Nothing,
            },
            MouseKind::Release => {
                if e.button == MouseButton::Left {
                    self.release_pane()
                } else {
                    MouseAct::Nothing
                }
            },
            MouseKind::Move => {
                if e.button == MouseButton::Left {
                    self.sweep_pane(e, source_rect);
                }
                MouseAct::Nothing
            },
            MouseKind::Wheel(delta) => MouseAct::Scroll(h.pane, delta),
        };
        wake(act)
    }

    fn mouse_on_pane(
        &mut self,
        e: MouseEvent,
        source_rect: Option<Rect>,
        h: PaneHit,
        now: u64,
    ) -> (r: MouseOutcome)
        requires
            old(self)@.live(),
            old(self)@.window().holds(h.pane),
        ensures
            (final(self)@, r.effects@, r.act) == old(self)@.pane_moused(e, source_rect, h, now),
            final(self)@.live(),
    {
        let (id, active): (WindowId, PaneId) = {
            let w = self.active_window();
            (w.id, w.active)
        };
        if is_left_press(e) && e.modifiers.alt {
            self.gestures.pane = Some(PaneDrag { source: h.pane, target: None });
            wake(MouseAct::Nothing)
        } else if h.copy_mode {
            let count: u8 = self.classify_click_count(h.pane, e, now);
            no_effect(MouseAct::CopyMode(h.pane, e.local_to(h.rect), count))
        } else if is_left_press(e) && h.pane != active {
            self.focus_here(h.pane);
            wake_after(Effect::Focus(id, h.pane))
        } else if h.modes.any_mouse_mode_active() {
            no_effect(
                MouseAct::Send(h.pane, e.local_to(h.rect), mouse_encoding_for(h.modes)),
            )
        } else {
            self.default_on_pane(e, source_rect, h, now)
        }
    }

    fn mouse_on_popup(&self, pane: PaneId, e: MouseEvent, scene: &Scene) -> (act: MouseAct)
        ensures
            act == self@.popup_moused(pane, e, *scene),
    {
        let rect: Rect = scene.popup_rect;
        if rect.contains_inside(e.row, e.col) && scene.popup_modes.any_mouse_mode_active() {
            let local = MouseEvent {
                row: e.row - rect.row - 1,
                col: e.col - rect.col - 1,
                ..e
            };
            MouseAct::Send(pane, local, mouse_encoding_for(scene.popup_modes))
        } else {
            MouseAct::Nothing
        }
    }

    /// Takes in a mouse event, and what is under the pointer where
    /// [`WindowManager::to_pane_coords`] puts it.
    pub fn handle_mouse(&mut self, event: MouseEvent, scene: Scene, now: u64) -> (r: MouseOutcome)
        requires
            old(self)@.live(),
        ensures
            (final(self)@, r.effects@, r.act) == old(self)@.moused(event, scene, now),
            final(self)@.wf(),
    {
        let e: MouseEvent = self.to_pane_coords(event);
        let popup: Option<PaneId> = match &self.popup {
            Some(p) => Some(p.pane),
            None => None,
        };
        match popup {
            Some(pane) => {
                return no_effect(self.mouse_on_popup(pane, e, &scene));
            },
            None => {},
        }
        match self.gestures.tab {
            Some(drag) => {
                return self.drag_tab(drag, event);
            },
            None => {},
        }
        match self.gestures.resize {
            Some(drag) => {
                return self.drag_border(drag, e);
            },
            None => {},
        }
        match self.gestures.pane {
            Some(drag) => {
                return self.drag_pane(drag, e, &scene);
            },
            None => {},
        }
        if self.status_row == Some(event.row) {
            if is_left_press(event) {
                return self.press_status(event, now);
            }
            return no_effect(MouseAct::Nothing);
        }
        if is_left_press(e) {
            match scene.border {
                Some(hit) => {
                    self.gestures.resize = Some(
                        ResizeDrag {
                            adjacent_pane: hit.adjacent_pane,
                            side: hit.side,
                            last_row: e.row,
                            last_col: e.col,
                        },
                    );
                    return no_effect(MouseAct::Nothing);
                },
                None => {},
            }
        }
        let source_rect: Option<Rect> = scene.source_rect;
        match scene.hit {
            Some(h) => {
                if self.active_window().holds(h.pane) {
                    self.mouse_on_pane(e, source_rect, h, now)
                } else {
                    no_effect(MouseAct::Nothing)
                }
            },
            None => no_effect(MouseAct::Nothing),
        }
    }
}

} // verus!
