//! Programs that start and end, and what their windows make of it.
use super::facts::{gaining_a_pane, losing_a_pane, replacing_a_pane};
use super::messages::{number, push_number};
use super::state::{
    apart, cell_of, holder_is_found, holder_of, holders_are_unique, next_numbers_are_free,
    numbers_may_grow, push_keeps_apart, remove_keeps_apart, slot_is_found, slot_of,
    slots_are_unique, PopupView, WmView,
};
use super::types::{CellPx, Effect, PaneId, PtySize, Purpose, Severity, SplitDir, WindowId};
use super::window::{
    new_window, opt_text, place_is_found, place_of, windows_view, Pane, PaneView, Window,
    WindowView,
};
use super::{find_holder, find_window, host_cell_px, Popup, WindowManager};
use vstd::prelude::*;
use vstd::string::StringExecFns;

verus! {

broadcast use super::window::group_windows;

/// Whether a pane that was to be taken out of a window was, so that `focus` is active
/// in the window now. There is none if the window is empty.
pub open spec fn taken_out(w: WindowView, pane: PaneId, focus: Option<PaneId>) -> bool {
    w.holds(pane) && match focus {
        Some(f) => f != pane && w.holds(f),
        None => w.panes.len() == 1,
    }
}

impl WmView {
    /// Whether the number was given to a pane that is nowhere yet.
    pub open spec fn awaits(self, pane: PaneId) -> bool {
        &&& pane.0 < self.next_pane
        &&& holder_of(self.windows, pane) is None
        &&& !(self.popup matches Some(p) && p.pane == pane)
    }

    /// What follows a try to exchange a pane of a window with its neighbor: only where
    /// there was one do the panes get their sizes.
    pub open spec fn swap_reported(self, id: WindowId, swapped: bool) -> Seq<Effect> {
        if swapped && slot_of(self.windows, id) is Some {
            seq![Effect::Resize(id)]
        } else {
            Seq::empty()
        }
    }

    /// A pane gone from a window. A window that is empty goes too.
    pub open spec fn pane_taken(
        self,
        i: int,
        pane: PaneId,
        focus: Option<PaneId>,
    ) -> (WmView, Seq<Effect>) {
        match focus {
            Some(f) => (
                self.with(i, self.windows[i].without(pane, f)),
                seq![Effect::Resize(self.windows[i].id)],
            ),
            None => self.window_removed(i),
        }
    }

    /// A pane closed. It is marked no more.
    pub open spec fn pane_closed(
        self,
        i: int,
        pane: PaneId,
        focus: Option<PaneId>,
    ) -> (WmView, Seq<Effect>) {
        let (s, effects) = self.pane_taken(i, pane, focus);
        (
            WmView {
                marked: if s.marked == Some(pane) {
                    None
                } else {
                    s.marked
                },
                ..s
            },
            effects.push(Effect::Wake),
        )
    }

    /// The name of a window made of a pane: that of the pane, or one by number.
    pub open spec fn broken_name(self, p: PaneView) -> Seq<char> {
        match p.name {
            Some(name) => name,
            None => "shell"@ + number(self.next_window as nat),
        }
    }

    /// A pane in a window of its own, which is active.
    pub open spec fn pane_broken(
        self,
        i: int,
        pane: PaneId,
        focus: PaneId,
        now: u64,
    ) -> (WmView, Seq<Effect>) {
        let w = self.windows[i];
        let p = w.panes[place_of(w.panes, pane)->0];
        let id = WindowId(self.next_window);
        let s = self.with(i, w.without(pane, focus));
        (
            WmView { next_window: (self.next_window + 1) as u32, ..s }.window_added(
                new_window(id, self.broken_name(p), None, p, now),
                true,
            ),
            seq![
                Effect::Resize(w.id),
                Effect::Adopt(id, pane),
                Effect::Resize(id),
                Effect::Wake,
            ],
        )
    }

    /// A pane put beside the active pane of the active window, and active there. It is
    /// marked no more.
    pub open spec fn pane_joined(
        self,
        i: int,
        pane: PaneId,
        focus: Option<PaneId>,
        dir: SplitDir,
    ) -> (WmView, Seq<Effect>) {
        let w = self.windows[i];
        let p = w.panes[place_of(w.panes, pane)->0];
        let (s, effects) = self.pane_taken(i, pane, focus);
        (
            WmView { marked: None, ..s.with_active(s.window().with_pane(p)) },
            effects + seq![
                Effect::AdoptSplit(s.active, s.window().active, dir, pane),
                Effect::Wake,
            ],
        )
    }

    /// What follows from a pane that was taken out of its window. Nothing, if that is
    /// not what was asked for.
    pub open spec fn removal_reported(
        self,
        id: WindowId,
        pane: PaneId,
        focus: Option<PaneId>,
        purpose: Purpose,
        now: u64,
    ) -> (WmView, Seq<Effect>) {
        match slot_of(self.windows, id) {
            Some(i) => if !taken_out(self.windows[i], pane, focus) {
                (self, Seq::empty())
            } else {
                match purpose {
                    Purpose::Close => self.pane_closed(i, pane, focus),
                    Purpose::Break => match focus {
                        Some(f) => self.pane_broken(i, pane, f, now),
                        None => (self, Seq::empty()),
                    },
                    Purpose::Join(dir) => if self.window().active == pane {
                        (self, Seq::empty())
                    } else {
                        self.pane_joined(i, pane, focus, dir)
                    },
                }
            },
            None => (self, Seq::empty()),
        }
    }
}

/// Taking a pane out keeps the windows apart.
proof fn taking_keeps_apart(s: WmView, i: int, pane: PaneId, focus: Option<PaneId>)
    requires
        s.wf(),
        0 <= i < s.windows.len(),
        taken_out(s.windows[i], pane, focus),
    ensures
        ({
            let t = s.pane_taken(i, pane, focus).0;
            &&& apart(t.windows, s.next_pane, s.next_window)
            &&& t.next_pane == s.next_pane
            &&& t.next_window == s.next_window
            &&& t.marked == s.marked
            &&& t.history == s.history
            &&& (t.windows.len() > 0 ==> slot_of(t.windows, t.active) is Some)
            &&& (t.last_active matches Some(id) ==> slot_of(t.windows, id) is Some)
            &&& (t.popup is Some ==> t.popup == s.popup)
            &&& forall|q: PaneId|
                (#[trigger] holder_of(t.windows, q)) is Some <==> (holder_of(s.windows, q) is Some
                    && q != pane)
        }),
{
    let t = s.pane_taken(i, pane, focus).0;
    match focus {
        Some(f) => losing_a_pane(s.windows, s.next_pane, s.next_window, i, pane, f),
        None => {
            remove_keeps_apart(s.windows, s.next_pane, s.next_window, i);
            let w = s.windows[i];
            place_is_found(w.panes, pane);
            assert forall|q: PaneId| w.holds(q) <==> q == pane by {
                place_is_found(w.panes, q);
            }
            if t.windows.len() > 0 {
                slot_is_found(s.windows, s.active);
                slot_is_found(t.windows, t.active);
                slots_are_unique(s.windows, s.next_pane, s.next_window, i);
                match s.last_active {
                    Some(id) => slot_is_found(s.windows, id),
                    None => {},
                }
            }
        },
    }
}

/// Removing a window that holds no marked pane keeps the state sound.
pub(crate) proof fn removing_keeps_wf(s: WmView, i: int)
    requires
        s.wf(),
        0 <= i < s.windows.len(),
        s.marked matches Some(m) ==> !s.windows[i].holds(m),
    ensures
        s.window_removed(i).0.wf(),
{
    let t = s.window_removed(i).0;
    remove_keeps_apart(s.windows, s.next_pane, s.next_window, i);
    if t.windows.len() > 0 {
        slot_is_found(s.windows, s.active);
        slot_is_found(t.windows, t.active);
        slots_are_unique(s.windows, s.next_pane, s.next_window, i);
        match s.last_active {
            Some(id) => slot_is_found(s.windows, id),
            None => {},
        }
    }
}

proof fn closing_keeps_wf(s: WmView, i: int, pane: PaneId, focus: Option<PaneId>)
    requires
        s.wf(),
        0 <= i < s.windows.len(),
        taken_out(s.windows[i], pane, focus),
    ensures
        s.pane_closed(i, pane, focus).0.wf(),
{
    taking_keeps_apart(s, i, pane, focus);
}

proof fn breaking_keeps_wf(s: WmView, i: int, pane: PaneId, focus: PaneId, now: u64)
    requires
        s.live(),
        0 <= i < s.windows.len(),
        taken_out(s.windows[i], pane, Some(focus)),
        s.next_window < u32::MAX,
    ensures
        s.pane_broken(i, pane, focus, now).0.live(),
{
    taking_keeps_apart(s, i, pane, Some(focus));
    let t = s.pane_taken(i, pane, Some(focus)).0;
    let w = s.windows[i];
    place_is_found(w.panes, pane);
    let k = place_of(w.panes, pane)->0;
    assert(s.windows[i].panes[k].id.0 < s.next_pane);
    let nw = (s.next_window + 1) as u32;
    let fresh = new_window(
        WindowId(s.next_window),
        s.broken_name(w.panes[k]),
        None,
        w.panes[k],
        now,
    );
    next_numbers_are_free(
        t.windows,
        s.next_pane,
        s.next_window,
        s.next_pane,
        s.next_window,
    );
    numbers_may_grow(t.windows, s.next_pane, s.next_window, s.next_pane, nw);
    place_is_found(fresh.panes, pane);
    assert(fresh.panes[0].id == pane);
    assert forall|q: PaneId| fresh.holds(q) <==> q == pane by {
        place_is_found(fresh.panes, q);
    }
    holders_are_unique(s.windows, s.next_pane, s.next_window, i, pane);
    push_keeps_apart(t.windows, s.next_pane, nw, fresh);
}

proof fn joining_keeps_wf(
    s: WmView,
    i: int,
    pane: PaneId,
    focus: Option<PaneId>,
    dir: SplitDir,
)
    requires
        s.live(),
        0 <= i < s.windows.len(),
        taken_out(s.windows[i], pane, focus),
        s.window().active != pane,
    ensures
        s.pane_taken(i, pane, focus).0.windows.len() > 0,
        s.pane_joined(i, pane, focus, dir).0.live(),
{
    taking_keeps_apart(s, i, pane, focus);
    let t = s.pane_taken(i, pane, focus).0;
    let w = s.windows[i];
    place_is_found(w.panes, pane);
    let p = w.panes[place_of(w.panes, pane)->0];
    assert(s.windows[i].panes[place_of(w.panes, pane)->0].id.0 < s.next_pane);
    slot_is_found(s.windows, s.active);
    let h = s.here();
    if t.windows.len() == 0 {
        assert(i == h);
        assert(s.windows[h].wf());
        place_is_found(w.panes, s.window().active);
    }
    slot_is_found(t.windows, t.active);
    gaining_a_pane(t.windows, s.next_pane, s.next_window, t.here(), p);
    holders_are_unique(s.windows, s.next_pane, s.next_window, i, pane);
}

impl WindowManager {
    /// Takes a window out of the list.
    pub(crate) fn remove_window(&mut self, i: usize) -> (r: (Window, Vec<Effect>))
        requires
            i < old(self)@.windows.len(),
        ensures
            (final(self)@, r.1@) == old(self)@.window_removed(i as int),
            r.0@ == old(self)@.windows[i as int],
    {
        let ghost before = self@;
        let gone: WindowId = self.windows[i].id;
        let w: Window = self.windows.remove(i);
        if self.windows.len() == 0 {
            self.last_active = None;
            let effects: Vec<Effect> = self.close_popup();
            (w, effects)
        } else {
            if self.active == gone {
                let k: usize = if i < self.windows.len() - 1 {
                    i
                } else {
                    self.windows.len() - 1
                };
                self.active = self.windows[k].id;
            }
            if self.last_active == Some(gone) || self.last_active == Some(self.active) {
                self.last_active = None;
            }
            let effects: Vec<Effect> = Vec::new();
            assert(effects@ =~= Seq::empty());
            (w, effects)
        }
    }

    /// Takes a pane out of the record of its window, and an empty window out of the
    /// list.
    fn take_pane(&mut self, i: usize, pane: PaneId, focus: Option<PaneId>) -> (r: (
        Option<Pane>,
        Vec<Effect>,
    ))
        requires
            i < old(self)@.windows.len(),
            taken_out(old(self)@.windows[i as int], pane, focus),
        ensures
            (final(self)@, r.1@) == old(self)@.pane_taken(i as int, pane, focus),
            r.0 matches Some(p) && p@ == ({
                let w = old(self)@.windows[i as int];
                w.panes[place_of(w.panes, pane)->0]
            }),
    {
        let ghost before = self@;
        match focus {
            Some(f) => {
                let taken: Option<Pane> = self.windows[i].take_out(pane, f);
                let mut effects: Vec<Effect> = Vec::new();
                effects.push(Effect::Resize(self.windows[i].id));
                assert(self@.windows =~= before.windows.update(
                    i as int,
                    before.windows[i as int].without(pane, f),
                ));
                assert(effects@ =~= before.pane_taken(i as int, pane, focus).1);
                (taken, effects)
            },
            None => {
                let (w, effects) = self.remove_window(i);
                let mut w: Window = w;
                let taken: Option<Pane> = w.take_out(pane, pane);
                (taken, effects)
            },
        }
    }

    fn close_taken(&mut self, i: usize, pane: PaneId, focus: Option<PaneId>) -> (effects: Vec<
        Effect,
    >)
        requires
            old(self)@.wf(),
            i < old(self)@.windows.len(),
            taken_out(old(self)@.windows[i as int], pane, focus),
        ensures
            (final(self)@, effects@) == old(self)@.pane_closed(i as int, pane, focus),
            final(self)@.wf(),
    {
        proof {
            closing_keeps_wf(self@, i as int, pane, focus);
        }
        let (taken, effects) = self.take_pane(i, pane, focus);
        let mut effects: Vec<Effect> = effects;
        if self.marked == Some(pane) {
            self.marked = None;
        }
        effects.push(Effect::Wake);
        effects
    }

    fn break_taken(&mut self, i: usize, pane: PaneId, focus: PaneId, now: u64) -> (effects: Vec<
        Effect,
    >)
        requires
            old(self)@.live(),
            i < old(self)@.windows.len(),
            taken_out(old(self)@.windows[i as int], pane, Some(focus)),
            old(self)@.next_window < u32::MAX,
        ensures
            (final(self)@, effects@) == old(self)@.pane_broken(i as int, pane, focus, now),
            final(self)@.live(),
    {
        let ghost before = self@;
        proof {
            breaking_keeps_wf(self@, i as int, pane, focus, now);
        }
        let source: WindowId = self.windows[i].id;
        let (taken, resized) = self.take_pane(i, pane, Some(focus));
        let id: WindowId = WindowId(self.next_window);
        match taken {
            Some(p) => {
                let name: String = match &p.name {
                    Some(name) => name.clone(),
                    None => {
                        let mut out: String = String::from_str("shell");
                        push_number(&mut out, self.next_window as u64);
                        out
                    },
                };
                assert(name@ == before.broken_name(p@));
                let w: Window = Window::new(id, name, None, p, now);
                self.windows.push(w);
            },
            None => {},
        }
        self.next_window = self.next_window + 1;
        self.last_active = Some(self.active);
        self.active = id;
        let mut effects: Vec<Effect> = Vec::new();
        effects.push(Effect::Resize(source));
        effects.push(Effect::Adopt(id, pane));
        effects.push(Effect::Resize(id));
        effects.push(Effect::Wake);
        assert(effects@ =~= before.pane_broken(i as int, pane, focus, now).1);
        effects
    }

    fn join_taken(
        &mut self,
        i: usize,
        pane: PaneId,
        focus: Option<PaneId>,
        dir: SplitDir,
    ) -> (effects: Vec<Effect>)
        requires
            old(self)@.live(),
            i < old(self)@.windows.len(),
            taken_out(old(self)@.windows[i as int], pane, focus),
            old(self)@.window().active != pane,
        ensures
            (final(self)@, effects@) == old(self)@.pane_joined(i as int, pane, focus, dir),
            final(self)@.live(),
    {
        let ghost before = self@;
        proof {
            joining_keeps_wf(self@, i as int, pane, focus, dir);
            taking_keeps_apart(self@, i as int, pane, focus);
            let s = self@;
            slot_is_found(s.windows, s.active);
            assert(s.windows[s.here()].wf());
            place_is_found(s.window().panes, s.window().active);
        }
        let (taken, effects) = self.take_pane(i, pane, focus);
        let ghost mid = self@;
        proof {
            slot_is_found(mid.windows, mid.active);
        }
        let mut effects: Vec<Effect> = effects;
        let h: usize = match find_window(&self.windows, self.active) {
            Some(h) => h,
            None => 0,
        };
        let beside: PaneId = self.windows[h].active;
        match taken {
            Some(p) => self.windows[h].add_pane(p),
            None => {},
        }
        self.marked = None;
        effects.push(Effect::AdoptSplit(self.active, beside, dir, pane));
        effects.push(Effect::Wake);
        proof {
            let w = before.windows[i as int];
            let p = w.panes[place_of(w.panes, pane)->0];
            assert(self@.windows =~= mid.windows.update(mid.here(), mid.window().with_pane(p)));
            assert(effects@ =~= before.pane_joined(i as int, pane, focus, dir).1);
        }
        effects
    }

    /// Reports that a pane was taken out of the layout of its window, and which pane
    /// is active there now; none, if it was the last one.
    pub fn report_removed(
        &mut self,
        id: WindowId,
        pane: PaneId,
        focus: Option<PaneId>,
        purpose: Purpose,
        now: u64,
    ) -> (effects: Vec<Effect>)
        requires
            old(self)@.live(),
            purpose is Break ==> old(self)@.next_window < u32::MAX,
        ensures
            (final(self)@, effects@) == old(self)@.removal_reported(id, pane, focus, purpose, now),
            final(self)@.wf(),
    {
        let nothing: Vec<Effect> = Vec::new();
        assert(nothing@ =~= Seq::empty());
        let i: usize = match find_window(&self.windows, id) {
            Some(i) => i,
            None => {
                return nothing;
            },
        };
        let fits: bool = self.windows[i].holds(pane) && match focus {
            Some(f) => f != pane && self.windows[i].holds(f),
            None => self.windows[i].panes.len() == 1,
        };
        if !fits {
            return nothing;
        }
        match purpose {
            Purpose::Close => self.close_taken(i, pane, focus),
            Purpose::Break => match focus {
                Some(f) => self.break_taken(i, pane, f, now),
                None => nothing,
            },
            Purpose::Join(dir) => {
                if self.active_window().active == pane {
                    nothing
                } else {
                    self.join_taken(i, pane, focus, dir)
                }
            },
        }
    }
}

impl WmView {
    /// Whether the number was given to a window that is not there yet.
    pub open spec fn awaits_window(self, id: WindowId) -> bool {
        id.0 < self.next_window && slot_of(self.windows, id) is None
    }

    /// Whether a shell is to take the place of the program in a pane when that ends.
    pub open spec fn respawns(self, pane: PaneId) -> bool {
        &&& !(self.popup matches Some(p) && p.pane == pane)
        &&& holder_of(self.windows, pane) matches Some(i)
        &&& self.windows[i].panes[place_of(self.windows[i].panes, pane)->0].respawn
    }

    /// What follows from the end of the program in a pane.
    pub open spec fn death_reported(self, pane: PaneId) -> (WmView, Seq<Effect>) {
        if self.popup matches Some(p) && p.pane == pane {
            (WmView { popup: None, ..self }, seq![Effect::Wake])
        } else {
            match holder_of(self.windows, pane) {
                Some(i) => {
                    let w = self.windows[i];
                    if w.panes[place_of(w.panes, pane)->0].respawn {
                        (
                            WmView { next_pane: (self.next_pane + 1) as u32, ..self },
                            seq![Effect::Respawn(w.id, pane, PaneId(self.next_pane))],
                        )
                    } else {
                        (self, seq![Effect::Remove(w.id, pane, Purpose::Close)])
                    }
                },
                None => (
                    WmView {
                        marked: if self.marked == Some(pane) {
                            None
                        } else {
                            self.marked
                        },
                        ..self
                    },
                    seq![Effect::Wake],
                ),
            }
        }
    }

    /// What follows from a shell that was to take the place of a program: it is there,
    /// or else the pane closes.
    pub open spec fn respawn_reported(
        self,
        id: WindowId,
        pane: PaneId,
        shell: PaneId,
        started: bool,
        now: u64,
    ) -> (WmView, Seq<Effect>) {
        match slot_of(self.windows, id) {
            Some(i) => if !self.windows[i].holds(pane) || !self.awaits(shell) {
                (self, Seq::empty())
            } else if started {
                let s = self.with(
                    i,
                    self.windows[i].replaced(
                        pane,
                        PaneView { id: shell, name: None, respawn: false },
                    ),
                );
                (
                    WmView {
                        marked: if s.marked == Some(pane) {
                            Some(shell)
                        } else {
                            s.marked
                        },
                        ..s
                    }.told("command exited — dropped to shell"@, Severity::Info, now),
                    seq![Effect::Wake],
                )
            } else {
                (self, seq![Effect::Remove(id, pane, Purpose::Close)])
            },
            None => (self, Seq::empty()),
        }
    }

    /// What follows from the start of a program in a popup: it takes the place of any
    /// other popup, and what the mouse was doing is dropped.
    pub open spec fn popup_reported(
        self,
        pane: PaneId,
        command: Option<Seq<char>>,
    ) -> (WmView, Seq<Effect>) {
        if !self.awaits(pane) {
            (self, Seq::empty())
        } else {
            let (s, effects) = self.popup_closed();
            (
                WmView {
                    popup: Some(
                        PopupView {
                            pane,
                            title: match command {
                                Some(text) => text,
                                None => "popup"@,
                            },
                        },
                    ),
                    gestures: s.gestures.dropped(),
                    ..s
                },
                effects.push(Effect::Wake),
            )
        }
    }

    /// What a change of the size of the terminal asks for.
    pub open spec fn host_resized(self, size: PtySize) -> (WmView, Seq<Effect>) {
        (
            WmView { host_size: size, ..self },
            resizes(self.windows, cell_of(size)) + (match self.popup {
                Some(p) => seq![Effect::ResizePopup(p.pane)],
                None => Seq::empty(),
            }).push(Effect::Wake),
        )
    }
}

/// All windows given the size of a cell and their new sizes.
pub open spec fn resizes(ws: Seq<WindowView>, cell: CellPx) -> Seq<Effect>
    decreases ws.len(),
{
    if ws.len() == 0 {
        Seq::empty()
    } else {
        resizes(ws.drop_last(), cell).push(Effect::SetCell(ws.last().id, cell)).push(
            Effect::Resize(ws.last().id),
        )
    }
}

impl WindowManager {
    /// Reports that a program was started in a new pane, which split another one.
    /// Returns false if no such pane was asked for.
    pub fn report_split(&mut self, id: WindowId, pane: PaneId, respawn: bool) -> (r: bool)
        requires
            old(self)@.wf(),
        ensures
            match slot_of(old(self)@.windows, id) {
                Some(i) => if old(self)@.awaits(pane) {
                    r && final(self)@ == old(self)@.with(
                        i,
                        old(self)@.windows[i].with_pane(
                            PaneView { id: pane, name: None, respawn },
                        ),
                    )
                } else {
                    !r && final(self)@ == old(self)@
                },
                None => !r && final(self)@ == old(self)@,
            },
            final(self)@.wf(),
    {
        let i: usize = match find_window(&self.windows, id) {
            Some(i) => i,
            None => {
                return false;
            },
        };
        if !self.expects(pane) {
            return false;
        }
        let ghost before = self@;
        let ghost p = PaneView { id: pane, name: None, respawn };
        proof {
            gaining_a_pane(before.windows, before.next_pane, before.next_window, i as int, p);
        }
        self.windows[i].add_pane(Pane { id: pane, name: None, respawn });
        assert(self@.windows =~= before.windows.update(
            i as int,
            before.windows[i as int].with_pane(p),
        ));
        true
    }

    /// Whether the number was given to a pane that is nowhere yet.
    fn expects(&self, pane: PaneId) -> (r: bool)
        ensures
            r == self@.awaits(pane),
    {
        let is_popup: bool = match &self.popup {
            Some(p) => p.pane == pane,
            None => false,
        };
        pane.0 < self.next_pane && find_holder(&self.windows, pane).is_none() && !is_popup
    }

    /// Reports that a program was started in a new window, which is active then. The
    /// window before it is remembered, if that is wished. Returns false if no such
    /// window was asked for.
    pub fn report_window(
        &mut self,
        id: WindowId,
        pane: PaneId,
        name: String,
        home_cwd: Option<String>,
        respawn: bool,
        remember: bool,
        now: u64,
    ) -> (r: bool)
        requires
            old(self)@.live(),
        ensures
            if old(self)@.awaits(pane) && old(self)@.awaits_window(id) {
                r && final(self)@ == old(self)@.window_added(
                    new_window(
                        id,
                        name@,
                        opt_text(home_cwd),
                        PaneView { id: pane, name: None, respawn },
                        now,
                    ),
                    remember,
                )
            } else {
                !r && final(self)@ == old(self)@
            },
            final(self)@.live(),
    {
        let expected: bool = self.expects(pane);
        if !expected || id.0 >= self.next_window || find_window(&self.windows, id).is_some() {
            return false;
        }
        let ghost before = self@;
        let p = Pane { id: pane, name: None, respawn };
        let w: Window = Window::new(id, name, home_cwd, p, now);
        proof {
            assert(w@.panes[0].id == pane);
            assert forall|q: PaneId| w@.holds(q) <==> q == pane by {
                place_is_found(w@.panes, q);
            }
            push_keeps_apart(before.windows, before.next_pane, before.next_window, w@);
        }
        self.windows.push(w);
        if remember {
            self.last_active = Some(self.active);
        }
        self.active = id;
        true
    }

    /// Reports that another pane of a window is active. Returns false if the window
    /// does not hold it.
    pub fn report_focus(&mut self, id: WindowId, pane: PaneId) -> (r: bool)
        requires
            old(self)@.wf(),
        ensures
            match slot_of(old(self)@.windows, id) {
                Some(i) => if old(self)@.windows[i].holds(pane) {
                    r && final(self)@ == old(self)@.with(i, old(self)@.windows[i].focused(pane))
                } else {
                    !r && final(self)@ == old(self)@
                },
                None => !r && final(self)@ == old(self)@,
            },
            final(self)@.wf(),
    {
        let i: usize = match find_window(&self.windows, id) {
            Some(i) => i,
            None => {
                return false;
            },
        };
        if !self.windows[i].holds(pane) {
            return false;
        }
        let ghost before = self@;
        self.windows[i].focus(pane);
        proof {
            let w = before.windows[i as int].focused(pane);
            super::structure::touching_keeps_wf(before, i as int, w);
            assert(self@.windows =~= before.windows.update(i as int, w));
        }
        true
    }

    /// Reports whether a pane of a window was exchanged with its neighbor. It was not if
    /// it has none.
    pub fn report_swapped(&self, id: WindowId, swapped: bool) -> (effects: Vec<Effect>)
        ensures
            effects@ == self@.swap_reported(id, swapped),
    {
        let mut effects: Vec<Effect> = Vec::new();
        if swapped && find_window(&self.windows, id).is_some() {
            effects.push(Effect::Resize(id));
        }
        assert(effects@ =~= self@.swap_reported(id, swapped));
        effects
    }

    /// Whether a shell is to take the place of the program in a pane when that ends.
    pub fn respawns(&self, pane: PaneId) -> (r: bool)
        requires
            self@.wf(),
        ensures
            r == self@.respawns(pane),
    {
        let is_popup: bool = match &self.popup {
            Some(p) => p.pane == pane,
            None => false,
        };
        if is_popup {
            return false;
        }
        proof {
            holder_is_found(self@.windows, pane);
        }
        match find_holder(&self.windows, pane) {
            Some(i) => match super::window::find_pane(&self.windows[i].panes, pane) {
                Some(k) => self.windows[i].panes[k].respawn,
                None => false,
            },
            None => false,
        }
    }

    /// Reports that the program in a pane ended. A pane that ran a command gets a
    /// shell; any other closes, and with its last pane its window.
    pub fn handle_pane_death(&mut self, pane: PaneId) -> (effects: Vec<Effect>)
        requires
            old(self)@.wf(),
            old(self)@.respawns(pane) ==> old(self)@.has_pane_number(),
        ensures
            (final(self)@, effects@) == old(self)@.death_reported(pane),
            final(self)@.wf(),
    {
        let ghost before = self@;
        let mut effects: Vec<Effect> = Vec::new();
        let is_popup: bool = match &self.popup {
            Some(p) => p.pane == pane,
            None => false,
        };
        if is_popup {
            self.popup = None;
            effects.push(Effect::Wake);
            assert(effects@ =~= before.death_reported(pane).1);
            return effects;
        }
        proof {
            holder_is_found(before.windows, pane);
        }
        match find_holder(&self.windows, pane) {
            Some(i) => {
                let id: WindowId = self.windows[i].id;
                if self.respawns(pane) {
                    effects.push(Effect::Respawn(id, pane, PaneId(self.next_pane)));
                    proof {
                        numbers_may_grow(
                            before.windows,
                            before.next_pane,
                            before.next_window,
                            (before.next_pane + 1) as u32,
                            before.next_window,
                        );
                    }
                    self.next_pane = self.next_pane + 1;
                } else {
                    effects.push(Effect::Remove(id, pane, Purpose::Close));
                }
            },
            None => {
                if self.marked == Some(pane) {
                    self.marked = None;
                }
                effects.push(Effect::Wake);
            },
        }
        assert(effects@ =~= before.death_reported(pane).1);
        effects
    }

    /// Reports whether a shell took the place of a program that ended.
    pub fn report_respawn(
        &mut self,
        id: WindowId,
        pane: PaneId,
        shell: PaneId,
        started: bool,
        now: u64,
    ) -> (effects: Vec<Effect>)
        requires
            old(self)@.wf(),
        ensures
            (final(self)@, effects@) == old(self)@.respawn_reported(
                id,
                pane,
                shell,
                started,
                now,
            ),
            final(self)@.wf(),
    {
        let ghost before = self@;
        let mut effects: Vec<Effect> = Vec::new();
        let expected: bool = self.expects(shell);
        match find_window(&self.windows, id) {
            Some(i) => {
                if self.windows[i].holds(pane) && expected {
                    if started {
                        let by = Pane { id: shell, name: None, respawn: false };
                        let ghost byv = by@;
                        proof {
                            replacing_a_pane(
                                before.windows,
                                before.next_pane,
                                before.next_window,
                                i as int,
                                pane,
                                byv,
                            );
                            holders_are_unique(
                                before.windows,
                                before.next_pane,
                                before.next_window,
                                i as int,
                                pane,
                            );
                        }
                        let taken: Option<Pane> = self.windows[i].replace(pane, by);
                        assert(self@.windows =~= before.windows.update(
                            i as int,
                            before.windows[i as int].replaced(pane, byv),
                        ));
                        if self.marked == Some(pane) {
                            self.marked = Some(shell);
                        }
                        self.set_status_message(
                            String::from_str("command exited — dropped to shell"),
                            Severity::Info,
                            now,
                        );
                        effects.push(Effect::Wake);
                    } else {
                        effects.push(Effect::Remove(id, pane, Purpose::Close));
                    }
                }
            },
            None => {},
        }
        assert(effects@ =~= before.respawn_reported(id, pane, shell, started, now).1);
        effects
    }

    /// Reports that a program was started in a popup. `command` is its command, if it
    /// is no shell.
    pub fn report_popup(&mut self, pane: PaneId, command: Option<String>) -> (effects: Vec<Effect>)
        requires
            old(self)@.wf(),
        ensures
            (final(self)@, effects@) == old(self)@.popup_reported(pane, opt_text(command)),
            final(self)@.wf(),
    {
        let ghost before = self@;
        if !self.expects(pane) {
            let nothing: Vec<Effect> = Vec::new();
            assert(nothing@ =~= Seq::empty());
            return nothing;
        }
        let mut effects: Vec<Effect> = self.close_popup();
        self.reset_mouse_gestures();
        let title: String = match command {
            Some(text) => text,
            None => String::from_str("popup"),
        };
        self.popup = Some(Popup { pane, title });
        effects.push(Effect::Wake);
        assert(effects@ =~= before.popup_reported(pane, opt_text(command)).1);
        effects
    }

    /// Takes in a new size of the terminal.
    pub fn on_host_resize(&mut self, size: PtySize) -> (effects: Vec<Effect>)
        requires
            old(self)@.wf(),
        ensures
            (final(self)@, effects@) == old(self)@.host_resized(size),
            final(self)@.wf(),
    {
        let ghost before = self@;
        self.host_size = size;
        let cell: CellPx = host_cell_px(size);
        let mut effects: Vec<Effect> = Vec::new();
        let mut i: usize = 0;
        assert(before.windows.take(0) =~= Seq::empty());
        assert(effects@ =~= resizes(before.windows.take(0), cell));
        while i < self.windows.len()
            invariant
                i <= self.windows.len(),
                before.windows == windows_view(self.windows@),
                self@ == (WmView { host_size: size, ..before }),
                effects@ == resizes(before.windows.take(i as int), cell),
            decreases self.windows.len() - i,
        {
            assert(before.windows.take(i + 1).drop_last() =~= before.windows.take(i as int));
            assert(before.windows.take(i + 1).last() == self.windows@[i as int]@);
            effects.push(Effect::SetCell(self.windows[i].id, cell));
            effects.push(Effect::Resize(self.windows[i].id));
            i += 1;
        }
        assert(before.windows.take(i as int) =~= before.windows);
        match &self.popup {
            Some(p) => {
                effects.push(Effect::ResizePopup(p.pane));
            },
            None => {},
        }
        effects.push(Effect::Wake);
        assert(effects@ =~= before.host_resized(size).1);
        effects
    }
}

} // verus!
