//! Windows and panes that come and go, and their order.
use super::state::{
    holder_is_found, holder_of, holders_are_unique, slot_is_found, slot_of, slots_after_update,
    slots_are_unique, touch_keeps_apart, update_keeps_apart, WmView,
};
use super::types::{Effect, PaneId, WindowId};
use super::window::{opt_text, place_is_found, place_of, Pane, PaneView, Window, WindowView};
use super::{find_holder, find_window, WindowManager};
use vstd::prelude::*;

verus! {

broadcast use super::window::group_windows;

/// The items with the one at `from` moved to `to`.
pub open spec fn moved<T>(s: Seq<T>, from: int, to: int) -> Seq<T> {
    s.remove(from).insert(to, s[from])
}

impl WmView {
    /// A window moved to another place, or to the end if there is no such place.
    /// `None` if there is nothing to move.
    pub open spec fn window_moved(self, from: int, to: int) -> Option<WmView> {
        let n = self.windows.len();
        let dest = crate::grid::least(to, n - 1);
        if from >= n || n < 2 || from == dest {
            None
        } else {
            Some(WmView { windows: moved(self.windows, from, dest), ..self })
        }
    }

    /// The zoom of the active window ended, and what that asks for.
    pub open spec fn unzoomed(self) -> (WmView, Seq<Effect>) {
        let w = self.window();
        if w.zoomed is Some {
            (
                self.with_active(WindowView { zoomed: None, ..w }),
                seq![Effect::Unzoom(w.id)],
            )
        } else {
            (self, Seq::empty())
        }
    }

    /// The windows with another one at their end, which is active.
    pub open spec fn window_added(self, w: WindowView, remember: bool) -> WmView {
        WmView {
            windows: self.windows.push(w),
            active: w.id,
            last_active: if remember {
                Some(self.active)
            } else {
                self.last_active
            },
            ..self
        }
    }
}

/// The state with a window moved is sound.
proof fn moving_keeps_wf(s: WmView, from: int, to: int)
    requires
        s.wf(),
        0 <= from < s.windows.len(),
        0 <= to < s.windows.len(),
    ensures
        (WmView { windows: moved(s.windows, from, to), ..s }).wf(),
{
    let ws = s.windows;
    let t = moved(ws, from, to);
    let back = |j: int|
        if j == to {
            from
        } else {
            let k = if j < to {
                j
            } else {
                j - 1
            };
            if k < from {
                k
            } else {
                k + 1
            }
        };
    let forth = |k: int|
        if k == from {
            to
        } else {
            let j = if k < from {
                k
            } else {
                k - 1
            };
            if j < to {
                j
            } else {
                j + 1
            }
        };
    assert forall|j: int| 0 <= j < t.len() implies #[trigger] t[j] == ws[back(j)] by {}
    assert forall|j: int| 0 <= j < ws.len() implies ws[j] == #[trigger] t[forth(j)] by {}
    assert forall|i: int, j: int| 0 <= i < j < t.len() implies (#[trigger] t[i]).id != (
    #[trigger] t[j]).id by {
        assert(back(i) != back(j));
        assert(ws[back(i)].id != ws[back(j)].id);
    }
    assert forall|i: int, j: int, a: int, b: int|
        0 <= i < t.len() && 0 <= j < t.len() && i != j && 0 <= a < t[i].panes.len() && 0 <= b
            < t[j].panes.len() implies (#[trigger] t[i].panes[a]).id != (
    #[trigger] t[j].panes[b]).id by {
        assert(back(i) != back(j));
        assert(ws[back(i)].panes[a].id != ws[back(j)].panes[b].id);
    }
    assert forall|i: int, a: int| 0 <= i < t.len() && 0 <= a < t[i].panes.len() implies (
    #[trigger] t[i].panes[a]).id.0 < s.next_pane by {
        assert(ws[back(i)].panes[a].id.0 < s.next_pane);
    }
    assert forall|id: WindowId| slot_of(ws, id) is Some implies #[trigger] slot_of(t, id)
        is Some by {
        slot_is_found(ws, id);
        slot_is_found(t, id);
        assert(t[forth(slot_of(ws, id)->0)].id == id);
    }
    assert forall|p: PaneId| (#[trigger] holder_of(t, p)) is Some <==> holder_of(ws, p) is Some by {
        holder_is_found(ws, p);
        holder_is_found(t, p);
        if holder_of(ws, p) is Some {
            assert(t[forth(holder_of(ws, p)->0)].holds(p));
        }
        if holder_of(t, p) is Some {
            assert(ws[back(holder_of(t, p)->0)].holds(p));
        }
    }
}

/// A record that keeps its panes can change.
pub(crate) proof fn touching_keeps_wf(s: WmView, i: int, w: WindowView)
    requires
        s.wf(),
        0 <= i < s.windows.len(),
        w.id == s.windows[i].id,
        w.panes == s.windows[i].panes,
        w.wf(),
    ensures
        s.with(i, w).wf(),
        s.with(i, w).here() == s.here(),
{
    touch_keeps_apart(s.windows, s.next_pane, s.next_window, i, w);
}

impl WindowManager {
    /// Moves the window at `from` to the place `to`, or to the end if `to` is behind
    /// it. Returns false if there is nothing to move, else there is something to draw.
    pub fn move_window(&mut self, from: usize, to: usize) -> (r: bool)
        requires
            old(self)@.wf(),
        ensures
            match old(self)@.window_moved(from as int, to as int) {
                Some(next) => r && final(self)@ == next,
                None => !r && final(self)@ == old(self)@,
            },
            final(self)@.wf(),
    {
        let len: usize = self.windows.len();
        if from >= len || len < 2 {
            return false;
        }
        let dest: usize = if to < len - 1 {
            to
        } else {
            len - 1
        };
        if from == dest {
            return false;
        }
        proof {
            moving_keeps_wf(self@, from as int, dest as int);
        }
        let w: Window = self.windows.remove(from);
        self.windows.insert(dest, w);
        true
    }

    /// Moves the window with a given number.
    pub fn move_window_by_id(&mut self, id: WindowId, to: usize) -> (r: bool)
        requires
            old(self)@.wf(),
        ensures
            match slot_of(old(self)@.windows, id) {
                Some(from) => match old(self)@.window_moved(from, to as int) {
                    Some(next) => r && final(self)@ == next,
                    None => !r && final(self)@ == old(self)@,
                },
                None => !r && final(self)@ == old(self)@,
            },
            final(self)@.wf(),
    {
        match find_window(&self.windows, id) {
            Some(from) => self.move_window(from, to),
            None => false,
        }
    }

    /// Ends the zoom of the active window.
    pub(crate) fn unzoom(&mut self) -> (effects: Vec<Effect>)
        requires
            old(self)@.live(),
        ensures
            (final(self)@, effects@) == old(self)@.unzoomed(),
            final(self)@.live(),
            final(self)@.here() == old(self)@.here(),
    {
        let mut effects: Vec<Effect> = Vec::new();
        let i: usize = self.active_idx();
        let ghost before = self@;
        if self.windows[i].zoomed.is_some() {
            self.windows[i].zoomed = None;
            effects.push(Effect::Unzoom(self.windows[i].id));
            proof {
                touching_keeps_wf(
                    before,
                    i as int,
                    WindowView { zoomed: None, ..before.windows[i as int] },
                );
            }
        }
        assert(effects@ =~= before.unzoomed().1);
        effects
    }

    /// Makes the window with a given number active. The zoom of the window that is
    /// left ends. Returns false if there is no such window.
    pub fn select_window_by_id(&mut self, id: WindowId) -> (r: (bool, Vec<Effect>))
        requires
            old(self)@.live(),
        ensures
            match slot_of(old(self)@.windows, id) {
                Some(_) => r.0 && r.1@ == old(self)@.unzoomed().1 && final(self)@ == (WmView {
                    active: id,
                    ..old(self)@.unzoomed().0
                }),
                None => !r.0 && r.1@.len() == 0 && final(self)@ == old(self)@,
            },
            final(self)@.live(),
    {
        proof {
            slot_is_found(self@.windows, id);
        }
        match find_window(&self.windows, id) {
            Some(idx) => {
                let ghost before = self@;
                let effects: Vec<Effect> = self.unzoom();
                proof {
                    slot_is_found(before.windows, before.active);
                    if before.window().zoomed is Some {
                        slots_after_update(
                            before.windows,
                            before.here(),
                            WindowView { zoomed: None, ..before.window() },
                            id,
                        );
                    }
                }
                self.active = id;
                (true, effects)
            },
            None => (false, Vec::new()),
        }
    }
}

impl WmView {
    /// A pane focused: its window is active, no pane fills it, and the pane is active
    /// in it.
    pub open spec fn pane_focused(self, i: int, pane: PaneId) -> (WmView, Seq<Effect>) {
        let w = self.windows[i];
        (
            WmView {
                active: w.id,
                ..self.with(i, WindowView { zoomed: None, ..w }.focused(pane))
            },
            (if w.zoomed is Some {
                seq![Effect::Unzoom(w.id)]
            } else {
                Seq::empty()
            }) + seq![Effect::Focus(w.id, pane), Effect::Resize(w.id)],
        )
    }

    /// A pane renamed.
    pub open spec fn pane_renamed(self, i: int, pane: PaneId, name: Seq<char>) -> WmView {
        let w = self.windows[i];
        let k = place_of(w.panes, pane)->0;
        self.with(
            i,
            WindowView {
                panes: w.panes.update(k, PaneView { name: Some(name), ..w.panes[k] }),
                ..w
            },
        )
    }

    /// A window renamed, which pins its name.
    pub open spec fn window_renamed(self, i: int, name: Seq<char>) -> WmView {
        self.with(i, WindowView { name, shown_name: name, ..self.windows[i] })
    }
}

/// The panes of a list, to be ended.
pub open spec fn kills(panes: Seq<PaneView>) -> Seq<Effect> {
    Seq::new(panes.len(), |i: int| Effect::KillChild(panes[i].id))
}

/// Renaming a pane keeps who holds what.
proof fn renaming_keeps_wf(s: WmView, i: int, pane: PaneId, name: Seq<char>)
    requires
        s.wf(),
        0 <= i < s.windows.len(),
        s.windows[i].holds(pane),
    ensures
        s.pane_renamed(i, pane, name).wf(),
        s.pane_renamed(i, pane, name).here() == s.here(),
{
    let ws = s.windows;
    let v = ws[i];
    place_is_found(v.panes, pane);
    let k = place_of(v.panes, pane)->0;
    let w = s.pane_renamed(i, pane, name).windows[i];
    let t = ws.update(i, w);
    assert forall|q: PaneId| #[trigger] w.holds(q) == v.holds(q) by {
        place_is_found(v.panes, q);
        place_is_found(w.panes, q);
        if v.holds(q) {
            assert(w.panes[place_of(v.panes, q)->0].id == q);
        }
        if w.holds(q) {
            assert(v.panes[place_of(w.panes, q)->0].id == q);
        }
    }
    assert(w.wf()) by {
        assert(v.wf());
        assert forall|a: int, b: int| 0 <= a < b < w.panes.len() implies (#[trigger] w.panes[
            a
        ]).id != (#[trigger] w.panes[b]).id by {
            assert(v.panes[a].id != v.panes[b].id);
        }
    }
    assert forall|b: int| 0 <= b < w.panes.len() implies (#[trigger] w.panes[b]).id.0 < s.next_pane
        && v.holds(w.panes[b].id) by {
        assert(ws[i].panes[b].id.0 < s.next_pane);
        place_is_found(v.panes, w.panes[b].id);
        assert(v.panes[b].id == w.panes[b].id);
    }
    update_keeps_apart(ws, s.next_pane, s.next_window, i, w);
    assert forall|id: WindowId| #[trigger] slot_of(t, id) == slot_of(ws, id) by {
        slots_after_update(ws, i, w, id);
    }
    assert forall|q: PaneId| (#[trigger] holder_of(t, q)) is Some <==> holder_of(ws, q) is Some by {
        holder_is_found(ws, q);
        holder_is_found(t, q);
        if holder_of(ws, q) is Some {
            assert(t[holder_of(ws, q)->0].holds(q));
        }
        if holder_of(t, q) is Some {
            assert(ws[holder_of(t, q)->0].holds(q));
        }
    }
}

impl WindowManager {
    /// Focuses a pane, in whatever window it is. Returns false if it is in none.
    pub fn focus_pane_by_id(&mut self, pane: PaneId) -> (r: (bool, Vec<Effect>))
        requires
            old(self)@.wf(),
        ensures
            match holder_of(old(self)@.windows, pane) {
                Some(i) => r.0 && (final(self)@, r.1@) == old(self)@.pane_focused(i, pane),
                None => !r.0 && r.1@.len() == 0 && final(self)@ == old(self)@,
            },
            final(self)@.wf(),
    {
        proof {
            holder_is_found(self@.windows, pane);
        }
        let i: usize = match find_holder(&self.windows, pane) {
            Some(i) => i,
            None => {
                return (false, Vec::new());
            },
        };
        let ghost before = self@;
        let id: WindowId = self.windows[i].id;
        let mut effects: Vec<Effect> = Vec::new();
        if self.windows[i].zoomed.is_some() {
            self.windows[i].zoomed = None;
            effects.push(Effect::Unzoom(id));
        }
        self.windows[i].focus(pane);
        self.active = id;
        effects.push(Effect::Focus(id, pane));
        effects.push(Effect::Resize(id));
        proof {
            let w = (WindowView { zoomed: None, ..before.windows[i as int] }).focused(pane);
            touching_keeps_wf(before, i as int, w);
            slots_are_unique(before.windows, before.next_pane, before.next_window, i as int);
            slots_after_update(before.windows, i as int, w, id);
            assert(self@.windows =~= before.windows.update(i as int, w));
            assert(effects@ =~= before.pane_focused(i as int, pane).1);
        }
        (true, effects)
    }

    /// Gives the window at a place a name of its own.
    pub fn set_window_name(&mut self, idx: usize, name: String)
        requires
            old(self)@.wf(),
        ensures
            final(self)@ == (if idx < old(self)@.windows.len() {
                old(self)@.window_renamed(idx as int, name@)
            } else {
                old(self)@
            }),
            final(self)@.wf(),
            old(self)@.windows.len() > 0 ==> final(self)@.here() == old(self)@.here(),
    {
        if idx < self.windows.len() {
            let ghost before = self@;
            self.windows[idx].shown_name = name.clone();
            self.windows[idx].name = name;
            proof {
                let w = before.window_renamed(idx as int, name@).windows[idx as int];
                touching_keeps_wf(before, idx as int, w);
                assert(self@.windows =~= before.windows.update(idx as int, w));
            }
        }
    }

    /// Sets the name under which a window is shown that takes it from its active pane.
    pub fn set_shown_name(&mut self, idx: usize, name: String)
        requires
            old(self)@.wf(),
        ensures
            final(self)@ == (if idx < old(self)@.windows.len() {
                old(self)@.with(
                    idx as int,
                    WindowView { shown_name: name@, ..old(self)@.windows[idx as int] },
                )
            } else {
                old(self)@
            }),
            final(self)@.wf(),
    {
        if idx < self.windows.len() {
            let ghost before = self@;
            self.windows[idx].shown_name = name;
            proof {
                let w = WindowView { shown_name: name@, ..before.windows[idx as int] };
                touching_keeps_wf(before, idx as int, w);
                assert(self@.windows =~= before.windows.update(idx as int, w));
            }
        }
    }

    /// Sets the home of the window at a place.
    pub fn set_window_home_cwd(&mut self, idx: usize, home_cwd: Option<String>)
        requires
            old(self)@.wf(),
        ensures
            final(self)@ == (if idx < old(self)@.windows.len() {
                old(self)@.with(
                    idx as int,
                    WindowView { home_cwd: opt_text(home_cwd), ..old(self)@.windows[idx as int] },
                )
            } else {
                old(self)@
            }),
            final(self)@.wf(),
    {
        if idx < self.windows.len() {
            let ghost before = self@;
            self.windows[idx].home_cwd = home_cwd;
            proof {
                let w = WindowView {
                    home_cwd: opt_text(home_cwd),
                    ..before.windows[idx as int]
                };
                touching_keeps_wf(before, idx as int, w);
                assert(self@.windows =~= before.windows.update(idx as int, w));
            }
        }
    }

    /// Renames the active window.
    pub fn rename_active_window(&mut self, name: String)
        requires
            old(self)@.live(),
        ensures
            final(self)@ == old(self)@.window_renamed(old(self)@.here(), name@),
            final(self)@.live(),
    {
        let i: usize = self.active_idx();
        self.set_window_name(i, name);
    }

    /// Renames the window with a given number. Returns false if there is none.
    pub fn rename_window_by_id(&mut self, id: WindowId, name: String) -> (r: bool)
        requires
            old(self)@.wf(),
        ensures
            match slot_of(old(self)@.windows, id) {
                Some(i) => r && final(self)@ == old(self)@.window_renamed(i, name@),
                None => !r && final(self)@ == old(self)@,
            },
            final(self)@.wf(),
    {
        match find_window(&self.windows, id) {
            Some(i) => {
                proof {
                    slot_is_found(self@.windows, id);
                }
                self.set_window_name(i, name);
                true
            },
            None => false,
        }
    }

    /// Renames a pane, in whatever window it is. Returns false if it is in none.
    pub fn rename_pane_by_id(&mut self, pane: PaneId, name: String) -> (r: bool)
        requires
            old(self)@.wf(),
        ensures
            match holder_of(old(self)@.windows, pane) {
                Some(i) => r && final(self)@ == old(self)@.pane_renamed(i, pane, name@),
                None => !r && final(self)@ == old(self)@,
            },
            final(self)@.wf(),
            old(self)@.windows.len() > 0 ==> final(self)@.here() == old(self)@.here(),
            final(self)@.windows.len() == old(self)@.windows.len(),
    {
        proof {
            holder_is_found(self@.windows, pane);
        }
        match find_holder(&self.windows, pane) {
            Some(i) => {
                let ghost before = self@;
                match super::window::find_pane(&self.windows[i].panes, pane) {
                    Some(k) => {
                        self.windows[i].panes[k].name = Some(name);
                    },
                    None => {},
                }
                proof {
                    renaming_keeps_wf(before, i as int, pane, name@);
                    let w = before.pane_renamed(i as int, pane, name@).windows[i as int];
                    assert(self.windows@[i as int]@.panes =~= w.panes);
                    assert(self@.windows =~= before.windows.update(i as int, w));
                }
                true
            },
            None => false,
        }
    }

    /// Renames the active pane.
    pub fn rename_active_pane(&mut self, name: String)
        requires
            old(self)@.live(),
        ensures
            final(self)@ == old(self)@.pane_renamed(
                old(self)@.here(),
                old(self)@.window().active,
                name@,
            ),
            final(self)@.live(),
    {
        let pane: PaneId = self.active_window().active;
        proof {
            let s = self@;
            slot_is_found(s.windows, s.active);
            assert(s.windows[s.here()].wf());
            holders_are_unique(s.windows, s.next_pane, s.next_window, s.here(), pane);
        }
        let renamed: bool = self.rename_pane_by_id(pane, name);
    }

    /// The programs of a window, to be ended. Returns false if there is no such
    /// window. The window goes when their ends are reported.
    pub fn kill_window_panes(&self, id: WindowId) -> (r: (bool, Vec<Effect>))
        ensures
            match slot_of(self@.windows, id) {
                Some(i) => r.0 && r.1@ == kills(self@.windows[i].panes),
                None => !r.0 && r.1@.len() == 0,
            },
    {
        match find_window(&self.windows, id) {
            Some(i) => (true, kill_all(&self.windows[i].panes)),
            None => (false, Vec::new()),
        }
    }

    /// The program of a pane, to be ended. Returns false if no window holds the pane.
    pub fn kill_pane_child(&self, pane: PaneId) -> (r: (bool, Vec<Effect>))
        ensures
            match holder_of(self@.windows, pane) {
                Some(_) => r.0 && r.1@ == seq![Effect::KillChild(pane)],
                None => !r.0 && r.1@.len() == 0,
            },
    {
        let mut effects: Vec<Effect> = Vec::new();
        if find_holder(&self.windows, pane).is_some() {
            effects.push(Effect::KillChild(pane));
            assert(effects@ =~= seq![Effect::KillChild(pane)]);
            (true, effects)
        } else {
            (false, effects)
        }
    }

    /// Closes the popup.
    pub fn close_popup(&mut self) -> (effects: Vec<Effect>)
        ensures
            (final(self)@, effects@) == old(self)@.popup_closed(),
            old(self)@.wf() ==> final(self)@.wf(),
    {
        let mut effects: Vec<Effect> = Vec::new();
        match &self.popup {
            Some(p) => {
                effects.push(Effect::KillChild(p.pane));
                effects.push(Effect::Wake);
                self.popup = None;
            },
            None => {},
        }
        assert(effects@ =~= old(self)@.popup_closed().1);
        effects
    }
}

/// The programs of a list of panes, to be ended.
pub(crate) fn kill_all(panes: &Vec<Pane>) -> (effects: Vec<Effect>)
    ensures
        effects@ == kills(super::window::panes_view(panes@)),
{
    let mut effects: Vec<Effect> = Vec::new();
    let mut i: usize = 0;
    while i < panes.len()
        invariant
            i <= panes.len(),
            effects@ =~= kills(super::window::panes_view(panes@).take(i as int)),
        decreases panes.len() - i,
    {
        effects.push(Effect::KillChild(panes[i].id));
        i += 1;
    }
    assert(effects@ =~= kills(super::window::panes_view(panes@)));
    effects
}

} // verus!
