//! What the window manager knows of a window and of its panes.
use super::types::{LayoutPreset, PaneId, WindowId};
use vstd::prelude::*;

verus! {

/// What the manager knows of a pane.
#[derive(Debug)]
pub struct Pane {
    pub id: PaneId,
    pub name: Option<String>,
    /// The pane runs a command; when it ends, a shell takes its place.
    pub respawn: bool,
}

/// The contents of the record of a pane.
pub ghost struct PaneView {
    pub id: PaneId,
    pub name: Option<Seq<char>>,
    pub respawn: bool,
}

impl View for Pane {
    type V = PaneView;

    open spec fn view(&self) -> PaneView {
        PaneView { id: self.id, name: opt_text(self.name), respawn: self.respawn }
    }
}

/// The text, if there is one.
pub open spec fn opt_text(s: Option<String>) -> Option<Seq<char>> {
    match s {
        Some(t) => Some(t@),
        None => None,
    }
}

/// What is watched in a window that is not shown, and what was seen.
#[derive(Debug, Clone, Copy, PartialEq, Eq, Structural)]
pub struct Monitor {
    pub activity: bool,
    pub bell: bool,
    pub command: bool,
    /// The time without output after which silence is reported, in milliseconds.
    pub silence: Option<u64>,
    pub activity_flag: bool,
    pub bell_flag: bool,
    /// A command ended: whether it succeeded.
    pub done_flag: Option<bool>,
    pub silence_flag: bool,
    /// This silence was reported.
    pub silence_reported: bool,
    /// The time of the last output, in milliseconds.
    pub last_output: u64,
}

impl Monitor {
    /// A window at first reports the bell and nothing else.
    pub open spec fn initial(now: u64) -> Monitor {
        Monitor {
            activity: false,
            bell: true,
            command: false,
            silence: None,
            activity_flag: false,
            bell_flag: false,
            done_flag: None,
            silence_flag: false,
            silence_reported: false,
            last_output: now,
        }
    }

    /// Nothing was seen. What is watched stays, and a silence that was reported is
    /// not reported again.
    pub open spec fn seen(self) -> Monitor {
        Monitor {
            activity_flag: false,
            bell_flag: false,
            done_flag: None,
            silence_flag: false,
            ..self
        }
    }

    /// Output came: a new silence begins after it.
    pub open spec fn heard(self, acted: bool, now: u64) -> Monitor {
        if acted {
            Monitor { last_output: now, silence_reported: false, ..self }
        } else {
            self
        }
    }

    /// Silence watched, or no longer.
    pub open spec fn with_silence(self, ms: Option<u64>) -> Monitor {
        match ms {
            Some(_) => Monitor { silence: ms, ..self },
            None => Monitor {
                silence: None,
                silence_flag: false,
                silence_reported: false,
                ..self
            },
        }
    }

    /// Whether a silence is to be reported.
    pub open spec fn falls_silent(self, now: u64) -> bool {
        !self.silence_reported && (self.silence matches Some(ms) && now - self.last_output >= ms)
    }
}

/// What the manager knows of a window.
#[derive(Debug)]
pub struct Window {
    pub id: WindowId,
    /// The name that it was given; empty if it takes one from its active pane.
    pub name: String,
    /// The name under which it is shown.
    pub shown_name: String,
    /// Where new panes of the window start.
    pub home_cwd: Option<String>,
    pub panes: Vec<Pane>,
    pub active: PaneId,
    /// The pane that was active before.
    pub last: Option<PaneId>,
    /// The pane that fills the window for a while.
    pub zoomed: Option<PaneId>,
    /// Input goes to all panes.
    pub sync_input: bool,
    pub last_preset: Option<LayoutPreset>,
    pub monitor: Monitor,
}

/// The contents of the record of a window.
pub ghost struct WindowView {
    pub id: WindowId,
    pub name: Seq<char>,
    pub shown_name: Seq<char>,
    pub home_cwd: Option<Seq<char>>,
    pub panes: Seq<PaneView>,
    pub active: PaneId,
    pub last: Option<PaneId>,
    pub zoomed: Option<PaneId>,
    pub sync_input: bool,
    pub last_preset: Option<LayoutPreset>,
    pub monitor: Monitor,
}

/// The contents of a list of panes.
pub open spec fn panes_view(v: Seq<Pane>) -> Seq<PaneView> {
    Seq::new(v.len(), |i: int| v[i]@)
}

impl View for Window {
    type V = WindowView;

    open spec fn view(&self) -> WindowView {
        WindowView {
            id: self.id,
            name: self.name@,
            shown_name: self.shown_name@,
            home_cwd: opt_text(self.home_cwd),
            panes: panes_view(self.panes@),
            active: self.active,
            last: self.last,
            zoomed: self.zoomed,
            sync_input: self.sync_input,
            last_preset: self.last_preset,
            monitor: self.monitor,
        }
    }
}

/// The contents of a list of windows.
pub open spec fn windows_view(v: Seq<Window>) -> Seq<WindowView> {
    Seq::new(v.len(), |i: int| v[i]@)
}

pub broadcast proof fn windows_view_push(v: Seq<Window>, x: Window)
    ensures
        #[trigger] windows_view(v.push(x)) == windows_view(v).push(x@),
{
    assert(windows_view(v.push(x)) =~= windows_view(v).push(x@));
}

pub broadcast proof fn windows_view_update(v: Seq<Window>, i: int, x: Window)
    requires
        0 <= i < v.len(),
    ensures
        #[trigger] windows_view(v.update(i, x)) == windows_view(v).update(i, x@),
{
    assert(windows_view(v.update(i, x)) =~= windows_view(v).update(i, x@));
}

pub broadcast proof fn windows_view_remove(v: Seq<Window>, i: int)
    requires
        0 <= i < v.len(),
    ensures
        #[trigger] windows_view(v.remove(i)) == windows_view(v).remove(i),
{
    assert(windows_view(v.remove(i)) =~= windows_view(v).remove(i));
}

pub broadcast proof fn windows_view_insert(v: Seq<Window>, i: int, x: Window)
    requires
        0 <= i <= v.len(),
    ensures
        #[trigger] windows_view(v.insert(i, x)) == windows_view(v).insert(i, x@),
{
    assert(windows_view(v.insert(i, x)) =~= windows_view(v).insert(i, x@));
}

pub broadcast proof fn panes_view_push(v: Seq<Pane>, x: Pane)
    ensures
        #[trigger] panes_view(v.push(x)) == panes_view(v).push(x@),
{
    assert(panes_view(v.push(x)) =~= panes_view(v).push(x@));
}

pub broadcast proof fn panes_view_update(v: Seq<Pane>, i: int, x: Pane)
    requires
        0 <= i < v.len(),
    ensures
        #[trigger] panes_view(v.update(i, x)) == panes_view(v).update(i, x@),
{
    assert(panes_view(v.update(i, x)) =~= panes_view(v).update(i, x@));
}

pub broadcast proof fn panes_view_remove(v: Seq<Pane>, i: int)
    requires
        0 <= i < v.len(),
    ensures
        #[trigger] panes_view(v.remove(i)) == panes_view(v).remove(i),
{
    assert(panes_view(v.remove(i)) =~= panes_view(v).remove(i));
}

pub broadcast group group_windows {
    windows_view_push,
    windows_view_update,
    windows_view_remove,
    windows_view_insert,
    panes_view_push,
    panes_view_update,
    panes_view_remove,
}

/// The place of a pane in a list.
pub open spec fn place_of(panes: Seq<PaneView>, pane: PaneId) -> Option<int>
    decreases panes.len(),
{
    if panes.len() == 0 {
        None
    } else {
        match place_of(panes.drop_last(), pane) {
            Some(i) => Some(i),
            None => if panes.last().id == pane {
                Some(panes.len() - 1)
            } else {
                None
            },
        }
    }
}

/// A pane is found where it stands first, if it stands in the list.
pub proof fn place_is_found(panes: Seq<PaneView>, pane: PaneId)
    ensures
        match place_of(panes, pane) {
            Some(i) => 0 <= i < panes.len() && panes[i].id == pane && forall|j: int|
                0 <= j < i ==> (#[trigger] panes[j]).id != pane,
            None => forall|j: int| 0 <= j < panes.len() ==> (#[trigger] panes[j]).id != pane,
        },
    decreases panes.len(),
{
    if panes.len() > 0 {
        place_is_found(panes.drop_last(), pane);
        match place_of(panes.drop_last(), pane) {
            Some(i) => {
                assert(panes.drop_last()[i] == panes[i]);
                assert forall|j: int| 0 <= j < i implies (#[trigger] panes[j]).id != pane by {
                    assert(panes.drop_last()[j] == panes[j]);
                }
            },
            None => {
                assert forall|j: int| 0 <= j < panes.len() - 1 implies (#[trigger] panes[j]).id
                    != pane by {
                    assert(panes.drop_last()[j] == panes[j]);
                }
            },
        }
    }
}

impl WindowView {
    /// Whether the window holds the pane.
    pub open spec fn holds(self, pane: PaneId) -> bool {
        place_of(self.panes, pane) is Some
    }

    /// The window holds no pane twice, and its active pane, the one before it and the
    /// one that fills it are among its panes.
    pub open spec fn wf(self) -> bool {
        &&& self.holds(self.active)
        &&& (self.last matches Some(p) ==> self.holds(p))
        &&& (self.zoomed matches Some(p) ==> self.holds(p))
        &&& forall|a: int, b: int|
            0 <= a < b < self.panes.len() ==> (#[trigger] self.panes[a]).id != (
            #[trigger] self.panes[b]).id
    }

    /// The window with another active pane.
    pub open spec fn focused(self, pane: PaneId) -> WindowView {
        if pane == self.active {
            self
        } else {
            WindowView { active: pane, last: Some(self.active), ..self }
        }
    }

    /// The window without a pane, where `focus` becomes active if the pane was.
    pub open spec fn without(self, pane: PaneId, focus: PaneId) -> WindowView {
        WindowView {
            panes: match place_of(self.panes, pane) {
                Some(i) => self.panes.remove(i),
                None => self.panes,
            },
            active: focus,
            last: if self.last == Some(pane) || self.last == Some(focus) {
                None
            } else {
                self.last
            },
            zoomed: if self.zoomed == Some(pane) {
                None
            } else {
                self.zoomed
            },
            ..self
        }
    }

    /// The window with another pane in the place of one. What was said of the one is
    /// said of the other.
    pub open spec fn replaced(self, pane: PaneId, by: PaneView) -> WindowView {
        WindowView {
            panes: match place_of(self.panes, pane) {
                Some(i) => self.panes.update(i, by),
                None => self.panes,
            },
            active: if self.active == pane {
                by.id
            } else {
                self.active
            },
            last: if self.last == Some(pane) {
                Some(by.id)
            } else {
                self.last
            },
            zoomed: if self.zoomed == Some(pane) {
                Some(by.id)
            } else {
                self.zoomed
            },
            ..self
        }
    }

    /// The window with one more pane, which is active.
    pub open spec fn with_pane(self, pane: PaneView) -> WindowView {
        WindowView {
            panes: self.panes.push(pane),
            active: pane.id,
            last: Some(self.active),
            ..self
        }
    }
}

/// A new window with one pane.
pub open spec fn new_window(
    id: WindowId,
    name: Seq<char>,
    home_cwd: Option<Seq<char>>,
    pane: PaneView,
    now: u64,
) -> WindowView {
    WindowView {
        id,
        name,
        shown_name: name,
        home_cwd,
        panes: seq![pane],
        active: pane.id,
        last: None,
        zoomed: None,
        sync_input: false,
        last_preset: None,
        monitor: Monitor::initial(now),
    }
}

/// The place of a pane in a list.
pub fn find_pane(panes: &Vec<Pane>, pane: PaneId) -> (r: Option<usize>)
    ensures
        match place_of(panes_view(panes@), pane) {
            Some(i) => r matches Some(k) && k == i && i < panes@.len(),
            None => r is None,
        },
{
    let ghost all = panes_view(panes@);
    let mut i: usize = 0;
    assert(all.take(0) =~= Seq::empty());
    while i < panes.len()
        invariant
            i <= panes.len(),
            all == panes_view(panes@),
            place_of(all.take(i as int), pane) is None,
        decreases panes.len() - i,
    {
        assert(all.take(i + 1).drop_last() =~= all.take(i as int));
        assert(all.take(i + 1).last() == panes@[i as int]@);
        if panes[i].id == pane {
            proof {
                places_stay(all, i + 1, pane);
            }
            return Some(i);
        }
        i += 1;
    }
    assert(all.take(i as int) =~= all);
    None
}

/// A pane that is found among the first panes is found there among all.
proof fn places_stay(panes: Seq<PaneView>, n: int, pane: PaneId)
    requires
        0 <= n <= panes.len(),
        place_of(panes.take(n), pane) is Some,
    ensures
        place_of(panes, pane) == place_of(panes.take(n), pane),
    decreases panes.len(),
{
    if n == panes.len() {
        assert(panes.take(n) =~= panes);
    } else {
        assert(panes.drop_last().take(n) =~= panes.take(n));
        places_stay(panes.drop_last(), n, pane);
    }
}

impl Window {
    /// A new window with one pane.
    pub fn new(
        id: WindowId,
        name: String,
        home_cwd: Option<String>,
        pane: Pane,
        now: u64,
    ) -> (w: Window)
        ensures
            w@ == new_window(id, name@, opt_text(home_cwd), pane@, now),
    {
        let active: PaneId = pane.id;
        let shown_name: String = name.clone();
        let mut panes: Vec<Pane> = Vec::new();
        let ghost one = pane@;
        panes.push(pane);
        assert(panes_view(panes@) =~= seq![one]);
        Window {
            id,
            name,
            shown_name,
            home_cwd,
            panes,
            active,
            last: None,
            zoomed: None,
            sync_input: false,
            last_preset: None,
            monitor: Monitor {
                activity: false,
                bell: true,
                command: false,
                silence: None,
                activity_flag: false,
                bell_flag: false,
                done_flag: None,
                silence_flag: false,
                silence_reported: false,
                last_output: now,
            },
        }
    }

    /// Whether the window holds the pane.
    pub fn holds(&self, pane: PaneId) -> (r: bool)
        ensures
            r == self@.holds(pane),
    {
        find_pane(&self.panes, pane).is_some()
    }

    /// Makes another pane active.
    pub fn focus(&mut self, pane: PaneId)
        ensures
            final(self)@ == old(self)@.focused(pane),
    {
        if pane != self.active {
            self.last = Some(self.active);
            self.active = pane;
        }
    }

    /// Takes a pane out; `focus` is active then.
    pub fn take_out(&mut self, pane: PaneId, focus: PaneId) -> (taken: Option<Pane>)
        ensures
            final(self)@ == old(self)@.without(pane, focus),
            match place_of(old(self)@.panes, pane) {
                Some(i) => taken matches Some(p) && p@ == old(self)@.panes[i],
                None => taken is None,
            },
    {
        broadcast use group_windows;
        proof {
            place_is_found(self@.panes, pane);
        }
        let taken: Option<Pane> = match find_pane(&self.panes, pane) {
            Some(i) => Some(self.panes.remove(i)),
            None => None,
        };
        self.active = focus;
        if self.last == Some(pane) || self.last == Some(focus) {
            self.last = None;
        }
        if self.zoomed == Some(pane) {
            self.zoomed = None;
        }
        taken
    }

    /// Puts another pane in the place of one.
    pub fn replace(&mut self, pane: PaneId, by: Pane) -> (taken: Option<Pane>)
        ensures
            final(self)@ == old(self)@.replaced(pane, by@),
            match place_of(old(self)@.panes, pane) {
                Some(i) => taken matches Some(p) && p@ == old(self)@.panes[i],
                None => taken is None,
            },
    {
        broadcast use group_windows;
        proof {
            place_is_found(self@.panes, pane);
        }
        let id: PaneId = by.id;
        let taken: Option<Pane> = match find_pane(&self.panes, pane) {
            Some(i) => {
                let ghost before = self.panes@;
                let gone: Pane = self.panes.remove(i);
                self.panes.insert(i, by);
                assert(self.panes@ =~= before.update(i as int, by));
                Some(gone)
            },
            None => None,
        };
        if self.active == pane {
            self.active = id;
        }
        if self.last == Some(pane) {
            self.last = Some(id);
        }
        if self.zoomed == Some(pane) {
            self.zoomed = Some(id);
        }
        taken
    }

    /// Adds a pane, which is active then.
    pub fn add_pane(&mut self, pane: Pane)
        ensures
            final(self)@ == old(self)@.with_pane(pane@),
    {
        broadcast use group_windows;
        self.last = Some(self.active);
        self.active = pane.id;
        self.panes.push(pane);
    }
}

} // verus!
