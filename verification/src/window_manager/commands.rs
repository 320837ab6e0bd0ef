//! What the commands of the user do.
use super::facts::{exchanged, exchanging_panes};
use super::lifecycle::removing_keeps_wf;
use super::messages::{name_window, named_window, number, push_number};
use super::state::{
    holder_is_found, holder_of, holders_are_unique, numbers_may_grow, slot_is_found, slot_of,
    Overlay, WmView,
};
use super::structure::{kill_all, kills, touching_keeps_wf};
use super::types::{
    Command, Direction, Effect, LayoutPreset, PaneId, Purpose, Severity, SplitDir, WindowId,
};
use super::window::{place_is_found, place_of, Monitor, Pane, WindowView};
use super::{find_holder, find_window, WindowManager};
use vstd::prelude::*;
use vstd::string::StringExecFns;

verus! {

broadcast use super::window::group_windows;

/// The number of cells by which a command moves a border.
pub const RESIZE_STEP: i32 = 3;

/// Whether a command ends the zoom first: one that changes what windows and panes
/// there are, or which is active. To look at a pane does not.
pub open spec fn clears_zoom(cmd: Command) -> bool {
    match cmd {
        Command::SplitV | Command::SplitH | Command::KillPane | Command::KillWindow => true,
        Command::NewWindow | Command::NextWindow | Command::PrevWindow => true,
        Command::SelectWindow(_) | Command::SelectLastWindow | Command::SelectLastPane => true,
        Command::SelectNextPane | Command::SelectPrevPane | Command::SelectPane(_) => true,
        Command::ResizePane(_) | Command::BreakPane | Command::JoinPane(_) => true,
        Command::SwapPane(_) | Command::SwapMarkedPane => true,
        Command::SelectLayout(_) | Command::NextLayout => true,
        _ => false,
    }
}

/// Whether a command ends the zoom first.
pub fn command_clears_zoom(cmd: Command) -> (r: bool)
    ensures
        r == clears_zoom(cmd),
{
    match cmd {
        Command::SplitV | Command::SplitH | Command::KillPane | Command::KillWindow => true,
        Command::NewWindow | Command::NextWindow | Command::PrevWindow => true,
        Command::SelectWindow(_) | Command::SelectLastWindow | Command::SelectLastPane => true,
        Command::SelectNextPane | Command::SelectPrevPane | Command::SelectPane(_) => true,
        Command::ResizePane(_) | Command::BreakPane | Command::JoinPane(_) => true,
        Command::SwapPane(_) | Command::SwapMarkedPane => true,
        Command::SelectLayout(_) | Command::NextLayout => true,
        _ => false,
    }
}

/// The border that a command moves, and by how much.
pub open spec fn growth(dir: Direction) -> (SplitDir, i32) {
    match dir {
        Direction::Left => (SplitDir::Vertical, (-RESIZE_STEP) as i32),
        Direction::Right => (SplitDir::Vertical, RESIZE_STEP),
        Direction::Up => (SplitDir::Horizontal, (-RESIZE_STEP) as i32),
        Direction::Down => (SplitDir::Horizontal, RESIZE_STEP),
    }
}

/// A number of seconds in milliseconds, as far as that can be counted.
pub open spec fn millis(secs: u64) -> u64 {
    if secs * 1000 <= u64::MAX {
        (secs * 1000) as u64
    } else {
        u64::MAX
    }
}

pub open spec fn on_or_off(on: bool) -> Seq<char> {
    if on {
        "on"@
    } else {
        "off"@
    }
}

/// The text on a silence that is watched.
pub open spec fn silence_text(secs: Option<u64>) -> Seq<char> {
    match secs {
        Some(n) => "monitor-silence "@ + number(n as nat) + "s"@,
        None => "monitor-silence off"@,
    }
}

impl WmView {
    /// The numbers that a command gives out are left. Most give out none.
    pub open spec fn has_numbers_for(self, cmd: Command) -> bool {
        match cmd {
            Command::NewWindow => self.has_numbers(),
            Command::SplitV | Command::SplitH | Command::OpenPopup => self.has_pane_number(),
            _ => true,
        }
    }

    /// A number given to a new pane.
    pub open spec fn pane_numbered(self) -> WmView {
        WmView { next_pane: (self.next_pane + 1) as u32, ..self }
    }

    /// Numbers given to a new window and its pane.
    pub open spec fn window_numbered(self) -> WmView {
        WmView { next_window: (self.next_window + 1) as u32, ..self.pane_numbered() }
    }

    /// The active window removed and its programs ended. A pane of it is marked no
    /// more.
    pub open spec fn window_closed(self) -> (WmView, Seq<Effect>) {
        let w = self.window();
        let s = WmView {
            marked: if self.marked matches Some(m) && w.holds(m) {
                None
            } else {
                self.marked
            },
            ..self
        };
        let (t, effects) = s.window_removed(self.here());
        (t, kills(w.panes) + effects)
    }

    /// Other things watched in the active window, and a message on it.
    pub open spec fn monitored(self, monitor: Monitor, text: Seq<char>, now: u64) -> WmView {
        self.with_active(WindowView { monitor, ..self.window() }).told(text, Severity::Info, now)
    }

    /// The panes of the active window rearranged. The active pane gets the main place
    /// where there is one.
    pub open spec fn arranged(self, preset: LayoutPreset) -> (WmView, Seq<Effect>) {
        let w = self.window();
        let main = match preset {
            LayoutPreset::MainHorizontal | LayoutPreset::MainVertical => Some(w.active),
            _ => None,
        };
        (
            self.with_active(WindowView { last_preset: Some(preset), ..w }),
            seq![Effect::Arrange(w.id, preset, main), Effect::Resize(w.id), Effect::Wake],
        )
    }

    /// The marked pane asked to join the active one.
    pub open spec fn join_asked(self, dir: SplitDir, now: u64) -> (WmView, Seq<Effect>) {
        match self.marked {
            Some(m) => if m == self.window().active {
                (
                    self.told("marked pane is the active pane"@, Severity::Info, now),
                    Seq::empty(),
                )
            } else {
                match holder_of(self.windows, m) {
                    Some(i) => (
                        self,
                        seq![Effect::Remove(self.windows[i].id, m, Purpose::Join(dir))],
                    ),
                    None => (WmView { marked: None, ..self }, Seq::empty()),
                }
            },
            None => (self.told("no marked pane"@, Severity::Info, now), Seq::empty()),
        }
    }

    /// The marked pane and the active one exchanged. The mark stays on its pane; what
    /// was said of a place, that it is active or fills the window, is said of the pane
    /// that is there now.
    pub open spec fn mark_swapped(self, now: u64) -> (WmView, Seq<Effect>) {
        let w = self.window();
        let a = w.active;
        match self.marked {
            Some(m) => if m == a {
                (self, Seq::empty())
            } else if w.holds(m) {
                (self, seq![Effect::SwapPanes(w.id, a, m), Effect::Resize(w.id)])
            } else {
                match holder_of(self.windows, m) {
                    Some(j) => {
                        let other = self.windows[j].id;
                        (
                            WmView {
                                windows: exchanged(self.windows, self.here(), a, j, m),
                                ..self
                            },
                            seq![
                                Effect::SwapAcross(w.id, a, other, m),
                                Effect::Resize(w.id),
                                Effect::Resize(other),
                            ],
                        )
                    },
                    None => (WmView { marked: None, ..self }, Seq::empty()),
                }
            },
            None => (self.told("no marked pane"@, Severity::Info, now), Seq::empty()),
        }
    }

    /// A command on the panes of the active window.
    pub open spec fn pane_command(self, cmd: Command, now: u64) -> (WmView, Seq<Effect>) {
        let w = self.window();
        match cmd {
            Command::SplitV => (
                self.pane_numbered(),
                seq![Effect::Split(w.id, SplitDir::Vertical, PaneId(self.next_pane))],
            ),
            Command::SplitH => (
                self.pane_numbered(),
                seq![Effect::Split(w.id, SplitDir::Horizontal, PaneId(self.next_pane))],
            ),
            Command::SelectNextPane => (self, seq![Effect::FocusNext(w.id)]),
            Command::SelectPrevPane => (self, seq![Effect::FocusPrev(w.id)]),
            Command::SelectPane(dir) => (self, seq![Effect::FocusToward(w.id, dir)]),
            Command::SelectLastPane => match w.last {
                Some(p) => (
                    self.with_active(w.focused(p)),
                    seq![Effect::Focus(w.id, p)],
                ),
                None => (self, Seq::empty()),
            },
            Command::KillPane => (self, seq![Effect::Remove(w.id, w.active, Purpose::Close)]),
            Command::MarkPane => if self.marked == Some(w.active) {
                (
                    WmView { marked: None, ..self }.told("mark cleared"@, Severity::Info, now),
                    Seq::empty(),
                )
            } else {
                (
                    WmView { marked: Some(w.active), ..self }.told(
                        "marked pane"@,
                        Severity::Success,
                        now,
                    ),
                    Seq::empty(),
                )
            },
            Command::BreakPane => if w.panes.len() < 2 {
                (self.told("only pane in window"@, Severity::Info, now), Seq::empty())
            } else {
                (self, seq![Effect::Remove(w.id, w.active, Purpose::Break)])
            },
            Command::SwapPane(next) => (
                self,
                seq![Effect::SwapWithNeighbor(w.id, w.active, next)],
            ),
            Command::JoinPane(dir) => self.join_asked(dir, now),
            Command::SwapMarkedPane => self.mark_swapped(now),
            Command::ResizePane(dir) => (
                self,
                seq![
                    Effect::Grow(w.id, w.active, growth(dir).0, growth(dir).1),
                    Effect::Resize(w.id),
                ],
            ),
            Command::ZoomToggle => (
                self.with_active(
                    WindowView {
                        zoomed: match w.zoomed {
                            Some(_) => None,
                            None => Some(w.active),
                        },
                        ..w
                    },
                ),
                seq![Effect::Resize(w.id)],
            ),
            Command::ToggleSyncPanes => (
                self.with_active(WindowView { sync_input: !w.sync_input, ..w }),
                Seq::empty(),
            ),
            Command::EnterCopyMode => (self, seq![Effect::CopyMode(w.active)]),
            Command::PrevPrompt => (self, seq![Effect::ScrollToPrompt(w.active, false)]),
            Command::NextPrompt => (self, seq![Effect::ScrollToPrompt(w.active, true)]),
            Command::SelectLayout(preset) => self.arranged(preset),
            Command::NextLayout => self.arranged(
                match w.last_preset {
                    Some(p) => p.following(),
                    None => LayoutPreset::EvenHorizontal,
                },
            ),
            _ => (self, Seq::empty()),
        }
    }

    /// A command, once a zoom that it ends is over. Commands on the connection do
    /// nothing here.
    pub open spec fn window_command(self, cmd: Command, now: u64) -> (WmView, Seq<Effect>) {
        let n = self.windows.len() as int;
        let w = self.window();
        let m = w.monitor;
        match cmd {
            Command::NewWindow => (
                self.window_numbered(),
                seq![
                    Effect::SpawnWindow(WindowId(self.next_window), PaneId(self.next_pane)),
                ],
            ),
            Command::NextWindow => (
                self.switched_to(
                    if self.here() + 1 == n {
                        0
                    } else {
                        self.here() + 1
                    },
                ),
                Seq::empty(),
            ),
            Command::PrevWindow => (
                self.switched_to(
                    if self.here() == 0 {
                        n - 1
                    } else {
                        self.here() - 1
                    },
                ),
                Seq::empty(),
            ),
            Command::SelectWindow(i) => (self.switched_to(i as int), Seq::empty()),
            Command::SelectLastWindow => match self.last_active {
                Some(id) => match slot_of(self.windows, id) {
                    Some(i) => (self.switched_to(i), Seq::empty()),
                    None => (self, Seq::empty()),
                },
                None => (self, Seq::empty()),
            },
            Command::KillWindow => {
                let (s, effects) = self.window_closed();
                (
                    s.told(
                        named_window("killed window "@, self.here(), w.shown_name),
                        Severity::Success,
                        now,
                    ),
                    effects,
                )
            },
            Command::ToggleMonitorActivity => (
                self.monitored(
                    Monitor { activity: !m.activity, ..m },
                    "monitor-activity "@ + on_or_off(!m.activity),
                    now,
                ),
                Seq::empty(),
            ),
            Command::ToggleMonitorBell => (
                self.monitored(
                    Monitor { bell: !m.bell, ..m },
                    "monitor-bell "@ + on_or_off(!m.bell),
                    now,
                ),
                Seq::empty(),
            ),
            Command::ToggleMonitorCommand => (
                self.monitored(
                    Monitor { command: !m.command, ..m },
                    "monitor-command "@ + on_or_off(!m.command),
                    now,
                ),
                Seq::empty(),
            ),
            Command::SetMonitorSilence(secs) => (
                self.monitored(
                    m.with_silence(
                        match secs {
                            Some(n) => Some(millis(n)),
                            None => None,
                        },
                    ),
                    silence_text(secs),
                    now,
                ),
                Seq::empty(),
            ),
            Command::RenameWindow => (self.opened(Overlay::RenameWindow), Seq::empty()),
            Command::RenamePane => (self.opened(Overlay::RenamePane), Seq::empty()),
            Command::ShowHelp => (self.opened(Overlay::Help), Seq::empty()),
            Command::OpenPopup => (
                self.pane_numbered(),
                seq![Effect::SpawnPopup(PaneId(self.next_pane))],
            ),
            Command::ClosePopup => self.popup_closed(),
            _ => self.pane_command(cmd, now),
        }
    }

    /// What a command does. It ends with a new picture.
    pub open spec fn commanded(self, cmd: Command, now: u64) -> (WmView, Seq<Effect>) {
        let (s, before) = if clears_zoom(cmd) {
            self.unzoomed()
        } else {
            (self, Seq::empty())
        };
        let (t, effects) = s.window_command(cmd, now);
        (t, (before + effects).push(Effect::Wake))
    }
}

/// No effect.
fn nothing() -> (r: Vec<Effect>)
    ensures
        r@ == Seq::<Effect>::empty(),
{
    let r: Vec<Effect> = Vec::new();
    assert(r@ =~= Seq::empty());
    r
}

fn one(a: Effect) -> (r: Vec<Effect>)
    ensures
        r@ == seq![a],
{
    let mut r: Vec<Effect> = Vec::new();
    r.push(a);
    assert(r@ =~= seq![a]);
    r
}

fn two(a: Effect, b: Effect) -> (r: Vec<Effect>)
    ensures
        r@ == seq![a, b],
{
    let mut r: Vec<Effect> = one(a);
    r.push(b);
    assert(r@ =~= seq![a, b]);
    r
}

/// `before` and one of the two words.
fn switch_text(before: &str, on: bool) -> (r: String)
    ensures
        r@ == before@ + on_or_off(on),
{
    let mut out: String = String::from_str(before);
    out.append(
        if on {
            "on"
        } else {
            "off"
        },
    );
    out
}

fn silence_message(secs: Option<u64>) -> (r: String)
    ensures
        r@ == silence_text(secs),
{
    match secs {
        Some(n) => {
            let mut out: String = String::from_str("monitor-silence ");
            push_number(&mut out, n);
            out.append("s");
            out
        },
        None => String::from_str("monitor-silence off"),
    }
}

fn to_millis(secs: u64) -> (r: u64)
    ensures
        r == millis(secs),
{
    match secs.checked_mul(1000) {
        Some(ms) => ms,
        None => u64::MAX,
    }
}

/// The active window is found, and its active pane is in it alone.
proof fn active_is_held(s: WmView)
    requires
        s.live(),
    ensures
        0 <= s.here() < s.windows.len(),
        s.window().id == s.active,
        s.window().wf(),
        holder_of(s.windows, s.window().active) == Some(s.here()),
{
    slot_is_found(s.windows, s.active);
    assert(s.windows[s.here()].wf());
    holders_are_unique(s.windows, s.next_pane, s.next_window, s.here(), s.window().active);
}

/// Giving out numbers keeps the state sound.
proof fn numbering_keeps_wf(s: WmView)
    requires
        s.wf(),
        s.has_pane_number(),
    ensures
        s.pane_numbered().wf(),
        s.has_numbers() ==> s.window_numbered().wf(),
{
    let np = (s.next_pane + 1) as u32;
    let nw = (s.next_window + 1) as u32;
    numbers_may_grow(s.windows, s.next_pane, s.next_window, np, s.next_window);
    if s.has_numbers() {
        numbers_may_grow(s.windows, s.next_pane, s.next_window, np, nw);
    }
}

impl WindowManager {
    /// A number for a new pane.
    pub(crate) fn alloc_pane_id(&mut self) -> (id: PaneId)
        requires
            old(self)@.wf(),
            old(self)@.has_pane_number(),
        ensures
            id == PaneId(old(self)@.next_pane),
            final(self)@ == old(self)@.pane_numbered(),
            final(self)@.wf(),
    {
        proof {
            numbering_keeps_wf(self@);
        }
        let id: PaneId = PaneId(self.next_pane);
        self.next_pane = self.next_pane + 1;
        id
    }

    /// Numbers for a new window and its pane.
    pub(crate) fn alloc_window_ids(&mut self) -> (r: (WindowId, PaneId))
        requires
            old(self)@.wf(),
            old(self)@.has_numbers(),
        ensures
            r == (WindowId(old(self)@.next_window), PaneId(old(self)@.next_pane)),
            final(self)@ == old(self)@.window_numbered(),
            final(self)@.wf(),
    {
        proof {
            numbering_keeps_wf(self@);
        }
        let id: WindowId = WindowId(self.next_window);
        let pane: PaneId = PaneId(self.next_pane);
        self.next_window = self.next_window + 1;
        self.next_pane = self.next_pane + 1;
        (id, pane)
    }

    /// Whether the numbers that a command gives out are left.
    pub fn has_numbers_for(&self, cmd: Command) -> (r: bool)
        ensures
            r == self@.has_numbers_for(cmd),
    {
        match cmd {
            Command::NewWindow => self.has_numbers(),
            Command::SplitV | Command::SplitH | Command::OpenPopup => self.has_pane_number(),
            _ => true,
        }
    }

    /// Makes the window at a place active, and remembers the one before it.
    fn switch_to_window(&mut self, idx: usize)
        requires
            old(self)@.live(),
        ensures
            final(self)@ == old(self)@.switched_to(idx as int),
            final(self)@.live(),
    {
        if idx >= self.windows.len() {
            return;
        }
        let target: WindowId = self.windows[idx].id;
        if target == self.active {
            return;
        }
        self.last_active = Some(self.active);
        self.active = target;
        proof {
            slot_is_found(self@.windows, target);
        }
    }

    /// Removes the active window.
    fn close_active_window(&mut self) -> (effects: Vec<Effect>)
        requires
            old(self)@.live(),
        ensures
            (final(self)@, effects@) == old(self)@.window_closed(),
            final(self)@.wf(),
    {
        let ghost before = self@;
        proof {
            active_is_held(self@);
        }
        let i: usize = self.active_idx();
        let drop_mark: bool = match self.marked {
            Some(m) => self.windows[i].holds(m),
            None => false,
        };
        if drop_mark {
            self.marked = None;
        }
        let mut effects: Vec<Effect> = kill_all(&self.windows[i].panes);
        proof {
            removing_keeps_wf(self@, i as int);
        }
        let (w, rest) = self.remove_window(i);
        let mut rest: Vec<Effect> = rest;
        effects.append(&mut rest);
        effects
    }

    /// Changes what is watched in the active window.
    fn watch(&mut self, monitor: Monitor, text: String, now: u64)
        requires
            old(self)@.live(),
        ensures
            final(self)@ == old(self)@.monitored(monitor, text@, now),
            final(self)@.live(),
    {
        let ghost before = self@;
        let i: usize = self.active_idx();
        self.windows[i].monitor = monitor;
        proof {
            active_is_held(before);
            let w = WindowView { monitor, ..before.window() };
            touching_keeps_wf(before, i as int, w);
            assert(self@.windows =~= before.windows.update(i as int, w));
        }
        self.set_status_message(text, Severity::Info, now);
    }

    /// Rearranges the panes of the active window.
    pub fn apply_layout_preset(&mut self, preset: LayoutPreset) -> (effects: Vec<Effect>)
        requires
            old(self)@.live(),
        ensures
            (final(self)@, effects@) == old(self)@.arranged(preset),
            final(self)@.live(),
    {
        let ghost before = self@;
        let i: usize = self.active_idx();
        self.windows[i].last_preset = Some(preset);
        proof {
            active_is_held(before);
            let w = WindowView { last_preset: Some(preset), ..before.window() };
            touching_keeps_wf(before, i as int, w);
            assert(self@.windows =~= before.windows.update(i as int, w));
        }
        let id: WindowId = self.windows[i].id;
        let main: Option<PaneId> = match preset {
            LayoutPreset::MainHorizontal | LayoutPreset::MainVertical => Some(
                self.windows[i].active,
            ),
            _ => None,
        };
        let mut effects: Vec<Effect> = two(
            Effect::Arrange(id, preset, main),
            Effect::Resize(id),
        );
        effects.push(Effect::Wake);
        assert(effects@ =~= before.arranged(preset).1);
        effects
    }

    /// Rearranges the panes of the active window as the next preset has it.
    pub fn next_layout(&mut self) -> (effects: Vec<Effect>)
        requires
            old(self)@.live(),
        ensures
            (final(self)@, effects@) == old(self)@.pane_command(Command::NextLayout, 0),
            final(self)@.live(),
    {
        let next: LayoutPreset = match self.active_window().last_preset {
            Some(p) => p.next(),
            None => LayoutPreset::EvenHorizontal,
        };
        self.apply_layout_preset(next)
    }

    /// Exchanges two panes of two windows.
    fn exchange(&mut self, i: usize, a: PaneId, j: usize, m: PaneId)
        requires
            old(self)@.live(),
            i < old(self)@.windows.len(),
            j < old(self)@.windows.len(),
            i != j,
            old(self)@.windows[i as int].holds(a),
            old(self)@.windows[j as int].holds(m),
        ensures
            final(self)@ == (WmView {
                windows: exchanged(old(self)@.windows, i as int, a, j as int, m),
                ..old(self)@
            }),
            final(self)@.live(),
    {
        let ghost before = self@;
        let ghost wi = before.windows[i as int];
        let ghost wj = before.windows[j as int];
        proof {
            exchanging_panes(
                before.windows,
                before.next_pane,
                before.next_window,
                i as int,
                a,
                j as int,
                m,
            );
            place_is_found(wi.panes, a);
            place_is_found(wj.panes, m);
        }
        let blank = Pane { id: m, name: None, respawn: false };
        let ghost hole = wj.replaced(m, blank@);
        proof {
            place_is_found(hole.panes, m);
        }
        let taken_m: Option<Pane> = self.windows[j].replace(m, blank);
        if let Some(pm) = taken_m {
            let taken_a: Option<Pane> = self.windows[i].replace(a, pm);
            if let Some(pa) = taken_a {
                let taken_blank: Option<Pane> = self.windows[j].replace(m, pa);
            }
        }
        proof {
            let pa = wi.panes[place_of(wi.panes, a)->0];
            assert(hole.replaced(m, pa).panes =~= wj.replaced(m, pa).panes);
            assert(self@.windows =~= exchanged(before.windows, i as int, a, j as int, m));
        }
    }

    fn toggle_mark(&mut self, now: u64) -> (effects: Vec<Effect>)
        requires
            old(self)@.live(),
        ensures
            (final(self)@, effects@) == old(self)@.pane_command(Command::MarkPane, now),
            final(self)@.live(),
    {
        proof {
            active_is_held(self@);
        }
        let a: PaneId = self.active_window().active;
        if self.marked == Some(a) {
            self.marked = None;
            self.set_status_message(String::from_str("mark cleared"), Severity::Info, now);
        } else {
            self.marked = Some(a);
            self.set_status_message(String::from_str("marked pane"), Severity::Success, now);
        }
        nothing()
    }

    fn ask_join(&mut self, dir: SplitDir, now: u64) -> (effects: Vec<Effect>)
        requires
            old(self)@.live(),
        ensures
            (final(self)@, effects@) == old(self)@.join_asked(dir, now),
            final(self)@.live(),
    {
        match self.marked {
            Some(m) => {
                if m == self.active_window().active {
                    self.set_status_message(
                        String::from_str("marked pane is the active pane"),
                        Severity::Info,
                        now,
                    );
                    nothing()
                } else {
                    match find_holder(&self.windows, m) {
                        Some(i) => one(
                            Effect::Remove(self.windows[i].id, m, Purpose::Join(dir)),
                        ),
                        None => {
                            self.marked = None;
                            nothing()
                        },
                    }
                }
            },
            None => {
                self.set_status_message(String::from_str("no marked pane"), Severity::Info, now);
                nothing()
            },
        }
    }

    fn swap_marked(&mut self, now: u64) -> (effects: Vec<Effect>)
        requires
            old(self)@.live(),
        ensures
            (final(self)@, effects@) == old(self)@.mark_swapped(now),
            final(self)@.live(),
    {
        let ghost before = self@;
        proof {
            active_is_held(before);
        }
        let m: PaneId = match self.marked {
            Some(m) => m,
            None => {
                self.set_status_message(String::from_str("no marked pane"), Severity::Info, now);
                return nothing();
            },
        };
        let i: usize = self.active_idx();
        let id: WindowId = self.windows[i].id;
        let a: PaneId = self.windows[i].active;
        if m == a {
            return nothing();
        }
        if self.windows[i].holds(m) {
            return two(Effect::SwapPanes(id, a, m), Effect::Resize(id));
        }
        proof {
            holder_is_found(before.windows, m);
        }
        match find_holder(&self.windows, m) {
            Some(j) => {
                let other: WindowId = self.windows[j].id;
                self.exchange(i, a, j, m);
                let mut effects: Vec<Effect> = two(
                    Effect::SwapAcross(id, a, other, m),
                    Effect::Resize(id),
                );
                effects.push(Effect::Resize(other));
                assert(effects@ =~= before.mark_swapped(now).1);
                effects
            },
            None => {
                self.marked = None;
                nothing()
            },
        }
    }

    fn select_last_pane(&mut self) -> (effects: Vec<Effect>)
        requires
            old(self)@.live(),
        ensures
            (final(self)@, effects@) == old(self)@.pane_command(Command::SelectLastPane, 0),
            final(self)@.live(),
    {
        let ghost before = self@;
        let i: usize = self.active_idx();
        match self.windows[i].last {
            Some(p) => {
                self.windows[i].focus(p);
                proof {
                    active_is_held(before);
                    let w = before.window().focused(p);
                    touching_keeps_wf(before, i as int, w);
                    assert(self@.windows =~= before.windows.update(i as int, w));
                }
                one(Effect::Focus(self.windows[i].id, p))
            },
            None => nothing(),
        }
    }

    fn toggle_zoom(&mut self) -> (effects: Vec<Effect>)
        requires
            old(self)@.live(),
        ensures
            (final(self)@, effects@) == old(self)@.pane_command(Command::ZoomToggle, 0),
            final(self)@.live(),
    {
        let ghost before = self@;
        let i: usize = self.active_idx();
        let zoomed: Option<PaneId> = match self.windows[i].zoomed {
            Some(_) => None,
            None => Some(self.windows[i].active),
        };
        self.windows[i].zoomed = zoomed;
        proof {
            active_is_held(before);
            let w = WindowView { zoomed, ..before.window() };
            touching_keeps_wf(before, i as int, w);
            assert(self@.windows =~= before.windows.update(i as int, w));
        }
        one(Effect::Resize(self.windows[i].id))
    }

    fn toggle_sync(&mut self) -> (effects: Vec<Effect>)
        requires
            old(self)@.live(),
        ensures
            (final(self)@, effects@) == old(self)@.pane_command(Command::ToggleSyncPanes, 0),
            final(self)@.live(),
    {
        let ghost before = self@;
        let i: usize = self.active_idx();
        let on: bool = !self.windows[i].sync_input;
        self.windows[i].sync_input = on;
        proof {
            active_is_held(before);
            let w = WindowView { sync_input: on, ..before.window() };
            touching_keeps_wf(before, i as int, w);
            assert(self@.windows =~= before.windows.update(i as int, w));
        }
        nothing()
    }

    fn pane_command(&mut self, cmd: Command, now: u64) -> (effects: Vec<Effect>)
        requires
            old(self)@.live(),
            old(self)@.has_numbers_for(cmd),
        ensures
            (final(self)@, effects@) == old(self)@.pane_command(cmd, now),
            final(self)@.live(),
    {
        let (id, a, count): (WindowId, PaneId, usize) = {
            let w = self.active_window();
            (w.id, w.active, w.panes.len())
        };
        match cmd {
            Command::SplitV => {
                let pane: PaneId = self.alloc_pane_id();
                one(Effect::Split(id, SplitDir::Vertical, pane))
            },
            Command::SplitH => {
                let pane: PaneId = self.alloc_pane_id();
                one(Effect::Split(id, SplitDir::Horizontal, pane))
            },
            Command::SelectNextPane => one(Effect::FocusNext(id)),
            Command::SelectPrevPane => one(Effect::FocusPrev(id)),
            Command::SelectPane(dir) => one(Effect::FocusToward(id, dir)),
            Command::SelectLastPane => self.select_last_pane(),
            Command::KillPane => one(Effect::Remove(id, a, Purpose::Close)),
            Command::MarkPane => self.toggle_mark(now),
            Command::BreakPane => {
                if count < 2 {
                    self.set_status_message(
                        String::from_str("only pane in window"),
                        Severity::Info,
                        now,
                    );
                    nothing()
                } else {
                    one(Effect::Remove(id, a, Purpose::Break))
                }
            },
            Command::SwapPane(next) => one(Effect::SwapWithNeighbor(id, a, next)),
            Command::JoinPane(dir) => self.ask_join(dir, now),
            Command::SwapMarkedPane => self.swap_marked(now),
            Command::ResizePane(dir) => {
                let (axis, delta): (SplitDir, i32) = match dir {
                    Direction::Left => (SplitDir::Vertical, -RESIZE_STEP),
                    Direction::Right => (SplitDir::Vertical, RESIZE_STEP),
                    Direction::Up => (SplitDir::Horizontal, -RESIZE_STEP),
                    Direction::Down => (SplitDir::Horizontal, RESIZE_STEP),
                };
                two(Effect::Grow(id, a, axis, delta), Effect::Resize(id))
            },
            Command::ZoomToggle => self.toggle_zoom(),
            Command::ToggleSyncPanes => self.toggle_sync(),
            Command::EnterCopyMode => one(Effect::CopyMode(a)),
            Command::PrevPrompt => one(Effect::ScrollToPrompt(a, false)),
            Command::NextPrompt => one(Effect::ScrollToPrompt(a, true)),
            Command::SelectLayout(preset) => self.apply_layout_preset(preset),
            Command::NextLayout => self.next_layout(),
            _ => nothing(),
        }
    }

    fn window_command(&mut self, cmd: Command, now: u64) -> (effects: Vec<Effect>)
        requires
            old(self)@.live(),
            old(self)@.has_numbers_for(cmd),
        ensures
            (final(self)@, effects@) == old(self)@.window_command(cmd, now),
            final(self)@.wf(),
    {
        proof {
            active_is_held(self@);
        }
        let here: usize = self.active_idx();
        let len: usize = self.windows.len();
        let m: Monitor = self.windows[here].monitor;
        match cmd {
            Command::NewWindow => {
                let (id, pane): (WindowId, PaneId) = self.alloc_window_ids();
                one(Effect::SpawnWindow(id, pane))
            },
            Command::NextWindow => {
                self.switch_to_window(
                    if here + 1 == len {
                        0
                    } else {
                        here + 1
                    },
                );
                nothing()
            },
            Command::PrevWindow => {
                self.switch_to_window(
                    if here == 0 {
                        len - 1
                    } else {
                        here - 1
                    },
                );
                nothing()
            },
            Command::SelectWindow(i) => {
                self.switch_to_window(i as usize);
                nothing()
            },
            Command::SelectLastWindow => {
                match self.last_active {
                    Some(id) => {
                        match find_window(&self.windows, id) {
                            Some(i) => self.switch_to_window(i),
                            None => {},
                        }
                    },
                    None => {},
                }
                nothing()
            },
            Command::KillWindow => {
                let text: String = name_window(
                    "killed window ",
                    here,
                    self.windows[here].shown_name.as_str(),
                );
                let effects: Vec<Effect> = self.close_active_window();
                self.set_status_message(text, Severity::Success, now);
                effects
            },
            Command::ToggleMonitorActivity => {
                let text: String = switch_text("monitor-activity ", !m.activity);
                self.watch(Monitor { activity: !m.activity, ..m }, text, now);
                nothing()
            },
            Command::ToggleMonitorBell => {
                let text: String = switch_text("monitor-bell ", !m.bell);
                self.watch(Monitor { bell: !m.bell, ..m }, text, now);
                nothing()
            },
            Command::ToggleMonitorCommand => {
                let text: String = switch_text("monitor-command ", !m.command);
                self.watch(Monitor { command: !m.command, ..m }, text, now);
                nothing()
            },
            Command::SetMonitorSilence(secs) => {
                let next: Monitor = match secs {
                    Some(n) => Monitor { silence: Some(to_millis(n)), ..m },
                    None => Monitor {
                        silence: None,
                        silence_flag: false,
                        silence_reported: false,
                        ..m
                    },
                };
                self.watch(next, silence_message(secs), now);
                nothing()
            },
            Command::RenameWindow => {
                self.open_rename_window();
                nothing()
            },
            Command::RenamePane => {
                self.open_rename_pane();
                nothing()
            },
            Command::ShowHelp => {
                self.open_help();
                nothing()
            },
            Command::OpenPopup => {
                let pane: PaneId = self.alloc_pane_id();
                one(Effect::SpawnPopup(pane))
            },
            Command::ClosePopup => self.close_popup(),
            _ => self.pane_command(cmd, now),
        }
    }

    /// Carries out a command, and returns what it asks for. With its last window the
    /// session ends.
    pub fn handle_command(&mut self, cmd: Command, now: u64) -> (effects: Vec<Effect>)
        requires
            old(self)@.live(),
            old(self)@.has_numbers_for(cmd),
        ensures
            (final(self)@, effects@) == old(self)@.commanded(cmd, now),
            final(self)@.wf(),
    {
        let mut effects: Vec<Effect> = if command_clears_zoom(cmd) {
            self.unzoom()
        } else {
            nothing()
        };
        let mut rest: Vec<Effect> = self.window_command(cmd, now);
        effects.append(&mut rest);
        effects.push(Effect::Wake);
        effects
    }
}

} // verus!
