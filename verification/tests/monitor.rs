#![allow(dead_code)]

use plexy_glass::window_manager::types::{Command, Direction, Effect, PaneId, PtySize, WindowId};
use plexy_glass::window_manager::spawn::{EnvVar, SpawnSpec};
use plexy_glass::window_manager::monitor::{
    Baseline, CompletionEvent, MonitorDrain, Notice, WindowDrain,
};
use plexy_glass::window_manager::window::Monitor;
use plexy_glass::window_manager::WindowManager;

struct Host {
    m: WindowManager,
    now: u64,
    leaves: Vec<(WindowId, Vec<PaneId>)>,
    killed: Vec<PaneId>,
    resized: Vec<WindowId>,
    popup_command: Option<String>,
}

fn size(rows: u16, cols: u16) -> PtySize {
    PtySize { rows, cols, pixel_width: 0, pixel_height: 0 }
}

fn cat() -> SpawnSpec {
    SpawnSpec {
        program: "/bin/cat".to_string(),
        args: vec![],
        env: vec![EnvVar { name: "LANG".to_string(), value: "C".to_string() }],
        cwd: None,
    }
}

impl Host {
    fn new() -> Host {
        Host {
            m: WindowManager::new(&cat(), "/bin/sh".to_string(), size(24, 80), false, 0),
            now: 0,
            leaves: vec![(WindowId(0), vec![PaneId(0)])],
            killed: vec![],
            resized: vec![],
            popup_command: None,
        }
    }

    fn panes(&self, id: WindowId) -> Vec<PaneId> {
        self.leaves.iter().find(|(w, _)| *w == id).map(|(_, l)| l.clone()).unwrap_or_default()
    }

    fn panes_mut(&mut self, id: WindowId) -> &mut Vec<PaneId> {
        if !self.leaves.iter().any(|(w, _)| *w == id) {
            self.leaves.push((id, vec![]));
        }
        let at = self.leaves.iter().position(|(w, _)| *w == id).unwrap();
        &mut self.leaves[at].1
    }

    fn active_of(&self, id: WindowId) -> PaneId {
        self.m.windows().iter().find(|w| w.id == id).unwrap().active
    }

    fn focus(&mut self, id: WindowId, by: i32, wrap: bool) {
        let all = self.panes(id);
        let at = all.iter().position(|p| *p == self.active_of(id)).unwrap() as i32 + by;
        let n = all.len() as i32;
        let at = if wrap { (at + n) % n } else { at };
        if at >= 0 && at < n {
            assert!(self.m.report_focus(id, all[at as usize]));
        }
    }

    fn run(&mut self, effects: Vec<Effect>) {
        let now = self.now;
        for effect in effects {
            match effect {
                Effect::Split(id, _, pane) => {
                    let active = self.active_of(id);
                    self.put_beside(id, active, pane);
                    assert!(self.m.report_split(id, pane, false));
                }
                Effect::SplitAt(id, at, _, pane) => {
                    self.put_beside(id, at, pane);
                    assert!(self.m.report_split(id, pane, false));
                }
                Effect::SpawnWindow(id, pane) => {
                    self.panes_mut(id).push(pane);
                    let home = self.m.session_cwd();
                    assert!(self.m.report_window(id, pane, String::new(), home, false, true, now));
                }
                Effect::SpawnPopup(pane) => {
                    let command = self.popup_command.take();
                    let more = self.m.report_popup(pane, command);
                    self.run(more);
                }
                Effect::Respawn(id, pane, shell) => {
                    let l = self.panes_mut(id);
                    let at = l.iter().position(|p| *p == pane).unwrap();
                    l[at] = shell;
                    let more = self.m.report_respawn(id, pane, shell, true, now);
                    self.run(more);
                }
                Effect::KillChild(pane) => self.killed.push(pane),
                Effect::Remove(id, pane, purpose) => {
                    let active = self.active_of(id);
                    let l = self.panes_mut(id);
                    let at = l.iter().position(|p| *p == pane).unwrap();
                    l.remove(at);
                    let focus = if l.is_empty() {
                        None
                    } else if pane != active {
                        Some(active)
                    } else {
                        Some(l[at.saturating_sub(1)])
                    };
                    let more = self.m.report_removed(id, pane, focus, purpose, now);
                    self.run(more);
                }
                Effect::Adopt(id, pane) => self.panes_mut(id).push(pane),
                Effect::AdoptSplit(id, beside, _, pane) => self.put_beside(id, beside, pane),
                Effect::FocusNext(id) => self.focus(id, 1, true),
                Effect::FocusPrev(id) => self.focus(id, -1, true),
                Effect::FocusToward(id, Direction::Left) => self.focus(id, -1, false),
                Effect::FocusToward(id, Direction::Up) => self.focus(id, -1, false),
                Effect::FocusToward(id, _) => self.focus(id, 1, false),
                Effect::SwapWithNeighbor(id, pane, next) => {
                    let l = self.panes_mut(id);
                    let n = l.len();
                    let at = l.iter().position(|p| *p == pane).unwrap();
                    let to = if next { (at + 1) % n } else { (at + n - 1) % n };
                    l.swap(at, to);
                    let more = self.m.report_swapped(id, at != to);
                    self.run(more);
                }
                Effect::SwapPanes(id, a, b) => {
                    let l = self.panes_mut(id);
                    let at = l.iter().position(|p| *p == a).unwrap();
                    let to = l.iter().position(|p| *p == b).unwrap();
                    l.swap(at, to);
                }
                Effect::SwapAcross(i, a, j, b) => {
                    let at = self.panes(i).iter().position(|p| *p == a).unwrap();
                    let to = self.panes(j).iter().position(|p| *p == b).unwrap();
                    self.panes_mut(i)[at] = b;
                    self.panes_mut(j)[to] = a;
                }
                Effect::Arrange(id, _, main) => {
                    if let Some(p) = main {
                        let l = self.panes_mut(id);
                        l.retain(|q| *q != p);
                        l.insert(0, p);
                    }
                }
                Effect::Resize(id) => self.resized.push(id),
                _ => {}
            }
        }
    }

    fn put_beside(&mut self, id: WindowId, at: PaneId, pane: PaneId) {
        let l = self.panes_mut(id);
        let k = l.iter().position(|p| *p == at).unwrap();
        l.insert(k + 1, pane);
    }

    fn command(&mut self, cmd: Command) {
        let effects = self.m.handle_command(cmd, self.now);
        assert_eq!(effects.last(), Some(&Effect::Wake));
        self.run(effects);
    }

    fn popup(&mut self, command: Option<&str>) {
        self.popup_command = command.map(|s| s.to_string());
        self.command(Command::OpenPopup);
    }

    fn window(&mut self, name: &str) {
        if let Effect::SpawnWindow(id, pane) = self.m.new_window_with_spec() {
            self.panes_mut(id).push(pane);
            let now = self.now;
            assert!(self.m.report_window(id, pane, name.to_string(), None, false, false, now));
        }
    }

    fn die(&mut self, pane: PaneId) {
        let effects = self.m.handle_pane_death(pane);
        self.run(effects);
    }

    fn message(&mut self) -> Option<String> {
        self.m.take_active_message(self.now).map(|s| s.to_string())
    }

    fn ids(&self) -> Vec<WindowId> {
        self.m.windows().iter().map(|w| w.id).collect()
    }

    fn active(&self) -> PaneId {
        self.m.active_window().active
    }

    fn active_id(&self) -> WindowId {
        self.m.windows()[self.m.active_idx()].id
    }
}

fn two_panes() -> Host {
    let mut h = Host::new();
    h.command(Command::SplitV);
    h
}

fn quiet(n: usize) -> Vec<WindowDrain> {
    let mut out = vec![];
    for _ in 0..n {
        out.push(WindowDrain { acted: false, belled: false, completion: None, notices: vec![] });
    }
    out
}

impl Host {
    fn drain(&mut self, drains: Vec<WindowDrain>) -> MonitorDrain {
        self.m.update_monitor_flags(&drains, self.now)
    }

    fn drain_acted(&mut self, window: usize) -> MonitorDrain {
        let mut d = quiet(self.m.windows().len());
        d[window].acted = true;
        self.drain(d)
    }

    fn drain_done(&mut self, window: usize, exit: Option<i32>) -> MonitorDrain {
        let mut d = quiet(self.m.windows().len());
        d[window].completion = Some(CompletionEvent { exit, duration_ms: Some(45_000) });
        self.drain(d)
    }

    fn monitor(&self, window: usize) -> Monitor {
        self.m.windows()[window].monitor
    }
}

#[test]
fn toggle_monitor_commands_flip_and_message() {
    let mut h = Host::new();
    assert!(!h.monitor(0).activity);
    assert!(h.monitor(0).bell);
    h.command(Command::ToggleMonitorActivity);
    assert_eq!(h.message().as_deref(), Some("monitor-activity on"));
    assert!(h.monitor(0).activity);
    h.command(Command::ToggleMonitorActivity);
    assert_eq!(h.message().as_deref(), Some("monitor-activity off"));
    h.command(Command::ToggleMonitorBell);
    assert_eq!(h.message().as_deref(), Some("monitor-bell off"));
    assert!(!h.monitor(0).bell);
}

#[test]
fn update_monitor_flags_sets_background_activity_then_clears_on_switch() {
    let mut h = Host::new();
    h.command(Command::NewWindow);
    h.command(Command::ToggleMonitorActivity);
    h.command(Command::SelectWindow(0));
    h.drain_acted(1);
    assert!(h.monitor(1).activity_flag);
    assert!(!h.monitor(0).activity_flag, "the current window is never flagged");
    h.command(Command::SelectWindow(1));
    h.drain(quiet(2));
    assert!(!h.monitor(1).activity_flag, "flag cleared once the window is current");
}

#[test]
fn update_monitor_flags_sets_background_bell_from_a_real_bel() {
    let mut h = Host::new();
    h.window("w1");
    h.command(Command::SelectWindow(0));
    let mut e = plexy_glass::Emulator::new(4, 10);
    e.advance(b"\x07\n");
    let mut d = quiet(2);
    d[1].belled = e.take_bell();
    assert!(h.drain(d).alert_edge);
    assert!(h.monitor(1).bell_flag);
    assert!(!h.monitor(0).bell_flag, "the current window is never bell-flagged");
    assert_eq!(h.message().as_deref(), Some("bell in window 2 (w1)"));
}

#[test]
fn activity_edge_in_background_window_emits_message() {
    let mut h = Host::new();
    h.window("api");
    h.command(Command::ToggleMonitorActivity);
    h.command(Command::SelectWindow(0));
    assert!(h.drain_acted(1).alert_edge);
    assert_eq!(h.message().as_deref(), Some("activity in window 2 (api)"));
    assert!(h.monitor(1).activity_flag, "the sticky flag is set");
}

#[test]
fn activity_in_active_window_emits_no_message() {
    let mut h = Host::new();
    h.command(Command::ToggleMonitorActivity);
    for _ in 0..5 {
        assert!(!h.drain_acted(0).alert_edge, "active window emits no alert message");
    }
    assert!(!h.monitor(0).activity_flag, "active window is never flagged");
}

#[test]
fn activity_does_not_re_message_while_sticky() {
    let mut h = Host::new();
    h.window("api");
    h.command(Command::ToggleMonitorActivity);
    h.command(Command::SelectWindow(0));
    assert!(h.drain_acted(1).alert_edge, "first edge messages");
    for _ in 0..5 {
        assert!(!h.drain_acted(1).alert_edge, "no re-message while the flag stays sticky");
    }
}

#[test]
fn activity_re_messages_after_view_clears_and_re_edges() {
    let mut h = Host::new();
    h.window("api");
    h.command(Command::ToggleMonitorActivity);
    h.command(Command::SelectWindow(0));
    assert!(h.drain_acted(1).alert_edge, "first edge messages");
    h.command(Command::SelectWindow(1));
    h.drain(quiet(2));
    assert!(!h.monitor(1).activity_flag, "viewing cleared the flag");
    h.command(Command::SelectWindow(0));
    assert!(h.drain_acted(1).alert_edge);
    assert_eq!(h.message().as_deref(), Some("activity in window 2 (api)"));
}

#[test]
fn monitor_command_toggle_flips_and_messages() {
    let mut h = Host::new();
    assert!(!h.monitor(0).command, "off by default");
    h.command(Command::ToggleMonitorCommand);
    assert_eq!(h.message().as_deref(), Some("monitor-command on"));
    assert!(h.monitor(0).command);
    h.command(Command::ToggleMonitorCommand);
    assert_eq!(h.message().as_deref(), Some("monitor-command off"));
    assert!(!h.monitor(0).command);
}

fn monitored_api() -> Host {
    let mut h = Host::new();
    h.window("api");
    h.command(Command::ToggleMonitorCommand);
    h.command(Command::SelectWindow(0));
    h
}

#[test]
fn command_completion_nonzero_exit_flags_failed_and_messages() {
    let mut h = monitored_api();
    assert!(h.drain_done(1, Some(1)).alert_edge, "completion edge fires a message");
    assert_eq!(h.message().as_deref(), Some("done in window 2 (api): exit 1"));
    assert_eq!(h.monitor(1).done_flag, Some(false), "failed");
}

#[test]
fn a_negative_exit_code_is_shown_with_its_sign() {
    let mut h = monitored_api();
    h.drain_done(1, Some(-11));
    assert_eq!(h.message().as_deref(), Some("done in window 2 (api): exit -11"));
}

#[test]
fn command_completion_exit_zero_flags_ok_and_messages() {
    let mut h = monitored_api();
    assert!(h.drain_done(1, Some(0)).alert_edge);
    assert_eq!(h.message().as_deref(), Some("done in window 2 (api): exit 0"));
    assert_eq!(h.monitor(1).done_flag, Some(true), "ok");
}

#[test]
fn update_monitor_flags_collects_pending_notifications() {
    let mut h = Host::new();
    h.window("api");
    h.command(Command::SelectWindow(0));
    let drain = h.drain_done(1, Some(0));
    assert!(!drain.alert_edge);
    assert_eq!(drain.notifications.len(), 1);
    let n = &drain.notifications[0];
    assert_eq!(n.window_index, 1);
    assert_eq!(n.window_name, "api");
    assert!(!n.is_active_window);
    assert_eq!(n.event.exit, Some(0));
    assert_eq!(n.event.duration_ms, Some(45_000));
}

#[test]
fn notices_are_collected_from_every_window() {
    let mut h = Host::new();
    h.window("api");
    let mut d = quiet(2);
    for (i, text) in [(0, "a"), (1, "b"), (1, "c")] {
        d[i].notices.push(Notice { title: "t".to_string(), body: text.to_string() });
    }
    let drain = h.drain(d);
    let got: Vec<(usize, bool, &str)> = drain
        .in_band
        .iter()
        .map(|n| (n.window_index, n.is_active_window, n.body.as_str()))
        .collect();
    assert_eq!(got, vec![(0, false, "a"), (1, true, "b"), (1, true, "c")]);
}

#[test]
fn command_completion_codeless_d_flags_ok_with_no_exit_clause() {
    let mut h = monitored_api();
    assert!(h.drain_done(1, None).alert_edge);
    assert_eq!(h.message().as_deref(), Some("done in window 2 (api)"));
    assert_eq!(h.monitor(1).done_flag, Some(true), "outcome unknown");
}

#[test]
fn command_completion_in_active_window_neither_flags_nor_messages() {
    let mut h = Host::new();
    h.command(Command::ToggleMonitorCommand);
    assert!(!h.drain_done(0, Some(1)).alert_edge);
    assert_eq!(h.monitor(0).done_flag, None, "active window never flagged");
}

#[test]
fn command_completion_counter_decrease_re_baselines_silently() {
    let mut b = Baseline { seen: 5 };
    assert!(!b.advance(5));
    assert!(!b.advance(0), "a terminal that was reset counts anew");
    assert!(b.advance(1));
    assert!(!b.advance(1));
}

#[test]
fn monitor_silence_set_and_clear_messages() {
    let mut h = Host::new();
    h.command(Command::SetMonitorSilence(Some(30)));
    assert_eq!(h.message().as_deref(), Some("monitor-silence 30s"));
    assert_eq!(h.monitor(0).silence, Some(30_000));
    h.command(Command::SetMonitorSilence(None));
    assert_eq!(h.message().as_deref(), Some("monitor-silence off"));
    assert_eq!(h.monitor(0).silence, None);
}

#[test]
fn any_silence_monitored_reflects_arm_state() {
    let mut h = Host::new();
    assert!(!h.m.any_silence_monitored(), "no monitors by default");
    h.command(Command::SetMonitorSilence(Some(5)));
    assert!(h.m.any_silence_monitored(), "armed after set");
    h.command(Command::SetMonitorSilence(None));
    assert!(!h.m.any_silence_monitored(), "disarmed after clear");
}

fn silent_build() -> Host {
    let mut h = Host::new();
    h.window("build");
    h.m.set_window_silence(1, Some(80));
    h.command(Command::SelectWindow(0));
    h
}

#[test]
fn silence_edge_in_background_window_flags_and_messages() {
    let mut h = silent_build();
    assert!(!h.m.check_silence_alerts(h.now), "no silence before the threshold");
    h.now = 120;
    assert!(h.m.check_silence_alerts(h.now), "silence edge fires past the threshold");
    assert_eq!(h.message().as_deref(), Some("silence in window 2 (build)"));
    assert!(h.monitor(1).silence_flag);
    assert!(!h.m.check_silence_alerts(h.now), "no re-fire within the same silence episode");
}

#[test]
fn silence_active_window_never_fires() {
    let mut h = Host::new();
    h.m.set_window_silence(0, Some(50));
    assert!(!h.m.check_silence_alerts(90), "active window never silence-fires");
    assert!(!h.monitor(0).silence_flag);
}

#[test]
fn silence_output_resets_timer_and_latch() {
    let mut h = silent_build();
    h.now = 120;
    assert!(h.m.check_silence_alerts(h.now), "first silence episode fires");
    h.drain_acted(1);
    assert!(!h.m.check_silence_alerts(h.now), "output reset the timer");
    h.now = 240;
    assert!(h.m.check_silence_alerts(h.now), "a new silence episode after output re-fires");
    assert_eq!(h.message().as_deref(), Some("silence in window 2 (build)"));
}

#[test]
fn silence_viewing_clears_flag_but_not_latch() {
    let mut h = silent_build();
    h.now = 120;
    assert!(h.m.check_silence_alerts(h.now), "silence fires");
    assert!(h.monitor(1).silence_flag);
    h.command(Command::SelectWindow(1));
    h.drain(quiet(2));
    assert!(!h.monitor(1).silence_flag, "viewing cleared the flag");
    h.command(Command::SelectWindow(0));
    assert!(!h.m.check_silence_alerts(h.now), "no re-fire while still silent (latch held)");
    assert!(!h.monitor(1).silence_flag, "flag stays clear without a re-fire");
}

#[test]
fn silence_disable_clears_flag_and_threshold() {
    let mut h = silent_build();
    h.now = 120;
    assert!(h.m.check_silence_alerts(h.now));
    assert!(h.monitor(1).silence_flag);
    h.m.set_window_silence(1, None);
    assert_eq!(h.monitor(1).silence, None);
    assert!(!h.monitor(1).silence_flag, "disable cleared the flag");
    assert!(!h.m.check_silence_alerts(h.now), "disabled window never fires");
}

#[test]
fn the_last_message_of_a_drain_wins() {
    let mut h = Host::new();
    h.window("a");
    h.window("b");
    h.command(Command::SelectWindow(0));
    let mut d = quiet(3);
    d[1].belled = true;
    d[2].belled = true;
    assert!(h.drain(d).alert_edge);
    assert_eq!(h.message().as_deref(), Some("bell in window 3 (b)"));
}
