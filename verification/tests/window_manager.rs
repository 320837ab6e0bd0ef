#![allow(dead_code)]

use plexy_glass::window_manager::types::{CellPx, Command, Direction, Effect, GlyphTier, LayoutPreset, PaneId, PtySize, Purpose, Rect, Severity, SplitDir, WindowId};
use plexy_glass::window_manager::spawn::{EnvVar, SpawnSpec, SplitError};
use plexy_glass::window_manager::host_cell_px;
use plexy_glass::window_manager::overlays::{
    BufferAction, HintAction, HintPick, KeyOutcome, OverlayKeyResult, TreeAction, TreeTarget,
};
use plexy_glass::window_manager::pointer::prompt_offset;
use plexy_glass::window_manager::state::Overlay;
use plexy_glass::window_manager::WindowManager;

struct Host {
    m: WindowManager,
    now: u64,
    leaves: Vec<(WindowId, Vec<PaneId>)>,
    killed: Vec<PaneId>,
    resized: Vec<WindowId>,
    popup_command: Option<String>,
}

fn size(rows: u16, cols: u16) -> PtySize {
    PtySize { rows, cols, pixel_width: 0, pixel_height: 0 }
}

fn cat() -> SpawnSpec {
    SpawnSpec {
        program: "/bin/cat".to_string(),
        args: vec![],
        env: vec![EnvVar { name: "LANG".to_string(), value: "C".to_string() }],
        cwd: None,
    }
}

impl Host {
    fn new() -> Host {
        Host {
            m: WindowManager::new(&cat(), "/bin/sh".to_string(), size(24, 80), false, 0),
            now: 0,
            leaves: vec![(WindowId(0), vec![PaneId(0)])],
            killed: vec![],
            resized: vec![],
            popup_command: None,
        }
    }

    fn panes(&self, id: WindowId) -> Vec<PaneId> {
        self.leaves.iter().find(|(w, _)| *w == id).map(|(_, l)| l.clone()).unwrap_or_default()
    }

    fn panes_mut(&mut self, id: WindowId) -> &mut Vec<PaneId> {
        if !self.leaves.iter().any(|(w, _)| *w == id) {
            self.leaves.push((id, vec![]));
        }
        let at = self.leaves.iter().position(|(w, _)| *w == id).unwrap();
        &mut self.leaves[at].1
    }

    fn active_of(&self, id: WindowId) -> PaneId {
        self.m.windows().iter().find(|w| w.id == id).unwrap().active
    }

    fn focus(&mut self, id: WindowId, by: i32, wrap: bool) {
        let all = self.panes(id);
        let at = all.iter().position(|p| *p == self.active_of(id)).unwrap() as i32 + by;
        let n = all.len() as i32;
        let at = if wrap { (at + n) % n } else { at };
        if at >= 0 && at < n {
            assert!(self.m.report_focus(id, all[at as usize]));
        }
    }

    fn run(&mut self, effects: Vec<Effect>) {
        let now = self.now;
        for effect in effects {
            match effect {
                Effect::Split(id, _, pane) => {
                    let active = self.active_of(id);
                    self.put_beside(id, active, pane);
                    assert!(self.m.report_split(id, pane, false));
                }
                Effect::SplitAt(id, at, _, pane) => {
                    self.put_beside(id, at, pane);
                    assert!(self.m.report_split(id, pane, false));
                }
                Effect::SpawnWindow(id, pane) => {
                    self.panes_mut(id).push(pane);
                    let home = self.m.session_cwd();
                    assert!(self.m.report_window(id, pane, String::new(), home, false, true, now));
                }
                Effect::SpawnPopup(pane) => {
                    let command = self.popup_command.take();
                    let more = self.m.report_popup(pane, command);
                    self.run(more);
                }
                Effect::Respawn(id, pane, shell) => {
                    let l = self.panes_mut(id);
                    let at = l.iter().position(|p| *p == pane).unwrap();
                    l[at] = shell;
                    let more = self.m.report_respawn(id, pane, shell, true, now);
                    self.run(more);
                }
                Effect::KillChild(pane) => self.killed.push(pane),
                Effect::Remove(id, pane, purpose) => {
                    let active = self.active_of(id);
                    let l = self.panes_mut(id);
                    let at = l.iter().position(|p| *p == pane).unwrap();
                    l.remove(at);
                    let focus = if l.is_empty() {
                        None
                    } else if pane != active {
                        Some(active)
                    } else {
                        Some(l[at.saturating_sub(1)])
                    };
                    let more = self.m.report_removed(id, pane, focus, purpose, now);
                    self.run(more);
                }
                Effect::Adopt(id, pane) => self.panes_mut(id).push(pane),
                Effect::AdoptSplit(id, beside, _, pane) => self.put_beside(id, beside, pane),
                Effect::FocusNext(id) => self.focus(id, 1, true),
                Effect::FocusPrev(id) => self.focus(id, -1, true),
                Effect::FocusToward(id, Direction::Left) => self.focus(id, -1, false),
                Effect::FocusToward(id, Direction::Up) => self.focus(id, -1, false),
                Effect::FocusToward(id, _) => self.focus(id, 1, false),
                Effect::SwapWithNeighbor(id, pane, next) => {
                    let l = self.panes_mut(id);
                    let n = l.len();
                    let at = l.iter().position(|p| *p == pane).unwrap();
                    let to = if next { (at + 1) % n } else { (at + n - 1) % n };
                    l.swap(at, to);
                    let more = self.m.report_swapped(id, at != to);
                    self.run(more);
                }
                Effect::SwapPanes(id, a, b) => {
                    let l = self.panes_mut(id);
                    let at = l.iter().position(|p| *p == a).unwrap();
                    let to = l.iter().position(|p| *p == b).unwrap();
                    l.swap(at, to);
                }
                Effect::SwapAcross(i, a, j, b) => {
                    let at = self.panes(i).iter().position(|p| *p == a).unwrap();
                    let to = self.panes(j).iter().position(|p| *p == b).unwrap();
                    self.panes_mut(i)[at] = b;
                    self.panes_mut(j)[to] = a;
                }
                Effect::Arrange(id, _, main) => {
                    if let Some(p) = main {
                        let l = self.panes_mut(id);
                        l.retain(|q| *q != p);
                        l.insert(0, p);
                    }
                }
                Effect::Resize(id) => self.resized.push(id),
                _ => {}
            }
        }
    }

    fn put_beside(&mut self, id: WindowId, at: PaneId, pane: PaneId) {
        let l = self.panes_mut(id);
        let k = l.iter().position(|p| *p == at).unwrap();
        l.insert(k + 1, pane);
    }

    fn command(&mut self, cmd: Command) {
        let effects = self.m.handle_command(cmd, self.now);
        assert_eq!(effects.last(), Some(&Effect::Wake));
        self.run(effects);
    }

    fn popup(&mut self, command: Option<&str>) {
        self.popup_command = command.map(|s| s.to_string());
        self.command(Command::OpenPopup);
    }

    fn window(&mut self, name: &str) {
        if let Effect::SpawnWindow(id, pane) = self.m.new_window_with_spec() {
            self.panes_mut(id).push(pane);
            let now = self.now;
            assert!(self.m.report_window(id, pane, name.to_string(), None, false, false, now));
        }
    }

    fn die(&mut self, pane: PaneId) {
        let effects = self.m.handle_pane_death(pane);
        self.run(effects);
    }

    fn message(&mut self) -> Option<String> {
        self.m.take_active_message(self.now).map(|s| s.to_string())
    }

    fn ids(&self) -> Vec<WindowId> {
        self.m.windows().iter().map(|w| w.id).collect()
    }

    fn active(&self) -> PaneId {
        self.m.active_window().active
    }

    fn active_id(&self) -> WindowId {
        self.m.windows()[self.m.active_idx()].id
    }
}

fn two_panes() -> Host {
    let mut h = Host::new();
    h.command(Command::SplitV);
    h
}

#[test]
fn new_creates_one_window_one_pane() {
    let h = Host::new();
    assert_eq!(h.m.windows().len(), 1);
    assert_eq!(h.active(), PaneId(0));
    assert_eq!(h.m.windows()[0].name, "shell");
}

#[test]
fn new_window_default_spec_is_shell_not_first_command() {
    let h = Host::new();
    assert_eq!(h.m.default_program(), "/bin/sh");
    assert_ne!(h.m.default_program(), "/bin/cat");
    let spec = h.m.window_spec();
    assert!(spec.args.is_empty());
    assert_eq!(spec.env[0].name, "LANG");
    assert_eq!(spec.env[0].value, "C");
}

#[test]
fn status_message_set_and_lazy_expire() {
    let mut h = Host::new();
    assert_eq!(h.message(), None);
    h.m.set_status_message("no session: foo".to_string(), Severity::Error, 0);
    assert_eq!(h.message().as_deref(), Some("no session: foo"));
    assert_eq!(h.m.active_severity(), Severity::Error);
    h.now = 2_999;
    assert_eq!(h.message().as_deref(), Some("no session: foo"));
    h.now = 3_000;
    assert_eq!(h.message(), None);
    assert!(!h.m.has_active_message(), "expired message cleared in place");
    h.m.set_status_message("first".to_string(), Severity::Info, 3_000);
    h.m.set_status_message("second".to_string(), Severity::Success, 3_000);
    assert_eq!(h.message().as_deref(), Some("second"));
    assert_eq!(h.m.active_severity(), Severity::Success);
}

#[test]
fn splitv_makes_two_panes() {
    let h = two_panes();
    assert_eq!(h.m.active_window().panes.len(), 2);
    assert_eq!(h.active(), PaneId(1));
}

#[test]
fn new_window_adds_and_activates() {
    let mut h = Host::new();
    h.command(Command::NewWindow);
    assert_eq!(h.m.windows().len(), 2);
    assert_eq!(h.m.active_idx(), 1);
}

#[test]
fn select_pane_right_after_split() {
    let mut h = two_panes();
    assert_eq!(h.active(), PaneId(1));
    h.command(Command::SelectPane(Direction::Left));
    assert_eq!(h.active(), PaneId(0));
    h.command(Command::SelectPane(Direction::Right));
    assert_eq!(h.active(), PaneId(1));
}

#[test]
fn select_pane_up_down_after_horizontal_split() {
    let mut h = Host::new();
    h.command(Command::SplitH);
    assert_eq!(h.active(), PaneId(1));
    h.command(Command::SelectPane(Direction::Up));
    assert_eq!(h.active(), PaneId(0));
    h.command(Command::SelectPane(Direction::Down));
    assert_eq!(h.active(), PaneId(1));
}

#[test]
fn panes_inherit_real_host_cell_size_pixels() {
    let host = PtySize { rows: 24, cols: 80, pixel_width: 720, pixel_height: 432 };
    assert_eq!(host_cell_px(host), CellPx { width: 9, height: 18 });
    let mut h = Host::new();
    let effects =
        h.m.on_host_resize(PtySize { rows: 24, cols: 80, pixel_width: 800, pixel_height: 480 });
    assert_eq!(
        effects,
        vec![
            Effect::SetCell(WindowId(0), CellPx { width: 10, height: 20 }),
            Effect::Resize(WindowId(0)),
            Effect::Wake,
        ]
    );
    assert_eq!(host_cell_px(size(0, 0)), CellPx { width: 0, height: 0 });
}

#[test]
fn next_window_cycles() {
    let mut h = Host::new();
    h.command(Command::NewWindow);
    h.command(Command::NextWindow);
    assert_eq!(h.m.active_idx(), 0);
    h.command(Command::NextWindow);
    assert_eq!(h.m.active_idx(), 1);
}

#[test]
fn previous_window_undoes_the_next() {
    let mut h = Host::new();
    h.command(Command::NewWindow);
    h.command(Command::NewWindow);
    for _ in 0..4 {
        let before = h.active_id();
        h.command(Command::NextWindow);
        h.command(Command::PrevWindow);
        assert_eq!(h.active_id(), before);
        h.command(Command::NextWindow);
    }
}

#[test]
fn split_cwd_is_window_home_base_not_active_pane_cwd() {
    let mut h = Host::new();
    h.m.set_window_home_cwd(0, Some("/home/base".to_string()));
    assert_eq!(h.m.split_cwd().as_deref(), Some("/home/base"));
    assert_eq!(h.m.split_spec().cwd.as_deref(), Some("/home/base"));
    h.command(Command::SplitV);
    assert_eq!(h.m.active_window().panes.len(), 2);
}

#[test]
fn toggle_sync_panes_flips_the_flag() {
    let mut h = Host::new();
    assert!(!h.m.active_window().sync_input);
    h.command(Command::ToggleSyncPanes);
    assert!(h.m.active_window().sync_input);
    h.command(Command::ToggleSyncPanes);
    assert!(!h.m.active_window().sync_input);
}

#[test]
fn session_picker_overlay_commits_switch_session() {
    let mut h = Host::new();
    h.m.open_session_picker();
    assert_eq!(h.m.overlay(), Some(Overlay::SessionPicker));
    assert_eq!(h.m.handle_overlay_key(KeyOutcome::Redraw), OverlayKeyResult::Redraw);
    let r = h.m.handle_overlay_key(KeyOutcome::Commit("work".to_string()));
    assert_eq!(r, OverlayKeyResult::SwitchSession("work".to_string()));
    assert!(h.m.overlay().is_none(), "picker closes on commit");
}

#[test]
fn rename_window_overlay_commits_name() {
    let mut h = Host::new();
    h.command(Command::RenameWindow);
    assert_eq!(h.m.overlay(), Some(Overlay::RenameWindow));
    assert_eq!(h.m.overlay_seed(), "shell");
    assert_eq!(
        h.m.handle_overlay_key(KeyOutcome::Commit("build".to_string())),
        OverlayKeyResult::Committed
    );
    assert!(h.m.overlay().is_none(), "overlay closed on commit");
    assert_eq!(h.m.active_window().name, "build");
}

#[test]
fn rename_window_escape_cancels_without_change() {
    let mut h = Host::new();
    h.command(Command::RenameWindow);
    assert_eq!(h.m.handle_overlay_key(KeyOutcome::Cancel), OverlayKeyResult::Redraw);
    assert!(h.m.overlay().is_none());
    assert_eq!(h.m.active_window().name, "shell", "cancel leaves the name unchanged");
}

#[test]
fn rename_pane_overlay_sets_pane_name() {
    let mut h = two_panes();
    h.command(Command::RenamePane);
    assert_eq!(h.m.overlay_seed(), "");
    assert_eq!(
        h.m.handle_overlay_key(KeyOutcome::Commit("logs".to_string())),
        OverlayKeyResult::Committed
    );
    assert!(h.m.overlay().is_none());
    assert_eq!(h.m.active_window().panes[1].name.as_deref(), Some("logs"));
}

#[test]
fn a_pane_that_left_is_not_renamed() {
    let mut h = two_panes();
    h.command(Command::RenamePane);
    h.command(Command::SelectPane(Direction::Left));
    h.die(PaneId(1));
    assert_eq!(
        h.m.handle_overlay_key(KeyOutcome::Commit("logs".to_string())),
        OverlayKeyResult::Redraw
    );
    assert_eq!(h.m.active_window().panes[0].name, None);
}

#[test]
fn empty_rename_commit_is_noop_but_closes() {
    let mut h = Host::new();
    h.command(Command::RenameWindow);
    assert_eq!(
        h.m.handle_overlay_key(KeyOutcome::Commit(String::new())),
        OverlayKeyResult::Redraw
    );
    assert!(h.m.overlay().is_none());
    assert_eq!(h.m.active_window().name, "shell", "empty commit does not rename");
}

#[test]
fn show_help_opens_and_dismisses() {
    let mut h = Host::new();
    h.command(Command::ShowHelp);
    assert_eq!(h.m.overlay(), Some(Overlay::Help));
    h.m.handle_overlay_key(KeyOutcome::Cancel);
    assert!(h.m.overlay().is_none());
}

#[test]
fn welcome_overlay_opens_and_any_key_dismisses() {
    let mut h = Host::new();
    h.m.open_welcome();
    assert_eq!(h.m.overlay(), Some(Overlay::Welcome));
    assert_eq!(h.m.handle_overlay_key(KeyOutcome::Cancel), OverlayKeyResult::Redraw);
    assert!(h.m.overlay().is_none(), "any key closes the welcome modal");
}

#[test]
fn keys_without_an_overlay_are_ignored() {
    let mut h = Host::new();
    assert_eq!(
        h.m.handle_overlay_key(KeyOutcome::Commit("x".to_string())),
        OverlayKeyResult::Ignored
    );
    h.m.open_help();
    assert_eq!(h.m.handle_overlay_key(KeyOutcome::Nothing), OverlayKeyResult::Ignored);
    assert_eq!(h.m.overlay(), Some(Overlay::Help));
}

#[test]
fn command_history_coalesces_and_is_capped() {
    let mut h = Host::new();
    for i in 0..105 {
        for _ in 0..2 {
            h.m.open_command_prompt();
            let line = format!("cmd {i}");
            assert_eq!(
                h.m.handle_overlay_key(KeyOutcome::Commit(line.clone())),
                OverlayKeyResult::Command(line)
            );
        }
    }
    let history = h.m.command_history();
    assert_eq!(history.len(), 100);
    assert_eq!(history[0], "cmd 5");
    assert_eq!(history[99], "cmd 104");
}

fn target(pane: Option<PaneId>) -> TreeTarget {
    TreeTarget { session: "work".to_string(), window: Some(WindowId(0)), pane }
}

#[test]
fn open_tree_then_enter_switches_and_closes() {
    let mut h = Host::new();
    h.m.open_tree();
    assert_eq!(h.m.overlay(), Some(Overlay::Tree));
    let r = h.m.handle_overlay_key(KeyOutcome::Tree(TreeAction::Switch(target(None))));
    assert!(matches!(r, OverlayKeyResult::Tree(TreeAction::Switch(_))));
    assert!(h.m.overlay().is_none(), "switch closes the overlay");
}

#[test]
fn tree_kill_keeps_overlay_open() {
    let mut h = Host::new();
    h.m.open_tree();
    assert_eq!(h.m.handle_overlay_key(KeyOutcome::Redraw), OverlayKeyResult::Redraw);
    let kill = TreeAction::Kill(target(Some(PaneId(5))));
    let r = h.m.handle_overlay_key(KeyOutcome::Tree(kill));
    assert_eq!(r, OverlayKeyResult::Tree(TreeAction::Kill(target(Some(PaneId(5))))));
    assert!(h.m.overlay().is_some(), "kill keeps the overlay open");
    let rename = TreeAction::Rename(target(None), "dev".to_string());
    h.m.handle_overlay_key(KeyOutcome::Tree(rename));
    assert!(h.m.overlay().is_some(), "rename keeps the overlay open");
}

#[test]
fn buffer_picker_paste_closes_delete_stays_open() {
    let mut h = Host::new();
    h.m.open_buffer_picker();
    assert_eq!(h.m.overlay(), Some(Overlay::BufferPicker));
    let delete = BufferAction::Delete("buffer1".to_string());
    assert_eq!(
        h.m.handle_overlay_key(KeyOutcome::Buffer(delete)),
        OverlayKeyResult::Buffer(BufferAction::Delete("buffer1".to_string()))
    );
    assert!(h.m.overlay().is_some(), "delete keeps the overlay open");
    let paste = BufferAction::Paste("buffer0".to_string());
    assert_eq!(
        h.m.handle_overlay_key(KeyOutcome::Buffer(paste)),
        OverlayKeyResult::Buffer(BufferAction::Paste("buffer0".to_string()))
    );
    assert!(h.m.overlay().is_none(), "paste closes the overlay");
}

#[test]
fn hint_overlay_pick_returns_copy() {
    let mut h = Host::new();
    h.m.open_hints();
    assert!(h.m.overlay().is_some(), "overlay is open after open_hints");
    let pick = HintPick { text: "alpha".to_string(), action: HintAction::Copy };
    match h.m.handle_overlay_key(KeyOutcome::Hint(pick)) {
        OverlayKeyResult::Hint(pick) => {
            assert_eq!(pick.text, "alpha");
            assert_eq!(pick.action, HintAction::Copy);
        }
        other => panic!("expected Hint(Copy), got {other:?}"),
    }
    assert!(h.m.overlay().is_none(), "overlay closes on pick");
}

#[test]
fn a_name_of_white_space_changes_nothing() {
    let mut h = Host::new();
    for blank in ["", " ", " \t\u{a0}\u{3000}"] {
        h.command(Command::RenameWindow);
        assert_eq!(
            h.m.handle_overlay_key(KeyOutcome::Commit(blank.to_string())),
            OverlayKeyResult::Redraw
        );
        assert!(h.m.overlay().is_none());
        assert_eq!(h.m.active_window().name, "shell");
        h.command(Command::RenamePane);
        assert_eq!(
            h.m.handle_overlay_key(KeyOutcome::Commit(blank.to_string())),
            OverlayKeyResult::Redraw
        );
        assert_eq!(h.m.active_window().panes[0].name, None);
    }
    h.command(Command::RenameWindow);
    assert_eq!(
        h.m.handle_overlay_key(KeyOutcome::Commit("my shell".to_string())),
        OverlayKeyResult::Committed
    );
    assert_eq!(h.m.active_window().name, "my shell");
}

#[test]
fn select_layout_puts_active_pane_in_the_main_slot() {
    let mut h = two_panes();
    h.command(Command::SplitH);
    let active = h.active();
    h.command(Command::SelectLayout(LayoutPreset::MainVertical));
    assert_eq!(h.panes(WindowId(0))[0], active);
    assert_eq!(h.active(), active);
    let effects = h.m.apply_layout_preset(LayoutPreset::Tiled);
    assert_eq!(effects[0], Effect::Arrange(WindowId(0), LayoutPreset::Tiled, None));
}

#[test]
fn next_layout_cycles_in_order_and_remembers() {
    let mut h = two_panes();
    h.command(Command::NextLayout);
    assert_eq!(h.m.active_window().last_preset, Some(LayoutPreset::EvenHorizontal));
    h.command(Command::NextLayout);
    assert_eq!(h.m.active_window().last_preset, Some(LayoutPreset::EvenVertical));
    h.command(Command::SplitV);
    h.command(Command::NextLayout);
    assert_eq!(h.m.active_window().last_preset, Some(LayoutPreset::MainHorizontal));
    h.command(Command::NextLayout);
    h.command(Command::NextLayout);
    h.command(Command::NextLayout);
    assert_eq!(h.m.active_window().last_preset, Some(LayoutPreset::EvenHorizontal));
}

#[test]
fn select_layout_clears_zoom() {
    let mut h = two_panes();
    h.command(Command::ZoomToggle);
    assert!(h.m.active_window().zoomed.is_some());
    h.command(Command::SelectLayout(LayoutPreset::Tiled));
    assert!(h.m.active_window().zoomed.is_none());
}

#[test]
fn select_layout_single_pane_is_noop_but_remembers() {
    let mut h = Host::new();
    h.command(Command::SelectLayout(LayoutPreset::Tiled));
    assert_eq!(h.m.active_window().panes.len(), 1);
    assert_eq!(h.m.active_window().last_preset, Some(LayoutPreset::Tiled));
}

#[test]
fn block_scroll_does_not_clear_zoom() {
    let mut h = two_panes();
    h.command(Command::ZoomToggle);
    for cmd in [Command::PrevPrompt, Command::NextPrompt, Command::CopyOutput] {
        h.command(cmd);
        assert!(h.m.active_window().zoomed.is_some());
    }
    let effects = h.m.handle_command(Command::PrevPrompt, 0);
    assert_eq!(effects, vec![Effect::ScrollToPrompt(PaneId(1), false), Effect::Wake]);
}

#[test]
fn prompts_are_found_backwards_or_not_at_all() {
    assert_eq!(prompt_offset(false, Some(7)), Some(7));
    assert_eq!(prompt_offset(false, None), None);
    assert_eq!(prompt_offset(true, Some(7)), Some(7));
    assert_eq!(prompt_offset(true, None), Some(0));
}

#[test]
fn on_host_resize_propagates_to_all_panes() {
    let mut h = two_panes();
    let effects = h.m.on_host_resize(size(40, 120));
    assert!(effects.contains(&Effect::Resize(WindowId(0))));
    assert_eq!(h.m.viewport(), Rect { row: 1, col: 1, rows: 37, cols: 118 });
    assert_eq!(h.m.host_size(), size(40, 120));
    h.m.on_host_resize(size(0, 0));
    assert_eq!(h.m.viewport(), Rect { row: 1, col: 1, rows: 1, cols: 1 });
}

#[test]
fn zoom_toggle_sets_and_clears_zoomed() {
    let mut h = two_panes();
    let active = h.active();
    h.command(Command::ZoomToggle);
    assert_eq!(h.m.active_window().zoomed, Some(active));
    assert_eq!(h.resized.last(), Some(&WindowId(0)));
    h.command(Command::ZoomToggle);
    assert!(h.m.active_window().zoomed.is_none());
}

#[test]
fn splitting_clears_zoom() {
    let mut h = two_panes();
    h.command(Command::ZoomToggle);
    assert!(h.m.active_window().zoomed.is_some());
    h.command(Command::SplitV);
    assert!(h.m.active_window().zoomed.is_none(), "split must clear zoom");
}

#[test]
fn resize_pane_right_widens_active_pane() {
    let mut h = two_panes();
    for (dir, axis, by) in [
        (Direction::Right, SplitDir::Vertical, 3),
        (Direction::Left, SplitDir::Vertical, -3),
        (Direction::Up, SplitDir::Horizontal, -3),
        (Direction::Down, SplitDir::Horizontal, 3),
    ] {
        assert_eq!(
            h.m.handle_command(Command::ResizePane(dir), 0),
            vec![
                Effect::Grow(WindowId(0), PaneId(1), axis, by),
                Effect::Resize(WindowId(0)),
                Effect::Wake,
            ]
        );
    }
}

#[test]
fn resize_single_pane_is_noop() {
    let mut h = Host::new();
    h.command(Command::ResizePane(Direction::Left));
    assert_eq!(h.m.active_window().panes.len(), 1);
}

#[test]
fn last_window_toggle_returns_to_previous() {
    let mut h = Host::new();
    h.command(Command::NewWindow);
    assert_eq!(h.m.active_idx(), 1);
    h.command(Command::SelectLastWindow);
    assert_eq!(h.m.active_idx(), 0, "should return to window 0");
    h.command(Command::SelectLastWindow);
    assert_eq!(h.m.active_idx(), 1, "toggling again returns to window 1");
}

#[test]
fn last_window_noop_when_single() {
    let mut h = Host::new();
    h.command(Command::SelectLastWindow);
    assert_eq!(h.m.active_idx(), 0);
}

#[test]
fn last_pane_returns_to_previous() {
    let mut h = two_panes();
    let second = h.active();
    assert!(h.m.report_focus(WindowId(0), PaneId(0)));
    h.command(Command::SelectLastPane);
    assert_eq!(h.active(), second, "last-pane returns to previous pane");
}

#[test]
fn kill_window_keeps_last_active_index_valid() {
    let mut h = Host::new();
    h.command(Command::NewWindow);
    h.command(Command::NewWindow);
    h.command(Command::SelectWindow(0));
    assert_eq!(h.m.active_idx(), 0);
    let w2 = h.ids()[2];
    h.command(Command::KillWindow);
    assert_eq!(h.m.windows().len(), 2);
    h.command(Command::SelectLastWindow);
    assert_eq!(h.active_id(), w2, "toggle lands on the original W2");
}

#[test]
fn pane_death_window_removal_keeps_last_active_valid() {
    let mut h = Host::new();
    h.command(Command::NewWindow);
    h.command(Command::NewWindow);
    h.command(Command::SelectWindow(0));
    let w2 = h.ids()[2];
    h.die(PaneId(1));
    assert_eq!(h.m.windows().len(), 2);
    h.command(Command::SelectLastWindow);
    assert_eq!(h.active_id(), w2, "toggle lands on the original W2");
}

#[test]
fn pane_death_of_active_middle_window_focuses_next() {
    let mut h = Host::new();
    h.command(Command::NewWindow);
    h.command(Command::NewWindow);
    h.command(Command::SelectWindow(1));
    let w2 = h.ids()[2];
    h.die(PaneId(1));
    assert_eq!(h.m.windows().len(), 2);
    assert_eq!(h.active_id(), w2, "focus follows the next window when the middle one dies");
}

#[test]
fn a_command_that_ends_leaves_a_shell_once() {
    let mut m = WindowManager::new(&cat(), "/bin/sh".to_string(), size(24, 80), true, 0);
    m.handle_command(Command::MarkPane, 0);
    let effects = m.handle_pane_death(PaneId(0));
    assert_eq!(effects, vec![Effect::Respawn(WindowId(0), PaneId(0), PaneId(1))]);
    let effects = m.report_respawn(WindowId(0), PaneId(0), PaneId(1), true, 0);
    assert_eq!(effects, vec![Effect::Wake]);
    assert_eq!(m.active_window().active, PaneId(1));
    assert_eq!(m.marked_pane(), Some(PaneId(1)));
    assert_eq!(m.take_active_message(0), Some("command exited — dropped to shell"));
    let effects = m.handle_pane_death(PaneId(1));
    assert_eq!(effects, vec![Effect::Remove(WindowId(0), PaneId(1), Purpose::Close)]);
}

#[test]
fn a_shell_that_does_not_start_closes_the_pane() {
    let mut m = WindowManager::new(&cat(), "/bin/sh".to_string(), size(24, 80), true, 0);
    m.handle_pane_death(PaneId(0));
    let effects = m.report_respawn(WindowId(0), PaneId(0), PaneId(1), false, 0);
    assert_eq!(effects, vec![Effect::Remove(WindowId(0), PaneId(0), Purpose::Close)]);
    m.report_removed(WindowId(0), PaneId(0), None, Purpose::Close, 0);
    assert!(m.is_empty());
}

#[test]
fn reports_that_nobody_asked_for_are_refused() {
    let mut h = two_panes();
    assert!(!h.m.report_split(WindowId(0), PaneId(1), false));
    assert!(!h.m.report_split(WindowId(0), PaneId(9), false));
    assert!(!h.m.report_split(WindowId(9), PaneId(0), false));
    assert!(!h.m.report_window(WindowId(9), PaneId(9), String::new(), None, false, true, 0));
    assert!(!h.m.report_focus(WindowId(0), PaneId(9)));
    assert!(h.m.report_popup(PaneId(1), None).is_empty());
    assert!(h.m
        .report_removed(WindowId(0), PaneId(9), Some(PaneId(0)), Purpose::Close, 0)
        .is_empty());
    assert_eq!(h.m.windows().len(), 1);
    assert_eq!(h.m.active_window().panes.len(), 2);
}

#[test]
fn by_id_helpers_hit_and_miss() {
    let mut h = two_panes();
    h.command(Command::NewWindow);
    assert!(h.m.focus_pane_by_id(PaneId(0)).0);
    assert_eq!(h.m.active_idx(), 0, "focus switched to pane 0's window");
    assert_eq!(h.m.windows()[0].active, PaneId(0), "pane 0 became its window's active pane");
    assert!(!h.m.focus_pane_by_id(PaneId(999)).0);

    assert!(h.m.select_window_by_id(WindowId(1)).0);
    assert_eq!(h.m.active_idx(), 1);
    assert!(!h.m.select_window_by_id(WindowId(99)).0);

    assert!(h.m.rename_window_by_id(WindowId(0), "renamed".to_string()));
    assert_eq!(h.m.windows()[0].name, "renamed");
    assert!(!h.m.rename_window_by_id(WindowId(99), "x".to_string()));

    assert!(h.m.rename_pane_by_id(PaneId(0), "p".to_string()));
    assert_eq!(h.m.windows()[0].panes[0].name.as_deref(), Some("p"));
    assert!(!h.m.rename_pane_by_id(PaneId(999), "p".to_string()));

    assert_eq!(h.m.kill_window_panes(WindowId(1)), (true, vec![Effect::KillChild(PaneId(2))]));
    assert!(!h.m.kill_window_panes(WindowId(99)).0);
    assert_eq!(h.m.kill_pane_child(PaneId(0)), (true, vec![Effect::KillChild(PaneId(0))]));
    assert!(!h.m.kill_pane_child(PaneId(999)).0);
}

#[test]
fn by_id_helpers_clear_zoom() {
    let mut h = two_panes();
    h.command(Command::ZoomToggle);
    assert!(h.m.windows()[0].zoomed.is_some());
    assert!(h.m.focus_pane_by_id(PaneId(0)).0);
    assert!(h.m.windows()[0].zoomed.is_none(), "focus_pane_by_id unzooms the target window");
    h.command(Command::NewWindow);
    h.m.select_window_by_id(WindowId(0));
    h.command(Command::ZoomToggle);
    assert!(h.m.windows()[0].zoomed.is_some());
    h.m.select_window_by_id(WindowId(1));
    assert!(h.m.windows()[0].zoomed.is_none(), "select_window_by_id unzooms before switching");
}

#[test]
fn mark_pane_toggles_and_death_clears() {
    let mut h = two_panes();
    assert_eq!(h.m.marked_pane(), None);
    h.command(Command::MarkPane);
    assert_eq!(h.m.marked_pane(), Some(PaneId(1)));
    h.command(Command::MarkPane);
    assert_eq!(h.m.marked_pane(), None, "re-marking the active pane toggles off");
    h.command(Command::MarkPane);
    assert_eq!(h.m.marked_pane(), Some(PaneId(1)));
    h.die(PaneId(1));
    assert_eq!(h.m.marked_pane(), None, "a dead pane is unmarked");
}

#[test]
fn break_pane_moves_active_into_new_window() {
    let mut h = two_panes();
    h.command(Command::BreakPane);
    assert_eq!(h.m.windows().len(), 2);
    assert_eq!(h.panes(WindowId(0)), vec![PaneId(0)]);
    assert_eq!(h.m.active_idx(), 1);
    assert_eq!(h.active(), PaneId(1));
    assert_eq!(h.m.active_window().name, "shell1");
    h.command(Command::SelectLastWindow);
    assert_eq!(h.m.active_idx(), 0);
}

#[test]
fn break_pane_single_pane_is_noop_with_status() {
    let mut h = Host::new();
    h.command(Command::BreakPane);
    assert_eq!(h.m.windows().len(), 1, "single pane is not broken out");
    assert_eq!(h.message().as_deref(), Some("only pane in window"));
}

#[test]
fn swap_pane_exchanges_with_neighbor() {
    let mut h = two_panes();
    h.command(Command::SwapPane(false));
    assert_eq!(h.active(), PaneId(1), "active id unchanged");
    assert_eq!(h.panes(WindowId(0)), vec![PaneId(1), PaneId(0)]);
}

#[test]
fn only_a_swap_that_took_place_gives_panes_their_sizes() {
    let mut h = Host::new();
    assert_eq!(
        h.m.handle_command(Command::SwapPane(true), 0),
        vec![Effect::SwapWithNeighbor(WindowId(0), PaneId(0), true), Effect::Wake]
    );
    h.resized.clear();
    h.command(Command::SwapPane(true));
    assert!(h.resized.is_empty(), "a single pane has no neighbor");
    let mut h = two_panes();
    h.resized.clear();
    h.command(Command::SwapPane(true));
    assert_eq!(h.resized, vec![WindowId(0)]);
    assert!(h.m.report_swapped(WindowId(9), true).is_empty());
    assert!(h.m.report_swapped(WindowId(0), false).is_empty());
}

#[test]
fn join_pane_moves_marked_and_removes_empty_source() {
    let mut h = Host::new();
    h.command(Command::NewWindow);
    h.command(Command::SelectWindow(0));
    h.command(Command::MarkPane);
    h.command(Command::SelectWindow(1));
    h.command(Command::JoinPane(SplitDir::Vertical));
    assert_eq!(h.m.windows().len(), 1, "emptied source window removed");
    let panes = h.panes(WindowId(1));
    assert!(panes.contains(&PaneId(0)) && panes.contains(&PaneId(1)));
    assert_eq!(h.active(), PaneId(0), "joined pane is active");
    assert_eq!(h.m.marked_pane(), None, "mark cleared after join");
}

#[test]
fn join_pane_fixes_active_and_last_active_after_source_removal() {
    let mut h = Host::new();
    h.command(Command::NewWindow);
    h.command(Command::NewWindow);
    h.command(Command::SelectWindow(0));
    h.command(Command::MarkPane);
    h.command(Command::SelectWindow(1));
    h.command(Command::SelectWindow(2));
    let w2 = h.active_id();
    let w1 = h.ids()[1];
    h.command(Command::JoinPane(SplitDir::Vertical));
    assert_eq!(h.active_id(), w2, "active stays W2 across removal");
    h.command(Command::SelectLastWindow);
    assert_eq!(h.active_id(), w1, "last-active follows W1 across removal");
}

#[test]
fn join_pane_source_survives_when_multipane() {
    let mut h = Host::new();
    h.command(Command::NewWindow);
    h.command(Command::SplitV);
    h.command(Command::MarkPane);
    h.command(Command::SelectWindow(0));
    h.command(Command::JoinPane(SplitDir::Vertical));
    assert_eq!(h.m.windows().len(), 2, "multi-pane source survives");
    let here = h.panes(WindowId(0));
    assert!(here.contains(&PaneId(0)) && here.contains(&PaneId(2)));
    assert_eq!(h.panes(WindowId(1)), vec![PaneId(1)], "source keeps its other pane");
    assert!(h.resized.contains(&WindowId(1)));
    assert_eq!(h.m.marked_pane(), None);
}

#[test]
fn join_without_a_mark_is_a_notice() {
    let mut h = two_panes();
    h.command(Command::JoinPane(SplitDir::Vertical));
    assert_eq!(h.message().as_deref(), Some("no marked pane"));
}

#[test]
fn swap_marked_pane_same_window_then_cross_window_swaps() {
    let mut h = two_panes();
    h.command(Command::MarkPane);
    h.now = 5_000;
    h.command(Command::SelectPane(Direction::Left));
    h.command(Command::SwapMarkedPane);
    assert_eq!(h.panes(WindowId(0)), vec![PaneId(1), PaneId(0)]);
    assert_eq!(h.m.marked_pane(), Some(PaneId(1)), "mark preserved across swap");
    h.command(Command::NewWindow);
    h.command(Command::SwapMarkedPane);
    assert_eq!(h.message(), None);
    assert!(h.m.windows()[1].holds(PaneId(1)), "M moved into the active window");
    assert!(h.m.windows()[0].holds(PaneId(2)), "A moved into the other window");
    assert_eq!(h.m.marked_pane(), Some(PaneId(1)));
}

#[test]
fn swap_marked_cross_window_exchanges_slots() {
    let mut h = two_panes();
    h.command(Command::NewWindow);
    h.command(Command::SplitV);
    h.command(Command::MarkPane);
    h.now = 5_000;
    h.command(Command::SelectWindow(0));
    h.command(Command::SwapMarkedPane);
    assert!(h.m.windows()[0].holds(PaneId(3)));
    assert!(!h.m.windows()[0].holds(PaneId(1)));
    assert!(h.m.windows()[1].holds(PaneId(1)));
    assert!(!h.m.windows()[1].holds(PaneId(3)));
    assert_eq!(h.panes(WindowId(0)), vec![PaneId(0), PaneId(3)]);
    assert_eq!(h.panes(WindowId(1)), vec![PaneId(2), PaneId(1)]);
    assert_eq!(h.m.windows()[0].panes[1].id, PaneId(3));
    assert_eq!(h.m.windows()[1].panes[1].id, PaneId(1));
    assert_eq!(h.m.marked_pane(), Some(PaneId(3)));
    assert_eq!(h.message(), None, "no refusal message");
}

#[test]
fn swap_marked_cross_window_focus_follows_slot() {
    let mut h = Host::new();
    h.command(Command::NewWindow);
    h.command(Command::MarkPane);
    h.command(Command::SelectWindow(0));
    h.command(Command::SwapMarkedPane);
    assert_eq!(h.m.windows()[0].active, PaneId(1), "active window focuses M");
    assert_eq!(h.m.windows()[1].active, PaneId(0), "other window's focus follows the slot");
}

#[test]
fn swap_marked_cross_window_zoom_follows_slot_in_other_window() {
    let mut h = Host::new();
    h.command(Command::NewWindow);
    h.command(Command::MarkPane);
    h.command(Command::ZoomToggle);
    h.m.set_active_window(0);
    h.command(Command::SwapMarkedPane);
    assert_eq!(h.m.windows()[1].zoomed, Some(PaneId(0)), "the slot keeps showing its occupant");
    assert_eq!(h.m.windows()[0].zoomed, None, "active window zoom stays cleared");
}

#[test]
fn swap_marked_cross_window_then_close_falls_back_sanely() {
    let mut h = two_panes();
    h.command(Command::NewWindow);
    h.command(Command::MarkPane);
    h.command(Command::SelectWindow(0));
    h.command(Command::SwapMarkedPane);
    assert_eq!(h.active(), PaneId(2));
    h.command(Command::KillPane);
    assert_eq!(h.active(), PaneId(0));
    assert_eq!(h.m.marked_pane(), None, "killing the marked pane clears the mark");
}

#[test]
fn swap_marked_cross_window_resizes_both_windows() {
    let mut h = Host::new();
    h.command(Command::NewWindow);
    h.command(Command::SplitV);
    h.command(Command::MarkPane);
    h.command(Command::SelectWindow(0));
    h.resized.clear();
    h.command(Command::SwapMarkedPane);
    assert_eq!(h.resized, vec![WindowId(0), WindowId(1)]);
}

#[test]
fn swap_marked_no_mark_is_status_noop() {
    let mut h = two_panes();
    h.command(Command::SwapMarkedPane);
    assert_eq!(h.message().as_deref(), Some("no marked pane"));
}

#[test]
fn swap_marked_equals_active_is_noop() {
    let mut h = two_panes();
    h.command(Command::MarkPane);
    h.now = 5_000;
    h.command(Command::SwapMarkedPane);
    assert_eq!(h.panes(WindowId(0)), vec![PaneId(0), PaneId(1)]);
    assert_eq!(h.m.marked_pane(), Some(PaneId(1)), "mark untouched");
    assert_eq!(h.message(), None);
}

#[test]
fn kill_pane_and_kill_window_clear_mark() {
    let mut h = two_panes();
    h.command(Command::MarkPane);
    h.command(Command::KillPane);
    assert_eq!(h.m.marked_pane(), None, "killing the marked pane clears the mark");

    let mut h = two_panes();
    h.command(Command::NewWindow);
    h.command(Command::SelectWindow(0));
    h.command(Command::MarkPane);
    h.command(Command::KillWindow);
    assert_eq!(h.m.marked_pane(), None, "killing the window clears the mark");
    assert_eq!(h.killed, vec![PaneId(0), PaneId(1)]);
}

#[test]
fn structural_commands_clear_zoom() {
    for cmd in [Command::SwapPane(false), Command::BreakPane] {
        let mut h = two_panes();
        h.command(Command::ZoomToggle);
        assert!(h.m.active_window().zoomed.is_some());
        h.command(cmd);
        assert!(h.m.active_window().zoomed.is_none());
    }
    for cmd in [Command::JoinPane(SplitDir::Vertical), Command::SwapMarkedPane] {
        let mut h = two_panes();
        h.command(Command::SelectPane(Direction::Left));
        h.command(Command::MarkPane);
        h.command(Command::SelectPane(Direction::Right));
        h.command(Command::ZoomToggle);
        assert!(h.m.active_window().zoomed.is_some());
        h.command(cmd);
        assert!(h.m.active_window().zoomed.is_none());
    }
}

#[test]
fn swap_pane_next_and_prev_are_directional() {
    let mut h = two_panes();
    h.command(Command::SplitV);
    h.command(Command::SwapPane(false));
    assert_eq!(h.panes(WindowId(0)), vec![PaneId(0), PaneId(2), PaneId(1)]);
    let mut h = two_panes();
    h.command(Command::SplitV);
    h.command(Command::SwapPane(true));
    assert_eq!(h.panes(WindowId(0)), vec![PaneId(2), PaneId(1), PaneId(0)]);
}

#[test]
fn swap_pane_single_pane_is_noop() {
    let mut h = Host::new();
    h.command(Command::SwapPane(true));
    assert_eq!(h.panes(WindowId(0)), vec![PaneId(0)]);
    assert_eq!(h.active(), PaneId(0));
}

#[test]
fn break_pane_names_window_from_pane_name() {
    let mut h = two_panes();
    assert!(h.m.rename_pane_by_id(PaneId(1), "editor".to_string()));
    h.command(Command::BreakPane);
    assert_eq!(h.m.windows().len(), 2);
    assert_eq!(h.m.active_window().name, "editor", "new window named from the pane");
}

#[test]
fn join_pane_same_window_reorders() {
    let mut h = two_panes();
    h.command(Command::SelectPane(Direction::Left));
    h.command(Command::MarkPane);
    h.command(Command::SelectPane(Direction::Right));
    h.command(Command::JoinPane(SplitDir::Horizontal));
    assert_eq!(h.m.windows().len(), 1, "same-window join keeps one window");
    assert_eq!(h.panes(WindowId(0)), vec![PaneId(1), PaneId(0)]);
    assert_eq!(h.active(), PaneId(0), "joined pane is active");
    assert_eq!(h.m.marked_pane(), None);
}

#[test]
fn join_pane_marked_equals_active_is_status_noop() {
    let mut h = two_panes();
    h.command(Command::MarkPane);
    h.command(Command::JoinPane(SplitDir::Vertical));
    assert_eq!(h.m.active_window().panes.len(), 2, "no structural change");
    assert_eq!(h.message().as_deref(), Some("marked pane is the active pane"));
}

#[test]
fn mark_survives_break_then_swap_is_cross_window() {
    let mut h = two_panes();
    h.command(Command::MarkPane);
    h.now = 5_000;
    h.command(Command::BreakPane);
    assert_eq!(h.m.marked_pane(), Some(PaneId(1)), "mark survives a break (pane still lives)");
    h.command(Command::SelectWindow(0));
    h.command(Command::SwapMarkedPane);
    assert_eq!(h.message(), None);
    assert_eq!(h.panes(WindowId(0)), vec![PaneId(1)]);
    assert_eq!(h.panes(WindowId(1)), vec![PaneId(0)]);
    assert_eq!(h.m.marked_pane(), Some(PaneId(1)));
}

#[test]
fn mark_pane_confirms_set_and_clear() {
    let mut h = Host::new();
    h.command(Command::MarkPane);
    assert_eq!(h.message().as_deref(), Some("marked pane"));
    assert_eq!(h.m.active_severity(), Severity::Success);
    h.command(Command::MarkPane);
    assert_eq!(h.message().as_deref(), Some("mark cleared"));
    assert_eq!(h.m.active_severity(), Severity::Info);
}

#[test]
fn kill_window_flashes_named_window() {
    let mut h = Host::new();
    h.command(Command::NewWindow);
    h.m.set_shown_name(1, "vim".to_string());
    h.command(Command::KillWindow);
    assert_eq!(h.message().as_deref(), Some("killed window 2 (vim)"), "names the killed window");
    assert_eq!(h.m.active_severity(), Severity::Success);
}

#[test]
fn open_popup_is_last_wins_and_close_clears() {
    let mut h = Host::new();
    assert!(!h.m.has_popup());
    h.popup(Some("sleep 600"));
    assert_eq!(h.m.popup().unwrap().title, "sleep 600");
    h.popup(None);
    assert_eq!(h.m.popup().unwrap().title, "popup", "second open replaces the first");
    assert_eq!(h.killed, vec![PaneId(1)]);
    h.command(Command::ClosePopup);
    assert!(!h.m.has_popup());
    h.command(Command::ClosePopup);
    assert!(!h.m.has_popup());
}

#[test]
fn popups_run_a_command_through_the_shell() {
    let h = Host::new();
    let spec = h.m.popup_spec(&Some("top".to_string()), None);
    assert_eq!(spec.program, "/bin/sh");
    assert_eq!(spec.args, vec!["-c".to_string(), "top".to_string()]);
    assert!(h.m.popup_spec(&None, None).args.is_empty());
}

#[test]
fn input_target_pane_prefers_popup() {
    let mut h = Host::new();
    assert_eq!(h.m.input_target_pane(), PaneId(0));
    h.popup(None);
    assert_eq!(h.m.input_target_pane(), PaneId(1), "popup open: it owns user input");
    h.command(Command::ClosePopup);
    assert_eq!(h.m.input_target_pane(), PaneId(0));
}

#[test]
fn popup_cwd_prefers_live_osc7_then_home_base() {
    let mut h = Host::new();
    h.m.set_window_home_cwd(0, Some("/home/base".to_string()));
    assert_eq!(h.m.popup_spec(&None, None).cwd.as_deref(), Some("/home/base"));
    let live = Some("/live/here".to_string());
    assert_eq!(h.m.popup_spec(&None, live).cwd.as_deref(), Some("/live/here"));
    assert_eq!(h.m.split_cwd().as_deref(), Some("/home/base"), "splits unaffected");
}

#[test]
fn popup_pane_death_closes_popup_only() {
    let mut h = Host::new();
    h.popup(None);
    let popup = h.m.popup().unwrap().pane;
    h.die(popup);
    assert!(!h.m.has_popup());
    assert_eq!(h.m.windows().len(), 1, "layout untouched by popup death");
}

#[test]
fn last_window_death_also_closes_popup() {
    let mut h = Host::new();
    h.popup(None);
    h.die(PaneId(0));
    assert!(h.m.is_empty());
    assert!(!h.m.has_popup());
    assert_eq!(h.killed, vec![PaneId(1)]);
}

#[test]
fn kill_window_emptying_session_also_closes_popup() {
    let mut h = Host::new();
    h.popup(None);
    h.command(Command::KillWindow);
    assert!(h.m.is_empty());
    assert!(!h.m.has_popup());
}

#[test]
fn host_resize_resizes_popup_pane() {
    let mut h = Host::new();
    h.popup(None);
    let effects = h.m.on_host_resize(size(40, 120));
    assert!(effects.contains(&Effect::ResizePopup(PaneId(1))));
}

#[test]
fn move_window_forward_keeps_active_following_window() {
    let mut h = Host::new();
    h.command(Command::NewWindow);
    h.command(Command::NewWindow);
    let ids = h.ids();
    assert_eq!(h.m.active_idx(), 2);
    assert!(h.m.move_window(0, 2));
    assert_eq!(h.ids(), vec![ids[1], ids[2], ids[0]], "remove(0)+insert(2)");
    assert_eq!(h.active_id(), ids[2]);
}

#[test]
fn move_window_backward_and_to_end() {
    let mut h = Host::new();
    h.command(Command::NewWindow);
    h.command(Command::NewWindow);
    let ids = h.ids();
    assert!(h.m.move_window(2, 0));
    assert_eq!(h.ids(), vec![ids[2], ids[0], ids[1]]);
    assert!(h.m.move_window(0, 99));
    assert_eq!(h.ids(), vec![ids[0], ids[1], ids[2]]);
}

#[test]
fn move_window_keeps_unrelated_active_window() {
    let mut h = Host::new();
    h.command(Command::NewWindow);
    h.command(Command::NewWindow);
    h.command(Command::SelectWindow(1));
    let ids = h.ids();
    assert!(h.m.move_window(0, 2));
    assert_eq!(h.active_id(), ids[1]);
}

#[test]
fn move_window_noops() {
    let mut h = Host::new();
    assert!(!h.m.move_window(0, 0));
    h.command(Command::NewWindow);
    assert!(!h.m.move_window(1, 1));
    assert!(!h.m.move_window(5, 0));
}

#[test]
fn move_window_by_id_resolves_source() {
    let mut h = Host::new();
    h.command(Command::NewWindow);
    h.command(Command::NewWindow);
    let ids = h.ids();
    assert!(h.m.move_window_by_id(ids[0], 2));
    assert_eq!(h.ids(), vec![ids[1], ids[2], ids[0]]);
    assert!(!h.m.move_window_by_id(WindowId(9999), 0));
}

#[test]
fn a_move_back_undoes_a_move() {
    let mut h = Host::new();
    h.command(Command::NewWindow);
    h.command(Command::NewWindow);
    let ids = h.ids();
    for from in 0..3 {
        for to in 0..3 {
            if from != to {
                assert!(h.m.move_window(from, to));
                assert!(h.m.move_window(to, from));
                assert_eq!(h.ids(), ids);
            }
        }
    }
}

#[test]
fn move_window_keeps_last_active_valid_by_id() {
    let mut h = Host::new();
    h.command(Command::NewWindow);
    h.command(Command::NewWindow);
    h.command(Command::SelectWindow(0));
    let last = h.ids()[2];
    assert!(h.m.move_window(0, 2));
    h.command(Command::SelectLastWindow);
    assert_eq!(h.active_id(), last, "the window before is found in its new place");
}

#[test]
fn move_window_clamp_to_noop() {
    let mut h = Host::new();
    h.command(Command::NewWindow);
    h.command(Command::NewWindow);
    let ids = h.ids();
    assert!(!h.m.move_window(2, 99));
    assert_eq!(h.ids(), ids, "order unchanged on clamp-to-noop");
}

#[test]
fn severity_maps_to_palette_key_and_tier_glyph() {
    assert_eq!(Severity::Info.palette_key(), "info");
    assert_eq!(Severity::Success.palette_key(), "ok");
    assert_eq!(Severity::Warn.palette_key(), "warn");
    assert_eq!(Severity::Error.palette_key(), "alert");

    assert_eq!(Severity::Success.glyph(GlyphTier::Unicode), "✓");
    assert_eq!(Severity::Error.glyph(GlyphTier::Nerd), "✗");
    assert_eq!(Severity::Success.glyph(GlyphTier::Ascii), "+");
    assert_eq!(Severity::Error.glyph(GlyphTier::Ascii), "x");
    assert_eq!(Severity::Info.glyph(GlyphTier::Ascii), "i");
    assert_eq!(Severity::Warn.glyph(GlyphTier::Ascii), "!");
}

#[test]
fn templates_split_a_given_pane() {
    let mut h = two_panes();
    let leaves = h.panes(WindowId(0));
    let effect = h.m.split_window_at_dfs(0, &leaves, 0, SplitDir::Horizontal).unwrap();
    assert_eq!(
        effect,
        Effect::SplitAt(WindowId(0), PaneId(0), SplitDir::Horizontal, PaneId(2))
    );
    h.run(vec![effect]);
    assert_eq!(h.panes(WindowId(0)), vec![PaneId(0), PaneId(2), PaneId(1)]);
    let missing = h.m.split_window_at_dfs(7, &leaves, 0, SplitDir::Vertical).unwrap_err();
    assert_eq!(missing, SplitError::WindowMissing(7));
    assert_eq!(missing.message(), "window 7 missing");
    let beyond = h.m.split_window_at_dfs(0, &leaves, 5, SplitDir::Vertical).unwrap_err();
    assert_eq!(beyond, SplitError::OutOfRange(5));
    assert_eq!(beyond.message(), "dfs idx 5 out of range");
}

#[test]
fn commands_on_the_connection_leave_the_windows_alone() {
    let mut h = two_panes();
    for cmd in [
        Command::Detach,
        Command::Cancel,
        Command::ReloadConfig,
        Command::CommandPrompt,
        Command::ChooseSession,
        Command::ChooseTree,
        Command::History,
        Command::Hints,
        Command::PasteBuffer,
        Command::ChooseBuffer,
        Command::EnterBlockMode,
        Command::CopyOutput,
    ] {
        assert_eq!(h.m.handle_command(cmd, 0), vec![Effect::Wake]);
    }
    assert_eq!(
        h.m.handle_command(Command::EnterCopyMode, 0),
        vec![Effect::CopyMode(PaneId(1)), Effect::Wake]
    );
}
