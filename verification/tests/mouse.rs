#![allow(dead_code)]

use plexy_glass::window_manager::types::{BorderHit, BorderSide, ClickAction, Command, Direction, Effect, MouseButton, MouseEncoding, MouseEvent, MouseKind, MouseModifiers, PaneId, PtySize, Rect, Selection, StatusHit, WindowId};
use plexy_glass::window_manager::spawn::{EnvVar, SpawnSpec};
use plexy_glass::window_manager::mouse::{MouseAct, PaneHit, PromptJump, Scene};
use plexy_glass::window_manager::pointer::{
    copy_mode_followed, copy_mode_start, link_at, mouse_encoding_for, paste_bytes, CopyOutcome,
};
use plexy_glass::Modes;
use plexy_glass::window_manager::WindowManager;

struct Host {
    m: WindowManager,
    now: u64,
    leaves: Vec<(WindowId, Vec<PaneId>)>,
    killed: Vec<PaneId>,
    resized: Vec<WindowId>,
    popup_command: Option<String>,
}

fn size(rows: u16, cols: u16) -> PtySize {
    PtySize { rows, cols, pixel_width: 0, pixel_height: 0 }
}

fn cat() -> SpawnSpec {
    SpawnSpec {
        program: "/bin/cat".to_string(),
        args: vec![],
        env: vec![EnvVar { name: "LANG".to_string(), value: "C".to_string() }],
        cwd: None,
    }
}

impl Host {
    fn new() -> Host {
        Host {
            m: WindowManager::new(&cat(), "/bin/sh".to_string(), size(24, 80), false, 0),
            now: 0,
            leaves: vec![(WindowId(0), vec![PaneId(0)])],
            killed: vec![],
            resized: vec![],
            popup_command: None,
        }
    }

    fn panes(&self, id: WindowId) -> Vec<PaneId> {
        self.leaves.iter().find(|(w, _)| *w == id).map(|(_, l)| l.clone()).unwrap_or_default()
    }

    fn panes_mut(&mut self, id: WindowId) -> &mut Vec<PaneId> {
        if !self.leaves.iter().any(|(w, _)| *w == id) {
            self.leaves.push((id, vec![]));
        }
        let at = self.leaves.iter().position(|(w, _)| *w == id).unwrap();
        &mut self.leaves[at].1
    }

    fn active_of(&self, id: WindowId) -> PaneId {
        self.m.windows().iter().find(|w| w.id == id).unwrap().active
    }

    fn focus(&mut self, id: WindowId, by: i32, wrap: bool) {
        let all = self.panes(id);
        let at = all.iter().position(|p| *p == self.active_of(id)).unwrap() as i32 + by;
        let n = all.len() as i32;
        let at = if wrap { (at + n) % n } else { at };
        if at >= 0 && at < n {
            assert!(self.m.report_focus(id, all[at as usize]));
        }
    }

    fn run(&mut self, effects: Vec<Effect>) {
        let now = self.now;
        for effect in effects {
            match effect {
                Effect::Split(id, _, pane) => {
                    let active = self.active_of(id);
                    self.put_beside(id, active, pane);
                    assert!(self.m.report_split(id, pane, false));
                }
                Effect::SplitAt(id, at, _, pane) => {
                    self.put_beside(id, at, pane);
                    assert!(self.m.report_split(id, pane, false));
                }
                Effect::SpawnWindow(id, pane) => {
                    self.panes_mut(id).push(pane);
                    let home = self.m.session_cwd();
                    assert!(self.m.report_window(id, pane, String::new(), home, false, true, now));
                }
                Effect::SpawnPopup(pane) => {
                    let command = self.popup_command.take();
                    let more = self.m.report_popup(pane, command);
                    self.run(more);
                }
                Effect::Respawn(id, pane, shell) => {
                    let l = self.panes_mut(id);
                    let at = l.iter().position(|p| *p == pane).unwrap();
                    l[at] = shell;
                    let more = self.m.report_respawn(id, pane, shell, true, now);
                    self.run(more);
                }
                Effect::KillChild(pane) => self.killed.push(pane),
                Effect::Remove(id, pane, purpose) => {
                    let active = self.active_of(id);
                    let l = self.panes_mut(id);
                    let at = l.iter().position(|p| *p == pane).unwrap();
                    l.remove(at);
                    let focus = if l.is_empty() {
                        None
                    } else if pane != active {
                        Some(active)
                    } else {
                        Some(l[at.saturating_sub(1)])
                    };
                    let more = self.m.report_removed(id, pane, focus, purpose, now);
                    self.run(more);
                }
                Effect::Adopt(id, pane) => self.panes_mut(id).push(pane),
                Effect::AdoptSplit(id, beside, _, pane) => self.put_beside(id, beside, pane),
                Effect::FocusNext(id) => self.focus(id, 1, true),
                Effect::FocusPrev(id) => self.focus(id, -1, true),
                Effect::FocusToward(id, Direction::Left) => self.focus(id, -1, false),
                Effect::FocusToward(id, Direction::Up) => self.focus(id, -1, false),
                Effect::FocusToward(id, _) => self.focus(id, 1, false),
                Effect::SwapWithNeighbor(id, pane, next) => {
                    let l = self.panes_mut(id);
                    let n = l.len();
                    let at = l.iter().position(|p| *p == pane).unwrap();
                    let to = if next { (at + 1) % n } else { (at + n - 1) % n };
                    l.swap(at, to);
                    let more = self.m.report_swapped(id, at != to);
                    self.run(more);
                }
                Effect::SwapPanes(id, a, b) => {
                    let l = self.panes_mut(id);
                    let at = l.iter().position(|p| *p == a).unwrap();
                    let to = l.iter().position(|p| *p == b).unwrap();
                    l.swap(at, to);
                }
                Effect::SwapAcross(i, a, j, b) => {
                    let at = self.panes(i).iter().position(|p| *p == a).unwrap();
                    let to = self.panes(j).iter().position(|p| *p == b).unwrap();
                    self.panes_mut(i)[at] = b;
                    self.panes_mut(j)[to] = a;
                }
                Effect::Arrange(id, _, main) => {
                    if let Some(p) = main {
                        let l = self.panes_mut(id);
                        l.retain(|q| *q != p);
                        l.insert(0, p);
                    }
                }
                Effect::Resize(id) => self.resized.push(id),
                _ => {}
            }
        }
    }

    fn put_beside(&mut self, id: WindowId, at: PaneId, pane: PaneId) {
        let l = self.panes_mut(id);
        let k = l.iter().position(|p| *p == at).unwrap();
        l.insert(k + 1, pane);
    }

    fn command(&mut self, cmd: Command) {
        let effects = self.m.handle_command(cmd, self.now);
        assert_eq!(effects.last(), Some(&Effect::Wake));
        self.run(effects);
    }

    fn popup(&mut self, command: Option<&str>) {
        self.popup_command = command.map(|s| s.to_string());
        self.command(Command::OpenPopup);
    }

    fn window(&mut self, name: &str) {
        if let Effect::SpawnWindow(id, pane) = self.m.new_window_with_spec() {
            self.panes_mut(id).push(pane);
            let now = self.now;
            assert!(self.m.report_window(id, pane, name.to_string(), None, false, false, now));
        }
    }

    fn die(&mut self, pane: PaneId) {
        let effects = self.m.handle_pane_death(pane);
        self.run(effects);
    }

    fn message(&mut self) -> Option<String> {
        self.m.take_active_message(self.now).map(|s| s.to_string())
    }

    fn ids(&self) -> Vec<WindowId> {
        self.m.windows().iter().map(|w| w.id).collect()
    }

    fn active(&self) -> PaneId {
        self.m.active_window().active
    }

    fn active_id(&self) -> WindowId {
        self.m.windows()[self.m.active_idx()].id
    }
}

fn two_panes() -> Host {
    let mut h = Host::new();
    h.command(Command::SplitV);
    h
}

fn no_modes() -> Modes {
    Modes::from_bits(0)
}

fn event(kind: MouseKind, button: MouseButton, row: u16, col: u16) -> MouseEvent {
    MouseEvent {
        kind,
        button,
        modifiers: MouseModifiers { shift: false, alt: false, ctrl: false },
        row,
        col,
    }
}

fn press(row: u16, col: u16) -> MouseEvent {
    event(MouseKind::Press, MouseButton::Left, row, col)
}

fn mev(kind: MouseKind, row: u16, col: u16, alt: bool) -> MouseEvent {
    let mut e = event(kind, MouseButton::Left, row, col);
    e.modifiers.alt = alt;
    e
}

fn shift_press(row: u16, col: u16) -> MouseEvent {
    let mut e = press(row, col);
    e.modifiers.shift = true;
    e
}

struct Table {
    h: Host,
    copy_mode: bool,
    modes: Modes,
    scroll: u32,
    prompt: Option<PromptJump>,
    link: Option<String>,
    word: Option<Selection>,
    popup_modes: Modes,
}

impl Table {
    fn new(h: Host) -> Table {
        Table {
            h,
            copy_mode: false,
            modes: no_modes(),
            scroll: 0,
            prompt: None,
            link: None,
            word: None,
            popup_modes: no_modes(),
        }
    }

    fn rects(&self) -> Vec<(PaneId, Rect)> {
        let all = self.h.panes(self.h.active_id());
        if all.len() == 1 {
            vec![(all[0], Rect { row: 1, col: 1, rows: 21, cols: 78 })]
        } else {
            vec![
                (all[0], Rect { row: 1, col: 1, rows: 21, cols: 38 }),
                (all[1], Rect { row: 1, col: 40, rows: 21, cols: 39 }),
            ]
        }
    }

    fn rect(&self, pane: PaneId) -> Rect {
        self.rects().into_iter().find(|(p, _)| *p == pane).unwrap().1
    }

    fn send(&mut self, event: MouseEvent) -> MouseAct {
        let e = self.h.m.to_pane_coords(event);
        let hit = self.rects().into_iter().find(|(_, r)| {
            e.row >= r.row && e.row < r.row + r.rows && e.col >= r.col && e.col < r.col + r.cols
        });
        let two = self.rects().len() == 2;
        let border = if two && e.col == 39 {
            Some(BorderHit { adjacent_pane: self.rects()[0].0, side: BorderSide::Right })
        } else {
            None
        };
        let source_rect = self.h.m.selection().map(|s| self.rect(s.source_pane));
        let scene = Scene {
            popup_rect: Rect { row: 3, col: 9, rows: 16, cols: 62 },
            popup_modes: self.popup_modes,
            border,
            hit: hit.map(|(pane, rect)| PaneHit {
                pane,
                rect,
                copy_mode: self.copy_mode,
                modes: self.modes,
                scroll: self.scroll,
                prompt: self.prompt,
                link: self.link.clone(),
                word: self.word,
                line: None,
            }),
            source_rect,
        };
        let now = self.h.now;
        let out = self.h.m.handle_mouse(event, scene, now);
        self.h.run(out.effects);
        out.act
    }
}

#[test]
fn click_in_other_pane_changes_focus() {
    let mut t = Table::new(two_panes());
    assert_eq!(t.h.active(), PaneId(1));
    t.send(press(5, 2));
    assert_eq!(t.h.active(), PaneId(0));
}

#[test]
fn click_release_on_cursor_row_repositions_without_a_mark() {
    let mut t = Table::new(Host::new());
    t.send(press(6, 6));
    assert_eq!(
        t.send(mev(MouseKind::Release, 6, 6, false)),
        MouseAct::Reposition(PaneId(0), 5, 5)
    );
    t.h.now = 1_000;
    t.send(press(6, 6));
    t.send(mev(MouseKind::Move, 6, 9, false));
    assert!(matches!(t.send(mev(MouseKind::Release, 6, 9, false)), MouseAct::Copy(_)));
    t.h.now = 2_000;
    t.send(press(6, 6));
    t.send(mev(MouseKind::Move, 6, 7, false));
    assert_eq!(
        t.send(mev(MouseKind::Release, 6, 7, false)),
        MouseAct::Reposition(PaneId(0), 5, 5)
    );
}

#[test]
fn a_click_on_the_past_does_not_move_the_cursor() {
    let mut t = Table::new(Host::new());
    t.scroll = 3;
    t.send(press(6, 6));
    t.scroll = 0;
    assert_eq!(t.send(mev(MouseKind::Release, 6, 6, false)), MouseAct::Nothing);
}

#[test]
fn double_click_on_a_two_char_word_still_copies() {
    let mut t = Table::new(Host::new());
    let word = Selection {
        source_pane: PaneId(0),
        anchor_row: 5,
        anchor_col: 2,
        head_row: 5,
        head_col: 3,
    };
    t.word = Some(word);
    assert_eq!(t.h.message(), None);
    t.send(press(6, 3));
    t.send(mev(MouseKind::Release, 6, 3, false));
    t.send(press(6, 3));
    assert_eq!(t.send(mev(MouseKind::Release, 6, 3, false)), MouseAct::Copy(word));
    t.h.m.report_copied(0);
    assert!(t.h.message().unwrap().starts_with("copied"));
}

#[test]
fn copy_mode_mouse_uses_pane_local_coords() {
    let mut t = Table::new(two_panes());
    t.copy_mode = true;
    let rect = t.rect(PaneId(1));
    let act = t.send(press(rect.row + 2, rect.col + 5));
    assert_eq!(act, MouseAct::CopyMode(PaneId(1), press(2, 5), 1));
    let act = t.send(press(rect.row + 2, rect.col + 5));
    assert_eq!(act, MouseAct::CopyMode(PaneId(1), press(2, 5), 2));
}

#[test]
fn forwarded_mouse_uses_pane_local_coords() {
    let mut t = Table::new(two_panes());
    t.modes.insert(Modes::MOUSE_BTN);
    t.modes.insert(Modes::MOUSE_SGR);
    let rect = t.rect(PaneId(1));
    let act = t.send(press(rect.row + 3, rect.col + 5));
    assert_eq!(act, MouseAct::Send(PaneId(1), press(3, 5), MouseEncoding::Sgr));
}

#[test]
fn encodings_follow_the_modes() {
    let with = |mask: u64| Modes::from_bits(mask);
    assert_eq!(mouse_encoding_for(with(Modes::MOUSE_SGR | Modes::MOUSE_ANY)), MouseEncoding::Sgr);
    assert_eq!(mouse_encoding_for(with(Modes::MOUSE_ANY)), MouseEncoding::AnyEvent);
    assert_eq!(mouse_encoding_for(with(Modes::MOUSE_BTN)), MouseEncoding::ButtonEvent);
    assert_eq!(mouse_encoding_for(with(Modes::MOUSE_BTN_EVENT)), MouseEncoding::ButtonEvent);
    assert_eq!(mouse_encoding_for(with(Modes::MOUSE_X10)), MouseEncoding::X10);
    assert_eq!(mouse_encoding_for(no_modes()), MouseEncoding::X10);
}

#[test]
fn border_press_starts_resize_drag() {
    let mut t = Table::new(two_panes());
    t.send(press(5, 39));
    let act = t.send(mev(MouseKind::Move, 5, 44, false));
    assert_eq!(act, MouseAct::AdjustBorder(WindowId(0), PaneId(0), BorderSide::Right, 5));
}

#[test]
fn classify_click_count_increments_within_window() {
    let mut h = Host::new();
    assert_eq!(h.m.classify_click_count(PaneId(0), press(5, 5), 0), 1);
    assert_eq!(h.m.classify_click_count(PaneId(0), press(5, 5), 100), 2);
    assert_eq!(h.m.classify_click_count(PaneId(0), press(5, 5), 200), 3);
    assert_eq!(h.m.classify_click_count(PaneId(0), press(5, 5), 300), 3);
    assert_eq!(h.m.classify_click_count(PaneId(0), press(5, 5), 700), 1);
    assert_eq!(h.m.classify_click_count(PaneId(0), mev(MouseKind::Move, 5, 5, false), 700), 1);
    assert_eq!(h.m.classify_click_count(PaneId(0), press(5, 5), 1_099), 2);
}

#[test]
fn classify_click_count_resets_on_target_change() {
    let mut h = Host::new();
    assert_eq!(h.m.classify_click_count(PaneId(0), press(5, 5), 0), 1);
    assert_eq!(h.m.classify_click_count(PaneId(0), press(5, 10), 0), 1);
    assert_eq!(h.m.classify_click_count(PaneId(1), press(5, 10), 0), 1);
}

#[test]
fn resize_drag_release_clears_state() {
    let mut t = Table::new(two_panes());
    t.send(press(5, 39));
    t.h.resized.clear();
    t.send(mev(MouseKind::Release, 5, 39, false));
    assert_eq!(t.h.resized, vec![WindowId(0)]);
    assert_eq!(t.send(mev(MouseKind::Move, 5, 44, false)), MouseAct::Nothing);
}

#[test]
fn resize_drag_move_changes_the_split_border() {
    let mut t = Table::new(two_panes());
    t.send(press(5, 39));
    t.send(mev(MouseKind::Move, 5, 44, false));
    let effects = t.h.m.report_border(3);
    assert_eq!(effects, vec![Effect::Resize(WindowId(0)), Effect::Wake]);
    let act = t.send(mev(MouseKind::Move, 5, 44, false));
    assert_eq!(act, MouseAct::AdjustBorder(WindowId(0), PaneId(0), BorderSide::Right, 2));
    assert!(t.h.m.report_border(0).is_empty());
    t.h.m.report_border(2);
    assert_eq!(t.send(mev(MouseKind::Move, 5, 44, false)), MouseAct::Nothing);
}

#[test]
fn left_click_focuses_non_active_pane_even_with_app_mouse_mode() {
    let mut t = Table::new(two_panes());
    t.modes.insert(Modes::MOUSE_BTN);
    assert_eq!(t.send(press(10, 10)), MouseAct::Nothing);
    assert_eq!(t.h.active(), PaneId(0));
    assert!(matches!(t.send(press(10, 10)), MouseAct::Send(PaneId(0), _, _)));
}

#[test]
fn status_top_offset_shifts_border_hit_row() {
    let mut h = Host::new();
    h.m.set_status_layout(Some(0), 1);
    assert_eq!(h.m.to_pane_coords(press(7, 4)), press(6, 4));
    assert_eq!(h.m.to_pane_coords(press(0, 4)), press(0, 4));
    h.m.set_status_layout(Some(23), 0);
    assert_eq!(h.m.to_pane_coords(press(7, 4)), press(7, 4));
}

#[test]
fn wheel_event_routes_to_active_pane_without_panic() {
    let mut t = Table::new(Host::new());
    let act = t.send(event(MouseKind::Wheel(3), MouseButton::Absent, 2, 2));
    assert_eq!(act, MouseAct::Scroll(PaneId(0), 3));
}

#[test]
fn the_middle_button_pastes() {
    let mut t = Table::new(Host::new());
    let act = t.send(event(MouseKind::Press, MouseButton::Middle, 2, 2));
    assert_eq!(act, MouseAct::Paste(PaneId(0)));
    assert_eq!(paste_bytes(b"hi".to_vec(), no_modes()), Some(b"hi".to_vec()));
    let bracketed = Modes::from_bits(Modes::BRACKETED_PASTE);
    assert_eq!(paste_bytes(b"hi".to_vec(), bracketed), Some(b"\x1b[200~hi\x1b[201~".to_vec()));
    assert_eq!(paste_bytes(vec![], bracketed), None);
}

fn tabs() -> Vec<StatusHit> {
    vec![
        StatusHit { start: 0, end: 5, action: ClickAction::SelectWindow(0) },
        StatusHit { start: 5, end: 10, action: ClickAction::SelectWindow(1) },
        StatusHit { start: 10, end: 15, action: ClickAction::SelectWindow(2) },
    ]
}

fn three_tab_manager() -> Table {
    let mut h = Host::new();
    h.command(Command::NewWindow);
    h.command(Command::NewWindow);
    h.m.set_status_layout(Some(23), 0);
    h.m.set_status_hits(tabs());
    Table::new(h)
}

#[test]
fn status_bar_click_dispatches_select_window() {
    let mut h = Host::new();
    h.command(Command::NewWindow);
    assert_eq!(h.m.active_idx(), 1);
    h.m.set_status_layout(Some(23), 0);
    h.m.set_status_hits(tabs());
    let mut t = Table::new(h);
    t.send(press(23, 2));
    assert_eq!(t.h.m.active_idx(), 0, "status-bar click did not select window 0");
}

#[test]
fn status_bar_clicks_do_what_they_say() {
    let mut h = Host::new();
    h.m.set_status_layout(Some(23), 0);
    h.m.set_status_hits(vec![
        StatusHit { start: 0, end: 5, action: ClickAction::ToggleSyncPanes },
        StatusHit { start: 5, end: 10, action: ClickAction::Detach },
        StatusHit { start: 10, end: 15, action: ClickAction::NoOp },
    ]);
    let mut t = Table::new(h);
    t.send(press(23, 12));
    t.send(press(23, 40));
    t.send(event(MouseKind::Press, MouseButton::Right, 23, 2));
    assert!(!t.h.m.active_window().sync_input);
    t.send(press(23, 2));
    assert!(t.h.m.active_window().sync_input);
    assert!(!t.h.m.detach_requested);
    t.send(press(23, 7));
    assert!(t.h.m.detach_requested);
}

#[test]
fn alt_drag_reorders_window_to_drop_slot() {
    let mut t = three_tab_manager();
    let ids = t.h.ids();
    t.send(mev(MouseKind::Press, 23, 2, true));
    assert_eq!(t.h.m.dragging_window_idx(), Some(0), "drag started on tab 0");
    t.send(mev(MouseKind::Release, 23, 12, false));
    assert_eq!(t.h.m.dragging_window_idx(), None, "drag cleared on release");
    assert_eq!(t.h.ids(), vec![ids[1], ids[2], ids[0]]);
}

#[test]
fn plain_press_still_selects_no_drag() {
    let mut t = three_tab_manager();
    t.send(mev(MouseKind::Press, 23, 2, false));
    assert_eq!(t.h.m.dragging_window_idx(), None, "no drag without the modifier");
    assert_eq!(t.h.m.active_idx(), 0, "plain click selected tab 0");
}

#[test]
fn alt_drag_release_on_same_tab_is_noop() {
    let mut t = three_tab_manager();
    let ids = t.h.ids();
    t.send(mev(MouseKind::Press, 23, 2, true));
    t.send(mev(MouseKind::Release, 23, 3, false));
    assert_eq!(t.h.ids(), ids);
    assert_eq!(t.h.m.dragging_window_idx(), None);
}

#[test]
fn alt_drag_release_off_status_row_aborts() {
    let mut t = three_tab_manager();
    let ids = t.h.ids();
    t.send(mev(MouseKind::Press, 23, 2, true));
    t.send(mev(MouseKind::Move, 10, 8, false));
    assert_eq!(t.h.m.dragging_window_idx(), Some(0), "still dragging after a move");
    t.send(mev(MouseKind::Release, 5, 8, false));
    assert_eq!(t.h.ids(), ids);
    assert_eq!(t.h.m.dragging_window_idx(), None);
}

#[test]
fn alt_drag_release_right_of_tabs_moves_to_end() {
    let mut t = three_tab_manager();
    let ids = t.h.ids();
    t.send(mev(MouseKind::Press, 23, 7, true));
    t.send(mev(MouseKind::Release, 23, 40, false));
    assert_eq!(t.h.ids(), vec![ids[0], ids[2], ids[1]]);
}

#[test]
fn open_popup_clears_in_flight_tab_drag() {
    let mut t = three_tab_manager();
    t.send(mev(MouseKind::Press, 23, 2, true));
    assert!(t.h.m.dragging_window_idx().is_some(), "premise: tab drag started");
    t.h.popup(None);
    assert!(t.h.m.dragging_window_idx().is_none(), "popup open must clear the frozen tab drag");
}

#[test]
fn open_popup_clears_in_flight_pane_drag() {
    let mut t = Table::new(two_panes());
    t.send(mev(MouseKind::Press, 10, 10, true));
    assert!(t.h.m.pane_drag_roles().is_some(), "premise: pane drag started");
    t.h.popup(None);
    assert!(t.h.m.pane_drag_roles().is_none(), "popup open must clear the frozen pane drag");
}

#[test]
fn open_popup_clears_in_flight_resize_drag() {
    let mut t = Table::new(two_panes());
    t.send(press(5, 39));
    t.h.popup(None);
    t.h.command(Command::ClosePopup);
    assert_eq!(t.send(mev(MouseKind::Move, 5, 44, false)), MouseAct::Nothing);
    assert!(t.h.m.selection().is_none());
}

#[test]
fn popup_swallows_clicks_outside_and_keeps_focus() {
    let mut t = Table::new(two_panes());
    t.h.popup(None);
    assert_eq!(t.send(press(2, 1)), MouseAct::Nothing);
    assert_eq!(t.h.active(), PaneId(1), "popup is modal: no focus change");
    assert!(t.h.m.has_popup(), "popup still open");
}

#[test]
fn popup_swallows_interior_click_when_child_has_no_mouse_mode() {
    let mut t = Table::new(two_panes());
    t.h.popup(None);
    assert_eq!(t.send(press(11, 40)), MouseAct::Nothing);
    assert!(t.h.m.has_popup());
    assert!(t.h.m.selection().is_none(), "no layout selection starts under a popup");
    assert_eq!(t.h.active(), PaneId(1), "no focus change under a popup");
    t.popup_modes.insert(Modes::MOUSE_BTN);
    assert_eq!(
        t.send(press(11, 40)),
        MouseAct::Send(PaneId(2), press(7, 30), MouseEncoding::ButtonEvent)
    );
    assert_eq!(t.send(press(3, 40)), MouseAct::Nothing, "the frame is not the program's");
    assert_eq!(t.send(press(18, 40)), MouseAct::Nothing);
    assert_eq!(t.send(press(11, 70)), MouseAct::Nothing);
}

#[test]
fn prompt_click_while_scrolled_jumps_to_viewport_top() {
    let mut t = Table::new(Host::new());
    t.scroll = 8;
    t.prompt = Some(PromptJump { offset: 7, max: 10 });
    assert_eq!(
        t.send(press(2, 5)),
        MouseAct::ScrollTo(PaneId(0), 7)
    );
    assert!(t.h.m.selection().is_none());
    t.prompt = Some(PromptJump { offset: 12, max: 10 });
    assert_eq!(t.send(press(2, 5)), MouseAct::ScrollTo(PaneId(0), 10), "as far as one can");
}

#[test]
fn non_prompt_click_while_scrolled_leaves_offset_unchanged() {
    let mut t = Table::new(Host::new());
    t.scroll = 8;
    assert_eq!(t.send(press(1, 5)), MouseAct::Nothing);
    assert!(t.h.m.selection().is_some(), "selection started on non-prompt click");
}

#[test]
fn prompt_click_at_live_view_does_not_change_offset() {
    let mut t = Table::new(Host::new());
    t.prompt = Some(PromptJump { offset: 0, max: 0 });
    assert_eq!(t.send(press(1, 5)), MouseAct::Nothing);
    assert!(t.h.m.selection().is_some());
}

#[test]
fn shift_click_on_scrolled_prompt_row_extends_selection_not_jumps() {
    let mut t = Table::new(Host::new());
    t.scroll = 8;
    t.send(press(1, 2));
    assert!(t.h.m.selection().is_some(), "premise: selection seeded");
    t.prompt = Some(PromptJump { offset: 7, max: 10 });
    assert_eq!(t.send(shift_press(2, 5)), MouseAct::Nothing);
    assert_eq!(
        t.h.m.selection(),
        Some(Selection {
            source_pane: PaneId(0),
            anchor_row: 0,
            anchor_col: 1,
            head_row: 1,
            head_col: 4,
        })
    );
}

#[test]
fn app_mouse_mode_passthrough_unaffected_by_prompt_jump() {
    let mut t = Table::new(Host::new());
    t.scroll = 8;
    t.prompt = Some(PromptJump { offset: 7, max: 10 });
    t.modes.insert(Modes::MOUSE_BTN);
    assert!(matches!(t.send(press(2, 5)), MouseAct::Send(PaneId(0), _, _)));
}

#[test]
fn double_click_after_prompt_jump_does_not_panic() {
    let mut t = Table::new(Host::new());
    t.scroll = 8;
    t.prompt = Some(PromptJump { offset: 7, max: 10 });
    assert!(matches!(t.send(press(2, 5)), MouseAct::ScrollTo(_, _)));
    t.scroll = 7;
    t.prompt = None;
    assert_eq!(t.send(press(2, 5)), MouseAct::Nothing);
    assert!(t.h.m.selection().is_some(), "second click: selection started");
}

#[test]
fn a_press_on_a_link_opens_it() {
    let mut t = Table::new(Host::new());
    t.link = Some("https://example.org".to_string());
    assert_eq!(t.send(press(2, 5)), MouseAct::OpenUrl("https://example.org".to_string()));
    assert!(t.h.m.selection().is_none());
}

#[test]
fn links_are_found_on_the_screen() {
    let mut e = plexy_glass::Emulator::new(4, 20);
    e.advance(b"a\x1b]8;;https://example.org\x07link\x1b]8;;\x07 b");
    assert_eq!(link_at(e.screen(), 0, 0), None);
    assert_eq!(link_at(e.screen(), 0, 1).as_deref(), Some("https://example.org"));
    assert_eq!(link_at(e.screen(), 0, 4).as_deref(), Some("https://example.org"));
    assert_eq!(link_at(e.screen(), 0, 5), None);
    assert_eq!(link_at(e.screen(), 9, 1), None);
}

#[test]
fn copy_mode_starts_at_the_cursor() {
    let mut e = plexy_glass::Emulator::new(3, 10);
    e.advance(b"1\r\n2\r\n3\r\n4\r\n5ab");
    e.flush();
    let start = copy_mode_start(e.screen());
    assert_eq!(start.total_lines, 5);
    assert_eq!(start.pane_rows, 3);
    assert_eq!(start.line, 4);
    assert_eq!(start.col, 3);
}

#[test]
fn selections_stay_inside_the_pane() {
    let mut t = Table::new(Host::new());
    t.send(press(6, 6));
    t.send(mev(MouseKind::Move, 21, 78, false));
    let sel = t.h.m.selection().unwrap();
    assert_eq!((sel.head_row, sel.head_col), (20, 77));
    let mut sel = Selection::start(PaneId(0), 1, 1);
    sel.extend(200, 200, Rect { row: 0, col: 0, rows: 5, cols: 6 });
    assert_eq!((sel.head_row, sel.head_col), (4, 5));
    assert!(!sel.is_empty());
    assert!(!sel.is_click());
}

#[test]
fn alt_drag_swaps_panes_and_focuses_source() {
    let mut t = Table::new(two_panes());
    t.send(mev(MouseKind::Press, 10, 10, true));
    assert_eq!(t.h.m.pane_drag_roles(), Some((PaneId(0), None)));
    t.send(mev(MouseKind::Move, 10, 60, false));
    assert_eq!(t.h.m.pane_drag_roles(), Some((PaneId(0), Some(PaneId(1)))));
    t.send(mev(MouseKind::Release, 10, 60, false));
    assert_eq!(t.h.m.pane_drag_roles(), None, "drag cleared on release");
    assert_eq!(t.h.panes(WindowId(0)), vec![PaneId(1), PaneId(0)]);
    assert_eq!(t.h.active(), PaneId(0), "focus follows dragged pane");
}

#[test]
fn plain_press_in_pane_does_not_start_drag() {
    let mut t = Table::new(two_panes());
    t.send(mev(MouseKind::Press, 2, 2, false));
    assert_eq!(t.h.m.pane_drag_roles(), None, "no drag without the modifier");
    assert_eq!(t.h.active(), PaneId(0), "plain click focused pane 0");
}

#[test]
fn alt_drag_release_on_same_pane_is_noop() {
    let mut t = Table::new(two_panes());
    t.send(mev(MouseKind::Press, 10, 60, true));
    t.send(mev(MouseKind::Release, 10, 60, false));
    assert_eq!(t.h.panes(WindowId(0)), vec![PaneId(0), PaneId(1)], "no swap on same pane");
    assert_eq!(t.h.m.pane_drag_roles(), None);
}

#[test]
fn alt_drag_release_off_content_aborts() {
    let mut t = Table::new(two_panes());
    t.send(mev(MouseKind::Press, 2, 2, true));
    t.send(mev(MouseKind::Release, 250, 250, false));
    assert_eq!(t.h.panes(WindowId(0)), vec![PaneId(0), PaneId(1)], "no swap off content");
    assert_eq!(t.h.m.pane_drag_roles(), None);
}

#[test]
fn alt_drag_preempts_child_mouse_mode() {
    let mut t = Table::new(two_panes());
    t.modes.insert(Modes::MOUSE_BTN);
    t.send(mev(MouseKind::Press, 2, 41, true));
    assert_eq!(t.h.m.pane_drag_roles().map(|(s, _)| s), Some(PaneId(1)));
}

#[test]
fn copy_mode_is_left_before_a_new_picture() {
    let pane = PaneId(3);
    assert_eq!(copy_mode_followed(pane, CopyOutcome::Render), (vec![Effect::Wake], None));
    let left = vec![Effect::LeaveCopyMode(pane), Effect::Wake];
    assert_eq!(copy_mode_followed(pane, CopyOutcome::Exit), (left.clone(), None));
    assert_eq!(
        copy_mode_followed(pane, CopyOutcome::Yank("text".to_string())),
        (left, Some("text".to_string()))
    );
}
