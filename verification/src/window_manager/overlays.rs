//! What is shown above the windows and takes all keys: prompts, pickers and notices.
use super::state::{holders_are_unique, slot_is_found, Overlay, WmView, COMMAND_HISTORY_CAP};
use super::types::{PaneId, WindowId};
use super::window::{find_pane, place_of};
use super::WindowManager;
use crate::iterm::{is_space, is_white_space};
use vstd::prelude::*;

verus! {

broadcast use super::window::group_windows;

/// A session, a window or a pane in the tree of all sessions.
#[derive(Debug, PartialEq, Eq)]
pub struct TreeTarget {
    pub session: String,
    pub window: Option<WindowId>,
    pub pane: Option<PaneId>,
}

/// What was chosen in the tree of all sessions.
#[derive(Debug, PartialEq, Eq)]
pub enum TreeAction {
    Switch(TreeTarget),
    Kill(TreeTarget),
    Rename(TreeTarget, String),
}

/// What was chosen in the list of paste buffers.
#[derive(Debug, PartialEq, Eq)]
pub enum BufferAction {
    Paste(String),
    Delete(String),
}

/// What is to be done with a text that a hint stands on.
#[derive(Debug, Clone, Copy, PartialEq, Eq, Structural)]
pub enum HintAction {
    /// It goes to the clipboard.
    Copy,
}

/// A text that was picked by its hint.
#[derive(Debug, PartialEq, Eq)]
pub struct HintPick {
    pub text: String,
    pub action: HintAction,
}

/// What a key did to the contents of the overlay.
#[derive(Debug, PartialEq, Eq)]
pub enum KeyOutcome {
    Nothing,
    Redraw,
    Cancel,
    /// A line was entered, or an entry chosen. A command line comes without white space
    /// around it.
    Commit(String),
    Tree(TreeAction),
    Buffer(BufferAction),
    Hint(HintPick),
}

/// What follows from a key.
#[derive(Debug, PartialEq, Eq)]
pub enum OverlayKeyResult {
    /// Nothing changed.
    Ignored,
    /// The overlay changed.
    Redraw,
    /// A name changed, which is to be stored.
    Committed,
    /// A command line was entered.
    Command(String),
    /// A session was chosen.
    SwitchSession(String),
    Tree(TreeAction),
    Buffer(BufferAction),
    Hint(HintPick),
}

/// Whether a text is empty or nothing but white space.
pub open spec fn is_blank(text: Seq<char>) -> bool {
    forall|i: int| 0 <= i < text.len() ==> is_space(#[trigger] text[i])
}

/// The commands with one more. One that repeats the last is not added, and only the
/// newest are kept.
pub open spec fn remembered(history: Seq<Seq<char>>, text: Seq<char>) -> Seq<Seq<char>> {
    if history.len() > 0 && history.last() == text {
        history
    } else {
        let all = history.push(text);
        if all.len() > COMMAND_HISTORY_CAP {
            all.skip(all.len() - COMMAND_HISTORY_CAP)
        } else {
            all
        }
    }
}

impl WmView {
    /// An overlay opened.
    pub open spec fn opened(self, overlay: Overlay) -> WmView {
        WmView {
            overlay: Some(overlay),
            rename_target: match overlay {
                Overlay::RenamePane => Some(self.window().active),
                _ => None,
            },
            ..self
        }
    }

    /// No overlay.
    pub open spec fn overlay_closed(self) -> WmView {
        WmView { overlay: None, rename_target: None, ..self }
    }

    /// The text that a prompt starts with.
    pub open spec fn prompt_seed(self) -> Seq<char> {
        match self.overlay {
            Some(Overlay::RenameWindow) => self.window().name,
            Some(Overlay::RenamePane) => match self.rename_target {
                Some(p) => match place_of(self.window().panes, p) {
                    Some(k) => match self.window().panes[k].name {
                        Some(name) => name,
                        None => Seq::empty(),
                    },
                    None => Seq::empty(),
                },
                None => Seq::empty(),
            },
            _ => Seq::empty(),
        }
    }

    /// What follows from a line that was entered, or an entry that was chosen. A name
    /// that is empty or nothing but white space changes nothing, nor does a pane that
    /// left the active window.
    pub open spec fn line_committed(self, overlay: Overlay, text: String) -> (
        WmView,
        OverlayKeyResult,
    ) {
        match overlay {
            Overlay::SessionPicker => (
                self.overlay_closed(),
                OverlayKeyResult::SwitchSession(text),
            ),
            Overlay::Command => (
                WmView { history: remembered(self.history, text@), ..self }.overlay_closed(),
                OverlayKeyResult::Command(text),
            ),
            Overlay::RenameWindow => if is_blank(text@) {
                (self.overlay_closed(), OverlayKeyResult::Redraw)
            } else {
                (
                    self.window_renamed(self.here(), text@).overlay_closed(),
                    OverlayKeyResult::Committed,
                )
            },
            Overlay::RenamePane => match self.rename_target {
                Some(p) => if is_blank(text@) || !self.window().holds(p) {
                    (self.overlay_closed(), OverlayKeyResult::Redraw)
                } else {
                    (
                        self.pane_renamed(self.here(), p, text@).overlay_closed(),
                        OverlayKeyResult::Committed,
                    )
                },
                None => (self.overlay_closed(), OverlayKeyResult::Redraw),
            },
            _ => (self.overlay_closed(), OverlayKeyResult::Redraw),
        }
    }

    /// What follows from a key. To switch, to paste or to pick closes the overlay; to
    /// kill, to rename or to delete leaves it open.
    pub open spec fn key_taken(self, outcome: KeyOutcome) -> (WmView, OverlayKeyResult) {
        match self.overlay {
            None => (self, OverlayKeyResult::Ignored),
            Some(overlay) => match outcome {
                KeyOutcome::Nothing => (self, OverlayKeyResult::Ignored),
                KeyOutcome::Redraw => (self, OverlayKeyResult::Redraw),
                KeyOutcome::Cancel => (self.overlay_closed(), OverlayKeyResult::Redraw),
                KeyOutcome::Commit(text) => self.line_committed(overlay, text),
                KeyOutcome::Tree(action) => (
                    if action is Switch {
                        self.overlay_closed()
                    } else {
                        self
                    },
                    OverlayKeyResult::Tree(action),
                ),
                KeyOutcome::Buffer(action) => (
                    if action is Paste {
                        self.overlay_closed()
                    } else {
                        self
                    },
                    OverlayKeyResult::Buffer(action),
                ),
                KeyOutcome::Hint(pick) => (self.overlay_closed(), OverlayKeyResult::Hint(pick)),
            },
        }
    }
}

impl WindowManager {
    fn open(&mut self, overlay: Overlay, target: Option<PaneId>)
        ensures
            final(self)@ == (WmView {
                overlay: Some(overlay),
                rename_target: target,
                ..old(self)@
            }),
    {
        self.overlay = Some(overlay);
        self.rename_target = target;
    }

    /// Opens a prompt for the name of the active window.
    pub fn open_rename_window(&mut self)
        ensures
            final(self)@ == old(self)@.opened(Overlay::RenameWindow),
    {
        self.open(Overlay::RenameWindow, None);
    }

    /// Opens a prompt for the name of the active pane. It stays that of this pane,
    /// whichever is active later.
    pub fn open_rename_pane(&mut self)
        requires
            old(self)@.live(),
        ensures
            final(self)@ == old(self)@.opened(Overlay::RenamePane),
    {
        let pane: PaneId = self.active_window().active;
        self.open(Overlay::RenamePane, Some(pane));
    }

    /// Opens the help.
    pub fn open_help(&mut self)
        ensures
            final(self)@ == old(self)@.opened(Overlay::Help),
    {
        self.open(Overlay::Help, None);
    }

    /// Opens the greeting.
    pub fn open_welcome(&mut self)
        ensures
            final(self)@ == old(self)@.opened(Overlay::Welcome),
    {
        self.open(Overlay::Welcome, None);
    }

    /// Opens the command prompt, and returns the commands that can be recalled.
    pub fn open_command_prompt(&mut self) -> (history: Vec<String>)
        ensures
            final(self)@ == old(self)@.opened(Overlay::Command),
            crate::hyperlinks::texts(history@) == old(self)@.history,
    {
        self.open(Overlay::Command, None);
        self.command_history()
    }

    /// The commands that can be recalled, the newest last.
    pub fn command_history(&self) -> (history: Vec<String>)
        ensures
            crate::hyperlinks::texts(history@) == self@.history,
    {
        let mut out: Vec<String> = Vec::new();
        let mut i: usize = 0;
        while i < self.history.len()
            invariant
                i <= self.history.len(),
                self@.history == crate::hyperlinks::texts(self.history@),
                out@.len() == i,
                forall|k: int| 0 <= k < i ==> (#[trigger] out@[k])@ == self.history@[k]@,
            decreases self.history.len() - i,
        {
            out.push(self.history[i].clone());
            i += 1;
        }
        assert(crate::hyperlinks::texts(out@) =~= self@.history);
        out
    }

    /// Opens the list of sessions.
    pub fn open_session_picker(&mut self)
        ensures
            final(self)@ == old(self)@.opened(Overlay::SessionPicker),
    {
        self.open(Overlay::SessionPicker, None);
    }

    /// Opens the tree of all sessions.
    pub fn open_tree(&mut self)
        ensures
            final(self)@ == old(self)@.opened(Overlay::Tree),
    {
        self.open(Overlay::Tree, None);
    }

    /// Opens the list of paste buffers.
    pub fn open_buffer_picker(&mut self)
        ensures
            final(self)@ == old(self)@.opened(Overlay::BufferPicker),
    {
        self.open(Overlay::BufferPicker, None);
    }

    /// Opens the hints on the texts of the active pane.
    pub fn open_hints(&mut self)
        ensures
            final(self)@ == old(self)@.opened(Overlay::Hints),
    {
        self.open(Overlay::Hints, None);
    }

    fn close_overlay(&mut self)
        ensures
            final(self)@ == old(self)@.overlay_closed(),
    {
        self.overlay = None;
        self.rename_target = None;
    }

    /// The text that a prompt starts with: the name that is to be changed.
    pub fn overlay_seed(&self) -> (r: String)
        requires
            self@.live(),
        ensures
            r@ == self@.prompt_seed(),
    {
        let w = self.active_window();
        let empty: String = String::new();
        match self.overlay {
            Some(Overlay::RenameWindow) => w.name.clone(),
            Some(Overlay::RenamePane) => match self.rename_target {
                Some(p) => match find_pane(&w.panes, p) {
                    Some(k) => match &w.panes[k].name {
                        Some(name) => name.clone(),
                        None => empty,
                    },
                    None => empty,
                },
                None => empty,
            },
            _ => empty,
        }
    }

    fn remember(&mut self, text: &String)
        requires
            old(self)@.wf(),
        ensures
            final(self)@ == (WmView {
                history: remembered(old(self)@.history, text@),
                ..old(self)@
            }),
            final(self)@.wf(),
    {
        let ghost before = self@;
        let n: usize = self.history.len();
        if n > 0 && crate::text::same_text(self.history[n - 1].as_str(), text.as_str()) {
            return;
        }
        self.history.push(text.clone());
        assert(self@.history =~= before.history.push(text@));
        if self.history.len() > COMMAND_HISTORY_CAP {
            let oldest: String = self.history.remove(0);
            assert(self@.history =~= before.history.push(text@).skip(1));
        }
    }

    fn commit(&mut self, overlay: Overlay, text: String) -> (r: OverlayKeyResult)
        requires
            old(self)@.live(),
        ensures
            (final(self)@, r) == old(self)@.line_committed(overlay, text),
            final(self)@.live(),
    {
        match overlay {
            Overlay::SessionPicker => {
                self.close_overlay();
                OverlayKeyResult::SwitchSession(text)
            },
            Overlay::Command => {
                self.remember(&text);
                self.close_overlay();
                OverlayKeyResult::Command(text)
            },
            Overlay::RenameWindow => {
                if blank(&text) {
                    self.close_overlay();
                    OverlayKeyResult::Redraw
                } else {
                    self.rename_active_window(text);
                    self.close_overlay();
                    OverlayKeyResult::Committed
                }
            },
            Overlay::RenamePane => {
                let target: Option<PaneId> = match self.rename_target {
                    Some(p) => if self.active_window().holds(p) && !blank(&text) {
                        Some(p)
                    } else {
                        None
                    },
                    None => None,
                };
                match target {
                    Some(p) => {
                        proof {
                            let s = self@;
                            slot_is_found(s.windows, s.active);
                            holders_are_unique(
                                s.windows,
                                s.next_pane,
                                s.next_window,
                                s.here(),
                                p,
                            );
                        }
                        let renamed: bool = self.rename_pane_by_id(p, text);
                        self.close_overlay();
                        OverlayKeyResult::Committed
                    },
                    None => {
                        self.close_overlay();
                        OverlayKeyResult::Redraw
                    },
                }
            },
            _ => {
                self.close_overlay();
                OverlayKeyResult::Redraw
            },
        }
    }

    /// Takes in what a key did to the contents of the overlay, and says what follows.
    pub fn handle_overlay_key(&mut self, outcome: KeyOutcome) -> (r: OverlayKeyResult)
        requires
            old(self)@.live(),
        ensures
            (final(self)@, r) == old(self)@.key_taken(outcome),
            final(self)@.live(),
    {
        let overlay: Overlay = match self.overlay {
            Some(overlay) => overlay,
            None => {
                return OverlayKeyResult::Ignored;
            },
        };
        match outcome {
            KeyOutcome::Nothing => OverlayKeyResult::Ignored,
            KeyOutcome::Redraw => OverlayKeyResult::Redraw,
            KeyOutcome::Cancel => {
                self.close_overlay();
                OverlayKeyResult::Redraw
            },
            KeyOutcome::Commit(text) => self.commit(overlay, text),
            KeyOutcome::Tree(action) => {
                match &action {
                    TreeAction::Switch(_) => self.close_overlay(),
                    _ => {},
                }
                OverlayKeyResult::Tree(action)
            },
            KeyOutcome::Buffer(action) => {
                match &action {
                    BufferAction::Paste(_) => self.close_overlay(),
                    _ => {},
                }
                OverlayKeyResult::Buffer(action)
            },
            KeyOutcome::Hint(pick) => {
                self.close_overlay();
                OverlayKeyResult::Hint(pick)
            },
        }
    }
}

fn blank(text: &String) -> (r: bool)
    ensures
        r == is_blank(text@),
{
    for c in it: text.as_str().chars()
        invariant
            it.seq() == text@,
            forall|k: int| 0 <= k < it.index() ==> is_space(#[trigger] text@[k]),
    {
        if !is_white_space(c) {
            assert(!is_space(text@[it.index() as int]));
            return false;
        }
    }
    true
}

} // verus!
