//! Which programs are started, and windows built from a template.
use super::messages::{number, push_number};
use super::state::WmView;
use super::types::{Effect, PaneId, SplitDir, WindowId};
use super::window::opt_text;
use super::WindowManager;
use crate::hyperlinks::texts;
use vstd::prelude::*;
use vstd::string::StringExecFns;

verus! {

/// A variable of the environment of a program.
#[derive(Debug)]
pub struct EnvVar {
    pub name: String,
    pub value: String,
}

/// A program to be started.
#[derive(Debug)]
pub struct SpawnSpec {
    pub program: String,
    pub args: Vec<String>,
    pub env: Vec<EnvVar>,
    pub cwd: Option<String>,
}

/// The contents of a [`SpawnSpec`].
pub ghost struct SpawnView {
    pub program: Seq<char>,
    pub args: Seq<Seq<char>>,
    pub env: Seq<(Seq<char>, Seq<char>)>,
    pub cwd: Option<Seq<char>>,
}

/// The contents of a list of variables.
pub open spec fn env_view(env: Seq<EnvVar>) -> Seq<(Seq<char>, Seq<char>)> {
    Seq::new(env.len(), |i: int| (env[i].name@, env[i].value@))
}

impl View for SpawnSpec {
    type V = SpawnView;

    open spec fn view(&self) -> SpawnView {
        SpawnView {
            program: self.program@,
            args: texts(self.args@),
            env: env_view(self.env@),
            cwd: opt_text(self.cwd),
        }
    }
}

impl SpawnView {
    /// The shell of a session: never the program that the session began with, but with
    /// its environment.
    pub open spec fn shell(self, program: Seq<char>) -> SpawnView {
        SpawnView { program, args: Seq::empty(), env: self.env, cwd: None }
    }

    /// The same program elsewhere.
    pub open spec fn at(self, cwd: Option<Seq<char>>) -> SpawnView {
        SpawnView { cwd, ..self }
    }

    /// A command run by the shell, or the shell itself.
    pub open spec fn running(self, command: Option<Seq<char>>) -> SpawnView {
        SpawnView {
            args: match command {
                Some(text) => seq!["-c"@, text],
                None => Seq::empty(),
            },
            ..self
        }
    }
}

fn clone_env(env: &Vec<EnvVar>) -> (r: Vec<EnvVar>)
    ensures
        env_view(r@) == env_view(env@),
{
    let mut out: Vec<EnvVar> = Vec::new();
    let mut i: usize = 0;
    while i < env.len()
        invariant
            i <= env.len(),
            out@.len() == i,
            forall|k: int|
                0 <= k < i ==> (#[trigger] out@[k]).name@ == env@[k].name@ && out@[k].value@
                    == env@[k].value@,
        decreases env.len() - i,
    {
        out.push(EnvVar { name: env[i].name.clone(), value: env[i].value.clone() });
        i += 1;
    }
    assert(env_view(out@) =~= env_view(env@));
    out
}

/// The shell of a session.
pub(crate) fn shell_of(first: &SpawnSpec, program: String) -> (r: SpawnSpec)
    ensures
        r@ == first@.shell(program@),
{
    let args: Vec<String> = Vec::new();
    assert(texts(args@) =~= Seq::empty());
    SpawnSpec { program, args, env: clone_env(&first.env), cwd: None }
}

/// Why a window could not be split.
#[derive(Debug, PartialEq, Eq)]
pub enum SplitError {
    /// There is no window at the place.
    WindowMissing(usize),
    /// The window has no such pane.
    OutOfRange(u32),
}

impl SplitError {
    pub open spec fn text(self) -> Seq<char> {
        match self {
            SplitError::WindowMissing(i) => "window "@ + number(i as nat) + " missing"@,
            SplitError::OutOfRange(i) => "dfs idx "@ + number(i as nat) + " out of range"@,
        }
    }

    /// What is said of the error.
    pub fn message(&self) -> (r: String)
        ensures
            r@ == self.text(),
    {
        match self {
            SplitError::WindowMissing(i) => {
                let mut out: String = String::from_str("window ");
                push_number(&mut out, *i as u64);
                out.append(" missing");
                out
            },
            SplitError::OutOfRange(i) => {
                let mut out: String = String::from_str("dfs idx ");
                push_number(&mut out, *i as u64);
                out.append(" out of range");
                out
            },
        }
    }
}

impl WmView {
    /// What splitting a given pane of a window asks for.
    pub open spec fn split_asked(
        self,
        i: int,
        leaves: Seq<PaneId>,
        k: u32,
        dir: SplitDir,
    ) -> Result<Effect, SplitError> {
        if i >= self.windows.len() {
            Err(SplitError::WindowMissing(i as usize))
        } else if k >= leaves.len() {
            Err(SplitError::OutOfRange(k))
        } else {
            Ok(
                Effect::SplitAt(
                    self.windows[i].id,
                    leaves[k as int],
                    dir,
                    PaneId(self.next_pane),
                ),
            )
        }
    }
}

impl WindowManager {
    /// The program of new panes, windows and popups.
    pub fn default_program(&self) -> (r: String)
        ensures
            r@ == self@.shell.program,
    {
        self.shell.program.clone()
    }

    fn shell_at(&self, cwd: Option<String>) -> (r: SpawnSpec)
        ensures
            r@ == self@.shell.running(None).at(opt_text(cwd)),
    {
        let args: Vec<String> = Vec::new();
        assert(texts(args@) =~= Seq::empty());
        SpawnSpec {
            program: self.shell.program.clone(),
            args,
            env: clone_env(&self.shell.env),
            cwd,
        }
    }

    /// What runs in a new pane of the active window: a shell at the home of the
    /// window.
    pub fn split_spec(&self) -> (r: SpawnSpec)
        requires
            self@.live(),
        ensures
            r@ == self@.shell.running(None).at(self@.window().home_cwd),
    {
        let cwd: Option<String> = self.split_cwd();
        self.shell_at(cwd)
    }

    /// What runs in a new window: a shell where the session is.
    pub fn window_spec(&self) -> (r: SpawnSpec)
        ensures
            r@ == self@.shell.running(None).at(self@.session_cwd),
    {
        let cwd: Option<String> = self.session_cwd();
        self.shell_at(cwd)
    }

    /// What runs in a popup: a command or a shell, where the active pane is now, or
    /// else at the home of its window.
    pub fn popup_spec(&self, command: &Option<String>, live: Option<String>) -> (r: SpawnSpec)
        requires
            self@.live(),
        ensures
            r@ == self@.shell.running(opt_text(*command)).at(
                match opt_text(live) {
                    Some(s) => Some(s),
                    None => self@.window().home_cwd,
                },
            ),
    {
        let cwd: Option<String> = self.popup_cwd(live);
        let mut spec: SpawnSpec = self.shell_at(cwd);
        match command {
            Some(text) => {
                assert(texts(spec.args@).len() == 0);
                spec.args.push(String::from_str("-c"));
                spec.args.push(text.clone());
                assert(texts(spec.args@) =~= seq!["-c"@, text@]);
            },
            None => {},
        }
        spec
    }

    /// Asks for a new window with a program of its own. The window that is active then
    /// is not remembered.
    pub fn new_window_with_spec(&mut self) -> (effect: Effect)
        requires
            old(self)@.wf(),
            old(self)@.has_numbers(),
        ensures
            effect == Effect::SpawnWindow(
                WindowId(old(self)@.next_window),
                PaneId(old(self)@.next_pane),
            ),
            final(self)@ == old(self)@.window_numbered(),
            final(self)@.wf(),
    {
        let (id, pane): (WindowId, PaneId) = self.alloc_window_ids();
        Effect::SpawnWindow(id, pane)
    }

    /// Asks for a program in a popup.
    pub fn open_popup(&mut self) -> (effect: Effect)
        requires
            old(self)@.wf(),
            old(self)@.has_pane_number(),
        ensures
            effect == Effect::SpawnPopup(PaneId(old(self)@.next_pane)),
            final(self)@ == old(self)@.pane_numbered(),
            final(self)@.wf(),
    {
        Effect::SpawnPopup(self.alloc_pane_id())
    }

    /// Asks for a split of one of the panes of a window, which are given in the order
    /// of the layout. A number is given out also if that fails.
    pub fn split_window_at_dfs(
        &mut self,
        window_idx: usize,
        leaves: &Vec<PaneId>,
        target_dfs_idx: u32,
        dir: SplitDir,
    ) -> (r: Result<Effect, SplitError>)
        requires
            old(self)@.wf(),
            old(self)@.has_pane_number(),
        ensures
            r == old(self)@.split_asked(window_idx as int, leaves@, target_dfs_idx, dir),
            final(self)@ == old(self)@.pane_numbered(),
            final(self)@.wf(),
    {
        let pane: PaneId = self.alloc_pane_id();
        if window_idx >= self.windows.len() {
            return Err(SplitError::WindowMissing(window_idx));
        }
        if target_dfs_idx as u64 >= leaves.len() as u64 {
            return Err(SplitError::OutOfRange(target_dfs_idx));
        }
        let id: WindowId = self.windows[window_idx].id;
        Ok(Effect::SplitAt(id, leaves[target_dfs_idx as usize], dir, pane))
    }
}

} // verus!
