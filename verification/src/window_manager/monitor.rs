//! Windows that are not shown are watched: their output, their bell, the commands that
//! end in them, and their silence.
use super::messages::{name_window, named_window, push_signed, signed_number};
use super::state::{apart, holder_of, slot_of, WmView};
use super::types::{PaneId, Severity, WindowId};
use super::window::{windows_view, Monitor, WindowView};
use super::WindowManager;
use vstd::prelude::*;
use vstd::string::StringExecFns;

verus! {

broadcast use super::window::group_windows;

/// A command that ended.
#[derive(Debug, Clone, Copy, PartialEq, Eq, Structural)]
pub struct CompletionEvent {
    pub exit: Option<i32>,
    pub duration_ms: Option<u32>,
}

/// What a program asked to be told to the user.
#[derive(Debug)]
pub struct Notice {
    pub title: String,
    pub body: String,
}

/// What happened in a window since it was last asked.
#[derive(Debug)]
pub struct WindowDrain {
    /// Something was written.
    pub acted: bool,
    /// The bell rang.
    pub belled: bool,
    pub completion: Option<CompletionEvent>,
    pub notices: Vec<Notice>,
}

/// A command that ended, and where.
#[derive(Debug)]
pub struct PendingNotification {
    pub window_index: usize,
    pub window_name: String,
    pub is_active_window: bool,
    pub event: CompletionEvent,
}

/// What a program asked to be told to the user, and where.
#[derive(Debug)]
pub struct InbandNotification {
    pub title: String,
    pub body: String,
    pub window_index: usize,
    pub is_active_window: bool,
}

/// What came of asking all windows.
#[derive(Debug)]
pub struct MonitorDrain {
    /// A message was shown.
    pub alert_edge: bool,
    pub notifications: Vec<PendingNotification>,
    pub in_band: Vec<InbandNotification>,
}

/// The contents of a [`PendingNotification`].
pub ghost struct PendingView {
    pub window_index: int,
    pub window_name: Seq<char>,
    pub is_active_window: bool,
    pub event: CompletionEvent,
}

/// The contents of an [`InbandNotification`].
pub ghost struct InbandView {
    pub title: Seq<char>,
    pub body: Seq<char>,
    pub window_index: int,
    pub is_active_window: bool,
}

pub open spec fn pending_view(v: Seq<PendingNotification>) -> Seq<PendingView> {
    Seq::new(
        v.len(),
        |i: int|
            PendingView {
                window_index: v[i].window_index as int,
                window_name: v[i].window_name@,
                is_active_window: v[i].is_active_window,
                event: v[i].event,
            },
    )
}

pub open spec fn inband_view(v: Seq<InbandNotification>) -> Seq<InbandView> {
    Seq::new(
        v.len(),
        |i: int|
            InbandView {
                title: v[i].title@,
                body: v[i].body@,
                window_index: v[i].window_index as int,
                is_active_window: v[i].is_active_window,
            },
    )
}

/// The number of commands that a pane was seen to complete. It starts at the number
/// that the pane has then, so that its past is not told again.
#[derive(Debug, Clone, Copy, PartialEq, Eq, Structural)]
pub struct Baseline {
    pub seen: u64,
}

impl Baseline {
    /// Takes in the number of commands that the pane completed so far, and says whether
    /// there are new ones. A terminal that was reset counts anew, without notice.
    pub fn advance(&mut self, completed: u64) -> (r: bool)
        ensures
            r == (completed > old(self).seen),
            final(self).seen == completed,
    {
        let more: bool = completed > self.seen;
        self.seen = completed;
        more
    }
}

impl Monitor {
    /// A command ended that is to be told.
    pub open spec fn done_edge(self, completion: Option<CompletionEvent>) -> bool {
        self.command && self.done_flag is None && completion is Some
    }

    /// What is known of a window after it was asked.
    pub open spec fn drained(
        self,
        active: bool,
        acted: bool,
        belled: bool,
        completion: Option<CompletionEvent>,
        now: u64,
    ) -> Monitor {
        let m = self.heard(acted, now);
        if active {
            m.seen()
        } else {
            Monitor {
                activity_flag: m.activity_flag || (acted && m.activity),
                bell_flag: m.bell_flag || (belled && m.bell),
                done_flag: if m.done_edge(completion) {
                    Some(completion->0.exit matches Some(code) ==> code == 0)
                } else {
                    m.done_flag
                },
                ..m
            }
        }
    }

    fn drain(&mut self, active: bool, d: &WindowDrain, now: u64)
        ensures
            *final(self) == old(self).drained(active, d.acted, d.belled, d.completion, now),
    {
        if d.acted {
            self.last_output = now;
            self.silence_reported = false;
        }
        if active {
            self.activity_flag = false;
            self.bell_flag = false;
            self.done_flag = None;
            self.silence_flag = false;
        } else {
            if d.acted && self.activity {
                self.activity_flag = true;
            }
            if d.belled && self.bell {
                self.bell_flag = true;
            }
            if self.command && self.done_flag.is_none() {
                match d.completion {
                    Some(e) => {
                        self.done_flag = Some(
                            match e.exit {
                                Some(code) => code == 0,
                                None => true,
                            },
                        );
                    },
                    None => {},
                }
            }
        }
    }
}

/// The text on a command that ended.
pub open spec fn done_text(i: int, name: Seq<char>, exit: Option<i32>) -> Seq<char> {
    let text = named_window("done in window "@, i, name);
    match exit {
        Some(code) => text + ": exit "@ + signed_number(code as int),
        None => text,
    }
}

/// The message on what happened in a window that is not shown. Each thing is told when
/// it is new; a command that ended goes before the bell, and the bell before output.
pub open spec fn alert(w: WindowView, i: int, d: WindowDrain) -> Option<Seq<char>> {
    let m = w.monitor;
    if m.done_edge(d.completion) {
        Some(done_text(i, w.shown_name, d.completion->0.exit))
    } else if d.belled && m.bell && !m.bell_flag {
        Some(named_window("bell in window "@, i, w.shown_name))
    } else if d.acted && m.activity && !m.activity_flag {
        Some(named_window("activity in window "@, i, w.shown_name))
    } else {
        None
    }
}

/// The message on what happened in the first `n` windows: that of the last of them that
/// has one.
pub open spec fn alerts(
    ws: Seq<WindowView>,
    ds: Seq<WindowDrain>,
    here: int,
    n: int,
) -> Option<Seq<char>>
    decreases n,
{
    if n <= 0 {
        None
    } else {
        match if n - 1 == here {
            None
        } else {
            alert(ws[n - 1], n - 1, ds[n - 1])
        } {
            Some(text) => Some(text),
            None => alerts(ws, ds, here, n - 1),
        }
    }
}

/// The commands that ended in the first `n` windows, watched or not.
pub open spec fn completions(
    ws: Seq<WindowView>,
    ds: Seq<WindowDrain>,
    here: int,
    n: int,
) -> Seq<PendingView>
    decreases n,
{
    if n <= 0 {
        Seq::empty()
    } else {
        let rest = completions(ws, ds, here, n - 1);
        match ds[n - 1].completion {
            Some(event) => rest.push(
                PendingView {
                    window_index: n - 1,
                    window_name: ws[n - 1].shown_name,
                    is_active_window: n - 1 == here,
                    event,
                },
            ),
            None => rest,
        }
    }
}

/// The notices of a window.
pub open spec fn window_notices(d: WindowDrain, i: int, active: bool) -> Seq<InbandView> {
    Seq::new(
        d.notices@.len(),
        |k: int|
            InbandView {
                title: d.notices@[k].title@,
                body: d.notices@[k].body@,
                window_index: i,
                is_active_window: active,
            },
    )
}

/// The notices of the first `n` windows, in order.
pub open spec fn all_notices(ds: Seq<WindowDrain>, here: int, n: int) -> Seq<InbandView>
    decreases n,
{
    if n <= 0 {
        Seq::empty()
    } else {
        all_notices(ds, here, n - 1) + window_notices(ds[n - 1], n - 1, n - 1 == here)
    }
}

/// The record of a window with other things known of what is watched.
pub open spec fn remonitored(w: WindowView, monitor: Monitor) -> WindowView {
    WindowView { monitor, ..w }
}

impl WmView {
    /// All windows asked.
    pub open spec fn drained(self, ds: Seq<WindowDrain>, now: u64) -> WmView {
        let s = WmView {
            windows: Seq::new(
                self.windows.len(),
                |i: int|
                    remonitored(
                        self.windows[i],
                        self.windows[i].monitor.drained(
                            i == self.here(),
                            ds[i].acted,
                            ds[i].belled,
                            ds[i].completion,
                            now,
                        ),
                    ),
            ),
            ..self
        };
        match alerts(self.windows, ds, self.here(), self.windows.len() as int) {
            Some(text) => s.told(text, Severity::Info, now),
            None => s,
        }
    }

    /// The windows that fell silent, of which the active one is none.
    pub open spec fn silenced(self, now: u64) -> WmView {
        let s = WmView {
            windows: Seq::new(
                self.windows.len(),
                |i: int|
                    remonitored(
                        self.windows[i],
                        if i != self.here() && self.windows[i].monitor.falls_silent(now) {
                            Monitor {
                                silence_flag: true,
                                silence_reported: true,
                                ..self.windows[i].monitor
                            }
                        } else {
                            self.windows[i].monitor
                        },
                    ),
            ),
            ..self
        };
        match silences(self.windows, self.here(), self.windows.len() as int, now) {
            Some(text) => s.told(text, Severity::Info, now),
            None => s,
        }
    }
}

/// The message on a silence in the first `n` windows: that of the last that fell
/// silent.
pub open spec fn silences(ws: Seq<WindowView>, here: int, n: int, now: u64) -> Option<Seq<char>>
    decreases n,
{
    if n <= 0 {
        None
    } else if n - 1 != here && ws[n - 1].monitor.falls_silent(now) {
        Some(named_window("silence in window "@, n - 1, ws[n - 1].shown_name))
    } else {
        silences(ws, here, n - 1, now)
    }
}

/// Whether two lists of windows differ in what is watched only.
pub open spec fn same_but_monitors(a: Seq<WindowView>, b: Seq<WindowView>) -> bool {
    &&& a.len() == b.len()
    &&& forall|i: int|
        0 <= i < a.len() ==> (#[trigger] b[i]) == remonitored(a[i], b[i].monitor)
}

proof fn monitors_keep_places(a: Seq<WindowView>, b: Seq<WindowView>, id: WindowId, p: PaneId)
    requires
        same_but_monitors(a, b),
    ensures
        slot_of(a, id) == slot_of(b, id),
        holder_of(a, p) == holder_of(b, p),
    decreases a.len(),
{
    if a.len() > 0 {
        assert forall|i: int| 0 <= i < a.drop_last().len() implies (#[trigger] b.drop_last()[i])
            == remonitored(a.drop_last()[i], b.drop_last()[i].monitor) by {
            assert(b[i] == remonitored(a[i], b[i].monitor));
        }
        monitors_keep_places(a.drop_last(), b.drop_last(), id, p);
        assert(b[a.len() - 1] == remonitored(a[a.len() - 1], b[a.len() - 1].monitor));
    }
}

/// What is known of what is watched does not matter to the soundness of the state.
proof fn monitoring_keeps_wf(s: WmView, ws: Seq<WindowView>)
    requires
        s.wf(),
        same_but_monitors(s.windows, ws),
    ensures
        (WmView { windows: ws, ..s }).wf(),
        (WmView { windows: ws, ..s }).here() == s.here(),
{
    assert forall|id: WindowId| #[trigger] slot_of(ws, id) == slot_of(s.windows, id) by {
        monitors_keep_places(s.windows, ws, id, PaneId(0));
    }
    assert forall|p: PaneId| #[trigger] holder_of(ws, p) == holder_of(s.windows, p) by {
        monitors_keep_places(s.windows, ws, s.active, p);
    }
    assert(apart(ws, s.next_pane, s.next_window)) by {
        assert forall|i: int| 0 <= i < ws.len() implies (#[trigger] ws[i]).wf() && ws[i].id.0
            < s.next_window by {
            assert(s.windows[i].wf());
        }
        assert forall|i: int, j: int, a: int, b: int|
            0 <= i < ws.len() && 0 <= j < ws.len() && i != j && 0 <= a < ws[i].panes.len() && 0
                <= b < ws[j].panes.len() implies (#[trigger] ws[i].panes[a]).id != (
        #[trigger] ws[j].panes[b]).id by {
            assert(s.windows[i].panes[a].id != s.windows[j].panes[b].id);
        }
        assert forall|i: int, a: int| 0 <= i < ws.len() && 0 <= a < ws[i].panes.len() implies (
        #[trigger] ws[i].panes[a]).id.0 < s.next_pane by {
            assert(s.windows[i].panes[a].id.0 < s.next_pane);
        }
        assert forall|i: int, j: int| 0 <= i < j < ws.len() implies (#[trigger] ws[i]).id != (
        #[trigger] ws[j]).id by {
            assert(s.windows[i].id != s.windows[j].id);
        }
    }
}

fn done_message(i: usize, name: &str, exit: Option<i32>) -> (r: String)
    requires
        i < usize::MAX,
    ensures
        r@ == done_text(i as int, name@, exit),
{
    let mut out: String = name_window("done in window ", i, name);
    match exit {
        Some(code) => {
            out.append(": exit ");
            push_signed(&mut out, code);
        },
        None => {},
    }
    out
}

/// The message on what happened in a window that is not shown.
fn alert_message(w: &super::window::Window, i: usize, d: &WindowDrain) -> (r: Option<String>)
    requires
        i < usize::MAX,
    ensures
        super::window::opt_text(r) == alert(w@, i as int, *d),
{
    if w.monitor.command && w.monitor.done_flag.is_none() {
        match d.completion {
            Some(e) => {
                return Some(done_message(i, w.shown_name.as_str(), e.exit));
            },
            None => {},
        }
    }
    if d.belled && w.monitor.bell && !w.monitor.bell_flag {
        Some(name_window("bell in window ", i, w.shown_name.as_str()))
    } else if d.acted && w.monitor.activity && !w.monitor.activity_flag {
        Some(name_window("activity in window ", i, w.shown_name.as_str()))
    } else {
        None
    }
}

fn push_notices(out: &mut Vec<InbandNotification>, d: &WindowDrain, i: usize, active: bool)
    ensures
        inband_view(final(out)@) == inband_view(old(out)@) + window_notices(
            *d,
            i as int,
            active,
        ),
{
    let ghost before = inband_view(out@);
    let mut k: usize = 0;
    assert(inband_view(out@) =~= before + window_notices(*d, i as int, active).take(0));
    while k < d.notices.len()
        invariant
            k <= d.notices.len(),
            inband_view(out@) == before + window_notices(*d, i as int, active).take(k as int),
        decreases d.notices.len() - k,
    {
        let ghost prev = inband_view(out@);
        out.push(
            InbandNotification {
                title: d.notices[k].title.clone(),
                body: d.notices[k].body.clone(),
                window_index: i,
                is_active_window: active,
            },
        );
        proof {
            let all = window_notices(*d, i as int, active);
            assert(inband_view(out@) =~= prev.push(all[k as int]));
            assert(before + all.take(k + 1) =~= (before + all.take(k as int)).push(
                all[k as int],
            ));
        }
        k += 1;
    }
    assert(window_notices(*d, i as int, active).take(k as int) =~= window_notices(
        *d,
        i as int,
        active,
    ));
}

impl WindowManager {
    /// Takes in what happened in each window. What is known of the active window is
    /// cleared: the user sees it. In another window that is watched, what is new is
    /// shown on the status line. The commands that ended and the notices of all windows
    /// are returned.
    pub fn update_monitor_flags(&mut self, drains: &Vec<WindowDrain>, now: u64) -> (r:
        MonitorDrain)
        requires
            old(self)@.live(),
            drains@.len() == old(self)@.windows.len(),
        ensures
            final(self)@ == old(self)@.drained(drains@, now),
            r.alert_edge == (alerts(
                old(self)@.windows,
                drains@,
                old(self)@.here(),
                drains@.len() as int,
            ) is Some),
            pending_view(r.notifications@) == completions(
                old(self)@.windows,
                drains@,
                old(self)@.here(),
                drains@.len() as int,
            ),
            inband_view(r.in_band@) == all_notices(
                drains@,
                old(self)@.here(),
                drains@.len() as int,
            ),
            final(self)@.live(),
    {
        let ghost before = self@;
        let ghost ws = before.windows;
        let here: usize = self.active_idx();
        let mut message: Option<String> = None;
        let mut notifications: Vec<PendingNotification> = Vec::new();
        let mut in_band: Vec<InbandNotification> = Vec::new();
        let n: usize = self.windows.len();
        let mut i: usize = 0;
        assert(pending_view(notifications@) =~= Seq::empty());
        assert(inband_view(in_band@) =~= Seq::empty());
        while i < n
            invariant
                i <= n,
                n == ws.len(),
                n == drains.len(),
                n == self.windows@.len(),
                ws == before.windows,
                here == before.here(),
                here < n,
                self@ == (WmView { windows: self@.windows, ..before }),
                forall|k: int|
                    0 <= k < n ==> (#[trigger] self.windows@[k])@ == if k < i {
                        remonitored(
                            ws[k],
                            ws[k].monitor.drained(
                                k == here,
                                drains@[k].acted,
                                drains@[k].belled,
                                drains@[k].completion,
                                now,
                            ),
                        )
                    } else {
                        ws[k]
                    },
                super::window::opt_text(message) == alerts(ws, drains@, here as int, i as int),
                pending_view(notifications@) == completions(
                    ws,
                    drains@,
                    here as int,
                    i as int,
                ),
                inband_view(in_band@) == all_notices(drains@, here as int, i as int),
            decreases n - i,
        {
            let active: bool = i == here;
            let ghost prev = pending_view(notifications@);
            assert(self.windows@[i as int]@ == ws[i as int]);
            match drains[i].completion {
                Some(event) => {
                    notifications.push(
                        PendingNotification {
                            window_index: i,
                            window_name: self.windows[i].shown_name.clone(),
                            is_active_window: active,
                            event,
                        },
                    );
                    proof {
                        assert(pending_view(notifications@) =~= prev.push(
                            PendingView {
                                window_index: i as int,
                                window_name: ws[i as int].shown_name,
                                is_active_window: i as int == here as int,
                                event,
                            },
                        ));
                    }
                },
                None => {},
            }
            push_notices(&mut in_band, &drains[i], i, active);
            if !active {
                match alert_message(&self.windows[i], i, &drains[i]) {
                    Some(text) => {
                        message = Some(text);
                    },
                    None => {},
                }
            }
            self.windows[i].monitor.drain(active, &drains[i], now);
            i += 1;
        }
        let ghost after = Seq::new(
            ws.len(),
            |k: int|
                remonitored(
                    ws[k],
                    ws[k].monitor.drained(
                        k == before.here(),
                        drains@[k].acted,
                        drains@[k].belled,
                        drains@[k].completion,
                        now,
                    ),
                ),
        );
        proof {
            assert(self@.windows =~= after);
            monitoring_keeps_wf(before, after);
        }
        let alert_edge: bool = message.is_some();
        match message {
            Some(text) => self.set_status_message(text, Severity::Info, now),
            None => {},
        }
        MonitorDrain { alert_edge, notifications, in_band }
    }

    /// Whether silence is watched in any window.
    pub fn any_silence_monitored(&self) -> (r: bool)
        ensures
            r == exists|i: int|
                0 <= i < self@.windows.len() && (#[trigger] self@.windows[i]).monitor.silence
                    is Some,
    {
        let mut i: usize = 0;
        while i < self.windows.len()
            invariant
                i <= self.windows.len(),
                self@.windows == windows_view(self.windows@),
                forall|k: int|
                    0 <= k < i ==> (#[trigger] self@.windows[k]).monitor.silence is None,
            decreases self.windows.len() - i,
        {
            if self.windows[i].monitor.silence.is_some() {
                assert(self@.windows[i as int].monitor.silence is Some);
                return true;
            }
            i += 1;
        }
        false
    }

    /// Reports the windows that were silent for long enough. Each silence is reported
    /// once; the active window is left out.
    pub fn check_silence_alerts(&mut self, now: u64) -> (r: bool)
        requires
            old(self)@.live(),
        ensures
            final(self)@ == old(self)@.silenced(now),
            r == (silences(
                old(self)@.windows,
                old(self)@.here(),
                old(self)@.windows.len() as int,
                now,
            ) is Some),
            final(self)@.live(),
    {
        let ghost before = self@;
        let ghost ws = before.windows;
        let here: usize = self.active_idx();
        let mut message: Option<String> = None;
        let n: usize = self.windows.len();
        let mut i: usize = 0;
        while i < n
            invariant
                i <= n,
                n == ws.len(),
                n == self.windows@.len(),
                ws == before.windows,
                here == before.here(),
                self@ == (WmView { windows: self@.windows, ..before }),
                forall|k: int|
                    0 <= k < n ==> (#[trigger] self.windows@[k])@ == if k < i {
                        remonitored(
                            ws[k],
                            if k != here && ws[k].monitor.falls_silent(now) {
                                Monitor {
                                    silence_flag: true,
                                    silence_reported: true,
                                    ..ws[k].monitor
                                }
                            } else {
                                ws[k].monitor
                            },
                        )
                    } else {
                        ws[k]
                    },
                super::window::opt_text(message) == silences(ws, here as int, i as int, now),
            decreases n - i,
        {
            let m: Monitor = self.windows[i].monitor;
            assert(self.windows@[i as int]@ == ws[i as int]);
            let silent: bool = !m.silence_reported && match m.silence {
                Some(ms) => now >= m.last_output && now - m.last_output >= ms,
                None => false,
            };
            if i != here && silent {
                message = Some(
                    name_window("silence in window ", i, self.windows[i].shown_name.as_str()),
                );
                self.windows[i].monitor.silence_flag = true;
                self.windows[i].monitor.silence_reported = true;
            }
            i += 1;
        }
        let ghost after = Seq::new(
            ws.len(),
            |k: int|
                remonitored(
                    ws[k],
                    if k != before.here() && ws[k].monitor.falls_silent(now) {
                        Monitor { silence_flag: true, silence_reported: true, ..ws[k].monitor }
                    } else {
                        ws[k].monitor
                    },
                ),
        );
        proof {
            assert(self@.windows =~= after);
            monitoring_keeps_wf(before, after);
        }
        let edge: bool = message.is_some();
        match message {
            Some(text) => self.set_status_message(text, Severity::Info, now),
            None => {},
        }
        edge
    }

    /// Sets the time after which the silence of the window at a place is reported, in
    /// milliseconds.
    pub fn set_window_silence(&mut self, idx: usize, ms: Option<u64>)
        requires
            old(self)@.wf(),
        ensures
            final(self)@ == (if idx < old(self)@.windows.len() {
                old(self)@.with(
                    idx as int,
                    remonitored(
                        old(self)@.windows[idx as int],
                        old(self)@.windows[idx as int].monitor.with_silence(ms),
                    ),
                )
            } else {
                old(self)@
            }),
            final(self)@.wf(),
    {
        if idx < self.windows.len() {
            let ghost before = self@;
            self.windows[idx].monitor.silence = ms;
            if ms.is_none() {
                self.windows[idx].monitor.silence_flag = false;
                self.windows[idx].monitor.silence_reported = false;
            }
            proof {
                let w = remonitored(
                    before.windows[idx as int],
                    before.windows[idx as int].monitor.with_silence(ms),
                );
                super::structure::touching_keeps_wf(before, idx as int, w);
                assert(self@.windows =~= before.windows.update(idx as int, w));
            }
        }
    }
}

} // verus!
