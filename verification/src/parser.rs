//! The parser: turns the bytes of a program into operations on a screen.
pub mod laws;

use crate::vt::{advance_parser, new_parser, split_clusters, Action, ActionView};
use vstd::prelude::*;
use vstd::utf8::encode_utf8;

verus! {

/// An operation on a screen.
pub ghost enum Op {
    Put(Seq<char>),
    Control(u8),
    Csi(Seq<Seq<u16>>, Seq<u8>, char),
    Osc(Seq<Seq<u8>>),
    Esc(Seq<u8>, u8),
    Dcs(Seq<u8>, u8, Seq<Seq<u16>>, Seq<u8>),
    Graphics(Seq<u8>),
}

/// What the parser drives. The screen is one; others can take its place.
pub trait ScreenOps: Sized {
    /// Whether operations may be applied. They may at any time, unless the
    /// implementation says otherwise.
    open spec fn ready(&self) -> bool {
        true
    }

    /// Whether `op` leads from one state to the other. Nothing is said of that,
    /// unless the implementation does.
    open spec fn step(before: Self, op: Op, after: Self) -> bool {
        true
    }

    /// One grapheme cluster of text.
    fn put_grapheme(&mut self, cluster: &str)
        requires
            old(self).ready(),
        ensures
            final(self).ready(),
            Self::step(*old(self), Op::Put(cluster@), *final(self)),
    ;

    /// A control character.
    fn execute_c0(&mut self, byte: u8)
        requires
            old(self).ready(),
        ensures
            final(self).ready(),
            Self::step(*old(self), Op::Control(byte), *final(self)),
    ;

    /// A control sequence.
    fn handle_csi(&mut self, params: &[Vec<u16>], intermediates: &[u8], action: char)
        requires
            old(self).ready(),
        ensures
            final(self).ready(),
            Self::step(
                *old(self),
                Op::Csi(crate::screen::sgr::groups(params@), intermediates@, action),
                *final(self),
            ),
    ;

    /// An operating system command.
    fn handle_osc(&mut self, params: &[Vec<u8>])
        requires
            old(self).ready(),
        ensures
            final(self).ready(),
            Self::step(
                *old(self),
                Op::Osc(crate::screen::byte_strings(params@)),
                *final(self),
            ),
    ;

    /// An escape sequence.
    fn handle_esc(&mut self, intermediates: &[u8], byte: u8)
        requires
            old(self).ready(),
        ensures
            final(self).ready(),
            Self::step(*old(self), Op::Esc(intermediates@, byte), *final(self)),
    ;

    /// A complete device control string.
    fn handle_dcs(
        &mut self,
        intermediates: &[u8],
        action: u8,
        params: &[Vec<u16>],
        payload: &[u8],
    )
        requires
            old(self).ready(),
        ensures
            final(self).ready(),
            Self::step(
                *old(self),
                Op::Dcs(
                    intermediates@,
                    action,
                    crate::screen::sgr::groups(params@),
                    payload@,
                ),
                *final(self),
            ),
    ;

    /// A complete graphics command, framed as an application command.
    fn handle_graphics(&mut self, framed: &[u8])
        requires
            old(self).ready(),
        ensures
            final(self).ready(),
            Self::step(*old(self), Op::Graphics(framed@), *final(self)),
    ;
}

/// Whether the operations lead from one state to the other, one after the other.
pub open spec fn led<S: ScreenOps>(before: S, ops: Seq<Op>, after: S) -> bool
    decreases ops.len(),
{
    if ops.len() == 0 {
        before == after
    } else {
        exists|mid: S|
            led(before, ops.drop_last(), mid) && #[trigger] S::step(mid, ops.last(), after)
    }
}

proof fn led_by_one<S: ScreenOps>(before: S, ops: Seq<Op>, mid: S, op: Op, after: S)
    requires
        led(before, ops, mid),
        S::step(mid, op, after),
    ensures
        led(before, ops.push(op), after),
{
    let longer = ops.push(op);
    assert(longer.drop_last() =~= ops);
    assert(longer.last() == op);
    assert(led(before, longer.drop_last(), mid) && S::step(mid, longer.last(), after));
}

/// Operations that follow others lead on from where those led.
pub proof fn operations_compose<S: ScreenOps>(
    before: S,
    ops: Seq<Op>,
    mid: S,
    more: Seq<Op>,
    after: S,
)
    requires
        led(before, ops, mid),
        led(mid, more, after),
    ensures
        led(before, ops + more, after),
    decreases more.len(),
{
    if more.len() == 0 {
        assert(ops + more =~= ops);
    } else {
        let last = choose|last: S|
            led(mid, more.drop_last(), last) && #[trigger] S::step(last, more.last(), after);
        operations_compose(before, ops, mid, more.drop_last(), last);
        led_by_one(before, ops + more.drop_last(), last, more.last(), after);
        assert((ops + more.drop_last()).push(more.last()) =~= ops + more);
    }
}

proof fn led_by_none<S: ScreenOps>(s: S)
    ensures
        led(s, Seq::empty(), s),
{
}

/// Where the scan for application commands stands.
#[derive(Debug, Clone, Copy, PartialEq, Eq, Structural)]
pub enum ScanState {
    Ground,
    /// After an escape character.
    Esc,
    /// In an application command.
    Apc,
    /// In an application command, after an escape character.
    ApcEsc,
    /// In an operating system command.
    Osc,
}

/// The size to which an application command may grow. The rest is dropped.
pub const APC_CAP: usize = 16_777_216;

/// The size to which an operating system command may grow. The rest is dropped.
pub const OSC_CAP: usize = 4_194_304;

/// The size to which a device control string may grow. The rest is dropped.
pub const DCS_CAP: usize = 4_194_304;

/// The size in bytes to which text may grow that could be a single cluster.
pub const PENDING_CAP: usize = 4_096;

/// A part of the input: bytes for the parser of escape sequences, or a graphics
/// command.
pub enum Seg {
    Run(Vec<u8>),
    Graphics(Vec<u8>),
}

/// The contents of a part of the input.
pub ghost enum SegView {
    Run(Seq<u8>),
    Graphics(Seq<u8>),
}

impl View for Seg {
    type V = SegView;

    open spec fn view(&self) -> SegView {
        match self {
            Seg::Run(bytes) => SegView::Run(bytes@),
            Seg::Graphics(framed) => SegView::Graphics(framed@),
        }
    }
}

/// The contents of a list of parts.
pub open spec fn segs_view(v: Seq<Seg>) -> Seq<SegView> {
    Seq::new(v.len(), |i: int| v[i]@)
}

/// The scan: its state, the application command so far, and the size of the
/// operating system command so far; the parts that are complete, and the run that is
/// being collected.
#[verifier::ext_equal]
pub ghost struct Scan {
    pub state: ScanState,
    pub apc: Seq<u8>,
    pub osc_len: usize,
    pub segs: Seq<SegView>,
    pub run: Seq<u8>,
}

/// The application command with one more byte, as far as it may grow.
pub open spec fn grown(apc: Seq<u8>, b: u8) -> Seq<u8> {
    if apc.len() < APC_CAP {
        apc.push(b)
    } else {
        apc
    }
}

/// A graphics command framed as an application command.
pub open spec fn framed(apc: Seq<u8>) -> Seq<u8> {
    seq![0x1bu8, 0x5fu8] + apc + seq![0x1bu8, 0x5cu8]
}

impl Scan {
    /// The run put to the parts, unless it is empty.
    pub open spec fn flushed(self) -> Scan {
        if self.run.len() > 0 {
            Scan { segs: self.segs.push(SegView::Run(self.run)), run: Seq::empty(), ..self }
        } else {
            self
        }
    }

    /// The application command is complete. Only graphics commands are kept.
    pub open spec fn apc_done(self) -> Scan {
        let s = self.flushed();
        Scan {
            state: ScanState::Ground,
            segs: if self.apc.len() > 0 && self.apc[0] == 0x47 {
                s.segs.push(SegView::Graphics(framed(self.apc)))
            } else {
                s.segs
            },
            apc: Seq::empty(),
            ..s
        }
    }

    /// The scan after one more byte.
    pub open spec fn scanned(self, b: u8) -> Scan {
        match self.state {
            ScanState::Ground => if b == 0x1b {
                Scan { state: ScanState::Esc, ..self }
            } else if b == 0x9d {
                Scan { state: ScanState::Osc, osc_len: 0, run: self.run.push(b), ..self }
            } else {
                Scan { run: self.run.push(b), ..self }
            },
            ScanState::Esc => if b == 0x5f {
                Scan { state: ScanState::Apc, apc: Seq::empty(), ..self }
            } else if b == 0x5d {
                Scan {
                    state: ScanState::Osc,
                    osc_len: 0,
                    run: self.run.push(0x1b).push(0x5d),
                    ..self
                }
            } else if b == 0x1b {
                Scan { run: self.run.push(0x1b), ..self }
            } else {
                Scan { state: ScanState::Ground, run: self.run.push(0x1b).push(b), ..self }
            },
            ScanState::Osc => if b == 0x1b {
                Scan { state: ScanState::Esc, ..self }
            } else if b == 0x07 || b == 0x18 || b == 0x1a {
                Scan { state: ScanState::Ground, run: self.run.push(b), ..self }
            } else if self.osc_len < OSC_CAP {
                Scan { run: self.run.push(b), osc_len: (self.osc_len + 1) as usize, ..self }
            } else {
                self
            },
            ScanState::Apc => if b == 0x9c {
                self.apc_done()
            } else if b == 0x1b {
                Scan { state: ScanState::ApcEsc, ..self }
            } else {
                Scan { apc: grown(self.apc, b), ..self }
            },
            ScanState::ApcEsc => if b == 0x5c {
                self.apc_done()
            } else if b == 0x1b {
                Scan { apc: grown(self.apc, 0x1b), ..self }
            } else {
                Scan {
                    state: ScanState::Apc,
                    apc: grown(grown(self.apc, 0x1b), b),
                    ..self
                }
            },
        }
    }

    /// The scan after more bytes.
    pub open spec fn scanned_all(self, bytes: Seq<u8>) -> Scan
        decreases bytes.len(),
    {
        if bytes.len() == 0 {
            self
        } else {
            self.scanned_all(bytes.drop_last()).scanned(bytes.last())
        }
    }
}

/// The state of a parser.
#[verifier::ext_equal]
pub ghost struct ParserView {
    /// What the parser of escape sequences was given.
    pub fed: Seq<Seq<u8>>,
    /// Text whose last cluster may still grow.
    pub pending: Seq<char>,
    pub dcs_intermediates: Seq<u8>,
    pub dcs_action: u8,
    pub dcs_params: Seq<Seq<u16>>,
    pub dcs_payload: Seq<u8>,
    pub in_dcs: bool,
    pub scan_state: ScanState,
    pub apc: Seq<u8>,
    pub osc_len: usize,
}

/// The operations that print a list of clusters.
pub open spec fn puts(clusters: Seq<Seq<char>>) -> Seq<Op> {
    Seq::new(clusters.len(), |i: int| Op::Put(clusters[i]))
}

impl ParserView {
    /// A parser that saw nothing yet.
    pub open spec fn start() -> ParserView {
        ParserView {
            fed: Seq::empty(),
            pending: Seq::empty(),
            dcs_intermediates: Seq::empty(),
            dcs_action: 0,
            dcs_params: Seq::empty(),
            dcs_payload: Seq::empty(),
            in_dcs: false,
            scan_state: ScanState::Ground,
            apc: Seq::empty(),
            osc_len: 0,
        }
    }

    /// All text printed.
    pub open spec fn flush(self) -> (ParserView, Seq<Op>) {
        if self.pending.len() == 0 {
            (self, Seq::empty())
        } else {
            (
                ParserView { pending: Seq::empty(), ..self },
                puts(crate::vt::clusters_of(self.pending)),
            )
        }
    }

    /// The complete clusters printed. The last one may still grow, so it stays,
    /// unless it grew too large.
    pub open spec fn flush_complete(self) -> (ParserView, Seq<Op>) {
        let clusters = crate::vt::clusters_of(self.pending);
        if self.pending.len() == 0 {
            (self, Seq::empty())
        } else if encode_utf8(self.pending).len() > PENDING_CAP {
            self.flush()
        } else if clusters.len() > 1 {
            (
                ParserView { pending: clusters.last(), ..self },
                puts(clusters.drop_last()),
            )
        } else {
            (self, Seq::empty())
        }
    }

    /// Pending text printed, and then an operation.
    pub open spec fn flush_then(self, op: Op) -> (ParserView, Seq<Op>) {
        let (next, ops) = self.flush();
        (next, ops.push(op))
    }

    /// What follows from an action of the parser of escape sequences.
    pub open spec fn act(self, a: ActionView) -> (ParserView, Seq<Op>) {
        match a {
            ActionView::Print(c) => ParserView {
                pending: self.pending.push(c),
                ..self
            }.flush_complete(),
            ActionView::Execute(b) => self.flush_then(Op::Control(b)),
            ActionView::Hook(p, i, c) => {
                let (next, ops) = self.flush();
                (
                    ParserView {
                        dcs_intermediates: i,
                        dcs_action: c as u8,
                        dcs_params: p,
                        dcs_payload: Seq::empty(),
                        in_dcs: true,
                        ..next
                    },
                    ops,
                )
            },
            ActionView::Put(b) => if self.in_dcs && self.dcs_payload.len() < DCS_CAP {
                (ParserView { dcs_payload: self.dcs_payload.push(b), ..self }, Seq::empty())
            } else {
                (self, Seq::empty())
            },
            ActionView::Unhook => if self.in_dcs {
                (
                    ParserView { in_dcs: false, dcs_payload: Seq::empty(), ..self },
                    seq![
                        Op::Dcs(
                            self.dcs_intermediates,
                            self.dcs_action,
                            self.dcs_params,
                            self.dcs_payload,
                        ),
                    ],
                )
            } else {
                (self, Seq::empty())
            },
            ActionView::Osc(p) => self.flush_then(Op::Osc(p)),
            ActionView::Csi(p, i, c) => self.flush_then(Op::Csi(p, i, c)),
            ActionView::Esc(i, b) => self.flush_then(Op::Esc(i, b)),
        }
    }

    /// What follows from a list of actions.
    pub open spec fn act_all(self, actions: Seq<ActionView>) -> (ParserView, Seq<Op>)
        decreases actions.len(),
    {
        if actions.len() == 0 {
            (self, Seq::empty())
        } else {
            let (mid, ops) = self.act_all(actions.drop_last());
            let (next, more) = mid.act(actions.last());
            (next, ops + more)
        }
    }

    /// What follows from a part of the input. Pending text is printed before a graphics
    /// command, so that an image is placed where the text before it ends.
    pub open spec fn take_seg(self, seg: SegView) -> (ParserView, Seq<Op>) {
        match seg {
            SegView::Run(bytes) => ParserView {
                fed: self.fed.push(bytes),
                ..self
            }.act_all(crate::vt::actions_of(self.fed, bytes)),
            SegView::Graphics(cmd) => self.flush_then(Op::Graphics(cmd)),
        }
    }

    /// What follows from a list of parts.
    pub open spec fn take_segs(self, segs: Seq<SegView>) -> (ParserView, Seq<Op>)
        decreases segs.len(),
    {
        if segs.len() == 0 {
            (self, Seq::empty())
        } else {
            let (mid, ops) = self.take_segs(segs.drop_last());
            let (next, more) = mid.take_seg(segs.last());
            (next, ops + more)
        }
    }

    /// The input divided into parts.
    pub open spec fn divided(self, bytes: Seq<u8>) -> Scan {
        (Scan {
            state: self.scan_state,
            apc: self.apc,
            osc_len: self.osc_len,
            segs: Seq::empty(),
            run: Seq::empty(),
        }).scanned_all(bytes).flushed()
    }

    /// The state after the input was divided.
    pub open spec fn after_scan(self, bytes: Seq<u8>) -> ParserView {
        let s = self.divided(bytes);
        ParserView { scan_state: s.state, apc: s.apc, osc_len: s.osc_len, ..self }
    }

    /// The parser and the operations after more input.
    pub open spec fn advanced(self, bytes: Seq<u8>) -> (ParserView, Seq<Op>) {
        let (mid, ops) = self.after_scan(bytes).take_segs(self.divided(bytes).segs);
        let (next, more) = mid.flush_complete();
        (next, ops + more)
    }
}

/// The text that operations print.
pub open spec fn put_text(ops: Seq<Op>) -> Seq<char>
    decreases ops.len(),
{
    if ops.len() == 0 {
        Seq::empty()
    } else {
        put_text(ops.drop_last()) + (match ops.last() {
            Op::Put(text) => text,
            _ => Seq::empty(),
        })
    }
}

/// The text in an action.
pub open spec fn action_text(a: ActionView) -> Seq<char> {
    match a {
        ActionView::Print(c) => seq![c],
        _ => Seq::empty(),
    }
}

/// The text in a list of actions.
pub open spec fn shown_text(actions: Seq<ActionView>) -> Seq<char>
    decreases actions.len(),
{
    if actions.len() == 0 {
        Seq::empty()
    } else {
        shown_text(actions.drop_last()) + action_text(actions.last())
    }
}

impl ParserView {
    /// The text in a part of the input.
    pub open spec fn seg_text(self, seg: SegView) -> Seq<char> {
        match seg {
            SegView::Run(bytes) => shown_text(crate::vt::actions_of(self.fed, bytes)),
            SegView::Graphics(_) => Seq::empty(),
        }
    }

    /// The text in a list of parts.
    pub open spec fn segs_text(self, segs: Seq<SegView>) -> Seq<char>
        decreases segs.len(),
    {
        if segs.len() == 0 {
            Seq::empty()
        } else {
            self.segs_text(segs.drop_last()) + self.take_segs(segs.drop_last()).0.seg_text(
                segs.last(),
            )
        }
    }

    /// The text in the input.
    pub open spec fn input_text(self, bytes: Seq<u8>) -> Seq<char> {
        self.after_scan(bytes).segs_text(self.divided(bytes).segs)
    }

    /// Nothing that is collected passes its bound.
    pub open spec fn bounded(self) -> bool {
        &&& encode_utf8(self.pending).len() <= PENDING_CAP
        &&& self.dcs_payload.len() <= DCS_CAP
        &&& self.apc.len() <= APC_CAP
        &&& self.osc_len <= OSC_CAP
    }
}

proof fn text_of_appended(a: Seq<Op>, b: Seq<Op>)
    ensures
        put_text(a + b) == put_text(a) + put_text(b),
    decreases b.len(),
{
    if b.len() == 0 {
        assert(a + b =~= a);
        assert(put_text(a) + put_text(b) =~= put_text(a));
    } else {
        text_of_appended(a, b.drop_last());
        assert((a + b).drop_last() =~= a + b.drop_last());
        assert((a + b).last() == b.last());
        assert(put_text(a + b) =~= put_text(a) + put_text(b));
    }
}

proof fn text_of_other(ops: Seq<Op>, op: Op)
    requires
        !(op is Put),
    ensures
        put_text(ops.push(op)) == put_text(ops),
{
    assert(ops.push(op).drop_last() =~= ops);
    assert(put_text(ops.push(op)) =~= put_text(ops));
}

proof fn text_of_puts(clusters: Seq<Seq<char>>)
    ensures
        put_text(puts(clusters)) == crate::vt::joined(clusters),
    decreases clusters.len(),
{
    if clusters.len() > 0 {
        text_of_puts(clusters.drop_last());
        assert(puts(clusters).drop_last() =~= puts(clusters.drop_last()));
    }
}

proof fn encoding_splits(a: Seq<char>, b: Seq<char>)
    ensures
        encode_utf8(a + b) == encode_utf8(a) + encode_utf8(b),
    decreases a.len(),
{
    reveal_with_fuel(encode_utf8, 2);
    if a.len() == 0 {
        assert(a + b =~= b);
        assert(encode_utf8(a) + encode_utf8(b) =~= encode_utf8(b));
    } else {
        encoding_splits(a.drop_first(), b);
        assert((a + b).drop_first() =~= a.drop_first() + b);
        assert((a + b)[0] == a[0]);
        assert(encode_utf8(a + b) =~= encode_utf8(a) + encode_utf8(b));
    }
}

proof fn scanning_is_bounded(s: Scan, bytes: Seq<u8>)
    requires
        s.apc.len() <= APC_CAP,
        s.osc_len <= OSC_CAP,
    ensures
        s.scanned_all(bytes).apc.len() <= APC_CAP,
        s.scanned_all(bytes).osc_len <= OSC_CAP,
    decreases bytes.len(),
{
    if bytes.len() > 0 {
        scanning_is_bounded(s, bytes.drop_last());
    }
}

proof fn acting_is_bounded(p: ParserView, actions: Seq<ActionView>)
    requires
        p.dcs_payload.len() <= DCS_CAP,
    ensures
        p.act_all(actions).0.dcs_payload.len() <= DCS_CAP,
        p.act_all(actions).0.apc == p.apc,
        p.act_all(actions).0.osc_len == p.osc_len,
    decreases actions.len(),
{
    if actions.len() > 0 {
        acting_is_bounded(p, actions.drop_last());
    }
}

proof fn taking_is_bounded(p: ParserView, segs: Seq<SegView>)
    requires
        p.dcs_payload.len() <= DCS_CAP,
    ensures
        p.take_segs(segs).0.dcs_payload.len() <= DCS_CAP,
        p.take_segs(segs).0.apc == p.apc,
        p.take_segs(segs).0.osc_len == p.osc_len,
    decreases segs.len(),
{
    if segs.len() > 0 {
        taking_is_bounded(p, segs.drop_last());
        let mid = p.take_segs(segs.drop_last()).0;
        match segs.last() {
            SegView::Run(bytes) => acting_is_bounded(
                ParserView { fed: mid.fed.push(bytes), ..mid },
                crate::vt::actions_of(mid.fed, bytes),
            ),
            SegView::Graphics(_) => {},
        }
    }
}

/// The parser of a terminal.
pub struct StreamParser {
    vte: vte::Parser,
    pending: String,
    dcs_intermediates: Vec<u8>,
    dcs_action: u8,
    dcs_params: Vec<Vec<u16>>,
    dcs_payload: Vec<u8>,
    in_dcs: bool,
    scan_state: ScanState,
    apc: Vec<u8>,
    osc_len: usize,
}

impl View for StreamParser {
    type V = ParserView;

    closed spec fn view(&self) -> ParserView {
        ParserView {
            fed: crate::vt::pieces_fed(self.vte),
            pending: self.pending@,
            dcs_intermediates: self.dcs_intermediates@,
            dcs_action: self.dcs_action,
            dcs_params: crate::screen::sgr::groups(self.dcs_params@),
            dcs_payload: self.dcs_payload@,
            in_dcs: self.in_dcs,
            scan_state: self.scan_state,
            apc: self.apc@,
            osc_len: self.osc_len,
        }
    }
}

fn push_capped(buf: &mut Vec<u8>, b: u8)
    ensures
        final(buf)@ == grown(old(buf)@, b),
{
    if buf.len() < APC_CAP {
        buf.push(b);
    }
}

fn flush_run(segs: &mut Vec<Seg>, run: &mut Vec<u8>)
    ensures
        old(run)@.len() > 0 ==> segs_view(final(segs)@) == segs_view(old(segs)@).push(
            SegView::Run(old(run)@),
        ),
        old(run)@.len() == 0 ==> segs_view(final(segs)@) == segs_view(old(segs)@),
        final(run)@.len() == 0,
{
    if run.len() > 0 {
        let ghost before = segs_view(segs@);
        let mut taken: Vec<u8> = Vec::new();
        std::mem::swap(&mut taken, run);
        segs.push(Seg::Run(taken));
        assert(segs_view(segs@) =~= before.push(SegView::Run(taken@)));
    }
}

fn push_graphics(segs: &mut Vec<Seg>, buf: &mut Vec<u8>)
    ensures
        segs_view(final(segs)@) == (if old(buf)@.len() > 0 && old(buf)@[0] == 0x47 {
            segs_view(old(segs)@).push(SegView::Graphics(framed(old(buf)@)))
        } else {
            segs_view(old(segs)@)
        }),
        final(buf)@.len() == 0,
{
    if buf.len() > 0 && buf[0] == 0x47 {
        let ghost before = segs_view(segs@);
        let mut cmd: Vec<u8> = Vec::new();
        cmd.push(0x1b);
        cmd.push(0x5f);
        crate::reply::push_bytes(&mut cmd, buf.as_slice());
        cmd.push(0x1b);
        cmd.push(0x5c);
        assert(cmd@ =~= framed(buf@));
        segs.push(Seg::Graphics(cmd));
        assert(segs_view(segs@) =~= before.push(SegView::Graphics(cmd@)));
    }
    *buf = Vec::new();
}

impl StreamParser {
    /// A new parser.
    pub fn new() -> (p: StreamParser)
        ensures
            p@ == ParserView::start(),
            p@.bounded(),
    {
        let p = StreamParser {
            vte: new_parser(),
            pending: String::new(),
            dcs_intermediates: Vec::new(),
            dcs_action: 0,
            dcs_params: Vec::new(),
            dcs_payload: Vec::new(),
            in_dcs: false,
            scan_state: ScanState::Ground,
            apc: Vec::new(),
            osc_len: 0,
        };
        assert(p@.dcs_params =~= Seq::empty());
        p
    }

    /// The text whose last cluster may still grow.
    pub fn pending(&self) -> (text: &str)
        ensures
            text@ == self@.pending,
    {
        self.pending.as_str()
    }

    /// Divides the input into graphics commands and runs for the parser of escape
    /// sequences, which knows no application commands and does not bound operating
    /// system commands.
    pub fn prescan(&mut self, bytes: &[u8]) -> (segs: Vec<Seg>)
        ensures
            segs_view(segs@) == old(self)@.divided(bytes@).segs,
            final(self)@ == old(self)@.after_scan(bytes@),
    {
        let ghost start = Scan {
            state: self.scan_state,
            apc: self.apc@,
            osc_len: self.osc_len,
            segs: Seq::empty(),
            run: Seq::empty(),
        };
        let ghost before = self@;
        let mut segs: Vec<Seg> = Vec::new();
        let mut run: Vec<u8> = Vec::new();
        let mut i: usize = 0;
        assert(segs_view(segs@) =~= Seq::empty());
        assert(bytes@.take(0).len() == 0);
        while i < bytes.len()
            invariant
                i <= bytes.len(),
                self@ == (ParserView {
                    scan_state: self.scan_state,
                    apc: self.apc@,
                    osc_len: self.osc_len,
                    ..before
                }),
                (Scan {
                    state: self.scan_state,
                    apc: self.apc@,
                    osc_len: self.osc_len,
                    segs: segs_view(segs@),
                    run: run@,
                }) == start.scanned_all(bytes@.take(i as int)),
            decreases bytes.len() - i,
        {
            let b: u8 = bytes[i];
            let ghost now = start.scanned_all(bytes@.take(i as int));
            assert(bytes@.take(i + 1).drop_last() =~= bytes@.take(i as int));
            match self.scan_state {
                ScanState::Ground => {
                    if b == 0x1b {
                        self.scan_state = ScanState::Esc;
                    } else {
                        run.push(b);
                        if b == 0x9d {
                            self.scan_state = ScanState::Osc;
                            self.osc_len = 0;
                        }
                    }
                },
                ScanState::Esc => {
                    if b == 0x5f {
                        self.scan_state = ScanState::Apc;
                        self.apc = Vec::new();
                    } else if b == 0x5d {
                        run.push(0x1b);
                        run.push(0x5d);
                        self.scan_state = ScanState::Osc;
                        self.osc_len = 0;
                    } else {
                        run.push(0x1b);
                        if b != 0x1b {
                            run.push(b);
                            self.scan_state = ScanState::Ground;
                        }
                    }
                },
                ScanState::Osc => {
                    if b == 0x1b {
                        self.scan_state = ScanState::Esc;
                    } else if b == 0x07 || b == 0x18 || b == 0x1a {
                        run.push(b);
                        self.scan_state = ScanState::Ground;
                    } else if self.osc_len < OSC_CAP {
                        run.push(b);
                        self.osc_len = self.osc_len + 1;
                    }
                },
                ScanState::Apc => {
                    if b == 0x9c {
                        flush_run(&mut segs, &mut run);
                        push_graphics(&mut segs, &mut self.apc);
                        self.scan_state = ScanState::Ground;
                    } else if b == 0x1b {
                        self.scan_state = ScanState::ApcEsc;
                    } else {
                        push_capped(&mut self.apc, b);
                    }
                },
                ScanState::ApcEsc => {
                    if b == 0x5c {
                        flush_run(&mut segs, &mut run);
                        push_graphics(&mut segs, &mut self.apc);
                        self.scan_state = ScanState::Ground;
                    } else {
                        push_capped(&mut self.apc, 0x1b);
                        if b != 0x1b {
                            push_capped(&mut self.apc, b);
                            self.scan_state = ScanState::Apc;
                        }
                    }
                },
            }
            i += 1;
            assert((Scan {
                state: self.scan_state,
                apc: self.apc@,
                osc_len: self.osc_len,
                segs: segs_view(segs@),
                run: run@,
            }) =~= now.scanned(b));
        }
        assert(bytes@.take(i as int) =~= bytes@);
        flush_run(&mut segs, &mut run);
        segs
    }

    fn put_all<S: ScreenOps>(clusters: &Vec<String>, n: usize, screen: &mut S)
        requires
            n <= clusters@.len(),
            old(screen).ready(),
        ensures
            final(screen).ready(),
            led(
                *old(screen),
                puts(crate::hyperlinks::texts(clusters@).take(n as int)),
                *final(screen),
            ),
    {
        let ghost texts = crate::hyperlinks::texts(clusters@);
        let mut i: usize = 0;
        assert(puts(texts.take(0)) =~= Seq::empty());
        while i < n
            invariant
                i <= n <= clusters@.len(),
                texts == crate::hyperlinks::texts(clusters@),
                screen.ready(),
                led(*old(screen), puts(texts.take(i as int)), *screen),
            decreases n - i,
        {
            let ghost mid = *screen;
            screen.put_grapheme(clusters[i].as_str());
            proof {
                led_by_one(
                    *old(screen),
                    puts(texts.take(i as int)),
                    mid,
                    Op::Put(texts[i as int]),
                    *screen,
                );
                assert(puts(texts.take(i as int)).push(Op::Put(texts[i as int])) =~= puts(
                    texts.take(i + 1),
                ));
            }
            i += 1;
        }
    }

    /// Prints all pending text, also the cluster that could still grow.
    pub fn flush<S: ScreenOps>(&mut self, screen: &mut S)
        requires
            old(screen).ready(),
        ensures
            final(self)@ == old(self)@.flush().0,
            final(screen).ready(),
            led(*old(screen), old(self)@.flush().1, *final(screen)),
            put_text(old(self)@.flush().1) == old(self)@.pending,
            final(self)@.pending.len() == 0,
    {
        if self.pending.as_str().is_empty() {
            assert(old(self)@.pending =~= Seq::empty());
            return;
        }
        let clusters: Vec<String> = split_clusters(self.pending.as_str());
        self.pending = String::new();
        proof {
            text_of_puts(crate::hyperlinks::texts(clusters@));
        }
        assert(crate::hyperlinks::texts(clusters@).take(clusters@.len() as int)
            =~= crate::hyperlinks::texts(clusters@));
        StreamParser::put_all(&clusters, clusters.len(), screen);
    }

    fn flush_complete_clusters<S: ScreenOps>(&mut self, screen: &mut S)
        requires
            old(screen).ready(),
        ensures
            final(self)@ == old(self)@.flush_complete().0,
            final(screen).ready(),
            led(*old(screen), old(self)@.flush_complete().1, *final(screen)),
            put_text(old(self)@.flush_complete().1) + final(self)@.pending == old(self)@.pending,
            encode_utf8(final(self)@.pending).len() <= PENDING_CAP,
    {
        if self.pending.as_str().is_empty() {
            assert(encode_utf8(self.pending@).len() == 0);
            assert(put_text(Seq::empty()) + self.pending@ =~= self.pending@);
            return;
        }
        if self.pending.as_str().as_bytes().len() > PENDING_CAP {
            self.flush(screen);
            assert(encode_utf8(self.pending@).len() == 0);
            assert(put_text(old(self)@.flush().1) + self@.pending =~= old(self)@.pending);
            return;
        }
        let clusters: Vec<String> = split_clusters(self.pending.as_str());
        proof {
            let texts = crate::hyperlinks::texts(clusters@);
            text_of_puts(texts.drop_last());
            if texts.len() > 0 {
                encoding_splits(crate::vt::joined(texts.drop_last()), texts.last());
            }
            assert(put_text(Seq::empty()) + self.pending@ =~= self.pending@);
        }
        if clusters.len() > 1 {
            let last: usize = clusters.len() - 1;
            assert(crate::hyperlinks::texts(clusters@).take(last as int)
                =~= crate::hyperlinks::texts(clusters@).drop_last());
            StreamParser::put_all(&clusters, last, screen);
            self.pending = clusters[last].clone();
        }
    }

    /// Prints pending text before an operation that is no text.
    fn control<S: ScreenOps>(&mut self, screen: &mut S, byte: u8)
        requires
            old(screen).ready(),
        ensures
            final(self)@ == old(self)@.flush_then(Op::Control(byte)).0,
            final(screen).ready(),
            led(*old(screen), old(self)@.flush_then(Op::Control(byte)).1, *final(screen)),
            put_text(old(self)@.flush().1) == old(self)@.pending,
            final(self)@.pending.len() == 0,
    {
        self.flush(screen);
        let ghost mid = *screen;
        screen.execute_c0(byte);
        proof {
            led_by_one(*old(screen), old(self)@.flush().1, mid, Op::Control(byte), *screen);
        }
    }

    /// Begins a device control string.
    fn hook<S: ScreenOps>(
        &mut self,
        screen: &mut S,
        params: Vec<Vec<u16>>,
        intermediates: Vec<u8>,
        action: char,
    )
        requires
            old(screen).ready(),
        ensures
            final(self)@ == old(self)@.act(
                ActionView::Hook(
                    crate::screen::sgr::groups(params@),
                    intermediates@,
                    action,
                ),
            ).0,
            final(screen).ready(),
            led(*old(screen), old(self)@.flush().1, *final(screen)),
            put_text(old(self)@.flush().1) == old(self)@.pending,
            final(self)@.pending.len() == 0,
    {
        self.flush(screen);
        self.in_dcs = true;
        self.dcs_action = #[verifier::truncate] (action as u8);
        self.dcs_intermediates = intermediates;
        self.dcs_params = params;
        self.dcs_payload = Vec::new();
    }

    /// Ends a device control string, and hands it out.
    fn unhook<S: ScreenOps>(&mut self, screen: &mut S)
        requires
            old(screen).ready(),
        ensures
            final(self)@ == old(self)@.act(ActionView::Unhook).0,
            final(screen).ready(),
            led(*old(screen), old(self)@.act(ActionView::Unhook).1, *final(screen)),
    {
        if self.in_dcs {
            self.in_dcs = false;
            screen.handle_dcs(
                self.dcs_intermediates.as_slice(),
                self.dcs_action,
                self.dcs_params.as_slice(),
                self.dcs_payload.as_slice(),
            );
            self.dcs_payload = Vec::new();
            proof {
                let v = old(self)@;
                let op = Op::Dcs(v.dcs_intermediates, v.dcs_action, v.dcs_params, v.dcs_payload);
                led_by_none(*old(screen));
                led_by_one(*old(screen), Seq::empty(), *old(screen), op, *screen);
                assert(Seq::<Op>::empty().push(op) =~= seq![op]);
            }
        }
    }

    /// Carries out an action of the parser of escape sequences.
    fn act<S: ScreenOps>(&mut self, screen: &mut S, action: Action)
        requires
            old(screen).ready(),
        ensures
            final(self)@ == old(self)@.act(action@).0,
            final(screen).ready(),
            led(*old(screen), old(self)@.act(action@).1, *final(screen)),
            put_text(old(self)@.act(action@).1) + final(self)@.pending == old(self)@.pending
                + action_text(action@),
    {
        let ghost before = self@;
        proof {
            assert(before.pending + action_text(action@) =~= match action@ {
                ActionView::Print(c) => before.pending.push(c),
                _ => before.pending,
            });
            let op = before.act(action@).1.last();
            if !(op is Put) {
                text_of_other(before.flush().1, op);
            }
            assert(put_text(Seq::empty()) + before.pending =~= before.pending);
            let dcs = Op::Dcs(
                before.dcs_intermediates,
                before.dcs_action,
                before.dcs_params,
                before.dcs_payload,
            );
            text_of_other(Seq::empty(), dcs);
            assert(Seq::<Op>::empty().push(dcs) =~= seq![dcs]);
            assert(before.flush().0.pending.len() == 0);
            assert(before.pending + before.flush().0.pending =~= before.pending);
        }
        match action {
            Action::Print(c) => {
                self.pending.push(c);
                self.flush_complete_clusters(screen);
            },
            Action::Execute(byte) => self.control(screen, byte),
            Action::Hook(params, intermediates, c) => self.hook(
                screen,
                params,
                intermediates,
                c,
            ),
            Action::Put(byte) => {
                if self.in_dcs && self.dcs_payload.len() < DCS_CAP {
                    self.dcs_payload.push(byte);
                }
            },
            Action::Unhook => self.unhook(screen),
            Action::Osc(params) => {
                self.flush(screen);
                let ghost mid = *screen;
                screen.handle_osc(params.as_slice());
                proof {
                    let op = Op::Osc(crate::screen::byte_strings(params@));
                    led_by_one(*old(screen), old(self)@.flush().1, mid, op, *screen);
                }
            },
            Action::Csi(params, intermediates, c) => {
                self.flush(screen);
                let ghost mid = *screen;
                screen.handle_csi(params.as_slice(), intermediates.as_slice(), c);
                proof {
                    let op = Op::Csi(crate::screen::sgr::groups(params@), intermediates@, c);
                    led_by_one(*old(screen), old(self)@.flush().1, mid, op, *screen);
                }
            },
            Action::Esc(intermediates, byte) => {
                self.flush(screen);
                let ghost mid = *screen;
                screen.handle_esc(intermediates.as_slice(), byte);
                proof {
                    let op = Op::Esc(intermediates@, byte);
                    led_by_one(*old(screen), old(self)@.flush().1, mid, op, *screen);
                }
            },
        }
    }

    /// Gives a run of bytes to the parser of escape sequences, and carries out what
    /// it reports.
    fn take_run<S: ScreenOps>(&mut self, screen: &mut S, run: &[u8])
        requires
            old(screen).ready(),
        ensures
            final(self)@ == old(self)@.take_seg(SegView::Run(run@)).0,
            final(screen).ready(),
            led(*old(screen), old(self)@.take_seg(SegView::Run(run@)).1, *final(screen)),
            put_text(old(self)@.take_seg(SegView::Run(run@)).1) + final(self)@.pending
                == old(self)@.pending + old(self)@.seg_text(SegView::Run(run@)),
    {
        let actions: Vec<Action> = advance_parser(&mut self.vte, run);
        let ghost before = self@;
        let ghost all = crate::vt::actions_view(actions@);
        let ghost mut done: int = 0;
        assert(all.take(0) =~= Seq::empty());
        assert(put_text(Seq::empty()) + before.pending =~= before.pending + shown_text(
            Seq::empty(),
        ));
        proof {
            led_by_none(*screen);
        }
        for action in it: actions
            invariant
                it.seq() == actions@,
                all == crate::vt::actions_view(actions@),
                done == it.index(),
                screen.ready(),
                self@ == before.act_all(all.take(done)).0,
                led(*old(screen), before.act_all(all.take(done)).1, *screen),
                put_text(before.act_all(all.take(done)).1) + self@.pending == before.pending
                    + shown_text(all.take(done)),
        {
            let ghost mid = *screen;
            let ghost now = self@;
            self.act(screen, action);
            proof {
                assert(all.take(done + 1).drop_last() =~= all.take(done));
                assert(all.take(done + 1).last() == all[done]);
                operations_compose(
                    *old(screen),
                    before.act_all(all.take(done)).1,
                    mid,
                    now.act(action@).1,
                    *screen,
                );
                let ops = before.act_all(all.take(done)).1;
                let more = now.act(action@).1;
                text_of_appended(ops, more);
                assert(put_text(ops + more) + self@.pending =~= put_text(ops) + (put_text(more)
                    + self@.pending));
                assert(put_text(ops) + (now.pending + action_text(action@)) =~= (put_text(ops)
                    + now.pending) + action_text(action@));
                assert((before.pending + shown_text(all.take(done))) + action_text(action@)
                    =~= before.pending + shown_text(all.take(done + 1)));
                done = done + 1;
            }
        }
        assert(all.take(done) =~= all);
    }

    /// Takes in more bytes, and applies to the screen what they say. A cluster at the
    /// end of the text may still grow, so it waits for the bytes after it. All text is
    /// printed in its order or waits, and what is collected stays within its bounds.
    pub fn advance<S: ScreenOps>(&mut self, screen: &mut S, bytes: &[u8])
        requires
            old(screen).ready(),
        ensures
            final(self)@ == old(self)@.advanced(bytes@).0,
            final(screen).ready(),
            led(*old(screen), old(self)@.advanced(bytes@).1, *final(screen)),
            put_text(old(self)@.advanced(bytes@).1) + final(self)@.pending == old(self)@.pending
                + old(self)@.input_text(bytes@),
            old(self)@.bounded() ==> final(self)@.bounded(),
    {
        let segs: Vec<Seg> = self.prescan(bytes);
        let ghost before = self@;
        let ghost all = segs_view(segs@);
        assert(all.take(0) =~= Seq::empty());
        assert(put_text(Seq::empty()) + before.pending =~= before.pending + before.segs_text(
            Seq::empty(),
        ));
        proof {
            led_by_none(*screen);
        }
        let mut i: usize = 0;
        while i < segs.len()
            invariant
                i <= segs.len(),
                all == segs_view(segs@),
                screen.ready(),
                self@ == before.take_segs(all.take(i as int)).0,
                led(*old(screen), before.take_segs(all.take(i as int)).1, *screen),
                put_text(before.take_segs(all.take(i as int)).1) + self@.pending == before.pending
                    + before.segs_text(all.take(i as int)),
            decreases segs.len() - i,
        {
            let ghost mid = *screen;
            let ghost now = self@;
            match &segs[i] {
                Seg::Run(run) => self.take_run(screen, run.as_slice()),
                Seg::Graphics(cmd) => {
                    self.flush(screen);
                    let ghost printed = *screen;
                    screen.handle_graphics(cmd.as_slice());
                    proof {
                        let op = Op::Graphics(cmd@);
                        led_by_one(mid, now.flush().1, printed, op, *screen);
                        text_of_other(now.flush().1, op);
                        assert(now.pending + self@.pending =~= now.pending + Seq::empty());
                    }
                },
            }
            proof {
                assert(all.take(i + 1).drop_last() =~= all.take(i as int));
                assert(all.take(i + 1).last() == all[i as int]);
                operations_compose(
                    *old(screen),
                    before.take_segs(all.take(i as int)).1,
                    mid,
                    now.take_seg(all[i as int]).1,
                    *screen,
                );
                let ops = before.take_segs(all.take(i as int)).1;
                let more = now.take_seg(all[i as int]).1;
                let text = now.seg_text(all[i as int]);
                text_of_appended(ops, more);
                assert(put_text(ops + more) + self@.pending =~= put_text(ops) + (put_text(more)
                    + self@.pending));
                assert(put_text(ops) + (now.pending + text) =~= (put_text(ops) + now.pending)
                    + text);
                assert((before.pending + before.segs_text(all.take(i as int))) + text
                    =~= before.pending + before.segs_text(all.take(i + 1)));
            }
            i += 1;
        }
        assert(all.take(i as int) =~= all);
        let ghost mid = *screen;
        let ghost now = self@;
        self.flush_complete_clusters(screen);
        proof {
            operations_compose(
                *old(screen),
                before.take_segs(all).1,
                mid,
                now.flush_complete().1,
                *screen,
            );
            let ops = before.take_segs(all).1;
            let more = now.flush_complete().1;
            text_of_appended(ops, more);
            assert(put_text(ops + more) + self@.pending =~= put_text(ops) + (put_text(more)
                + self@.pending));
            if old(self)@.bounded() {
                let p = old(self)@;
                scanning_is_bounded(
                    Scan {
                        state: p.scan_state,
                        apc: p.apc,
                        osc_len: p.osc_len,
                        segs: Seq::empty(),
                        run: Seq::empty(),
                    },
                    bytes@,
                );
                taking_is_bounded(before, all);
            }
        }
    }
}

impl Default for StreamParser {
    /// A new parser.
    fn default() -> (p: StreamParser)
        ensures
            p@ == ParserView::start(),
    {
        StreamParser::new()
    }
}

} // verus!
