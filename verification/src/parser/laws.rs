//! What holds of the division of input into graphics commands and the rest, and of the
//! order in which text and the rest are applied.
use super::{Op, ParserView, Scan, ScanState, SegView};
use crate::vt::ActionView;
use vstd::prelude::*;

verus! {

/// The bytes that go to the parser of escape sequences, in their order.
pub open spec fn forwarded(segs: Seq<SegView>) -> Seq<u8>
    decreases segs.len(),
{
    if segs.len() == 0 {
        Seq::empty()
    } else {
        forwarded(segs.drop_last()) + (match segs.last() {
            SegView::Run(bytes) => bytes,
            SegView::Graphics(_) => Seq::empty(),
        })
    }
}

/// The graphics commands, in their order.
pub open spec fn commands(segs: Seq<SegView>) -> Seq<Seq<u8>>
    decreases segs.len(),
{
    if segs.len() == 0 {
        Seq::empty()
    } else {
        match segs.last() {
            SegView::Run(_) => commands(segs.drop_last()),
            SegView::Graphics(cmd) => commands(segs.drop_last()).push(cmd),
        }
    }
}

/// The parts with more bytes behind them: they continue a run at the end.
pub open spec fn run_on(segs: Seq<SegView>, bytes: Seq<u8>) -> Seq<SegView> {
    if bytes.len() == 0 {
        segs
    } else if segs.len() > 0 && segs.last() is Run {
        segs.drop_last().push(SegView::Run(segs.last()->Run_0 + bytes))
    } else {
        segs.push(SegView::Run(bytes))
    }
}

/// The parts with neighboring runs joined: the runs and the graphics commands, in the
/// order in which they came.
pub open spec fn flat(segs: Seq<SegView>) -> Seq<SegView>
    decreases segs.len(),
{
    if segs.len() == 0 {
        Seq::empty()
    } else {
        match segs.last() {
            SegView::Run(bytes) => run_on(flat(segs.drop_last()), bytes),
            SegView::Graphics(cmd) => flat(segs.drop_last()).push(SegView::Graphics(cmd)),
        }
    }
}

proof fn pushed_run(segs: Seq<SegView>, run: Seq<u8>)
    ensures
        forwarded(segs.push(SegView::Run(run))) == forwarded(segs) + run,
        commands(segs.push(SegView::Run(run))) == commands(segs),
{
    assert(segs.push(SegView::Run(run)).drop_last() =~= segs);
}

proof fn pushed_command(segs: Seq<SegView>, cmd: Seq<u8>)
    ensures
        forwarded(segs.push(SegView::Graphics(cmd))) == forwarded(segs),
        commands(segs.push(SegView::Graphics(cmd))) == commands(segs).push(cmd),
{
    assert(segs.push(SegView::Graphics(cmd)).drop_last() =~= segs);
    assert(forwarded(segs.push(SegView::Graphics(cmd))) =~= forwarded(segs));
}

/// What a scan sent on so far, with the run that is being collected.
spec fn sent(s: Scan) -> Seq<u8> {
    forwarded(s.segs) + s.run
}

/// The start of a scan in the same state.
spec fn fresh(s: Scan) -> Scan {
    Scan { segs: Seq::empty(), run: Seq::empty(), ..s }
}

proof fn flushing(s: Scan)
    ensures
        sent(s.flushed()) == sent(s),
        commands(s.flushed().segs) == commands(s.segs),
        s.flushed().run.len() == 0,
{
    pushed_run(s.segs, s.run);
    assert(sent(s.flushed()) =~= sent(s));
}

proof fn ending(s: Scan)
    ensures
        sent(s.apc_done()) == sent(s),
        commands(s.apc_done().segs) == (if s.apc.len() > 0 && s.apc[0] == 0x47 {
            commands(s.segs).push(super::framed(s.apc))
        } else {
            commands(s.segs)
        }),
{
    flushing(s);
    pushed_command(s.flushed().segs, super::framed(s.apc));
}

/// The bytes that one more byte of input sends on.
spec fn sent_by(s: Scan, b: u8) -> Seq<u8> {
    match s.state {
        ScanState::Ground => if b == 0x1b {
            Seq::empty()
        } else {
            seq![b]
        },
        ScanState::Esc => if b == 0x5f {
            Seq::empty()
        } else if b == 0x1b {
            seq![0x1bu8]
        } else {
            seq![0x1bu8, b]
        },
        ScanState::Osc => if b == 0x1b {
            Seq::empty()
        } else if b == 0x07 || b == 0x18 || b == 0x1a || s.osc_len < super::OSC_CAP {
            seq![b]
        } else {
            Seq::empty()
        },
        _ => Seq::empty(),
    }
}

/// What one byte sends on and completes depends on the state of the scan alone.
proof fn one_byte(s: Scan, t: Scan, b: u8)
    requires
        s.state == t.state,
        s.apc == t.apc,
        s.osc_len == t.osc_len,
    ensures
        s.scanned(b).state == t.scanned(b).state,
        s.scanned(b).apc == t.scanned(b).apc,
        s.scanned(b).osc_len == t.scanned(b).osc_len,
        exists|more: Seq<u8>|
            sent(s.scanned(b)) == #[trigger] (sent(s) + more) && sent(t.scanned(b)) == sent(t)
                + more,
        exists|cmds: Seq<Seq<u8>>|
            commands(s.scanned(b).segs) == #[trigger] (commands(s.segs) + cmds) && commands(
                t.scanned(b).segs,
            ) == commands(t.segs) + cmds,
{
    ending(s);
    ending(t);
    let none = Seq::<u8>::empty();
    assert(sent(s) + none =~= sent(s) && sent(t) + none =~= sent(t));
    let no_cmds = Seq::<Seq<u8>>::empty();
    assert(commands(s.segs) + no_cmds =~= commands(s.segs));
    assert(commands(t.segs) + no_cmds =~= commands(t.segs));
    let one = seq![super::framed(s.apc)];
    assert(commands(s.segs) + one =~= commands(s.segs).push(super::framed(s.apc)));
    assert(commands(t.segs) + one =~= commands(t.segs).push(super::framed(s.apc)));
    let more = sent_by(s, b);
    assert(sent(s.scanned(b)) =~= sent(s) + more);
    assert(sent(t.scanned(b)) =~= sent(t) + more);
}

/// Whether one more byte of input completes an application command.
spec fn completes(s: Scan, b: u8) -> bool {
    s.state is Apc && b == 0x9c || s.state is ApcEsc && b == 0x5c
}

/// The parts after one more byte of input.
spec fn one_more(segs: Seq<SegView>, s: Scan, b: u8) -> Seq<SegView> {
    if completes(s, b) && s.apc.len() > 0 && s.apc[0] == 0x47 {
        segs.push(SegView::Graphics(super::framed(s.apc)))
    } else {
        run_on(segs, sent_by(s, b))
    }
}

proof fn running_on_twice(segs: Seq<SegView>, a: Seq<u8>, b: Seq<u8>)
    ensures
        run_on(run_on(segs, a), b) == run_on(segs, a + b),
{
    if a.len() == 0 {
        assert(a + b =~= b);
    } else if b.len() == 0 {
        assert(a + b =~= a);
    } else {
        let once = run_on(segs, a);
        if segs.len() > 0 && segs.last() is Run {
            assert(once.drop_last() =~= segs.drop_last());
            assert((segs.last()->Run_0 + a) + b =~= segs.last()->Run_0 + (a + b));
        } else {
            assert(once.drop_last() =~= segs);
        }
    }
}

/// The parts found so far, behind earlier ones, joined.
spec fn found(before: Seq<SegView>, s: Scan) -> Seq<SegView> {
    flat(before + s.flushed().segs)
}

proof fn finding(before: Seq<SegView>, s: Scan)
    ensures
        found(before, s) == run_on(flat(before + s.segs), s.run),
{
    if s.run.len() > 0 {
        let all = before + s.flushed().segs;
        assert(all.drop_last() =~= before + s.segs);
        assert(all.last() == SegView::Run(s.run));
    }
}

/// What one byte adds to the parts depends on the state of the scan alone.
proof fn finding_one_more(before: Seq<SegView>, s: Scan, b: u8)
    ensures
        found(before, s.scanned(b)) == one_more(found(before, s), s, b),
{
    let t = s.scanned(b);
    finding(before, s);
    finding(before, t);
    if completes(s, b) {
        let u = s.flushed();
        assert(found(before, s) == flat(before + u.segs));
        assert(t.run.len() == 0);
        if s.apc.len() > 0 && s.apc[0] == 0x47 {
            let cmd = SegView::Graphics(super::framed(s.apc));
            assert((before + t.segs).drop_last() =~= before + u.segs);
            assert((before + t.segs).last() == cmd);
        }
    } else {
        assert(t.segs == s.segs);
        assert(t.run =~= s.run + sent_by(s, b));
        running_on_twice(flat(before + s.segs), s.run, sent_by(s, b));
    }
}

proof fn finding_many_more(before: Seq<SegView>, s: Scan, bytes: Seq<u8>)
    requires
        before == s.flushed().segs,
    ensures
        found(Seq::empty(), s.scanned_all(bytes)) == found(before, fresh(s).scanned_all(bytes)),
    decreases bytes.len(),
{
    if bytes.len() == 0 {
        assert(Seq::empty() + s.flushed().segs =~= before);
        assert(before + fresh(s).flushed().segs =~= before);
    } else {
        finding_many_more(before, s, bytes.drop_last());
        many_bytes(s, bytes.drop_last());
        let s1 = s.scanned_all(bytes.drop_last());
        let t1 = fresh(s).scanned_all(bytes.drop_last());
        finding_one_more(Seq::empty(), s1, bytes.last());
        finding_one_more(before, t1, bytes.last());
    }
}

/// What a list of bytes sends on and completes depends on the state of the scan alone.
proof fn many_bytes(s: Scan, bytes: Seq<u8>)
    ensures
        s.scanned_all(bytes).state == fresh(s).scanned_all(bytes).state,
        s.scanned_all(bytes).apc == fresh(s).scanned_all(bytes).apc,
        s.scanned_all(bytes).osc_len == fresh(s).scanned_all(bytes).osc_len,
        sent(s.scanned_all(bytes)) == sent(s) + sent(fresh(s).scanned_all(bytes)),
        commands(s.scanned_all(bytes).segs) == commands(s.segs) + commands(
            fresh(s).scanned_all(bytes).segs,
        ),
    decreases bytes.len(),
{
    if bytes.len() == 0 {
        assert(sent(s) + sent(fresh(s)) =~= sent(s));
        assert(commands(s.segs) + commands(fresh(s).segs) =~= commands(s.segs));
    } else {
        many_bytes(s, bytes.drop_last());
        let s1 = s.scanned_all(bytes.drop_last());
        let t1 = fresh(s).scanned_all(bytes.drop_last());
        let b = bytes.last();
        one_byte(s1, t1, b);
        let more = choose|more: Seq<u8>|
            sent(s1.scanned(b)) == #[trigger] (sent(s1) + more) && sent(t1.scanned(b)) == sent(t1)
                + more;
        let cmds = choose|cmds: Seq<Seq<u8>>|
            commands(s1.scanned(b).segs) == #[trigger] (commands(s1.segs) + cmds) && commands(
                t1.scanned(b).segs,
            ) == commands(t1.segs) + cmds;
        assert((sent(s) + sent(t1)) + more =~= sent(s) + (sent(t1) + more));
        assert((commands(s.segs) + commands(t1.segs)) + cmds =~= commands(s.segs) + (commands(
            t1.segs,
        ) + cmds));
    }
}

proof fn scanning_goes_on(s: Scan, a: Seq<u8>, b: Seq<u8>)
    ensures
        s.scanned_all(a + b) == s.scanned_all(a).scanned_all(b),
    decreases b.len(),
{
    if b.len() == 0 {
        assert(a + b =~= a);
    } else {
        scanning_goes_on(s, a, b.drop_last());
        assert((a + b).drop_last() =~= a + b.drop_last());
        assert((a + b).last() == b.last());
    }
}

/// It does not matter where reads cut the input: two reads forward the same bytes and
/// find the same graphics commands as one read of both, in the same order, and leave the
/// same state. Only a run may come in two parts.
pub proof fn reads_may_be_cut_anywhere(p: ParserView, a: Seq<u8>, b: Seq<u8>)
    ensures
        flat(p.divided(a).segs + p.after_scan(a).divided(b).segs) == flat(p.divided(a + b).segs),
        forwarded(p.divided(a + b).segs) == forwarded(p.divided(a).segs) + forwarded(
            p.after_scan(a).divided(b).segs,
        ),
        commands(p.divided(a + b).segs) == commands(p.divided(a).segs) + commands(
            p.after_scan(a).divided(b).segs,
        ),
        p.after_scan(a).after_scan(b) == p.after_scan(a + b),
{
    let start = Scan {
        state: p.scan_state,
        apc: p.apc,
        osc_len: p.osc_len,
        segs: Seq::empty(),
        run: Seq::empty(),
    };
    let mid = start.scanned_all(a);
    let end = mid.scanned_all(b);
    let second = fresh(mid).scanned_all(b);
    scanning_goes_on(start, a, b);
    many_bytes(mid, b);
    flushing(mid);
    flushing(end);
    flushing(second);
    let q = p.after_scan(a);
    assert(fresh(mid) == (Scan {
        state: q.scan_state,
        apc: q.apc,
        osc_len: q.osc_len,
        segs: Seq::empty(),
        run: Seq::empty(),
    }));
    finding_many_more(mid.flushed().segs, mid, b);
    assert(Seq::empty() + end.flushed().segs =~= p.divided(a + b).segs);
    assert(forwarded(p.divided(a + b).segs) =~= sent(end.flushed()));
    assert(forwarded(p.divided(a).segs) =~= sent(mid.flushed()));
    assert(forwarded(q.divided(b).segs) =~= sent(second.flushed()));
}

proof fn plain_bytes_are_sent(s: Scan, bytes: Seq<u8>)
    requires
        s.state is Ground,
        !bytes.contains(0x1b),
        !bytes.contains(0x9d),
    ensures
        s.scanned_all(bytes) == (Scan { run: s.run + bytes, ..s }),
    decreases bytes.len(),
{
    if bytes.len() == 0 {
        assert(s.run + bytes =~= s.run);
    } else {
        let front = bytes.drop_last();
        assert forall|x: u8| front.contains(x) implies bytes.contains(x) by {
            let i = choose|i: int| 0 <= i < front.len() && front[i] == x;
            assert(bytes[i] == x);
        }
        assert(bytes.contains(bytes.last())) by {
            assert(bytes[bytes.len() - 1] == bytes.last());
        }
        plain_bytes_are_sent(s, front);
        assert((s.run + front).push(bytes.last()) =~= s.run + bytes);
    }
}

/// Outside of commands, input without escape characters and without the single
/// byte that introduces an operating system command is forwarded untouched.
pub proof fn plain_input_passes_through(p: ParserView, bytes: Seq<u8>)
    requires
        p.scan_state is Ground,
        !bytes.contains(0x1b),
        !bytes.contains(0x9d),
    ensures
        forwarded(p.divided(bytes).segs) == bytes,
        commands(p.divided(bytes).segs).len() == 0,
        p.after_scan(bytes) == p,
{
    let start = Scan {
        state: p.scan_state,
        apc: p.apc,
        osc_len: p.osc_len,
        segs: Seq::empty(),
        run: Seq::empty(),
    };
    plain_bytes_are_sent(start, bytes);
    let end = start.scanned_all(bytes);
    flushing(end);
    assert(start.run + bytes =~= bytes);
    assert(sent(end) =~= bytes);
    assert(forwarded(p.divided(bytes).segs) =~= sent(end.flushed()));
}

/// All text before a control, a sequence, a command or an image is printed before it is
/// applied: nothing is pending then.
pub proof fn text_goes_before_what_follows_it(p: ParserView, a: ActionView, cmd: Seq<u8>)
    ensures
        p.take_seg(SegView::Graphics(cmd)).1 == p.flush().1.push(Op::Graphics(cmd)),
        p.take_seg(SegView::Graphics(cmd)).0.pending.len() == 0,
        match a {
            ActionView::Execute(b) => p.act(a).1 == p.flush().1.push(Op::Control(b)),
            ActionView::Csi(g, i, c) => p.act(a).1 == p.flush().1.push(Op::Csi(g, i, c)),
            ActionView::Osc(g) => p.act(a).1 == p.flush().1.push(Op::Osc(g)),
            ActionView::Esc(i, b) => p.act(a).1 == p.flush().1.push(Op::Esc(i, b)),
            ActionView::Hook(..) => p.act(a).1 == p.flush().1,
            _ => true,
        },
        !(a is Print || a is Put || a is Unhook) ==> p.act(a).0.pending.len() == 0,
{
}

} // verus!
