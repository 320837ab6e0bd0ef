//! The screen as the parser drives it.
use super::model::ScreenView;
use super::osc::recorded_millis;
use super::Screen;
use crate::parser::{Op, ScreenOps};
use std::time::Duration;
use vstd::prelude::*;

verus! {

impl ScreenView {
    /// What an operation does, if the command that was running took `ms`
    /// milliseconds. Only the end of a command depends on that.
    #[verifier::opaque]
    pub open spec fn done(self, op: Op, ms: u32) -> ScreenView {
        match op {
            Op::Put(text) => self.printed(text),
            Op::Control(byte) => self.controlled(byte),
            Op::Csi(p, inter, action) => self.csi(p, inter, action),
            Op::Osc(p) => self.osc(p, ms),
            Op::Esc(inter, byte) => self.esc(inter, byte),
            Op::Dcs(inter, action, p, payload) => self.dcs(inter, action, p, payload),
            Op::Graphics(framed) => self.graphics(framed),
        }
    }

    /// What operations do one after the other, with a duration for each.
    pub open spec fn done_all(self, ops: Seq<Op>, clock: Seq<u32>) -> ScreenView
        decreases ops.len(),
    {
        if ops.len() == 0 {
            self
        } else {
            self.done_all(ops.drop_last(), clock.drop_last()).done(ops.last(), clock.last())
        }
    }
}

impl ScreenOps for Screen {
    open spec fn ready(&self) -> bool {
        self@.wf()
    }

    open spec fn step(before: Screen, op: Op, after: Screen) -> bool {
        exists|t: Duration| after@ == before@.done(op, #[trigger] recorded_millis(t))
    }

    fn put_grapheme(&mut self, cluster: &str) {
        let ghost before = self@;
        reveal(ScreenView::done);
        Screen::put_grapheme(self, cluster);
        assert(self@ == before.done(Op::Put(cluster@), recorded_millis(arbitrary())));
    }

    fn execute_c0(&mut self, byte: u8) {
        let ghost before = self@;
        reveal(ScreenView::done);
        Screen::execute_c0(self, byte);
        assert(self@ == before.done(Op::Control(byte), recorded_millis(arbitrary())));
    }

    fn handle_csi(&mut self, params: &[Vec<u16>], intermediates: &[u8], action: char) {
        let ghost before = self@;
        reveal(ScreenView::done);
        Screen::handle_csi(self, params, intermediates, action);
        assert(self@ == before.done(
            Op::Csi(super::sgr::groups(params@), intermediates@, action),
            recorded_millis(arbitrary()),
        ));
    }

    fn handle_osc(&mut self, params: &[Vec<u8>]) {
        let ghost before = self@;
        reveal(ScreenView::done);
        Screen::handle_osc(self, params);
        proof {
            let p = super::byte_strings(params@);
            let t = choose|t: Duration| self@ == before.osc(p, #[trigger] recorded_millis(t));
            assert(self@ == before.done(Op::Osc(p), recorded_millis(t)));
        }
    }

    fn handle_esc(&mut self, intermediates: &[u8], byte: u8) {
        let ghost before = self@;
        reveal(ScreenView::done);
        Screen::handle_esc(self, intermediates, byte);
        assert(self@ == before.done(Op::Esc(intermediates@, byte), recorded_millis(arbitrary())));
    }

    fn handle_dcs(
        &mut self,
        intermediates: &[u8],
        action: u8,
        params: &[Vec<u16>],
        payload: &[u8],
    ) {
        let ghost before = self@;
        reveal(ScreenView::done);
        Screen::handle_dcs(self, intermediates, action, params, payload);
        assert(self@ == before.done(
            Op::Dcs(intermediates@, action, super::sgr::groups(params@), payload@),
            recorded_millis(arbitrary()),
        ));
    }

    fn handle_graphics(&mut self, framed: &[u8]) {
        let ghost before = self@;
        reveal(ScreenView::done);
        Screen::handle_graphics(self, framed);
        assert(self@ == before.done(Op::Graphics(framed@), recorded_millis(arbitrary())));
    }
}

/// The milliseconds that are recorded of durations.
pub open spec fn readings(clock: Seq<Duration>) -> Seq<u32> {
    Seq::new(clock.len(), |i: int| recorded_millis(clock[i]))
}

/// A screen that operations led to shows what they do one after the other, with the
/// milliseconds of some duration for each.
pub proof fn screens_follow_operations(before: Screen, ops: Seq<Op>, after: Screen)
    requires
        crate::parser::led(before, ops, after),
    ensures
        exists|clock: Seq<Duration>|
            clock.len() == ops.len() && after@ == before@.done_all(
                ops,
                #[trigger] readings(clock),
            ),
    decreases ops.len(),
{
    if ops.len() == 0 {
        let clock = Seq::<Duration>::empty();
        assert(after@ == before@.done_all(ops, readings(clock)));
    } else {
        let mid = choose|mid: Screen|
            crate::parser::led(before, ops.drop_last(), mid) && #[trigger] Screen::step(
                mid,
                ops.last(),
                after,
            );
        screens_follow_operations(before, ops.drop_last(), mid);
        let clock = choose|clock: Seq<Duration>|
            clock.len() == ops.len() - 1 && mid@ == before@.done_all(
                ops.drop_last(),
                #[trigger] readings(clock),
            );
        let t = choose|t: Duration| after@ == mid@.done(ops.last(), #[trigger] recorded_millis(t));
        let longer = clock.push(t);
        assert(readings(longer).drop_last() =~= readings(clock));
        assert(after@ == before@.done_all(ops, readings(longer)));
    }
}

} // verus!
