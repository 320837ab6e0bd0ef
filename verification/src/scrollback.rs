//! The bounded buffer of rows that scrolled off the top of the screen.
use crate::row::Row;
use std::collections::VecDeque;
use vstd::prelude::*;

verus! {

broadcast use crate::row::group_contents;

/// The number of rows that a terminal keeps unless told otherwise.
pub const DEFAULT_SCROLLBACK_LINES: usize = 10_000;

/// At most `cap` rows, the oldest first.
#[derive(Debug)]
pub struct Scrollback {
    rows: VecDeque<Row>,
    cap: usize,
}

/// The contents of a scrollback buffer.
#[verifier::ext_equal]
pub ghost struct ScrollbackView {
    pub rows: Seq<crate::row::RowView>,
    pub cap: usize,
}

impl View for Scrollback {
    type V = ScrollbackView;

    closed spec fn view(&self) -> ScrollbackView {
        ScrollbackView { rows: crate::row::rows_view(self.rows@), cap: self.cap }
    }
}

/// The last `cap` rows.
pub open spec fn newest(rows: Seq<crate::row::RowView>, cap: nat) -> Seq<crate::row::RowView> {
    if rows.len() <= cap {
        rows
    } else {
        rows.skip(rows.len() - cap)
    }
}

impl ScrollbackView {
    /// The buffer does not exceed its cap.
    pub open spec fn wf(self) -> bool {
        self.rows.len() <= self.cap
    }

    /// The buffer after a row came in: its newest rows.
    pub open spec fn pushed(self, row: crate::row::RowView) -> ScrollbackView {
        ScrollbackView { rows: newest(self.rows.push(row), self.cap as nat), ..self }
    }

    /// The number of old rows that this drops.
    pub open spec fn evicted(self) -> int {
        if self.rows.len() + 1 <= self.cap {
            0
        } else {
            self.rows.len() + 1 - self.cap
        }
    }

    /// The buffer after a list of rows came in one by one.
    pub open spec fn pushed_all(self, rows: Seq<crate::row::RowView>) -> ScrollbackView
        decreases rows.len(),
    {
        if rows.len() == 0 {
            self
        } else {
            self.pushed_all(rows.drop_last()).pushed(rows.last())
        }
    }
}

impl Scrollback {
    /// An empty buffer for at most `cap` rows.
    pub fn with_cap(cap: usize) -> (s: Scrollback)
        ensures
            s@ == (ScrollbackView { rows: Seq::empty(), cap }),
    {
        let reserve: usize = if cap < 1024 {
            cap
        } else {
            1024
        };
        let s = Scrollback { rows: VecDeque::with_capacity(reserve), cap };
        assert(s@.rows =~= Seq::empty());
        s
    }

    /// Appends a row, and drops the oldest rows over the cap. Returns how many were
    /// dropped, by which every absolute row number shifts.
    pub fn push(&mut self, row: Row) -> (evicted: usize)
        ensures
            final(self)@ == old(self)@.pushed(row@),
            evicted == old(self)@.evicted(),
    {
        let ghost grown = self@.rows.push(row@);
        self.rows.push_back(row);
        assert(self@.rows =~= grown);
        let total: usize = self.rows.len();
        let mut evicted: usize = 0;
        while self.rows.len() > self.cap
            invariant
                self.cap == old(self)@.cap,
                grown.len() == old(self)@.rows.len() + 1,
                evicted <= grown.len() == total,
                evicted > 0 ==> grown.len() - evicted >= self.cap,
                self.rows@.len() == grown.len() - evicted,
                crate::row::rows_view(self.rows@) =~= grown.skip(evicted as int),
            decreases self.rows.len(),
        {
            let dropped: Option<Row> = self.rows.pop_front();
            evicted += 1;
        }
        evicted
    }

    /// The number of rows.
    pub fn len(&self) -> (n: usize)
        ensures
            n == self@.rows.len(),
    {
        self.rows.len()
    }

    /// True if there is no row.
    pub fn is_empty(&self) -> (r: bool)
        ensures
            r == (self@.rows.len() == 0),
    {
        self.rows.len() == 0
    }

    /// Takes all rows out, the oldest first.
    pub(crate) fn take_rows(&mut self) -> (rows: Vec<Row>)
        ensures
            crate::row::rows_view(rows@) == old(self)@.rows,
            final(self)@ == (ScrollbackView { rows: Seq::empty(), cap: old(self)@.cap }),
    {
        let ghost before = self@.rows;
        let mut rows: Vec<Row> = Vec::new();
        while self.rows.len() > 0
            invariant
                self.cap == old(self)@.cap,
                before == old(self)@.rows,
                crate::row::rows_view(rows@) + crate::row::rows_view(self.rows@) =~= before,
            decreases self.rows.len(),
        {
            match self.rows.pop_front() {
                Some(row) => {
                    rows.push(row);
                },
                None => {},
            }
        }
        assert(self@.rows =~= Seq::empty());
        assert(crate::row::rows_view(rows@) =~= before);
        rows
    }

    /// The rows, the oldest first.
    pub fn rows(&self) -> (r: &VecDeque<Row>)
        ensures
            crate::row::rows_view(r@) == self@.rows,
    {
        &self.rows
    }

    /// The rows, to be changed in place.
    pub fn rows_mut(&mut self) -> (r: &mut VecDeque<Row>)
        ensures
            crate::row::rows_view(r@) == old(self)@.rows,
            final(self)@ == (ScrollbackView {
                rows: crate::row::rows_view(final(r)@),
                cap: old(self)@.cap,
            }),
    {
        &mut self.rows
    }
}

impl Default for Scrollback {
    fn default() -> (s: Scrollback)
        ensures
            s@ == (ScrollbackView { rows: Seq::empty(), cap: DEFAULT_SCROLLBACK_LINES }),
    {
        Scrollback::with_cap(DEFAULT_SCROLLBACK_LINES)
    }
}

/// A buffer within its cap stays there, keeps its newest rows in order, and drops
/// one row at a time.
pub proof fn scrollback_is_bounded_and_in_order(s: ScrollbackView, row: crate::row::RowView)
    requires
        s.wf(),
    ensures
        s.pushed(row).wf(),
        s.evicted() <= 1,
        s.cap > 0 ==> s.pushed(row).rows.last() == row,
        s.cap > 0 ==> s.pushed(row).rows.drop_last() == s.rows.skip(s.evicted()),
{
    if s.cap > 0 {
        assert(s.pushed(row).rows.drop_last() =~= s.rows.skip(s.evicted()));
    }
}

/// Rows that came in one by one are the newest rows of the old and new together.
pub proof fn pushing_rows_keeps_the_newest(s: ScrollbackView, rows: Seq<crate::row::RowView>)
    requires
        s.wf(),
    ensures
        s.pushed_all(rows).rows == newest(s.rows + rows, s.cap as nat),
        s.pushed_all(rows).cap == s.cap,
        s.pushed_all(rows).wf(),
    decreases rows.len(),
{
    if rows.len() == 0 {
        assert(s.rows + rows =~= s.rows);
    } else {
        pushing_rows_keeps_the_newest(s, rows.drop_last());
        assert((s.rows + rows.drop_last()).push(rows.last()) =~= s.rows + rows);
        assert(s.pushed_all(rows).rows =~= newest(s.rows + rows, s.cap as nat));
    }
}

} // verus!
