//! Tab stops.
use vstd::prelude::*;

verus! {

/// The columns that are tab stops; at first every eighth.
#[derive(Debug, Clone)]
pub struct TabStops {
    stops: Vec<bool>,
}

/// The stops of a new screen of `cols` columns.
pub open spec fn default_stops(cols: nat) -> Seq<bool> {
    Seq::new(cols, |i: int| i % 8 == 0)
}

/// The stops at another number of columns. New columns get the default ones.
pub open spec fn resized(stops: Seq<bool>, cols: nat) -> Seq<bool> {
    Seq::new(
        cols,
        |i: int|
            if i < stops.len() {
                stops[i]
            } else {
                i % 8 == 0
            },
    )
}

/// The first stop to the right of `col`.
pub open spec fn next_stop(stops: Seq<bool>, col: u16) -> Option<u16> {
    if exists|i: int| col < i < stops.len() && #[trigger] stops[i] {
        Some(first_stop_after(stops, col as int) as u16)
    } else {
        None
    }
}

/// The first stop to the right of `col`, or the number of columns if there is none.
pub open spec fn first_stop_after(stops: Seq<bool>, col: int) -> int
    decreases stops.len() - col,
{
    if col + 1 >= stops.len() {
        stops.len() as int
    } else if stops[col + 1] {
        col + 1
    } else {
        first_stop_after(stops, col + 1)
    }
}

proof fn first_stop_is(stops: Seq<bool>, col: int, i: int)
    requires
        -1 <= col < i <= stops.len(),
        i < stops.len() ==> stops[i],
        forall|k: int| col < k < i ==> !stops[k],
    ensures
        first_stop_after(stops, col) == i,
    decreases i - col,
{
    if col + 1 < i {
        first_stop_is(stops, col + 1, i);
    }
}

impl View for TabStops {
    type V = Seq<bool>;

    closed spec fn view(&self) -> Seq<bool> {
        self.stops@
    }
}

impl TabStops {
    /// The default stops of a screen of `cols` columns.
    pub fn new(cols: u16) -> (t: TabStops)
        ensures
            t@ == default_stops(cols as nat),
    {
        let mut stops: Vec<bool> = Vec::new();
        let mut i: u16 = 0;
        while i < cols
            invariant
                i <= cols,
                stops@ =~= default_stops(i as nat),
            decreases cols - i,
        {
            stops.push(i % 8 == 0);
            i += 1;
        }
        TabStops { stops }
    }

    /// The first stop to the right of `col`.
    pub fn next(&self, col: u16) -> (r: Option<u16>)
        requires
            self@.len() <= u16::MAX,
        ensures
            r == next_stop(self@, col),
    {
        let mut i: usize = col as usize + 1;
        while i < self.stops.len()
            invariant
                col < i,
                self@.len() <= u16::MAX,
                i <= self.stops.len() || i == col + 1,
                forall|k: int| col < k < i && k < self@.len() ==> !self@[k],
            decreases self.stops.len() - i,
        {
            if self.stops[i] {
                proof {
                    first_stop_is(self@, col as int, i as int);
                    assert(self@[i as int]);
                }
                return Some(i as u16);
            }
            i += 1;
        }
        None
    }

    /// Makes `col` a stop. A column outside the screen is ignored.
    pub fn set(&mut self, col: u16)
        ensures
            final(self)@ == (if col < old(self)@.len() {
                old(self)@.update(col as int, true)
            } else {
                old(self)@
            }),
    {
        if (col as usize) < self.stops.len() {
            self.stops.set(col as usize, true);
        }
    }

    /// Removes the stop at `col`.
    pub fn clear(&mut self, col: u16)
        ensures
            final(self)@ == (if col < old(self)@.len() {
                old(self)@.update(col as int, false)
            } else {
                old(self)@
            }),
    {
        if (col as usize) < self.stops.len() {
            self.stops.set(col as usize, false);
        }
    }

    /// Removes all stops.
    pub fn clear_all(&mut self)
        ensures
            final(self)@ == Seq::new(old(self)@.len(), |i: int| false),
    {
        let mut i: usize = 0;
        while i < self.stops.len()
            invariant
                i <= self.stops.len() == old(self)@.len(),
                forall|k: int| 0 <= k < i ==> !self.stops@[k],
            decreases self.stops.len() - i,
        {
            self.stops.set(i, false);
            i += 1;
        }
        assert(self@ =~= Seq::new(old(self)@.len(), |i: int| false));
    }

    /// Changes the number of columns. New columns get the default stops.
    pub fn resize(&mut self, cols: u16)
        ensures
            final(self)@ == resized(old(self)@, cols as nat),
    {
        let ghost before = self@;
        if self.stops.len() > cols as usize {
            self.stops.truncate(cols as usize);
        }
        while self.stops.len() < cols as usize
            invariant
                self.stops.len() <= cols,
                forall|k: int|
                    0 <= k < self.stops.len() ==> #[trigger] self.stops@[k] == (if k
                        < before.len() {
                        before[k]
                    } else {
                        k % 8 == 0
                    }),
                self.stops.len() < cols ==> before.len() <= self.stops.len(),
            decreases cols - self.stops.len(),
        {
            let i: usize = self.stops.len();
            self.stops.push(i % 8 == 0);
        }
        assert(self@ =~= Seq::new(
            cols as nat,
            |i: int|
                if i < before.len() {
                    before[i]
                } else {
                    i % 8 == 0
                },
        ));
    }
}

/// A stop that was set is found again from the column before it, and one that was
/// cleared is not.
pub proof fn stops_are_found_where_they_were_set(stops: Seq<bool>, col: u16)
    requires
        0 < col < stops.len() <= u16::MAX,
    ensures
        next_stop(stops.update(col as int, true), (col - 1) as u16) == Some(col),
        next_stop(stops.update(col as int, false), (col - 1) as u16) != Some(col),
{
    let on = stops.update(col as int, true);
    assert(on[col as int]);
    first_stop_is(on, col - 1, col as int);
    let off = stops.update(col as int, false);
    if exists|i: int| col - 1 < i < off.len() && #[trigger] off[i] {
        let i = choose|i: int| col - 1 < i < off.len() && #[trigger] off[i];
        assert(i != col);
        stop_is_found(off, col as int, i);
    }
}

proof fn stop_is_found(stops: Seq<bool>, col: int, i: int)
    requires
        -1 <= col < i < stops.len(),
        stops[i],
    ensures
        col < first_stop_after(stops, col) <= i,
        stops[first_stop_after(stops, col)],
    decreases i - col,
{
    if !stops[col + 1] {
        stop_is_found(stops, col + 1, i);
    }
}

/// The next stop is the nearest: there is none between it and the column, and there is
/// none at all to the right if none is found.
pub proof fn the_next_stop_is_the_nearest(stops: Seq<bool>, col: u16, k: int)
    requires
        stops.len() <= u16::MAX,
    ensures
        match next_stop(stops, col) {
            Some(stop) => col < stop < stops.len() && stops[stop as int] && (col < k < stop
                ==> !stops[k]),
            None => col < k < stops.len() ==> !stops[k],
        },
{
    if exists|i: int| col < i < stops.len() && #[trigger] stops[i] {
        let i = choose|i: int| col < i < stops.len() && #[trigger] stops[i];
        stop_is_found(stops, col as int, i);
        if col < k < stops.len() && stops[k] {
            stop_is_found(stops, col as int, k);
        }
    }
}

} // verus!
