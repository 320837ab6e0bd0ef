//! Grid coordinates.
//!
//! A row index and a column index are both a `u16`, but they are distinct types, so
//! that the two axes of a cursor cannot be swapped. The order is (row, column)
//! everywhere. The types guard the axis and nothing more: a dimension is given as
//! the coordinate one past the last.
use vstd::prelude::*;

verus! {

/// A row of the grid, counted from 0.
#[derive(Debug, Clone, Copy, PartialEq, Eq, Hash, PartialOrd, Ord, Structural)]
pub struct Row(pub u16);

/// A column of the grid, counted from 0.
#[derive(Debug, Clone, Copy, PartialEq, Eq, Hash, PartialOrd, Ord, Structural)]
pub struct Col(pub u16);

/// `a + b`, or the largest index where that does not fit.
pub open spec fn sat_add(a: u16, b: u16) -> u16 {
    if a + b > u16::MAX {
        u16::MAX
    } else {
        (a + b) as u16
    }
}

/// `a - b`, or 0 where that would be negative.
pub open spec fn sat_sub(a: u16, b: u16) -> u16 {
    if a < b {
        0
    } else {
        (a - b) as u16
    }
}

/// The smaller of two indices.
pub open spec fn min16(a: u16, b: u16) -> u16 {
    if a <= b {
        a
    } else {
        b
    }
}

/// The larger of two indices.
pub open spec fn max16(a: u16, b: u16) -> u16 {
    if a <= b {
        b
    } else {
        a
    }
}

pub(crate) fn smaller(a: u16, b: u16) -> (r: u16)
    ensures
        r == min16(a, b),
{
    if a <= b {
        a
    } else {
        b
    }
}

pub(crate) fn larger(a: u16, b: u16) -> (r: u16)
    ensures
        r == max16(a, b),
{
    if a <= b {
        b
    } else {
        a
    }
}

impl Row {
    /// The row with index `v`.
    pub fn new(v: u16) -> (r: Row)
        ensures
            r == Row(v),
    {
        Row(v)
    }

    /// The index of the row.
    pub fn get(self) -> (v: u16)
        ensures
            v == self.0,
    {
        self.0
    }

    /// `n` rows further down; saturates at the largest index.
    #[must_use]
    pub fn advance(self, n: u16) -> (r: Row)
        ensures
            r == Row(sat_add(self.0, n)),
    {
        Row(self.0.saturating_add(n))
    }

    /// `n` rows further up; saturates at row 0.
    #[must_use]
    pub fn retreat(self, n: u16) -> (r: Row)
        ensures
            r == Row(sat_sub(self.0, n)),
    {
        Row(self.0.saturating_sub(n))
    }
}

impl Col {
    /// The column with index `v`.
    pub fn new(v: u16) -> (c: Col)
        ensures
            c == Col(v),
    {
        Col(v)
    }

    /// The index of the column.
    pub fn get(self) -> (v: u16)
        ensures
            v == self.0,
    {
        self.0
    }

    /// `n` columns further right; saturates at the largest index.
    #[must_use]
    pub fn advance(self, n: u16) -> (c: Col)
        ensures
            c == Col(sat_add(self.0, n)),
    {
        Col(self.0.saturating_add(n))
    }

    /// `n` columns further left; saturates at column 0.
    #[must_use]
    pub fn retreat(self, n: u16) -> (c: Col)
        ensures
            c == Col(sat_sub(self.0, n)),
    {
        Col(self.0.saturating_sub(n))
    }
}

} // verus!
