//! The cursor: its position, and the pen with which new cells are written.
use crate::attrs::{Attrs, UnderlineStyle};
use crate::color::Color;
use crate::coords::{smaller, Col, Row};
use vstd::prelude::*;

verus! {

/// The shape that a program asked for.
#[derive(Debug, Clone, Copy, PartialEq, Eq, Structural)]
pub enum CursorShape {
    /// No request: the default of the terminal that draws the cursor.
    Default,
    Block,
    Underline,
    Bar,
}

/// Cursor and pen.
#[derive(Debug, Clone, Copy, PartialEq, Eq, Structural)]
pub struct Cursor {
    pub row: Row,
    pub col: Col,
    /// Attributes of new cells.
    pub attrs: Attrs,
    pub fg: Color,
    pub bg: Color,
    /// Underline color of new cells.
    pub underline_color: Color,
    /// Underline style of new cells.
    pub underline_style: UnderlineStyle,
    pub hyperlink_id: Option<u16>,
    /// The last column was written with autowrap on: the next character goes to the
    /// next row.
    pub pending_wrap: bool,
    pub visible: bool,
    pub shape: CursorShape,
    pub blink: bool,
}

impl Cursor {
    /// The cursor at power-on: at home, visible, with a plain pen.
    pub open spec fn initial() -> Cursor {
        Cursor {
            row: Row(0),
            col: Col(0),
            attrs: Attrs { bits: 0 },
            fg: Color::Default,
            bg: Color::Default,
            underline_color: Color::Default,
            underline_style: UnderlineStyle::Off,
            hyperlink_id: None,
            pending_wrap: false,
            visible: true,
            shape: CursorShape::Default,
            blink: true,
        }
    }

    /// The cursor moved to a position, no wrap pending.
    pub open spec fn at(self, row: u16, col: u16) -> Cursor {
        Cursor { row: Row(row), col: Col(col), pending_wrap: false, ..self }
    }

    /// Whether the cursor stands in a grid of this size.
    pub open spec fn within(self, rows: int, cols: int) -> bool {
        self.row.0 < rows && self.col.0 < cols
    }

    pub open spec fn moved_to(self, row: u16, col: u16, max_rows: u16, max_cols: u16) -> Cursor {
        self.at(
            crate::coords::min16(row, crate::coords::sat_sub(max_rows, 1)),
            crate::coords::min16(col, crate::coords::sat_sub(max_cols, 1)),
        )
    }

    pub open spec fn moved_up(self, n: u16) -> Cursor {
        self.at(crate::coords::sat_sub(self.row.0, n), self.col.0)
    }

    pub open spec fn moved_down(self, n: u16, max_rows: u16) -> Cursor {
        self.at(
            crate::coords::min16(
                crate::coords::sat_add(self.row.0, n),
                crate::coords::sat_sub(max_rows, 1),
            ),
            self.col.0,
        )
    }

    pub open spec fn moved_left(self, n: u16) -> Cursor {
        self.at(self.row.0, crate::coords::sat_sub(self.col.0, n))
    }

    pub open spec fn moved_right(self, n: u16, max_cols: u16) -> Cursor {
        self.at(
            self.row.0,
            crate::coords::min16(
                crate::coords::sat_add(self.col.0, n),
                crate::coords::sat_sub(max_cols, 1),
            ),
        )
    }

    /// Moves to a position, cut to a grid of the given size.
    pub fn move_to(&mut self, row: Row, col: Col, max_rows: Row, max_cols: Col)
        ensures
            *final(self) == old(self).moved_to(row.0, col.0, max_rows.0, max_cols.0),
    {
        self.row = Row::new(smaller(row.get(), max_rows.retreat(1).get()));
        self.col = Col::new(smaller(col.get(), max_cols.retreat(1).get()));
        self.pending_wrap = false;
    }

    /// Moves up by `n`, as far as the first row.
    pub fn up(&mut self, n: u16)
        ensures
            *final(self) == old(self).moved_up(n),
    {
        self.row = self.row.retreat(n);
        self.pending_wrap = false;
    }

    /// Moves down by `n`, as far as the last row.
    pub fn down(&mut self, n: u16, max_rows: Row)
        ensures
            *final(self) == old(self).moved_down(n, max_rows.0),
    {
        self.row = Row::new(smaller(self.row.advance(n).get(), max_rows.retreat(1).get()));
        self.pending_wrap = false;
    }

    /// Moves left by `n`, as far as the first column.
    pub fn left(&mut self, n: u16)
        ensures
            *final(self) == old(self).moved_left(n),
    {
        self.col = self.col.retreat(n);
        self.pending_wrap = false;
    }

    /// Moves right by `n`, as far as the last column.
    pub fn right(&mut self, n: u16, max_cols: Col)
        ensures
            *final(self) == old(self).moved_right(n, max_cols.0),
    {
        self.col = Col::new(smaller(self.col.advance(n).get(), max_cols.retreat(1).get()));
        self.pending_wrap = false;
    }
}

impl Default for Cursor {
    fn default() -> (c: Cursor)
        ensures
            c == Cursor::initial(),
    {
        Cursor {
            row: Row::new(0),
            col: Col::new(0),
            attrs: Attrs::empty(),
            fg: Color::Default,
            bg: Color::Default,
            underline_color: Color::Default,
            underline_style: UnderlineStyle::Off,
            hyperlink_id: None,
            pending_wrap: false,
            visible: true,
            shape: CursorShape::Default,
            blink: true,
        }
    }
}

/// Every motion ends inside the grid if it began there, and cancels a pending wrap.
pub proof fn motions_stay_in_the_grid(c: Cursor, row: u16, col: u16, n: u16, rows: u16, cols: u16)
    requires
        c.within(rows as int, cols as int),
    ensures
        c.moved_to(row, col, rows, cols).within(rows as int, cols as int),
        c.moved_up(n).within(rows as int, cols as int),
        c.moved_down(n, rows).within(rows as int, cols as int),
        c.moved_left(n).within(rows as int, cols as int),
        c.moved_right(n, cols).within(rows as int, cols as int),
        !c.moved_to(row, col, rows, cols).pending_wrap,
        !c.moved_up(n).pending_wrap,
        !c.moved_down(n, rows).pending_wrap,
        !c.moved_left(n).pending_wrap,
        !c.moved_right(n, cols).pending_wrap,
{
}

} // verus!
