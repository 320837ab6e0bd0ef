//! Foreground and background colors of a cell.
use vstd::prelude::*;

verus! {

/// A color in the vocabulary of SGR.
#[derive(Debug, Clone, Copy, PartialEq, Eq, Structural)]
pub enum Color {
    /// The default color of the terminal that finally draws the cell.
    Default,
    /// An entry of the palette of 256 colors: the named ones first, then the color
    /// cube, then the grays.
    Indexed(u8),
    /// Red, green and blue.
    Rgb(u8, u8, u8),
}

impl Color {
    /// The color of SGR 30 to 37 and 40 to 47, counted from 0.
    pub fn from_ansi_basic(n: u8) -> (c: Color)
        ensures
            c == Color::Indexed(n),
    {
        Color::Indexed(n)
    }

    /// The color of SGR 90 to 97 and 100 to 107, counted from 0: the bright half
    /// of the named colors.
    pub fn from_ansi_bright(n: u8) -> (c: Color)
        requires
            n + 8 <= u8::MAX,
        ensures
            c == Color::Indexed((n + 8) as u8),
    {
        Color::Indexed(n + 8)
    }
}

impl Default for Color {
    fn default() -> (c: Color)
        ensures
            c == Color::Default,
    {
        Color::Default
    }
}

} // verus!
