//! Character attributes selected by SGR: a small flag set, and the underline style.
use vstd::prelude::*;

verus! {

/// The style of an underline (SGR `4:0` to `4:5`), separate from its color.
///
/// [`Attrs::UNDERLINE`] says that some underline is present; this says which.
#[derive(Debug, Clone, Copy, PartialEq, Eq, Structural)]
pub enum UnderlineStyle {
    /// No underline (SGR `4:0` and `24`).
    Off,
    /// One straight line (SGR `4` and `4:1`).
    Single,
    /// Two straight lines (SGR `4:2`).
    Double,
    /// A curly line (SGR `4:3`).
    Curly,
    /// A dotted line (SGR `4:4`).
    Dotted,
    /// A dashed line (SGR `4:5`).
    Dashed,
}

/// The style that the SGR sub-parameter `code` selects. A code with no style of
/// its own still draws a line, so it selects the single one.
pub open spec fn style_of_code(code: u16) -> UnderlineStyle {
    if code == 0 {
        UnderlineStyle::Off
    } else if code == 2 {
        UnderlineStyle::Double
    } else if code == 3 {
        UnderlineStyle::Curly
    } else if code == 4 {
        UnderlineStyle::Dotted
    } else if code == 5 {
        UnderlineStyle::Dashed
    } else {
        UnderlineStyle::Single
    }
}

impl UnderlineStyle {
    /// Maps the sub-parameter of SGR `4:code` to a style.
    pub fn from_sgr_subparam(code: u16) -> (style: UnderlineStyle)
        ensures
            style == style_of_code(code),
    {
        match code {
            0 => UnderlineStyle::Off,
            1 => UnderlineStyle::Single,
            2 => UnderlineStyle::Double,
            3 => UnderlineStyle::Curly,
            4 => UnderlineStyle::Dotted,
            5 => UnderlineStyle::Dashed,
            _ => UnderlineStyle::Single,
        }
    }
}

impl Default for UnderlineStyle {
    fn default() -> (style: UnderlineStyle)
        ensures
            style == UnderlineStyle::Off,
    {
        UnderlineStyle::Off
    }
}

/// The attribute flags of one cell. The flags are the associated constants; each
/// is a mask of one bit, and masks combine with `|`.
#[derive(Debug, Clone, Copy, PartialEq, Eq, Structural)]
pub struct Attrs {
    pub bits: u16,
}

impl Attrs {
    pub const BOLD: u16 = 1;

    pub const DIM: u16 = 2;

    pub const ITALIC: u16 = 4;

    pub const UNDERLINE: u16 = 8;

    pub const BLINK: u16 = 16;

    pub const REVERSE: u16 = 32;

    pub const HIDDEN: u16 = 64;

    pub const STRIKETHROUGH: u16 = 128;

    /// A search match. Painted with a background of its own, so that matches stand
    /// out from a selection, which uses [`Attrs::REVERSE`].
    pub const HIGHLIGHT: u16 = 256;

    /// Whether every flag of `mask` is set.
    pub open spec fn has(self, mask: u16) -> bool {
        self.bits & mask == mask
    }

    /// The same attributes with the flags of `mask` set.
    pub open spec fn with(self, mask: u16) -> Attrs {
        Attrs { bits: self.bits | mask }
    }

    /// The same attributes with the flags of `mask` cleared.
    pub open spec fn without(self, mask: u16) -> Attrs {
        Attrs { bits: self.bits & !mask }
    }

    /// No attribute set.
    pub fn empty() -> (a: Attrs)
        ensures
            a == (Attrs { bits: 0 }),
    {
        Attrs { bits: 0 }
    }

    /// Exactly the flags of `mask`.
    pub fn from_bits(mask: u16) -> (a: Attrs)
        ensures
            a.bits == mask,
    {
        Attrs { bits: mask }
    }

    /// True if no flag is set.
    pub fn is_empty(self) -> (r: bool)
        ensures
            r == (self.bits == 0),
    {
        self.bits == 0
    }

    /// True if every flag of `mask` is set.
    pub fn contains(self, mask: u16) -> (r: bool)
        ensures
            r == self.has(mask),
    {
        self.bits & mask == mask
    }

    /// Sets the flags of `mask`.
    pub fn insert(&mut self, mask: u16)
        ensures
            *final(self) == old(self).with(mask),
    {
        self.bits = self.bits | mask;
    }

    /// Clears the flags of `mask`.
    pub fn remove(&mut self, mask: u16)
        ensures
            *final(self) == old(self).without(mask),
    {
        self.bits = self.bits & !mask;
    }
}

impl Default for Attrs {
    fn default() -> (a: Attrs)
        ensures
            a == (Attrs { bits: 0 }),
    {
        Attrs::empty()
    }
}

/// Setting flags makes them present, and doing so twice changes nothing more.
pub proof fn insert_sets_and_is_idempotent(a: Attrs, mask: u16)
    ensures
        a.with(mask).has(mask),
        a.with(mask).with(mask) == a.with(mask),
{
    let b: u16 = a.bits;
    assert((b | mask) & mask == mask && (b | mask) | mask == b | mask) by (bit_vector);
}

/// Clearing flags removes each of them, and doing so twice changes nothing more.
pub proof fn remove_clears_and_is_idempotent(a: Attrs, mask: u16)
    ensures
        a.without(mask).bits & mask == 0,
        mask != 0 ==> !a.without(mask).has(mask),
        a.without(mask).without(mask) == a.without(mask),
{
    let b: u16 = a.bits;
    assert((b & !mask) & mask == 0 && (b & !mask) & !mask == b & !mask) by (bit_vector);
}

/// Setting or clearing some flags leaves every other flag as it was.
pub proof fn other_flags_are_kept(a: Attrs, mask: u16, other: u16)
    requires
        mask & other == 0,
    ensures
        a.with(mask).has(other) == a.has(other),
        a.without(mask).has(other) == a.has(other),
{
    let b: u16 = a.bits;
    assert(mask & other == 0 ==> (b | mask) & other == b & other && (b & !mask) & other == b
        & other) by (bit_vector);
}

} // verus!
