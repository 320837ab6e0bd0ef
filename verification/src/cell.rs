//! One cell of the grid: a grapheme cluster with its colors and attributes.
use crate::attrs::{Attrs, UnderlineStyle};
use crate::color::Color;
use crate::text::{same_text, smol};
use crate::width::display_width;
use smol_str::SmolStr;
use vstd::prelude::*;

verus! {

/// One screen cell.
///
/// A wide character takes two columns. Its cell stands in the first; the second
/// holds a spacer, a cell with an empty grapheme, so that the grid stays
/// rectangular.
#[derive(Debug, PartialEq, Eq)]
pub struct Cell {
    /// The grapheme cluster; empty in a spacer.
    pub grapheme: SmolStr,
    pub fg: Color,
    pub bg: Color,
    /// Underline color; `Color::Default` follows the text.
    pub underline_color: Color,
    /// Underline style; [`Attrs::UNDERLINE`] says whether there is one at all.
    pub underline_style: UnderlineStyle,
    pub attrs: Attrs,
    /// The entry of the hyperlink table that this cell links to.
    pub hyperlink_id: Option<u16>,
}

/// The contents of a cell.
#[verifier::ext_equal]
pub ghost struct CellView {
    pub grapheme: Seq<char>,
    pub fg: Color,
    pub bg: Color,
    pub underline_color: Color,
    pub underline_style: UnderlineStyle,
    pub attrs: Attrs,
    pub hyperlink_id: Option<u16>,
}

impl View for Cell {
    type V = CellView;

    open spec fn view(&self) -> CellView {
        CellView {
            grapheme: crate::text::smol_text(self.grapheme),
            fg: self.fg,
            bg: self.bg,
            underline_color: self.underline_color,
            underline_style: self.underline_style,
            attrs: self.attrs,
            hyperlink_id: self.hyperlink_id,
        }
    }
}

impl CellView {
    /// A plain cell that shows `grapheme`.
    pub open spec fn plain(grapheme: Seq<char>) -> CellView {
        CellView {
            grapheme,
            fg: Color::Default,
            bg: Color::Default,
            underline_color: Color::Default,
            underline_style: UnderlineStyle::Off,
            attrs: Attrs { bits: 0 },
            hyperlink_id: None,
        }
    }

    /// The blank cell: one space, nothing else set.
    pub open spec fn blank() -> CellView {
        CellView::plain(seq![' '])
    }

    /// The right half of a wide character.
    pub open spec fn spacer() -> CellView {
        CellView::plain(Seq::empty())
    }

    /// Whether the cell is the right half of a wide character.
    pub open spec fn is_spacer(self) -> bool {
        self.grapheme.len() == 0
    }

    /// Whether the cell holds a grapheme that takes two columns.
    pub open spec fn is_wide(self) -> bool {
        !self.is_spacer() && crate::width::text_width(self.grapheme) == 2
    }
}

impl Default for Cell {
    fn default() -> (c: Cell)
        ensures
            c@ == CellView::blank(),
    {
        Cell::plain(" ")
    }
}

impl Clone for Cell {
    fn clone(&self) -> (c: Cell)
        ensures
            c@ == self@,
    {
        Cell {
            grapheme: self.grapheme.clone(),
            fg: self.fg,
            bg: self.bg,
            underline_color: self.underline_color,
            underline_style: self.underline_style,
            attrs: self.attrs,
            hyperlink_id: self.hyperlink_id,
        }
    }
}

impl Cell {
    fn plain(text: &str) -> (c: Cell)
        ensures
            c@ == CellView::plain(text@),
            text@ == " "@ ==> c@ == CellView::blank(),
            text@ == ""@ ==> c@ == CellView::spacer(),
    {
        proof {
            reveal_strlit(" ");
            reveal_strlit("");
            assert(" "@ =~= seq![' ']);
            assert(""@ =~= Seq::empty());
        }
        Cell {
            grapheme: smol(text),
            fg: Color::Default,
            bg: Color::Default,
            underline_color: Color::Default,
            underline_style: UnderlineStyle::Off,
            attrs: Attrs::empty(),
            hyperlink_id: None,
        }
    }

    /// A blank cell: one space with default colors and no attributes.
    pub fn blank() -> (c: Cell)
        ensures
            c@ == CellView::blank(),
    {
        Cell::default()
    }

    /// The right half of a wide character. It has no grapheme of its own.
    pub fn wide_spacer() -> (c: Cell)
        ensures
            c@ == CellView::spacer(),
    {
        Cell::plain("")
    }

    /// True if this is the right half of a wide character.
    pub fn is_wide_spacer(&self) -> (r: bool)
        ensures
            r == self@.is_spacer(),
    {
        self.grapheme.is_empty()
    }

    /// True if this cell is a plain space.
    pub fn is_blank(&self) -> (r: bool)
        ensures
            r == (self@ == CellView::blank()),
    {
        proof {
            reveal_strlit(" ");
            assert(" "@ =~= seq![' ']);
        }
        same_text(self.grapheme.as_str(), " ") && self.fg == Color::Default && self.bg == Color::Default
            && self.underline_color == Color::Default && self.underline_style
            == UnderlineStyle::Off && self.attrs.is_empty() && self.hyperlink_id.is_none()
    }

    /// True if the grapheme takes two columns.
    pub(crate) fn is_wide(&self) -> (r: bool)
        ensures
            r == self@.is_wide(),
            self@ == CellView::blank() ==> !r,
    {
        !self.is_wide_spacer() && display_width(self.grapheme.as_str()) == 2
    }
}

} // verus!
