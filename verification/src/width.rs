//! Display widths.
use vstd::prelude::*;

verus! {

/// The number of columns that `text` takes on a terminal.
pub uninterp spec fn text_width(text: Seq<char>) -> usize;

/// `UnicodeWidthStr::width`: the number of columns of `text`. The empty text takes
/// none, and one printable ASCII character takes one.
#[verifier::external_body]
fn unicode_width_of(text: &str) -> (w: usize)
    ensures
        w == text_width(text@),
        text@.len() == 0 ==> w == 0,
        text@.len() == 1 && ' ' <= text@[0] && text@[0] <= '~' ==> w == 1,
{
    unicode_width::UnicodeWidthStr::width(text)
}

/// The number of columns that `text` takes on a terminal.
pub fn display_width(text: &str) -> (w: usize)
    ensures
        w == text_width(text@),
        text@.len() == 0 ==> w == 0,
        text@.len() == 1 && ' ' <= text@[0] && text@[0] <= '~' ==> w == 1,
{
    unicode_width_of(text)
}

} // verus!
