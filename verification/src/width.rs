//! Display widths of text in terminal columns, as the `unicode-width` crate
//! measures them.
use vstd::prelude::*;
use unicode_width::{UnicodeWidthChar, UnicodeWidthStr};

verus! {

/// The display width of a character (`None` for control characters), a
/// function of the character alone.
pub uninterp spec fn char_columns(c: char) -> Option<usize>;

/// The display width of a string, a function of its characters alone.
pub uninterp spec fn str_columns(s: Seq<char>) -> usize;

/// `UnicodeWidthChar::width` of unicode-width: the result is named by
/// [`char_columns`]; nothing more is claimed about it.
#[verifier::external_body]
pub(crate) fn char_width(c: char) -> (r: Option<usize>)
    ensures
        r == char_columns(c),
{
    UnicodeWidthChar::width(c)
}

/// `UnicodeWidthStr::width` of unicode-width: the result is named by
/// [`str_columns`]; nothing more is claimed about it.
#[verifier::external_body]
pub(crate) fn str_width(s: &str) -> (r: usize)
    ensures
        r == str_columns(s@),
{
    UnicodeWidthStr::width(s)
}

} // verus!
