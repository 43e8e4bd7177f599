//! How many terminal columns text takes.

use unicode_width::UnicodeWidthStr;
use vstd::prelude::*;

verus! {

/// The displayed width of a text in columns, by the Unicode rules of the `unicode-width` crate.
pub uninterp spec fn columns(text: Seq<char>) -> usize;

/// Calls `unicode_width::UnicodeWidthStr::width`. The width depends on the characters alone,
/// and that of the empty text is zero.
#[verifier::external_body]
pub(crate) fn text_columns(text: &str) -> (r: usize)
    ensures
        r == columns(text@),
        text@.len() == 0 ==> r == 0,
{
    text.width()
}

} // verus!
