//! Display width of text in terminal columns, as `unicode-width` measures it.
use vstd::prelude::*;

verus! {

/// The columns that `unicode-width` gives a character (`None` for a control
/// character).
pub uninterp spec fn char_columns(c: char) -> Option<usize>;

/// The columns that `unicode-width` gives a string. It is not the sum of the
/// characters' widths: emoji sequences and variation selectors change it.
pub uninterp spec fn str_columns(s: Seq<char>) -> usize;

/// Calls `UnicodeWidthChar::width`. Beside naming the result, the contract
/// states what the crate's source fixes without its tables: printable ASCII is
/// one column, the C0 and C1 control characters have no width, and every other
/// character has a width of at most three columns.
#[verifier::external_body]
pub(crate) fn char_width(c: char) -> (r: Option<usize>)
    ensures
        r == char_columns(c),
        0x20 <= (c as u32) < 0x7f ==> r == Some(1usize),
        (c as u32) < 0x20 || (0x7f <= (c as u32) < 0xa0) ==> r is None,
        (c as u32) >= 0xa0 ==> (r is Some && r->0 <= 3),
{
    unicode_width::UnicodeWidthChar::width(c)
}

/// Calls `UnicodeWidthStr::width`; the contract names the result and states
/// that the empty string is zero columns wide.
#[verifier::external_body]
pub(crate) fn str_width(s: &str) -> (r: usize)
    ensures
        r == str_columns(s@),
        s@.len() == 0 ==> r == 0,
{
    unicode_width::UnicodeWidthStr::width(s)
}

/// Columns of a character as the interface counts them: a control character
/// counts as zero.
pub open spec fn columns_or_zero(c: char) -> nat {
    match char_columns(c) {
        Some(w) => w as nat,
        None => 0,
    }
}

/// The columns of a character, zero for a control character.
pub fn columns_of(c: char) -> (w: usize)
    ensures
        w == columns_or_zero(c),
        w <= 3,
{
    match char_width(c) {
        Some(w) => {
            if (c as u32) < 0xa0 {
                assert(w == 1);
            }
            w
        },
        None => 0,
    }
}

} // verus!
