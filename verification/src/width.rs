//! How many terminal columns text takes, as `unicode-width` measures it.

use unicode_width::{UnicodeWidthChar, UnicodeWidthStr};
use vstd::prelude::*;

verus! {

/// The number of terminal columns that `unicode_width` gives a string.
pub uninterp spec fn str_display_width(s: Seq<char>) -> usize;

/// The number of terminal columns that `unicode_width` gives one character,
/// or `None` for a control character.
pub uninterp spec fn char_display_width(c: char) -> Option<usize>;

/// Whether every character of `s` is printable ASCII (U+0020 to U+007E).
pub open spec fn printable_ascii(s: Seq<char>) -> bool {
    forall|i: int| 0 <= i < s.len() ==> 0x20 <= (#[trigger] s[i] as u32) < 0x7f
}

/// `UnicodeWidthStr::width`: the display width of `s`. The crate's string
/// width is not the sum of the widths of the characters (emoji sequences
/// and "\r\n" are measured as a whole), so beyond the name only this is
/// claimed: as the crate's `str_width` and `width_in_generic` show, every
/// character up to U+00A0 that is not a carriage return before a line feed
/// takes one column, so printable ASCII text is one column per character.
#[verifier::external_body]
pub(crate) fn str_width(s: &str) -> (w: usize)
    ensures
        w == str_display_width(s@),
        printable_ascii(s@) ==> w == s@.len(),
{
    UnicodeWidthStr::width(s)
}

/// `UnicodeWidthChar::width`: the display width of `c`. As the crate's
/// `single_char_width` and `lookup_width` show, characters below U+0020 and
/// from U+007F up to U+00A0 are control characters (`None`), printable ASCII
/// is one column wide, and no character is wider than three columns.
#[verifier::external_body]
pub(crate) fn char_width(c: char) -> (w: Option<usize>)
    ensures
        w == char_display_width(c),
        (c as u32) < 0x20 ==> w is None,
        0x20 <= (c as u32) < 0x7f ==> w == Some(1usize),
        0x7f <= (c as u32) < 0xa0 ==> w is None,
        (c as u32) >= 0xa0 ==> w is Some,
        w matches Some(n) ==> n <= 3,
{
    UnicodeWidthChar::width(c)
}


/// The columns one character takes when text is laid out: a control
/// character takes none.
pub open spec fn columns_of(c: char) -> int {
    match char_display_width(c) {
        Some(w) => w as int,
        None => 0,
    }
}

/// The columns `c` takes when text is laid out.
pub fn column_width(c: char) -> (r: u128)
    ensures
        r == columns_of(c),
        r <= 3,
{
    match char_width(c) {
        Some(v) => v as u128,
        None => 0,
    }
}

} // verus!
