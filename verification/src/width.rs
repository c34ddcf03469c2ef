//! How many columns a character takes.

use vstd::prelude::*;

verus! {

/// What `unicode_width::UnicodeWidthChar::width` gives for a character.
pub uninterp spec fn unicode_width_of(c: char) -> Option<usize>;

/// Calls `unicode_width::UnicodeWidthChar::width`. The answer depends on the
/// character alone; it is one for printable ASCII, and `None` for the ASCII
/// control characters.
#[verifier::external_body]
fn unicode_width(c: char) -> (w: Option<usize>)
    ensures
        w == unicode_width_of(c),
        ' ' <= c <= '~' ==> w == Some(1usize),
        c < ' ' || c == '\u{7f}' ==> w is None,
{
    unicode_width::UnicodeWidthChar::width(c)
}

/// The columns that a character takes: none for a combining or control
/// character, two for a wide one, and one for any other.
pub open spec fn columns_of(c: char) -> int {
    match unicode_width_of(c) {
        None => 0,
        Some(w) => if w == 0 {
            0
        } else if w == 2 {
            2
        } else {
            1
        },
    }
}

/// The columns that a character takes: none for a combining or control
/// character, two for a wide one, and one for any other.
pub fn char_width(c: char) -> (w: usize)
    ensures
        w == columns_of(c),
        ' ' <= c <= '~' ==> w == 1,
        c < ' ' || c == '\u{7f}' ==> w == 0,
{
    match unicode_width(c) {
        None => 0,
        Some(w) => if w == 0 {
            0
        } else if w == 2 {
            2
        } else {
            1
        },
    }
}

} // verus!
