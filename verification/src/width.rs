//! Display width: how many terminal columns a character takes.

use vstd::prelude::*;
use unicode_width::UnicodeWidthChar;

verus! {

/// What `UnicodeWidthChar::width` returns for a character: its width in
/// columns, or `None` for a control character.
pub uninterp spec fn unicode_width(c: char) -> Option<usize>;

/// `UnicodeWidthChar::width`: the width that the Unicode tables give a
/// character. Nothing is claimed of it but that it depends on the character
/// alone.
#[verifier::external_body]
pub(crate) fn lookup_width(c: char) -> (w: Option<usize>)
    ensures
        w == unicode_width(c),
{
    UnicodeWidthChar::width(c)
}

/// The columns that a character takes on screen; a character without a
/// width of its own counts as one column.
pub open spec fn char_cols(c: char) -> nat {
    match unicode_width(c) {
        Some(w) => w as nat,
        None => 1,
    }
}

/// The columns that a run of characters takes on screen.
pub open spec fn display_width(s: Seq<char>) -> nat
    decreases s.len(),
{
    if s.len() == 0 {
        0
    } else {
        display_width(s.drop_last()) + char_cols(s.last())
    }
}

/// The character column that a click at display column `dc` falls on: the
/// characters are walked from the left, and the walk stops in front of the
/// first one that would carry the width past `dc`.
pub open spec fn click_column(line: Seq<char>, dc: nat) -> nat
    decreases line.len(),
{
    if line.len() == 0 || char_cols(line[0]) > dc {
        0
    } else {
        1 + click_column(line.skip(1), (dc - char_cols(line[0])) as nat)
    }
}

/// The columns that `c` takes on screen.
pub fn char_columns(c: char) -> (w: usize)
    ensures
        w == char_cols(c),
{
    match lookup_width(c) {
        Some(w) => w,
        None => 1,
    }
}

/// `a + b`, held at the largest `usize` where the sum would pass it.
pub fn saturating_sum(a: usize, b: usize) -> (r: usize)
    ensures
        r == if a + b <= usize::MAX {
            a + b
        } else {
            usize::MAX as int
        },
{
    if a > usize::MAX - b {
        usize::MAX
    } else {
        a + b
    }
}

/// A natural number brought down to what a `usize` holds.
pub open spec fn capped(n: nat) -> usize {
    if n <= usize::MAX {
        n as usize
    } else {
        usize::MAX
    }
}

} // verus!
