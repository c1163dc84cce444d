//! The rope that holds a document, and what this library relies on of it.
//!
//! Nothing in this file is proved: each contract restates what the rope's
//! own documentation and source say of the method that the body calls.

use vstd::prelude::*;
use crate::text::{line_count, line_start};

verus! {

/// `ropey::Rope`, known to the verifier as a type and no further.
#[verifier::external_type_specification]
#[verifier::external_body]
pub struct ExRope(ropey::Rope);

/// The characters that a rope holds, in order.
pub uninterp spec fn rope_text(r: ropey::Rope) -> Seq<char>;

/// `Rope::new`: a rope that holds no character.
#[verifier::external_body]
pub(crate) fn rope_new() -> (r: ropey::Rope)
    ensures
        rope_text(r) == Seq::<char>::empty(),
{
    ropey::Rope::new()
}

/// `Rope::from_str`: a rope that holds the characters of `text`.
#[verifier::external_body]
pub(crate) fn rope_from_str(text: &str) -> (r: ropey::Rope)
    ensures
        rope_text(r) == text@,
{
    ropey::Rope::from_str(text)
}

/// `Rope::clone`: a rope with the same characters.
#[verifier::external_body]
pub(crate) fn rope_clone(r: &ropey::Rope) -> (c: ropey::Rope)
    ensures
        rope_text(c) == rope_text(*r),
{
    r.clone()
}

/// `Rope::len_chars`: the number of characters.
#[verifier::external_body]
pub(crate) fn rope_len_chars(r: &ropey::Rope) -> (n: usize)
    ensures
        n == rope_text(*r).len(),
{
    r.len_chars()
}

/// `Rope::len_lines`: the number of line breaks plus one. The crate is built
/// without its optional line-break features, so the line feed is the only
/// line break that it counts.
#[verifier::external_body]
pub(crate) fn rope_len_lines(r: &ropey::Rope) -> (n: usize)
    ensures
        n == line_count(rope_text(*r)),
{
    r.len_lines()
}

/// `Rope::line_to_char`: the character index at which a line begins; for
/// the index one past the last line, the number of characters, which the
/// rope counts in a `usize`. It panics for a larger index, which `requires`
/// leaves out.
#[verifier::external_body]
pub(crate) fn rope_line_to_char(r: &ropey::Rope, line_idx: usize) -> (n: usize)
    requires
        line_idx <= line_count(rope_text(*r)),
    ensures
        n == line_start(rope_text(*r), line_idx as nat),
        n <= rope_text(*r).len() <= usize::MAX,
{
    r.line_to_char(line_idx)
}

/// `Rope::char`: the character at an index. It panics for an index that is
/// not below the number of characters, which `requires` leaves out.
#[verifier::external_body]
pub(crate) fn rope_char(r: &ropey::Rope, char_idx: usize) -> (c: char)
    requires
        char_idx < rope_text(*r).len(),
    ensures
        c == rope_text(*r)[char_idx as int],
{
    r.char(char_idx)
}

/// `Rope::insert_char`: puts one character in front of the character at
/// `char_idx`, or at the end; the rope counts its characters in a `usize`
/// afterwards as before. It panics for an index beyond the number of
/// characters, which `requires` leaves out.
#[verifier::external_body]
pub(crate) fn rope_insert_char(r: &mut ropey::Rope, char_idx: usize, ch: char)
    requires
        char_idx <= rope_text(*old(r)).len(),
    ensures
        rope_text(*final(r)) == rope_text(*old(r)).insert(char_idx as int, ch),
        rope_text(*final(r)).len() <= usize::MAX,
{
    r.insert_char(char_idx, ch)
}

/// `Rope::remove`, called with the half-open range from `start` to `end`:
/// takes those characters out. It panics where the start is beyond the end
/// or the end beyond the number of characters, which `requires` leaves out.
#[verifier::external_body]
pub(crate) fn rope_remove(r: &mut ropey::Rope, start: usize, end: usize)
    requires
        start <= end <= rope_text(*old(r)).len(),
    ensures
        rope_text(*final(r)) == rope_text(*old(r)).take(start as int) + rope_text(*old(r)).skip(
            end as int,
        ),
{
    r.remove(start..end)
}

/// `String::from` on a rope: the rope's characters, chunk after chunk, as
/// one contiguous text.
#[verifier::external_body]
pub(crate) fn rope_to_string(r: &ropey::Rope) -> (s: String)
    ensures
        s@ == rope_text(*r),
{
    String::from(r)
}

} // verus!
