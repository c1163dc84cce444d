//! The text buffer: a rope seen as a sequence of characters.

use vstd::prelude::*;
use crate::rope::{rope_text, rope_new, rope_from_str, rope_clone, rope_len_chars, rope_len_lines, rope_line_to_char, rope_char, rope_insert_char, rope_remove, rope_to_string};
use crate::text::{line_count, line_start, line_len, newline_count, after_lines, lemma_after_lines_len, lemma_next_line_start, lemma_line_prefix, lemma_first_line};

verus! {

/// An editable document. Every index is a character index.
pub struct TextBuffer {
    rope: ropey::Rope,
}

impl View for TextBuffer {
    type V = Seq<char>;

    closed spec fn view(&self) -> Seq<char> {
        rope_text(self.rope)
    }
}

impl TextBuffer {
    /// The empty buffer.
    pub fn new() -> (b: TextBuffer)
        ensures
            b@ == Seq::<char>::empty(),
    {
        TextBuffer { rope: rope_new() }
    }

    /// A buffer that holds `text`.
    pub fn from_str(text: &str) -> (b: TextBuffer)
        ensures
            b@ == text@,
    {
        TextBuffer { rope: rope_from_str(text) }
    }

    /// A second buffer with the same characters.
    pub fn snapshot(&self) -> (b: TextBuffer)
        ensures
            b@ == self@,
    {
        TextBuffer { rope: rope_clone(&self.rope) }
    }

    /// The number of characters.
    pub fn len_chars(&self) -> (n: usize)
        ensures
            n == self@.len(),
    {
        rope_len_chars(&self.rope)
    }

    /// The number of lines, which is at least one.
    pub fn len_lines(&self) -> (n: usize)
        ensures
            n == line_count(self@),
            n >= 1,
    {
        rope_len_lines(&self.rope)
    }

    /// The character index at which line `line_idx` begins, or `None` when
    /// the buffer has no such line.
    pub fn line_to_char(&self, line_idx: usize) -> (r: Option<usize>)
        ensures
            match r {
                Some(i) => line_idx < line_count(self@) && i == line_start(self@, line_idx as nat),
                None => line_idx >= line_count(self@),
            },
            r is Some ==> self@.len() <= usize::MAX,
    {
        if line_idx < rope_len_lines(&self.rope) {
            Some(rope_line_to_char(&self.rope, line_idx))
        } else {
            None
        }
    }

    /// The character at `index`, or `None` when `index` is not below the
    /// number of characters.
    pub fn char_at(&self, index: usize) -> (r: Option<char>)
        ensures
            r == if index < self@.len() {
                Some(self@[index as int])
            } else {
                None
            },
    {
        if index < rope_len_chars(&self.rope) {
            Some(rope_char(&self.rope, index))
        } else {
            None
        }
    }

    /// The length of line `line_idx` in characters, its line feed not
    /// counted; 0 when the buffer has no such line.
    pub fn line_len(&self, line_idx: usize) -> (n: usize)
        ensures
            n == if line_idx < line_count(self@) {
                line_len(self@, line_idx as nat)
            } else {
                0
            },
            line_idx < line_count(self@) ==> line_start(self@, line_idx as nat) + n
                <= self@.len() <= usize::MAX,
    {
        if line_idx >= rope_len_lines(&self.rope) {
            return 0;
        }
        proof {
            lemma_next_line_start(self@, line_idx as nat);
            lemma_after_lines_len(self@, line_idx as nat);
            lemma_after_lines_len(self@, (line_idx + 1) as nat);
        }
        let start = rope_line_to_char(&self.rope, line_idx);
        let next = rope_line_to_char(&self.rope, line_idx + 1);
        let len = next - start;
        if len > 0 && rope_char(&self.rope, next - 1) == '\n' {
            proof {
                if line_idx == newline_count(self@) {
                    lemma_line_prefix(self@, line_idx as nat);
                    let t = after_lines(self@, line_idx as nat);
                    lemma_first_line(t);
                    assert(t[len - 1] == self@[next - 1]);
                }
            }
            len - 1
        } else {
            proof {
                if line_idx < newline_count(self@) {
                    assert(self@[next - 1] == '\n');
                }
            }
            len
        }
    }

    /// Puts `ch` in front of the character at `index`; at the end when
    /// `index` is not below the number of characters.
    pub fn insert(&mut self, index: usize, ch: char)
        ensures
            final(self)@ == old(self)@.insert(
                if index <= old(self)@.len() {
                    index as int
                } else {
                    old(self)@.len() as int
                },
                ch,
            ),
            final(self)@.len() <= usize::MAX,
    {
        let len = rope_len_chars(&self.rope);
        let at = if index <= len { index } else { len };
        rope_insert_char(&mut self.rope, at, ch);
    }

    /// Takes out the characters from `start` up to, not including, `end`.
    /// Both are first brought down to the number of characters, and an
    /// empty or reversed range takes out nothing.
    pub fn remove(&mut self, start: usize, end: usize)
        ensures
            final(self)@ == removed(old(self)@, start as int, end as int),
    {
        let len = rope_len_chars(&self.rope);
        let e = if end <= len { end } else { len };
        if start < e {
            rope_remove(&mut self.rope, start, e);
        }
    }

    /// The whole text as one string.
    pub fn to_string(&self) -> (s: String)
        ensures
            s@ == self@,
    {
        rope_to_string(&self.rope)
    }
}

/// `s` without the characters from `start` up to, not including, `end`, both
/// brought down to the length of `s`; `s` itself when that leaves nothing to
/// take out.
pub open spec fn removed(s: Seq<char>, start: int, end: int) -> Seq<char> {
    let e = if end <= s.len() { end } else { s.len() as int };
    if 0 <= start < e {
        s.take(start) + s.skip(e)
    } else {
        s
    }
}

} // verus!
