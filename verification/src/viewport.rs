//! The viewport cache: the flattened text of a document, where each of its
//! lines begins, how long the longest is, and a colour for each byte.

use vstd::prelude::*;
use vstd::slice::slice_subrange;
use crate::highlight::Color;
use crate::render::{apply_horizontal_scroll, build_spans_from_colors, colored_spans, spans_view,
    window, RenderedLine, Span};
use crate::width::saturating_sum;
use crate::strings::{byte_len, char_utf8_len, lemma_byte_len_prefix, lemma_byte_len_push,
    str_chars};
use crate::text::{lemma_after_lines_len, lemma_line_prefix, line_chars, lemma_first_line,
    after_lines, lemma_next_line_start, lemma_push_char_line, lemma_push_char_widest,
    lemma_push_newline, lemma_push_plain, line_count, line_len, line_start, newline_count,
    widest_line, widest_upto};

verus! {

/// What was derived from a document when it last changed.
pub struct ViewportCache {
    source: String,
    chars: Vec<char>,
    line_starts: Vec<usize>,
    line_offsets: Vec<usize>,
    max_line_width: usize,
    highlight: Option<Vec<Color>>,
}

impl ViewportCache {
    /// The text that the cache was built from.
    pub closed spec fn text(&self) -> Seq<char> {
        self.chars@
    }

    /// The byte offset at which each line begins.
    pub closed spec fn offsets(&self) -> Seq<usize> {
        self.line_offsets@
    }

    /// The length in characters of the longest line.
    pub closed spec fn widest(&self) -> nat {
        self.max_line_width as nat
    }

    /// The colour of each byte, where the text was highlighted.
    pub closed spec fn colors(&self) -> Option<Seq<Color>> {
        match self.highlight {
            Some(h) => Some(h@),
            None => None,
        }
    }

    /// The cache agrees with its text: one entry for each line, each at the
    /// byte offset of the line's first character.
    pub closed spec fn wf(&self) -> bool {
        let s = self.chars@;
        &&& self.source@ == s
        &&& byte_len(s) <= usize::MAX
        &&& self.line_starts@.len() == line_count(s)
        &&& self.line_offsets@.len() == line_count(s)
        &&& forall|k: int|
            0 <= k < line_count(s) ==> #[trigger] self.line_starts@[k] == line_start(s, k as nat)
        &&& forall|k: int|
            0 <= k < line_count(s) ==> #[trigger] self.line_offsets@[k] == byte_len(
                s.take(line_start(s, k as nat) as int),
            )
        &&& self.max_line_width == widest_line(s)
    }

    /// What a valid cache holds, in terms of its text.
    pub proof fn lemma_wf(&self)
        requires
            self.wf(),
        ensures
            self.offsets().len() == line_count(self.text()),
            forall|k: int|
                0 <= k < line_count(self.text()) ==> #[trigger] self.offsets()[k] == byte_len(
                    self.text().take(line_start(self.text(), k as nat) as int),
                ),
            self.widest() == widest_line(self.text()),
            forall|i: int, j: int|
                0 <= i < j < self.offsets().len() ==> self.offsets()[i] < self.offsets()[j],
    {
        let s = self.text();
        assert forall|i: int, j: int| 0 <= i < j < self.offsets().len() implies self.offsets()[i]
            < self.offsets()[j] by {
            lemma_offsets_increase(s, i as nat, j as nat);
        }
    }

    /// The cache of the empty document.
    pub fn new() -> (c: ViewportCache)
        ensures
            c.wf(),
            c.text() == Seq::<char>::empty(),
            c.colors() is None,
    {
        ViewportCache::build(String::new(), None)
    }

    /// Builds the cache for `source` in one pass over its characters, up
    /// to its last byte. `highlight` is kept as it is given.
    pub fn build(source: String, highlight: Option<Vec<Color>>) -> (c: ViewportCache)
        ensures
            c.wf(),
            c.text() == source@,
            c.colors() == match highlight {
                Some(h) => Some(h@),
                None => None,
            },
    {
        let chars = str_chars(source.as_str());
        let total_bytes = source.as_str().as_bytes().len();
        let ghost s = chars@;
        assert(byte_len(s) == total_bytes);
        let mut line_starts: Vec<usize> = Vec::new();
        let mut line_offsets: Vec<usize> = Vec::new();
        line_starts.push(0);
        line_offsets.push(0);
        let mut widest: usize = 0;
        let mut open: usize = 0;
        let mut byte_pos: usize = 0;
        let mut n: usize = 0;
        proof {
            assert(s.take(0) =~= Seq::<char>::empty());
            assert(byte_len(s.take(0)) == 0);
        }
        while byte_pos < total_bytes
            invariant
                s == chars@,
                byte_len(s) == total_bytes,
                n <= s.len(),
                byte_pos == byte_len(s.take(n as int)),
                n <= byte_pos,
                line_starts@.len() == line_count(s.take(n as int)),
                line_offsets@.len() == line_starts@.len(),
                forall|k: int|
                    0 <= k < line_starts@.len() ==> #[trigger] line_starts@[k] == line_start(
                        s.take(n as int),
                        k as nat,
                    ),
                forall|k: int|
                    0 <= k < line_starts@.len() ==> (#[trigger] line_starts@[k]) <= n,
                forall|k: int|
                    0 <= k < line_starts@.len() ==> #[trigger] line_offsets@[k] == byte_len(
                        s.take(line_starts@[k] as int),
                    ),
                open == line_len(s.take(n as int), newline_count(s.take(n as int))),
                open <= n,
                widest == widest_upto(s.take(n as int), newline_count(s.take(n as int))),
                widest <= n,
            decreases s.len() - n,
        {
            proof {
                if n == s.len() {
                    assert(s.take(n as int) =~= s);
                }
            }
            let c = chars[n];
            let ghost u = s.take(n as int);
            let ghost u2 = s.take(n + 1);
            proof {
                assert(u2 =~= u.push(c));
                lemma_byte_len_push(u, c);
                lemma_byte_len_prefix(s, n + 1);
                lemma_push_char_widest(u, c, newline_count(u));
                lemma_push_char_line(u, c, newline_count(u));
                assert forall|k: int| 0 <= k < line_starts@.len() implies #[trigger] line_starts@[k]
                    == line_start(u2, k as nat) by {
                    lemma_push_char_line(u, c, k as nat);
                }
            }
            byte_pos = byte_pos + char_utf8_len(c);
            if c == '\n' {
                proof {
                    lemma_push_newline(u);
                }
                if open > widest {
                    widest = open;
                }
                line_starts.push(n + 1);
                line_offsets.push(byte_pos);
                open = 0;
            } else {
                proof {
                    lemma_push_plain(u, c);
                }
                open = open + 1;
            }
            n = n + 1;
        }
        if open > widest {
            widest = open;
        }
        proof {
            if n < s.len() {
                lemma_more_bytes_ahead(s, n as int);
            }
            assert(s.take(n as int) =~= s);
        }
        ViewportCache {
            source,
            chars,
            line_starts,
            line_offsets,
            max_line_width: widest,
            highlight,
        }
    }
    /// The number of lines of the cached text.
    pub fn line_count(&self) -> (n: usize)
        requires
            self.wf(),
        ensures
            n == line_count(self.text()),
    {
        self.line_starts.len()
    }

    /// The length in characters of the longest line.
    pub fn max_line_width(&self) -> (n: usize)
        requires
            self.wf(),
        ensures
            n == widest_line(self.text()),
    {
        self.max_line_width
    }

    /// The flattened text.
    pub fn source(&self) -> (s: &str)
        requires
            self.wf(),
        ensures
            s@ == self.text(),
    {
        self.source.as_str()
    }

    /// The number of bytes that have a colour, where the text was
    /// highlighted.
    pub fn highlight_len(&self) -> (n: Option<usize>)
        ensures
            n == match self.colors() {
                Some(c) => Some(c.len() as usize),
                None => None,
            },
    {
        match &self.highlight {
            Some(h) => Some(h.len()),
            None => None,
        }
    }

    /// The byte offset at which line `line_idx` begins.
    pub fn line_offset(&self, line_idx: usize) -> (r: Option<usize>)
        requires
            self.wf(),
        ensures
            r == if line_idx < line_count(self.text()) {
                Some(self.offsets()[line_idx as int])
            } else {
                None
            },
    {
        if line_idx < self.line_offsets.len() {
            Some(self.line_offsets[line_idx])
        } else {
            None
        }
    }

    /// The characters of line `line_idx`, its line feed left out, and the
    /// byte offset at which the line begins; `None` when there is no such
    /// line.
    pub fn get_line_from_cache(&self, line_idx: usize) -> (r: Option<(&[char], usize)>)
        requires
            self.wf(),
        ensures
            match r {
                Some((line, offset)) => line_idx < line_count(self.text()) && line@ == line_chars(
                    self.text(),
                    line_idx as nat,
                ) && offset == byte_len(
                    self.text().take(line_start(self.text(), line_idx as nat) as int),
                ),
                None => line_idx >= line_count(self.text()),
            },
            r is Some ==> line_idx < usize::MAX,
    {
        if line_idx >= self.line_starts.len() {
            return None;
        }
        let ghost s = self.chars@;
        let ghost k = line_idx as nat;
        proof {
            lemma_next_line_start(s, k);
            lemma_line_prefix(s, k);
            lemma_after_lines_len(s, k);
            lemma_first_line(after_lines(s, k));
        }
        let start = self.line_starts[line_idx];
        let end = if line_idx + 1 < self.line_starts.len() {
            self.line_starts[line_idx + 1] - 1
        } else {
            self.chars.len()
        };
        let line = slice_subrange(self.chars.as_slice(), start, end);
        proof {
            assert(line@ =~= line_chars(s, k));
        }
        Some((line, self.line_offsets[line_idx]))
    }

    /// The rows of the editor: `visible_height` of them, the first showing
    /// the line at `scroll_offset`, each cut to `content_width` columns
    /// behind `horizontal_scroll`.
    pub fn get_highlighted_lines(
        &self,
        visible_height: usize,
        content_width: usize,
        scroll_offset: usize,
        horizontal_scroll: usize,
    ) -> (rows: Vec<RenderedLine>)
        requires
            self.wf(),
        ensures
            rows@.len() == visible_height,
            forall|i: int|
                0 <= i < visible_height ==> (#[trigger] rows@[i])@ == rendered_row(
                    self.text(),
                    self.colors(),
                    scroll_offset + i,
                    horizontal_scroll as nat,
                    content_width as nat,
                ),
    {
        let mut rows: Vec<RenderedLine> = Vec::new();
        let mut i: usize = 0;
        while i < visible_height
            invariant
                self.wf(),
                i <= visible_height,
                rows@.len() == i,
                forall|r: int|
                    0 <= r < i ==> (#[trigger] rows@[r])@ == rendered_row(
                        self.text(),
                        self.colors(),
                        scroll_offset + r,
                        horizontal_scroll as nat,
                        content_width as nat,
                    ),
            decreases visible_height - i,
        {
            let line_idx = saturating_sum(scroll_offset, i);
            let row = match self.get_line_from_cache(line_idx) {
                Some((line, offset)) => {
                    let spans = match &self.highlight {
                        Some(colors) => build_spans_from_colors(
                            line,
                            offset,
                            colors.as_slice(),
                            horizontal_scroll,
                            content_width,
                        ),
                        None => {
                            let plain = Span {
                                text: apply_horizontal_scroll(
                                    line,
                                    horizontal_scroll,
                                    content_width,
                                ),
                                color: None,
                            };
                            let mut one: Vec<Span> = Vec::new();
                            one.push(plain);
                            proof {
                                assert(spans_view(one@) =~= seq![plain@]);
                            }
                            one
                        },
                    };
                    RenderedLine { number: Some(line_idx + 1), spans }
                },
                None => {
                    let none: Vec<Span> = Vec::new();
                    proof {
                        assert(spans_view(none@) =~= Seq::empty());
                    }
                    RenderedLine { number: None, spans: none }
                },
            };
            rows.push(row);
            i = i + 1;
        }
        rows
    }
}

/// What the row that shows line `line_idx` holds: the line's number and
/// the visible part of its text, in coloured spans where the text was
/// highlighted and in one plain span where it was not; no number and no
/// text below the last line.
pub open spec fn rendered_row(
    text: Seq<char>,
    colors: Option<Seq<Color>>,
    line_idx: int,
    hscroll: nat,
    width: nat,
) -> (Option<usize>, Seq<(Seq<char>, Option<Color>)>) {
    if 0 <= line_idx < line_count(text) {
        let line = line_chars(text, line_idx as nat);
        (
            Some((line_idx + 1) as usize),
            match colors {
                Some(c) => colored_spans(
                    line,
                    byte_len(text.take(line_start(text, line_idx as nat) as int)) as int,
                    c,
                    hscroll,
                    width,
                ),
                None => seq![(window(line, hscroll, width), None)],
            },
        )
    } else {
        (None, Seq::empty())
    }
}

/// In front of a character that is still to come lie fewer bytes than the
/// text has.
pub proof fn lemma_more_bytes_ahead(s: Seq<char>, n: int)
    requires
        0 <= n < s.len(),
    ensures
        byte_len(s.take(n)) < byte_len(s),
{
    assert(s.take(n + 1) =~= s.take(n).push(s[n]));
    lemma_byte_len_push(s.take(n), s[n]);
    lemma_byte_len_prefix(s, n + 1);
}

/// Lines begin one behind the other.
pub proof fn lemma_starts_increase(s: Seq<char>, i: nat, j: nat)
    requires
        i < j < line_count(s),
    ensures
        line_start(s, i) < line_start(s, j),
        line_start(s, j) <= s.len(),
    decreases j,
{
    lemma_next_line_start(s, (j - 1) as nat);
    crate::text::lemma_after_lines_len(s, j);
    if i < j - 1 {
        lemma_starts_increase(s, i, (j - 1) as nat);
    }
}

/// The byte offsets of the lines grow from line to line.
pub proof fn lemma_offsets_increase(s: Seq<char>, i: nat, j: nat)
    requires
        i < j < line_count(s),
    ensures
        byte_len(s.take(line_start(s, i) as int)) < byte_len(s.take(line_start(s, j) as int)),
{
    lemma_starts_increase(s, i, j);
    let a = line_start(s, i) as int;
    let b = line_start(s, j) as int;
    let head = s.take(b);
    assert(head.take(a) =~= s.take(a));
    assert(head =~= head.take(a) + head.skip(a));
    crate::strings::lemma_byte_len_concat(head.take(a), head.skip(a));
    let rest = head.skip(a);
    assert(rest.len() > 0);
    assert(vstd::utf8::encode_utf8(rest) =~= vstd::utf8::encode_scalar(rest[0] as u32)
        + vstd::utf8::encode_utf8(rest.drop_first()));
}

} // verus!
