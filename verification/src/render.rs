//! Turning cached lines into coloured spans for the screen.

use vstd::prelude::*;
use crate::highlight::Color;
use crate::strings::{byte_len, char_utf8_len, lemma_byte_len_push};
use crate::width::{capped, saturating_sum};

verus! {

/// A run of characters in one colour; `None` for text without a colour.
#[derive(Debug)]
pub struct Span {
    pub text: Vec<char>,
    pub color: Option<Color>,
}

impl View for Span {
    type V = (Seq<char>, Option<Color>);

    open spec fn view(&self) -> (Seq<char>, Option<Color>) {
        (self.text@, self.color)
    }
}

/// One row of the editor: the number of the line that it shows, or `None`
/// for a row below the last line, and the spans of its visible text.
#[derive(Debug)]
pub struct RenderedLine {
    pub number: Option<usize>,
    pub spans: Vec<Span>,
}

impl View for RenderedLine {
    type V = (Option<usize>, Seq<(Seq<char>, Option<Color>)>);

    open spec fn view(&self) -> (Option<usize>, Seq<(Seq<char>, Option<Color>)>) {
        (self.number, spans_view(self.spans@))
    }
}

/// The spans of a vector, each as its text and colour.
pub open spec fn spans_view(v: Seq<Span>) -> Seq<(Seq<char>, Option<Color>)> {
    v.map_values(|s: Span| s@)
}

/// The colour at byte `pos`; white where the table has no such byte.
pub open spec fn cell_color(colors: Seq<Color>, pos: int) -> Color {
    if 0 <= pos < colors.len() {
        colors[pos]
    } else {
        Color::White
    }
}

/// The first character of a line of `len` characters that a view scrolled
/// by `hscroll` shows.
pub open spec fn window_start(len: nat, hscroll: nat) -> int {
    if hscroll < len {
        hscroll as int
    } else {
        len as int
    }
}

/// One past the last character that a view of `width` columns shows.
pub open spec fn window_end(len: nat, hscroll: nat, width: nat) -> int {
    if hscroll + width < len {
        (hscroll + width) as int
    } else {
        len as int
    }
}

/// The characters of `line` that a view of `width` columns scrolled by
/// `hscroll` shows.
pub open spec fn window(line: Seq<char>, hscroll: nat, width: nat) -> Seq<char> {
    line.subrange(window_start(line.len(), hscroll), window_end(line.len(), hscroll, width))
}

/// The colour of character `j` of a line whose first byte is byte `base` of
/// the source: the colour of the character's first byte.
pub open spec fn char_color(line: Seq<char>, base: int, colors: Seq<Color>, j: int) -> Color {
    cell_color(colors, base + byte_len(line.take(j)))
}

/// The characters `from..to` of `line` cut into the longest runs of one
/// colour.
pub open spec fn runs(line: Seq<char>, base: int, colors: Seq<Color>, from: int, to: int) -> Seq<
    (Seq<char>, Option<Color>),
>
    decreases to - from,
{
    if to <= from {
        Seq::empty()
    } else {
        let prev = runs(line, base, colors, from, to - 1);
        let col = Some(char_color(line, base, colors, to - 1));
        let ch = line[to - 1];
        if prev.len() > 0 && prev.last().1 == col {
            prev.drop_last().push((prev.last().0.push(ch), col))
        } else {
            prev.push((seq![ch], col))
        }
    }
}

/// The visible part of `line` as coloured spans.
pub open spec fn colored_spans(
    line: Seq<char>,
    base: int,
    colors: Seq<Color>,
    hscroll: nat,
    width: nat,
) -> Seq<(Seq<char>, Option<Color>)> {
    runs(
        line,
        base,
        colors,
        window_start(line.len(), hscroll),
        window_end(line.len(), hscroll, width),
    )
}

/// The visible part of `line_text`: what is left of it behind the first
/// `horizontal_scroll` characters, cut to `visible_width` characters.
pub fn apply_horizontal_scroll(line_text: &[char], horizontal_scroll: usize, visible_width: usize)
    -> (shown: Vec<char>)
    ensures
        shown@ == window(line_text@, horizontal_scroll as nat, visible_width as nat),
{
    let len = line_text.len();
    let mut shown: Vec<char> = Vec::new();
    if horizontal_scroll >= len {
        assert(shown@ =~= window(line_text@, horizontal_scroll as nat, visible_width as nat));
        return shown;
    }
    let end = if visible_width < len - horizontal_scroll {
        horizontal_scroll + visible_width
    } else {
        len
    };
    let mut j: usize = horizontal_scroll;
    while j < end
        invariant
            horizontal_scroll <= j <= end <= len,
            len == line_text@.len(),
            shown@ == line_text@.subrange(horizontal_scroll as int, j as int),
        decreases end - j,
    {
        shown.push(line_text[j]);
        proof {
            assert(line_text@.subrange(horizontal_scroll as int, j + 1) =~= line_text@.subrange(
                horizontal_scroll as int,
                j as int,
            ).push(line_text@[j as int]));
        }
        j = j + 1;
    }
    shown
}

/// The visible part of `line_text` as spans, one for each longest run of
/// characters in one colour. `line_start` is the byte offset of the line in
/// the source that `colors` was made for, and a character has the colour
/// of its first byte.
pub fn build_spans_from_colors(
    line_text: &[char],
    line_start: usize,
    colors: &[Color],
    horizontal_scroll: usize,
    visible_width: usize,
) -> (spans: Vec<Span>)
    ensures
        spans_view(spans@) == colored_spans(
            line_text@,
            line_start as int,
            colors@,
            horizontal_scroll as nat,
            visible_width as nat,
        ),
{
    let len = line_text.len();
    let ghost line = line_text@;
    let ghost base = line_start as int;
    let from = if horizontal_scroll < len { horizontal_scroll } else { len };
    let to = if horizontal_scroll < len && visible_width < len - horizontal_scroll {
        horizontal_scroll + visible_width
    } else {
        len
    };
    let mut spans: Vec<Span> = Vec::new();
    let mut text: Vec<char> = Vec::new();
    let mut color = Color::White;
    let mut byte_pos: usize = line_start;
    let mut j: usize = 0;
    proof {
        assert(line.take(0) =~= Seq::<char>::empty());
        assert(byte_len(line.take(0)) == 0);
        assert(spans_view(spans@) =~= Seq::empty());
    }
    while j < to
        invariant
            line == line_text@,
            len == line.len(),
            base == line_start,
            from == window_start(line.len(), horizontal_scroll as nat),
            to == window_end(line.len(), horizontal_scroll as nat, visible_width as nat),
            from <= to <= len,
            j <= to,
            byte_pos == capped((base + byte_len(line.take(j as int))) as nat),
            j <= from ==> text@.len() == 0 && spans@.len() == 0,
            j > from ==> text@.len() > 0 && spans_view(spans@).push((text@, Some(color))) == runs(
                line,
                base,
                colors@,
                from as int,
                j as int,
            ),
        decreases to - j,
    {
        let ch = line_text[j];
        proof {
            assert(line.take(j + 1) =~= line.take(j as int).push(ch));
            lemma_byte_len_push(line.take(j as int), ch);
        }
        if j >= from {
            let here = if byte_pos < colors.len() { colors[byte_pos] } else { Color::White };
            assert(here == char_color(line, base, colors@, j as int));
            if text.len() == 0 {
                color = here;
                text.push(ch);
                proof {
                    assert(runs(line, base, colors@, from as int, from as int) =~= Seq::empty());
                    assert(spans_view(spans@) =~= Seq::empty());
                    assert(text@ =~= seq![ch]);
                }
            } else if here == color {
                let ghost before = text@;
                text.push(ch);
                proof {
                    let prev = runs(line, base, colors@, from as int, j as int);
                    assert(prev.last() == (before, Some(color)));
                    assert(prev.drop_last() =~= spans_view(spans@));
                }
            } else {
                let ghost before = spans@;
                let mut fresh: Vec<char> = Vec::new();
                fresh.push(ch);
                let full = Span { text, color: Some(color) };
                spans.push(full);
                text = fresh;
                color = here;
                proof {
                    assert(spans_view(spans@) =~= spans_view(before).push(full@));
                    assert(text@ =~= seq![ch]);
                }
            }
        }
        byte_pos = saturating_sum(byte_pos, char_utf8_len(ch));
        j = j + 1;
    }
    if text.len() > 0 {
        let ghost before = spans@;
        let last = Span { text, color: Some(color) };
        spans.push(last);
        proof {
            assert(spans_view(spans@) =~= spans_view(before).push(last@));
        }
    } else {
        proof {
            assert(spans_view(spans@) =~= Seq::empty());
        }
    }
    spans
}

} // verus!
