//! Colours: the table from highlight names to colours, and the flattening
//! of a highlighter's events into one colour for each byte of the source.

use vstd::prelude::*;

verus! {

/// A terminal colour.
#[derive(Clone, Copy, Debug, PartialEq, Eq, Structural)]
pub enum Color {
    White,
    DarkGray,
    Red,
    Green,
    Yellow,
    Blue,
    Magenta,
    Cyan,
    LightRed,
    LightYellow,
}

/// One step of a highlighter's answer.
#[derive(Clone, Copy, Debug, PartialEq, Eq, Structural)]
pub enum HighlightEvent {
    /// The bytes from `start` up to `end` carry the highlight in force.
    Source { start: usize, end: usize },
    /// The highlight with this index in the table of names begins.
    HighlightStart(usize),
    /// The highlight in force ends.
    HighlightEnd,
    /// The highlighter gave up; nothing behind this event counts.
    Failed,
}

/// How many highlight names the table holds.
pub const HIGHLIGHT_COUNT: usize = 31;

/// The highlight name at `index` of the table.
pub open spec fn highlight_name(index: usize) -> Seq<char> {
    match index {
        0 => "keyword"@,
        1 => "function"@,
        2 => "type"@,
        3 => "string"@,
        4 => "number"@,
        5 => "comment"@,
        6 => "variable"@,
        7 => "operator"@,
        8 => "punctuation"@,
        9 => "constant"@,
        10 => "attribute"@,
        11 => "property"@,
        12 => "text.title"@,
        13 => "text.literal"@,
        14 => "text.uri"@,
        15 => "text.reference"@,
        16 => "text.emphasis"@,
        17 => "text.strong"@,
        18 => "punctuation.special"@,
        19 => "punctuation.delimiter"@,
        20 => "string.escape"@,
        21 => "markup.heading"@,
        22 => "markup.link"@,
        23 => "markup.list"@,
        24 => "markup.raw"@,
        25 => "tag"@,
        26 => "label"@,
        27 => "namespace"@,
        28 => "module"@,
        29 => "parameter"@,
        30 => "field"@,
        _ => ""@,
    }
}

/// The colour of the highlight at `index` of the table; white for an index
/// outside it.
pub open spec fn color_of(index: usize) -> Color {
    match index {
        0 => Color::Magenta,
        1 => Color::Blue,
        2 => Color::Yellow,
        3 => Color::Green,
        4 => Color::Cyan,
        5 => Color::DarkGray,
        6 => Color::White,
        7 => Color::Red,
        8 => Color::White,
        9 => Color::Cyan,
        10 => Color::Yellow,
        11 => Color::Blue,
        12 => Color::Yellow,
        13 => Color::Green,
        14 => Color::Cyan,
        15 => Color::Blue,
        16 => Color::LightYellow,
        17 => Color::LightRed,
        18 => Color::Magenta,
        19 => Color::DarkGray,
        20 => Color::Red,
        21 => Color::Yellow,
        22 => Color::Cyan,
        23 => Color::Magenta,
        24 => Color::Green,
        25 => Color::Red,
        26 => Color::Yellow,
        27 => Color::Yellow,
        28 => Color::Yellow,
        29 => Color::White,
        30 => Color::Blue,
        _ => Color::White,
    }
}

/// The colour in force behind the events `ev`: that of the last highlight
/// begun, white once a highlight has ended or where none began.
pub open spec fn active_color(ev: Seq<HighlightEvent>) -> Color
    decreases ev.len(),
{
    if ev.len() == 0 {
        Color::White
    } else {
        match ev.last() {
            HighlightEvent::HighlightStart(h) => color_of(h),
            HighlightEvent::HighlightEnd => Color::White,
            _ => active_color(ev.drop_last()),
        }
    }
}

/// The colour that the events `ev` give byte `i`: the colour in force at
/// the last source range that holds `i`, white where no range does.
pub open spec fn byte_color(ev: Seq<HighlightEvent>, i: int) -> Color
    decreases ev.len(),
{
    if ev.len() == 0 {
        Color::White
    } else {
        match ev.last() {
            HighlightEvent::Source { start, end } => if start <= i < end {
                active_color(ev.drop_last())
            } else {
                byte_color(ev.drop_last(), i)
            },
            _ => byte_color(ev.drop_last(), i),
        }
    }
}

/// The number of events in front of the first failure.
pub open spec fn usable_len(ev: Seq<HighlightEvent>) -> nat
    decreases ev.len(),
{
    if ev.len() == 0 || ev[0] == HighlightEvent::Failed {
        0
    } else {
        1 + usable_len(ev.skip(1))
    }
}

/// The events that count: those in front of the first failure.
pub open spec fn usable_events(ev: Seq<HighlightEvent>) -> Seq<HighlightEvent> {
    ev.take(usable_len(ev) as int)
}

/// The per-byte colours that the events `ev` give a source of `len` bytes.
pub open spec fn painted(ev: Seq<HighlightEvent>, len: nat) -> Seq<Color> {
    Seq::new(len, |i: int| byte_color(usable_events(ev), i))
}

/// A list of names as plain texts.
pub open spec fn names_view(names: Seq<&'static str>) -> Seq<Seq<char>> {
    names.map_values(|n: &'static str| n@)
}

/// The table of highlight names as plain texts.
pub open spec fn name_table() -> Seq<Seq<char>> {
    Seq::new(HIGHLIGHT_COUNT as nat, |i: int| highlight_name(i as usize))
}

/// The table of highlight names, in the order that the colour table and
/// the highlighter's events count them in.
pub fn highlight_names() -> (names: Vec<&'static str>)
    ensures
        names@.len() == HIGHLIGHT_COUNT,
        forall|i: int| 0 <= i < names@.len() ==> (#[trigger] names@[i])@ == highlight_name(i as usize),
        names_view(names@) == name_table(),
{
    let names = vec![
        "keyword",
        "function",
        "type",
        "string",
        "number",
        "comment",
        "variable",
        "operator",
        "punctuation",
        "constant",
        "attribute",
        "property",
        "text.title",
        "text.literal",
        "text.uri",
        "text.reference",
        "text.emphasis",
        "text.strong",
        "punctuation.special",
        "punctuation.delimiter",
        "string.escape",
        "markup.heading",
        "markup.link",
        "markup.list",
        "markup.raw",
        "tag",
        "label",
        "namespace",
        "module",
        "parameter",
        "field",
    ];
    proof {
        assert(names_view(names@) =~= name_table());
    }
    names
}

/// The colour of the highlight at `index` of the table of names.
pub fn highlight_color(index: usize) -> (c: Color)
    ensures
        c == color_of(index),
{
    match index {
        0 => Color::Magenta,
        1 => Color::Blue,
        2 => Color::Yellow,
        3 => Color::Green,
        4 => Color::Cyan,
        5 => Color::DarkGray,
        6 => Color::White,
        7 => Color::Red,
        8 => Color::White,
        9 => Color::Cyan,
        10 => Color::Yellow,
        11 => Color::Blue,
        12 => Color::Yellow,
        13 => Color::Green,
        14 => Color::Cyan,
        15 => Color::Blue,
        16 => Color::LightYellow,
        17 => Color::LightRed,
        18 => Color::Magenta,
        19 => Color::DarkGray,
        20 => Color::Red,
        21 => Color::Yellow,
        22 => Color::Cyan,
        23 => Color::Magenta,
        24 => Color::Green,
        25 => Color::Red,
        26 => Color::Yellow,
        27 => Color::Yellow,
        28 => Color::Yellow,
        29 => Color::White,
        30 => Color::Blue,
        _ => Color::White,
    }
}

/// The first failure stands where the first failing event stands.
proof fn lemma_usable_len_is(ev: Seq<HighlightEvent>, n: nat)
    requires
        n <= ev.len(),
        forall|j: int| 0 <= j < n ==> ev[j] != HighlightEvent::Failed,
        n < ev.len() ==> ev[n as int] == HighlightEvent::Failed,
    ensures
        usable_len(ev) == n,
    decreases n,
{
    if n > 0 {
        let t = ev.skip(1);
        assert forall|j: int| 0 <= j < n - 1 implies t[j] != HighlightEvent::Failed by {
            assert(t[j] == ev[j + 1]);
        }
        if n < ev.len() {
            assert(t[n - 1] == ev[n as int]);
        }
        lemma_usable_len_is(t, (n - 1) as nat);
    }
}

/// Flattens a highlighter's events into one colour for each of the `len`
/// bytes of the source. Events behind a failure are left out, and so is
/// what a source range holds beyond `len`.
pub fn paint_events(events: &Vec<HighlightEvent>, len: usize) -> (colors: Vec<Color>)
    ensures
        colors@ == painted(events@, len as nat),
{
    let mut colors: Vec<Color> = Vec::new();
    let mut k: usize = 0;
    while k < len
        invariant
            k <= len,
            colors@.len() == k,
            forall|i: int| 0 <= i < k ==> colors@[i] == Color::White,
        decreases len - k,
    {
        colors.push(Color::White);
        k = k + 1;
    }
    let mut current = Color::White;
    let mut n: usize = 0;
    let ghost ev = events@;
    while n < events.len()
        invariant
            ev == events@,
            n <= ev.len(),
            colors@.len() == len,
            current == active_color(ev.take(n as int)),
            forall|i: int| 0 <= i < len ==> colors@[i] == byte_color(ev.take(n as int), i),
            forall|j: int| 0 <= j < n ==> ev[j] != HighlightEvent::Failed,
        decreases ev.len() - n,
    {
        let ghost before = ev.take(n as int);
        let ghost after = ev.take(n + 1);
        proof {
            assert(after.drop_last() =~= before);
            assert(after.last() == ev[n as int]);
        }
        match events[n] {
            HighlightEvent::Source { start, end } => {
                let stop = if end < len { end } else { len };
                let mut i: usize = start;
                while i < stop
                    invariant
                        stop <= len,
                        colors@.len() == len,
                        i == start || start <= i <= stop,
                        forall|j: int|
                            0 <= j < len ==> colors@[j] == if start <= j < i {
                                current
                            } else {
                                byte_color(before, j)
                            },
                    decreases stop - i,
                {
                    colors.set(i, current);
                    i = i + 1;
                }
            },
            HighlightEvent::HighlightStart(h) => {
                current = highlight_color(h);
            },
            HighlightEvent::HighlightEnd => {
                current = Color::White;
            },
            HighlightEvent::Failed => {
                proof {
                    lemma_usable_len_is(ev, n as nat);
                }
                assert(colors@ =~= painted(ev, len as nat));
                return colors;
            },
        }
        n = n + 1;
    }
    proof {
        lemma_usable_len_is(ev, n as nat);
        assert(ev.take(n as int) =~= ev);
    }
    assert(colors@ =~= painted(ev, len as nat));
    colors
}

} // verus!
