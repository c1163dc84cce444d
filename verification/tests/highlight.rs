use simplide::highlight::{highlight_color, highlight_names, paint_events, Color, HighlightEvent, HIGHLIGHT_COUNT};
use simplide::render::{apply_horizontal_scroll, build_spans_from_colors, Span};
use simplide::strings::{char_utf8_len, same_text};
use simplide::viewport::ViewportCache;

fn text_of(span: &Span) -> String {
    span.text.iter().collect()
}

#[test]
fn every_name_has_its_colour() {
    let names = highlight_names();
    assert_eq!(names.len(), HIGHLIGHT_COUNT);
    assert_eq!(names.len(), 31);
    let expected = [
        ("keyword", Color::Magenta),
        ("function", Color::Blue),
        ("type", Color::Yellow),
        ("string", Color::Green),
        ("number", Color::Cyan),
        ("comment", Color::DarkGray),
        ("variable", Color::White),
        ("operator", Color::Red),
        ("punctuation", Color::White),
        ("constant", Color::Cyan),
        ("attribute", Color::Yellow),
        ("property", Color::Blue),
        ("text.title", Color::Yellow),
        ("text.literal", Color::Green),
        ("text.uri", Color::Cyan),
        ("text.reference", Color::Blue),
        ("text.emphasis", Color::LightYellow),
        ("text.strong", Color::LightRed),
        ("punctuation.special", Color::Magenta),
        ("punctuation.delimiter", Color::DarkGray),
        ("string.escape", Color::Red),
        ("markup.heading", Color::Yellow),
        ("markup.link", Color::Cyan),
        ("markup.list", Color::Magenta),
        ("markup.raw", Color::Green),
        ("tag", Color::Red),
        ("label", Color::Yellow),
        ("namespace", Color::Yellow),
        ("module", Color::Yellow),
        ("parameter", Color::White),
        ("field", Color::Blue),
    ];
    for (i, (name, color)) in expected.iter().enumerate() {
        assert_eq!(names[i], *name);
        assert_eq!(highlight_color(i), *color);
    }
    assert_eq!(highlight_color(31), Color::White);
    assert_eq!(highlight_color(usize::MAX), Color::White);
}

#[test]
fn events_paint_bytes() {
    let events = vec![
        HighlightEvent::Source { start: 0, end: 1 },
        HighlightEvent::HighlightStart(0),
        HighlightEvent::Source { start: 1, end: 3 },
        HighlightEvent::HighlightEnd,
        HighlightEvent::Source { start: 3, end: 4 },
        HighlightEvent::HighlightStart(5),
        HighlightEvent::Source { start: 4, end: 100 },
    ];
    let colors = paint_events(&events, 6);
    assert_eq!(
        colors,
        vec![Color::White, Color::Magenta, Color::Magenta, Color::White, Color::DarkGray, Color::DarkGray]
    );
}

#[test]
fn events_behind_a_failure_do_not_count() {
    let events = vec![
        HighlightEvent::HighlightStart(3),
        HighlightEvent::Source { start: 0, end: 2 },
        HighlightEvent::Failed,
        HighlightEvent::Source { start: 2, end: 4 },
    ];
    let colors = paint_events(&events, 4);
    assert_eq!(colors, vec![Color::Green, Color::Green, Color::White, Color::White]);
    assert_eq!(paint_events(&vec![], 3), vec![Color::White; 3]);
    assert_eq!(paint_events(&events, 0), vec![]);
    let odd = vec![HighlightEvent::HighlightStart(1), HighlightEvent::Source { start: 5, end: 2 }];
    assert_eq!(paint_events(&odd, 3), vec![Color::White; 3]);
}

#[test]
fn later_ranges_paint_over_earlier_ones() {
    let events = vec![
        HighlightEvent::HighlightStart(0),
        HighlightEvent::Source { start: 0, end: 4 },
        HighlightEvent::HighlightStart(1),
        HighlightEvent::Source { start: 1, end: 2 },
    ];
    assert_eq!(
        paint_events(&events, 4),
        vec![Color::Magenta, Color::Blue, Color::Magenta, Color::Magenta]
    );
}

#[test]
fn cache_records_where_lines_begin() {
    let c = ViewportCache::build("fn a(){}\n// x\nlet y=1;\n".to_string(), None);
    assert_eq!(c.line_count(), 4);
    assert_eq!(c.line_offset(0), Some(0));
    assert_eq!(c.line_offset(1), Some(9));
    assert_eq!(c.line_offset(2), Some(14));
    assert_eq!(c.line_offset(3), Some(23));
    assert_eq!(c.line_offset(4), None);
    assert_eq!(c.max_line_width(), 8);
    assert_eq!(c.source(), "fn a(){}\n// x\nlet y=1;\n");
    assert_eq!(c.highlight_len(), None);
    let (line, offset) = c.get_line_from_cache(1).unwrap();
    assert_eq!(line, ['/', '/', ' ', 'x']);
    assert_eq!(offset, 9);
    let (line, offset) = c.get_line_from_cache(3).unwrap();
    assert!(line.is_empty());
    assert_eq!(offset, 23);
    assert!(c.get_line_from_cache(4).is_none());
}

#[test]
fn cache_counts_characters_not_bytes() {
    let c = ViewportCache::build("漢字\nabc\né".to_string(), None);
    assert_eq!(c.line_count(), 3);
    assert_eq!(c.line_offset(1), Some(7));
    assert_eq!(c.line_offset(2), Some(11));
    assert_eq!(c.max_line_width(), 3);
    let (line, offset) = c.get_line_from_cache(2).unwrap();
    assert_eq!(line, ['é']);
    assert_eq!(offset, 11);
    let empty = ViewportCache::new();
    assert_eq!(empty.line_count(), 1);
    assert_eq!(empty.max_line_width(), 0);
    assert_eq!(empty.line_offset(0), Some(0));
}

#[test]
fn utf8_lengths() {
    assert_eq!(char_utf8_len('a'), 1);
    assert_eq!(char_utf8_len('é'), 2);
    assert_eq!(char_utf8_len('漢'), 3);
    assert_eq!(char_utf8_len('😀'), 4);
    assert_eq!(char_utf8_len('\u{7f}'), 1);
    assert_eq!(char_utf8_len('\u{80}'), 2);
    assert_eq!(char_utf8_len('\u{7ff}'), 2);
    assert_eq!(char_utf8_len('\u{800}'), 3);
    assert_eq!(char_utf8_len('\u{ffff}'), 3);
    assert_eq!(char_utf8_len('\u{10000}'), 4);
    assert!(same_text("abc", "abc"));
    assert!(!same_text("abc", "abd"));
}

#[test]
fn horizontal_scroll_cuts_a_window() {
    let line: Vec<char> = "0123456789".chars().collect();
    assert_eq!(apply_horizontal_scroll(&line, 0, 4), ['0', '1', '2', '3']);
    assert_eq!(apply_horizontal_scroll(&line, 3, 4), ['3', '4', '5', '6']);
    assert_eq!(apply_horizontal_scroll(&line, 8, 4), ['8', '9']);
    assert!(apply_horizontal_scroll(&line, 10, 4).is_empty());
    assert!(apply_horizontal_scroll(&line, 99, 4).is_empty());
    assert!(apply_horizontal_scroll(&line, 2, 0).is_empty());
    assert_eq!(apply_horizontal_scroll(&line, 7, usize::MAX), ['7', '8', '9']);
}

#[test]
fn spans_group_runs_of_one_colour() {
    let line: Vec<char> = "let é=1".chars().collect();
    // bytes: l e t ' ' é(2) = 1
    let colors = vec![
        Color::Magenta, Color::Magenta, Color::Magenta, Color::White,
        Color::Blue, Color::Blue, Color::Red, Color::Cyan,
    ];
    let spans = build_spans_from_colors(&line, 0, &colors, 0, 80);
    let got: Vec<(String, Option<Color>)> = spans.iter().map(|s| (text_of(s), s.color)).collect();
    assert_eq!(
        got,
        vec![
            ("let".to_string(), Some(Color::Magenta)),
            (" ".to_string(), Some(Color::White)),
            ("é".to_string(), Some(Color::Blue)),
            ("=".to_string(), Some(Color::Red)),
            ("1".to_string(), Some(Color::Cyan)),
        ]
    );
}

#[test]
fn spans_respect_scroll_width_and_offset() {
    let line: Vec<char> = "abcdef".chars().collect();
    let mut colors = vec![Color::Green; 4];
    colors.extend(vec![Color::Red, Color::Red, Color::Red, Color::Blue, Color::Blue]);
    // the line begins at byte 4
    let spans = build_spans_from_colors(&line, 4, &colors, 2, 3);
    let got: Vec<(String, Option<Color>)> = spans.iter().map(|s| (text_of(s), s.color)).collect();
    assert_eq!(
        got,
        vec![("c".to_string(), Some(Color::Red)), ("de".to_string(), Some(Color::Blue))]
    );
    let spans = build_spans_from_colors(&line, 4, &colors, 4, 10);
    let got: Vec<(String, Option<Color>)> = spans.iter().map(|s| (text_of(s), s.color)).collect();
    assert_eq!(
        got,
        vec![("e".to_string(), Some(Color::Blue)), ("f".to_string(), Some(Color::White))]
    );
    assert!(build_spans_from_colors(&line, 4, &colors, 6, 10).is_empty());
    assert!(build_spans_from_colors(&line, 4, &colors, 0, 0).is_empty());
    assert!(build_spans_from_colors(&[], 0, &colors, 0, 10).is_empty());
    let far = build_spans_from_colors(&line, usize::MAX, &colors, 0, 10);
    assert_eq!(far.len(), 1);
    assert_eq!(far[0].color, Some(Color::White));
}

#[test]
fn rows_show_numbers_text_and_tildes() {
    let c = ViewportCache::build("ab\ncdef\n".to_string(), None);
    let rows = c.get_highlighted_lines(5, 3, 1, 1);
    assert_eq!(rows.len(), 5);
    assert_eq!(rows[0].number, Some(2));
    assert_eq!(rows[0].spans.len(), 1);
    assert_eq!(text_of(&rows[0].spans[0]), "def");
    assert_eq!(rows[0].spans[0].color, None);
    assert_eq!(rows[1].number, Some(3));
    assert_eq!(text_of(&rows[1].spans[0]), "");
    assert_eq!(rows[2].number, None);
    assert!(rows[2].spans.is_empty());
    assert_eq!(rows[4].number, None);
    let colors = vec![Color::Red, Color::Red, Color::White, Color::Blue, Color::Blue, Color::Green, Color::Green, Color::White];
    let c = ViewportCache::build("ab\ncdef\n".to_string(), Some(colors));
    assert_eq!(c.highlight_len(), Some(8));
    let rows = c.get_highlighted_lines(3, 10, 0, 0);
    assert_eq!(rows[0].number, Some(1));
    assert_eq!(rows[0].spans.len(), 1);
    assert_eq!(rows[0].spans[0].color, Some(Color::Red));
    assert_eq!(rows[1].spans.len(), 2);
    assert_eq!(text_of(&rows[1].spans[0]), "cd");
    assert_eq!(rows[1].spans[0].color, Some(Color::Blue));
    assert_eq!(text_of(&rows[1].spans[1]), "ef");
    assert_eq!(rows[1].spans[1].color, Some(Color::Green));
    assert_eq!(rows[2].number, Some(3));
    assert!(rows[2].spans.is_empty());
    assert!(c.get_highlighted_lines(0, 10, 0, 0).is_empty());
    let rows = c.get_highlighted_lines(2, 10, usize::MAX, 0);
    assert_eq!(rows[0].number, None);
    assert_eq!(rows[1].number, None);
}
