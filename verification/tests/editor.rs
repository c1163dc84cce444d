use simplide::editor::Editor;
use simplide::scroll::Area;

fn editor_on(text: &str) -> Editor {
    Editor::open(text.to_string())
}

fn cursor(e: &Editor) -> (usize, usize) {
    (e.cursor_line(), e.cursor_col())
}

#[test]
fn new_editor_is_empty_and_saved() {
    let e = Editor::new();
    assert_eq!(e.content(), "");
    assert_eq!(cursor(&e), (0, 0));
    assert!(!e.is_unsaved());
    assert!(e.is_dirty());
    assert!(e.follows_cursor());
    assert_eq!(e.len_lines(), 1);
}

#[test]
fn typing_moves_the_cursor() {
    let mut e = Editor::new();
    e.insert_char('a');
    e.insert_char('b');
    assert_eq!(e.content(), "ab");
    assert_eq!(cursor(&e), (0, 2));
    e.insert_char('\n');
    assert_eq!(e.content(), "ab\n");
    assert_eq!(cursor(&e), (1, 0));
    e.insert_char('c');
    assert_eq!(e.content(), "ab\nc");
    assert_eq!(cursor(&e), (1, 1));
    assert_eq!(e.cursor_char_idx(), 4);
}

#[test]
fn typing_in_the_middle_of_a_line() {
    let mut e = editor_on("abcd\nef");
    e.move_right();
    e.move_right();
    e.insert_char('X');
    assert_eq!(e.content(), "abXcd\nef");
    assert_eq!(cursor(&e), (0, 3));
    e.insert_char('\n');
    assert_eq!(e.content(), "abX\ncd\nef");
    assert_eq!(cursor(&e), (1, 0));
}

#[test]
fn insert_then_backspace_restores_the_text() {
    let mut e = editor_on("one\ntwo\nthree");
    e.move_down();
    e.move_right();
    let before = e.content();
    let at = cursor(&e);
    e.insert_char('x');
    assert_eq!(e.content(), "one\ntxwo\nthree");
    e.delete_char_backspace();
    assert_eq!(e.content(), before);
    assert_eq!(cursor(&e), at);
    e.insert_char('\n');
    assert_eq!(e.content(), "one\nt\nwo\nthree");
    e.delete_char_backspace();
    assert_eq!(e.content(), before);
    assert_eq!(e.cursor_line(), 1);
}

#[test]
fn backspace_at_line_start_joins_lines() {
    let mut e = editor_on("ab\ncd");
    e.move_down();
    assert_eq!(cursor(&e), (1, 0));
    e.delete_char_backspace();
    assert_eq!(e.content(), "abcd");
    assert_eq!(cursor(&e), (0, 4));
}

#[test]
fn backspace_at_origin_does_nothing() {
    let mut e = editor_on("ab");
    e.clear_dirty();
    e.delete_char_backspace();
    assert_eq!(e.content(), "ab");
    assert_eq!(cursor(&e), (0, 0));
    assert!(!e.is_dirty());
}

#[test]
fn delete_takes_the_character_under_the_cursor() {
    let mut e = editor_on("ab\ncd");
    e.delete_char_delete();
    assert_eq!(e.content(), "b\ncd");
    e.move_to_line_end();
    e.delete_char_delete();
    assert_eq!(e.content(), "bcd");
    assert_eq!(cursor(&e), (0, 1));
    e.move_to_line_end();
    e.clear_dirty();
    e.delete_char_delete();
    assert_eq!(e.content(), "bcd");
    assert!(!e.is_dirty());
}

#[test]
fn kill_line_cuts_to_the_end_then_joins() {
    let mut e = editor_on("hello world\nnext");
    for _ in 0..5 {
        e.move_right();
    }
    e.kill_line();
    assert_eq!(e.content(), "hello\nnext");
    assert_eq!(cursor(&e), (0, 5));
    e.kill_line();
    assert_eq!(e.content(), "hellonext");
    assert_eq!(cursor(&e), (0, 5));
    e.move_to_line_end();
    e.kill_line();
    assert_eq!(e.content(), "hellonext");
}

#[test]
fn vertical_moves_clamp_the_column() {
    let mut e = editor_on("long line\nab\n\nxyz");
    e.move_to_line_end();
    assert_eq!(cursor(&e), (0, 9));
    e.move_down();
    assert_eq!(cursor(&e), (1, 2));
    e.move_down();
    assert_eq!(cursor(&e), (2, 0));
    e.move_down();
    assert_eq!(cursor(&e), (3, 0));
    e.move_down();
    assert_eq!(cursor(&e), (3, 0));
    e.move_to_line_end();
    e.move_up();
    assert_eq!(cursor(&e), (2, 0));
    e.move_up();
    e.move_up();
    e.move_up();
    assert_eq!(cursor(&e), (0, 0));
}

#[test]
fn horizontal_moves_wrap_over_line_ends() {
    let mut e = editor_on("ab\ncd");
    e.move_left();
    assert_eq!(cursor(&e), (0, 0));
    e.move_right();
    e.move_right();
    assert_eq!(cursor(&e), (0, 2));
    e.move_right();
    assert_eq!(cursor(&e), (1, 0));
    e.move_left();
    assert_eq!(cursor(&e), (0, 2));
    e.move_down();
    e.move_right();
    e.move_right();
    assert_eq!(cursor(&e), (1, 2));
    e.move_right();
    assert_eq!(cursor(&e), (1, 2));
}

#[test]
fn cursor_index_stays_valid_and_round_trips() {
    let mut e = editor_on("αβγ\n\nxyz\n");
    let steps: [u8; 24] = [0, 1, 2, 3, 1, 1, 4, 2, 5, 0, 6, 3, 3, 7, 1, 2, 2, 8, 4, 0, 5, 6, 1, 7];
    for s in steps {
        match s {
            0 => e.insert_char('q'),
            1 => e.move_right(),
            2 => e.move_down(),
            3 => e.insert_char('\n'),
            4 => e.delete_char_backspace(),
            5 => e.delete_char_delete(),
            6 => e.kill_line(),
            7 => e.move_up(),
            _ => e.move_left(),
        }
        let text = e.content();
        let chars: Vec<char> = text.chars().collect();
        let idx = e.cursor_char_idx();
        assert!(idx <= chars.len());
        let line = chars[..idx].iter().filter(|c| **c == '\n').count();
        let start = chars[..idx].iter().rposition(|c| *c == '\n').map(|p| p + 1).unwrap_or(0);
        assert_eq!((line, idx - start), cursor(&e));
        assert!(e.cursor_line() < e.len_lines());
        assert!(e.cursor_col() <= e.current_line_len());
    }
}

#[test]
fn saved_until_one_character_is_typed() {
    let mut e = editor_on("fn main() {}\n");
    assert!(!e.is_unsaved());
    e.mark_saved();
    assert!(!e.is_unsaved());
    e.insert_char('x');
    assert!(e.is_unsaved());
    e.mark_saved();
    assert!(!e.is_unsaved());
    e.delete_char_backspace();
    assert!(e.is_unsaved());
}

#[test]
fn display_column_counts_wide_characters_twice() {
    let mut e = editor_on("a漢b\n");
    assert_eq!(e.cursor_display_col(), 0);
    e.move_right();
    assert_eq!(e.cursor_display_col(), 1);
    e.move_right();
    assert_eq!(e.cursor_display_col(), 3);
    e.move_right();
    assert_eq!(e.cursor_display_col(), 4);
}

#[test]
fn click_column_stops_before_the_width_is_passed() {
    let e = editor_on("a漢b\nxy");
    assert_eq!(e.display_col_to_char_col(0, 0), 0);
    assert_eq!(e.display_col_to_char_col(0, 1), 1);
    assert_eq!(e.display_col_to_char_col(0, 2), 1);
    assert_eq!(e.display_col_to_char_col(0, 3), 2);
    assert_eq!(e.display_col_to_char_col(0, 4), 3);
    assert_eq!(e.display_col_to_char_col(0, 40), 3);
    assert_eq!(e.display_col_to_char_col(1, 1), 1);
    assert_eq!(e.display_col_to_char_col(2, 1), 0);
}

#[test]
fn scroll_follows_the_cursor() {
    let text: String = (0..50).map(|i| format!("line {}\n", i)).collect();
    let mut e = editor_on(&text);
    let area = Area { x: 20, y: 1, width: 40, height: 12 };
    for _ in 0..15 {
        e.move_down();
    }
    e.update_scroll(&area);
    assert_eq!(e.scroll_offset(), 6);
    for _ in 0..12 {
        e.move_up();
    }
    e.update_scroll(&area);
    assert_eq!(e.scroll_offset(), 3);
    e.move_down();
    e.update_scroll(&area);
    assert_eq!(e.scroll_offset(), 3);
}

#[test]
fn horizontal_scroll_follows_the_display_column() {
    let mut e = editor_on("0123456789abcdefghijklmnopqrstuvwxyz");
    let area = Area { x: 0, y: 0, width: 15, height: 5 };
    assert_eq!(e.content_width(&area), 11);
    e.move_to_line_end();
    e.update_scroll(&area);
    assert_eq!(e.horizontal_scroll(), 26);
    e.move_to_line_start();
    e.update_scroll(&area);
    assert_eq!(e.horizontal_scroll(), 0);
}

#[test]
fn wheel_stops_following_and_clamps() {
    let text: String = (0..30).map(|i| format!("{}\n", i)).collect();
    let mut e = editor_on(&text);
    let area = Area { x: 0, y: 0, width: 40, height: 12 };
    e.handle_editor_scroll(5, &area);
    assert!(!e.follows_cursor());
    assert_eq!(e.scroll_offset(), 5);
    e.handle_editor_scroll(100, &area);
    assert_eq!(e.scroll_offset(), 21);
    e.handle_editor_scroll(-3, &area);
    assert_eq!(e.scroll_offset(), 18);
    e.handle_editor_scroll(-100, &area);
    assert_eq!(e.scroll_offset(), 0);
    e.update_scroll(&area);
    assert_eq!(e.scroll_offset(), 0);
    e.move_down();
    assert!(e.follows_cursor());
}

#[test]
fn horizontal_wheel_never_passes_the_limit() {
    let mut e = editor_on("short\n");
    let area = Area { x: 0, y: 0, width: 20, height: 12 };
    let width = e.content_width(&area);
    assert_eq!(width, 16);
    let deltas: [i16; 8] = [2, 2, 50, -1, 2, 2, -2, 300];
    for d in deltas {
        e.handle_editor_horizontal_scroll(d, &area, 40);
        assert!(e.horizontal_scroll() <= 40 - width);
    }
    assert_eq!(e.horizontal_scroll(), 24);
    for d in deltas {
        e.handle_editor_horizontal_scroll(d, &area, 10);
        assert_eq!(e.horizontal_scroll(), 0);
    }
}

#[test]
fn click_moves_the_cursor_to_the_cell() {
    let mut e = editor_on("hello\nwide 漢字 text\nlast");
    let area = Area { x: 10, y: 2, width: 30, height: 10 };
    // gutter: one digit and a blank
    e.handle_editor_click(10 + 1 + 2 + 3, 2 + 1, &area);
    assert_eq!(cursor(&e), (0, 3));
    e.handle_editor_click(10 + 1 + 2 + 8, 2 + 2, &area);
    assert_eq!(cursor(&e), (1, 6));
    e.handle_editor_click(10 + 1, 2 + 3, &area);
    assert_eq!(cursor(&e), (2, 0));
    e.handle_editor_click(10 + 1 + 2 + 20, 2 + 3, &area);
    assert_eq!(cursor(&e), (2, 4));
    e.handle_editor_click(10 + 1 + 2, 2 + 4, &area);
    assert_eq!(cursor(&e), (2, 4));
    e.handle_editor_click(10, 2 + 1, &area);
    assert_eq!(cursor(&e), (2, 4));
    e.handle_editor_click(39, 2 + 1, &area);
    assert_eq!(cursor(&e), (2, 4));
}

#[test]
fn click_on_an_empty_area_is_ignored() {
    let mut e = editor_on("abc");
    e.move_right();
    let area = Area { x: 0, y: 0, width: 0, height: 0 };
    e.handle_editor_click(0, 0, &area);
    assert_eq!(cursor(&e), (0, 1));
}

#[test]
fn clamp_leaves_a_valid_column_alone() {
    let mut e = editor_on("abc\nd");
    e.move_to_line_end();
    e.clamp_cursor_col();
    assert_eq!(cursor(&e), (0, 3));
    e.move_down();
    assert_eq!(cursor(&e), (1, 1));
    e.clamp_cursor_col();
    assert_eq!(cursor(&e), (1, 1));
}
