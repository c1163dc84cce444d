use simplide::highlight::Color;
use simplide::language::Language;
use simplide::paths::DocPath;
use simplide::preview::ImageState;
use simplide::scroll::Area;
use simplide::session::{CloseOutcome, OpenOutcome, Workspace};
use simplide::syntax::SyntaxHighlighter;

fn doc(path: &str) -> DocPath {
    let p = std::path::Path::new(path);
    DocPath {
        path: path.to_string(),
        file_name: p.file_name().map(|n| n.to_string_lossy().to_string()),
        extension: p.extension().and_then(|e| e.to_str()).map(|e| e.to_string()),
    }
}

fn plain() -> Workspace {
    Workspace::new(SyntaxHighlighter::without_grammars(&vec![]))
}

fn tab_paths(w: &Workspace) -> Vec<String> {
    w.tabs().iter().map(|d| d.path.clone()).collect()
}

#[test]
fn highlight_cache_matches_source_and_is_not_recomputed() {
    let mut w = Workspace::new(SyntaxHighlighter::new(&vec![]));
    let source = "fn a(){}\n// x\nlet y=1;\n";
    assert!(w.needs_content(&doc("demo.rs")));
    assert_eq!(w.open_file(doc("demo.rs"), source.to_string()), OpenOutcome::Loaded);
    assert_eq!(w.language(), Some(Language::Rust));
    assert!(w.editor().is_dirty());
    let rows = w.get_highlighted_lines(10, 40);
    assert!(!w.editor().is_dirty());
    assert_eq!(w.cache().source(), source);
    assert_eq!(w.cache().highlight_len(), Some(source.len()));
    assert_eq!(w.cache().line_count(), 4);
    assert_eq!(rows.len(), 10);
    assert_eq!(rows[0].number, Some(1));
    assert_eq!(rows[3].number, Some(4));
    assert_eq!(rows[4].number, None);
    let first: String = rows[0].spans.iter().flat_map(|s| s.text.iter()).collect();
    assert_eq!(first, "fn a(){}");
    assert_eq!(rows[0].spans[0].text, ['f', 'n']);
    assert_eq!(rows[0].spans[0].color, Some(Color::Magenta));
    assert_eq!(rows[1].spans.len(), 1);
    assert_eq!(rows[1].spans[0].color, Some(Color::DarkGray));
    let again = w.get_highlighted_lines(10, 40);
    assert!(!w.editor().is_dirty());
    assert_eq!(w.cache().highlight_len(), Some(source.len()));
    assert_eq!(again.len(), rows.len());
    w.update_cache();
    assert!(!w.editor().is_dirty());
    w.insert_char('x');
    assert!(w.editor().is_dirty());
    w.update_cache();
    assert_eq!(w.cache().highlight_len(), Some(source.len() + 1));
}

#[test]
fn every_grammar_highlights() {
    let mut s = SyntaxHighlighter::new(&vec![]);
    let samples = [
        (Language::Rust, "fn main() { let x = \"s\"; }"),
        (Language::JavaScript, "function f() { return \"s\"; }"),
        (Language::TypeScript, "function f(a: number): string { return \"s\"; }"),
        (Language::Tsx, "const x: number = 1;"),
        (Language::Go, "package main\nfunc main() {}\n"),
        (Language::Python, "def f():\n    return \"s\"\n"),
        (Language::Json, "{\"a\": [1, true, null]}"),
        (Language::Toml, "[table]\nkey = \"value\"\n"),
        (Language::Yaml, "key: \"value\"\n"),
        (Language::Markdown, "# Title\n\n`code` and *text*\n"),
        (Language::Php, "<?php function f() { return \"s\"; }"),
    ];
    for (lang, source) in samples {
        let colors = s.highlight_all(source, lang);
        assert_eq!(colors.len(), source.len());
        assert!(colors.iter().any(|c| *c != Color::White), "{:?} stays white", lang);
    }
    let mut none = SyntaxHighlighter::without_grammars(&vec![]);
    assert_eq!(none.highlight_all("fn main() {}", Language::Rust), vec![Color::White; 12]);
}

#[test]
fn no_language_means_no_colours() {
    let mut w = plain();
    w.open_file(doc("notes.txt"), "hello\n".to_string());
    assert_eq!(w.language(), None);
    w.update_cache();
    assert_eq!(w.cache().highlight_len(), None);
    let rows = w.get_highlighted_lines(2, 20);
    assert_eq!(rows[0].spans[0].color, None);
    let mut w = plain();
    w.open_file(doc("empty.rs"), String::new());
    assert_eq!(w.language(), Some(Language::Rust));
    w.update_cache();
    assert_eq!(w.cache().highlight_len(), None);
    w.insert_char('x');
    w.update_cache();
    assert_eq!(w.cache().highlight_len(), Some(1));
}

#[test]
fn switching_tabs_keeps_unsaved_work() {
    let mut w = plain();
    let text_a: String = (0..40).map(|i| format!("line {}\n", i)).collect();
    w.open_file(doc("a.txt"), text_a.clone());
    for _ in 0..20 {
        w.move_down();
    }
    w.move_right();
    w.insert_char('!');
    let area = Area { x: 0, y: 0, width: 12, height: 8 };
    w.update_scroll(&area);
    w.handle_editor_horizontal_scroll(2, &area);
    let content = w.editor().content();
    let at = (w.editor().cursor_line(), w.editor().cursor_col());
    let scroll = (w.editor().scroll_offset(), w.editor().horizontal_scroll());
    assert_eq!(at, (20, 2));
    assert_eq!(scroll.0, 15);
    assert!(w.is_unsaved());

    assert!(w.needs_content(&doc("b.txt")));
    assert_eq!(w.open_file(doc("b.txt"), "bee".to_string()), OpenOutcome::Loaded);
    assert_eq!(w.editor().content(), "bee");
    assert_eq!((w.editor().cursor_line(), w.editor().cursor_col()), (0, 0));
    assert!(!w.is_unsaved());
    assert!(w.tab_is_unsaved(&doc("a.txt")));

    assert!(!w.needs_content(&doc("a.txt")));
    assert_eq!(w.open_file(doc("a.txt"), "ignored".to_string()), OpenOutcome::Restored);
    assert_eq!(w.editor().content(), content);
    assert_eq!((w.editor().cursor_line(), w.editor().cursor_col()), at);
    assert_eq!((w.editor().scroll_offset(), w.editor().horizontal_scroll()), scroll);
    assert!(w.is_unsaved());
    assert!(w.editor().is_dirty());
    assert!(!w.tab_is_unsaved(&doc("b.txt")));
    assert!(w.needs_content(&doc("b.txt")));
}

#[test]
fn opening_the_shown_file_changes_nothing() {
    let mut w = plain();
    w.open_file(doc("a.txt"), "abc".to_string());
    w.insert_char('x');
    w.update_cache();
    assert!(!w.needs_content(&doc("a.txt")));
    assert_eq!(w.open_file(doc("a.txt"), "other".to_string()), OpenOutcome::Unchanged);
    assert_eq!(w.editor().content(), "xabc");
    assert_eq!(w.editor().cursor_col(), 1);
    assert!(!w.editor().is_dirty());
}

#[test]
fn saved_documents_are_not_parked() {
    let mut w = plain();
    w.open_file(doc("a.txt"), "abc".to_string());
    w.insert_char('x');
    w.mark_saved();
    assert!(!w.is_unsaved());
    w.open_file(doc("b.txt"), "b".to_string());
    assert!(!w.tab_is_unsaved(&doc("a.txt")));
    assert!(w.needs_content(&doc("a.txt")));
    assert_eq!(w.open_file(doc("a.txt"), "xabc".to_string()), OpenOutcome::Loaded);
    assert_eq!(w.editor().cursor_col(), 0);
}

#[test]
fn images_go_to_the_image_slot() {
    let mut w = plain();
    w.open_file(doc("a.txt"), "abc".to_string());
    w.insert_char('x');
    assert_eq!(w.image(), ImageState::Text);
    assert!(!w.needs_content(&doc("pic.PNG")));
    assert_eq!(w.open_file(doc("pic.PNG"), String::new()), OpenOutcome::Image);
    assert_eq!(w.image(), ImageState::Loading);
    assert_eq!(w.editor().content(), "");
    assert_eq!(w.language(), None);
    assert!(w.tab_is_unsaved(&doc("a.txt")));
    w.image_decoded(true);
    assert_eq!(w.image(), ImageState::Ready);
    assert_eq!(w.open_file(doc("bad.gif"), String::new()), OpenOutcome::Image);
    w.image_decoded(false);
    assert_eq!(w.image(), ImageState::Failed);
    assert_eq!(w.open_file(doc("a.txt"), String::new()), OpenOutcome::Restored);
    assert_eq!(w.image(), ImageState::Text);
    assert_eq!(w.editor().content(), "xabc");
    w.image_decoded(true);
    assert_eq!(w.image(), ImageState::Text);
}

#[test]
fn editing_gives_the_file_a_tab() {
    let mut w = plain();
    w.insert_char('a');
    assert!(tab_paths(&w).is_empty());
    assert_eq!(w.file_name(), "New File");
    assert!(w.content_to_save().is_none());
    w.open_file(doc("dir/a.txt"), "abc".to_string());
    assert!(tab_paths(&w).is_empty());
    assert_eq!(w.file_name(), "a.txt");
    w.move_right();
    assert!(tab_paths(&w).is_empty());
    w.delete_char_delete();
    assert_eq!(tab_paths(&w), ["dir/a.txt"]);
    w.kill_line();
    w.delete_char_backspace();
    w.insert_char('z');
    assert_eq!(tab_paths(&w), ["dir/a.txt"]);
    assert_eq!(w.content_to_save().as_deref(), Some("z"));
    w.add_to_tabs();
    assert_eq!(tab_paths(&w), ["dir/a.txt"]);
    assert_eq!(w.find_tab(&doc("dir/a.txt")), Some(0));
    assert_eq!(w.find_tab(&doc("a.txt")), None);
}

fn three_tabs() -> Workspace {
    let mut w = plain();
    for name in ["a.txt", "b.txt", "c.txt"] {
        w.open_file(doc(name), name.to_string());
        w.add_to_tabs();
    }
    w
}

#[test]
fn next_and_previous_tab_wrap_around() {
    let w = three_tabs();
    assert_eq!(w.file().map(|d| d.path.as_str()), Some("c.txt"));
    assert_eq!(w.next_tab().map(|d| d.path), Some("a.txt".to_string()));
    assert_eq!(w.prev_tab().map(|d| d.path), Some("b.txt".to_string()));
    let mut w = three_tabs();
    w.open_file(doc("a.txt"), "a.txt".to_string());
    assert_eq!(w.next_tab().map(|d| d.path), Some("b.txt".to_string()));
    assert_eq!(w.prev_tab().map(|d| d.path), Some("c.txt".to_string()));
    let mut one = plain();
    one.open_file(doc("a.txt"), String::new());
    one.add_to_tabs();
    assert!(one.next_tab().is_none());
    assert!(one.prev_tab().is_none());
    let mut w = three_tabs();
    w.open_file(doc("other.txt"), String::new());
    assert!(w.next_tab().is_none());
    assert!(plain().prev_tab().is_none());
}

#[test]
fn closing_a_tab_is_refused_while_unsaved() {
    let mut w = three_tabs();
    w.insert_char('x');
    assert!(matches!(w.close_current_tab(), CloseOutcome::Refused));
    assert_eq!(tab_paths(&w), ["a.txt", "b.txt", "c.txt"]);
    w.mark_saved();
    match w.close_current_tab() {
        CloseOutcome::Switch(d) => assert_eq!(d.path, "b.txt"),
        other => panic!("{:?}", other),
    }
    assert_eq!(tab_paths(&w), ["a.txt", "b.txt"]);
    w.open_file(doc("a.txt"), "a.txt".to_string());
    match w.close_current_tab() {
        CloseOutcome::Switch(d) => assert_eq!(d.path, "b.txt"),
        other => panic!("{:?}", other),
    }
    w.open_file(doc("b.txt"), "b.txt".to_string());
    assert!(matches!(w.close_current_tab(), CloseOutcome::Cleared));
    assert!(tab_paths(&w).is_empty());
    assert!(w.file().is_none());
    assert_eq!(w.editor().content(), "");
    assert_eq!((w.editor().cursor_line(), w.editor().cursor_col()), (0, 0));
    assert!(matches!(w.close_current_tab(), CloseOutcome::Nothing));
    let mut w = plain();
    w.open_file(doc("a.txt"), String::new());
    assert!(matches!(w.close_current_tab(), CloseOutcome::Nothing));
}

#[test]
fn tab_click_finds_the_tab_under_the_cell() {
    let mut w = three_tabs();
    w.open_file(doc("a.txt"), "a.txt".to_string());
    w.insert_char('x');
    w.open_file(doc("c.txt"), "c.txt".to_string());
    // " a.txt* " is 8 wide, " b.txt " 7, " c.txt " 7, one blank between
    let area = Area { x: 20, y: 0, width: 60, height: 1 };
    let hit = |x: u16, y: u16| w.handle_tab_click(x, y, &area).map(|d| d.path);
    assert_eq!(hit(20, 0), Some("a.txt".to_string()));
    assert_eq!(hit(27, 0), Some("a.txt".to_string()));
    assert_eq!(hit(28, 0), None);
    assert_eq!(hit(29, 0), Some("b.txt".to_string()));
    assert_eq!(hit(35, 0), Some("b.txt".to_string()));
    assert_eq!(hit(36, 0), None);
    assert_eq!(hit(37, 0), Some("c.txt".to_string()));
    assert_eq!(hit(43, 0), Some("c.txt".to_string()));
    assert_eq!(hit(44, 0), None);
    assert_eq!(hit(60, 0), None);
    assert_eq!(hit(22, 1), None);
    assert_eq!(hit(19, 0), None);
    let narrow = Area { x: 20, y: 0, width: 5, height: 1 };
    assert!(w.handle_tab_click(26, 0, &narrow).is_none());
    assert!(plain().handle_tab_click(20, 0, &area).is_none());
}

fn flat(rows: &[simplide::render::RenderedLine]) -> Vec<(Option<usize>, Vec<(String, Option<Color>)>)> {
    rows.iter()
        .map(|r| (r.number, r.spans.iter().map(|s| (s.text.iter().collect(), s.color)).collect()))
        .collect()
}

#[test]
fn a_second_render_equals_the_first() {
    let mut w = Workspace::new(SyntaxHighlighter::new(&vec![]));
    w.open_file(doc("demo.rs"), "fn a(){}\n// x\nlet y=1;\n".to_string());
    let first = flat(&w.get_highlighted_lines(6, 30));
    let colours = w.cache().highlight_len();
    let second = flat(&w.get_highlighted_lines(6, 30));
    assert_eq!(first, second);
    assert_eq!(w.cache().highlight_len(), colours);
    assert!(!w.editor().is_dirty());
}

#[test]
fn opening_another_file_empties_the_cache() {
    let mut w = Workspace::new(SyntaxHighlighter::new(&vec![]));
    w.open_file(doc("demo.rs"), "fn a(){}\n".to_string());
    w.update_cache();
    assert_eq!(w.cache().highlight_len(), Some(9));
    assert_eq!(w.open_file(doc("notes.txt"), "plain".to_string()), OpenOutcome::Loaded);
    assert_eq!(w.cache().highlight_len(), None);
    assert_eq!(w.cache().source(), "");
    assert!(w.editor().is_dirty());
    w.update_cache();
    assert_eq!(w.cache().source(), "plain");
    assert_eq!(w.cache().highlight_len(), None);
    assert_eq!(w.open_file(doc("notes.txt"), "other".to_string()), OpenOutcome::Unchanged);
    assert_eq!(w.cache().source(), "plain");
    w.add_to_tabs();
    assert!(matches!(w.close_current_tab(), CloseOutcome::Cleared));
    assert_eq!(w.cache().source(), "");
    assert_eq!(w.cache().highlight_len(), None);
}
