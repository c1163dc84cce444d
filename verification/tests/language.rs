use simplide::language::{builtin_language, injection_language, language_for_name, parse_language, ExtensionMap, Language, LANGUAGE_COUNT};
use simplide::paths::{is_image_extension, is_image_file, DocPath};
use simplide::preview::{accept_shrunk, presize_target, resize_budget, ImageState};
use simplide::syntax::{language_at, SyntaxHighlighter};

fn doc(path: &str) -> DocPath {
    let p = std::path::Path::new(path);
    DocPath {
        path: path.to_string(),
        file_name: p.file_name().map(|n| n.to_string_lossy().to_string()),
        extension: p.extension().and_then(|e| e.to_str()).map(|e| e.to_string()),
    }
}

#[test]
fn configuration_names_any_case() {
    assert_eq!(parse_language("rust"), Some(Language::Rust));
    assert_eq!(parse_language("RS"), Some(Language::Rust));
    assert_eq!(parse_language("JavaScript"), Some(Language::JavaScript));
    assert_eq!(parse_language("js"), Some(Language::JavaScript));
    assert_eq!(parse_language("TypeScript"), Some(Language::TypeScript));
    assert_eq!(parse_language("ts"), Some(Language::TypeScript));
    assert_eq!(parse_language("TSX"), Some(Language::Tsx));
    assert_eq!(parse_language("Go"), Some(Language::Go));
    assert_eq!(parse_language("golang"), Some(Language::Go));
    assert_eq!(parse_language("Python"), Some(Language::Python));
    assert_eq!(parse_language("py"), Some(Language::Python));
    assert_eq!(parse_language("JSON"), Some(Language::Json));
    assert_eq!(parse_language("toml"), Some(Language::Toml));
    assert_eq!(parse_language("YAML"), Some(Language::Yaml));
    assert_eq!(parse_language("yml"), Some(Language::Yaml));
    assert_eq!(parse_language("Markdown"), Some(Language::Markdown));
    assert_eq!(parse_language("md"), Some(Language::Markdown));
    assert_eq!(parse_language("PHP"), Some(Language::Php));
    assert_eq!(parse_language("markdown_inline"), None);
    assert_eq!(parse_language("c"), None);
    assert_eq!(parse_language(""), None);
    assert_eq!(language_for_name("RUST"), None);
    assert_eq!(language_for_name("rust"), Some(Language::Rust));
}

#[test]
fn injection_names_are_exact() {
    assert_eq!(injection_language("rust"), Some(Language::Rust));
    assert_eq!(injection_language("rs"), None);
    assert_eq!(injection_language("js"), Some(Language::JavaScript));
    assert_eq!(injection_language("markdown_inline"), Some(Language::MarkdownInline));
    assert_eq!(injection_language("yml"), Some(Language::Yaml));
    assert_eq!(injection_language("golang"), None);
    assert_eq!(injection_language("Rust"), None);
}

#[test]
fn builtin_extensions() {
    let table = [
        ("rs", Language::Rust), ("js", Language::JavaScript), ("mjs", Language::JavaScript),
        ("cjs", Language::JavaScript), ("jsx", Language::JavaScript), ("ts", Language::TypeScript),
        ("mts", Language::TypeScript), ("cts", Language::TypeScript), ("tsx", Language::Tsx),
        ("go", Language::Go), ("py", Language::Python), ("pyw", Language::Python),
        ("json", Language::Json), ("toml", Language::Toml), ("yaml", Language::Yaml),
        ("yml", Language::Yaml), ("md", Language::Markdown), ("markdown", Language::Markdown),
        ("php", Language::Php),
    ];
    for (ext, lang) in table {
        assert_eq!(builtin_language(ext), Some(lang));
    }
    assert_eq!(builtin_language("RS"), None);
    assert_eq!(builtin_language("txt"), None);
}

#[test]
fn configuration_overrides_the_builtin_table() {
    let custom = vec![
        ("rs".to_string(), "Python".to_string()),
        ("conf".to_string(), "TOML".to_string()),
        ("txt".to_string(), "klingon".to_string()),
        ("conf".to_string(), "yaml".to_string()),
        ("md".to_string(), "nothing".to_string()),
    ];
    let m = ExtensionMap::new(&custom);
    assert_eq!(m.get("rs"), Some(Language::Python));
    assert_eq!(m.get("conf"), Some(Language::Yaml));
    assert_eq!(m.get("txt"), None);
    assert_eq!(m.get("md"), Some(Language::Markdown));
    assert_eq!(m.get("go"), Some(Language::Go));
    let plain = ExtensionMap::new(&vec![]);
    assert_eq!(plain.get("rs"), Some(Language::Rust));
    assert_eq!(plain.get("conf"), None);
}

#[test]
fn languages_are_counted_in_order() {
    assert_eq!(LANGUAGE_COUNT, 12);
    for i in 0..LANGUAGE_COUNT {
        assert_eq!(language_at(i).index(), i);
    }
    assert_eq!(Language::Rust.index(), 0);
    assert_eq!(Language::Php.index(), 11);
}

#[test]
fn detect_language_reads_the_extension() {
    let s = SyntaxHighlighter::without_grammars(&vec![("h".to_string(), "rust".to_string())]);
    assert_eq!(s.detect_language(&doc("src/main.rs")), Some(Language::Rust));
    assert_eq!(s.detect_language(&doc("include/api.h")), Some(Language::Rust));
    assert_eq!(s.detect_language(&doc("MAIN.Rs")), None);
    assert_eq!(s.detect_language(&doc("Makefile")), None);
    assert_eq!(s.detect_language(&doc("notes.md")), Some(Language::Markdown));
}

#[test]
fn images_are_known_by_extension() {
    assert!(is_image_file(&doc("a.png")));
    assert!(is_image_file(&doc("/x/y/photo.JPG")));
    assert!(is_image_file(&doc("photo.Jpeg")));
    assert!(is_image_file(&doc("anim.gif")));
    assert!(is_image_file(&doc("pic.WebP")));
    assert!(!is_image_file(&doc("pic.bmp")));
    assert!(!is_image_file(&doc("png")));
    assert!(!is_image_file(&doc("dir.png/readme")));
    assert!(!is_image_file(&doc(".png")));
    assert!(is_image_extension("png"));
    assert!(!is_image_extension("PNG"));
    assert!(!is_image_extension(""));
}

#[test]
fn tab_labels_count_bytes() {
    assert_eq!(doc("src/main.rs").tab_label_len(false), 9);
    assert_eq!(doc("src/main.rs").tab_label_len(true), 10);
    assert_eq!(doc("/").tab_label_len(false), 5);
    assert_eq!(doc("é.rs").tab_label_len(true), 8);
    assert!(doc("a/b.rs").same_file(&doc("a/b.rs")));
    assert!(!doc("a/b.rs").same_file(&doc("b.rs")));
    let d = doc("a/b.rs").duplicate();
    assert_eq!(d.path, "a/b.rs");
    assert_eq!(d.file_name.as_deref(), Some("b.rs"));
    assert_eq!(d.extension.as_deref(), Some("rs"));
}

#[test]
fn large_image_is_shrunk_into_the_budget() {
    assert_eq!(resize_budget(80, 24), (800, 480));
    assert_eq!(presize_target(4000, 3000, 80, 24), Some((800, 480)));
    assert_eq!(presize_target(800, 480, 80, 24), None);
    assert_eq!(presize_target(801, 10, 80, 24), Some((800, 480)));
    assert_eq!(presize_target(10, 481, 80, 24), Some((800, 480)));
    assert_eq!(presize_target(100, 100, 80, 24), None);
    assert_eq!(resize_budget(u16::MAX, u16::MAX), (655350, 1310700));
    assert_eq!(presize_target(1, 1, 0, 0), Some((0, 0)));
    let small = image::DynamicImage::new_rgb8(400, 300);
    let (max_w, max_h) = presize_target(400, 300, 20, 6).unwrap();
    let shrunk = small.resize(max_w, max_h, image::imageops::FilterType::Nearest);
    assert!(shrunk.width() <= 200 && shrunk.height() <= 120);
    assert_eq!((shrunk.width(), shrunk.height()), (160, 120));
}

#[test]
fn image_slot_states() {
    assert_eq!(ImageState::Loading.on_decoded(true), ImageState::Ready);
    assert_eq!(ImageState::Loading.on_decoded(false), ImageState::Failed);
    assert_eq!(ImageState::Text.on_decoded(true), ImageState::Text);
    assert_eq!(ImageState::Ready.on_decoded(true), ImageState::Ready);
    assert!(ImageState::Ready.accepts_resized());
    assert!(!ImageState::Loading.accepts_resized());
    assert!(!ImageState::Text.is_image_mode());
    assert!(ImageState::Failed.is_image_mode());
}

#[test]
fn decoded_image_is_handed_on_within_the_budget() {
    let decoded = image::DynamicImage::new_luma8(4000, 3000);
    let handed_on = match presize_target(decoded.width(), decoded.height(), 80, 24) {
        Some((max_w, max_h)) => decoded.resize(max_w, max_h, image::imageops::FilterType::Nearest),
        None => decoded,
    };
    assert!(handed_on.width() <= 80 * 10);
    assert!(handed_on.height() <= 24 * 20);
    assert_eq!((handed_on.width(), handed_on.height()), (640, 480));
    let small = image::DynamicImage::new_luma8(64, 48);
    let kept = match presize_target(small.width(), small.height(), 80, 24) {
        Some((max_w, max_h)) => small.resize(max_w, max_h, image::imageops::FilterType::Nearest),
        None => small,
    };
    assert_eq!((kept.width(), kept.height()), (64, 48));
}

#[test]
fn a_made_configuration_is_told_the_names() {
    let names = simplide::highlight::highlight_names();
    assert!(simplide::syntax::with_highlight_names(None, &names).is_none());
    let made = tree_sitter_highlight::HighlightConfiguration::new(
        tree_sitter_json::LANGUAGE.into(),
        "json",
        tree_sitter_json::HIGHLIGHTS_QUERY,
        "",
        "",
    )
    .ok();
    assert!(made.is_some());
    let told = simplide::syntax::with_highlight_names(made, &names);
    let config = told.expect("a configuration that was made is handed on");
    let mut highlighter = tree_sitter_highlight::Highlighter::new();
    let events: Vec<_> = highlighter
        .highlight(&config, b"{\"a\": 1}", None, None, |_| None)
        .expect("json is highlighted")
        .collect();
    let starts = events
        .iter()
        .filter(|e| matches!(e, Ok(tree_sitter_highlight::HighlightEvent::HighlightStart(_))))
        .count();
    assert!(starts > 0);
    for e in events {
        if let Ok(tree_sitter_highlight::HighlightEvent::HighlightStart(h)) = e {
            assert!(h.0 < names.len());
        }
    }
}

#[test]
fn only_a_shrunk_image_within_the_budget_is_accepted() {
    assert!(accept_shrunk(4000, 3000, 80, 24, 640, 480));
    assert!(accept_shrunk(4000, 3000, 80, 24, 800, 480));
    assert!(!accept_shrunk(4000, 3000, 80, 24, 801, 480));
    assert!(!accept_shrunk(4000, 3000, 80, 24, 640, 481));
    assert!(!accept_shrunk(900, 100, 80, 24, 800, 101));
    assert!(!accept_shrunk(100, 900, 80, 24, 101, 480));
    assert!(accept_shrunk(900, 100, 80, 24, 800, 89));
    assert!(!accept_shrunk(10, 10, 0, 0, 1, 1));
    assert!(accept_shrunk(10, 10, 0, 0, 0, 0));
    let decoded = image::DynamicImage::new_luma8(1000, 50);
    let (max_w, max_h) = presize_target(1000, 50, 80, 24).unwrap();
    let shrunk = decoded.resize(max_w, max_h, image::imageops::FilterType::Nearest);
    assert!(accept_shrunk(1000, 50, 80, 24, shrunk.width(), shrunk.height()));
    assert_eq!((shrunk.width(), shrunk.height()), (800, 40));
}

#[test]
fn characters_of_a_text_in_order() {
    assert_eq!(simplide::strings::str_chars("a\u{e9}\u{6f22}\n\u{1f600}"), ['a', '\u{e9}', '\u{6f22}', '\n', '\u{1f600}']);
    assert!(simplide::strings::str_chars("").is_empty());
}
