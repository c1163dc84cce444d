//! The syntax highlighter: grammars for the languages, and the call that
//! turns a source text into highlight events.

use vstd::prelude::*;
use tree_sitter_highlight::{HighlightConfiguration, Highlighter};
use crate::highlight::{highlight_names, name_table, names_view, paint_events, painted, Color,
    HighlightEvent};
use crate::language::{injection_language, ExtensionMap, Language, LANGUAGE_COUNT,
    extension_language, pairs_view};
use crate::paths::DocPath;
use crate::strings::byte_len;

verus! {

/// `tree_sitter_highlight::Highlighter`, known to the verifier as a type
/// and no further.
#[verifier::external_type_specification]
#[verifier::external_body]
pub struct ExHighlighter(Highlighter);

/// `tree_sitter_highlight::HighlightConfiguration`, known to the verifier
/// as a type and no further.
#[verifier::external_type_specification]
#[verifier::external_body]
pub struct ExHighlightConfiguration(HighlightConfiguration);

/// `Highlighter::new`: a highlighter that has parsed nothing yet.
#[verifier::external_body]
pub(crate) fn new_highlighter() -> (h: Highlighter) {
    Highlighter::new()
}

/// `HighlightConfiguration::new` on the grammar and the queries that the
/// crate `tree_sitter_rust` ships for Rust; `None` where it refuses them.
#[verifier::external_body]
pub(crate) fn rust_grammar() -> (r: Option<HighlightConfiguration>) {
    HighlightConfiguration::new(
        tree_sitter_rust::LANGUAGE.into(),
        "rust",
        tree_sitter_rust::HIGHLIGHTS_QUERY,
        "",
        "",
    ).ok()
}

/// `HighlightConfiguration::new` on the grammar and the queries that the
/// crate `tree_sitter_javascript` ships for JavaScript; `None` where it refuses them.
#[verifier::external_body]
pub(crate) fn javascript_grammar() -> (r: Option<HighlightConfiguration>) {
    HighlightConfiguration::new(
        tree_sitter_javascript::LANGUAGE.into(),
        "javascript",
        tree_sitter_javascript::HIGHLIGHT_QUERY,
        tree_sitter_javascript::INJECTIONS_QUERY,
        tree_sitter_javascript::LOCALS_QUERY,
    ).ok()
}

/// `HighlightConfiguration::new` on the grammar and the queries that the
/// crate `tree_sitter_typescript` ships for TypeScript; `None` where it refuses them.
#[verifier::external_body]
pub(crate) fn typescript_grammar() -> (r: Option<HighlightConfiguration>) {
    HighlightConfiguration::new(
        tree_sitter_typescript::LANGUAGE_TYPESCRIPT.into(),
        "typescript",
        tree_sitter_typescript::HIGHLIGHTS_QUERY,
        "",
        "",
    ).ok()
}

/// `HighlightConfiguration::new` on the grammar and the queries that the
/// crate `tree_sitter_typescript` ships for TSX; `None` where it refuses them.
#[verifier::external_body]
pub(crate) fn tsx_grammar() -> (r: Option<HighlightConfiguration>) {
    HighlightConfiguration::new(
        tree_sitter_typescript::LANGUAGE_TSX.into(),
        "tsx",
        tree_sitter_typescript::HIGHLIGHTS_QUERY,
        "",
        "",
    ).ok()
}

/// `HighlightConfiguration::new` on the grammar and the queries that the
/// crate `tree_sitter_go` ships for Go; `None` where it refuses them.
#[verifier::external_body]
pub(crate) fn go_grammar() -> (r: Option<HighlightConfiguration>) {
    HighlightConfiguration::new(
        tree_sitter_go::LANGUAGE.into(),
        "go",
        tree_sitter_go::HIGHLIGHTS_QUERY,
        "",
        "",
    ).ok()
}

/// `HighlightConfiguration::new` on the grammar and the queries that the
/// crate `tree_sitter_python` ships for Python; `None` where it refuses them.
#[verifier::external_body]
pub(crate) fn python_grammar() -> (r: Option<HighlightConfiguration>) {
    HighlightConfiguration::new(
        tree_sitter_python::LANGUAGE.into(),
        "python",
        tree_sitter_python::HIGHLIGHTS_QUERY,
        "",
        "",
    ).ok()
}

/// `HighlightConfiguration::new` on the grammar and the queries that the
/// crate `tree_sitter_json` ships for JSON; `None` where it refuses them.
#[verifier::external_body]
pub(crate) fn json_grammar() -> (r: Option<HighlightConfiguration>) {
    HighlightConfiguration::new(
        tree_sitter_json::LANGUAGE.into(),
        "json",
        tree_sitter_json::HIGHLIGHTS_QUERY,
        "",
        "",
    ).ok()
}

/// `HighlightConfiguration::new` on the grammar and the queries that the
/// crate `tree_sitter_toml_ng` ships for TOML; `None` where it refuses them.
#[verifier::external_body]
pub(crate) fn toml_grammar() -> (r: Option<HighlightConfiguration>) {
    HighlightConfiguration::new(
        tree_sitter_toml_ng::LANGUAGE.into(),
        "toml",
        tree_sitter_toml_ng::HIGHLIGHTS_QUERY,
        "",
        "",
    ).ok()
}

/// `HighlightConfiguration::new` on the grammar and the queries that the
/// crate `tree_sitter_yaml` ships for YAML; `None` where it refuses them.
#[verifier::external_body]
pub(crate) fn yaml_grammar() -> (r: Option<HighlightConfiguration>) {
    HighlightConfiguration::new(
        tree_sitter_yaml::LANGUAGE.into(),
        "yaml",
        tree_sitter_yaml::HIGHLIGHTS_QUERY,
        "",
        "",
    ).ok()
}

/// `HighlightConfiguration::new` on the grammar and the queries that the
/// crate `tree_sitter_md` ships for Markdown; `None` where it refuses them.
#[verifier::external_body]
pub(crate) fn markdown_grammar() -> (r: Option<HighlightConfiguration>) {
    HighlightConfiguration::new(
        tree_sitter_md::LANGUAGE.into(),
        "markdown",
        tree_sitter_md::HIGHLIGHT_QUERY_BLOCK,
        tree_sitter_md::INJECTION_QUERY_BLOCK,
        "",
    ).ok()
}

/// `HighlightConfiguration::new` on the grammar and the queries that the
/// crate `tree_sitter_md` ships for inline Markdown; `None` where it refuses them.
#[verifier::external_body]
pub(crate) fn markdown_inline_grammar() -> (r: Option<HighlightConfiguration>) {
    HighlightConfiguration::new(
        tree_sitter_md::INLINE_LANGUAGE.into(),
        "markdown_inline",
        tree_sitter_md::HIGHLIGHT_QUERY_INLINE,
        "",
        "",
    ).ok()
}

/// `HighlightConfiguration::new` on the grammar and the queries that the
/// crate `tree_sitter_php` ships for PHP; `None` where it refuses them.
#[verifier::external_body]
pub(crate) fn php_grammar() -> (r: Option<HighlightConfiguration>) {
    HighlightConfiguration::new(
        tree_sitter_php::LANGUAGE_PHP.into(),
        "php",
        tree_sitter_php::HIGHLIGHTS_QUERY,
        tree_sitter_php::INJECTIONS_QUERY,
        "",
    ).ok()
}

/// What `HighlightConfiguration::configure` makes of a configuration that
/// is told a list of names.
pub uninterp spec fn told(config: HighlightConfiguration, names: Seq<Seq<char>>)
    -> HighlightConfiguration;

/// The events that `Highlighter::highlight` gives for a source text with
/// the configuration at `place` of `configs`, injections being looked up by
/// name among `configs`; a refusal stands in them as the event `Failed`.
pub uninterp spec fn highlight_result(
    configs: Seq<Option<HighlightConfiguration>>,
    place: int,
    source: Seq<char>,
) -> Seq<HighlightEvent>;

/// `HighlightConfiguration::configure`: tells a configuration the names
/// that highlights are to be counted by. What comes of it depends on the
/// configuration and the names alone.
#[verifier::external_body]
pub(crate) fn configure_names(config: &mut HighlightConfiguration, names: &Vec<&'static str>)
    ensures
        *final(config) == told(*old(config), names_view(names@)),
{
    config.configure(names.as_slice())
}

/// `Highlighter::highlight` on the bytes of `source`, with `config`, the
/// configuration at `place` of `configs`, and its events gathered one for
/// one. An injection is looked up by its name among `configs`. A refusal,
/// by the call or by a step of its answer, comes back as the event
/// `Failed`. No cancellation is handed in, so the events depend on the
/// configurations and the source alone; nothing else is claimed of them.
#[verifier::external_body]
pub(crate) fn run_highlighter(
    highlighter: &mut Highlighter,
    configs: &Vec<Option<HighlightConfiguration>>,
    config: &HighlightConfiguration,
    place: usize,
    source: &str,
) -> (events: Vec<HighlightEvent>)
    requires
        configs@.len() == LANGUAGE_COUNT,
        place < LANGUAGE_COUNT,
        configs@[place as int] == Some(*config),
    ensures
        events@ == highlight_result(configs@, place as int, source@),
{
    let inject = |name: &str| injection_language(name).and_then(|l| configs[l.index()].as_ref());
    match highlighter.highlight(config, source.as_bytes(), None, None, inject) {
        Ok(events) => events.map(|e| match e {
            Ok(tree_sitter_highlight::HighlightEvent::Source { start, end }) => HighlightEvent::Source { start, end },
            Ok(tree_sitter_highlight::HighlightEvent::HighlightStart(h)) => HighlightEvent::HighlightStart(h.0),
            Ok(tree_sitter_highlight::HighlightEvent::HighlightEnd) => HighlightEvent::HighlightEnd,
            Err(_) => HighlightEvent::Failed,
        }).collect(),
        Err(_) => vec![HighlightEvent::Failed],
    }
}

/// The language at place `i` of the order of declaration.
pub fn language_at(i: usize) -> (l: Language)
    requires
        i < LANGUAGE_COUNT,
    ensures
        l.ordinal() == i,
{
    match i {
        0 => Language::Rust,
        1 => Language::JavaScript,
        2 => Language::TypeScript,
        3 => Language::Tsx,
        4 => Language::Go,
        5 => Language::Python,
        6 => Language::Json,
        7 => Language::Toml,
        8 => Language::Yaml,
        9 => Language::Markdown,
        10 => Language::MarkdownInline,
        _ => Language::Php,
    }
}

/// The configuration for `language`, told the table of highlight names;
/// `None` where its grammar's queries are refused. Whether they are is for
/// the grammar's crate to say: of the answer only this is known, that a
/// configuration that comes back was told `names`.
fn load_grammar(language: Language, names: &Vec<&'static str>) -> (r: Option<HighlightConfiguration>)
    ensures
        was_told(r, names_view(names@)),
{
    let made = match language {
        Language::Rust => rust_grammar(),
        Language::JavaScript => javascript_grammar(),
        Language::TypeScript => typescript_grammar(),
        Language::Tsx => tsx_grammar(),
        Language::Go => go_grammar(),
        Language::Python => python_grammar(),
        Language::Json => json_grammar(),
        Language::Toml => toml_grammar(),
        Language::Yaml => yaml_grammar(),
        Language::Markdown => markdown_grammar(),
        Language::MarkdownInline => markdown_inline_grammar(),
        Language::Php => php_grammar(),
    };
    with_highlight_names(made, names)
}

/// What becomes of the answer to a grammar's loading: a configuration that
/// was made is told the table of highlight names and handed on, and where
/// none was made none is handed on, so that the language stays without
/// highlighting.
pub fn with_highlight_names(made: Option<HighlightConfiguration>, names: &Vec<&'static str>) -> (r:
    Option<HighlightConfiguration>)
    ensures
        r == match made {
            Some(config) => Some(told(config, names_view(names@))),
            None => None,
        },
        was_told(r, names_view(names@)),
{
    match made {
        Some(config) => {
            let mut config = config;
            configure_names(&mut config, names);
            Some(config)
        },
        None => None,
    }
}

/// Whether `slot` is empty or holds a configuration that was told `names`.
pub open spec fn was_told(slot: Option<HighlightConfiguration>, names: Seq<Seq<char>>) -> bool {
    match slot {
        Some(config) => exists|made: HighlightConfiguration| config == #[trigger] told(made, names),
        None => true,
    }
}

/// The colours that the grammars `loaded` give a source text in
/// `language`: the highlighter's events for it, flattened into one colour
/// for each byte; all white where the grammar of `language` is not loaded.
pub open spec fn highlighted(
    loaded: Seq<Option<HighlightConfiguration>>,
    language: Language,
    source: Seq<char>,
) -> Seq<Color> {
    if loaded[language.ordinal() as int] is Some {
        painted(highlight_result(loaded, language.ordinal() as int, source), byte_len(source))
    } else {
        painted(Seq::empty(), byte_len(source))
    }
}

/// The highlighter with its grammars and the table of file extensions.
pub struct SyntaxHighlighter {
    highlighter: Highlighter,
    configs: Vec<Option<HighlightConfiguration>>,
    extension_map: ExtensionMap,
}

impl SyntaxHighlighter {
    /// One slot for each language, and a valid table of extensions.
    pub closed spec fn wf(&self) -> bool {
        self.configs@.len() == LANGUAGE_COUNT && self.extension_map.wf()
    }

    /// The configurations, one slot for each language in the order of
    /// declaration; a slot is empty where the grammar did not load.
    pub closed spec fn loaded(&self) -> Seq<Option<HighlightConfiguration>> {
        self.configs@
    }

    /// Whether the grammar of `language` was loaded.
    pub open spec fn has_grammar(&self, language: Language) -> bool {
        self.loaded()[language.ordinal() as int] is Some
    }

    /// The configuration pairs that the table of extensions was made from.
    pub closed spec fn configured(&self) -> Seq<(Seq<char>, Seq<char>)> {
        self.extension_map.configured()
    }

    /// A highlighter with every grammar that loads, and the table of
    /// extensions that `custom_extensions` adds to.
    pub fn new(custom_extensions: &Vec<(String, String)>) -> (s: SyntaxHighlighter)
        ensures
            s.wf(),
            s.configured() == pairs_view(custom_extensions@),
            s.loaded().len() == LANGUAGE_COUNT,
            forall|i: int|
                0 <= i < LANGUAGE_COUNT ==> was_told(#[trigger] s.loaded()[i], name_table()),
    {
        let names = highlight_names();
        let mut configs: Vec<Option<HighlightConfiguration>> = Vec::new();
        let mut i: usize = 0;
        while i < LANGUAGE_COUNT
            invariant
                i <= LANGUAGE_COUNT,
                configs@.len() == i,
                names_view(names@) == name_table(),
                forall|k: int| 0 <= k < i ==> was_told(#[trigger] configs@[k], name_table()),
            decreases LANGUAGE_COUNT - i,
        {
            configs.push(load_grammar(language_at(i), &names));
            i = i + 1;
        }
        SyntaxHighlighter {
            highlighter: new_highlighter(),
            configs,
            extension_map: ExtensionMap::new(custom_extensions),
        }
    }

    /// A highlighter without any grammar: every text stays white.
    pub fn without_grammars(custom_extensions: &Vec<(String, String)>) -> (s: SyntaxHighlighter)
        ensures
            s.wf(),
            s.configured() == pairs_view(custom_extensions@),
            s.loaded() == Seq::new(
                LANGUAGE_COUNT as nat,
                |i: int| None::<HighlightConfiguration>,
            ),
            forall|l: Language| !s.has_grammar(l),
    {
        let mut configs: Vec<Option<HighlightConfiguration>> = Vec::new();
        let mut i: usize = 0;
        while i < LANGUAGE_COUNT
            invariant
                i <= LANGUAGE_COUNT,
                configs@.len() == i,
                forall|k: int| 0 <= k < i ==> configs@[k] is None,
            decreases LANGUAGE_COUNT - i,
        {
            configs.push(None);
            i = i + 1;
        }
        SyntaxHighlighter {
            highlighter: new_highlighter(),
            configs,
            extension_map: ExtensionMap::new(custom_extensions),
        }
    }

    /// The language of the file `path`, by its extension as it is written.
    pub fn detect_language(&self, path: &DocPath) -> (r: Option<Language>)
        requires
            self.wf(),
        ensures
            r == match path@.extension {
                Some(e) => extension_language(self.configured(), e),
                None => None,
            },
    {
        match &path.extension {
            Some(e) => self.extension_map.get(e.as_str()),
            None => None,
        }
    }

    /// One colour for each byte of `source`, by the grammar of `language`:
    /// the highlighter's events for it, flattened. Without the grammar
    /// every byte is white.
    pub fn highlight_all(&mut self, source: &str, language: Language) -> (colors: Vec<Color>)
        requires
            old(self).wf(),
        ensures
            final(self).wf(),
            final(self).configured() == old(self).configured(),
            final(self).loaded() == old(self).loaded(),
            colors@ == highlighted(old(self).loaded(), language, source@),
            colors@.len() == byte_len(source@),
    {
        let len = source.as_bytes().len();
        let place = language.index();
        let events = match &self.configs[place] {
            Some(config) => run_highlighter(
                &mut self.highlighter,
                &self.configs,
                config,
                place,
                source,
            ),
            None => Vec::new(),
        };
        paint_events(&events, len)
    }
}

} // verus!
