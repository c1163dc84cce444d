//! The languages that can be highlighted, and the ways to name one: in a
//! configuration file, in an injection, by a file extension.

use vstd::prelude::*;
use crate::strings::{lowercase_of, same_text, to_lowercase};

verus! {

/// A language with a grammar.
#[derive(Clone, Copy, Debug, PartialEq, Eq, Hash, Structural)]
pub enum Language {
    Rust,
    JavaScript,
    TypeScript,
    Tsx,
    Go,
    Python,
    Json,
    Toml,
    Yaml,
    Markdown,
    MarkdownInline,
    Php,
}

/// How many languages there are.
pub const LANGUAGE_COUNT: usize = 12;

impl Language {
    /// The place of the language in the order of declaration.
    pub open spec fn ordinal(self) -> usize {
        match self {
            Language::Rust => 0,
            Language::JavaScript => 1,
            Language::TypeScript => 2,
            Language::Tsx => 3,
            Language::Go => 4,
            Language::Python => 5,
            Language::Json => 6,
            Language::Toml => 7,
            Language::Yaml => 8,
            Language::Markdown => 9,
            Language::MarkdownInline => 10,
            Language::Php => 11,
        }
    }

    /// The place of the language in the order of declaration.
    pub fn index(self) -> (i: usize)
        ensures
            i == self.ordinal(),
            i < LANGUAGE_COUNT,
    {
        match self {
            Language::Rust => 0,
            Language::JavaScript => 1,
            Language::TypeScript => 2,
            Language::Tsx => 3,
            Language::Go => 4,
            Language::Python => 5,
            Language::Json => 6,
            Language::Toml => 7,
            Language::Yaml => 8,
            Language::Markdown => 9,
            Language::MarkdownInline => 10,
            Language::Php => 11,
        }
    }
}

/// The language that a configuration file means by `name`, which is in
/// lowercase.
pub open spec fn configured_language(name: Seq<char>) -> Option<Language> {
    if name == "rust"@ {
        Some(Language::Rust)
    } else if name == "rs"@ {
        Some(Language::Rust)
    } else if name == "javascript"@ {
        Some(Language::JavaScript)
    } else if name == "js"@ {
        Some(Language::JavaScript)
    } else if name == "typescript"@ {
        Some(Language::TypeScript)
    } else if name == "ts"@ {
        Some(Language::TypeScript)
    } else if name == "tsx"@ {
        Some(Language::Tsx)
    } else if name == "go"@ {
        Some(Language::Go)
    } else if name == "golang"@ {
        Some(Language::Go)
    } else if name == "python"@ {
        Some(Language::Python)
    } else if name == "py"@ {
        Some(Language::Python)
    } else if name == "json"@ {
        Some(Language::Json)
    } else if name == "toml"@ {
        Some(Language::Toml)
    } else if name == "yaml"@ {
        Some(Language::Yaml)
    } else if name == "yml"@ {
        Some(Language::Yaml)
    } else if name == "markdown"@ {
        Some(Language::Markdown)
    } else if name == "md"@ {
        Some(Language::Markdown)
    } else if name == "php"@ {
        Some(Language::Php)
    } else {
        None
    }
}

/// The language that an injection means by `name`.
pub open spec fn injected_language(name: Seq<char>) -> Option<Language> {
    if name == "rust"@ {
        Some(Language::Rust)
    } else if name == "javascript"@ {
        Some(Language::JavaScript)
    } else if name == "js"@ {
        Some(Language::JavaScript)
    } else if name == "typescript"@ {
        Some(Language::TypeScript)
    } else if name == "ts"@ {
        Some(Language::TypeScript)
    } else if name == "tsx"@ {
        Some(Language::Tsx)
    } else if name == "go"@ {
        Some(Language::Go)
    } else if name == "python"@ {
        Some(Language::Python)
    } else if name == "json"@ {
        Some(Language::Json)
    } else if name == "toml"@ {
        Some(Language::Toml)
    } else if name == "yaml"@ {
        Some(Language::Yaml)
    } else if name == "yml"@ {
        Some(Language::Yaml)
    } else if name == "markdown"@ {
        Some(Language::Markdown)
    } else if name == "markdown_inline"@ {
        Some(Language::MarkdownInline)
    } else if name == "php"@ {
        Some(Language::Php)
    } else {
        None
    }
}

/// The language that files with the extension `ext` are written in, unless
/// the configuration says otherwise.
pub open spec fn default_language(ext: Seq<char>) -> Option<Language> {
    if ext == "rs"@ {
        Some(Language::Rust)
    } else if ext == "js"@ {
        Some(Language::JavaScript)
    } else if ext == "mjs"@ {
        Some(Language::JavaScript)
    } else if ext == "cjs"@ {
        Some(Language::JavaScript)
    } else if ext == "jsx"@ {
        Some(Language::JavaScript)
    } else if ext == "ts"@ {
        Some(Language::TypeScript)
    } else if ext == "mts"@ {
        Some(Language::TypeScript)
    } else if ext == "cts"@ {
        Some(Language::TypeScript)
    } else if ext == "tsx"@ {
        Some(Language::Tsx)
    } else if ext == "go"@ {
        Some(Language::Go)
    } else if ext == "py"@ {
        Some(Language::Python)
    } else if ext == "pyw"@ {
        Some(Language::Python)
    } else if ext == "json"@ {
        Some(Language::Json)
    } else if ext == "toml"@ {
        Some(Language::Toml)
    } else if ext == "yaml"@ {
        Some(Language::Yaml)
    } else if ext == "yml"@ {
        Some(Language::Yaml)
    } else if ext == "md"@ {
        Some(Language::Markdown)
    } else if ext == "markdown"@ {
        Some(Language::Markdown)
    } else if ext == "php"@ {
        Some(Language::Php)
    } else {
        None
    }
}

/// The language that the configuration gives `ext`: that of the last pair
/// for `ext` whose second part names a language.
pub open spec fn custom_language(pairs: Seq<(Seq<char>, Seq<char>)>, ext: Seq<char>) -> Option<
    Language,
>
    decreases pairs.len(),
{
    if pairs.len() == 0 {
        None
    } else {
        let last = pairs.last();
        let named = configured_language(lowercase_of(last.1));
        if last.0 == ext && named is Some {
            named
        } else {
            custom_language(pairs.drop_last(), ext)
        }
    }
}

/// The language of files with the extension `ext`: what the configuration
/// says, and the built-in table where it says nothing.
pub open spec fn extension_language(pairs: Seq<(Seq<char>, Seq<char>)>, ext: Seq<char>) -> Option<
    Language,
> {
    match custom_language(pairs, ext) {
        Some(l) => Some(l),
        None => default_language(ext),
    }
}

/// The language that a configuration file means by `lowered`, a name in
/// lowercase.
pub fn language_for_name(lowered: &str) -> (r: Option<Language>)
    ensures
        r == configured_language(lowered@),
{
    if same_text(lowered, "rust") {
        Some(Language::Rust)
    } else if same_text(lowered, "rs") {
        Some(Language::Rust)
    } else if same_text(lowered, "javascript") {
        Some(Language::JavaScript)
    } else if same_text(lowered, "js") {
        Some(Language::JavaScript)
    } else if same_text(lowered, "typescript") {
        Some(Language::TypeScript)
    } else if same_text(lowered, "ts") {
        Some(Language::TypeScript)
    } else if same_text(lowered, "tsx") {
        Some(Language::Tsx)
    } else if same_text(lowered, "go") {
        Some(Language::Go)
    } else if same_text(lowered, "golang") {
        Some(Language::Go)
    } else if same_text(lowered, "python") {
        Some(Language::Python)
    } else if same_text(lowered, "py") {
        Some(Language::Python)
    } else if same_text(lowered, "json") {
        Some(Language::Json)
    } else if same_text(lowered, "toml") {
        Some(Language::Toml)
    } else if same_text(lowered, "yaml") {
        Some(Language::Yaml)
    } else if same_text(lowered, "yml") {
        Some(Language::Yaml)
    } else if same_text(lowered, "markdown") {
        Some(Language::Markdown)
    } else if same_text(lowered, "md") {
        Some(Language::Markdown)
    } else if same_text(lowered, "php") {
        Some(Language::Php)
    } else {
        None
    }
}

/// The language that a configuration file means by `s`, whatever its case.
pub fn parse_language(s: &str) -> (r: Option<Language>)
    ensures
        r == configured_language(lowercase_of(s@)),
{
    let lowered = to_lowercase(s);
    language_for_name(lowered.as_str())
}

/// The language that an injection means by `name`.
pub fn injection_language(name: &str) -> (r: Option<Language>)
    ensures
        r == injected_language(name@),
{
    if same_text(name, "rust") {
        Some(Language::Rust)
    } else if same_text(name, "javascript") {
        Some(Language::JavaScript)
    } else if same_text(name, "js") {
        Some(Language::JavaScript)
    } else if same_text(name, "typescript") {
        Some(Language::TypeScript)
    } else if same_text(name, "ts") {
        Some(Language::TypeScript)
    } else if same_text(name, "tsx") {
        Some(Language::Tsx)
    } else if same_text(name, "go") {
        Some(Language::Go)
    } else if same_text(name, "python") {
        Some(Language::Python)
    } else if same_text(name, "json") {
        Some(Language::Json)
    } else if same_text(name, "toml") {
        Some(Language::Toml)
    } else if same_text(name, "yaml") {
        Some(Language::Yaml)
    } else if same_text(name, "yml") {
        Some(Language::Yaml)
    } else if same_text(name, "markdown") {
        Some(Language::Markdown)
    } else if same_text(name, "markdown_inline") {
        Some(Language::MarkdownInline)
    } else if same_text(name, "php") {
        Some(Language::Php)
    } else {
        None
    }
}

/// The language of files with the extension `ext` by the built-in table.
pub fn builtin_language(ext: &str) -> (r: Option<Language>)
    ensures
        r == default_language(ext@),
{
    if same_text(ext, "rs") {
        Some(Language::Rust)
    } else if same_text(ext, "js") {
        Some(Language::JavaScript)
    } else if same_text(ext, "mjs") {
        Some(Language::JavaScript)
    } else if same_text(ext, "cjs") {
        Some(Language::JavaScript)
    } else if same_text(ext, "jsx") {
        Some(Language::JavaScript)
    } else if same_text(ext, "ts") {
        Some(Language::TypeScript)
    } else if same_text(ext, "mts") {
        Some(Language::TypeScript)
    } else if same_text(ext, "cts") {
        Some(Language::TypeScript)
    } else if same_text(ext, "tsx") {
        Some(Language::Tsx)
    } else if same_text(ext, "go") {
        Some(Language::Go)
    } else if same_text(ext, "py") {
        Some(Language::Python)
    } else if same_text(ext, "pyw") {
        Some(Language::Python)
    } else if same_text(ext, "json") {
        Some(Language::Json)
    } else if same_text(ext, "toml") {
        Some(Language::Toml)
    } else if same_text(ext, "yaml") {
        Some(Language::Yaml)
    } else if same_text(ext, "yml") {
        Some(Language::Yaml)
    } else if same_text(ext, "md") {
        Some(Language::Markdown)
    } else if same_text(ext, "markdown") {
        Some(Language::Markdown)
    } else if same_text(ext, "php") {
        Some(Language::Php)
    } else {
        None
    }
}

/// The table from file extensions to languages: the built-in one, with what
/// a configuration file adds or replaces.
pub struct ExtensionMap {
    custom: Vec<(String, Language)>,
    pairs: Ghost<Seq<(Seq<char>, Seq<char>)>>,
}

impl ExtensionMap {
    /// The configuration pairs that the table was made from.
    pub closed spec fn configured(&self) -> Seq<(Seq<char>, Seq<char>)> {
        self.pairs@
    }

    /// The entries agree with the pairs that they were made from.
    pub closed spec fn wf(&self) -> bool {
        forall|ext: Seq<char>|
            #[trigger] kept_language(self.custom@, ext) == custom_language(self.pairs@, ext)
    }

    /// The table for a configuration that maps extensions to the names of
    /// languages. A pair whose name means no language is passed over.
    pub fn new(custom_extensions: &Vec<(String, String)>) -> (m: ExtensionMap)
        ensures
            m.wf(),
            m.configured() == pairs_view(custom_extensions@),
    {
        let mut custom: Vec<(String, Language)> = Vec::new();
        let ghost all = pairs_view(custom_extensions@);
        let mut i: usize = 0;
        while i < custom_extensions.len()
            invariant
                i <= custom_extensions@.len(),
                all == pairs_view(custom_extensions@),
                forall|ext: Seq<char>|
                    #[trigger] kept_language(custom@, ext) == custom_language(
                        all.take(i as int),
                        ext,
                    ),
            decreases custom_extensions@.len() - i,
        {
            let ghost before = custom@;
            let pair = &custom_extensions[i];
            proof {
                assert(all.take(i + 1).drop_last() =~= all.take(i as int));
                assert(all.take(i + 1).last() == (pair.0@, pair.1@));
            }
            match parse_language(pair.1.as_str()) {
                Some(lang) => {
                    custom.push((pair.0.clone(), lang));
                    proof {
                        assert(custom@.drop_last() =~= before);
                    }
                },
                None => {},
            }
            proof {
                assert forall|ext: Seq<char>| #[trigger]
                    kept_language(custom@, ext) == custom_language(all.take(i + 1), ext) by {
                    assert(kept_language(before, ext) == custom_language(all.take(i as int), ext));
                }
            }
            i = i + 1;
        }
        proof {
            assert(all.take(i as int) =~= all);
        }
        ExtensionMap { custom, pairs: Ghost(all) }
    }

    /// The language of files with the extension `ext`.
    pub fn get(&self, ext: &str) -> (r: Option<Language>)
        requires
            self.wf(),
        ensures
            r == extension_language(self.configured(), ext@),
    {
        let mut i: usize = self.custom.len();
        proof {
            assert(self.custom@.take(i as int) =~= self.custom@);
        }
        while i > 0
            invariant
                self.wf(),
                i <= self.custom@.len(),
                kept_language(self.custom@, ext@) == kept_language(
                    self.custom@.take(i as int),
                    ext@,
                ),
            decreases i,
        {
            let entry = &self.custom[i - 1];
            proof {
                assert(self.custom@.take(i as int).drop_last() =~= self.custom@.take(i - 1));
                assert(self.custom@.take(i as int).last() == self.custom@[i - 1]);
            }
            if same_text(entry.0.as_str(), ext) {
                proof {
                    let shown = self.custom@.take(i as int);
                    assert(shown.len() > 0);
                    assert(shown.last().0@ == ext@);
                    assert(kept_language(shown, ext@) == Some(entry.1));
                    assert(kept_language(self.custom@, ext@) == custom_language(
                        self.pairs@,
                        ext@,
                    ));
                }
                return Some(entry.1);
            }
            i = i - 1;
        }
        builtin_language(ext)
    }
}

/// A configuration as plain pairs of texts.
pub open spec fn pairs_view(v: Seq<(String, String)>) -> Seq<(Seq<char>, Seq<char>)> {
    v.map_values(|p: (String, String)| (p.0@, p.1@))
}

/// The language of the last entry for `ext`.
pub open spec fn kept_language(entries: Seq<(String, Language)>, ext: Seq<char>) -> Option<
    Language,
>
    decreases entries.len(),
{
    if entries.len() == 0 {
        None
    } else if entries.last().0@ == ext {
        Some(entries.last().1)
    } else {
        kept_language(entries.drop_last(), ext)
    }
}

} // verus!
