//! The session: the document that is shown, the tabs, and the unsaved
//! documents parked behind the tabs that are not shown.

use vstd::prelude::*;
use crate::editor::{Editor, EditorView};
use crate::highlight::Color;
use crate::language::{extension_language, Language};
use crate::parked::ParkedSet;
use crate::paths::{capped_label, is_image_file, DocPath, DocPathView};
use crate::preview::ImageState;
use crate::render::RenderedLine;
use crate::scroll::{gutter_width, line_number_width, Area};
use crate::syntax::{highlighted, SyntaxHighlighter};
use tree_sitter_highlight::HighlightConfiguration;
use crate::text::line_count;
use crate::viewport::{rendered_row, ViewportCache};

verus! {

/// What a session is, as plain mathematics.
pub struct WorkspaceView {
    /// The document that is shown.
    pub doc: EditorView,
    /// The file of that document, if it has one.
    pub file: Option<DocPathView>,
    /// The language of that document, if it has one.
    pub language: Option<Language>,
    /// What the image slot shows.
    pub image: ImageState,
    /// The files that have a tab, in the order of the tabs.
    pub tabs: Seq<DocPathView>,
    /// The unsaved documents that are not shown, by the path of their file.
    pub parked: Map<Seq<char>, EditorView>,
}

/// What opening a file came to.
#[derive(Clone, Copy, Debug, PartialEq, Eq, Structural)]
pub enum OpenOutcome {
    /// The file was shown already.
    Unchanged,
    /// The file is an image: it is to be decoded, and is shown once that
    /// is done.
    Image,
    /// The file's parked document came back.
    Restored,
    /// The file's content was loaded afresh.
    Loaded,
}

/// What closing the tab that is shown came to.
#[derive(Debug)]
pub enum CloseOutcome {
    /// Nothing is shown, or what is shown has no tab.
    Nothing,
    /// The document is unsaved: the tab stays.
    Refused,
    /// The last tab went: the editor is empty.
    Cleared,
    /// The tab went, and this file's tab is to be shown in its place.
    Switch(DocPath),
}

/// The place of the first tab for `path`.
pub open spec fn tab_index(tabs: Seq<DocPathView>, path: Seq<char>) -> Option<int>
    decreases tabs.len(),
{
    if tabs.len() == 0 {
        None
    } else if tabs[0].path == path {
        Some(0)
    } else {
        match tab_index(tabs.skip(1), path) {
            Some(i) => Some(i + 1),
            None => None,
        }
    }
}

/// The tab that a click at column `x` falls on, the first tab beginning at
/// column `start`: each tab is as wide as its label, and one blank column
/// parts two tabs.
pub open spec fn tab_at(widths: Seq<usize>, start: int, x: int) -> Option<int>
    decreases widths.len(),
{
    if widths.len() == 0 {
        None
    } else if start <= x < start + widths[0] {
        Some(0)
    } else {
        match tab_at(widths.skip(1), start + widths[0] + 1, x) {
            Some(i) => Some(i + 1),
            None => None,
        }
    }
}

impl WorkspaceView {
    /// The cursor is valid, in the document that is shown and in each that
    /// is parked, and the file that is shown is not parked as well.
    pub open spec fn wf(self) -> bool {
        &&& self.doc.wf()
        &&& forall|k: Seq<char>| self.parked.dom().contains(k) ==> (#[trigger] self.parked[k]).wf()
        &&& match self.file {
            Some(f) => !self.parked.dom().contains(f.path),
            None => true,
        }
    }

    /// Whether `path` is the file that is shown.
    pub open spec fn shows(self, path: Seq<char>) -> bool {
        match self.file {
            Some(f) => f.path == path,
            None => false,
        }
    }

    /// The parked documents once the document that is shown leaves: an
    /// unsaved text is parked, a saved one is dropped, an image leaves no
    /// trace.
    pub open spec fn parked_on_leave(self) -> Map<Seq<char>, EditorView> {
        match self.file {
            Some(f) => if self.image == ImageState::Text {
                if self.doc.unsaved() {
                    self.parked.insert(f.path, self.doc)
                } else {
                    self.parked.remove(f.path)
                }
            } else {
                self.parked
            },
            None => self.parked,
        }
    }

    /// The session after `path` was opened. `language` is what the table of
    /// extensions says of the file, `content` what the file holds; the
    /// content only counts where the file is neither shown, nor an image,
    /// nor parked.
    pub open spec fn opened(self, path: DocPathView, language: Option<Language>, content: Seq<char>)
        -> WorkspaceView {
        if self.shows(path.path) {
            self
        } else {
            let kept = self.parked_on_leave();
            if path.is_image() {
                WorkspaceView {
                    doc: EditorView::opened(Seq::empty()),
                    file: Some(path),
                    language: None,
                    image: ImageState::Loading,
                    tabs: self.tabs,
                    parked: kept.remove(path.path),
                }
            } else if kept.dom().contains(path.path) {
                WorkspaceView {
                    doc: EditorView { dirty: true, ..kept[path.path] },
                    file: Some(path),
                    language,
                    image: ImageState::Text,
                    tabs: self.tabs,
                    parked: kept.remove(path.path),
                }
            } else {
                WorkspaceView {
                    doc: EditorView::opened(content),
                    file: Some(path),
                    language,
                    image: ImageState::Text,
                    tabs: self.tabs,
                    parked: kept.remove(path.path),
                }
            }
        }
    }

    /// What opening `path` comes to.
    pub open spec fn open_outcome(self, path: DocPathView) -> OpenOutcome {
        if self.shows(path.path) {
            OpenOutcome::Unchanged
        } else if path.is_image() {
            OpenOutcome::Image
        } else if self.parked_on_leave().dom().contains(path.path) {
            OpenOutcome::Restored
        } else {
            OpenOutcome::Loaded
        }
    }

    /// The session with a tab for the file that is shown.
    pub open spec fn with_tab(self) -> WorkspaceView {
        match self.file {
            Some(f) => if tab_index(self.tabs, f.path) is None {
                WorkspaceView { tabs: self.tabs.push(f), ..self }
            } else {
                self
            },
            None => self,
        }
    }

    /// The session with another state of the document that is shown.
    pub open spec fn with_doc(self, doc: EditorView) -> WorkspaceView {
        WorkspaceView { doc, ..self }
    }

    /// The place of the tab that is shown.
    pub open spec fn shown_tab(self) -> Option<int> {
        match self.file {
            Some(f) => tab_index(self.tabs, f.path),
            None => None,
        }
    }

    /// The tab behind the one that is shown, the first following the last.
    pub open spec fn next_tab(self) -> Option<DocPathView> {
        match self.shown_tab() {
            Some(i) => if self.tabs.len() > 1 {
                Some(self.tabs[if i + 1 == self.tabs.len() { 0 } else { i + 1 }])
            } else {
                None
            },
            None => None,
        }
    }

    /// The tab in front of the one that is shown, the last preceding the
    /// first.
    pub open spec fn prev_tab(self) -> Option<DocPathView> {
        match self.shown_tab() {
            Some(i) => if self.tabs.len() > 1 {
                Some(self.tabs[if i == 0 { self.tabs.len() - 1 } else { i - 1 }])
            } else {
                None
            },
            None => None,
        }
    }

    /// Whether the tab of `path` is marked as unsaved.
    pub open spec fn tab_unsaved(self, path: Seq<char>) -> bool {
        if self.shows(path) {
            self.doc.unsaved()
        } else {
            self.parked.dom().contains(path)
        }
    }

    /// The widths of the tabs.
    pub open spec fn tab_widths(self) -> Seq<usize> {
        Seq::new(
            self.tabs.len(),
            |i: int| capped_label(self.tabs[i].label_len(self.tab_unsaved(self.tabs[i].path))),
        )
    }

    /// The session after the tab that is shown was closed, where that is
    /// not refused.
    pub open spec fn closed(self) -> WorkspaceView {
        match self.shown_tab() {
            Some(i) => if self.doc.unsaved() {
                self
            } else {
                let tabs = self.tabs.remove(i);
                let parked = self.parked.remove(self.file.unwrap().path);
                if tabs.len() > 0 {
                    WorkspaceView { tabs, parked, ..self }
                } else {
                    WorkspaceView {
                        tabs,
                        parked,
                        file: None,
                        doc: EditorView::opened(Seq::empty()),
                        ..self
                    }
                }
            },
            None => self,
        }
    }
}

/// Leaving an unsaved document for another file and coming back brings the
/// document back as it was: its text, its cursor, its scroll offsets.
pub proof fn lemma_switch_and_return(
    w: WorkspaceView,
    a: DocPathView,
    b: DocPathView,
    lang_a: Option<Language>,
    lang_b: Option<Language>,
    content_a: Seq<char>,
    content_b: Seq<char>,
)
    requires
        w.wf(),
        w.file == Some(a),
        w.image == ImageState::Text,
        !a.is_image(),
        w.doc.unsaved(),
        a.path != b.path,
    ensures
        ({
            let back = w.opened(b, lang_b, content_b).opened(a, lang_a, content_a);
            &&& back.file == Some(a)
            &&& back.doc.text == w.doc.text
            &&& back.doc.saved == w.doc.saved
            &&& back.doc.line == w.doc.line
            &&& back.doc.col == w.doc.col
            &&& back.doc.scroll == w.doc.scroll
            &&& back.doc.hscroll == w.doc.hscroll
            &&& back.wf()
        }),
{
    let there = w.opened(b, lang_b, content_b);
    lemma_opened_wf(w, b, lang_b, content_b);
    assert(there.parked.dom().contains(a.path));
    assert(there.parked[a.path] == w.doc);
    lemma_opened_wf(there, a, lang_a, content_a);
}

/// Opening a file keeps a session valid.
pub proof fn lemma_opened_wf(
    w: WorkspaceView,
    path: DocPathView,
    language: Option<Language>,
    content: Seq<char>,
)
    requires
        w.wf(),
    ensures
        w.opened(path, language, content).wf(),
{
    let kept = w.parked_on_leave();
    assert forall|k: Seq<char>| kept.dom().contains(k) implies (#[trigger] kept[k]).wf() by {
        if w.parked.dom().contains(k) {
            assert(w.parked[k].wf());
        }
    }
    let after = w.opened(path, language, content);
    assert forall|k: Seq<char>| after.parked.dom().contains(k) implies (#[trigger] after.parked[k]).wf() by {
        if w.parked.dom().contains(k) {
            assert(w.parked[k].wf());
        }
        if kept.dom().contains(k) {
            assert(kept[k].wf());
        }
    }
    if !w.shows(path.path) && !path.is_image() && kept.dom().contains(path.path) {
        assert(kept[path.path].wf());
    }
}

/// What a cache that was just rebuilt holds of colours: where the
/// document has a language and is not empty, the colours that the grammars
/// `loaded` give `text` in that language; none otherwise.
pub open spec fn rebuilt_colors(
    colors: Option<Seq<Color>>,
    language: Option<Language>,
    text: Seq<char>,
    loaded: Seq<Option<HighlightConfiguration>>,
) -> bool {
    match language {
        Some(l) => if text.len() > 0 {
            colors == Some(highlighted(loaded, l, text))
        } else {
            colors is None
        },
        None => colors is None,
    }
}

/// The files of a vector of tabs.
pub open spec fn tabs_view(tabs: Seq<DocPath>) -> Seq<DocPathView> {
    tabs.map_values(|d: DocPath| d@)
}

/// Whether the cell `(x, y)` lies on the row of the tabs.
pub open spec fn on_tab_row(tab_area: Area, x: u16, y: u16) -> bool {
    y == tab_area.y && tab_area.x <= x < tab_area.x + tab_area.width
}

/// No tab begins behind the click.
pub proof fn lemma_tab_at_behind(widths: Seq<usize>, start: int, x: int)
    requires
        start > x,
    ensures
        tab_at(widths, start, x) is None,
    decreases widths.len(),
{
    if widths.len() > 0 {
        lemma_tab_at_behind(widths.skip(1), start + widths[0] + 1, x);
    }
}

/// The session of the editor.
pub struct Workspace {
    editor: Editor,
    file: Option<DocPath>,
    language: Option<Language>,
    image: ImageState,
    tabs: Vec<DocPath>,
    parked: ParkedSet,
    syntax: SyntaxHighlighter,
    cache: ViewportCache,
}

impl View for Workspace {
    type V = WorkspaceView;

    closed spec fn view(&self) -> WorkspaceView {
        WorkspaceView {
            doc: self.editor@,
            file: match self.file {
                Some(f) => Some(f@),
                None => None,
            },
            language: self.language,
            image: self.image,
            tabs: tabs_view(self.tabs@),
            parked: self.parked@,
        }
    }
}

impl Workspace {
    /// The session is valid, and its cache is that of the text unless the
    /// text is marked as changed.
    pub closed spec fn wf(&self) -> bool {
        &&& self@.wf()
        &&& self.syntax.wf()
        &&& self.cache.wf()
        &&& !self.editor@.dirty ==> self.cache.text() == self.editor@.text
    }

    /// What a valid session holds: a valid cursor in every document, the
    /// shown file not parked, and a cache of the present text unless the
    /// text is marked as changed.
    pub proof fn lemma_wf(&self)
        requires
            self.wf(),
        ensures
            self@.wf(),
            !self@.doc.dirty ==> self.cached_text() == self@.doc.text,
    {
    }

    /// The text that the cache was last built from.
    pub closed spec fn cached_text(&self) -> Seq<char> {
        self.cache.text()
    }

    /// The colours of the cache, where it has any.
    pub closed spec fn cached_colors(&self) -> Option<Seq<Color>> {
        self.cache.colors()
    }

    /// The configurations of the grammars, one slot for each language.
    pub closed spec fn loaded(&self) -> Seq<Option<HighlightConfiguration>> {
        self.syntax.loaded()
    }

    /// The configuration pairs behind the table of extensions.
    pub closed spec fn configured(&self) -> Seq<(Seq<char>, Seq<char>)> {
        self.syntax.configured()
    }

    /// The language that the table of extensions gives `path`.
    pub open spec fn language_of(&self, path: DocPathView) -> Option<Language> {
        match path.extension {
            Some(e) => extension_language(self.configured(), e),
            None => None,
        }
    }

    /// A session that shows the empty document and has no tab.
    pub fn new(syntax: SyntaxHighlighter) -> (w: Workspace)
        requires
            syntax.wf(),
        ensures
            w.wf(),
            w.configured() == syntax.configured(),
            w.loaded() == syntax.loaded(),
            w.cached_text() == Seq::<char>::empty(),
            w.cached_colors() is None,
            w@ == (WorkspaceView {
                doc: EditorView::opened(Seq::empty()),
                file: None,
                language: None,
                image: ImageState::Text,
                tabs: Seq::empty(),
                parked: Map::empty(),
            }),
    {
        let w = Workspace {
            editor: Editor::new(),
            file: None,
            language: None,
            image: ImageState::Text,
            tabs: Vec::new(),
            parked: ParkedSet::new(),
            syntax,
            cache: ViewportCache::new(),
        };
        proof {
            assert(tabs_view(w.tabs@) =~= Seq::empty());
        }
        w
    }

    /// The document that is shown.
    pub fn editor(&self) -> (e: &Editor)
        ensures
            e@ == self@.doc,
    {
        &self.editor
    }

    /// The cache of the document that is shown.
    pub fn cache(&self) -> (c: &ViewportCache)
        ensures
            c.text() == self.cached_text(),
            c.colors() == self.cached_colors(),
            self.wf() ==> c.wf(),
    {
        &self.cache
    }

    /// The file that is shown.
    pub fn file(&self) -> (f: Option<&DocPath>)
        ensures
            match f {
                Some(d) => self@.file == Some(d@),
                None => self@.file is None,
            },
    {
        match &self.file {
            Some(d) => Some(d),
            None => None,
        }
    }

    /// The language of the document that is shown.
    pub fn language(&self) -> (l: Option<Language>)
        ensures
            l == self@.language,
    {
        self.language
    }

    /// What the image slot shows.
    pub fn image(&self) -> (i: ImageState)
        ensures
            i == self@.image,
    {
        self.image
    }

    /// The files that have a tab.
    pub fn tabs(&self) -> (t: &Vec<DocPath>)
        ensures
            tabs_view(t@) == self@.tabs,
    {
        &self.tabs
    }

    /// Whether the document that is shown differs from what was last
    /// loaded or saved.
    pub fn is_unsaved(&self) -> (r: bool)
        ensures
            r == self@.doc.unsaved(),
    {
        self.editor.is_unsaved()
    }

    /// The name that the document is shown under: that of its file, or
    /// `New File`.
    pub fn file_name(&self) -> (name: String)
        ensures
            name@ == match self@.file {
                Some(f) => match f.file_name {
                    Some(n) => n,
                    None => "New File"@,
                },
                None => "New File"@,
            },
    {
        match &self.file {
            Some(f) => match &f.file_name {
                Some(n) => n.clone(),
                None => "New File".to_owned(),
            },
            None => "New File".to_owned(),
        }
    }

    /// Whether the tab of `path` is to be marked as unsaved.
    pub fn tab_is_unsaved(&self, path: &DocPath) -> (r: bool)
        ensures
            r == self@.tab_unsaved(path@.path),
    {
        let shown = match &self.file {
            Some(f) => f.same_file(path),
            None => false,
        };
        if shown {
            self.editor.is_unsaved()
        } else {
            self.parked.contains_key(path.path.as_str())
        }
    }

    /// The place of the first tab for `path`.
    pub fn find_tab(&self, path: &DocPath) -> (r: Option<usize>)
        ensures
            match r {
                Some(i) => tab_index(self@.tabs, path@.path) == Some(i as int) && i
                    < self@.tabs.len(),
                None => tab_index(self@.tabs, path@.path) is None,
            },
    {
        let ghost tabs = self@.tabs;
        let mut i: usize = 0;
        proof {
            assert(tabs.skip(0) =~= tabs);
        }
        while i < self.tabs.len()
            invariant
                tabs == self@.tabs,
                tabs.len() == self.tabs@.len(),
                i <= tabs.len(),
                tab_index(tabs, path@.path) == match tab_index(tabs.skip(i as int), path@.path) {
                    Some(j) => Some(j + i),
                    None => None,
                },
            decreases tabs.len() - i,
        {
            proof {
                assert(tabs.skip(i as int)[0] == self.tabs@[i as int]@);
                assert(tabs.skip(i as int).skip(1) =~= tabs.skip(i + 1));
            }
            if self.tabs[i].same_file(path) {
                return Some(i);
            }
            i = i + 1;
        }
        None
    }

    /// Whether opening `path` needs the file's content: it does unless the
    /// file is shown, is an image, or is parked.
    pub fn needs_content(&self, path: &DocPath) -> (r: bool)
        ensures
            r == (self@.open_outcome(path@) == OpenOutcome::Loaded),
    {
        let shown = match &self.file {
            Some(f) => f.same_file(path),
            None => false,
        };
        if shown || is_image_file(path) {
            false
        } else {
            !self.parked.contains_key(path.path.as_str())
        }
    }

    /// Opens `path`. A file that is shown already stays as it is. Else the
    /// document that is shown leaves (an unsaved text is parked, a saved one
    /// dropped), and `path` comes: as an image that is yet to be decoded, as
    /// its parked document, or as a document loaded with `content`.
    pub fn open_file(&mut self, path: DocPath, content: String) -> (r: OpenOutcome)
        requires
            old(self).wf(),
        ensures
            final(self).wf(),
            final(self).configured() == old(self).configured(),
            final(self).loaded() == old(self).loaded(),
            final(self)@ == old(self)@.opened(path@, old(self).language_of(path@), content@),
            r == old(self)@.open_outcome(path@),
            r != OpenOutcome::Unchanged ==> final(self)@.doc.dirty,
            r != OpenOutcome::Unchanged ==> final(self).cached_colors() is None && final(self).cached_text() == Seq::<char>::empty(),
            r == OpenOutcome::Unchanged ==> final(self).cached_colors() == old(
                self,
            ).cached_colors() && final(self).cached_text() == old(self).cached_text(),
    {
        proof {
            lemma_opened_wf(self@, path@, self.language_of(path@), content@);
        }
        let shown = match &self.file {
            Some(f) => f.same_file(&path),
            None => false,
        };
        if shown {
            return OpenOutcome::Unchanged;
        }
        let leaving: Option<String> = match &self.file {
            Some(f) => Some(f.path.clone()),
            None => None,
        };
        match leaving {
            Some(key) => {
                if !self.image.is_image_mode() {
                    if self.editor.is_unsaved() {
                        let kept = self.editor.snapshot();
                        self.parked.insert(key, kept);
                    } else {
                        let _ = self.parked.remove(key.as_str());
                    }
                }
            },
            None => {},
        }
        assert(self.parked@ == old(self)@.parked_on_leave());
        let restored = self.parked.remove(path.path.as_str());
        let outcome = if is_image_file(&path) {
            self.editor = Editor::new();
            self.language = None;
            self.image = ImageState::Loading;
            OpenOutcome::Image
        } else {
            self.language = self.syntax.detect_language(&path);
            self.image = ImageState::Text;
            match restored {
                Some(editor) => {
                    self.editor = editor;
                    self.editor.set_dirty();
                    OpenOutcome::Restored
                },
                None => {
                    self.editor = Editor::open(content);
                    OpenOutcome::Loaded
                },
            }
        };
        self.file = Some(path);
        self.cache = ViewportCache::new();
        outcome
    }

    /// Gives the file that is shown a tab, if it has none.
    pub fn add_to_tabs(&mut self)
        requires
            old(self).wf(),
        ensures
            final(self).wf(),
            final(self).configured() == old(self).configured(),
            final(self).loaded() == old(self).loaded(),
            final(self).cached_text() == old(self).cached_text(),
            final(self).cached_colors() == old(self).cached_colors(),
            final(self)@ == old(self)@.with_tab(),
    {
        let fresh: Option<DocPath> = match &self.file {
            Some(f) => match self.find_tab(f) {
                Some(_) => None,
                None => Some(f.duplicate()),
            },
            None => None,
        };
        match fresh {
            Some(tab) => {
                let ghost before = self.tabs@;
                self.tabs.push(tab);
                proof {
                    assert(tabs_view(self.tabs@) =~= tabs_view(before).push(tab@));
                }
            },
            None => {},
        }
    }

    /// The file of the tab behind the one that is shown; `None` unless
    /// there are two tabs or more and one of them is shown.
    pub fn next_tab(&self) -> (r: Option<DocPath>)
        ensures
            match r {
                Some(d) => self@.next_tab() == Some(d@),
                None => self@.next_tab() is None,
            },
    {
        if self.tabs.len() <= 1 {
            return None;
        }
        let at = match &self.file {
            Some(f) => self.find_tab(f),
            None => None,
        };
        match at {
            Some(i) => {
                let next = if i + 1 == self.tabs.len() { 0 } else { i + 1 };
                proof {
                    assert(self@.tabs[next as int] == self.tabs@[next as int]@);
                }
                Some(self.tabs[next].duplicate())
            },
            None => None,
        }
    }

    /// The file of the tab in front of the one that is shown; `None`
    /// unless there are two tabs or more and one of them is shown.
    pub fn prev_tab(&self) -> (r: Option<DocPath>)
        ensures
            match r {
                Some(d) => self@.prev_tab() == Some(d@),
                None => self@.prev_tab() is None,
            },
    {
        if self.tabs.len() <= 1 {
            return None;
        }
        let at = match &self.file {
            Some(f) => self.find_tab(f),
            None => None,
        };
        match at {
            Some(i) => {
                let prev = if i == 0 { self.tabs.len() - 1 } else { i - 1 };
                proof {
                    assert(self@.tabs[prev as int] == self.tabs@[prev as int]@);
                }
                Some(self.tabs[prev].duplicate())
            },
            None => None,
        }
    }

    /// The file of the tab that a click at `(x, y)` falls on, `tab_area`
    /// being the row of the tabs.
    pub fn handle_tab_click(&self, x: u16, y: u16, tab_area: &Area) -> (r: Option<DocPath>)
        ensures
            match r {
                Some(d) => on_tab_row(*tab_area, x, y) && match tab_at(
                    self@.tab_widths(),
                    tab_area.x as int,
                    x as int,
                ) {
                    Some(i) => 0 <= i < self@.tabs.len() && self@.tabs[i] == d@,
                    None => false,
                },
                None => !on_tab_row(*tab_area, x, y) || tab_at(
                    self@.tab_widths(),
                    tab_area.x as int,
                    x as int,
                ) is None,
            },
    {
        if !(y == tab_area.y && x >= tab_area.x && (x as u32) < tab_area.x as u32
            + tab_area.width as u32) {
            return None;
        }
        let ghost widths = self@.tab_widths();
        let target: usize = x as usize;
        let mut start: usize = tab_area.x as usize;
        let mut i: usize = 0;
        proof {
            assert(widths.skip(0) =~= widths);
        }
        while i < self.tabs.len()
            invariant
                widths == self@.tab_widths(),
                widths.len() == self.tabs@.len(),
                i <= widths.len(),
                target == x,
                on_tab_row(*tab_area, x, y),
                start <= target,
                tab_at(widths, tab_area.x as int, x as int) == match tab_at(
                    widths.skip(i as int),
                    start as int,
                    x as int,
                ) {
                    Some(j) => Some(j + i),
                    None => None,
                },
            decreases widths.len() - i,
        {
            let tab = &self.tabs[i];
            let width = tab.tab_label_len(self.tab_is_unsaved(tab));
            proof {
                assert(self@.tabs[i as int] == tab@);
                assert(widths.skip(i as int)[0] == width);
                assert(widths.skip(i as int).skip(1) =~= widths.skip(i + 1));
            }
            if target - start < width {
                proof {
                    assert(widths.skip(i as int).len() > 0);
                    assert(tab_at(widths.skip(i as int), start as int, x as int) == Some(0int));
                }
                return Some(tab.duplicate());
            }
            if target - start == width {
                proof {
                    lemma_tab_at_behind(widths.skip(i + 1), start + width + 1, x as int);
                }
                return None;
            }
            start = start + width + 1;
            i = i + 1;
        }
        None
    }

    /// Closes the tab that is shown, unless its document is unsaved. Where
    /// tabs are left, the answer names the one to open in its place: the
    /// one that took the place of the closed tab, or the last.
    pub fn close_current_tab(&mut self) -> (r: CloseOutcome)
        requires
            old(self).wf(),
        ensures
            final(self).wf(),
            final(self).configured() == old(self).configured(),
            final(self).loaded() == old(self).loaded(),
            final(self)@ == old(self)@.closed(),
            match r {
                CloseOutcome::Cleared => final(self).cached_colors() is None && final(self).cached_text() == Seq::<char>::empty(),
                _ => final(self).cached_colors() == old(self).cached_colors() && final(self).cached_text() == old(self).cached_text(),
            },
            match r {
                CloseOutcome::Nothing => old(self)@.shown_tab() is None,
                CloseOutcome::Refused => old(self)@.shown_tab() is Some && old(self)@.doc.unsaved(),
                CloseOutcome::Cleared => old(self)@.shown_tab() is Some && !old(
                    self,
                )@.doc.unsaved() && final(self)@.tabs.len() == 0,
                CloseOutcome::Switch(d) => old(self)@.shown_tab() is Some && !old(
                    self,
                )@.doc.unsaved() && final(self)@.tabs.len() > 0 && d@ == final(self)@.tabs[if old(
                    self,
                )@.shown_tab().unwrap() < final(self)@.tabs.len() {
                    old(self)@.shown_tab().unwrap()
                } else {
                    final(self)@.tabs.len() - 1
                }],
            },
    {
        let at = match &self.file {
            Some(f) => self.find_tab(f),
            None => None,
        };
        let idx = match at {
            Some(i) => i,
            None => {
                return CloseOutcome::Nothing;
            },
        };
        if self.editor.is_unsaved() {
            return CloseOutcome::Refused;
        }
        let key: String = match &self.file {
            Some(f) => f.path.clone(),
            None => String::new(),
        };
        let ghost before = self.tabs@;
        let _ = self.tabs.remove(idx);
        proof {
            assert(tabs_view(self.tabs@) =~= tabs_view(before).remove(idx as int));
        }
        let _ = self.parked.remove(key.as_str());
        if self.tabs.len() > 0 {
            let next = if idx < self.tabs.len() { idx } else { self.tabs.len() - 1 };
            CloseOutcome::Switch(self.tabs[next].duplicate())
        } else {
            self.file = None;
            self.editor = Editor::new();
            self.cache = ViewportCache::new();
            CloseOutcome::Cleared
        }
    }
}

impl Workspace {

    /// Moves the cursor one line up.
    pub fn move_up(&mut self)
        requires
            old(self).wf(),
        ensures
            final(self).wf(),
            final(self).configured() == old(self).configured(),
            final(self).loaded() == old(self).loaded(),
            final(self).cached_text() == old(self).cached_text(),
            final(self).cached_colors() == old(self).cached_colors(),
            final(self)@ == old(self)@.with_doc(old(self)@.doc.moved_up()),
    {
        self.editor.move_up();
    }

    /// Moves the cursor one line down.
    pub fn move_down(&mut self)
        requires
            old(self).wf(),
        ensures
            final(self).wf(),
            final(self).configured() == old(self).configured(),
            final(self).loaded() == old(self).loaded(),
            final(self).cached_text() == old(self).cached_text(),
            final(self).cached_colors() == old(self).cached_colors(),
            final(self)@ == old(self)@.with_doc(old(self)@.doc.moved_down()),
    {
        self.editor.move_down();
    }

    /// Moves the cursor one character back, from the start of a line to the end of the line above.
    pub fn move_left(&mut self)
        requires
            old(self).wf(),
        ensures
            final(self).wf(),
            final(self).configured() == old(self).configured(),
            final(self).loaded() == old(self).loaded(),
            final(self).cached_text() == old(self).cached_text(),
            final(self).cached_colors() == old(self).cached_colors(),
            final(self)@ == old(self)@.with_doc(old(self)@.doc.moved_left()),
    {
        self.editor.move_left();
    }

    /// Moves the cursor one character on, from the end of a line to the start of the line below.
    pub fn move_right(&mut self)
        requires
            old(self).wf(),
        ensures
            final(self).wf(),
            final(self).configured() == old(self).configured(),
            final(self).loaded() == old(self).loaded(),
            final(self).cached_text() == old(self).cached_text(),
            final(self).cached_colors() == old(self).cached_colors(),
            final(self)@ == old(self)@.with_doc(old(self)@.doc.moved_right()),
    {
        self.editor.move_right();
    }

    /// Moves the cursor to the start of its line.
    pub fn move_to_line_start(&mut self)
        requires
            old(self).wf(),
        ensures
            final(self).wf(),
            final(self).configured() == old(self).configured(),
            final(self).loaded() == old(self).loaded(),
            final(self).cached_text() == old(self).cached_text(),
            final(self).cached_colors() == old(self).cached_colors(),
            final(self)@ == old(self)@.with_doc(old(self)@.doc.moved_to(old(self)@.doc.line, 0)),
    {
        self.editor.move_to_line_start();
    }

    /// Moves the cursor to the end of its line.
    pub fn move_to_line_end(&mut self)
        requires
            old(self).wf(),
        ensures
            final(self).wf(),
            final(self).configured() == old(self).configured(),
            final(self).loaded() == old(self).loaded(),
            final(self).cached_text() == old(self).cached_text(),
            final(self).cached_colors() == old(self).cached_colors(),
            final(self)@ == old(self)@.with_doc(old(self)@.doc.moved_to(
                old(self)@.doc.line,
                crate::text::line_len(old(self)@.doc.text, old(self)@.doc.line),
            )),
    {
        self.editor.move_to_line_end();
    }

    /// Types `c` at the cursor, and gives the file a tab.
    pub fn insert_char(&mut self, c: char)
        requires
            old(self).wf(),
        ensures
            final(self).wf(),
            final(self).configured() == old(self).configured(),
            final(self).loaded() == old(self).loaded(),
            final(self).cached_text() == old(self).cached_text(),
            final(self).cached_colors() == old(self).cached_colors(),
            final(self)@ == old(self)@.with_tab().with_doc(old(self)@.doc.inserted(c)),
    {
        self.add_to_tabs();
        self.editor.insert_char(c);
    }

    /// Takes out the character in front of the cursor, and gives the file a tab.
    pub fn delete_char_backspace(&mut self)
        requires
            old(self).wf(),
        ensures
            final(self).wf(),
            final(self).configured() == old(self).configured(),
            final(self).loaded() == old(self).loaded(),
            final(self).cached_text() == old(self).cached_text(),
            final(self).cached_colors() == old(self).cached_colors(),
            final(self)@ == old(self)@.with_tab().with_doc(old(self)@.doc.backspaced()),
    {
        self.add_to_tabs();
        self.editor.delete_char_backspace();
    }

    /// Takes out the character under the cursor, and gives the file a tab.
    pub fn delete_char_delete(&mut self)
        requires
            old(self).wf(),
        ensures
            final(self).wf(),
            final(self).configured() == old(self).configured(),
            final(self).loaded() == old(self).loaded(),
            final(self).cached_text() == old(self).cached_text(),
            final(self).cached_colors() == old(self).cached_colors(),
            final(self)@ == old(self)@.with_tab().with_doc(old(self)@.doc.deleted()),
    {
        self.add_to_tabs();
        self.editor.delete_char_delete();
    }

    /// Takes out the rest of the cursor's line, and gives the file a tab.
    pub fn kill_line(&mut self)
        requires
            old(self).wf(),
        ensures
            final(self).wf(),
            final(self).configured() == old(self).configured(),
            final(self).loaded() == old(self).loaded(),
            final(self).cached_text() == old(self).cached_text(),
            final(self).cached_colors() == old(self).cached_colors(),
            final(self)@ == old(self)@.with_tab().with_doc(old(self)@.doc.killed()),
    {
        self.add_to_tabs();
        self.editor.kill_line();
    }

    /// Brings the cursor into view if the view follows it.
    pub fn update_scroll(&mut self, editor_area: &Area)
        requires
            old(self).wf(),
        ensures
            final(self).wf(),
            final(self).configured() == old(self).configured(),
            final(self).loaded() == old(self).loaded(),
            final(self).cached_text() == old(self).cached_text(),
            final(self).cached_colors() == old(self).cached_colors(),
            final(self)@ == old(self)@.with_doc(
                old(self)@.doc.followed(
                    Area::inner(editor_area.height),
                    old(self)@.doc.content_width(editor_area.width),
                ),
            ),
    {
        self.editor.update_scroll(editor_area);
    }

    /// The wheel turned by `delta` lines over the editor.
    pub fn handle_editor_scroll(&mut self, delta: i16, editor_area: &Area)
        requires
            old(self).wf(),
        ensures
            final(self).wf(),
            final(self).configured() == old(self).configured(),
            final(self).loaded() == old(self).loaded(),
            final(self).cached_text() == old(self).cached_text(),
            final(self).cached_colors() == old(self).cached_colors(),
            final(self)@ == old(self)@.with_doc(
                old(self)@.doc.wheeled(delta as int, editor_area.height),
            ),
    {
        self.editor.handle_editor_scroll(delta, editor_area);
    }

    /// The wheel turned sideways by `delta` columns over the editor. The
    /// offset never passes what the longest line of the cached text leaves
    /// to scroll.
    pub fn handle_editor_horizontal_scroll(&mut self, delta: i16, editor_area: &Area)
        requires
            old(self).wf(),
        ensures
            final(self).wf(),
            final(self).configured() == old(self).configured(),
            final(self).loaded() == old(self).loaded(),
            final(self).cached_text() == old(self).cached_text(),
            final(self).cached_colors() == old(self).cached_colors(),
            final(self)@ == old(self)@.with_doc(
                old(self)@.doc.wheeled_sideways(
                    delta as int,
                    editor_area.width,
                    crate::text::widest_line(old(self).cached_text()),
                ),
            ),
            final(self)@.doc.hscroll <= crate::scroll::scroll_limit(
                crate::text::widest_line(old(self).cached_text()),
                old(self)@.doc.content_width(editor_area.width),
            ),
    {
        let widest = self.cache.max_line_width();
        self.editor.handle_editor_horizontal_scroll(delta, editor_area, widest);
    }

    /// A click at `(x, y)` over the editor.
    pub fn handle_editor_click(&mut self, x: u16, y: u16, editor_area: &Area)
        requires
            old(self).wf(),
        ensures
            final(self).wf(),
            final(self).configured() == old(self).configured(),
            final(self).loaded() == old(self).loaded(),
            final(self).cached_text() == old(self).cached_text(),
            final(self).cached_colors() == old(self).cached_colors(),
            final(self)@ == old(self)@.with_doc(old(self)@.doc.clicked(x, y, *editor_area)),
    {
        self.editor.handle_editor_click(x, y, editor_area);
    }

    /// The text to write out when the document is saved; `None` where the
    /// document has no file.
    pub fn content_to_save(&self) -> (r: Option<String>)
        ensures
            match r {
                Some(c) => self@.file is Some && c@ == self@.doc.text,
                None => self@.file is None,
            },
    {
        match &self.file {
            Some(_) => Some(self.editor.content()),
            None => None,
        }
    }

    /// Records that the present text was written out: the document is no
    /// longer unsaved.
    pub fn mark_saved(&mut self)
        requires
            old(self).wf(),
        ensures
            final(self).wf(),
            final(self).configured() == old(self).configured(),
            final(self).loaded() == old(self).loaded(),
            final(self).cached_text() == old(self).cached_text(),
            final(self).cached_colors() == old(self).cached_colors(),
            final(self)@ == old(self)@.with_doc(
                EditorView { saved: old(self)@.doc.text, ..old(self)@.doc },
            ),
            !final(self)@.doc.unsaved(),
    {
        self.editor.mark_saved();
    }

    /// The decoder answered: see [`ImageState::decoded`].
    pub fn image_decoded(&mut self, ok: bool)
        requires
            old(self).wf(),
        ensures
            final(self).wf(),
            final(self).configured() == old(self).configured(),
            final(self).loaded() == old(self).loaded(),
            final(self).cached_text() == old(self).cached_text(),
            final(self).cached_colors() == old(self).cached_colors(),
            final(self)@ == (WorkspaceView { image: old(self)@.image.decoded(ok), ..old(self)@ }),
    {
        self.image = self.image.on_decoded(ok);
    }

    /// Rebuilds the cache if the text is marked as changed, and not
    /// otherwise. The rebuilt cache holds the present text, and colours for
    /// each byte of it where the document has a language and is not empty.
    pub fn update_cache(&mut self)
        requires
            old(self).wf(),
        ensures
            final(self).wf(),
            final(self).configured() == old(self).configured(),
            final(self).loaded() == old(self).loaded(),
            final(self)@ == old(self)@.with_doc(EditorView { dirty: false, ..old(self)@.doc }),
            final(self).cached_text() == final(self)@.doc.text,
            !old(self)@.doc.dirty ==> final(self).cached_text() == old(self).cached_text()
                && final(self).cached_colors() == old(self).cached_colors(),
            old(self)@.doc.dirty ==> rebuilt_colors(
                final(self).cached_colors(),
                old(self)@.language,
                old(self)@.doc.text,
                old(self).loaded(),
            ),
    {
        if !self.editor.is_dirty() {
            return ;
        }
        let source = self.editor.content();
        let colors = match self.language {
            Some(language) => if source.as_str().is_empty() {
                None
            } else {
                Some(self.syntax.highlight_all(source.as_str(), language))
            },
            None => None,
        };
        self.cache = ViewportCache::build(source, colors);
        self.editor.clear_dirty();
    }

    /// The rows of the editor for a bordered area with `visible_height`
    /// rows and `visible_width` columns inside the border, gutter
    /// included. The cache is brought up to date first.
    pub fn get_highlighted_lines(&mut self, visible_height: usize, visible_width: usize) -> (rows:
        Vec<RenderedLine>)
        requires
            old(self).wf(),
        ensures
            final(self).wf(),
            final(self).configured() == old(self).configured(),
            final(self).loaded() == old(self).loaded(),
            final(self)@ == old(self)@.with_doc(EditorView { dirty: false, ..old(self)@.doc }),
            final(self).cached_text() == final(self)@.doc.text,
            !old(self)@.doc.dirty ==> final(self).cached_text() == old(self).cached_text()
                && final(self).cached_colors() == old(self).cached_colors(),
            old(self)@.doc.dirty ==> rebuilt_colors(
                final(self).cached_colors(),
                old(self)@.language,
                old(self)@.doc.text,
                old(self).loaded(),
            ),
            rows@.len() == visible_height,
            forall|i: int|
                0 <= i < visible_height ==> (#[trigger] rows@[i])@ == rendered_row(
                    final(self)@.doc.text,
                    final(self).cached_colors(),
                    final(self)@.doc.scroll + i,
                    final(self)@.doc.hscroll,
                    if visible_width >= gutter_width(line_count(final(self)@.doc.text)) {
                        (visible_width - gutter_width(line_count(final(self)@.doc.text))) as nat
                    } else {
                        0
                    },
                ),
    {
        self.update_cache();
        let gutter = line_number_width(self.editor.len_lines());
        let content_width = if visible_width >= gutter { visible_width - gutter } else { 0 };
        self.cache.get_highlighted_lines(
            visible_height,
            content_width,
            self.editor.scroll_offset(),
            self.editor.horizontal_scroll(),
        )
    }
}

} // verus!
