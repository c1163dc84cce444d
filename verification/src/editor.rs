//! One open document: its text, the cursor in it, and the scroll offsets.

use vstd::prelude::*;
use crate::buffer::{TextBuffer, removed};
use crate::scroll::{Area, follow, follow_offset, wheel, wheel_offset, max_scroll, scroll_limit,
    line_number_width, gutter_width};
use crate::text::{lemma_newline_count_bound, line_count, line_start, line_len, line_chars, line_of_index, newline_count,
    after_lines, first_line_len, lemma_after_lines_len, lemma_first_line,
    lemma_first_line_at_least, lemma_line_prefix, lemma_newline_count_cut,
    lemma_newline_count_insert, lemma_next_line_start, lemma_position_round_trip,
    lemma_replace_tail};
use crate::width::{capped, char_columns, click_column, display_width, saturating_sum};

verus! {

/// What an editor is, as plain mathematics.
pub struct EditorView {
    /// The live text.
    pub text: Seq<char>,
    /// The text as it was last loaded or saved.
    pub saved: Seq<char>,
    /// The cursor's line, counted from 0.
    pub line: nat,
    /// The cursor's column in characters, counted from 0.
    pub col: nat,
    /// The first line shown.
    pub scroll: nat,
    /// The first column shown.
    pub hscroll: nat,
    /// Whether the next scroll update brings the cursor into view.
    pub follow: bool,
    /// Whether the text changed since the caches were last rebuilt.
    pub dirty: bool,
}

impl EditorView {
    /// The cursor stands on a line of the text and not behind its end.
    pub open spec fn wf(self) -> bool {
        self.line < line_count(self.text) && self.col <= line_len(self.text, self.line)
    }

    /// The character index of the cursor.
    pub open spec fn index(self) -> nat {
        line_start(self.text, self.line) + self.col
    }

    /// The text differs from what was last loaded or saved.
    pub open spec fn unsaved(self) -> bool {
        self.text != self.saved
    }

    /// The display column of the cursor, held at the largest `usize`.
    pub open spec fn display_col(self) -> nat {
        capped(display_width(line_chars(self.text, self.line).take(self.col as int))) as nat
    }

    /// A document freshly loaded with `content`.
    pub open spec fn opened(content: Seq<char>) -> EditorView {
        EditorView {
            text: content,
            saved: content,
            line: 0,
            col: 0,
            scroll: 0,
            hscroll: 0,
            follow: true,
            dirty: true,
        }
    }

    /// The same cursor on another text.
    pub open spec fn with_text(self, text: Seq<char>) -> EditorView {
        EditorView { text, follow: true, dirty: true, ..self }
    }

    /// The cursor put at `line` and `col`; the view follows it.
    pub open spec fn moved_to(self, line: nat, col: nat) -> EditorView {
        EditorView { line, col, follow: true, ..self }
    }

    /// The cursor one line up, its column held within the new line; on
    /// the first line it stays.
    pub open spec fn moved_up(self) -> EditorView {
        if self.line > 0 {
            let l = (self.line - 1) as nat;
            let n = line_len(self.text, l);
            self.moved_to(l, if self.col > n { n } else { self.col })
        } else {
            self.moved_to(self.line, self.col)
        }
    }

    /// The cursor one line down, its column held within the new line; on
    /// the last line it stays.
    pub open spec fn moved_down(self) -> EditorView {
        if self.line + 1 < line_count(self.text) {
            let l = self.line + 1;
            let n = line_len(self.text, l);
            self.moved_to(l, if self.col > n { n } else { self.col })
        } else {
            self.moved_to(self.line, self.col)
        }
    }

    /// The cursor one character back; from the start of a line to the end
    /// of the line above.
    pub open spec fn moved_left(self) -> EditorView {
        if self.col > 0 {
            self.moved_to(self.line, (self.col - 1) as nat)
        } else if self.line > 0 {
            self.moved_to((self.line - 1) as nat, line_len(self.text, (self.line - 1) as nat))
        } else {
            self.moved_to(self.line, self.col)
        }
    }

    /// The cursor one character on; from the end of a line to the start
    /// of the line below.
    pub open spec fn moved_right(self) -> EditorView {
        if self.col < line_len(self.text, self.line) {
            self.moved_to(self.line, self.col + 1)
        } else if self.line + 1 < line_count(self.text) {
            self.moved_to(self.line + 1, 0)
        } else {
            self.moved_to(self.line, self.col)
        }
    }

    /// `c` typed at the cursor; a line feed takes the cursor to the start
    /// of the next line, any other character one column on.
    pub open spec fn inserted(self, c: char) -> EditorView {
        let text = self.text.insert(self.index() as int, c);
        if c == '\n' {
            EditorView { line: self.line + 1, col: 0, ..self.with_text(text) }
        } else {
            EditorView { col: self.col + 1, ..self.with_text(text) }
        }
    }

    /// The character in front of the cursor taken out. Where that is a line
    /// feed the two lines become one and the cursor goes to its end.
    pub open spec fn backspaced(self) -> EditorView {
        let i = self.index() as int;
        if i == 0 || i > self.text.len() {
            self.moved_to(self.line, self.col)
        } else {
            let text = self.text.take(i - 1) + self.text.skip(i);
            if self.text[i - 1] == '\n' {
                let l = (self.line - 1) as nat;
                EditorView { line: l, col: line_len(text, l), ..self.with_text(text) }
            } else {
                EditorView { col: (self.col - 1) as nat, ..self.with_text(text) }
            }
        }
    }

    /// The character under the cursor taken out, if there is one.
    pub open spec fn deleted(self) -> EditorView {
        let i = self.index() as int;
        if i < self.text.len() {
            self.with_text(self.text.take(i) + self.text.skip(i + 1))
        } else {
            self.moved_to(self.line, self.col)
        }
    }

    /// The rest of the line taken out; at the end of a line, the line feed
    /// that follows.
    pub open spec fn killed(self) -> EditorView {
        let n = line_len(self.text, self.line);
        if self.col >= n {
            self.deleted()
        } else {
            let i = self.index() as int;
            self.with_text(self.text.take(i) + self.text.skip(i - self.col + n))
        }
    }

    /// The offsets after the view followed the cursor: `rows` text rows are
    /// shown, and `cols` columns beside the gutter.
    pub open spec fn followed(self, rows: nat, cols: nat) -> EditorView {
        if self.follow {
            EditorView {
                scroll: follow_offset(self.scroll, self.line, rows),
                hscroll: follow_offset(self.hscroll, self.display_col(), cols),
                ..self
            }
        } else {
            self
        }
    }

    /// The columns beside the gutter in a bordered area of `width` cells.
    pub open spec fn content_width(self, width: u16) -> nat {
        let inner = Area::inner(width);
        let gutter = gutter_width(line_count(self.text));
        if inner >= gutter {
            (inner - gutter) as nat
        } else {
            0
        }
    }

    /// The wheel turned by `delta` lines in an area of `height` rows.
    pub open spec fn wheeled(self, delta: int, height: u16) -> EditorView {
        EditorView {
            follow: false,
            scroll: wheel_offset(
                self.scroll,
                delta,
                scroll_limit(line_count(self.text), Area::inner(height)),
            ),
            ..self
        }
    }

    /// The wheel turned sideways by `delta` columns in an area of `width`
    /// columns, the longest line being `max_line_width` characters.
    pub open spec fn wheeled_sideways(self, delta: int, width: u16, max_line_width: nat)
        -> EditorView {
        EditorView {
            follow: false,
            hscroll: wheel_offset(
                self.hscroll,
                delta,
                scroll_limit(max_line_width, self.content_width(width)),
            ),
            ..self
        }
    }

    /// Whether a click at `(x, y)` falls on the text rows of `area`.
    pub open spec fn click_hits(area: Area, x: u16, y: u16) -> bool {
        area.x + 1 <= x < area.x + area.width - 1 && area.y + 1 <= y < area.y + area.height - 1
    }

    /// A click at `(x, y)`. On a text row that shows a line, the cursor goes
    /// to that line: to its start for a click on the gutter, else to the
    /// column under the click.
    pub open spec fn clicked(self, x: u16, y: u16, area: Area) -> EditorView {
        if Self::click_hits(area, x, y) {
            let line = (y - area.y - 1 + self.scroll) as nat;
            let gutter = gutter_width(line_count(self.text));
            if line < line_count(self.text) {
                if x < area.x + 1 + gutter {
                    self.moved_to(line, 0)
                } else {
                    let dc = capped((x - area.x - 1 - gutter + self.hscroll) as nat) as nat;
                    self.moved_to(line, click_column(line_chars(self.text, line), dc))
                }
            } else {
                self.moved_to(self.line, self.col)
            }
        } else {
            self
        }
    }
}

/// One step of editing or of moving the cursor.
#[derive(Clone, Copy, Debug, PartialEq, Eq, Structural)]
pub enum EditStep {
    Insert(char),
    Backspace,
    Delete,
    KillLine,
    Up,
    Down,
    Left,
    Right,
    LineStart,
    LineEnd,
}

impl EditorView {
    /// The editor after one step.
    pub open spec fn stepped(self, step: EditStep) -> EditorView {
        match step {
            EditStep::Insert(c) => self.inserted(c),
            EditStep::Backspace => self.backspaced(),
            EditStep::Delete => self.deleted(),
            EditStep::KillLine => self.killed(),
            EditStep::Up => self.moved_up(),
            EditStep::Down => self.moved_down(),
            EditStep::Left => self.moved_left(),
            EditStep::Right => self.moved_right(),
            EditStep::LineStart => self.moved_to(self.line, 0),
            EditStep::LineEnd => self.moved_to(self.line, line_len(self.text, self.line)),
        }
    }

    /// The editor after a sequence of steps.
    pub open spec fn run(self, steps: Seq<EditStep>) -> EditorView
        decreases steps.len(),
    {
        if steps.len() == 0 {
            self
        } else {
            self.run(steps.drop_last()).stepped(steps.last())
        }
    }
}

/// The cursor of a valid editor names a character index of the text, or its
/// end, and that index names the cursor's line and column again.
pub proof fn lemma_cursor_round_trip(v: EditorView)
    requires
        v.wf(),
    ensures
        v.index() <= v.text.len(),
        line_of_index(v.text, v.index() as int) == v.line,
        v.index() - line_start(v.text, line_of_index(v.text, v.index() as int)) == v.col,
{
    lemma_position_round_trip(v.text, v.line, v.col);
}

/// Taking out text that begins at the cursor leaves the cursor valid.
pub proof fn lemma_cut_keeps_cursor(v: EditorView, end: int)
    requires
        v.wf(),
        v.index() <= end <= v.text.len(),
    ensures
        v.with_text(v.text.take(v.index() as int) + v.text.skip(end)).wf(),
{
    let s = v.text;
    let k = v.line;
    let t = after_lines(s, k);
    let p = line_start(s, k) as int;
    let col = v.col as int;
    lemma_position_round_trip(s, k, v.col);
    lemma_first_line(t);
    lemma_after_lines_len(s, k);
    let t2 = t.take(col) + t.skip(end - p);
    lemma_replace_tail(s, k, t2);
    lemma_replace_tail(s, k, t);
    assert(s.take(p + col) + s.skip(end) =~= s.take(p) + t2);
    lemma_first_line_at_least(t2, v.col);
}

/// Typing a character leaves the cursor valid, and makes the text one
/// character, and for a line feed one line, longer.
pub proof fn lemma_inserted_wf(v: EditorView, c: char)
    requires
        v.wf(),
    ensures
        v.inserted(c).wf(),
        v.inserted(c).text.len() == v.text.len() + 1,
        line_count(v.inserted(c).text) == line_count(v.text) + if c == '\n' { 1nat } else { 0nat },
        c != '\n' ==> line_len(v.inserted(c).text, v.line) == line_len(v.text, v.line) + 1,
{
    let s = v.text;
    let k = v.line;
    let t = after_lines(s, k);
    let p = line_start(s, k) as int;
    let col = v.col as int;
    lemma_position_round_trip(s, k, v.col);
    lemma_first_line(t);
    lemma_after_lines_len(s, k);
    let t2 = t.insert(col, c);
    lemma_replace_tail(s, k, t2);
    lemma_replace_tail(s, k, t);
    assert(s.insert(p + col, c) =~= s.take(p) + t2);
    lemma_newline_count_insert(s, p + col, c);
    if c != '\n' {
        let n = first_line_len(t);
        assert forall|j: int| 0 <= j < n + 1 implies t2[j] != '\n' by {
            if j < col {
                assert(t2[j] == t[j]);
            } else if j > col {
                assert(t2[j] == t[j - 1]);
            }
        }
        if n < t.len() {
            assert(t2[n as int + 1] == t[n as int]);
        }
        crate::text::lemma_first_line_is(t2, n + 1);
    }
}

/// What stands in front of a valid cursor: a line feed exactly when the
/// cursor is at the start of a line that is not the first.
pub proof fn lemma_before_cursor(v: EditorView)
    requires
        v.wf(),
        v.index() > 0,
    ensures
        v.index() <= v.text.len(),
        v.text[v.index() - 1] == '\n' <==> v.col == 0,
        v.col == 0 ==> v.line > 0,
{
    let s = v.text;
    let k = v.line;
    let t = after_lines(s, k);
    lemma_position_round_trip(s, k, v.col);
    lemma_first_line(t);
    lemma_line_prefix(s, k);
    lemma_replace_tail(s, k, t);
    if v.col > 0 {
        let p = line_start(s, k) as int;
        assert(s[p + v.col - 1] == t[v.col - 1]);
    }
}

/// Taking out the character in front of the cursor leaves the cursor valid.
pub proof fn lemma_backspaced_wf(v: EditorView)
    requires
        v.wf(),
    ensures
        v.backspaced().wf(),
{
    let s = v.text;
    let k = v.line;
    let i = v.index() as int;
    lemma_position_round_trip(s, k, v.col);
    if i > 0 {
        lemma_before_cursor(v);
        let s2 = s.take(i - 1) + s.skip(i);
        if s[i - 1] == '\n' {
            lemma_newline_count_cut(s, i - 1, i);
            let one = s.subrange(i - 1, i);
            assert(one.skip(1) =~= Seq::<char>::empty());
            assert(newline_count(one.skip(1)) == 0);
            assert(newline_count(one) == 1);
        } else {
            let t = after_lines(s, k);
            let p = line_start(s, k) as int;
            let col = v.col as int;
            lemma_first_line(t);
            lemma_after_lines_len(s, k);
            let t2 = t.take(col - 1) + t.skip(col);
            lemma_replace_tail(s, k, t2);
            lemma_replace_tail(s, k, t);
            assert(s2 =~= s.take(p) + t2);
            lemma_first_line_at_least(t2, (col - 1) as nat);
        }
    }
}

/// Taking out the character under the cursor leaves the cursor valid.
pub proof fn lemma_deleted_wf(v: EditorView)
    requires
        v.wf(),
    ensures
        v.deleted().wf(),
{
    lemma_position_round_trip(v.text, v.line, v.col);
    if v.index() < v.text.len() {
        lemma_cut_keeps_cursor(v, v.index() as int + 1);
    }
}

/// Taking out the rest of the line leaves the cursor valid.
pub proof fn lemma_killed_wf(v: EditorView)
    requires
        v.wf(),
    ensures
        v.killed().wf(),
{
    lemma_position_round_trip(v.text, v.line, v.col);
    lemma_deleted_wf(v);
    if v.col < line_len(v.text, v.line) {
        lemma_next_line_start(v.text, v.line);
        lemma_cut_keeps_cursor(v, v.index() - v.col + line_len(v.text, v.line));
    }
}

/// One step of editing or moving leaves the cursor valid.
pub proof fn lemma_stepped_wf(v: EditorView, step: EditStep)
    requires
        v.wf(),
    ensures
        v.stepped(step).wf(),
{
    match step {
        EditStep::Insert(c) => lemma_inserted_wf(v, c),
        EditStep::Backspace => lemma_backspaced_wf(v),
        EditStep::Delete => lemma_deleted_wf(v),
        EditStep::KillLine => lemma_killed_wf(v),
        _ => {},
    }
}

/// Whatever sequence of steps an editor goes through, its cursor names a
/// character index of the text, or its end, and that index names the
/// cursor's line and column again.
pub proof fn lemma_run_keeps_cursor(v: EditorView, steps: Seq<EditStep>)
    requires
        v.wf(),
    ensures
        v.run(steps).wf(),
        v.run(steps).index() <= v.run(steps).text.len(),
        line_of_index(v.run(steps).text, v.run(steps).index() as int) == v.run(steps).line,
        v.run(steps).index() - line_start(
            v.run(steps).text,
            line_of_index(v.run(steps).text, v.run(steps).index() as int),
        ) == v.run(steps).col,
    decreases steps.len(),
{
    if steps.len() > 0 {
        lemma_run_keeps_cursor(v, steps.drop_last());
        lemma_stepped_wf(v.run(steps.drop_last()), steps.last());
    }
    lemma_cursor_round_trip(v.run(steps));
}

/// Whatever the wheel does, the sideways offset stays within what the
/// longest line leaves to scroll, and is 0 where every line fits.
pub proof fn lemma_wheeled_sideways_within(
    v: EditorView,
    delta: int,
    width: u16,
    max_line_width: nat,
)
    ensures
        v.wheeled_sideways(delta, width, max_line_width).hscroll <= scroll_limit(
            max_line_width,
            v.content_width(width),
        ),
        max_line_width <= v.content_width(width) ==> v.wheeled_sideways(
            delta,
            width,
            max_line_width,
        ).hscroll == 0,
{
}

/// Typing a character and taking it out again gives back the text.
pub proof fn lemma_insert_then_backspace(v: EditorView, c: char)
    requires
        v.wf(),
    ensures
        v.inserted(c).backspaced().text == v.text,
        removed(v.text.insert(v.index() as int, c), v.index() as int, v.index() as int + 1)
            == v.text,
{
    let s = v.text;
    let k = v.line;
    let i = v.index() as int;
    let w = v.inserted(c);
    lemma_position_round_trip(s, k, v.col);
    lemma_inserted_wf(v, c);
    let s2 = s.insert(i, c);
    assert(s2.take(i) + s2.skip(i + 1) =~= s);
    if c == '\n' {
        let t = after_lines(s, k);
        let t2 = t.insert(v.col as int, c);
        lemma_first_line(t);
        lemma_after_lines_len(s, k);
        lemma_replace_tail(s, k, t2);
        lemma_replace_tail(s, k, t);
        assert(s2 =~= s.take(line_start(s, k) as int) + t2);
        assert forall|j: int| 0 <= j < v.col implies t2[j] != '\n' by {
            assert(t2[j] == t[j]);
        }
        crate::text::lemma_first_line_is(t2, v.col);
        lemma_next_line_start(s2, k);
        assert(w.index() == i + 1);
    } else {
        lemma_replace_tail(s, k, after_lines(s, k));
        let t = after_lines(s, k);
        let t2 = t.insert(v.col as int, c);
        lemma_after_lines_len(s, k);
        lemma_first_line(t);
        lemma_replace_tail(s, k, t2);
        assert(s2 =~= s.take(line_start(s, k) as int) + t2);
        assert(w.index() == i + 1);
    }
}

/// A document that was just loaded or saved is not unsaved, and one typed
/// character makes it so.
pub proof fn lemma_typing_makes_unsaved(v: EditorView, c: char)
    requires
        v.wf(),
        !v.unsaved(),
    ensures
        v.inserted(c).unsaved(),
{
    lemma_inserted_wf(v, c);
}

/// One open document with its cursor and scroll offsets.
pub struct Editor {
    buffer: TextBuffer,
    saved_content: String,
    cursor_line: usize,
    cursor_col: usize,
    scroll_offset: usize,
    horizontal_scroll: usize,
    follow_cursor: bool,
    dirty: bool,
}

impl View for Editor {
    type V = EditorView;

    closed spec fn view(&self) -> EditorView {
        EditorView {
            text: self.buffer@,
            saved: self.saved_content@,
            line: self.cursor_line as nat,
            col: self.cursor_col as nat,
            scroll: self.scroll_offset as nat,
            hscroll: self.horizontal_scroll as nat,
            follow: self.follow_cursor,
            dirty: self.dirty,
        }
    }
}

impl Editor {
    /// The cursor stands on a line of the text and not behind its end.
    pub open spec fn wf(&self) -> bool {
        self@.wf()
    }

    /// An editor on the empty document.
    pub fn new() -> (e: Editor)
        ensures
            e@ == EditorView::opened(Seq::<char>::empty()),
            e.wf(),
    {
        Editor {
            buffer: TextBuffer::new(),
            saved_content: String::new(),
            cursor_line: 0,
            cursor_col: 0,
            scroll_offset: 0,
            horizontal_scroll: 0,
            follow_cursor: true,
            dirty: true,
        }
    }

    /// An editor on a document just loaded with `content`: cursor and
    /// offsets at the origin, nothing unsaved.
    pub fn open(content: String) -> (e: Editor)
        ensures
            e@ == EditorView::opened(content@),
            e.wf(),
            !e@.unsaved(),
    {
        Editor {
            buffer: TextBuffer::from_str(content.as_str()),
            saved_content: content,
            cursor_line: 0,
            cursor_col: 0,
            scroll_offset: 0,
            horizontal_scroll: 0,
            follow_cursor: true,
            dirty: true,
        }
    }

    /// A second editor in the same state.
    pub fn snapshot(&self) -> (e: Editor)
        ensures
            e@ == self@,
    {
        Editor {
            buffer: self.buffer.snapshot(),
            saved_content: self.saved_content.clone(),
            cursor_line: self.cursor_line,
            cursor_col: self.cursor_col,
            scroll_offset: self.scroll_offset,
            horizontal_scroll: self.horizontal_scroll,
            follow_cursor: self.follow_cursor,
            dirty: self.dirty,
        }
    }

    /// The cursor's line, counted from 0.
    pub fn cursor_line(&self) -> (r: usize)
        ensures
            r == self@.line,
    {
        self.cursor_line
    }

    /// The cursor's column in characters, counted from 0.
    pub fn cursor_col(&self) -> (r: usize)
        ensures
            r == self@.col,
    {
        self.cursor_col
    }

    /// The first line shown.
    pub fn scroll_offset(&self) -> (r: usize)
        ensures
            r == self@.scroll,
    {
        self.scroll_offset
    }

    /// The first column shown.
    pub fn horizontal_scroll(&self) -> (r: usize)
        ensures
            r == self@.hscroll,
    {
        self.horizontal_scroll
    }

    /// Whether the next scroll update brings the cursor into view.
    pub fn follows_cursor(&self) -> (r: bool)
        ensures
            r == self@.follow,
    {
        self.follow_cursor
    }

    /// Whether the text changed since the caches were last rebuilt.
    pub fn is_dirty(&self) -> (r: bool)
        ensures
            r == self@.dirty,
    {
        self.dirty
    }

    /// Marks the caches as stale.
    pub fn set_dirty(&mut self)
        ensures
            final(self)@ == (EditorView { dirty: true, ..old(self)@ }),
    {
        self.dirty = true;
    }

    /// Marks the caches as rebuilt from the present text.
    pub fn clear_dirty(&mut self)
        ensures
            final(self)@ == (EditorView { dirty: false, ..old(self)@ }),
    {
        self.dirty = false;
    }

    /// The number of lines of the text.
    pub fn len_lines(&self) -> (n: usize)
        ensures
            n == line_count(self@.text),
    {
        self.buffer.len_lines()
    }

    /// The whole text as one string.
    pub fn content(&self) -> (s: String)
        ensures
            s@ == self@.text,
    {
        self.buffer.to_string()
    }

    /// Whether the text differs from what was last loaded or saved. It is
    /// compared each time, never remembered.
    pub fn is_unsaved(&self) -> (r: bool)
        ensures
            r == self@.unsaved(),
    {
        let now = self.buffer.to_string();
        !(now == self.saved_content)
    }

    /// Records that the present text was written out.
    pub fn mark_saved(&mut self)
        ensures
            final(self)@ == (EditorView { saved: old(self)@.text, ..old(self)@ }),
            !final(self)@.unsaved(),
    {
        self.saved_content = self.buffer.to_string();
    }

    /// The length of the cursor's line in characters, its line feed not
    /// counted.
    pub fn current_line_len(&self) -> (n: usize)
        requires
            self.wf(),
        ensures
            n == line_len(self@.text, self@.line),
    {
        self.buffer.line_len(self.cursor_line)
    }

    /// The character index of the cursor.
    pub fn cursor_char_idx(&self) -> (idx: usize)
        requires
            self.wf(),
        ensures
            idx == self@.index(),
            idx <= self@.text.len(),
    {
        proof {
            lemma_position_round_trip(self@.text, self@.line, self@.col);
        }
        let len = self.buffer.len_chars();
        match self.buffer.line_to_char(self.cursor_line) {
            Some(start) => start + self.cursor_col,
            None => len,
        }
    }

    /// The display column of the cursor: the widths of the characters in
    /// front of it on its line, added up and held at the largest `usize`.
    pub fn cursor_display_col(&self) -> (r: usize)
        requires
            self.wf(),
        ensures
            r == self@.display_col(),
    {
        let ghost s = self@.text;
        let ghost k = self@.line;
        let ghost line = line_chars(s, k);
        proof {
            lemma_position_round_trip(s, k, self@.col);
            lemma_replace_tail(s, k, after_lines(s, k));
            lemma_after_lines_len(s, k);
            lemma_first_line(after_lines(s, k));
        }
        let len = self.buffer.len_chars();
        let start = match self.buffer.line_to_char(self.cursor_line) {
            Some(start) => start,
            None => len,
        };
        let mut total: usize = 0;
        let mut i: usize = 0;
        while i < self.cursor_col
            invariant
                self.wf(),
                s == self@.text,
                k == self@.line,
                line == line_chars(s, k),
                start == line_start(s, k),
                s == s.take(start as int) + after_lines(s, k),
                start + self@.col <= s.len(),
                s.len() <= usize::MAX,
                self@.col <= line.len(),
                line.len() == line_len(s, k),
                line.len() <= after_lines(s, k).len(),
                i <= self@.col,
                total == capped(display_width(line.take(i as int))),
            decreases self.cursor_col - i,
        {
            let c = match self.buffer.char_at(start + i) {
                Some(c) => c,
                None => ' ',
            };
            proof {
                assert(s[start + i] == after_lines(s, k)[i as int]);
                assert(line[i as int] == after_lines(s, k)[i as int]);
                assert(c == line[i as int]);
                assert(line.take(i + 1).drop_last() =~= line.take(i as int));
            }
            total = saturating_sum(total, char_columns(c));
            i = i + 1;
        }
        total
    }

    /// The character column on line `line_idx` that a click at display
    /// column `display_col` falls on; 0 when there is no such line.
    pub fn display_col_to_char_col(&self, line_idx: usize, display_col: usize) -> (r: usize)
        ensures
            r == if line_idx < line_count(self@.text) {
                click_column(line_chars(self@.text, line_idx as nat), display_col as nat)
            } else {
                0
            },
            line_idx < line_count(self@.text) ==> r <= line_len(self@.text, line_idx as nat),
    {
        let ghost s = self@.text;
        let ghost k = line_idx as nat;
        let ghost line = line_chars(s, k);
        let start = match self.buffer.line_to_char(line_idx) {
            Some(start) => start,
            None => {
                return 0;
            },
        };
        let n = self.buffer.line_len(line_idx);
        proof {
            lemma_replace_tail(s, k, after_lines(s, k));
            lemma_after_lines_len(s, k);
            lemma_first_line(after_lines(s, k));
        }
        let mut left: usize = display_col;
        let mut i: usize = 0;
        assert(line.skip(0) =~= line);
        while i < n
            invariant
                s == self@.text,
                k == line_idx,
                k < line_count(s),
                line == line_chars(s, k),
                line.len() == n,
                n == line_len(s, k),
                line.len() <= after_lines(s, k).len(),
                start == line_start(s, k),
                s == s.take(start as int) + after_lines(s, k),
                start + n <= s.len(),
                s.len() <= usize::MAX,
                i <= n,
                click_column(line, display_col as nat) == i + click_column(
                    line.skip(i as int),
                    left as nat,
                ),
            decreases n - i,
        {
            let c = match self.buffer.char_at(start + i) {
                Some(c) => c,
                None => ' ',
            };
            proof {
                assert(s[start + i] == after_lines(s, k)[i as int]);
                assert(line[i as int] == after_lines(s, k)[i as int]);
                assert(c == line.skip(i as int)[0]);
                assert(line.skip(i as int).skip(1) =~= line.skip(i + 1));
            }
            let w = char_columns(c);
            if w > left {
                return i;
            }
            left = left - w;
            i = i + 1;
        }
        i
    }

    /// Brings the column back to the end of the cursor's line where it
    /// lies behind it.
    pub fn clamp_cursor_col(&mut self)
        requires
            old(self)@.line < line_count(old(self)@.text),
        ensures
            final(self)@ == (EditorView {
                col: if old(self)@.col > line_len(old(self)@.text, old(self)@.line) {
                    line_len(old(self)@.text, old(self)@.line)
                } else {
                    old(self)@.col
                },
                ..old(self)@
            }),
            final(self).wf(),
    {
        let n = self.buffer.line_len(self.cursor_line);
        if self.cursor_col > n {
            self.cursor_col = n;
        }
    }

    /// Moves the cursor one line up.
    pub fn move_up(&mut self)
        requires
            old(self).wf(),
        ensures
            final(self)@ == old(self)@.moved_up(),
            final(self).wf(),
    {
        self.follow_cursor = true;
        if self.cursor_line > 0 {
            self.cursor_line = self.cursor_line - 1;
            self.clamp_cursor_col();
        }
    }

    /// Moves the cursor one line down.
    pub fn move_down(&mut self)
        requires
            old(self).wf(),
        ensures
            final(self)@ == old(self)@.moved_down(),
            final(self).wf(),
    {
        self.follow_cursor = true;
        let lines = self.buffer.len_lines();
        if self.cursor_line + 1 < lines {
            self.cursor_line = self.cursor_line + 1;
            self.clamp_cursor_col();
        }
    }

    /// Moves the cursor one character back.
    pub fn move_left(&mut self)
        requires
            old(self).wf(),
        ensures
            final(self)@ == old(self)@.moved_left(),
            final(self).wf(),
    {
        self.follow_cursor = true;
        if self.cursor_col > 0 {
            self.cursor_col = self.cursor_col - 1;
        } else if self.cursor_line > 0 {
            self.cursor_line = self.cursor_line - 1;
            self.cursor_col = self.buffer.line_len(self.cursor_line);
        }
    }

    /// Moves the cursor one character on.
    pub fn move_right(&mut self)
        requires
            old(self).wf(),
        ensures
            final(self)@ == old(self)@.moved_right(),
            final(self).wf(),
    {
        self.follow_cursor = true;
        let n = self.buffer.line_len(self.cursor_line);
        let lines = self.buffer.len_lines();
        if self.cursor_col < n {
            self.cursor_col = self.cursor_col + 1;
        } else if self.cursor_line + 1 < lines {
            self.cursor_line = self.cursor_line + 1;
            self.cursor_col = 0;
        }
    }

    /// Moves the cursor to the start of its line.
    pub fn move_to_line_start(&mut self)
        requires
            old(self).wf(),
        ensures
            final(self)@ == old(self)@.moved_to(old(self)@.line, 0),
            final(self).wf(),
    {
        self.follow_cursor = true;
        self.cursor_col = 0;
    }

    /// Moves the cursor to the end of its line.
    pub fn move_to_line_end(&mut self)
        requires
            old(self).wf(),
        ensures
            final(self)@ == old(self)@.moved_to(
                old(self)@.line,
                line_len(old(self)@.text, old(self)@.line),
            ),
            final(self).wf(),
    {
        self.follow_cursor = true;
        self.cursor_col = self.buffer.line_len(self.cursor_line);
    }

    /// Types `c` at the cursor.
    pub fn insert_char(&mut self, c: char)
        requires
            old(self).wf(),
        ensures
            final(self)@ == old(self)@.inserted(c),
            final(self).wf(),
            final(self)@.dirty,
            final(self)@.follow,
    {
        let idx = self.cursor_char_idx();
        proof {
            lemma_inserted_wf(self@, c);
        }
        self.buffer.insert(idx, c);
        proof {
            lemma_newline_count_bound(self.buffer@);
            lemma_next_line_start(self.buffer@, self.cursor_line as nat);
        }
        self.follow_cursor = true;
        self.dirty = true;
        if c == '\n' {
            self.cursor_line = self.cursor_line + 1;
            self.cursor_col = 0;
        } else {
            self.cursor_col = self.cursor_col + 1;
        }
    }

    /// Takes out the character in front of the cursor, if there is one.
    pub fn delete_char_backspace(&mut self)
        requires
            old(self).wf(),
        ensures
            final(self)@ == old(self)@.backspaced(),
            final(self).wf(),
            final(self)@.follow,
    {
        self.follow_cursor = true;
        let idx = self.cursor_char_idx();
        if idx > 0 {
            proof {
                lemma_backspaced_wf(self@);
                lemma_before_cursor(self@);
            }
            let prev = match self.buffer.char_at(idx - 1) {
                Some(c) => c,
                None => ' ',
            };
            self.buffer.remove(idx - 1, idx);
            self.dirty = true;
            if prev == '\n' {
                self.cursor_line = self.cursor_line - 1;
                self.cursor_col = self.buffer.line_len(self.cursor_line);
            } else {
                self.cursor_col = self.cursor_col - 1;
            }
        }
    }

    /// Takes out the character under the cursor, if there is one.
    pub fn delete_char_delete(&mut self)
        requires
            old(self).wf(),
        ensures
            final(self)@ == old(self)@.deleted(),
            final(self).wf(),
            final(self)@.follow,
    {
        self.follow_cursor = true;
        let idx = self.cursor_char_idx();
        if idx < self.buffer.len_chars() {
            proof {
                lemma_cut_keeps_cursor(self@, idx + 1);
            }
            self.buffer.remove(idx, idx + 1);
            self.dirty = true;
        }
    }

    /// Takes out the rest of the cursor's line; at the end of a line, the
    /// line feed that follows, which joins the next line to this one.
    pub fn kill_line(&mut self)
        requires
            old(self).wf(),
        ensures
            final(self)@ == old(self)@.killed(),
            final(self).wf(),
            final(self)@.follow,
    {
        self.follow_cursor = true;
        let n = self.buffer.line_len(self.cursor_line);
        let idx = self.cursor_char_idx();
        if self.cursor_col >= n {
            if idx < self.buffer.len_chars() {
                proof {
                    lemma_cut_keeps_cursor(self@, idx + 1);
                }
                self.buffer.remove(idx, idx + 1);
                self.dirty = true;
            }
        } else {
            let end = idx - self.cursor_col + n;
            proof {
                lemma_next_line_start(self@.text, self@.line);
                lemma_cut_keeps_cursor(self@, end as int);
            }
            self.buffer.remove(idx, end);
            self.dirty = true;
        }
    }

    /// Brings the cursor into view if the view follows it: `area` is the
    /// bordered editor area.
    pub fn update_scroll(&mut self, area: &Area)
        requires
            old(self).wf(),
        ensures
            final(self)@ == old(self)@.followed(
                Area::inner(area.height),
                old(self)@.content_width(area.width),
            ),
            final(self).wf(),
    {
        if !self.follow_cursor {
            return ;
        }
        let rows = area.inner_height();
        self.scroll_offset = follow(self.scroll_offset, self.cursor_line, rows);
        let cols = self.content_width(area);
        let dc = self.cursor_display_col();
        self.horizontal_scroll = follow(self.horizontal_scroll, dc, cols);
    }

    /// The columns beside the gutter in the bordered editor area.
    pub fn content_width(&self, area: &Area) -> (w: usize)
        ensures
            w == self@.content_width(area.width),
    {
        let inner = area.inner_width();
        let gutter = line_number_width(self.buffer.len_lines());
        if inner >= gutter {
            inner - gutter
        } else {
            0
        }
    }

    /// The wheel turned by `delta` lines: the view stops following the
    /// cursor, and the offset stays between 0 and the last offset that
    /// still fills the area.
    pub fn handle_editor_scroll(&mut self, delta: i16, area: &Area)
        ensures
            final(self)@ == old(self)@.wheeled(delta as int, area.height),
            final(self)@.scroll <= scroll_limit(
                line_count(old(self)@.text),
                Area::inner(area.height),
            ),
    {
        self.follow_cursor = false;
        let limit = max_scroll(self.buffer.len_lines(), area.inner_height());
        self.scroll_offset = wheel(self.scroll_offset, delta, limit);
    }

    /// The wheel turned sideways by `delta` columns: the view stops
    /// following the cursor, and the offset stays between 0 and what the
    /// longest line, of `max_line_width` characters, leaves to scroll.
    pub fn handle_editor_horizontal_scroll(&mut self, delta: i16, area: &Area, max_line_width: usize)
        ensures
            final(self)@ == old(self)@.wheeled_sideways(
                delta as int,
                area.width,
                max_line_width as nat,
            ),
            final(self)@.hscroll <= scroll_limit(
                max_line_width as nat,
                old(self)@.content_width(area.width),
            ),
    {
        self.follow_cursor = false;
        let limit = max_scroll(max_line_width, self.content_width(area));
        self.horizontal_scroll = wheel(self.horizontal_scroll, delta, limit);
    }

    /// A click at `(x, y)`, `area` being the bordered editor area.
    pub fn handle_editor_click(&mut self, x: u16, y: u16, area: &Area)
        requires
            old(self).wf(),
        ensures
            final(self)@ == old(self)@.clicked(x, y, *area),
            final(self).wf(),
    {
        let gutter = line_number_width(self.buffer.len_lines());
        let xi: u32 = x as u32;
        let yi: u32 = y as u32;
        let ax: u32 = area.x as u32;
        let ay: u32 = area.y as u32;
        if xi >= ax + 1 && xi + 1 < ax + area.width as u32 && yi >= ay + 1 && yi + 1 < ay
            + area.height as u32 {
            self.follow_cursor = true;
            let row: usize = (yi - ay - 1) as usize;
            let clicked_line = saturating_sum(row, self.scroll_offset);
            if clicked_line < self.buffer.len_lines() {
                self.cursor_line = clicked_line;
                let over: usize = (xi - ax - 1) as usize;
                if over < gutter {
                    self.cursor_col = 0;
                } else {
                    let dc = saturating_sum(over - gutter, self.horizontal_scroll);
                    self.cursor_col = self.display_col_to_char_col(clicked_line, dc);
                }
            }
        }
    }
}

} // verus!
