//! Parked documents: the unsaved documents of the tabs that are not shown.

use vstd::prelude::*;
use crate::editor::{Editor, EditorView};
use crate::strings::same_text;

verus! {

/// One parked document.
pub struct Parked {
    path: String,
    editor: Editor,
}

/// The parked documents, each under the path of its file.
pub struct ParkedSet {
    entries: Vec<Parked>,
}

/// The documents that a sequence of entries holds, a later entry for a
/// path replacing an earlier one.
pub closed spec fn held(entries: Seq<Parked>) -> Map<Seq<char>, EditorView>
    decreases entries.len(),
{
    if entries.len() == 0 {
        Map::empty()
    } else {
        held(entries.drop_last()).insert(entries.last().path@, entries.last().editor@)
    }
}

/// Whether an entry is kept under `path`.
spec fn mentions(entries: Seq<Parked>, path: Seq<char>) -> bool {
    exists|i: int| 0 <= i < entries.len() && (#[trigger] entries[i]).path@ == path
}

/// A path holds a document exactly when an entry is kept under it.
proof fn lemma_held_dom(entries: Seq<Parked>, path: Seq<char>)
    ensures
        held(entries).dom().contains(path) <==> mentions(entries, path),
    decreases entries.len(),
{
    if entries.len() > 0 {
        let head = entries.drop_last();
        lemma_held_dom(head, path);
        if mentions(entries, path) {
            let i = choose|i: int| 0 <= i < entries.len() && (#[trigger] entries[i]).path@ == path;
            if i < entries.len() - 1 {
                assert(head[i].path@ == path);
            }
        }
        if mentions(head, path) {
            let i = choose|i: int| 0 <= i < head.len() && (#[trigger] head[i]).path@ == path;
            assert(entries[i].path@ == path);
        }
        if entries.last().path@ == path {
            assert(entries[entries.len() - 1].path@ == path);
        }
    }
}

/// The last entry under a path is the document that the path holds.
proof fn lemma_held_last_match(entries: Seq<Parked>, j: int)
    requires
        0 <= j < entries.len(),
        forall|i: int| j < i < entries.len() ==> (#[trigger] entries[i]).path@ != entries[j].path@,
    ensures
        held(entries).dom().contains(entries[j].path@),
        held(entries)[entries[j].path@] == entries[j].editor@,
    decreases entries.len(),
{
    if j < entries.len() - 1 {
        let head = entries.drop_last();
        assert(entries[entries.len() - 1].path@ != entries[j].path@);
        assert forall|i: int| j < i < head.len() implies (#[trigger] head[i]).path@
            != head[j].path@ by {
            assert(head[i] == entries[i]);
        }
        lemma_held_last_match(head, j);
    }
}

/// Once a path is let go, it does not matter whether one of its entries
/// went before.
proof fn lemma_held_remove(entries: Seq<Parked>, j: int)
    requires
        0 <= j < entries.len(),
    ensures
        held(entries.remove(j)).remove(entries[j].path@) == held(entries).remove(
            entries[j].path@,
        ),
    decreases entries.len(),
{
    let k = entries[j].path@;
    let head = entries.drop_last();
    if j == entries.len() - 1 {
        assert(entries.remove(j) =~= head);
        assert(held(head).insert(k, entries[j].editor@).remove(k) =~= held(head).remove(k));
    } else {
        lemma_held_remove(head, j);
        let cut = entries.remove(j);
        assert(cut.drop_last() =~= head.remove(j));
        assert(cut.last() == entries.last());
        let lk = entries.last().path@;
        let lv = entries.last().editor@;
        assert(held(head.remove(j)).insert(lk, lv).remove(k) =~= held(head.remove(j)).remove(
            k,
        ).insert(lk, lv).remove(k));
        assert(held(head).insert(lk, lv).remove(k) =~= held(head).remove(k).insert(lk, lv).remove(
            k,
        ));
    }
}

impl View for ParkedSet {
    type V = Map<Seq<char>, EditorView>;

    closed spec fn view(&self) -> Map<Seq<char>, EditorView> {
        held(self.entries@)
    }
}

impl ParkedSet {
    /// No document is parked.
    pub fn new() -> (p: ParkedSet)
        ensures
            p@ == Map::<Seq<char>, EditorView>::empty(),
    {
        ParkedSet { entries: Vec::new() }
    }

    /// Whether a document is parked under `path`.
    pub fn contains_key(&self, path: &str) -> (r: bool)
        ensures
            r == self@.dom().contains(path@),
    {
        let mut i: usize = 0;
        while i < self.entries.len()
            invariant
                i <= self.entries@.len(),
                forall|k: int| 0 <= k < i ==> (#[trigger] self.entries@[k]).path@ != path@,
            decreases self.entries@.len() - i,
        {
            if same_text(self.entries[i].path.as_str(), path) {
                proof {
                    lemma_held_dom(self.entries@, path@);
                    assert(self.entries@[i as int].path@ == path@);
                }
                return true;
            }
            i = i + 1;
        }
        proof {
            lemma_held_dom(self.entries@, path@);
        }
        false
    }

    /// Parks `editor` under `path`, in place of what was parked there.
    pub fn insert(&mut self, path: String, editor: Editor)
        ensures
            final(self)@ == old(self)@.insert(path@, editor@),
    {
        self.entries.push(Parked { path, editor });
        proof {
            assert(self.entries@.drop_last() =~= old(self).entries@);
        }
    }

    /// Takes out what is parked under `path`, and hands it back.
    pub fn remove(&mut self, path: &str) -> (r: Option<Editor>)
        ensures
            final(self)@ == old(self)@.remove(path@),
            match r {
                Some(e) => old(self)@.dom().contains(path@) && e@ == old(self)@[path@],
                None => !old(self)@.dom().contains(path@),
            },
    {
        let ghost first = self.entries@;
        let mut found: Option<Editor> = None;
        let mut i: usize = self.entries.len();
        while i > 0
            invariant
                i <= self.entries@.len(),
                i <= first.len(),
                self.entries@.take(i as int) == first.take(i as int),
                forall|k: int| i <= k < self.entries@.len() ==> (#[trigger] self.entries@[k]).path@
                    != path@,
                held(self.entries@).remove(path@) == held(first).remove(path@),
                match found {
                    Some(e) => held(first).dom().contains(path@) && e@ == held(first)[path@],
                    None => forall|k: int| i <= k < first.len() ==> (#[trigger] first[k]).path@
                        != path@,
                },
            decreases i,
        {
            let ghost before = self.entries@;
            proof {
                assert(before[i - 1] == before.take(i as int)[i - 1]);
                assert(first[i - 1] == first.take(i as int)[i - 1]);
            }
            if same_text(self.entries[i - 1].path.as_str(), path) {
                let entry = self.entries.remove(i - 1);
                proof {
                    lemma_held_remove(before, i - 1);
                    assert(self.entries@.take(i - 1) =~= first.take(i - 1)) by {
                        assert forall|k: int| 0 <= k < i - 1 implies self.entries@[k]
                            == first[k] by {
                            assert(before.take(i as int)[k] == first.take(i as int)[k]);
                        }
                    }
                    if found is None {
                        lemma_held_last_match(first, i - 1);
                    }
                }
                if found.is_none() {
                    found = Some(entry.editor);
                }
            } else {
                proof {
                    assert(self.entries@.take(i - 1) =~= first.take(i - 1)) by {
                        assert forall|k: int| 0 <= k < i - 1 implies self.entries@[k]
                            == first[k] by {
                            assert(before.take(i as int)[k] == first.take(i as int)[k]);
                        }
                    }
                }
            }
            i = i - 1;
        }
        proof {
            lemma_held_dom(self.entries@, path@);
            lemma_held_dom(first, path@);
            assert(held(self.entries@).remove(path@) =~= held(self.entries@));
        }
        found
    }
}

} // verus!
