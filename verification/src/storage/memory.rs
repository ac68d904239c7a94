//! The in-memory note store used by the web client.
use std::collections::HashMap;

use vstd::prelude::*;
use vstd::std_specs::iter::IteratorSpec;

use crate::clock::{Timestamp, before, not_after, utc_now};
use crate::digest::{lowercase_spec, to_lowercase};
use crate::doc::{snapshot_contents, snapshot_exports};
use crate::error::StorageError;
use crate::id::new_note_id;
use crate::note::{Note, NoteId, NoteType, NoteView, default_title_spec};
use crate::storage::edit::{
    content_hash_of, edit_error_ok, edit_list_add, edit_list_remove, edit_list_replace,
    edit_markdown, is_missing_item, is_not_found, list_add_ok, list_remove_ok, list_replace_ok,
    mark_deleted, markdown_edit_ok, merge_remote, merged_ok, new_note, not_found, opt_str_view,
    blob_editable, merge_base, merge_succeeds, snapshot_editable, stored_items,
};
use crate::text::{contains_text, text_contains};

verus! {

broadcast use vstd::std_specs::hash::group_hash_axioms;

/// Notes kept in memory, keyed by id, and the sort order the next new note
/// gets.
pub struct MemoryStore {
    notes: HashMap<NoteId, Note>,
    next_sort_order: i64,
}

impl MemoryStore {
    /// Each note is stored under its own id.
    #[verifier::type_invariant]
    spec fn keyed_by_id(self) -> bool {
        forall|k: NoteId| #[trigger] self.notes@.contains_key(k) ==> self.notes@[k].id == k
    }

    /// The stored notes, by id.
    pub closed spec fn notes_view(self) -> Map<NoteId, NoteView> {
        self.notes@.map_values(|n: Note| n@)
    }

    /// The sort order the next new note gets.
    pub closed spec fn next_order(self) -> i64 {
        self.next_sort_order
    }

    /// An empty store.
    pub fn new() -> (s: MemoryStore)
        ensures
            s.notes_view() == Map::<NoteId, NoteView>::empty(),
            s.next_order() == 0,
    {
        let s = MemoryStore { notes: HashMap::new(), next_sort_order: 0 };
        assert(s.notes_view() =~= Map::<NoteId, NoteView>::empty());
        s
    }

    /// Stores a note as it is, in place of any note with its id.
    pub fn import_note(&mut self, note: Note)
        ensures
            final(self).notes_view() == old(self).notes_view().insert(note.id, note@),
            final(self).next_order() == old(self).next_order(),
    {
        proof {
            use_type_invariant(&*self);
        }
        let id = note.id;
        self.put(id, note);
    }

    pub fn next_sort_order(&self) -> (r: i64)
        ensures
            r == self.next_order(),
    {
        self.next_sort_order
    }

    pub fn set_next_sort_order(&mut self, val: i64)
        ensures
            final(self).next_order() == val,
            final(self).notes_view() == old(self).notes_view(),
    {
        proof {
            use_type_invariant(&*self);
        }
        self.next_sort_order = val;
    }

    /// Stores `note` under `id`, which is its id.
    fn put(&mut self, id: NoteId, note: Note)
        requires
            note.id == id,
        ensures
            final(self).notes_view() == old(self).notes_view().insert(id, note@),
            final(self).next_order() == old(self).next_order(),
    {
        proof {
            use_type_invariant(&*self);
        }
        let ghost before_map = self.notes@;
        let ghost v = note@;
        let mut map: HashMap<NoteId, Note> = HashMap::new();
        std::mem::swap(&mut map, &mut self.notes);
        map.insert(id, note);
        self.notes = map;
        assert(self.notes@.map_values(|n: Note| n@) =~= before_map.map_values(|n: Note| n@).insert(
            id,
            v,
        ));
    }

    /// The note with id `id`.
    pub fn get(&self, id: NoteId) -> (r: Result<Note, StorageError>)
        ensures
            match r {
                Ok(n) => self.notes_view().contains_key(id) && n@ == self.notes_view()[id],
                Err(e) => !self.notes_view().contains_key(id) && is_not_found(e, id),
            },
    {
        match self.notes.get(&id) {
            Some(n) => Ok(n.duplicate()),
            None => Err(not_found(id)),
        }
    }

    /// Creates an empty note of a type, in a folder or in none.
    pub fn create(&mut self, note_type: NoteType, folder_id: Option<NoteId>) -> (r: Result<
        Note,
        StorageError,
    >)
        requires
            old(self).next_order() < i64::MAX,
        ensures
            r is Ok,
            match r {
                Ok(n) => {
                    &&& n.content_loro_blob@.len() > 0
                    &&& snapshot_exports(n.content_loro_blob@)
                    &&& n.note_type == note_type
                    &&& n.folder_id == folder_id
                    &&& n.title@ == default_title_spec(note_type)
                    &&& n.content_plaintext@ == Seq::<char>::empty()
                    &&& n.content_hash@ == content_hash_of(seq![])
                    &&& n.created_at == n.updated_at
                    &&& !n.is_deleted
                    &&& n.deleted_at is None
                    &&& n.sort_order == old(self).next_order()
                    &&& snapshot_contents(n.content_loro_blob@) == Some(
                        (
                            Seq::<char>::empty(),
                            Seq::<Seq<char>>::empty(),
                            Some(default_title_spec(note_type)),
                        ),
                    )
                    &&& final(self).next_order() == old(self).next_order() + 1
                    &&& final(self).notes_view() == old(self).notes_view().insert(n.id, n@)
                },
                Err(e) => {
                    &&& e is Loro
                    &&& final(self).notes_view() == old(self).notes_view()
                    &&& final(self).next_order() == old(self).next_order()
                },
            },
    {
        let id = new_note_id();
        let now = utc_now();
        let note = match new_note(id, note_type, folder_id, now, self.next_sort_order) {
            Ok(n) => n,
            Err(e) => {
                return Err(e);
            },
        };
        proof {
            use_type_invariant(&*self);
        }
        self.next_sort_order = self.next_sort_order + 1;
        let stored = note.duplicate();
        self.put(id, stored);
        Ok(note)
    }

    /// Replaces a markdown note's text and, when one is given, its title.
    pub fn update(&mut self, id: NoteId, new_content: &str, title_override: Option<&str>) -> (r:
        Result<Note, StorageError>)
        ensures
            final(self).next_order() == old(self).next_order(),
            !old(self).notes_view().contains_key(id) ==> (r matches Err(e) && is_not_found(e, id)
                && final(self).notes_view() == old(self).notes_view()),
            old(self).notes_view().contains_key(id) ==> match r {
                Ok(n) => markdown_edit_ok(
                    old(self).notes_view()[id],
                    new_content@,
                    opt_str_view(title_override),
                    n@,
                ) && final(self).notes_view() == old(self).notes_view().insert(id, n@),
                Err(e) => edit_error_ok(old(self).notes_view()[id], NoteType::Markdown, e)
                    && final(self).notes_view() == old(self).notes_view(),
            },
            old(self).notes_view().contains_key(id) && old(self).notes_view()[id].note_type
                == NoteType::Markdown && blob_editable(old(self).notes_view()[id].content_loro_blob)
                ==> r is Ok,
    {
        proof {
            use_type_invariant(&*self);
        }
        let existing = match self.get(id) {
            Ok(n) => n,
            Err(e) => {
                return Err(e);
            },
        };
        let now = utc_now();
        let note = match edit_markdown(&existing, new_content, title_override, now) {
            Ok(n) => n,
            Err(e) => {
                return Err(e);
            },
        };
        proof {
            use_type_invariant(&*self);
        }
        let stored = note.duplicate();
        self.put(id, stored);
        Ok(note)
    }
}

impl MemoryStore {
    /// Appends an item to a list note.
    pub fn list_add_item(&mut self, id: NoteId, item: &str) -> (r: Result<Note, StorageError>)
        ensures
            final(self).next_order() == old(self).next_order(),
            !old(self).notes_view().contains_key(id) ==> (r matches Err(e) && is_not_found(e, id)
                && final(self).notes_view() == old(self).notes_view()),
            old(self).notes_view().contains_key(id) ==> match r {
                Ok(n) => list_add_ok(old(self).notes_view()[id], item@, n@)
                    && final(self).notes_view() == old(self).notes_view().insert(id, n@),
                Err(e) => edit_error_ok(old(self).notes_view()[id], NoteType::List, e)
                    && final(self).notes_view() == old(self).notes_view(),
            },
            old(self).notes_view().contains_key(id) && old(self).notes_view()[id].note_type
                == NoteType::List && snapshot_editable(old(self).notes_view()[id].content_loro_blob)
                ==> r is Ok,
    {
        proof {
            use_type_invariant(&*self);
        }
        let existing = match self.get(id) {
            Ok(n) => n,
            Err(e) => {
                return Err(e);
            },
        };
        let now = utc_now();
        let note = match edit_list_add(&existing, item, now) {
            Ok(n) => n,
            Err(e) => {
                return Err(e);
            },
        };
        let stored = note.duplicate();
        self.put(id, stored);
        Ok(note)
    }

    /// Replaces all items of a list note and, when one is given, its title.
    pub fn list_replace_items(
        &mut self,
        id: NoteId,
        new_items: &[String],
        title_override: Option<&str>,
    ) -> (r: Result<Note, StorageError>)
        ensures
            final(self).next_order() == old(self).next_order(),
            !old(self).notes_view().contains_key(id) ==> (r matches Err(e) && is_not_found(e, id)
                && final(self).notes_view() == old(self).notes_view()),
            old(self).notes_view().contains_key(id) ==> match r {
                Ok(n) => list_replace_ok(
                    old(self).notes_view()[id],
                    new_items@.map_values(|s: String| s@),
                    opt_str_view(title_override),
                    n@,
                ) && final(self).notes_view() == old(self).notes_view().insert(id, n@),
                Err(e) => edit_error_ok(old(self).notes_view()[id], NoteType::List, e)
                    && final(self).notes_view() == old(self).notes_view(),
            },
            old(self).notes_view().contains_key(id) && old(self).notes_view()[id].note_type
                == NoteType::List && snapshot_editable(old(self).notes_view()[id].content_loro_blob)
                ==> r is Ok,
    {
        proof {
            use_type_invariant(&*self);
        }
        let existing = match self.get(id) {
            Ok(n) => n,
            Err(e) => {
                return Err(e);
            },
        };
        let now = utc_now();
        let note = match edit_list_replace(&existing, new_items, title_override, now) {
            Ok(n) => n,
            Err(e) => {
                return Err(e);
            },
        };
        let stored = note.duplicate();
        self.put(id, stored);
        Ok(note)
    }

    /// Removes the first item equal to `item` from a list note.
    pub fn list_remove_item(&mut self, id: NoteId, item: &str) -> (r: Result<Note, StorageError>)
        ensures
            final(self).next_order() == old(self).next_order(),
            !old(self).notes_view().contains_key(id) ==> (r matches Err(e) && is_not_found(e, id)
                && final(self).notes_view() == old(self).notes_view()),
            old(self).notes_view().contains_key(id) ==> match r {
                Ok(n) => list_remove_ok(old(self).notes_view()[id], item@, n@)
                    && final(self).notes_view() == old(self).notes_view().insert(id, n@),
                Err(e) => (edit_error_ok(old(self).notes_view()[id], NoteType::List, e)
                    || is_missing_item(
                    e,
                    old(self).notes_view()[id].content_loro_blob,
                    item@,
                )) && final(self).notes_view() == old(self).notes_view(),
            },
            old(self).notes_view().contains_key(id) && old(self).notes_view()[id].note_type
                == NoteType::List && snapshot_contents(old(self).notes_view()[id].content_loro_blob)
                is Some ==> if stored_items(old(self).notes_view()[id]).contains(item@) {
                snapshot_exports(old(self).notes_view()[id].content_loro_blob) ==> r is Ok
            } else {
                r matches Err(e) && is_missing_item(
                    e,
                    old(self).notes_view()[id].content_loro_blob,
                    item@,
                )
            },
    {
        proof {
            use_type_invariant(&*self);
        }
        let existing = match self.get(id) {
            Ok(n) => n,
            Err(e) => {
                return Err(e);
            },
        };
        let now = utc_now();
        let note = match edit_list_remove(&existing, item, now) {
            Ok(n) => n,
            Err(e) => {
                return Err(e);
            },
        };
        let stored = note.duplicate();
        self.put(id, stored);
        Ok(note)
    }

    /// Merges a note's state received from another device, creating the
    /// note when the store does not have it.
    pub fn apply_remote_update(&mut self, note_id: NoteId, note_type: NoteType, update_blob: &[u8]) -> (r:
        Result<Note, StorageError>)
        requires
            !old(self).notes_view().contains_key(note_id) && merge_succeeds(
                Seq::<u8>::empty(),
                update_blob@,
            ) ==> old(self).next_order() < i64::MAX,
        ensures
            !old(self).notes_view().contains_key(note_id) && snapshot_contents(update_blob@) is Some ==> (
            snapshot_exports(update_blob@) ==> r is Ok) && (r matches Ok(n) ==> snapshot_contents(
                n.content_loro_blob@,
            ) == snapshot_contents(update_blob@)),
            r is Ok <==> merge_succeeds(
                merge_base(
                    if old(self).notes_view().contains_key(note_id) {
                        Some(old(self).notes_view()[note_id])
                    } else {
                        None
                    },
                ),
                update_blob@,
            ),
            match r {
                Ok(n) => {
                    &&& n.id == note_id
                    &&& if old(self).notes_view().contains_key(note_id) {
                        &&& merged_ok(
                            Some(old(self).notes_view()[note_id]),
                            note_id,
                            note_type,
                            update_blob@,
                            0,
                            n@,
                        )
                        &&& final(self).next_order() == old(self).next_order()
                    } else {
                        &&& merged_ok(None, note_id, note_type, update_blob@, old(self).next_order(), n@)
                        &&& final(self).next_order() == old(self).next_order() + 1
                    }
                    &&& final(self).notes_view() == old(self).notes_view().insert(note_id, n@)
                },
                Err(e) => {
                    &&& e is Loro
                    &&& final(self).notes_view() == old(self).notes_view()
                    &&& final(self).next_order() == old(self).next_order()
                },
            },
    {
        proof {
            use_type_invariant(&*self);
        }
        let now = utc_now();
        let existing = match self.notes.get(&note_id) {
            Some(n) => Some(n.duplicate()),
            None => None,
        };
        match existing {
            Some(e) => {
                let note = match merge_remote(Some(&e), note_id, note_type, update_blob, now, 0) {
                    Ok(n) => n,
                    Err(err) => {
                        return Err(err);
                    },
                };
                let stored = note.duplicate();
                self.put(note_id, stored);
                Ok(note)
            },
            None => {
                let note = match merge_remote(
                    None,
                    note_id,
                    note_type,
                    update_blob,
                    now,
                    self.next_sort_order,
                ) {
                    Ok(n) => n,
                    Err(err) => {
                        return Err(err);
                    },
                };
                self.next_sort_order = self.next_sort_order + 1;
                let stored = note.duplicate();
                self.put(note_id, stored);
                Ok(note)
            },
        }
    }

    /// Marks a note deleted.
    pub fn soft_delete(&mut self, id: NoteId) -> (r: Result<(), StorageError>)
        ensures
            final(self).next_order() == old(self).next_order(),
            match r {
                Ok(()) => old(self).notes_view().contains_key(id) && {
                    let n = final(self).notes_view()[id];
                    &&& final(self).notes_view() == old(self).notes_view().insert(id, n)
                    &&& n == (NoteView {
                        is_deleted: true,
                        deleted_at: Some(n.updated_at),
                        updated_at: n.updated_at,
                        ..old(self).notes_view()[id]
                    })
                },
                Err(e) => !old(self).notes_view().contains_key(id) && is_not_found(e, id)
                    && final(self).notes_view() == old(self).notes_view(),
            },
    {
        proof {
            use_type_invariant(&*self);
        }
        let existing = match self.get(id) {
            Ok(n) => n,
            Err(e) => {
                return Err(e);
            },
        };
        let now = utc_now();
        let note = mark_deleted(&existing, now);
        self.put(id, note);
        Ok(())
    }

    /// Applies a deletion received from another device. Missing notes are
    /// already deleted from this store's point of view, so tombstone replay is
    /// idempotent.
    pub fn apply_remote_delete(&mut self, id: NoteId)
        ensures
            final(self).next_order() == old(self).next_order(),
            remote_deleted(old(self).notes_view(), id, final(self).notes_view()),
    {
        proof {
            use_type_invariant(&*self);
        }
        let existing = match self.notes.get(&id) {
            Some(n) => Some(n.duplicate()),
            None => None,
        };
        if let Some(e) = existing {
            if e.is_deleted {
                return;
            }
            let now = utc_now();
            let note = mark_deleted(&e, now);
            self.put(id, note);
        }
    }
}

/// Whether `after` is the notes `before` with a deletion of note `id`
/// received from another device applied: a stored note that is not deleted
/// is marked deleted at the time of its change; otherwise nothing changes.
pub open spec fn remote_deleted(before: Map<NoteId, NoteView>, id: NoteId, after: Map<NoteId, NoteView>) -> bool {
    if before.contains_key(id) && !before[id].is_deleted {
        let n = after[id];
        &&& after == before.insert(id, n)
        &&& n == (NoteView {
            is_deleted: true,
            deleted_at: Some(n.updated_at),
            updated_at: n.updated_at,
            ..before[id]
        })
    } else {
        after == before
    }
}

/// Applying the same remote deletion twice leaves the notes as applying it
/// once does.
pub proof fn lemma_remote_delete_idempotent(
    before: Map<NoteId, NoteView>,
    mid: Map<NoteId, NoteView>,
    after: Map<NoteId, NoteView>,
    id: NoteId,
)
    requires
        remote_deleted(before, id, mid),
        remote_deleted(mid, id, after),
    ensures
        after == mid,
        mid.contains_key(id) ==> mid[id].is_deleted,
        mid.dom() == before.dom(),
{
    if before.contains_key(id) && !before[id].is_deleted {
        assert(mid.contains_key(id));
        assert(mid.dom() =~= before.dom());
    }
}

impl Default for MemoryStore {
    fn default() -> (s: MemoryStore)
        ensures
            s.notes_view() == Map::<NoteId, NoteView>::empty(),
            s.next_order() == 0,
    {
        MemoryStore::new()
    }
}

/// Whether a note is listed: not deleted, and in the folder when one is
/// asked for.
pub open spec fn listed_in(v: NoteView, folder_id: Option<NoteId>) -> bool {
    !v.is_deleted && (folder_id is None || v.folder_id == folder_id)
}

/// Whether a note is found by a search: not deleted, and its title or text
/// holds the query, ignoring case.
pub open spec fn found_by(v: NoteView, query: Seq<char>) -> bool {
    &&& !v.is_deleted
    &&& contains_text(lowercase_spec(v.title), lowercase_spec(query)) || contains_text(
        lowercase_spec(v.content_plaintext),
        lowercase_spec(query),
    )
}

/// A deleted note is in no listing and in no search result.
pub proof fn lemma_deleted_note_not_listed(
    notes: Map<NoteId, NoteView>,
    result: Seq<NoteView>,
    pick: spec_fn(NoteView) -> bool,
    id: NoteId,
)
    requires
        notes.contains_key(id),
        notes[id].is_deleted,
        is_listing(result, notes, pick),
        forall|v: NoteView| #[trigger] pick(v) ==> !v.is_deleted,
    ensures
        forall|i: int| 0 <= i < result.len() ==> (#[trigger] result[i]).id != id,
{
    assert forall|i: int| 0 <= i < result.len() implies (#[trigger] result[i]).id != id by {
        assert(notes.contains_key(result[i].id));
        assert(pick(result[i]));
        if result[i].id == id {
            assert(notes[result[i].id] == result[i]);
        }
    }
}

/// Listings and searches pick only notes that are not deleted.
pub proof fn lemma_listing_picks_live_notes(folder_id: Option<NoteId>, query: Seq<char>)
    ensures
        forall|v: NoteView| #[trigger] listed_in(v, folder_id) ==> !v.is_deleted,
        forall|v: NoteView| #[trigger] found_by(v, query) ==> !v.is_deleted,
{
}

/// Which notes a query selects.
pub enum Selection {
    InFolder(Option<NoteId>),
    /// A search, with its query already lowercased.
    Matching(String),
}

pub open spec fn selected(sel: Selection, v: NoteView) -> bool {
    match sel {
        Selection::InFolder(f) => listed_in(v, f),
        Selection::Matching(q) => !v.is_deleted && (contains_text(lowercase_spec(v.title), q@)
            || contains_text(lowercase_spec(v.content_plaintext), q@)),
    }
}

fn is_selected(sel: &Selection, n: &Note) -> (r: bool)
    ensures
        r == selected(*sel, n@),
{
    if n.is_deleted {
        return false;
    }
    match sel {
        Selection::InFolder(f) => f.is_none() || n.folder_id == *f,
        Selection::Matching(q) => {
            let title = to_lowercase(n.title.as_str());
            if text_contains(title.as_str(), q.as_str()) {
                return true;
            }
            let content = to_lowercase(n.content_plaintext.as_str());
            text_contains(content.as_str(), q.as_str())
        },
    }
}

pub open spec fn note_views(s: Seq<Note>) -> Seq<NoteView> {
    s.map_values(|n: Note| n@)
}

/// Whether notes are ordered from the most recently updated on.
pub open spec fn newest_first(s: Seq<NoteView>) -> bool {
    forall|i: int, j: int| 0 <= i < j < s.len() ==> not_after(s[j].updated_at, s[i].updated_at)
}

/// Whether `result` lists exactly the stored notes that `pick` holds of,
/// each once, newest first (notes updated at the same instant in no
/// particular order).
pub open spec fn is_listing(
    result: Seq<NoteView>,
    notes: Map<NoteId, NoteView>,
    pick: spec_fn(NoteView) -> bool,
) -> bool {
    &&& forall|i: int|
        0 <= i < result.len() ==> notes.contains_key(#[trigger] result[i].id) && notes[result[i].id]
            == result[i] && pick(result[i])
    &&& forall|k: NoteId|
        #[trigger] notes.contains_key(k) && pick(notes[k]) ==> exists|i: int|
            0 <= i < result.len() && #[trigger] result[i].id == k
    &&& forall|i: int, j: int| 0 <= i < j < result.len() ==> result[i].id != result[j].id
    &&& newest_first(result)
}

/// Inserts a note after every note not older than it.
fn insert_by_recency(result: &mut Vec<Note>, n: Note)
    requires
        newest_first(note_views(old(result)@)),
    ensures
        newest_first(note_views(final(result)@)),
        exists|pos: int|
            0 <= pos <= old(result)@.len() && final(result)@ == old(result)@.insert(pos, n),
{
    let mut pos: usize = 0;
    // Stop at the first note strictly older than `n`.
    while pos < result.len() && !before_exec(&result[pos].updated_at, &n.updated_at)
        invariant
            pos <= result@.len(),
            forall|i: int| 0 <= i < pos ==> !before(#[trigger] result@[i].updated_at, n.updated_at),
        decreases result@.len() - pos,
    {
        pos = pos + 1;
    }
    let ghost old_views = note_views(result@);
    let ghost nv = n@;
    proof {
        assert forall|i: int| 0 <= i < pos implies !before(
            #[trigger] old_views[i].updated_at,
            nv.updated_at,
        ) by {
            assert(old_views[i] == result@[i]@);
        }
        if pos < old_views.len() {
            assert(old_views[pos as int] == result@[pos as int]@);
        }
    }
    result.insert(pos, n);
    proof {
        let new_views = note_views(result@);
        assert(new_views =~= old_views.insert(pos as int, nv));
        assert forall|i: int, j: int| 0 <= i < j < new_views.len() implies not_after(
            new_views[j].updated_at,
            new_views[i].updated_at,
        ) by {
            if j < pos {
                assert(new_views[i] == old_views[i] && new_views[j] == old_views[j]);
            } else if j == pos {
                assert(new_views[i] == old_views[i]);
            } else if i < pos {
                assert(new_views[i] == old_views[i] && new_views[j] == old_views[j - 1]);
            } else if i == pos {
                assert(new_views[j] == old_views[j - 1]);
                assert(not_after(old_views[j - 1].updated_at, old_views[pos as int].updated_at));
            } else {
                assert(new_views[i] == old_views[i - 1] && new_views[j] == old_views[j - 1]);
            }
        }
    }
}

fn before_exec(a: &Timestamp, b: &Timestamp) -> (r: bool)
    ensures
        r == before(*a, *b),
{
    a.secs < b.secs || (a.secs == b.secs && a.nanos < b.nanos)
}

impl MemoryStore {
    /// The stored notes a selection holds of, newest first.
    #[verifier::rlimit(40)]
    fn select(&self, sel: &Selection) -> (r: Vec<Note>)
        ensures
            is_listing(note_views(r@), self.notes_view(), |v: NoteView| selected(*sel, v)),
    {
        proof {
            use_type_invariant(self);
        }
        let ghost m = self.notes@;
        let mut result: Vec<Note> = Vec::new();
        let entries = self.notes.iter();
        let ghost all = entries.remaining();
        for kv in it: entries
            invariant_except_break
                forall|j: int|
                    0 <= j < result@.len() ==> exists|p: int|
                        0 <= p < it.index() && *(#[trigger] it.seq()[p]).0 == #[trigger] result@[j].id,
            invariant
                it.seq() == all,
                m == self.notes@,
                forall|k: NoteId| #[trigger] m.contains_key(k) ==> m[k].id == k,
                it.seq().no_duplicates(),
                forall|p: int|
                    0 <= p < it.seq().len() ==> m.contains_key(*(#[trigger] it.seq()[p]).0) && m[*it.seq()[p].0]
                        == *it.seq()[p].1,
                forall|k: NoteId| #[trigger] m.contains_key(k) ==> it.seq().contains((&k, &m[k])),
                newest_first(note_views(result@)),
                forall|j: int|
                    0 <= j < result@.len() ==> m.contains_key(#[trigger] result@[j].id) && m[result@[j].id]@
                        == result@[j]@ && selected(*sel, result@[j]@),
                forall|p: int|
                    0 <= p < it.index() && selected(*sel, (*(#[trigger] it.seq()[p]).1)@) ==> exists|j: int|
                        0 <= j < result@.len() && #[trigger] result@[j].id == *it.seq()[p].0,
                forall|i: int, j: int| 0 <= i < j < result@.len() ==> result@[i].id != result@[j].id,
        {
            let (k, n) = kv;
            let ghost idx = it.index();
            proof {
                assert(it.seq()[idx] == kv);
                assert(m[*k] == *n);
                assert(n.id == *k);
            }
            if is_selected(sel, n) {
                let copy = n.duplicate();
                let ghost before_ins = result@;
                insert_by_recency(&mut result, copy);
                proof {
                    let pos = choose|pos: int|
                        0 <= pos <= before_ins.len() && result@ == before_ins.insert(pos, copy);
                    // The new id was not taken: ids come from earlier, distinct keys.
                    assert forall|j: int| 0 <= j < before_ins.len() implies before_ins[j].id != *k by {
                        let p = choose|p: int| 0 <= p < idx && *(#[trigger] it.seq()[p]).0 == before_ins[j].id;
                        if before_ins[j].id == *k {
                            assert(m[*it.seq()[p].0] == *it.seq()[p].1);
                            assert(it.seq()[p] == it.seq()[idx as int]);
                        }
                    }
                    assert forall|j: int| 0 <= j < result@.len() implies m.contains_key(#[trigger] result@[j].id)
                        && m[result@[j].id]@ == result@[j]@ && selected(*sel, result@[j]@) by {
                        if j < pos {
                            assert(result@[j] == before_ins[j]);
                        } else if j > pos {
                            assert(result@[j] == before_ins[j - 1]);
                        }
                    }
                    assert forall|j: int| 0 <= j < result@.len() implies exists|p: int|
                        0 <= p < idx + 1 && *(#[trigger] it.seq()[p]).0 == #[trigger] result@[j].id by {
                        if j < pos {
                            assert(result@[j] == before_ins[j]);
                        } else if j > pos {
                            assert(result@[j] == before_ins[j - 1]);
                        } else {
                            assert(*it.seq()[idx as int].0 == result@[j].id);
                        }
                    }
                    assert forall|p: int|
                        0 <= p < idx + 1 && selected(*sel, (*(#[trigger] it.seq()[p]).1)@) implies exists|j: int|
                        0 <= j < result@.len() && #[trigger] result@[j].id == *it.seq()[p].0 by {
                        if p == idx {
                            assert(result@[pos].id == *it.seq()[p].0);
                        } else {
                            let j = choose|j: int| 0 <= j < before_ins.len() && #[trigger] before_ins[j].id == *it.seq()[p].0;
                            if j < pos {
                                assert(result@[j] == before_ins[j]);
                            } else {
                                assert(result@[j + 1] == before_ins[j]);
                            }
                        }
                    }
                    assert forall|i: int, j: int| 0 <= i < j < result@.len() implies result@[i].id != result@[j].id by {
                        if i == pos {
                            assert(result@[j] == before_ins[j - 1]);
                        } else if j == pos {
                            assert(result@[i] == before_ins[i]);
                        } else {
                            let oi = if i < pos { i } else { i - 1 };
                            let oj = if j < pos { j } else { j - 1 };
                            assert(result@[i] == before_ins[oi] && result@[j] == before_ins[oj]);
                        }
                    }
                }
            }
        }
        proof {
            let ghost rv = note_views(result@);
            let ghost nv = self.notes_view();
            assert forall|i: int| 0 <= i < rv.len() implies nv.contains_key(#[trigger] rv[i].id)
                && nv[rv[i].id] == rv[i] && selected(*sel, rv[i]) by {
                assert(rv[i] == result@[i]@);
            }
            assert forall|key: NoteId| #[trigger] nv.contains_key(key) && selected(*sel, nv[key]) implies exists|i: int|
                0 <= i < rv.len() && #[trigger] rv[i].id == key by {
                assert(m.contains_key(key));
                assert(all.contains((&key, &m[key])));
                let p = choose|p: int| 0 <= p < all.len() && all[p] == (&key, &m[key]);
                assert(selected(*sel, (*all[p].1)@));
                let j = choose|j: int| 0 <= j < result@.len() && #[trigger] result@[j].id == *all[p].0;
                assert(rv[j].id == key);
            }
            assert forall|i: int, j: int| 0 <= i < j < rv.len() implies rv[i].id != rv[j].id by {
                assert(rv[i] == result@[i]@ && rv[j] == result@[j]@);
            }
        }
        result
    }

    /// The notes that are not deleted, in the folder when one is given,
    /// newest first.
    pub fn list(&self, folder_id: Option<NoteId>) -> (r: Result<Vec<Note>, StorageError>)
        ensures
            r is Ok,
            r is Ok ==> is_listing(
                note_views(r->Ok_0@),
                self.notes_view(),
                |v: NoteView| listed_in(v, folder_id),
            ),
    {
        let sel = Selection::InFolder(folder_id);
        let result = self.select(&sel);
        proof {
            let p1 = |v: NoteView| selected(sel, v);
            let p2 = |v: NoteView| listed_in(v, folder_id);
            assert(p1 =~= p2);
        }
        Ok(result)
    }

    /// The notes that are not deleted and whose title or text holds the
    /// query, ignoring case, newest first.
    pub fn search(&self, query: &str) -> (r: Result<Vec<Note>, StorageError>)
        ensures
            r is Ok,
            r is Ok ==> is_listing(
                note_views(r->Ok_0@),
                self.notes_view(),
                |v: NoteView| found_by(v, query@),
            ),
            query@.len() == 0 ==> (r is Ok ==> is_listing(
                note_views(r->Ok_0@),
                self.notes_view(),
                |v: NoteView| listed_in(v, None),
            )),
    {
        let q = to_lowercase(query);
        let sel = Selection::Matching(q);
        let result = self.select(&sel);
        proof {
            let p1 = |v: NoteView| selected(sel, v);
            let p2 = |v: NoteView| found_by(v, query@);
            assert(p1 =~= p2);
            if query@.len() == 0 {
                let p3 = |v: NoteView| listed_in(v, None);
                assert forall|v: NoteView| #[trigger] p2(v) == p3(v) by {
                    let t = lowercase_spec(v.title);
                    let e = lowercase_spec(query@);
                    assert(e.len() == 0);
                    assert(t.subrange(0, 0 + e.len() as int) =~= e);
                    assert(contains_text(t, e));
                }
                assert(p2 =~= p3);
            }
        }
        Ok(result)
    }
}

} // verus!
