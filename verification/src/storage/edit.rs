//! The edits that both note stores make: each one turns a note (and its
//! CRDT document) into its next state, or says why it cannot.
use vstd::prelude::*;

use crate::clock::Timestamp;
use crate::digest::{sha256, sha256_spec};
use crate::doc::{
    blob_contents, content_text, delete_items, doc_exports, doc_from_snapshot, export_snapshot,
    import_update, merged_contents, merged_exports, snapshot_exports,
    item_count, list_items, new_doc, push_item, set_content_text, snapshot_contents,
};
use crate::error::StorageError;
use crate::id::{uuid_text, uuid_to_string};
use crate::note::{
    Note, NoteId, NoteType, NoteView, default_title_spec, join_lines,
    join_with_newlines, normalize_title_spec, note_type_name,
};
use crate::text::{push_str, to_string};

verus! {

/// The hash a note keeps of its text: SHA-256 of the text's UTF-8 bytes.
pub open spec fn content_hash_of(s: Seq<char>) -> Seq<u8> {
    sha256_spec(vstd::utf8::encode_utf8(s))
}

/// The text a note of a type shows for the contents of its document: the
/// markdown text, or the list items one per line.
pub open spec fn rendered_content(
    c: (Seq<char>, Seq<Seq<char>>, Option<Seq<char>>),
    t: NoteType,
) -> Seq<char> {
    match t {
        NoteType::Markdown => c.0,
        NoteType::List => join_lines(c.1),
    }
}

pub open spec fn opt_str_view(o: Option<&str>) -> Option<Seq<char>> {
    match o {
        Some(s) => Some(s@),
        None => None,
    }
}

/// The title a note keeps after an edit: the override, normalized, or else
/// the title it had.
pub open spec fn resolved_title(t: NoteType, title_override: Option<Seq<char>>, current: Seq<char>) -> Seq<char> {
    match title_override {
        Some(o) => normalize_title_spec(t, o),
        None => current,
    }
}

/// A note after an edit of its title, text and snapshot at time `now`.
pub open spec fn edited(v: NoteView, title: Seq<char>, content: Seq<char>, blob: Seq<u8>, now: Timestamp) -> NoteView {
    NoteView {
        title,
        content_plaintext: content,
        content_loro_blob: blob,
        content_hash: content_hash_of(content),
        updated_at: now,
        ..v
    }
}

/// Whether `n` is markdown note `existing` with text `content` and the title
/// that `title_override` resolves to, and a snapshot that restores to them.
pub open spec fn markdown_edit_ok(
    existing: NoteView,
    content: Seq<char>,
    title_override: Option<Seq<char>>,
    n: NoteView,
) -> bool {
    &&& existing.note_type == NoteType::Markdown
    &&& n == edited(
        existing,
        resolved_title(existing.note_type, title_override, existing.title),
        content,
        n.content_loro_blob,
        n.updated_at,
    )
    &&& blob_contents(existing.content_loro_blob) matches Some(c)
    &&& snapshot_contents(n.content_loro_blob) == Some((content, c.1, Some(n.title)))
    &&& snapshot_exports(n.content_loro_blob)
}

/// Whether `n` is list note `existing` with its document's items replaced by
/// `items`, shown one per line, and with title `title`.
pub open spec fn list_edit_ok(existing: NoteView, items: Seq<Seq<char>>, title: Seq<char>, n: NoteView) -> bool {
    &&& existing.note_type == NoteType::List
    &&& snapshot_contents(existing.content_loro_blob) matches Some(c)
    &&& n == edited(existing, title, join_lines(items), n.content_loro_blob, n.updated_at)
    &&& snapshot_contents(n.content_loro_blob) == Some((c.0, items, Some(title)))
    &&& snapshot_exports(n.content_loro_blob)
}

/// The items of a stored note's document, when its snapshot restores.
pub open spec fn stored_items(v: NoteView) -> Seq<Seq<char>> {
    snapshot_contents(v.content_loro_blob)->Some_0.1
}

/// Whether `n` is list note `existing` with `item` appended.
pub open spec fn list_add_ok(existing: NoteView, item: Seq<char>, n: NoteView) -> bool {
    list_edit_ok(existing, stored_items(existing).push(item), existing.title, n)
}

/// Whether `n` is list note `existing` with its items replaced by `items`
/// and the title that `title_override` resolves to.
pub open spec fn list_replace_ok(
    existing: NoteView,
    items: Seq<Seq<char>>,
    title_override: Option<Seq<char>>,
    n: NoteView,
) -> bool {
    list_edit_ok(
        existing,
        items,
        resolved_title(existing.note_type, title_override, existing.title),
        n,
    )
}

/// Whether `n` is list note `existing` without the first item equal to
/// `item`, which it had.
pub open spec fn list_remove_ok(existing: NoteView, item: Seq<char>, n: NoteView) -> bool {
    &&& stored_items(existing).contains(item)
    &&& list_edit_ok(
        existing,
        stored_items(existing).remove(first_index_of(stored_items(existing), item)),
        existing.title,
        n,
    )
}

/// Whether `e` is the error an edit of note `existing`, which needs a note of
/// type `expected`, may end with: the wrong type, or else a CRDT error.
pub open spec fn edit_error_ok(existing: NoteView, expected: NoteType, e: StorageError) -> bool {
    if existing.note_type != expected {
        is_wrong_type(e, note_type_name(expected), existing.note_type)
    } else {
        e is Loro
    }
}

/// The stored snapshot a merge starts from: the existing note's, or none
/// (a new document) for a note not stored yet.
pub open spec fn merge_base(existing: Option<NoteView>) -> Seq<u8> {
    match existing {
        Some(e) => e.content_loro_blob,
        None => Seq::empty(),
    }
}

/// Whether merging `update` into the document `base` stands for succeeds:
/// `base` restores (or is empty), the update imports, and the merged
/// document exports.
pub open spec fn merge_succeeds(base: Seq<u8>, update: Seq<u8>) -> bool {
    &&& blob_contents(base) is Some
    &&& merged_contents(base, update) is Some
    &&& merged_exports(base, update)
}

/// Whether a stored snapshot restores to a document that can be edited and
/// exported again.
pub open spec fn snapshot_editable(blob: Seq<u8>) -> bool {
    snapshot_contents(blob) is Some && snapshot_exports(blob)
}

/// Whether a stored blob stands for a document that can be edited and
/// exported: empty (a new document), or a snapshot that is editable.
pub open spec fn blob_editable(blob: Seq<u8>) -> bool {
    blob.len() == 0 || snapshot_editable(blob)
}

/// Whether `n` is the note that merging state received for note `id` of
/// type `note_type` gives: its snapshot restores to what importing `update`
/// into the stored snapshot gives, and its text and title are read from
/// that merged document; it keeps the bookkeeping of
/// `existing`, or, as a new note, has id `id`, no folder and `sort_order`.
pub open spec fn merged_ok(
    existing: Option<NoteView>,
    id: NoteId,
    note_type: NoteType,
    update: Seq<u8>,
    sort_order: i64,
    n: NoteView,
) -> bool {
    &&& snapshot_contents(n.content_loro_blob) == merged_contents(merge_base(existing), update)
    &&& snapshot_contents(n.content_loro_blob) matches Some(c)
    &&& n.content_plaintext == rendered_content(c, note_type)
    &&& n.title == match c.2 {
        Some(t) => t,
        None => match existing {
            Some(e) => e.title,
            None => default_title_spec(note_type),
        },
    }
    &&& n.note_type == note_type
    &&& n.content_hash == content_hash_of(n.content_plaintext)
    &&& match existing {
        Some(e) => {
            &&& n.id == e.id
            &&& n.folder_id == e.folder_id
            &&& n.created_at == e.created_at
            &&& n.is_deleted == e.is_deleted
            &&& n.deleted_at == e.deleted_at
            &&& n.sort_order == e.sort_order
        },
        None => {
            &&& n.id == id
            &&& n.folder_id is None
            &&& n.created_at == n.updated_at
            &&& !n.is_deleted
            &&& n.deleted_at is None
            &&& n.sort_order == sort_order
        },
    }
}

pub open spec fn opt_note_view(o: Option<&Note>) -> Option<NoteView> {
    match o {
        Some(n) => Some(n@),
        None => None,
    }
}

/// Whether an error reports an operation on a note of the wrong type.
pub open spec fn is_wrong_type(e: StorageError, expected: Seq<char>, actual: NoteType) -> bool {
    e matches StorageError::WrongNoteType { expected: x, actual: y } && x@ == expected && y@
        == note_type_name(actual)
}

/// Whether an error reports a missing note.
pub open spec fn is_not_found(e: StorageError, id: NoteId) -> bool {
    e matches StorageError::NotFound { id: s } && s@ == uuid_text(id)
}

/// Whether an error reports that a list's document, restored from `blob`,
/// has no item `item`.
pub open spec fn is_missing_item(e: StorageError, blob: Seq<u8>, item: Seq<char>) -> bool {
    &&& snapshot_contents(blob) matches Some(c)
    &&& !c.1.contains(item)
    &&& e matches StorageError::NotFound { id }
    &&& id@ == "list item: "@ + item
}

/// The index of the first occurrence of `x` in `s`, or `s.len()`.
pub open spec fn first_index_of(s: Seq<Seq<char>>, x: Seq<char>) -> int
    decreases s.len(),
{
    if s.len() == 0 {
        0
    } else if s[0] == x {
        0
    } else {
        1 + first_index_of(s.drop_first(), x)
    }
}

proof fn lemma_first_index_of(s: Seq<Seq<char>>, x: Seq<char>, i: int)
    requires
        0 <= i <= s.len(),
        forall|k: int| 0 <= k < i ==> s[k] != x,
    ensures
        i < s.len() && s[i] == x ==> first_index_of(s, x) == i,
        i == s.len() ==> first_index_of(s, x) == s.len(),
    decreases i,
{
    if i > 0 {
        assert(s[0] != x);
        lemma_first_index_of(s.drop_first(), x, i - 1);
    }
}

/// An error for a failed CRDT step: what was being done, then the
/// library's message.
fn loro_error(what: &str, e: String) -> (r: StorageError)
    ensures
        r matches StorageError::Loro(m) && m@ == what@ + ": "@ + e@,
{
    let mut m = to_string(what);
    push_str(&mut m, ": ");
    push_str(&mut m, e.as_str());
    assert(m@ =~= what@ + ": "@ + e@);
    StorageError::Loro(m)
}

fn wrong_type(expected: &str, actual: NoteType) -> (r: StorageError)
    ensures
        is_wrong_type(r, expected@, actual),
{
    StorageError::WrongNoteType { expected: to_string(expected), actual: to_string(actual.as_str()) }
}

/// The error for a note that is not in the store.
pub fn not_found(id: NoteId) -> (r: StorageError)
    ensures
        is_not_found(r, id),
{
    StorageError::NotFound { id: uuid_to_string(id) }
}

/// The text a note of a type shows for a document.
pub fn extract_content(doc: &loro::LoroDoc, note_type: NoteType) -> (s: String)
    ensures
        s@ == rendered_content(crate::doc::doc_contents(*doc), note_type),
{
    match note_type {
        NoteType::Markdown => content_text(doc, "content"),
        NoteType::List => {
            let items = list_items(doc);
            join_with_newlines(items.as_slice())
        },
    }
}

/// A new, empty note with its type's default title.
pub fn new_note(
    id: NoteId,
    note_type: NoteType,
    folder_id: Option<NoteId>,
    now: Timestamp,
    sort_order: i64,
) -> (r: Result<Note, StorageError>)
    ensures
        match r {
            Ok(n) => n@ == NoteView {
                id,
                folder_id,
                note_type,
                title: default_title_spec(note_type),
                content_plaintext: seq![],
                content_loro_blob: n.content_loro_blob@,
                content_hash: content_hash_of(seq![]),
                created_at: now,
                updated_at: now,
                is_deleted: false,
                deleted_at: None,
                sort_order,
            } && snapshot_contents(n.content_loro_blob@) == Some(
                (Seq::<char>::empty(), Seq::<Seq<char>>::empty(), Some(default_title_spec(note_type))),
            ) && snapshot_exports(n.content_loro_blob@) && n.content_loro_blob@.len() > 0,
            Err(e) => false,
        },
{
    let mut doc = new_doc();
    let content_plaintext = String::new();
    let content_hash = sha256(content_plaintext.as_str().as_bytes());
    let title = to_string(Note::default_title(note_type));
    if let Err(e) = Note::set_title_in_doc(&mut doc, title.as_str()) {
        return Err(loro_error("failed to initialize note title", e));
    }
    let content_loro_blob = match export_snapshot(&doc) {
        Ok(b) => b,
        Err(e) => {
            return Err(StorageError::Loro(e));
        },
    };
    Ok(
        Note {
            id,
            folder_id,
            note_type,
            title,
            content_plaintext,
            content_loro_blob,
            content_hash,
            created_at: now,
            updated_at: now,
            is_deleted: false,
            deleted_at: None,
            sort_order,
        },
    )
}

/// A markdown note with new text and, when one is given, a new title.
pub fn edit_markdown(
    existing: &Note,
    new_content: &str,
    title_override: Option<&str>,
    now: Timestamp,
) -> (r: Result<Note, StorageError>)
    ensures
        existing.note_type != NoteType::Markdown ==> (r matches Err(e) && is_wrong_type(
            e,
            "markdown"@,
            existing.note_type,
        )),
        r matches Ok(n) ==> markdown_edit_ok(existing@, new_content@, opt_str_view(title_override), n@)
            && n.updated_at == now,
        existing.note_type == NoteType::Markdown ==> (r matches Err(e) ==> e is Loro),
        existing.note_type == NoteType::Markdown && blob_editable(existing.content_loro_blob@)
            ==> r is Ok,
{
    if existing.note_type != NoteType::Markdown {
        return Err(wrong_type("markdown", existing.note_type));
    }
    let mut doc = if existing.content_loro_blob.len() == 0 {
        new_doc()
    } else {
        match doc_from_snapshot(existing.content_loro_blob.as_slice()) {
            Ok(d) => d,
            Err(e) => {
                return Err(loro_error("failed to load Loro doc", e));
            },
        }
    };
    if let Err(e) = set_content_text(&mut doc, "content", new_content) {
        return Err(loro_error("failed to update Loro doc", e));
    }
    let content_hash = sha256(new_content.as_bytes());
    let title = match title_override {
        Some(t) => Note::normalize_title(existing.note_type, t),
        None => existing.title.clone(),
    };
    if let Err(e) = Note::set_title_in_doc(&mut doc, title.as_str()) {
        return Err(loro_error("failed to update note title", e));
    }
    let content_loro_blob = match export_snapshot(&doc) {
        Ok(b) => b,
        Err(e) => {
            return Err(StorageError::Loro(e));
        },
    };
    Ok(
        Note {
            id: existing.id,
            folder_id: existing.folder_id,
            note_type: existing.note_type,
            title,
            content_plaintext: to_string(new_content),
            content_loro_blob,
            content_hash,
            created_at: existing.created_at,
            updated_at: now,
            is_deleted: existing.is_deleted,
            deleted_at: existing.deleted_at,
            sort_order: existing.sort_order,
        },
    )
}

/// Restores a list note's document.
fn load_list_doc(existing: &Note) -> (r: Result<loro::LoroDoc, StorageError>)
    ensures
        match r {
            Ok(d) => snapshot_contents(existing.content_loro_blob@) == Some(
                crate::doc::doc_contents(d),
            ) && doc_exports(d) == snapshot_exports(existing.content_loro_blob@),
            Err(e) => e is Loro && snapshot_contents(existing.content_loro_blob@) is None,
        },
{
    match doc_from_snapshot(existing.content_loro_blob.as_slice()) {
        Ok(d) => Ok(d),
        Err(e) => Err(loro_error("failed to load Loro doc", e)),
    }
}

/// A list note after its document's items changed: its text is the items,
/// one per line, and it keeps `title`.
fn finish_list_edit(existing: &Note, doc: &mut loro::LoroDoc, title: String, what: &str, now: Timestamp) -> (r: Result<
    Note,
    StorageError,
>)
    ensures
        match r {
            Ok(n) => n@ == edited(
                existing@,
                title@,
                join_lines(crate::doc::doc_items(*old(doc))),
                n.content_loro_blob@,
                now,
            ) && snapshot_contents(n.content_loro_blob@) == Some(
                (
                    crate::doc::doc_text(*old(doc)),
                    crate::doc::doc_items(*old(doc)),
                    Some(title@),
                ),
            ) && snapshot_exports(n.content_loro_blob@),
            Err(e) => e is Loro && !doc_exports(*old(doc)),
        },
{
    let items = list_items(doc);
    let content_plaintext = join_with_newlines(items.as_slice());
    let content_hash = sha256(content_plaintext.as_str().as_bytes());
    if let Err(e) = Note::set_title_in_doc(doc, title.as_str()) {
        return Err(loro_error(what, e));
    }
    let content_loro_blob = match export_snapshot(doc) {
        Ok(b) => b,
        Err(e) => {
            return Err(StorageError::Loro(e));
        },
    };
    Ok(
        Note {
            id: existing.id,
            folder_id: existing.folder_id,
            note_type: existing.note_type,
            title,
            content_plaintext,
            content_loro_blob,
            content_hash,
            created_at: existing.created_at,
            updated_at: now,
            is_deleted: existing.is_deleted,
            deleted_at: existing.deleted_at,
            sort_order: existing.sort_order,
        },
    )
}

/// A list note with one more item at the end.
pub fn edit_list_add(existing: &Note, item: &str, now: Timestamp) -> (r: Result<Note, StorageError>)
    ensures
        existing.note_type != NoteType::List ==> (r matches Err(e) && is_wrong_type(
            e,
            "list"@,
            existing.note_type,
        )),
        r matches Ok(n) ==> list_add_ok(existing@, item@, n@) && n.updated_at == now,
        existing.note_type == NoteType::List ==> (r matches Err(e) ==> e is Loro),
        existing.note_type == NoteType::List && snapshot_editable(existing.content_loro_blob@)
            ==> r is Ok,
{
    if existing.note_type != NoteType::List {
        return Err(wrong_type("list", existing.note_type));
    }
    let mut doc = load_list_doc(existing)?;
    if let Err(e) = push_item(&mut doc, "items", item) {
        return Err(loro_error("failed to push list item", e));
    }
    finish_list_edit(existing, &mut doc, existing.title.clone(), "failed to preserve note title", now)
}

/// A list note whose items are replaced by `new_items` and, when one is
/// given, whose title is replaced too.
pub fn edit_list_replace(
    existing: &Note,
    new_items: &[String],
    title_override: Option<&str>,
    now: Timestamp,
) -> (r: Result<Note, StorageError>)
    ensures
        existing.note_type != NoteType::List ==> (r matches Err(e) && is_wrong_type(
            e,
            "list"@,
            existing.note_type,
        )),
        r matches Ok(n) ==> list_replace_ok(
            existing@,
            new_items@.map_values(|s: String| s@),
            opt_str_view(title_override),
            n@,
        ) && n.updated_at == now,
        existing.note_type == NoteType::List ==> (r matches Err(e) ==> e is Loro),
        existing.note_type == NoteType::List && snapshot_editable(existing.content_loro_blob@)
            ==> r is Ok,
{
    if existing.note_type != NoteType::List {
        return Err(wrong_type("list", existing.note_type));
    }
    let mut doc = load_list_doc(existing)?;
    let ghost text = crate::doc::doc_text(doc);
    let current_len = item_count(&doc, "items");
    if current_len > 0 {
        if let Err(e) = delete_items(&mut doc, "items", 0, current_len) {
            return Err(loro_error("failed to clear list", e));
        }
        assert(crate::doc::doc_items(doc) =~= Seq::<Seq<char>>::empty());
    }
    let ghost items = new_items@.map_values(|s: String| s@);
    let mut i: usize = 0;
    while i < new_items.len()
        invariant
            i <= new_items@.len(),
            items == new_items@.map_values(|s: String| s@),
            crate::doc::doc_items(doc) == items.take(i as int),
            crate::doc::doc_text(doc) == text,
            existing.note_type == NoteType::List,
            doc_exports(doc) == snapshot_exports(existing.content_loro_blob@),
        decreases new_items@.len() - i,
    {
        if let Err(e) = push_item(&mut doc, "items", new_items[i].as_str()) {
            return Err(loro_error("failed to push list item", e));
        }
        i = i + 1;
        assert(crate::doc::doc_items(doc) =~= items.take(i as int));
    }
    assert(items.take(new_items@.len() as int) =~= items);
    let title = match title_override {
        Some(t) => Note::normalize_title(existing.note_type, t),
        None => existing.title.clone(),
    };
    finish_list_edit(existing, &mut doc, title, "failed to update note title", now)
}

/// A list note without the first item equal to `item`.
pub fn edit_list_remove(existing: &Note, item: &str, now: Timestamp) -> (r: Result<Note, StorageError>)
    ensures
        existing.note_type != NoteType::List ==> (r matches Err(e) && is_wrong_type(
            e,
            "list"@,
            existing.note_type,
        )),
        existing.note_type == NoteType::List ==> (r matches Err(e) ==> (e is Loro
            || is_missing_item(e, existing.content_loro_blob@, item@))),
        r matches Ok(n) ==> list_remove_ok(existing@, item@, n@) && n.updated_at == now,
        existing.note_type == NoteType::List && snapshot_contents(existing.content_loro_blob@) is Some
            ==> if stored_items(existing@).contains(item@) {
            snapshot_exports(existing.content_loro_blob@) ==> r is Ok
        } else {
            r matches Err(e) && is_missing_item(e, existing.content_loro_blob@, item@)
        },
{
    if existing.note_type != NoteType::List {
        return Err(wrong_type("list", existing.note_type));
    }
    let mut doc = load_list_doc(existing)?;
    let items = list_items(&doc);
    let ghost view = crate::doc::doc_items(doc);
    let wanted = to_string(item);
    let mut pos: usize = 0;
    while pos < items.len() && items[pos] != wanted
        invariant
            pos <= items@.len(),
            view == items@.map_values(|s: String| s@),
            wanted@ == item@,
            forall|k: int| 0 <= k < pos ==> view[k] != item@,
        decreases items@.len() - pos,
    {
        pos = pos + 1;
    }
    proof {
        lemma_first_index_of(view, item@, pos as int);
    }
    if pos == items.len() {
        proof {
            if view.contains(item@) {
                let k = choose|k: int| 0 <= k < view.len() && view[k] == item@;
                assert(view[k] != item@);
            }
        }
        let mut m = to_string("list item: ");
        push_str(&mut m, item);
        return Err(StorageError::NotFound { id: m });
    }
    assert(view[pos as int] == item@);
    if let Err(e) = delete_items(&mut doc, "items", pos, 1) {
        return Err(loro_error("failed to delete list item", e));
    }
    assert(crate::doc::doc_items(doc) =~= view.remove(pos as int));
    finish_list_edit(existing, &mut doc, existing.title.clone(), "failed to preserve note title", now)
}

/// A note merged with state received from another device: the existing
/// note when there is one, otherwise a new note with `id`, `sort_order` and
/// no folder.
pub fn merge_remote(
    existing: Option<&Note>,
    id: NoteId,
    note_type: NoteType,
    update_blob: &[u8],
    now: Timestamp,
    sort_order: i64,
) -> (r: Result<Note, StorageError>)
    ensures
        r is Ok <==> merge_succeeds(merge_base(opt_note_view(existing)), update_blob@),
        match r {
            Ok(n) => merged_ok(opt_note_view(existing), id, note_type, update_blob@, sort_order, n@)
                && n.updated_at == now,
            Err(e) => e is Loro,
        },
        existing is None && snapshot_contents(update_blob@) is Some ==> merged_contents(
            Seq::<u8>::empty(),
            update_blob@,
        ) == snapshot_contents(update_blob@) && (snapshot_exports(update_blob@) ==> r is Ok),
{
    let no_base: Vec<u8> = Vec::new();
    let ghost base = merge_base(opt_note_view(existing));
    let base_bytes: &[u8] = match existing {
        Some(e) => e.content_loro_blob.as_slice(),
        None => no_base.as_slice(),
    };
    assert(base_bytes@ == base);
    let mut doc = if base_bytes.len() == 0 {
        let d = new_doc();
        assert(base_bytes@ =~= Seq::<u8>::empty());
        d
    } else {
        match doc_from_snapshot(base_bytes) {
            Ok(d) => d,
            Err(err) => {
                return Err(loro_error("failed to load doc", err));
            },
        }
    };
    if let Err(e) = import_update(&mut doc, base_bytes, update_blob) {
        return Err(loro_error("failed to import update", e));
    }
    let content_loro_blob = match export_snapshot(&doc) {
        Ok(b) => b,
        Err(e) => {
            return Err(StorageError::Loro(e));
        },
    };
    let content_plaintext = extract_content(&doc, note_type);
    let title = match Note::title_from_doc(&doc) {
        Some(t) => t,
        None => match existing {
            Some(e) => e.title.clone(),
            None => to_string(Note::default_title(note_type)),
        },
    };
    let content_hash = sha256(content_plaintext.as_str().as_bytes());
    match existing {
        Some(e) => Ok(
            Note {
                id: e.id,
                folder_id: e.folder_id,
                note_type,
                title,
                content_plaintext,
                content_loro_blob,
                content_hash,
                created_at: e.created_at,
                updated_at: now,
                is_deleted: e.is_deleted,
                deleted_at: e.deleted_at,
                sort_order: e.sort_order,
            },
        ),
        None => Ok(
            Note {
                id,
                folder_id: None,
                note_type,
                title,
                content_plaintext,
                content_loro_blob,
                content_hash,
                created_at: now,
                updated_at: now,
                is_deleted: false,
                deleted_at: None,
                sort_order,
            },
        ),
    }
}

/// A note marked deleted at time `now`.
pub fn mark_deleted(existing: &Note, now: Timestamp) -> (n: Note)
    ensures
        n@ == (NoteView { is_deleted: true, deleted_at: Some(now), updated_at: now, ..existing@ }),
{
    let mut n = existing.duplicate();
    n.is_deleted = true;
    n.deleted_at = Some(now);
    n.updated_at = now;
    n
}

} // verus!
