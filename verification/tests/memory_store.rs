use loro::{ExportMode, LoroDoc};
use no_nonsense_notes_core::StorageError;
use no_nonsense_notes_core::note::{Note, NoteType};
use no_nonsense_notes_core::storage::memory::MemoryStore;
use sha2::Digest;

#[test]
fn lists_list_replace_items_with_title_override() {
    let mut store = MemoryStore::new();
    let note = store.create(NoteType::List, None).unwrap();
    let items = vec!["milk".to_string(), "eggs".to_string()];
    let updated = store
        .list_replace_items(note.id, &items, Some("Shopping List"))
        .unwrap();
    assert_eq!(updated.title, "Shopping List");
}

#[test]
fn lists_list_add_and_remove() {
    let mut store = MemoryStore::new();
    let note = store.create(NoteType::List, None).unwrap();
    let id = note.id;
    store.list_replace_items(id, &[], Some("Shopping")).unwrap();

    store.list_add_item(id, "milk").unwrap();
    store.list_add_item(id, "eggs").unwrap();
    store.list_add_item(id, "bread").unwrap();

    let note = store.get(id).unwrap();
    assert_eq!(note.content_plaintext, "milk\neggs\nbread");
    assert_eq!(note.title, "Shopping");

    let doc = LoroDoc::from_snapshot(&note.content_loro_blob).unwrap();
    let list = doc.get_list("items");
    assert_eq!(list.len(), 3);

    let note = store.list_remove_item(id, "eggs").unwrap();
    assert_eq!(note.content_plaintext, "milk\nbread");
}

#[test]
fn lists_list_replace_items_replaces_all() {
    let mut store = MemoryStore::new();
    let note = store.create(NoteType::List, None).unwrap();
    let id = note.id;

    store.list_add_item(id, "milk").unwrap();
    store.list_add_item(id, "eggs").unwrap();

    let new_items = vec![
        "coffee".to_string(),
        "sugar".to_string(),
        "flour".to_string(),
    ];
    let note = store.list_replace_items(id, &new_items, None).unwrap();
    assert_eq!(note.content_plaintext, "coffee\nsugar\nflour");
    assert_eq!(note.title, "List");

    let doc = LoroDoc::from_snapshot(&note.content_loro_blob).unwrap();
    let list = doc.get_list("items");
    assert_eq!(list.len(), 3);
}

#[test]
fn lists_list_replace_items_rejects_markdown() {
    let mut store = MemoryStore::new();
    let note = store.create(NoteType::Markdown, None).unwrap();
    let err = store
        .list_replace_items(note.id, &["x".to_string()], None)
        .unwrap_err();
    assert!(matches!(err, StorageError::WrongNoteType { .. }));
}

#[test]
fn lists_list_replace_items_empty_clears_list() {
    let mut store = MemoryStore::new();
    let note = store.create(NoteType::List, None).unwrap();
    store.list_add_item(note.id, "milk").unwrap();
    store.list_add_item(note.id, "eggs").unwrap();

    let note = store.list_replace_items(note.id, &[], None).unwrap();
    assert_eq!(note.content_plaintext, "");
    assert_eq!(note.title, "List");

    let doc = LoroDoc::from_snapshot(&note.content_loro_blob).unwrap();
    let list = doc.get_list("items");
    assert_eq!(list.len(), 0);
}

#[test]
fn lists_list_remove_missing_errors() {
    let mut store = MemoryStore::new();
    let note = store.create(NoteType::List, None).unwrap();
    store.list_add_item(note.id, "milk").unwrap();

    let err = store.list_remove_item(note.id, "nope").unwrap_err();
    assert!(matches!(err, StorageError::NotFound { .. }));
}

#[test]
fn notes_create_markdown_and_get() {
    let mut store = MemoryStore::new();
    let note = store.create(NoteType::Markdown, None).unwrap();
    assert_eq!(note.note_type, NoteType::Markdown);
    assert_eq!(note.title, "Untitled");
    assert!(!note.content_loro_blob.is_empty());

    let fetched = store.get(note.id).unwrap();
    assert_eq!(fetched.id, note.id);
    assert_eq!(fetched.title, "Untitled");
}

#[test]
fn notes_create_list_and_get() {
    let mut store = MemoryStore::new();
    let note = store.create(NoteType::List, None).unwrap();
    assert_eq!(note.note_type, NoteType::List);
    assert_eq!(note.title, "List");

    let fetched = store.get(note.id).unwrap();
    assert_eq!(fetched.note_type, NoteType::List);
}

#[test]
fn notes_update_content_round_trip() {
    let mut store = MemoryStore::new();
    let note = store.create(NoteType::Markdown, None).unwrap();
    let content = "# Hello\n\nThis is **bold** and *italic*.";
    let updated = store.update(note.id, content, None).unwrap();
    assert_eq!(updated.content_plaintext, content);
    assert_eq!(updated.title, "Untitled");

    let doc = LoroDoc::from_snapshot(&updated.content_loro_blob).unwrap();
    assert_eq!(doc.get_text("content").to_string(), content);
}

#[test]
fn notes_update_rejects_list_type() {
    let mut store = MemoryStore::new();
    let note = store.create(NoteType::List, None).unwrap();
    let err = store.update(note.id, "# Hello", None).unwrap_err();
    assert!(matches!(err, StorageError::WrongNoteType { .. }));
}

#[test]
fn notes_update_with_title_override() {
    let mut store = MemoryStore::new();
    let note = store.create(NoteType::Markdown, None).unwrap();
    let updated = store
        .update(note.id, "# Hello", Some("Custom Title"))
        .unwrap();
    assert_eq!(updated.title, "Custom Title");
}

#[test]
fn notes_update_with_empty_title_uses_neutral_default() {
    let mut store = MemoryStore::new();
    let note = store.create(NoteType::Markdown, None).unwrap();
    let updated = store.update(note.id, "# Hello", Some("  ")).unwrap();
    assert_eq!(updated.title, "Untitled");
}

#[test]
fn content_update_without_title_preserves_custom_title() {
    let mut store = MemoryStore::new();
    let note = store.create(NoteType::Markdown, None).unwrap();
    store
        .update(note.id, "# First", Some("User Title"))
        .unwrap();
    let updated = store.update(note.id, "# World", None).unwrap();
    assert_eq!(updated.title, "User Title");
}

#[test]
fn query_soft_delete_hides_note() {
    let mut store = MemoryStore::new();
    let note = store.create(NoteType::Markdown, None).unwrap();
    store.soft_delete(note.id).unwrap();

    let list = store.list(None).unwrap();
    assert!(list.is_empty());
}

#[test]
fn remote_delete_is_idempotent_for_existing_and_missing_notes() {
    let mut store = MemoryStore::new();
    let note = store.create(NoteType::Markdown, None).unwrap();

    store.apply_remote_delete(note.id);
    store.apply_remote_delete(note.id);
    store.apply_remote_delete(uuid::Uuid::now_v7().as_u128());

    assert!(store.list(None).unwrap().is_empty());
    assert!(store.get(note.id).unwrap().is_deleted);
}

#[test]
fn query_search_notes() {
    let mut store = MemoryStore::new();
    let n1 = store.create(NoteType::Markdown, None).unwrap();
    store
        .update(n1.id, "Groceries: milk and eggs", None)
        .unwrap();
    let n2 = store.create(NoteType::Markdown, None).unwrap();
    store.update(n2.id, "Meeting with Alice", None).unwrap();

    let results = store.search("Groceries").unwrap();
    assert_eq!(results.len(), 1);
    assert_eq!(results[0].id, n1.id);
}

#[test]
fn query_get_missing_returns_not_found() {
    let store = MemoryStore::new();
    let id = uuid::Uuid::now_v7().as_u128();
    let err = store.get(id).unwrap_err();
    assert!(matches!(err, StorageError::NotFound { .. }));
}

#[test]
fn query_list_filtered_by_folder() {
    let mut store = MemoryStore::new();
    let folder_id = uuid::Uuid::now_v7().as_u128();

    store.create(NoteType::Markdown, None).unwrap();
    store.create(NoteType::List, Some(folder_id)).unwrap();
    store.create(NoteType::Markdown, Some(folder_id)).unwrap();

    let all = store.list(None).unwrap();
    assert_eq!(all.len(), 3);

    let filtered = store.list(Some(folder_id)).unwrap();
    assert_eq!(filtered.len(), 2);
}

#[test]
fn apply_remote_update_creates_new_note() {
    let mut store = MemoryStore::new();

    let mut doc = LoroDoc::new();
    let text = doc.get_text("content");
    text.insert(0, "# Remote Note\n\nHello from another device")
        .unwrap();
    Note::set_title_in_doc(&mut doc, "Remote Note").unwrap();
    let blob = doc.export(ExportMode::Snapshot).unwrap();

    let remote_id = uuid::Uuid::now_v7().as_u128();
    let note = store
        .apply_remote_update(remote_id, NoteType::Markdown, &blob)
        .unwrap();

    assert_eq!(note.id, remote_id);
    assert_eq!(note.note_type, NoteType::Markdown);
    assert_eq!(note.title, "Remote Note");
    assert!(note.content_plaintext.contains("Hello from another device"));

    let fetched = store.get(remote_id).unwrap();
    assert_eq!(fetched.id, remote_id);
}

#[test]
fn apply_remote_update_merges_into_existing() {
    let mut store = MemoryStore::new();
    let note = store.create(NoteType::Markdown, None).unwrap();
    store.update(note.id, "# Original\n\nHello", None).unwrap();

    let doc = LoroDoc::from_snapshot(&store.get(note.id).unwrap().content_loro_blob).unwrap();
    let text = doc.get_text("content");
    let pos = text.to_string().len();
    text.insert(pos, "\n\nAppended by remote").unwrap();
    let update_blob = doc.export(ExportMode::Snapshot).unwrap();

    let merged = store
        .apply_remote_update(note.id, NoteType::Markdown, &update_blob)
        .unwrap();

    assert!(merged.content_plaintext.contains("Hello"));
    assert!(merged.content_plaintext.contains("Appended by remote"));
}

#[test]
fn apply_remote_update_list_note() {
    let mut store = MemoryStore::new();

    let mut doc = LoroDoc::new();
    let list = doc.get_list("items");
    list.push("milk").unwrap();
    list.push("eggs").unwrap();
    Note::set_title_in_doc(&mut doc, "Groceries").unwrap();
    let blob = doc.export(ExportMode::Snapshot).unwrap();

    let remote_id = uuid::Uuid::now_v7().as_u128();
    let note = store
        .apply_remote_update(remote_id, NoteType::List, &blob)
        .unwrap();

    assert_eq!(note.note_type, NoteType::List);
    assert_eq!(note.content_plaintext, "milk\neggs");
    assert_eq!(note.title, "Groceries");
}

#[test]
fn title_is_part_of_remote_update_metadata() {
    let mut source = MemoryStore::new();
    let note = source.create(NoteType::Markdown, None).unwrap();
    let renamed = source
        .update(note.id, "# Heading", Some("User-owned title"))
        .unwrap();

    let mut destination = MemoryStore::new();
    let received = destination
        .apply_remote_update(note.id, NoteType::Markdown, &renamed.content_loro_blob)
        .unwrap();
    assert_eq!(received.title, "User-owned title");

    let edited = source.update(note.id, "# Different heading", None).unwrap();
    let received = destination
        .apply_remote_update(note.id, NoteType::Markdown, &edited.content_loro_blob)
        .unwrap();
    assert_eq!(received.title, "User-owned title");
}

#[test]
fn create_assigns_increasing_sort_order_and_hash_of_empty_text() {
    let mut store = MemoryStore::new();
    store.set_next_sort_order(5);
    let a = store.create(NoteType::Markdown, None).unwrap();
    let b = store.create(NoteType::List, None).unwrap();
    assert_eq!(a.sort_order, 5);
    assert_eq!(b.sort_order, 6);
    assert_eq!(store.next_sort_order(), 7);
    assert_eq!(a.content_hash, sha2::Sha256::digest(b"").to_vec());
    assert_eq!(a.created_at, a.updated_at);
    assert!(!a.is_deleted);
    assert!(a.deleted_at.is_none());
}

#[test]
fn update_hashes_new_text_and_trims_title() {
    let mut store = MemoryStore::new();
    let note = store.create(NoteType::Markdown, None).unwrap();
    let updated = store.update(note.id, "body", Some("  Spaced  ")).unwrap();
    assert_eq!(updated.title, "Spaced");
    assert_eq!(updated.content_hash, sha2::Sha256::digest(b"body").to_vec());
    let doc = LoroDoc::from_snapshot(&updated.content_loro_blob).unwrap();
    assert_eq!(Note::title_from_doc(&doc).as_deref(), Some("Spaced"));
}

#[test]
fn missing_note_errors_leave_the_store_unchanged() {
    let mut store = MemoryStore::new();
    let id = uuid::Uuid::now_v7().as_u128();
    assert!(matches!(store.update(id, "x", None), Err(StorageError::NotFound { .. })));
    assert!(matches!(store.list_add_item(id, "x"), Err(StorageError::NotFound { .. })));
    assert!(matches!(store.soft_delete(id), Err(StorageError::NotFound { .. })));
    assert!(store.list(None).unwrap().is_empty());
    let err = store.get(id).unwrap_err();
    match err {
        StorageError::NotFound { id: text } => {
            assert_eq!(text, uuid::Uuid::from_u128(id).to_string())
        }
        other => panic!("unexpected error {other:?}"),
    }
}

#[test]
fn list_and_search_are_newest_first_and_ignore_case() {
    let mut store = MemoryStore::new();
    let a = store.create(NoteType::Markdown, None).unwrap();
    store.update(a.id, "Alpha BETA", None).unwrap();
    let b = store.create(NoteType::Markdown, None).unwrap();
    store.update(b.id, "beta gamma", None).unwrap();
    let c = store.create(NoteType::List, None).unwrap();
    store.list_add_item(c.id, "delta").unwrap();

    let listed = store.list(None).unwrap();
    assert_eq!(listed.len(), 3);
    for pair in listed.windows(2) {
        assert!(pair[0].updated_at.secs > pair[1].updated_at.secs
            || (pair[0].updated_at.secs == pair[1].updated_at.secs
                && pair[0].updated_at.nanos >= pair[1].updated_at.nanos));
    }
    let found = store.search("Beta").unwrap();
    assert_eq!(found.len(), 2);
    let found_ids: Vec<_> = found.iter().map(|n| n.id).collect();
    assert!(found_ids.contains(&a.id) && found_ids.contains(&b.id));
    assert_eq!(store.search("LIST").unwrap().len(), 1);
    assert_eq!(store.search("").unwrap().len(), 3);
    store.soft_delete(b.id).unwrap();
    assert_eq!(store.search("beta").unwrap().len(), 1);
}

#[test]
fn list_remove_takes_the_first_equal_item_only() {
    let mut store = MemoryStore::new();
    let note = store.create(NoteType::List, None).unwrap();
    let items: Vec<String> = ["a", "b", "a"].iter().map(|s| s.to_string()).collect();
    store.list_replace_items(note.id, &items, None).unwrap();
    let after = store.list_remove_item(note.id, "a").unwrap();
    assert_eq!(after.content_plaintext, "b\na");
    let markdown = store.create(NoteType::Markdown, None).unwrap().id;
    assert!(matches!(
        store.list_add_item(markdown, "x"),
        Err(StorageError::WrongNoteType { .. })
    ));
}

#[test]
fn import_note_replaces_by_id() {
    let mut store = MemoryStore::new();
    let mut note = store.create(NoteType::Markdown, None).unwrap();
    note.title = "Imported".to_string();
    let id = note.id;
    store.import_note(note);
    assert_eq!(store.get(id).unwrap().title, "Imported");
    assert_eq!(store.list(None).unwrap().len(), 1);
}
