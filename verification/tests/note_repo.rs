use loro::LoroDoc;
use no_nonsense_notes_core::StorageError;
use no_nonsense_notes_core::note::{Note, NoteType};
use no_nonsense_notes_core::storage::migrations::run;
use no_nonsense_notes_core::storage::note_repo::NoteRepository;
use no_nonsense_notes_core::storage::sqlite::Database;
use rusqlite::Connection;
use sha2::Digest;

fn prepared() -> Connection {
    let conn = Connection::open_in_memory().unwrap();
    conn.execute_batch("PRAGMA foreign_keys=ON;").unwrap();
    run(&conn).unwrap();
    conn
}

fn add_folder(conn: &Connection, name: &str) -> u128 {
    let folder_id = uuid::Uuid::now_v7();
    conn.execute(
        "INSERT INTO folders (id, name, sort_order, created_at) VALUES (?1, ?2, 0, ?3)",
        (folder_id.to_string(), name, chrono::Utc::now().to_rfc3339()),
    )
    .unwrap();
    folder_id.as_u128()
}

#[test]
fn create_create_markdown_and_get() {
    let db = Database::open_in_memory().unwrap();
    let mut repo = NoteRepository::new(db.connection());

    let note = repo.create(NoteType::Markdown, None).unwrap();
    assert_eq!(note.note_type, NoteType::Markdown);
    assert_eq!(note.title, "Untitled");
    assert!(!note.content_loro_blob.is_empty());

    let fetched = repo.get(note.id).unwrap();
    assert_eq!(fetched.id, note.id);
    assert_eq!(fetched.title, "Untitled");
    assert_eq!(fetched.note_type, NoteType::Markdown);
}

#[test]
fn create_create_list_and_get() {
    let db = Database::open_in_memory().unwrap();
    let mut repo = NoteRepository::new(db.connection());

    let note = repo.create(NoteType::List, None).unwrap();
    assert_eq!(note.note_type, NoteType::List);
    assert_eq!(note.title, "List");
    assert!(note.content_plaintext.is_empty());

    let fetched = repo.get(note.id).unwrap();
    assert_eq!(fetched.note_type, NoteType::List);
}

#[test]
fn create_with_folder() {
    let conn = prepared();
    let mut repo = NoteRepository::new(&conn);
    let folder_id = add_folder(&conn, "Work");

    let note = repo.create(NoteType::Markdown, Some(folder_id)).unwrap();
    assert_eq!(note.folder_id, Some(folder_id));
}

#[test]
fn content_does_not_derive_title() {
    let conn = prepared();
    let mut repo = NoteRepository::new(&conn);

    let note = repo.create(NoteType::Markdown, None).unwrap();
    let updated = repo
        .update(note.id, "# Meeting Notes\n\nLorum ipsum.", None)
        .unwrap();
    assert_eq!(updated.title, "Untitled");
}

#[test]
fn repo_list_replace_items_with_title_override() {
    let conn = prepared();
    let mut repo = NoteRepository::new(&conn);

    let note = repo.create(NoteType::List, None).unwrap();
    let items = vec!["milk".to_string(), "eggs".to_string()];
    let updated = repo
        .list_replace_items(note.id, &items, Some("Shopping"))
        .unwrap();
    assert_eq!(updated.title, "Shopping");
}

#[test]
fn repo_list_add_and_remove() {
    let conn = prepared();
    let mut repo = NoteRepository::new(&conn);

    let note = repo.create(NoteType::List, None).unwrap();
    let id = note.id;
    repo.list_replace_items(id, &[], Some("Shopping")).unwrap();

    repo.list_add_item(id, "milk").unwrap();
    repo.list_add_item(id, "eggs").unwrap();
    repo.list_add_item(id, "bread").unwrap();

    let note = repo.get(id).unwrap();
    assert_eq!(note.content_plaintext, "milk\neggs\nbread");
    assert_eq!(note.title, "Shopping");

    let doc = LoroDoc::from_snapshot(&note.content_loro_blob).unwrap();
    let list = doc.get_list("items");
    assert_eq!(list.len(), 3);

    let note = repo.list_remove_item(id, "eggs").unwrap();
    assert_eq!(note.content_plaintext, "milk\nbread");

    let doc = LoroDoc::from_snapshot(&note.content_loro_blob).unwrap();
    let list = doc.get_list("items");
    assert_eq!(list.len(), 2);
}

#[test]
fn repo_list_replace_items_replaces_all() {
    let conn = prepared();
    let mut repo = NoteRepository::new(&conn);

    let note = repo.create(NoteType::List, None).unwrap();
    repo.list_add_item(note.id, "milk").unwrap();
    repo.list_add_item(note.id, "eggs").unwrap();

    let new_items = vec!["coffee".to_string(), "sugar".to_string()];
    let note = repo.list_replace_items(note.id, &new_items, None).unwrap();
    assert_eq!(note.content_plaintext, "coffee\nsugar");
    assert_eq!(note.title, "List");

    let results = repo.search("coffee").unwrap();
    assert_eq!(results.len(), 1);
}

#[test]
fn repo_list_replace_items_rejects_markdown() {
    let conn = prepared();
    let mut repo = NoteRepository::new(&conn);

    let note = repo.create(NoteType::Markdown, None).unwrap();
    let err = repo
        .list_replace_items(note.id, &["x".to_string()], None)
        .unwrap_err();
    assert!(matches!(err, StorageError::WrongNoteType { .. }));
}

#[test]
fn repo_list_replace_items_empty_clears_list() {
    let conn = prepared();
    let mut repo = NoteRepository::new(&conn);

    let note = repo.create(NoteType::List, None).unwrap();
    repo.list_add_item(note.id, "milk").unwrap();
    repo.list_add_item(note.id, "eggs").unwrap();

    let note = repo.list_replace_items(note.id, &[], None).unwrap();
    assert_eq!(note.content_plaintext, "");
    assert_eq!(note.title, "List");

    let doc = LoroDoc::from_snapshot(&note.content_loro_blob).unwrap();
    let list = doc.get_list("items");
    assert_eq!(list.len(), 0);
}

#[test]
fn repo_list_remove_missing_errors() {
    let conn = prepared();
    let mut repo = NoteRepository::new(&conn);

    let note = repo.create(NoteType::List, None).unwrap();
    repo.list_add_item(note.id, "milk").unwrap();

    let err = repo.list_remove_item(note.id, "nope").unwrap_err();
    assert!(matches!(err, StorageError::NotFound { .. }));
}

#[test]
fn list_add_rejects_markdown() {
    let conn = prepared();
    let mut repo = NoteRepository::new(&conn);

    let note = repo.create(NoteType::Markdown, None).unwrap();
    let err = repo.list_add_item(note.id, "milk").unwrap_err();
    assert!(matches!(err, StorageError::WrongNoteType { .. }));
}

#[test]
fn list_items_searchable() {
    let conn = prepared();
    let mut repo = NoteRepository::new(&conn);

    let n1 = repo.create(NoteType::List, None).unwrap();
    repo.list_add_item(n1.id, "milk").unwrap();
    repo.list_add_item(n1.id, "eggs").unwrap();

    let n2 = repo.create(NoteType::Markdown, None).unwrap();
    repo.update(n2.id, "Meeting with Alice", None).unwrap();

    let results = repo.search("milk").unwrap();
    assert_eq!(results.len(), 1);
    assert_eq!(results[0].id, n1.id);
    assert_eq!(results[0].note_type, NoteType::List);
}

#[test]
fn repo_soft_delete_hides_note() {
    let conn = prepared();
    let mut repo = NoteRepository::new(&conn);

    let note = repo.create(NoteType::Markdown, None).unwrap();
    repo.soft_delete(note.id).unwrap();

    let list = repo.list(None).unwrap();
    assert!(list.is_empty());
}

#[test]
fn list_notes() {
    let conn = prepared();
    let mut repo = NoteRepository::new(&conn);

    repo.create(NoteType::Markdown, None).unwrap();
    repo.create(NoteType::List, None).unwrap();
    repo.create(NoteType::Markdown, None).unwrap();

    let list = repo.list(None).unwrap();
    assert_eq!(list.len(), 3);
}

#[test]
fn repo_list_filtered_by_folder() {
    let conn = prepared();
    let mut repo = NoteRepository::new(&conn);
    let folder_id = add_folder(&conn, "Work");

    repo.create(NoteType::Markdown, None).unwrap();
    repo.create(NoteType::List, Some(folder_id)).unwrap();
    repo.create(NoteType::Markdown, Some(folder_id)).unwrap();

    let all = repo.list(None).unwrap();
    assert_eq!(all.len(), 3);

    let filtered = repo.list(Some(folder_id)).unwrap();
    assert_eq!(filtered.len(), 2);
}

#[test]
fn repo_search_notes() {
    let conn = prepared();
    let mut repo = NoteRepository::new(&conn);

    let n1 = repo.create(NoteType::Markdown, None).unwrap();
    repo.update(n1.id, "Groceries: milk and eggs", None).unwrap();
    let n2 = repo.create(NoteType::Markdown, None).unwrap();
    repo.update(n2.id, "Meeting with Alice", None).unwrap();

    let results = repo.search("Groceries").unwrap();
    assert_eq!(results.len(), 1);
    assert_eq!(results[0].id, n1.id);
}

#[test]
fn search_ignores_deleted() {
    let conn = prepared();
    let mut repo = NoteRepository::new(&conn);

    let note = repo.create(NoteType::Markdown, None).unwrap();
    repo.update(note.id, "Important stuff", None).unwrap();
    repo.soft_delete(note.id).unwrap();

    let results = repo.search("Important").unwrap();
    assert!(results.is_empty());
}

#[test]
fn repo_get_missing_returns_not_found() {
    let conn = prepared();
    let mut repo = NoteRepository::new(&conn);

    let id = uuid::Uuid::now_v7().as_u128();
    let err = repo.get(id).unwrap_err();
    assert!(matches!(err, StorageError::NotFound { .. }));
}

#[test]
fn update_update_content_round_trip() {
    let conn = prepared();
    let mut repo = NoteRepository::new(&conn);

    let note = repo.create(NoteType::Markdown, None).unwrap();
    let content = "# Hello\n\nThis is **bold** and *italic*.";
    let updated = repo.update(note.id, content, None).unwrap();
    assert_eq!(updated.content_plaintext, content);
    assert_eq!(updated.title, "Untitled");

    let doc = LoroDoc::from_snapshot(&updated.content_loro_blob).unwrap();
    assert_eq!(doc.get_text("content").to_string(), content);
}

#[test]
fn update_update_rejects_list_type() {
    let conn = prepared();
    let mut repo = NoteRepository::new(&conn);

    let note = repo.create(NoteType::List, None).unwrap();
    let err = repo.update(note.id, "# Hello", None).unwrap_err();
    assert!(matches!(err, StorageError::WrongNoteType { .. }));
}

#[test]
fn update_update_with_title_override() {
    let conn = prepared();
    let mut repo = NoteRepository::new(&conn);

    let note = repo.create(NoteType::Markdown, None).unwrap();
    let updated = repo
        .update(note.id, "# Hello", Some("Custom Title"))
        .unwrap();
    assert_eq!(updated.title, "Custom Title");

    let updated = repo.update(note.id, "# Different heading", None).unwrap();
    assert_eq!(updated.title, "Custom Title");
    let doc = LoroDoc::from_snapshot(&updated.content_loro_blob).unwrap();
    assert_eq!(Note::title_from_doc(&doc).as_deref(), Some("Custom Title"));
}

#[test]
fn update_update_with_empty_title_uses_neutral_default() {
    let conn = prepared();
    let mut repo = NoteRepository::new(&conn);

    let note = repo.create(NoteType::Markdown, None).unwrap();
    let updated = repo.update(note.id, "# Hello", Some("  ")).unwrap();
    assert_eq!(updated.title, "Untitled");
}

#[test]
fn repo_remote_update_creates_then_merges_and_undeletes() {
    let conn = prepared();
    let mut repo = NoteRepository::new(&conn);
    let id = uuid::Uuid::now_v7().as_u128();

    let doc = LoroDoc::new();
    doc.get_text("content").insert(0, "from afar").unwrap();
    let blob = doc.export(loro::ExportMode::Snapshot).unwrap();
    let created = repo.apply_remote_update(id, NoteType::Markdown, &blob).unwrap();
    assert_eq!(created.id, id);
    assert_eq!(created.content_plaintext, "from afar");
    assert_eq!(created.title, "Untitled");
    assert!(!created.is_deleted);

    repo.soft_delete(id).unwrap();
    assert!(repo.get(id).unwrap().is_deleted);

    doc.get_map("metadata").insert("title", "Postcard").unwrap();
    let update = doc.export(loro::ExportMode::Snapshot).unwrap();
    let merged = repo.apply_remote_update(id, NoteType::Markdown, &update).unwrap();
    assert_eq!(merged.title, "Postcard");
    assert!(!merged.is_deleted);
    assert_eq!(repo.search("afar").unwrap().len(), 1);
}

#[test]
fn repo_remote_delete_of_missing_note_is_ok() {
    let conn = prepared();
    let mut repo = NoteRepository::new(&conn);
    let id = uuid::Uuid::now_v7().as_u128();
    repo.apply_remote_delete(id).unwrap();
    assert!(matches!(repo.get(id), Err(StorageError::NotFound { .. })));

    let note = repo.create(NoteType::List, None).unwrap();
    repo.apply_remote_delete(note.id).unwrap();
    repo.apply_remote_delete(note.id).unwrap();
    assert!(repo.get(note.id).unwrap().is_deleted);
    assert!(repo.list(None).unwrap().is_empty());
}

#[test]
fn repo_hash_is_sha256_of_text() {
    let conn = prepared();
    let mut repo = NoteRepository::new(&conn);
    let note = repo.create(NoteType::Markdown, None).unwrap();
    assert_eq!(note.content_hash, sha2::Sha256::digest(b"").to_vec());
    let updated = repo.update(note.id, "abc", None).unwrap();
    assert_eq!(updated.content_hash, sha2::Sha256::digest(b"abc").to_vec());
}

#[test]
fn plan_remote_update_marks_a_stored_note_live() {
    let conn = prepared();
    let mut repo = NoteRepository::new(&conn);
    let note = repo.create(NoteType::Markdown, None).unwrap();
    repo.soft_delete(note.id).unwrap();
    let stored = repo.get(note.id).unwrap();
    assert!(stored.is_deleted);
    assert!(stored.deleted_at.is_some());

    let doc = LoroDoc::new();
    doc.get_text("content").insert(0, "again").unwrap();
    let blob = doc.export(loro::ExportMode::Snapshot).unwrap();
    let (merged, params) = no_nonsense_notes_core::storage::note_repo::plan_remote_update(
        Some(&stored),
        note.id,
        NoteType::Markdown,
        &blob,
        stored.updated_at,
        "2024-05-01T00:00:00+00:00",
    )
    .unwrap();
    assert!(!merged.is_deleted);
    assert!(merged.deleted_at.is_none());
    assert_eq!(merged.id, note.id);
    assert_eq!(merged.content_plaintext, "again");
    assert_eq!(params.len(), 7);
}
