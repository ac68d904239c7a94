use no_nonsense_notes_core::StorageError;
use no_nonsense_notes_core::clock::Timestamp;
use no_nonsense_notes_core::note::NoteType;
use no_nonsense_notes_core::records::to_record;
use no_nonsense_notes_core::storage::edit::new_note;
use no_nonsense_notes_core::storage::memory::MemoryStore;
use no_nonsense_notes_core::storage::migrations::{
    Migration, file_stem, is_migration_file, migration_files, migrations, pending_migrations,
};
use no_nonsense_notes_core::storage::native::cursor_from_setting;
use no_nonsense_notes_core::storage::note_repo::{
    existing_from_lookup, plan_create, plan_list_remove, plan_markdown_edit, content_update_params, merged_insert_params, merged_update_params, note_from_query,
    note_insert_params, notes_from_rows, row_to_note,
};
use no_nonsense_notes_core::storage::sqlite::SqlValue;
use no_nonsense_notes_core::text::push_decimal_i64;

#[test]
fn a_written_cursor_reads_back() {
    for n in [0i64, 7, -7, 42, 1_000_000, i64::MAX, i64::MIN] {
        let mut s = String::new();
        push_decimal_i64(&mut s, n);
        assert_eq!(s, n.to_string());
        assert_eq!(cursor_from_setting(Some(s)), n);
    }
}

#[test]
fn list_items_written_one_per_line_read_back() {
    let mut store = MemoryStore::new();
    let note = store.create(NoteType::List, None).unwrap();
    let items = vec!["milk".to_string(), "two eggs".to_string(), "bread".to_string()];
    let note = store.list_replace_items(note.id, &items, None).unwrap();
    let record = to_record(note).unwrap();
    assert_eq!(record.items, items);
}

#[test]
fn a_new_database_needs_every_migration_and_a_current_one_none() {
    let all = migrations();
    assert_eq!(pending_migrations(0, &all), vec![0, 1, 2]);
    assert_eq!(pending_migrations(1, &all), vec![1, 2]);
    assert!(pending_migrations(3, &all).is_empty());
    assert!(pending_migrations(99, &all).is_empty());
}

#[test]
fn migration_files_are_the_sql_files_in_name_order() {
    let names: Vec<String> = [
        "002_add_note_type.sql",
        "README.md",
        "001_initial.sql",
        ".sql",
        "003_pending_sync.sql",
        "001_initial.sql.bak",
        "010_later.sql",
    ]
    .iter()
    .map(|s| s.to_string())
    .collect();
    let files = migration_files(&names);
    assert_eq!(
        files,
        vec![
            "001_initial.sql",
            "002_add_note_type.sql",
            "003_pending_sync.sql",
            "010_later.sql"
        ]
    );
    assert!(is_migration_file("a.b.sql"));
    assert!(!is_migration_file("sql"));
    assert!(!is_migration_file("x.SQL"));
    assert_eq!(file_stem("001_initial.sql"), "001_initial");
    assert_eq!(file_stem("a.b.sql"), "a.b");
    assert_eq!(file_stem(".hidden"), ".hidden");
}

fn now() -> Timestamp {
    let t = chrono::Utc::now();
    Timestamp { secs: t.timestamp(), nanos: t.timestamp_subsec_nanos() }
}

#[test]
fn an_inserted_row_reads_back_as_its_note() {
    let id = uuid::Uuid::now_v7().as_u128();
    let folder = uuid::Uuid::now_v7().as_u128();
    let t = now();
    let note = new_note(id, NoteType::List, Some(folder), t, 0).unwrap();
    let stamp = chrono::DateTime::from_timestamp(t.secs, t.nanos).unwrap().to_rfc3339();
    let mut row = note_insert_params(&note, &stamp);
    row.push(SqlValue::Integer(0));
    row.push(SqlValue::Null);
    row.push(SqlValue::Integer(0));
    let back = row_to_note(&row).unwrap();
    assert_eq!(back.id, id);
    assert_eq!(back.folder_id, Some(folder));
    assert_eq!(back.note_type, NoteType::List);
    assert_eq!(back.title, "List");
    assert_eq!(back.content_loro_blob, note.content_loro_blob);
    assert_eq!(back.content_hash, note.content_hash);
    assert_eq!(back.created_at, t);
    assert_eq!(back.updated_at, t);
    assert!(!back.is_deleted);
    assert_eq!(back.deleted_at, None);
    assert_eq!(back.sort_order, 0);
}

#[test]
fn rows_that_do_not_read_are_database_errors() {
    let id = uuid::Uuid::now_v7().as_u128();
    let t = now();
    let note = new_note(id, NoteType::Markdown, None, t, 0).unwrap();
    let stamp = chrono::DateTime::from_timestamp(t.secs, t.nanos).unwrap().to_rfc3339();
    let mut row = note_insert_params(&note, &stamp);
    row.push(SqlValue::Integer(1));
    row.push(SqlValue::Text(stamp.clone()));
    row.push(SqlValue::Integer(5));
    let good = row_to_note(&row).unwrap();
    assert!(good.is_deleted);
    assert_eq!(good.deleted_at, Some(t));
    assert_eq!(good.sort_order, 5);

    let mut bad_type = row.clone();
    bad_type[2] = SqlValue::Text("folder".to_string());
    assert!(matches!(row_to_note(&bad_type), Err(no_nonsense_notes_core::StorageError::Sqlite(_))));
    let mut bad_time = row.clone();
    bad_time[7] = SqlValue::Text("yesterday".to_string());
    assert!(row_to_note(&bad_time).is_err());
    assert!(row_to_note(&row[..11]).is_err());

    assert!(matches!(
        note_from_query(id, Ok(None)),
        Err(no_nonsense_notes_core::StorageError::NotFound { .. })
    ));
    assert!(matches!(
        note_from_query(id, Err("disk I/O error".to_string())),
        Err(no_nonsense_notes_core::StorageError::Sqlite(m)) if m == "disk I/O error"
    ));
    assert_eq!(note_from_query(id, Ok(Some(row.clone()))).unwrap().id, id);
    assert_eq!(notes_from_rows(Ok(vec![row.clone(), row.clone()])).unwrap().len(), 2);
    assert!(notes_from_rows(Ok(vec![row.clone(), bad_time])).is_err());
}

#[test]
fn statement_parameters_follow_their_placeholders() {
    let id = uuid::Uuid::now_v7();
    let note = new_note(id.as_u128(), NoteType::Markdown, None, now(), 0).unwrap();
    let p = content_update_params(&note, "T");
    assert_eq!(p.len(), 6);
    assert!(matches!(&p[0], SqlValue::Text(s) if s == "Untitled"));
    assert!(matches!(&p[4], SqlValue::Text(s) if s == "T"));
    assert!(matches!(&p[5], SqlValue::Text(s) if *s == id.to_string()));
    let p = merged_update_params(&note, "T");
    assert!(matches!(&p[0], SqlValue::Text(s) if s == "markdown"));
    assert!(matches!(&p[6], SqlValue::Text(s) if *s == id.to_string()));
    let p = merged_insert_params(&note, "T");
    assert_eq!(p.len(), 8);
    assert!(matches!(&p[1], SqlValue::Text(s) if s == "markdown"));
    assert!(matches!(&p[7], SqlValue::Text(s) if s == "T"));
}

#[test]
fn note_type_text_form() {
    assert_eq!(NoteType::Markdown.to_string(), "markdown");
    assert_eq!(NoteType::List.to_string(), "list");
}

#[test]
fn pending_migrations_come_in_version_order() {
    let m = |version: i64| Migration { version, description: "d", sql: "" };
    let all = vec![m(2), m(1), m(5), m(3), m(1)];
    assert_eq!(pending_migrations(0, &all), vec![1, 4, 0, 3, 2]);
    assert_eq!(pending_migrations(1, &all), vec![0, 3, 2]);
    assert_eq!(pending_migrations(2, &all), vec![3, 2]);
    assert!(pending_migrations(5, &all).is_empty());
}

#[test]
fn edits_succeed_on_restorable_notes_and_keep_the_title() {
    let mut store = MemoryStore::new();
    let note = store.create(NoteType::Markdown, None).unwrap();
    assert!(!note.content_loro_blob.is_empty());
    store.update(note.id, "one", Some("Kept")).unwrap();
    store.update(note.id, "two", None).unwrap();
    let last = store.update(note.id, "three", None).unwrap();
    assert_eq!(last.title, "Kept");
    assert_eq!(last.content_plaintext, "three");
}

#[test]
fn lookups_before_a_merge_hand_on_only_real_errors() {
    let t = now();
    let note = new_note(7, NoteType::List, None, t, 0).unwrap();
    assert_eq!(existing_from_lookup(Ok(note)).unwrap().unwrap().id, 7);
    assert!(existing_from_lookup(Err(StorageError::NotFound { id: "x".into() })).unwrap().is_none());
    assert!(matches!(
        existing_from_lookup(Err(StorageError::Sqlite("locked".into()))),
        Err(StorageError::Sqlite(m)) if m == "locked"
    ));
}

#[test]
fn planners_give_the_edited_note_and_its_parameters() {
    let t = now();
    let (note, params) = plan_create(9, NoteType::Markdown, None, t, "S");
    assert_eq!(params.len(), 9);
    assert!(matches!(&params[3], SqlValue::Text(s) if s == "Untitled"));
    let (edited, params) = plan_markdown_edit(&note, "body", Some(" Plan "), t, "S2").unwrap();
    assert_eq!(edited.title, "Plan");
    assert!(matches!(&params[0], SqlValue::Text(s) if s == "Plan"));
    assert!(matches!(&params[1], SqlValue::Text(s) if s == "body"));
    assert!(matches!(&params[4], SqlValue::Text(s) if s == "S2"));
    let (list, _) = plan_create(10, NoteType::List, None, t, "S");
    assert!(matches!(
        plan_list_remove(&list, "nope", t, "S"),
        Err(no_nonsense_notes_core::StorageError::NotFound { id }) if id == "list item: nope"
    ));
}

#[test]
fn a_snapshot_received_for_a_new_note_arrives_whole() {
    let doc = loro::LoroDoc::new();
    doc.get_text("content").insert(0, "carried over").unwrap();
    doc.get_map("metadata").insert("title", "Parcel").unwrap();
    let blob = doc.export(loro::ExportMode::Snapshot).unwrap();

    let mut store = MemoryStore::new();
    let id = uuid::Uuid::now_v7().as_u128();
    let note = store.apply_remote_update(id, NoteType::Markdown, &blob).unwrap();
    assert_eq!(note.content_plaintext, "carried over");
    assert_eq!(note.title, "Parcel");
    let restored = loro::LoroDoc::from_snapshot(&note.content_loro_blob).unwrap();
    assert_eq!(restored.get_deep_value(), doc.get_deep_value());
}
