use no_nonsense_notes_core::StorageError;
use no_nonsense_notes_core::clock::Timestamp;
use no_nonsense_notes_core::note::{Note, NoteType, parse_note_type};
use no_nonsense_notes_core::records::{
    NativeError, NoteKind, SyncStatus, native_error, nonempty_lines, parse_id, to_record,
};
use no_nonsense_notes_core::storage::migrations::{
    migration_count, migrations, parse_migration_name, pending_migrations,
};
use no_nonsense_notes_core::sync::client::{SyncState, next_retry, retry_delay_secs};

fn sample_note(note_type: NoteType, content: &str) -> Note {
    Note {
        id: 0xa1a2a3a4b1b2c1c2d1d2d3d4d5d6d7d8,
        folder_id: None,
        note_type,
        title: "T".to_string(),
        content_plaintext: content.to_string(),
        content_loro_blob: vec![],
        content_hash: vec![],
        created_at: Timestamp { secs: 0, nanos: 0 },
        updated_at: Timestamp { secs: 1_700_000_000, nanos: 5 },
        is_deleted: false,
        deleted_at: None,
        sort_order: 0,
    }
}

#[test]
fn to_record_splits_list_items_and_formats_times() {
    let rec = to_record(sample_note(NoteType::List, "milk\n\neggs\n")).unwrap();
    assert_eq!(rec.id, "a1a2a3a4-b1b2-c1c2-d1d2-d3d4d5d6d7d8");
    assert_eq!(rec.kind, NoteKind::List);
    assert_eq!(rec.items, vec!["milk".to_string(), "eggs".to_string()]);
    assert_eq!(rec.content, "milk\n\neggs\n");
    assert_eq!(rec.created_at, "1970-01-01T00:00:00+00:00");
    assert_eq!(rec.updated_at, "2023-11-14T22:13:20.000000005+00:00");

    let rec = to_record(sample_note(NoteType::Markdown, "a\nb")).unwrap();
    assert_eq!(rec.kind, NoteKind::Markdown);
    assert!(rec.items.is_empty());

    let mut far = sample_note(NoteType::Markdown, "");
    far.updated_at = Timestamp { secs: i64::MAX, nanos: 0 };
    assert!(to_record(far).is_err());
}

#[test]
fn nonempty_lines_drop_empty_pieces() {
    assert_eq!(nonempty_lines(""), Vec::<String>::new());
    assert_eq!(nonempty_lines("\n\n"), Vec::<String>::new());
    assert_eq!(nonempty_lines("a\r\nb"), vec!["a\r".to_string(), "b".to_string()]);
}

#[test]
fn parse_id_reads_hyphenated_and_simple_forms() {
    assert_eq!(parse_id("a1a2a3a4-b1b2-c1c2-d1d2-d3d4d5d6d7d8").unwrap(), 0xa1a2a3a4b1b2c1c2d1d2d3d4d5d6d7d8);
    assert_eq!(parse_id("a1a2a3a4b1b2c1c2d1d2d3d4d5d6d7d8").unwrap(), 0xa1a2a3a4b1b2c1c2d1d2d3d4d5d6d7d8);
    assert!(matches!(parse_id("nope"), Err(NativeError::Core(_))));
}

#[test]
fn native_error_carries_the_core_message() {
    let e = native_error(StorageError::WrongNoteType {
        expected: "list".to_string(),
        actual: "markdown".to_string(),
    });
    match e {
        NativeError::Core(m) => assert_eq!(
            m,
            "wrong note type for operation: expected list, got markdown"
        ),
    }
    let e = StorageError::Migration { version: -2, detail: "boom".to_string() };
    assert_eq!(e.message(), "migration -2 failed: boom");
    assert_eq!(StorageError::NotFound { id: "x".to_string() }.message(), "note x not found");
}

#[test]
fn kinds_and_states_convert() {
    assert_eq!(NoteType::from(NoteKind::List), NoteType::List);
    assert_eq!(NoteKind::from(NoteType::Markdown), NoteKind::Markdown);
    assert_eq!(SyncStatus::from(SyncState::Connecting), SyncStatus::Connecting);
    assert_eq!(SyncStatus::from(SyncState::Error), SyncStatus::Error);
}

#[test]
fn note_type_names_and_bytes() {
    assert_eq!(NoteType::Markdown.as_str(), "markdown");
    assert_eq!(NoteType::List.as_str(), "list");
    assert_eq!(NoteType::List.as_byte(), 1);
    assert_eq!(NoteType::from_byte(0), Some(NoteType::Markdown));
    assert_eq!(NoteType::from_byte(2), None);
    assert_eq!(parse_note_type("list"), Ok(NoteType::List));
    assert_eq!("markdown".parse::<NoteType>(), Ok(NoteType::Markdown));
    assert_eq!(parse_note_type("List"), Err("unknown note_type: List".to_string()));
    assert_eq!(Note::default_title(NoteType::List), "List");
    assert_eq!(Note::normalize_title(NoteType::Markdown, "\u{3000} x y \t"), "x y");
    assert_eq!(Note::normalize_title(NoteType::List, " \n "), "List");
}

#[test]
fn retry_backoff_doubles_up_to_eight_seconds() {
    assert_eq!(next_retry(0), 1);
    assert_eq!(next_retry(u32::MAX), u32::MAX);
    assert_eq!(retry_delay_secs(1), 2);
    assert_eq!(retry_delay_secs(2), 4);
    assert_eq!(retry_delay_secs(3), 8);
    assert_eq!(retry_delay_secs(40), 8);
}

#[test]
fn migrations_are_ordered_and_counted() {
    let all = migrations();
    assert_eq!(migration_count(), all.len());
    assert_eq!(migration_count(), 3);
    for (i, m) in all.iter().enumerate() {
        assert_eq!(m.version, i as i64 + 1);
    }
    assert_eq!(pending_migrations(0, &all), vec![0, 1, 2]);
    assert_eq!(pending_migrations(2, &all), vec![2]);
    assert!(pending_migrations(3, &all).is_empty());
}

#[test]
fn migration_file_names_give_version_and_description() {
    assert_eq!(
        parse_migration_name("002_add_note_type"),
        Some((2, "add note type".to_string()))
    );
    assert_eq!(parse_migration_name("7"), Some((7, String::new())));
    assert_eq!(parse_migration_name("x_y"), None);
}
