use no_nonsense_notes_core::StorageError;
use no_nonsense_notes_core::note::NoteType;
use no_nonsense_notes_core::storage::native::{
    NativeStore, PendingPush, cursor_from_setting, pending_from_row, queue_kind,
};
use no_nonsense_notes_core::storage::sqlite::SqlValue;
use no_nonsense_notes_core::sync::protocol::{decode_push_response, encode_delete_frame};

#[test]
fn changes_are_queued_once_per_note_and_acknowledged_by_generation() {
    let mut store = NativeStore::open_in_memory().unwrap();
    let note = store.create(NoteType::Markdown).unwrap();
    store.update_markdown(note.id, "hello", None).unwrap();

    let pending = store.next_pending().unwrap().unwrap();
    assert_eq!(pending.doc_id, note.id);
    assert_eq!(pending.note_type, Some(NoteType::Markdown));
    assert_eq!(pending.generation, 2);

    let stale = PendingPush { generation: 1, ..pending.clone() };
    store.acknowledge(&stale).unwrap();
    assert!(store.next_pending().unwrap().is_some());

    store.acknowledge(&pending).unwrap();
    assert!(store.next_pending().unwrap().is_none());
}

#[test]
fn deleting_queues_a_tombstone_frame() {
    let mut store = NativeStore::open_in_memory().unwrap();
    let note = store.create(NoteType::List).unwrap();
    store.delete(note.id).unwrap();
    let pending = store.next_pending().unwrap().unwrap();
    assert_eq!(pending.note_type, None);

    let device = store.device_id().unwrap();
    assert_eq!(store.device_id().unwrap(), device);
    let frame = store.frame_for(&pending).unwrap();
    assert_eq!(frame, encode_delete_frame(note.id, device));
    assert!(store.list().unwrap().is_empty());
}

#[test]
fn push_frame_carries_the_stored_snapshot() {
    let mut store = NativeStore::open_in_memory().unwrap();
    let note = store.create(NoteType::Markdown).unwrap();
    let note = store.update_markdown(note.id, "body", Some("Title")).unwrap();
    let pending = store.next_pending().unwrap().unwrap();
    let frame = store.frame_for(&pending).unwrap();
    assert_eq!(&frame[0..2], &[1u8, 1u8]);
    let blob_len = u32::from_le_bytes([frame[34], frame[35], frame[36], frame[37]]) as usize;
    assert_eq!(blob_len, 1 + note.content_loro_blob.len());
    assert_eq!(frame[38], 0);
    assert_eq!(&frame[39..], note.content_loro_blob.as_slice());
    assert_eq!(decode_push_response(&[7, 0, 0, 0, 0, 0, 0, 0]), Ok(7));
}

#[test]
fn a_bad_pull_response_is_a_protocol_error_and_changes_nothing() {
    let mut store = NativeStore::open_in_memory().unwrap();
    let err = store.apply_pull_response("").unwrap_err();
    assert!(matches!(err, StorageError::Protocol(m) if m == "empty pull response"));
    assert_eq!(store.cursor().unwrap(), 0);
}

#[test]
fn a_pull_response_moves_the_cursor_and_applies_tombstones() {
    let mut store = NativeStore::open_in_memory().unwrap();
    let note = store.create(NoteType::Markdown).unwrap();
    let text = format!("seq:42\n{}:/w==", uuid::Uuid::from_u128(note.id));
    assert_eq!(store.apply_pull_response(&text).unwrap(), 1);
    assert_eq!(store.cursor().unwrap(), 42);
    assert!(store.get(note.id).unwrap().is_deleted);
    assert!(store.search("   ").unwrap().is_empty());
}

#[test]
fn queue_rows_read_back_as_their_changes() {
    let id = uuid::Uuid::now_v7();
    let row = vec![
        SqlValue::Text(id.to_string()),
        SqlValue::Text(queue_kind(Some(NoteType::List)).to_string()),
        SqlValue::Integer(3),
    ];
    let pending = pending_from_row(Some(row)).unwrap().unwrap();
    assert_eq!(pending.doc_id, id.as_u128());
    assert_eq!(pending.note_type, Some(NoteType::List));
    assert_eq!(pending.generation, 3);

    let row = vec![
        SqlValue::Text(id.to_string()),
        SqlValue::Text(queue_kind(None).to_string()),
        SqlValue::Integer(1),
    ];
    assert_eq!(pending_from_row(Some(row)).unwrap().unwrap().note_type, None);

    let row = vec![
        SqlValue::Text(id.to_string()),
        SqlValue::Text("folder".to_string()),
        SqlValue::Integer(1),
    ];
    assert!(matches!(
        pending_from_row(Some(row)),
        Err(StorageError::Parse(m)) if m == "unknown note_type: folder"
    ));
    let row = vec![SqlValue::Text("x".to_string()), SqlValue::Text("list".to_string()), SqlValue::Integer(1)];
    assert!(matches!(pending_from_row(Some(row)), Err(StorageError::Parse(_))));
    let row = vec![SqlValue::Integer(1), SqlValue::Text("list".to_string()), SqlValue::Integer(1)];
    assert!(matches!(pending_from_row(Some(row)), Err(StorageError::Sqlite(_))));
    assert!(pending_from_row(None).unwrap().is_none());
}

#[test]
fn cursor_setting_reads_as_an_integer_or_zero() {
    assert_eq!(cursor_from_setting(Some("17".to_string())), 17);
    assert_eq!(cursor_from_setting(Some("-3".to_string())), -3);
    assert_eq!(cursor_from_setting(Some("x1".to_string())), 0);
    assert_eq!(cursor_from_setting(Some("99999999999999999999".to_string())), 0);
    assert_eq!(cursor_from_setting(None), 0);
}
