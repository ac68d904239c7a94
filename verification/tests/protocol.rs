use base64::Engine;
use no_nonsense_notes_core::note::NoteType;
use no_nonsense_notes_core::sync::protocol::{
    MSG_PUSH, PullPayload, PushPayload, SyncPayload, TOMBSTONE, VERSION, decode_pull_response,
    decode_push_response, decode_sync_blob, encode_delete_frame, encode_pull_request,
    encode_push_frame, encode_sync_blob, encode_tombstone_blob,
};
use uuid::Uuid;

fn b64(bytes: &[u8]) -> String {
    base64::engine::general_purpose::STANDARD.encode(bytes)
}

#[test]
fn encode_decode_sync_blob_round_trip() {
    let blob = vec![1, 2, 3, 4, 5];
    let encoded = encode_sync_blob(NoteType::Markdown, &blob);
    assert_eq!(
        decode_sync_blob(&encoded).unwrap(),
        SyncPayload::Note {
            note_type: NoteType::Markdown,
            loro_blob: &blob,
        }
    );
}

#[test]
fn encode_decode_sync_blob_list() {
    let blob = vec![9, 9, 9];
    let encoded = encode_sync_blob(NoteType::List, &blob);
    assert_eq!(
        decode_sync_blob(&encoded).unwrap(),
        SyncPayload::Note {
            note_type: NoteType::List,
            loro_blob: &blob,
        }
    );
}

#[test]
fn encode_decode_tombstone_round_trip() {
    let encoded = encode_tombstone_blob();
    assert_eq!(decode_sync_blob(&encoded).unwrap(), SyncPayload::Tombstone);
    assert!(decode_sync_blob(&[TOMBSTONE, 0]).is_err());
}

#[test]
fn decode_sync_blob_empty_errors() {
    assert!(decode_sync_blob(&[]).is_err());
}

#[test]
fn decode_sync_blob_invalid_note_type_errors() {
    assert!(decode_sync_blob(&[99]).is_err());
}

#[test]
fn decode_sync_blob_error_messages() {
    assert_eq!(decode_sync_blob(&[]).unwrap_err(), "sync blob too short");
    assert_eq!(
        decode_sync_blob(&[TOMBSTONE, 7]).unwrap_err(),
        "tombstone blob has trailing bytes"
    );
    assert_eq!(
        decode_sync_blob(&[99]).unwrap_err(),
        "invalid note type byte: 99"
    );
    assert_eq!(
        decode_sync_blob(&[2, 1]).unwrap_err(),
        "invalid note type byte: 2"
    );
}

#[test]
fn encode_sync_blob_exact_bytes() {
    assert_eq!(encode_sync_blob(NoteType::List, &[7, 8]), vec![1, 7, 8]);
    assert_eq!(encode_sync_blob(NoteType::Markdown, &[]), vec![0]);
    assert_eq!(encode_tombstone_blob(), vec![0xFF]);
}

#[test]
fn encode_push_frame_correct_format() {
    let doc_id = uuid::Uuid::now_v7().as_u128();
    let device_id = uuid::Uuid::now_v7().as_u128();
    let loro_blob = vec![0xDE, 0xAD, 0xBE, 0xEF];
    let payload = PushPayload {
        doc_id,
        device_id,
        note_type: NoteType::Markdown,
        loro_blob: &loro_blob,
    };
    let frame = encode_push_frame(&payload);

    assert_eq!(frame[0], VERSION);
    assert_eq!(frame[1], MSG_PUSH);
    assert_eq!(&frame[2..18], Uuid::from_u128(doc_id).as_bytes());
    assert_eq!(&frame[18..34], Uuid::from_u128(device_id).as_bytes());
    let blob_len = u32::from_le_bytes(frame[34..38].try_into().unwrap());
    assert_eq!(blob_len as usize, 1 + loro_blob.len());
    assert_eq!(frame[38], NoteType::Markdown.as_byte());
    assert_eq!(&frame[39..], &loro_blob[..]);
}

#[test]
fn encode_delete_frame_contains_tombstone() {
    let doc_id = uuid::Uuid::now_v7().as_u128();
    let device_id = uuid::Uuid::now_v7().as_u128();
    let frame = encode_delete_frame(doc_id, device_id);

    assert_eq!(u32::from_le_bytes(frame[34..38].try_into().unwrap()), 1);
    assert_eq!(&frame[38..], &[TOMBSTONE]);
}

#[test]
fn encode_delete_frame_exact_bytes() {
    let frame = encode_delete_frame(0x0102030405060708090a0b0c0d0e0f10, 0xff);
    let mut expected = vec![1u8, 1];
    expected.extend_from_slice(&[1, 2, 3, 4, 5, 6, 7, 8, 9, 10, 11, 12, 13, 14, 15, 16]);
    expected.extend_from_slice(&[0; 15]);
    expected.push(0xff);
    expected.extend_from_slice(&[1, 0, 0, 0]);
    expected.push(0xFF);
    assert_eq!(frame, expected);
}

#[test]
fn decode_push_response_round_trip() {
    let seq = 42i64;
    let data = seq.to_le_bytes().to_vec();
    let decoded = decode_push_response(&data).unwrap();
    assert_eq!(decoded, seq);
}

#[test]
fn decode_push_response_reads_first_eight_bytes() {
    let mut data = (-5i64).to_le_bytes().to_vec();
    data.extend_from_slice(&[9, 9]);
    assert_eq!(decode_push_response(&data).unwrap(), -5);
    assert_eq!(
        decode_push_response(&i64::MAX.to_le_bytes()).unwrap(),
        i64::MAX
    );
    assert_eq!(
        decode_push_response(&0x0102030405060708i64.to_le_bytes()).unwrap(),
        0x0102030405060708
    );
}

#[test]
fn decode_push_response_too_short() {
    assert!(decode_push_response(&[1, 2, 3]).is_err());
    assert_eq!(
        decode_push_response(&[1, 2, 3, 4, 5, 6, 7]).unwrap_err(),
        "push response too short"
    );
}

#[test]
fn encode_pull_request_format() {
    let req = encode_pull_request(123);
    assert_eq!(req, "pull:123");
}

#[test]
fn encode_pull_request_edge_values() {
    assert_eq!(encode_pull_request(0), "pull:0");
    assert_eq!(encode_pull_request(-7), "pull:-7");
    assert_eq!(encode_pull_request(i64::MIN), format!("pull:{}", i64::MIN));
    assert_eq!(encode_pull_request(i64::MAX), format!("pull:{}", i64::MAX));
}

#[test]
fn decode_pull_response_with_entries() {
    let doc_id = uuid::Uuid::now_v7().as_u128();
    let loro_blob = vec![1, 2, 3];
    let sync_blob = encode_sync_blob(NoteType::List, &loro_blob);
    let response = format!("seq:100\n{}:{}\n", Uuid::from_u128(doc_id), b64(&sync_blob));

    let decoded = decode_pull_response(&response).unwrap();
    assert_eq!(decoded.current_seq, 100);
    assert_eq!(decoded.entries.len(), 1);
    assert_eq!(decoded.entries[0].doc_id, doc_id);
    assert_eq!(
        decoded.entries[0].payload,
        PullPayload::Note {
            note_type: NoteType::List,
            loro_blob,
        }
    );
}

#[test]
fn decode_pull_response_empty() {
    let decoded = decode_pull_response("seq:50\n").unwrap();
    assert_eq!(decoded.current_seq, 50);
    assert!(decoded.entries.is_empty());
}

#[test]
fn decode_pull_response_multiple_entries() {
    let doc1 = uuid::Uuid::now_v7().as_u128();
    let doc2 = uuid::Uuid::now_v7().as_u128();
    let blob1 = encode_sync_blob(NoteType::Markdown, &[1]);
    let blob2 = encode_sync_blob(NoteType::List, &[2, 3]);
    let response = format!(
        "seq:200\n{}:{}\n{}:{}\n",
        Uuid::from_u128(doc1),
        b64(&blob1),
        Uuid::from_u128(doc2),
        b64(&blob2)
    );

    let decoded = decode_pull_response(&response).unwrap();
    assert_eq!(decoded.entries.len(), 2);
    assert!(matches!(
        decoded.entries[0].payload,
        PullPayload::Note {
            note_type: NoteType::Markdown,
            ..
        }
    ));
    assert!(matches!(
        decoded.entries[1].payload,
        PullPayload::Note {
            note_type: NoteType::List,
            ..
        }
    ));
}

#[test]
fn decode_pull_response_tombstone() {
    let doc_id = uuid::Uuid::now_v7().as_u128();
    let response = format!(
        "seq:201\n{}:{}\n",
        Uuid::from_u128(doc_id),
        b64(&encode_tombstone_blob())
    );

    let decoded = decode_pull_response(&response).unwrap();
    assert_eq!(decoded.entries[0].payload, PullPayload::Tombstone);
}

#[test]
fn decode_pull_response_errors() {
    assert_eq!(decode_pull_response("").err().unwrap(), "empty pull response");
    assert_eq!(decode_pull_response("sq:1").err().unwrap(), "expected seq: prefix");
    assert_eq!(decode_pull_response("seq:x1\n").err().unwrap(), "invalid seq number");
    assert_eq!(decode_pull_response("seq:").err().unwrap(), "invalid seq number");
    assert_eq!(
        decode_pull_response("seq:1\nnocolon\n").err().unwrap(),
        "missing colon in pull entry"
    );
    assert!(decode_pull_response("seq:1\nnot-a-uuid:AA==\n")
        .err()
        .unwrap()
        .starts_with("invalid doc_id: "));
    let id = Uuid::from_u128(uuid::Uuid::now_v7().as_u128());
    assert!(decode_pull_response(&format!("seq:1\n{id}:!!!\n"))
        .err()
        .unwrap()
        .starts_with("base64 decode: "));
    assert_eq!(
        decode_pull_response(&format!("seq:1\n{id}:{}\n", b64(&[]))).err().unwrap(),
        "sync blob too short"
    );
}

#[test]
fn decode_pull_response_lines_and_signs() {
    let id = Uuid::from_u128(7);
    let text = format!(
        "seq:-3\r\n\r\n{id}:{}\r\n\n{id}:{}",
        b64(&[0xFF]),
        b64(&[1, 5])
    );
    let decoded = decode_pull_response(&text).unwrap();
    assert_eq!(decoded.current_seq, -3);
    assert_eq!(decoded.entries.len(), 2);
    assert_eq!(decoded.entries[0].doc_id, 7);
    assert_eq!(decoded.entries[0].payload, PullPayload::Tombstone);
    assert_eq!(
        decoded.entries[1].payload,
        PullPayload::Note {
            note_type: NoteType::List,
            loro_blob: vec![5],
        }
    );
    assert_eq!(decode_pull_response("seq:+9").unwrap().current_seq, 9);
    assert!(decode_pull_response("seq:9223372036854775808").is_err());
    assert_eq!(
        decode_pull_response("seq:-9223372036854775808").unwrap().current_seq,
        i64::MIN
    );
}
