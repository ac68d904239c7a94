//! The sync protocol: the blob that carries one note's state, the binary
//! push frame, and the text pull exchange.
use vstd::prelude::*;

use crate::note::{NoteId, NoteType};

pub mod blob;
pub mod frame;
pub mod pull;

pub use blob::{
    BlobError, blob_error_message, decode_sync_blob, encode_sync_blob, encode_tombstone_blob,
    parse_sync_blob, sync_blob_bytes,
};
pub use pull::{
    base64_decode_result, decode_entries_spec, decode_entry_spec, decode_pull_response,
    decode_pull_spec, entry_from_parts, entry_view, first_index_from,
    lemma_first_index_from_bounds, lines, pull_entry_from_parts, split_lines,
};
pub use frame::{
    decode_push_response, encode_delete_frame, encode_pull_request, encode_push_frame,
    encode_raw_push_frame, id_bytes, push_frame_bytes, push_response_seq, u32_le_bytes,
};

verus! {

pub const VERSION: u8 = 1;

pub const MSG_PUSH: u8 = 0x01;

pub const TOMBSTONE: u8 = 0xFF;

pub const PROTOCOL_VERSION: u8 = 1;

/// One note's state to push to the server.
pub struct PushPayload<'a> {
    pub doc_id: NoteId,
    pub device_id: NoteId,
    pub note_type: NoteType,
    pub loro_blob: &'a [u8],
}

/// What a sync blob holds, borrowed from the bytes it was read from.
#[derive(Debug, PartialEq)]
pub enum SyncPayload<'a> {
    Note { note_type: NoteType, loro_blob: &'a [u8] },
    Tombstone,
}

/// What a sync blob holds, owned.
#[derive(Debug, PartialEq)]
pub enum PullPayload {
    Note { note_type: NoteType, loro_blob: Vec<u8> },
    Tombstone,
}

/// One changed document in a pull response.
pub struct PullEntry {
    pub doc_id: NoteId,
    pub payload: PullPayload,
}

/// The server's answer to a pull request: its sequence number and the
/// documents changed since the requested one.
pub struct PullResponse {
    pub current_seq: i64,
    pub entries: Vec<PullEntry>,
}

/// The meaning of a sync blob: a note's state of a given type, or a deletion.
pub enum SyncBlob {
    Note { note_type: NoteType, loro_blob: Seq<u8> },
    Tombstone,
}

impl<'a> View for SyncPayload<'a> {
    type V = SyncBlob;

    open spec fn view(&self) -> SyncBlob {
        match self {
            SyncPayload::Note { note_type, loro_blob } => SyncBlob::Note {
                note_type: *note_type,
                loro_blob: loro_blob@,
            },
            SyncPayload::Tombstone => SyncBlob::Tombstone,
        }
    }
}

impl View for PullPayload {
    type V = SyncBlob;

    open spec fn view(&self) -> SyncBlob {
        match self {
            PullPayload::Note { note_type, loro_blob } => SyncBlob::Note {
                note_type: *note_type,
                loro_blob: loro_blob@,
            },
            PullPayload::Tombstone => SyncBlob::Tombstone,
        }
    }
}

} // verus!
