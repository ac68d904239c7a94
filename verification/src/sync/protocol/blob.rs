use vstd::prelude::*;

use super::{SyncBlob, SyncPayload, TOMBSTONE};
use crate::note::{NoteType, note_type_byte, note_type_of_byte};
use crate::text::{decimal, push_decimal_u64, to_string};

verus! {

/// The bytes of a sync blob: the note type's byte followed by the Loro
/// snapshot, or the single tombstone byte.
pub open spec fn sync_blob_bytes(b: SyncBlob) -> Seq<u8> {
    match b {
        SyncBlob::Note { note_type, loro_blob } => seq![note_type_byte(note_type)] + loro_blob,
        SyncBlob::Tombstone => seq![0xFFu8],
    }
}

/// Why bytes are not a sync blob.
pub enum BlobError {
    Empty,
    TrailingAfterTombstone,
    InvalidNoteType(u8),
}

/// How a sync blob reads.
pub open spec fn parse_sync_blob(data: Seq<u8>) -> Result<SyncBlob, BlobError> {
    if data.len() == 0 {
        Err(BlobError::Empty)
    } else if data[0] == 0xFFu8 {
        if data.len() != 1 {
            Err(BlobError::TrailingAfterTombstone)
        } else {
            Ok(SyncBlob::Tombstone)
        }
    } else {
        match note_type_of_byte(data[0]) {
            Some(t) => Ok(SyncBlob::Note { note_type: t, loro_blob: data.drop_first() }),
            None => Err(BlobError::InvalidNoteType(data[0])),
        }
    }
}

/// The message that reports a blob error.
pub open spec fn blob_error_message(e: BlobError) -> Seq<char> {
    match e {
        BlobError::Empty => "sync blob too short"@,
        BlobError::TrailingAfterTombstone => "tombstone blob has trailing bytes"@,
        BlobError::InvalidNoteType(b) => "invalid note type byte: "@ + decimal(b as int),
    }
}

/// Encodes a note's Loro snapshot with its type.
pub fn encode_sync_blob(note_type: NoteType, loro_blob: &[u8]) -> (buf: Vec<u8>)
    ensures
        buf@ == sync_blob_bytes(SyncBlob::Note { note_type, loro_blob: loro_blob@ }),
{
    let mut buf: Vec<u8> = Vec::new();
    buf.push(note_type.as_byte());
    let mut i: usize = 0;
    while i < loro_blob.len()
        invariant
            i <= loro_blob@.len(),
            buf@ == seq![note_type_byte(note_type)] + loro_blob@.take(i as int),
        decreases loro_blob@.len() - i,
    {
        buf.push(loro_blob[i]);
        i = i + 1;
        assert(buf@ =~= seq![note_type_byte(note_type)] + loro_blob@.take(i as int));
    }
    assert(loro_blob@.take(loro_blob@.len() as int) =~= loro_blob@);
    buf
}

/// Encodes a deletion.
pub fn encode_tombstone_blob() -> (buf: Vec<u8>)
    ensures
        buf@ == sync_blob_bytes(SyncBlob::Tombstone),
{
    let mut buf: Vec<u8> = Vec::new();
    buf.push(TOMBSTONE);
    assert(buf@ =~= seq![0xFFu8]);
    buf
}

/// Reads a sync blob; the Loro snapshot it holds is borrowed from `data`.
pub fn decode_sync_blob(data: &[u8]) -> (r: Result<SyncPayload<'_>, String>)
    ensures
        match r {
            Ok(p) => parse_sync_blob(data@) == Ok::<SyncBlob, BlobError>(p@),
            Err(m) => parse_sync_blob(data@) matches Err(e) && m@ == blob_error_message(e),
        },
{
    if data.len() == 0 {
        return Err(to_string("sync blob too short"));
    }
    if data[0] == TOMBSTONE {
        if data.len() != 1 {
            return Err(to_string("tombstone blob has trailing bytes"));
        }
        return Ok(SyncPayload::Tombstone);
    }
    match NoteType::from_byte(data[0]) {
        Some(note_type) => {
            let rest = &data[1..data.len()];
            assert(rest@ =~= data@.drop_first());
            Ok(SyncPayload::Note { note_type, loro_blob: rest })
        },
        None => {
            let mut m = to_string("invalid note type byte: ");
            push_decimal_u64(&mut m, data[0] as u64);
            Err(m)
        },
    }
}

/// Every sync blob reads back as what was encoded.
pub proof fn lemma_sync_blob_round_trip(b: SyncBlob)
    ensures
        parse_sync_blob(sync_blob_bytes(b)) == Ok::<SyncBlob, BlobError>(b),
{
    match b {
        SyncBlob::Note { note_type, loro_blob } => {
            let bytes = sync_blob_bytes(b);
            assert(bytes.drop_first() =~= loro_blob);
        },
        SyncBlob::Tombstone => {},
    }
}

/// Bytes that read as a sync blob are exactly that blob's encoding.
pub proof fn lemma_sync_blob_parse_exact(data: Seq<u8>)
    ensures
        parse_sync_blob(data) matches Ok(b) ==> sync_blob_bytes(b) == data,
{
    if parse_sync_blob(data) is Ok {
        if data[0] == 0xFFu8 {
            assert(data =~= seq![0xFFu8]);
        } else {
            let b = parse_sync_blob(data)->Ok_0;
            assert(sync_blob_bytes(b) =~= data);
        }
    }
}

} // verus!
