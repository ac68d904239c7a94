use vstd::prelude::*;

use super::{MSG_PUSH, PushPayload, SyncBlob, VERSION};
use super::blob::{encode_sync_blob, encode_tombstone_blob, sync_blob_bytes};
use crate::note::NoteId;
use crate::text::{decimal, push_decimal_i64, to_string};

verus! {

/// The sixteen bytes of an identifier, most significant first (the byte
/// order of a UUID).
pub open spec fn id_bytes(id: u128) -> Seq<u8> {
    Seq::new(16, |i: int| ((id >> ((8 * (15 - i)) as u128)) & 0xff) as u8)
}

/// The four bytes of a length, least significant first.
pub open spec fn u32_le_bytes(x: u32) -> Seq<u8> {
    Seq::new(4, |i: int| ((x >> ((8 * i) as u32)) & 0xff) as u8)
}

/// A push frame: version, message kind, document id, device id, the sync
/// blob's length (truncated to 32 bits) and the sync blob.
pub open spec fn push_frame_bytes(doc_id: u128, device_id: u128, sync_blob: Seq<u8>) -> Seq<u8> {
    seq![1u8, 1u8] + id_bytes(doc_id) + id_bytes(device_id) + u32_le_bytes(
        sync_blob.len() as u32,
    ) + sync_blob
}

/// The value of bytes read least significant first.
pub open spec fn le_value(s: Seq<u8>) -> nat
    decreases s.len(),
{
    if s.len() == 0 {
        0
    } else {
        (s[0] as nat) + 256 * le_value(s.drop_first())
    }
}

pub open spec fn pow256(n: nat) -> nat
    decreases n,
{
    if n == 0 {
        1
    } else {
        256 * pow256((n - 1) as nat)
    }
}

/// The sequence number in a push response: its first eight bytes as a
/// little-endian `i64`.
pub open spec fn push_response_seq(data: Seq<u8>) -> i64 {
    (le_value(data.take(8)) as u64) as i64
}

fn push_id(buf: &mut Vec<u8>, id: u128)
    ensures
        final(buf)@ == old(buf)@ + id_bytes(id),
{
    let ghost start = old(buf)@;
    let mut i: u32 = 0;
    while i < 16
        invariant
            i <= 16,
            buf@ == start + id_bytes(id).take(i as int),
        decreases 16 - i,
    {
        let b = ((id >> (8 * (15 - i)) as u128) & 0xff) as u8;
        buf.push(b);
        i = i + 1;
        assert(buf@ =~= start + id_bytes(id).take(i as int));
    }
    assert(id_bytes(id).take(16) =~= id_bytes(id));
}

fn push_u32_le(buf: &mut Vec<u8>, x: u32)
    ensures
        final(buf)@ == old(buf)@ + u32_le_bytes(x),
{
    let ghost start = old(buf)@;
    let mut i: u32 = 0;
    while i < 4
        invariant
            i <= 4,
            buf@ == start + u32_le_bytes(x).take(i as int),
        decreases 4 - i,
    {
        let b = ((x >> (8 * i)) & 0xff) as u8;
        buf.push(b);
        i = i + 1;
        assert(buf@ =~= start + u32_le_bytes(x).take(i as int));
    }
    assert(u32_le_bytes(x).take(4) =~= u32_le_bytes(x));
}

/// Frames a sync blob for pushing.
pub fn encode_raw_push_frame(doc_id: NoteId, device_id: NoteId, sync_blob: &[u8]) -> (buf: Vec<
    u8,
>)
    ensures
        buf@ == push_frame_bytes(doc_id, device_id, sync_blob@),
{
    let mut buf: Vec<u8> = Vec::new();
    buf.push(VERSION);
    buf.push(MSG_PUSH);
    push_id(&mut buf, doc_id);
    push_id(&mut buf, device_id);
    push_u32_le(&mut buf, sync_blob.len() as u32);
    let ghost head = buf@;
    let mut i: usize = 0;
    while i < sync_blob.len()
        invariant
            i <= sync_blob@.len(),
            buf@ == head + sync_blob@.take(i as int),
        decreases sync_blob@.len() - i,
    {
        buf.push(sync_blob[i]);
        i = i + 1;
        assert(buf@ =~= head + sync_blob@.take(i as int));
    }
    assert(sync_blob@.take(sync_blob@.len() as int) =~= sync_blob@);
    assert(buf@ =~= push_frame_bytes(doc_id, device_id, sync_blob@));
    buf
}

/// Frames a note's state for pushing.
pub fn encode_push_frame(payload: &PushPayload) -> (buf: Vec<u8>)
    ensures
        buf@ == push_frame_bytes(
            payload.doc_id,
            payload.device_id,
            sync_blob_bytes(
                SyncBlob::Note { note_type: payload.note_type, loro_blob: payload.loro_blob@ },
            ),
        ),
{
    let sync_blob = encode_sync_blob(payload.note_type, payload.loro_blob);
    encode_raw_push_frame(payload.doc_id, payload.device_id, sync_blob.as_slice())
}

/// Frames a deletion for pushing.
pub fn encode_delete_frame(doc_id: NoteId, device_id: NoteId) -> (buf: Vec<u8>)
    ensures
        buf@ == push_frame_bytes(doc_id, device_id, sync_blob_bytes(SyncBlob::Tombstone)),
{
    let tombstone = encode_tombstone_blob();
    encode_raw_push_frame(doc_id, device_id, tombstone.as_slice())
}

/// Reads the sequence number the server assigned to a push.
pub fn decode_push_response(data: &[u8]) -> (r: Result<i64, String>)
    ensures
        data@.len() < 8 ==> (r matches Err(m) && m@ == "push response too short"@),
        data@.len() >= 8 ==> r == Ok::<i64, String>(push_response_seq(data@)),
{
    if data.len() < 8 {
        return Err(to_string("push response too short"));
    }
    let ghost bytes = data@.take(8);
    let mut acc: u64 = 0;
    let mut i: usize = 8;
    assert(pow256(8) == 0x1_0000_0000_0000_0000) by {
        reveal_with_fuel(pow256, 9);
    }
    while i > 0
        invariant
            i <= 8 <= data@.len(),
            bytes == data@.take(8),
            acc == le_value(bytes.subrange(i as int, 8)),
            acc < pow256((8 - i) as nat),
            pow256(8) == 0x1_0000_0000_0000_0000,
        decreases i,
    {
        let ghost old_i = i;
        i = i - 1;
        let d = data[i];
        proof {
            assert(bytes.subrange(i as int, 8).drop_first() =~= bytes.subrange(old_i as int, 8));
            assert(pow256((8 - i) as nat) == 256 * pow256((8 - old_i) as nat));
            lemma_pow256_mono((8 - i) as nat, 8);
        }
        acc = acc * 256 + d as u64;
    }
    assert(bytes.subrange(0, 8) =~= bytes);
    Ok(acc as i64)
}

proof fn lemma_pow256_mono(a: nat, b: nat)
    requires
        a <= b,
    ensures
        pow256(a) <= pow256(b),
    decreases b,
{
    if a < b {
        lemma_pow256_mono(a, (b - 1) as nat);
    }
}

/// A length's four bytes read back as the length.
pub proof fn lemma_u32_le_round_trip(x: u32)
    ensures
        le_value(u32_le_bytes(x)) == x,
{
    let b = u32_le_bytes(x);
    let b0 = ((x >> 0u32) & 0xff) as u8;
    let b1 = ((x >> 8u32) & 0xff) as u8;
    let b2 = ((x >> 16u32) & 0xff) as u8;
    let b3 = ((x >> 24u32) & 0xff) as u8;
    assert(b[0] == b0 && b[1] == b1 && b[2] == b2 && b[3] == b3);
    assert(le_value(b) == b0 + 256 * (b1 + 256 * (b2 + 256 * (b3 as nat)))) by {
        reveal_with_fuel(le_value, 5);
        assert(b.drop_first()[0] == b1);
        assert(b.drop_first().drop_first()[0] == b2);
        assert(b.drop_first().drop_first().drop_first()[0] == b3);
        assert(b.drop_first().drop_first().drop_first().drop_first().len() == 0);
    }
    assert(x == ((x >> 0u32) & 0xff) as u8 + 256 * (((x >> 8u32) & 0xff) as u8 + 256 * (((x
        >> 16u32) & 0xff) as u8 + 256 * (((x >> 24u32) & 0xff) as u8)))) by (bit_vector);
}

/// A push frame holds, in order, the version and kind bytes, the document
/// id, the device id, the sync blob's length, and the sync blob itself.
pub proof fn lemma_push_frame_layout(doc_id: u128, device_id: u128, sync_blob: Seq<u8>)
    requires
        sync_blob.len() <= u32::MAX,
    ensures
        ({
            let f = push_frame_bytes(doc_id, device_id, sync_blob);
            &&& f.len() == 38 + sync_blob.len()
            &&& f[0] == 1 && f[1] == 1
            &&& f.subrange(2, 18) == id_bytes(doc_id)
            &&& f.subrange(18, 34) == id_bytes(device_id)
            &&& le_value(f.subrange(34, 38)) == sync_blob.len()
            &&& f.skip(38) == sync_blob
        }),
{
    let f = push_frame_bytes(doc_id, device_id, sync_blob);
    let n = sync_blob.len() as u32;
    lemma_u32_le_round_trip(n);
    assert(f.subrange(2, 18) =~= id_bytes(doc_id));
    assert(f.subrange(18, 34) =~= id_bytes(device_id));
    assert(f.subrange(34, 38) =~= u32_le_bytes(n));
    assert(f.skip(38) =~= sync_blob);
}

/// The text of a pull request for the changes after `last_seq`.
pub fn encode_pull_request(last_seq: i64) -> (s: String)
    ensures
        s@ == "pull:"@ + decimal(last_seq as int),
{
    let mut s = to_string("pull:");
    push_decimal_i64(&mut s, last_seq);
    s
}

} // verus!
