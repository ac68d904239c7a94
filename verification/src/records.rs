//! The records that the mobile binding hands to its callers.
use vstd::prelude::*;

use crate::clock::{format_rfc3339, rfc3339_text};
use crate::error::{StorageError, storage_error_message};
use crate::id::{parse_uuid, uuid_parse_result, uuid_text, uuid_to_string};
use crate::note::{Note, NoteId, NoteType, join_lines};
use crate::sync::client::SyncState;
use crate::sync::protocol::first_index_from;
use crate::text::{string_of_range, to_string};

verus! {

/// The kind of a note as the binding names it.
#[derive(Debug, Clone, Copy, PartialEq, Eq, Structural)]
pub enum NoteKind {
    Markdown,
    List,
}

/// The sync state as the binding names it.
#[derive(Debug, Clone, Copy, PartialEq, Eq, Structural)]
pub enum SyncStatus {
    Disconnected,
    Connecting,
    Connected,
    Error,
}

/// A note as the binding hands it out.
#[derive(Debug, Clone)]
pub struct NoteRecord {
    pub id: String,
    pub kind: NoteKind,
    pub title: String,
    pub content: String,
    pub items: Vec<String>,
    pub created_at: String,
    pub updated_at: String,
}

/// An error as the binding reports it: the core error's text.
#[derive(Debug)]
pub enum NativeError {
    Core(String),
}

pub open spec fn kind_of_type(t: NoteType) -> NoteKind {
    match t {
        NoteType::Markdown => NoteKind::Markdown,
        NoteType::List => NoteKind::List,
    }
}

pub open spec fn type_of_kind(k: NoteKind) -> NoteType {
    match k {
        NoteKind::Markdown => NoteType::Markdown,
        NoteKind::List => NoteType::List,
    }
}

pub open spec fn status_of_state(s: SyncState) -> SyncStatus {
    match s {
        SyncState::Disconnected => SyncStatus::Disconnected,
        SyncState::Connecting => SyncStatus::Connecting,
        SyncState::Connected => SyncStatus::Connected,
        SyncState::Error => SyncStatus::Error,
    }
}

impl From<NoteKind> for NoteType {
    fn from(value: NoteKind) -> (r: NoteType) {
        match value {
            NoteKind::Markdown => NoteType::Markdown,
            NoteKind::List => NoteType::List,
        }
    }
}

impl vstd::std_specs::convert::FromSpecImpl<NoteKind> for NoteType {
    open spec fn obeys_from_spec() -> bool {
        true
    }

    open spec fn from_spec(v: NoteKind) -> NoteType {
        type_of_kind(v)
    }
}

impl From<NoteType> for NoteKind {
    fn from(value: NoteType) -> (r: NoteKind) {
        match value {
            NoteType::Markdown => NoteKind::Markdown,
            NoteType::List => NoteKind::List,
        }
    }
}

impl vstd::std_specs::convert::FromSpecImpl<NoteType> for NoteKind {
    open spec fn obeys_from_spec() -> bool {
        true
    }

    open spec fn from_spec(v: NoteType) -> NoteKind {
        kind_of_type(v)
    }
}

impl From<SyncState> for SyncStatus {
    fn from(value: SyncState) -> (r: SyncStatus) {
        match value {
            SyncState::Disconnected => SyncStatus::Disconnected,
            SyncState::Connecting => SyncStatus::Connecting,
            SyncState::Connected => SyncStatus::Connected,
            SyncState::Error => SyncStatus::Error,
        }
    }
}

impl vstd::std_specs::convert::FromSpecImpl<SyncState> for SyncStatus {
    open spec fn obeys_from_spec() -> bool {
        true
    }

    open spec fn from_spec(v: SyncState) -> SyncStatus {
        status_of_state(v)
    }
}

/// The binding's error for a core error: its text.
pub fn native_error(e: StorageError) -> (r: NativeError)
    ensures
        r matches NativeError::Core(m) && m@ == storage_error_message(e),
{
    NativeError::Core(e.message())
}

/// Reads a note id given as text.
pub fn parse_id(id: &str) -> (r: Result<NoteId, NativeError>)
    ensures
        r is Ok ==> uuid_parse_result(id@) == Ok::<u128, Seq<char>>(r->Ok_0),
        r is Err ==> (uuid_parse_result(id@) matches Err(m) && r->Err_0 matches NativeError::Core(
            e,
        ) && e@ == m),
{
    match parse_uuid(id) {
        Ok(v) => Ok(v),
        Err(e) => Err(NativeError::Core(e)),
    }
}

/// The non-empty pieces of `s` from position `p` on, split at each `\n`,
/// as `str::split` with a filter of empty pieces gives them.
pub open spec fn pieces_from(s: Seq<char>, p: int) -> Seq<Seq<char>>
    decreases s.len() - p,
{
    if p < 0 || p > s.len() {
        seq![]
    } else {
        let n = first_index_from(s, '\n', p);
        proof {
            crate::sync::protocol::lemma_first_index_from_bounds(s, '\n', p);
        }
        let piece = s.subrange(p, n);
        let first: Seq<Seq<char>> = if piece.len() > 0 {
            seq![piece]
        } else {
            seq![]
        };
        if n >= s.len() {
            first
        } else {
            first + pieces_from(s, n + 1)
        }
    }
}

/// The items of a list note's text: its non-empty lines.
pub open spec fn list_items_of(s: Seq<char>) -> Seq<Seq<char>> {
    pieces_from(s, 0)
}

/// The non-empty lines of a text.
pub fn nonempty_lines(s: &str) -> (r: Vec<String>)
    ensures
        r@.map_values(|x: String| x@) == list_items_of(s@),
{
    let cs = crate::text::chars_of(s);
    let len = cs.len();
    let mut r: Vec<String> = Vec::new();
    let mut p: usize = 0;
    let mut done = false;
    while !done
        invariant
            len == cs@.len(),
            cs@ == s@,
            p <= len,
            !done ==> list_items_of(s@) == r@.map_values(|x: String| x@) + pieces_from(s@, p as int),
            done ==> list_items_of(s@) == r@.map_values(|x: String| x@),
        decreases len - p + (if done { 0int } else { 1int }),
    {
        let mut n: usize = p;
        while n < len && cs[n] != '\n'
            invariant
                p <= n <= len == cs@.len(),
                first_index_from(cs@, '\n', p as int) == first_index_from(cs@, '\n', n as int),
            decreases len - n,
        {
            n = n + 1;
        }
        proof {
            crate::sync::protocol::lemma_first_index_from_bounds(cs@, '\n', p as int);
        }
        let ghost before = r@.map_values(|x: String| x@);
        if n > p {
            let piece = string_of_range(&cs, p, n);
            r.push(piece);
            assert(r@.map_values(|x: String| x@) =~= before + seq![s@.subrange(p as int, n as int)]);
        }
        if n >= len {
            proof {
                let ghost all = r@.map_values(|x: String| x@);
                assert(list_items_of(s@) =~= all);
            }
            done = true;
        } else {
            proof {
                let ghost all = r@.map_values(|x: String| x@);
                assert(list_items_of(s@) =~= all + pieces_from(s@, (n + 1) as int));
            }
            p = n + 1;
        }
    }
    r
}

proof fn lemma_first_index_shift(s: Seq<char>, c: char, p: int, k: int)
    requires
        0 <= p <= s.len(),
        0 <= k,
    ensures
        first_index_from(s, c, p + k) == p + first_index_from(s.skip(p), c, k),
    decreases s.len() - p - k,
{
    if p + k < s.len() {
        assert(s.skip(p)[k] == s[p + k]);
        if s[p + k] != c {
            lemma_first_index_shift(s, c, p, k + 1);
        }
    }
}

/// Splitting from a position is splitting what is left from its start.
proof fn lemma_pieces_suffix(s: Seq<char>, p: int)
    requires
        0 <= p <= s.len(),
    ensures
        pieces_from(s, p) == pieces_from(s.skip(p), 0),
    decreases s.len() - p,
{
    let t = s.skip(p);
    lemma_first_index_shift(s, '\n', p, 0);
    crate::sync::protocol::lemma_first_index_from_bounds(s, '\n', p);
    crate::sync::protocol::lemma_first_index_from_bounds(t, '\n', 0);
    let n = first_index_from(s, '\n', p);
    let m = first_index_from(t, '\n', 0);
    assert(s.subrange(p, n) =~= t.subrange(0, m));
    if n < s.len() {
        lemma_pieces_suffix(s, n + 1);
        lemma_pieces_suffix(t, m + 1);
        assert(s.skip(n + 1) =~= t.skip(m + 1));
    }
}

proof fn lemma_scan_to_newline(x: Seq<char>, y: Seq<char>, k: int)
    requires
        0 <= k <= x.len(),
        !x.contains('\n'),
    ensures
        first_index_from(x + seq!['\n'] + y, '\n', k) == x.len(),
    decreases x.len() - k,
{
    let s = x + seq!['\n'] + y;
    if k < x.len() {
        assert(s[k] == x[k]);
        lemma_scan_to_newline(x, y, k + 1);
    } else {
        assert(s[k] == '\n');
    }
}

proof fn lemma_scan_to_end(x: Seq<char>, k: int)
    requires
        0 <= k <= x.len(),
        !x.contains('\n'),
    ensures
        first_index_from(x, '\n', k) == x.len(),
    decreases x.len() - k,
{
    if k < x.len() {
        lemma_scan_to_end(x, k + 1);
    }
}

/// `join_lines` read from the front: the first line, a newline, the rest.
proof fn lemma_join_lines_front(items: Seq<Seq<char>>)
    requires
        items.len() >= 2,
    ensures
        join_lines(items) == items[0] + seq!['\n'] + join_lines(items.drop_first()),
    decreases items.len(),
{
    let rest = items.drop_first();
    if items.len() == 2 {
        assert(join_lines(items.drop_last()) == items[0]);
        assert(join_lines(rest) == items[1]);
    } else {
        lemma_join_lines_front(items.drop_last());
        assert(items.drop_last().drop_first() =~= rest.drop_last());
        assert(items.drop_last()[0] == items[0]);
        assert(rest.last() == items.last());
        assert(join_lines(items) =~= items[0] + seq!['\n'] + join_lines(rest));
    }
}

/// The items of a list, written one per line, read back as the same items
/// when each is non-empty and holds no newline.
pub proof fn lemma_list_items_round_trip(items: Seq<Seq<char>>)
    requires
        forall|i: int| 0 <= i < items.len() ==> (#[trigger] items[i]).len() > 0 && !items[i].contains('\n'),
    ensures
        list_items_of(join_lines(items)) == items,
    decreases items.len(),
{
    if items.len() == 0 {
        assert(list_items_of(join_lines(items)) =~= items);
    } else if items.len() == 1 {
        let x = items[0];
        lemma_scan_to_end(x, 0);
        assert(x.subrange(0, x.len() as int) =~= x);
        assert(list_items_of(x) =~= seq![x]);
        assert(seq![x] =~= items);
    } else {
        let x = items[0];
        let y = join_lines(items.drop_first());
        let s = x + seq!['\n'] + y;
        lemma_join_lines_front(items);
        lemma_scan_to_newline(x, y, 0);
        assert(s.subrange(0, x.len() as int) =~= x);
        lemma_pieces_suffix(s, x.len() + 1int);
        assert(s.skip(x.len() + 1int) =~= y);
        lemma_list_items_round_trip(items.drop_first());
        assert(list_items_of(s) =~= seq![x] + items.drop_first());
        assert(seq![x] + items.drop_first() =~= items);
    }
}

/// What a record says of a note, given the RFC 3339 texts of its two times.
pub open spec fn record_of(n: Note, created: Seq<char>, updated: Seq<char>, r: NoteRecord) -> bool {
    &&& r.id@ == uuid_text(n.id)
    &&& r.kind == kind_of_type(n.note_type)
    &&& r.title@ == n.title@
    &&& r.content@ == n.content_plaintext@
    &&& r.items@.map_values(|x: String| x@) == (if n.note_type == NoteType::List {
        list_items_of(n.content_plaintext@)
    } else {
        Seq::<Seq<char>>::empty()
    })
    &&& r.created_at@ == created
    &&& r.updated_at@ == updated
}

/// The record of a note. Its times are written in RFC 3339 form; an instant
/// that `chrono` cannot represent is reported as an error.
pub fn to_record(note: Note) -> (r: Result<NoteRecord, NativeError>)
    ensures
        match r {
            Ok(rec) => rfc3339_text(note.created_at.secs, note.created_at.nanos) matches Some(c)
                && rfc3339_text(note.updated_at.secs, note.updated_at.nanos) matches Some(u)
                && record_of(note, c, u, rec),
            Err(_) => rfc3339_text(note.created_at.secs, note.created_at.nanos) is None
                || rfc3339_text(note.updated_at.secs, note.updated_at.nanos) is None,
        },
{
    let created_at = match format_rfc3339(note.created_at) {
        Some(s) => s,
        None => {
            return Err(NativeError::Core(to_string("timestamp out of range")));
        },
    };
    let updated_at = match format_rfc3339(note.updated_at) {
        Some(s) => s,
        None => {
            return Err(NativeError::Core(to_string("timestamp out of range")));
        },
    };
    let items = if note.note_type == NoteType::List {
        nonempty_lines(note.content_plaintext.as_str())
    } else {
        let v: Vec<String> = Vec::new();
        assert(v@.map_values(|x: String| x@) =~= Seq::<Seq<char>>::empty());
        v
    };
    let kind = match note.note_type {
        NoteType::Markdown => NoteKind::Markdown,
        NoteType::List => NoteKind::List,
    };
    Ok(
        NoteRecord {
            id: uuid_to_string(note.id),
            kind,
            title: note.title,
            content: note.content_plaintext,
            items,
            created_at,
            updated_at,
        },
    )
}

} // verus!
