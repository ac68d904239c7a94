//! The note store of the native apps: notes in SQLite, with every local
//! change queued for pushing to the sync server, and the server's changes
//! merged in.
use vstd::prelude::*;

use crate::error::StorageError;
use crate::id::{new_note_id, parse_uuid, uuid_parse_result, uuid_to_string};
use crate::note::{Note, NoteId, NoteType, note_type_name, trim, unknown_note_type_message};
use crate::storage::edit::{blob_editable, markdown_edit_ok, list_replace_ok, opt_str_view, snapshot_editable};
use crate::note::{NoteView, trim_spec};
use crate::clock::Timestamp;
use crate::id::uuid_text;
use crate::storage::note_repo::{
    NoteRepository, changed, col_int, col_text, create_made, delete_made, edit_error, edit_made,
    found_note, get_made, list_made, looks_up, read_text, remote_delete_made, remote_update_made,
    read_clock_once, search_made,
};
use crate::storage::sqlite::{
    Database, SqlAnswer, SqlCall, SqlSession, SqlValue, SqlView, extends, since, sql_views,
    sqlite_error,
};
use crate::sync::protocol::pull::entry_view;
use crate::sync::protocol::{
    PullEntry, PullPayload, PushPayload, SyncBlob, decode_pull_response, decode_pull_spec, encode_delete_frame,
    encode_push_frame, push_frame_bytes, sync_blob_bytes,
};
use crate::text::{chars_of, decimal, parse_i64, parse_i64_spec, push_decimal_i64, to_string};

verus! {

/// A queued change to push: the document, its type (`None` for a
/// deletion), and how many times it was queued.
#[derive(Debug, Clone)]
pub struct PendingPush {
    pub doc_id: NoteId,
    pub note_type: Option<NoteType>,
    pub generation: i64,
}

/// The text the queue keeps for a change: the note type's name, or
/// `delete`.
pub open spec fn queue_kind_spec(t: Option<NoteType>) -> Seq<char> {
    match t {
        Some(t) => note_type_name(t),
        None => "delete"@,
    }
}

/// The change a queue text stands for: `None` for `delete`, a note type
/// for its name; an error message otherwise.
pub open spec fn kind_of_queue_text(s: Seq<char>) -> Result<Option<NoteType>, Seq<char>> {
    if s == "delete"@ {
        Ok(None)
    } else if s == note_type_name(NoteType::Markdown) {
        Ok(Some(NoteType::Markdown))
    } else if s == note_type_name(NoteType::List) {
        Ok(Some(NoteType::List))
    } else {
        Err(unknown_note_type_message(s))
    }
}

/// The text the queue keeps for a change.
pub fn queue_kind(t: Option<NoteType>) -> (s: &'static str)
    ensures
        s@ == queue_kind_spec(t),
{
    match t {
        Some(t) => t.as_str(),
        None => {
            let s = "delete";
            proof {
                reveal_strlit("delete");
            }
            s
        },
    }
}

/// A queue text reads back as the change it was written for.
pub proof fn lemma_queue_kind_round_trip(t: Option<NoteType>)
    ensures
        kind_of_queue_text(queue_kind_spec(t)) == Ok::<Option<NoteType>, Seq<char>>(t),
{
    reveal_strlit("delete");
    reveal_strlit("markdown");
    reveal_strlit("list");
    assert("delete"@.len() == 6);
    assert(note_type_name(NoteType::Markdown).len() == 8);
    assert(note_type_name(NoteType::List).len() == 4);
}

/// Whether `r` is what reading the queue row `c` (`doc_id, note_type,
/// generation`) gives.
pub open spec fn pending_read(c: Seq<SqlView>, r: Result<Option<PendingPush>, StorageError>) -> bool {
    if !(c.len() == 3 && col_text(c[0]) is Some && col_text(c[1]) is Some && col_int(c[2]) is Some) {
        r matches Err(e) && e is Sqlite
    } else {
        match uuid_parse_result(col_text(c[0])->Some_0) {
            Err(m) => r matches Err(StorageError::Parse(x)) && x@ == m,
            Ok(id) => match kind_of_queue_text(col_text(c[1])->Some_0) {
                Err(m) => r matches Err(StorageError::Parse(x)) && x@ == m,
                Ok(t) => r matches Ok(Some(p)) && p.doc_id == id && p.note_type == t && p.generation
                    == col_int(c[2])->Some_0,
            },
        }
    }
}

/// A queue row as values.
pub open spec fn queue_row_view(row: Option<Vec<SqlValue>>) -> Option<Seq<SqlView>> {
    match row {
        Some(cols) => Some(sql_views(cols@)),
        None => None,
    }
}

/// Whether `r` is what reading the queue gives when its oldest row is
/// `row`: no change when the queue is empty.
pub open spec fn pending_row_gives(row: Option<Seq<SqlView>>, r: Result<Option<PendingPush>, StorageError>) -> bool {
    match row {
        None => r matches Ok(None),
        Some(c) => pending_read(c, r),
    }
}

/// The queued change the oldest queue row holds, if there is one.
pub fn pending_from_row(row: Option<Vec<SqlValue>>) -> (r: Result<Option<PendingPush>, StorageError>)
    ensures
        match row {
            None => r matches Ok(None),
            Some(cols) => pending_read(sql_views(cols@), r),
        },
{
    let cols = match row {
        None => {
            return Ok(None);
        },
        Some(cols) => cols,
    };
    let ghost c = sql_views(cols@);
    if cols.len() != 3 {
        return Err(sqlite_error(to_string("invalid column type")));
    }
    assert(forall|k: int| 0 <= k < 3 ==> #[trigger] c[k] == cols@[k]@);
    let id_text = read_text(&cols[0])?;
    let kind = read_text(&cols[1])?;
    let generation = match &cols[2] {
        SqlValue::Integer(g) => *g,
        _ => {
            return Err(sqlite_error(to_string("invalid column type")));
        },
    };
    let doc_id = match parse_uuid(id_text.as_str()) {
        Ok(u) => u,
        Err(m) => {
            return Err(StorageError::Parse(m));
        },
    };
    proof {
        reveal_strlit("delete");
        reveal_strlit("markdown");
        reveal_strlit("list");
        assert("delete"@.len() == 6);
        assert(note_type_name(NoteType::Markdown).len() == 8);
        assert(note_type_name(NoteType::List).len() == 4);
    }
    let kcs = chars_of(kind.as_str());
    let note_type = if kcs.len() == 6 && kcs[0] == 'd' && kcs[1] == 'e' && kcs[2] == 'l' && kcs[3]
        == 'e' && kcs[4] == 't' && kcs[5] == 'e' {
        assert(kind@ =~= "delete"@);
        None
    } else {
        proof {
            if kind@ == "delete"@ {
                assert(kcs@[0] == 'd' && kcs@[1] == 'e' && kcs@[2] == 'l');
                assert(kcs@[3] == 'e' && kcs@[4] == 't' && kcs@[5] == 'e');
            }
        }
        match crate::note::parse_note_type(kind.as_str()) {
            Ok(t) => Some(t),
            Err(m) => {
                return Err(StorageError::Parse(m));
            },
        }
    };
    Ok(Some(PendingPush { doc_id, note_type, generation }))
}

/// The frame that pushes a change: the note's state of its type, or a
/// deletion, from device `device`.
pub open spec fn pending_frame(
    doc_id: NoteId,
    device: NoteId,
    note_type: Option<NoteType>,
    blob: Seq<u8>,
) -> Seq<u8> {
    match note_type {
        Some(t) => push_frame_bytes(
            doc_id,
            device,
            sync_blob_bytes(SyncBlob::Note { note_type: t, loro_blob: blob }),
        ),
        None => push_frame_bytes(doc_id, device, sync_blob_bytes(SyncBlob::Tombstone)),
    }
}

/// The sync cursor a stored setting gives: its value read as an integer,
/// or 0 when it is missing or does not read.
pub open spec fn cursor_from_setting_spec(value: Option<String>) -> i64 {
    match value {
        Some(s) => match parse_i64_spec(s@) {
            Some(n) => n,
            None => 0,
        },
        None => 0,
    }
}

/// The sync cursor a stored setting gives: its value read as an integer,
/// or 0 when it is missing or does not read.
pub fn cursor_from_setting(value: Option<String>) -> (c: i64)
    ensures
        c == cursor_from_setting_spec(value),
{
    match value {
        Some(s) => {
            let cs = chars_of(s.as_str());
            match parse_i64(cs.as_slice()) {
                Some(n) => n,
                None => 0,
            }
        },
        None => 0,
    }
}

/// The errors a store operation that reads or writes the database can end
/// with, besides those of an edit.
pub open spec fn store_error(e: StorageError) -> bool {
    edit_error(e) || e is Parse
}

/// Queues a change of a note for pushing (`?1` the note, `?2` its kind),
/// replacing any change of it still queued and counting one more
/// generation.
pub const ENQUEUE_SQL: &'static str = "INSERT INTO pending_sync(doc_id, note_type, generation) VALUES(?1, ?2, 1) ON CONFLICT(doc_id) DO UPDATE SET note_type = excluded.note_type, generation = pending_sync.generation + 1";

/// Reads the oldest queued change.
pub const NEXT_PENDING_SQL: &'static str = "SELECT doc_id, note_type, generation FROM pending_sync ORDER BY rowid LIMIT 1";

/// Drops a queued change of a note (`?1`) of a generation (`?2`).
pub const ACKNOWLEDGE_SQL: &'static str = "DELETE FROM pending_sync WHERE doc_id = ?1 AND generation = ?2";

/// Reads the value of a setting.
pub const SETTING_SQL: &'static str = "SELECT value FROM settings WHERE key = ?1";

/// Stores the value (`?2`) of a setting (`?1`).
pub const SET_SETTING_SQL: &'static str = "INSERT INTO settings(key, value) VALUES(?1, ?2) ON CONFLICT(key) DO UPDATE SET value = excluded.value";

/// Stores the sync cursor (`?1`).
pub const SET_CURSOR_SQL: &'static str = "INSERT INTO settings(key, value) VALUES('sync_cursor', ?1) ON CONFLICT(key) DO UPDATE SET value = excluded.value";

/// Whether statement `c` queues the change of note `id` of kind `t`.
pub open spec fn queues(c: SqlCall, id: NoteId, t: Option<NoteType>) -> bool {
    c.sql == ENQUEUE_SQL@ && c.params == seq![SqlView::Text(uuid_text(id)), SqlView::Text(queue_kind_spec(t))]
}

/// Whether statement `c` reads setting `key`.
pub open spec fn reads_setting(c: SqlCall, key: Seq<char>) -> bool {
    c.sql == SETTING_SQL@ && c.params == seq![SqlView::Text(key)]
}

/// Whether `v` is what reading a setting gives when the database answers
/// `c`: its text, or `None` when there is no row.
pub open spec fn setting_read(c: SqlCall, v: Option<String>) -> bool {
    match v {
        Some(s) => c.answer matches SqlAnswer::Row(Ok(Some(row))) && row.len() > 0 && col_text(row[0]) == Some(s@),
        None => c.answer == SqlAnswer::Row(Ok(None)),
    }
}

/// Whether `cs` are the statements that reading this device's identifier
/// runs, and `r` what they give: the stored identifier, or, when none is
/// stored, a new one, stored as the setting.
pub open spec fn device_made(cs: Seq<SqlCall>, r: Result<NoteId, StorageError>) -> bool {
    &&& cs.len() >= 1 && reads_setting(cs[0], "device_id"@)
    &&& r matches Ok(d) ==> {
        ||| cs.len() == 1 && exists|v: String| setting_read(cs[0], Some(v)) && uuid_parse_result(v@) == Ok::<u128, Seq<char>>(d)
        ||| cs.len() == 2 && setting_read(cs[0], None) && cs[1].sql == SET_SETTING_SQL@
            && cs[1].params == seq![SqlView::Text("device_id"@), SqlView::Text(uuid_text(d))] && changed(cs[1])
    }
}

/// Whether `cs` are the statements that applying the pull `entries`, in
/// order, runs, every one of them succeeding: a merge for a changed note, a
/// deletion for a removed one.
pub open spec fn entries_applied(entries: Seq<(NoteId, SyncBlob)>, cs: Seq<SqlCall>) -> bool
    decreases entries.len(),
{
    if entries.len() == 0 {
        cs.len() == 0
    } else {
        exists|k: int|
            0 <= k <= cs.len() && entries_applied(entries.drop_last(), #[trigger] cs.take(k)) && entry_made(
                entries.last(),
                cs.skip(k),
                Ok(()),
            )
    }
}

/// Whether `cs` are the statements that applying one pull entry runs, and
/// `r` whether it succeeded and with which error.
pub open spec fn entry_made(entry: (NoteId, SyncBlob), cs: Seq<SqlCall>, r: Result<(), StorageError>) -> bool {
    match entry.1 {
        SyncBlob::Note { note_type, loro_blob } => exists|now: Timestamp, m: Result<Note, StorageError>|
            #![trigger remote_update_made(entry.0, note_type, loro_blob, now, cs, m)]
            remote_update_made(entry.0, note_type, loro_blob, now, cs, m) && (m is Ok <==> r is Ok) && (m matches Err(
                e,
            ) ==> r == Err::<(), StorageError>(e)),
        SyncBlob::Tombstone => exists|now: Timestamp| #[trigger] remote_delete_made(entry.0, now, cs, r),
    }
}

/// What holds of a pull entry applied with success holds of it as applied
/// with the unit result.
proof fn lemma_entry_made_ok(entry: (NoteId, SyncBlob), cs: Seq<SqlCall>, r: Result<(), StorageError>)
    requires
        entry_made(entry, cs, r),
        r is Ok,
    ensures
        entry_made(entry, cs, Ok(())),
{
    match entry.1 {
        SyncBlob::Note { note_type, loro_blob } => {
            let (now, m) = choose|now: Timestamp, m: Result<Note, StorageError>|
                #![trigger remote_update_made(entry.0, note_type, loro_blob, now, cs, m)]
                remote_update_made(entry.0, note_type, loro_blob, now, cs, m) && (m is Ok <==> r is Ok) && (
                m matches Err(e) ==> r == Err::<(), StorageError>(e));
            assert(remote_update_made(entry.0, note_type, loro_blob, now, cs, m));
        },
        SyncBlob::Tombstone => {
            let now = choose|now: Timestamp| #[trigger] remote_delete_made(entry.0, now, cs, r);
            assert(remote_delete_made(entry.0, now, cs, Ok(())));
        },
    }
}

/// The notes of a device, in its SQLite database, with the queue of
/// changes still to push, and the record of the statements run.
pub struct NativeStore {
    database: Database,
    log: Ghost<Seq<SqlCall>>,
    clock: Ghost<Seq<Timestamp>>,
}

impl NativeStore {
    /// The statements run so far, oldest first.
    pub closed spec fn calls(&self) -> Seq<SqlCall> {
        self.log@
    }

    /// The instants read from the clock so far, oldest first.
    pub closed spec fn times(&self) -> Seq<Timestamp> {
        self.clock@
    }

    /// Opens the store in the database file at `path`.
    pub fn open(path: &str) -> (r: Result<NativeStore, StorageError>)
        ensures
            r matches Ok(s) ==> s.calls() == Seq::<SqlCall>::empty() && s.times() == Seq::<Timestamp>::empty(),
            r matches Err(e) ==> e is Sqlite,
    {
        match Database::open(path) {
            Ok(database) => Ok(NativeStore { database, log: Ghost(Seq::empty()), clock: Ghost(Seq::empty()) }),
            Err(e) => Err(e),
        }
    }

    /// Opens a store whose database lives in memory only.
    pub fn open_in_memory() -> (r: Result<NativeStore, StorageError>)
        ensures
            r matches Ok(s) ==> s.calls() == Seq::<SqlCall>::empty() && s.times() == Seq::<Timestamp>::empty(),
            r matches Err(e) ==> e is Sqlite,
    {
        match Database::open_in_memory() {
            Ok(database) => Ok(NativeStore { database, log: Ghost(Seq::empty()), clock: Ghost(Seq::empty()) }),
            Err(e) => Err(e),
        }
    }

    /// A new note of a type, queued for pushing.
    pub fn create(&mut self, note_type: NoteType) -> (r: Result<Note, StorageError>)
        ensures
            extends(old(self).calls(), final(self).calls()),
            read_clock_once(old(self).times(), final(self).times()),
            r matches Ok(n) ==> {
                let cs = since(old(self).calls(), final(self).calls());
                &&& cs.len() >= 1 && create_made(note_type, None, final(self).times().last(), cs.drop_last(), r)
                &&& queues(cs.last(), n.id, Some(note_type)) && changed(cs.last())
            },
            r is Err ==> {
                let cs = since(old(self).calls(), final(self).calls());
                ||| create_made(note_type, None, final(self).times().last(), cs, r)
                ||| cs.len() >= 1 && !changed(cs.last()) && exists|n: Note|
                    create_made(note_type, None, final(self).times().last(), cs.drop_last(), Ok(n)) && queues(cs.last(), n.id, Some(note_type))
            },
            r matches Err(e) ==> (e is Sqlite || e is NotFound),
    {
        let mut repo = NoteRepository::new(self.database.connection());
        let made = repo.create(note_type, None);
        let ghost first = repo.calls();
        self.log = Ghost(self.log@ + first);
        self.clock = Ghost(self.clock@ + repo.times());
        let note = match made {
            Ok(n) => n,
            Err(e) => {
                assert(since(old(self).calls(), self.calls()) =~= first);
                return Err(e);
            },
        };
        let ghost mid = self.calls();
        let q = self.enqueue(note.id, Some(note_type));
        proof {
            let cs = since(old(self).calls(), self.calls());
            assert(cs.drop_last() =~= first);
            assert(cs.last() == since(mid, self.calls())[0]);
        }
        match q {
            Ok(()) => Ok(note),
            Err(e) => Err(e),
        }
    }

    /// The note with identifier `id`.
    pub fn get(&mut self, id: NoteId) -> (r: Result<Note, StorageError>)
        ensures
            extends(old(self).calls(), final(self).calls()),
            final(self).times() == old(self).times(),
            get_made(id, since(old(self).calls(), final(self).calls()), r),
            r matches Err(e) ==> (e is Sqlite || crate::storage::edit::is_not_found(e, id)),
    {
        let mut repo = NoteRepository::new(self.database.connection());
        let r = repo.get(id);
        self.log = Ghost(self.log@ + repo.calls());
        assert(since(old(self).calls(), self.calls()) =~= repo.calls());
        r
    }

    /// The notes that are not deleted, most recently changed first.
    pub fn list(&mut self) -> (r: Result<Vec<Note>, StorageError>)
        ensures
            extends(old(self).calls(), final(self).calls()),
            final(self).times() == old(self).times(),
            list_made(None, since(old(self).calls(), final(self).calls()), r),
            r matches Err(e) ==> e is Sqlite,
    {
        let mut repo = NoteRepository::new(self.database.connection());
        let r = repo.list(None);
        self.log = Ghost(self.log@ + repo.calls());
        assert(since(old(self).calls(), self.calls()) =~= repo.calls());
        r
    }

    /// The notes matching a full-text query; every note that is not deleted
    /// when the query is blank.
    pub fn search(&mut self, query: &str) -> (r: Result<Vec<Note>, StorageError>)
        ensures
            extends(old(self).calls(), final(self).calls()),
            final(self).times() == old(self).times(),
            trim_spec(query@).len() == 0 ==> list_made(None, since(old(self).calls(), final(self).calls()), r),
            trim_spec(query@).len() != 0 ==> search_made(query@, since(old(self).calls(), final(self).calls()), r),
            r matches Err(e) ==> e is Sqlite,
    {
        let t = trim(query);
        if t.as_str().is_empty() {
            return self.list();
        }
        let mut repo = NoteRepository::new(self.database.connection());
        let r = repo.search(query);
        self.log = Ghost(self.log@ + repo.calls());
        assert(since(old(self).calls(), self.calls()) =~= repo.calls());
        r
    }

    /// Replaces a markdown note's text and, when one is given, its title,
    /// and queues the note for pushing.
    pub fn update_markdown(&mut self, id: NoteId, content: &str, title: Option<&str>) -> (r: Result<
        Note,
        StorageError,
    >)
        ensures
            extends(old(self).calls(), final(self).calls()),
            final(self).times() == old(self).times() || read_clock_once(old(self).times(), final(self).times()),
            ({
                let cs = since(old(self).calls(), final(self).calls());
                let ok = |e: NoteView, n: NoteView| markdown_edit_ok(e, content@, opt_str_view(title), n);
                let owed = |e: NoteView| blob_editable(e.content_loro_blob);
                &&& r is Ok ==> cs.len() >= 1 && edit_made(id, NoteType::Markdown, ok, owed, final(self).times().last(), cs.drop_last(), r)
                    && queues(cs.last(), id, Some(NoteType::Markdown)) && changed(cs.last())
                &&& r is Err ==> {
                    ||| edit_made(id, NoteType::Markdown, ok, owed, final(self).times().last(), cs, r)
                    ||| cs.len() >= 1 && !changed(cs.last()) && queues(cs.last(), id, Some(NoteType::Markdown))
                        && exists|n: Note| edit_made(id, NoteType::Markdown, ok, owed, final(self).times().last(), cs.drop_last(), Ok(n))
                }
            }),
            r matches Err(e) ==> edit_error(e),
    {
        let mut repo = NoteRepository::new(self.database.connection());
        let made = repo.update(id, content, title);
        let ghost first = repo.calls();
        self.log = Ghost(self.log@ + first);
        self.clock = Ghost(self.clock@ + repo.times());
        let note = match made {
            Ok(n) => n,
            Err(e) => {
                assert(since(old(self).calls(), self.calls()) =~= first);
                return Err(e);
            },
        };
        let ghost mid = self.calls();
        let q = self.enqueue(id, Some(NoteType::Markdown));
        proof {
            let cs = since(old(self).calls(), self.calls());
            assert(cs.drop_last() =~= first);
            assert(cs.last() == since(mid, self.calls())[0]);
            assert(edit_made(
                id,
                NoteType::Markdown,
                |e: NoteView, n: NoteView| markdown_edit_ok(e, content@, opt_str_view(title), n),
                |e: NoteView| blob_editable(e.content_loro_blob),
                self.times().last(),
                cs.drop_last(),
                Ok::<Note, StorageError>(note),
            ));
        }
        match q {
            Ok(()) => Ok(note),
            Err(e) => Err(e),
        }
    }

    /// Replaces a list note's items and, when one is given, its title, and
    /// queues the note for pushing.
    pub fn update_list(&mut self, id: NoteId, items: &[String], title: Option<&str>) -> (r: Result<
        Note,
        StorageError,
    >)
        ensures
            extends(old(self).calls(), final(self).calls()),
            final(self).times() == old(self).times() || read_clock_once(old(self).times(), final(self).times()),
            ({
                let cs = since(old(self).calls(), final(self).calls());
                let ok = |e: NoteView, n: NoteView| list_replace_ok(
                    e,
                    items@.map_values(|s: String| s@),
                    opt_str_view(title),
                    n,
                );
                let owed = |e: NoteView| snapshot_editable(e.content_loro_blob);
                &&& r is Ok ==> cs.len() >= 1 && edit_made(id, NoteType::List, ok, owed, final(self).times().last(), cs.drop_last(), r)
                    && queues(cs.last(), id, Some(NoteType::List)) && changed(cs.last())
                &&& r is Err ==> {
                    ||| edit_made(id, NoteType::List, ok, owed, final(self).times().last(), cs, r)
                    ||| cs.len() >= 1 && !changed(cs.last()) && queues(cs.last(), id, Some(NoteType::List))
                        && exists|n: Note| edit_made(id, NoteType::List, ok, owed, final(self).times().last(), cs.drop_last(), Ok(n))
                }
            }),
            r matches Err(e) ==> edit_error(e),
    {
        let mut repo = NoteRepository::new(self.database.connection());
        let made = repo.list_replace_items(id, items, title);
        let ghost first = repo.calls();
        self.log = Ghost(self.log@ + first);
        self.clock = Ghost(self.clock@ + repo.times());
        let note = match made {
            Ok(n) => n,
            Err(e) => {
                assert(since(old(self).calls(), self.calls()) =~= first);
                return Err(e);
            },
        };
        let ghost mid = self.calls();
        let q = self.enqueue(id, Some(NoteType::List));
        proof {
            let cs = since(old(self).calls(), self.calls());
            assert(cs.drop_last() =~= first);
            assert(cs.last() == since(mid, self.calls())[0]);
            assert(edit_made(
                id,
                NoteType::List,
                |e: NoteView, n: NoteView| list_replace_ok(
                    e,
                    items@.map_values(|s: String| s@),
                    opt_str_view(title),
                    n,
                ),
                |e: NoteView| snapshot_editable(e.content_loro_blob),
                self.times().last(),
                cs.drop_last(),
                Ok::<Note, StorageError>(note),
            ));
        }
        match q {
            Ok(()) => Ok(note),
            Err(e) => Err(e),
        }
    }

    /// Marks a note deleted and queues the deletion for pushing.
    pub fn delete(&mut self, id: NoteId) -> (r: Result<(), StorageError>)
        ensures
            extends(old(self).calls(), final(self).calls()),
            read_clock_once(old(self).times(), final(self).times()),
            ({
                let cs = since(old(self).calls(), final(self).calls());
                &&& r is Ok ==> cs.len() >= 1 && delete_made(id, final(self).times().last(), cs.drop_last(), r) && queues(cs.last(), id, None)
                    && changed(cs.last())
                &&& r is Err ==> {
                    ||| delete_made(id, final(self).times().last(), cs, r)
                    ||| cs.len() >= 1 && !changed(cs.last()) && queues(cs.last(), id, None) && delete_made(
                        id,
                        final(self).times().last(),
                        cs.drop_last(),
                        Ok(()),
                    )
                }
            }),
            r matches Err(e) ==> e is Sqlite,
    {
        let mut repo = NoteRepository::new(self.database.connection());
        let made = repo.soft_delete(id);
        let ghost first = repo.calls();
        self.log = Ghost(self.log@ + first);
        self.clock = Ghost(self.clock@ + repo.times());
        if let Err(e) = made {
            assert(since(old(self).calls(), self.calls()) =~= first);
            return Err(e);
        }
        let ghost mid = self.calls();
        let q = self.enqueue(id, None);
        proof {
            let cs = since(old(self).calls(), self.calls());
            assert(cs.drop_last() =~= first);
            assert(cs.last() == since(mid, self.calls())[0]);
        }
        q
    }

    /// Applies a pull response from the server: merges each changed note
    /// and applies each deletion, in order, then keeps the response's
    /// sequence number as the sync cursor, and gives the number of entries.
    /// A response that does not decode changes nothing; an entry that fails
    /// ends the work with its error, the entries before it applied and the
    /// cursor left as it was.
    pub fn apply_pull_response(&mut self, text: &str) -> (r: Result<usize, StorageError>)
        ensures
            extends(old(self).calls(), final(self).calls()),
            ({
                let cs = since(old(self).calls(), final(self).calls());
                match decode_pull_spec(text@) {
                    Err(m) => cs.len() == 0 && (r matches Err(StorageError::Protocol(x)) && x@ == m),
                    Ok(resp) => {
                        &&& r is Ok ==> cs.len() >= 1 && entries_applied(resp.1, cs.drop_last())
                            && cs.last().sql == SET_CURSOR_SQL@
                            && cs.last().params == seq![SqlView::Text(decimal(resp.0 as int))]
                            && changed(cs.last())
                        &&& r matches Ok(k) ==> k == resp.1.len()
                        &&& r matches Err(e) ==> edit_error(e) && ({
                        ||| cs.len() >= 1 && entries_applied(resp.1, cs.drop_last())
                            && cs.last().sql == SET_CURSOR_SQL@ && !changed(cs.last())
                        ||| exists|i: int, k: int|
                            0 <= i < resp.1.len() && 0 <= k <= cs.len() && entries_applied(
                                resp.1.take(i),
                                cs.take(k),
                            ) && #[trigger] entry_made(resp.1[i], cs.skip(k), Err::<(), StorageError>(e))
                        })
                    },
                }
            }),
    {
        let response = match decode_pull_response(text) {
            Ok(resp) => resp,
            Err(m) => {
                assert(since(old(self).calls(), self.calls()) =~= Seq::<SqlCall>::empty());
                return Err(StorageError::Protocol(m));
            },
        };
        let ghost entries = response.entries@.map_values(|e: PullEntry| entry_view(e));
        let ghost start = self.calls();
        assert(since(start, start) =~= Seq::<SqlCall>::empty());
        assert(entries.take(0) =~= Seq::<(NoteId, SyncBlob)>::empty());
        let count = response.entries.len();
        let mut i: usize = 0;
        while i < response.entries.len()
            invariant
                i <= response.entries@.len(),
                start == old(self).calls(),
                entries == response.entries@.map_values(|e: PullEntry| entry_view(e)),
                decode_pull_spec(text@) == Ok::<(i64, Seq<(NoteId, SyncBlob)>), Seq<char>>(
                    (response.current_seq, entries),
                ),
                extends(start, self.calls()),
                entries_applied(entries.take(i as int), since(start, self.calls())),
            decreases response.entries@.len() - i,
        {
            let entry = &response.entries[i];
            let ghost before = self.calls();
            let mut repo = NoteRepository::new(self.database.connection());
            let done: Result<(), StorageError> = match &entry.payload {
                PullPayload::Note { note_type, loro_blob } => {
                    let m = repo.apply_remote_update(entry.doc_id, *note_type, loro_blob.as_slice());
                    let done: Result<(), StorageError> = match m {
                        Ok(_) => Ok(()),
                        Err(e) => Err(e),
                    };
                    proof {
                        assert(since(Seq::<SqlCall>::empty(), repo.calls()) =~= repo.calls());
                        assert(entries[i as int] == entry_view(response.entries@[i as int]));
                        assert(response.entries@[i as int] == *entry);
                        assert(entries[i as int].0 == entry.doc_id);
                        assert(entries[i as int].1 == SyncBlob::Note { note_type: *note_type, loro_blob: loro_blob@ });
                        assert(remote_update_made(entry.doc_id, *note_type, loro_blob@, repo.times().last(), repo.calls(), m));
                        let ev = entries[i as int];
                        assert(remote_update_made(ev.0, ev.1->note_type, ev.1->loro_blob, repo.times().last(), repo.calls(), m));
                        assert(m is Ok <==> done is Ok);
                        assert(m matches Err(e) ==> done == Err::<(), StorageError>(e));
                        assert(entry_made(ev, repo.calls(), done));
                    }
                    done
                },
                PullPayload::Tombstone => {
                    let done = repo.apply_remote_delete(entry.doc_id);
                    assert(since(Seq::<SqlCall>::empty(), repo.calls()) =~= repo.calls());
                    assert(entries[i as int] == entry_view(response.entries@[i as int]));
                    assert(response.entries@[i as int] == *entry);
                    let ghost ev = entries[i as int];
                    assert(ev.0 == entry.doc_id && ev.1 == SyncBlob::Tombstone);
                    assert(remote_delete_made(ev.0, repo.times().last(), repo.calls(), done));
                    assert(entry_made(ev, repo.calls(), done));
                    done
                },
            };
            assert(entry_made(entries[i as int], repo.calls(), done));
            self.log = Ghost(self.log@ + repo.calls());
            let ghost cs = since(start, self.calls());
            let ghost k = since(start, before).len() as int;
            proof {
                assert(cs.take(k) =~= since(start, before));
                assert(cs.skip(k) =~= repo.calls());
                assert(entries.take(i as int + 1).drop_last() =~= entries.take(i as int));
                assert(entries.take(i as int + 1).last() == entries[i as int]);
            }
            if let Err(e) = done {
                assert(entries_applied(entries.take(i as int), cs.take(k)));
                assert(entry_made(entries[i as int], cs.skip(k), Err::<(), StorageError>(e)));
                return Err(e);
            }
            i = i + 1;
            proof {
                assert(done is Ok);
                assert(entry_made(entries[i - 1], cs.skip(k), done));
                lemma_entry_made_ok(entries[i - 1], cs.skip(k), done);
                assert(entries_applied(entries.take(i - 1), cs.take(k)));
                assert(entry_made(entries.take(i as int).last(), cs.skip(k), Ok::<(), StorageError>(())));
                assert(entries.take(i as int).drop_last() == entries.take(i - 1));
                assert(entries.take(i as int).len() > 0);
                assert(entries_applied(entries.take(i as int), cs));
            }
        }
        let ghost before = self.calls();
        let mut seq_text = String::new();
        push_decimal_i64(&mut seq_text, response.current_seq);
        let mut params: Vec<SqlValue> = Vec::new();
        params.push(SqlValue::Text(seq_text));
        let mut session = SqlSession::new(self.database.connection());
        let done = session.execute(SET_CURSOR_SQL, params.as_slice());
        self.log = Ghost(self.log@ + session.calls());
        proof {
            assert(entries.take(entries.len() as int) =~= entries);
            let cs = since(old(self).calls(), self.calls());
            assert(cs.drop_last() =~= since(start, before));
            assert(sql_views(params@) =~= seq![SqlView::Text(decimal(response.current_seq as int))]);
        }
        if let Err(m) = done {
            return Err(sqlite_error(m));
        }
        Ok(count)
    }

    /// The oldest change still to push, if any.
    pub fn next_pending(&mut self) -> (r: Result<Option<PendingPush>, StorageError>)
        ensures
            extends(old(self).calls(), final(self).calls()),
            final(self).times() == old(self).times(),
            ({
                let cs = since(old(self).calls(), final(self).calls());
                &&& cs.len() == 1 && cs[0].sql == NEXT_PENDING_SQL@ && cs[0].params == Seq::<SqlView>::empty()
                &&& match cs[0].answer {
                    SqlAnswer::Row(Ok(row)) => pending_row_gives(row, r),
                    SqlAnswer::Row(Err(m)) => r matches Err(StorageError::Sqlite(x)) && x@ == m,
                    _ => false,
                }
            }),
            r matches Err(e) ==> (e is Sqlite || e is Parse),
    {
        let no_params: Vec<SqlValue> = Vec::new();
        let mut session = SqlSession::new(self.database.connection());
        let row = session.query_row(NEXT_PENDING_SQL, no_params.as_slice(), 3);
        self.log = Ghost(self.log@ + session.calls());
        assert(since(old(self).calls(), self.calls()) =~= session.calls());
        assert(sql_views(no_params@) =~= Seq::<SqlView>::empty());
        match row {
            Ok(row) => {
                let r = pending_from_row(row);
                assert(pending_row_gives(queue_row_view(row), r));
                r
            },
            Err(m) => Err(sqlite_error(m)),
        }
    }

    /// The frame that pushes a queued change from this device: the note's
    /// current state, or a deletion.
    pub fn frame_for(&mut self, pending: &PendingPush) -> (r: Result<Vec<u8>, StorageError>)
        ensures
            extends(old(self).calls(), final(self).calls()),
            r matches Ok(b) ==> {
                let cs = since(old(self).calls(), final(self).calls());
                exists|device: NoteId, k: int| #![trigger device_made(cs.take(k), Ok::<NoteId, StorageError>(device))]
                    {
                        &&& 1 <= k <= cs.len() && device_made(cs.take(k), Ok::<NoteId, StorageError>(device))
                        &&& pending.note_type is None ==> k == cs.len() && b@ == pending_frame(
                            pending.doc_id,
                            device,
                            pending.note_type,
                            Seq::<u8>::empty(),
                        )
                        &&& pending.note_type is Some ==> k + 1 == cs.len() && looks_up(cs.last(), pending.doc_id)
                            && (found_note(cs.last()) matches Some(n) && b@ == pending_frame(
                            pending.doc_id,
                            device,
                            pending.note_type,
                            n.content_loro_blob,
                        ))
                    }
            },
            r matches Err(e) ==> store_error(e),
    {
        let device_id = self.device_id()?;
        let ghost after_device = self.calls();
        match pending.note_type {
            Some(note_type) => {
                let ghost mid = self.calls();
                let note = self.get(pending.doc_id)?;
                let frame = encode_push_frame(
                    &PushPayload {
                        doc_id: pending.doc_id,
                        device_id,
                        note_type,
                        loro_blob: note.content_loro_blob.as_slice(),
                    },
                );
                assert(frame@ == pending_frame(
                    pending.doc_id,
                    device_id,
                    pending.note_type,
                    note.content_loro_blob@,
                ));
                proof {
                    let cs = since(old(self).calls(), self.calls());
                    let k = since(old(self).calls(), mid).len() as int;
                    assert(cs.last() == since(mid, self.calls())[0]);
                    assert(cs.take(k) =~= since(old(self).calls(), mid));
                    assert(device_made(cs.take(k), Ok::<NoteId, StorageError>(device_id)));
                }
                Ok(frame)
            },
            None => {
                let frame = encode_delete_frame(pending.doc_id, device_id);
                assert(frame@ == pending_frame(pending.doc_id, device_id, pending.note_type, Seq::<u8>::empty()));
                proof {
                    let cs = since(old(self).calls(), self.calls());
                    assert(cs.take(cs.len() as int) =~= cs);
                    assert(device_made(cs.take(cs.len() as int), Ok::<NoteId, StorageError>(device_id)));
                }
                Ok(frame)
            },
        }
    }

    /// Drops a pushed change from the queue, unless it was queued again
    /// since.
    pub fn acknowledge(&mut self, pending: &PendingPush) -> (r: Result<(), StorageError>)
        ensures
            extends(old(self).calls(), final(self).calls()),
            final(self).times() == old(self).times(),
            ({
                let cs = since(old(self).calls(), final(self).calls());
                &&& cs.len() == 1 && cs[0].sql == ACKNOWLEDGE_SQL@
                &&& cs[0].params == seq![SqlView::Text(uuid_text(pending.doc_id)), SqlView::Integer(pending.generation)]
                &&& r is Ok <==> changed(cs[0])
            }),
            r matches Err(e) ==> e is Sqlite,
    {
        let mut params: Vec<SqlValue> = Vec::new();
        params.push(SqlValue::Text(uuid_to_string(pending.doc_id)));
        params.push(SqlValue::Integer(pending.generation));
        let mut session = SqlSession::new(self.database.connection());
        let done = session.execute(ACKNOWLEDGE_SQL, params.as_slice());
        self.log = Ghost(self.log@ + session.calls());
        assert(since(old(self).calls(), self.calls()) =~= session.calls());
        assert(sql_views(params@) =~= seq![SqlView::Text(uuid_text(pending.doc_id)), SqlView::Integer(pending.generation)]);
        match done {
            Ok(_) => Ok(()),
            Err(m) => Err(sqlite_error(m)),
        }
    }

    /// Queues a change of note `id` (a deletion when `note_type` is `None`),
    /// replacing any change of it still queued and counting one more
    /// generation.
    fn enqueue(&mut self, id: NoteId, note_type: Option<NoteType>) -> (r: Result<(), StorageError>)
        ensures
            extends(old(self).calls(), final(self).calls()),
            final(self).times() == old(self).times(),
            since(old(self).calls(), final(self).calls()).len() == 1,
            queues(since(old(self).calls(), final(self).calls())[0], id, note_type),
            r is Ok <==> changed(since(old(self).calls(), final(self).calls())[0]),
            r matches Err(e) ==> e is Sqlite,
    {
        let mut params: Vec<SqlValue> = Vec::new();
        params.push(SqlValue::Text(uuid_to_string(id)));
        params.push(SqlValue::Text(to_string(queue_kind(note_type))));
        let mut session = SqlSession::new(self.database.connection());
        let done = session.execute(ENQUEUE_SQL, params.as_slice());
        self.log = Ghost(self.log@ + session.calls());
        assert(since(old(self).calls(), self.calls()) =~= session.calls());
        assert(sql_views(params@) =~= seq![SqlView::Text(uuid_text(id)), SqlView::Text(queue_kind_spec(note_type))]);
        match done {
            Ok(_) => Ok(()),
            Err(m) => Err(sqlite_error(m)),
        }
    }

    /// The sequence number of the last pull applied, or 0.
    pub fn cursor(&mut self) -> (r: Result<i64, StorageError>)
        ensures
            extends(old(self).calls(), final(self).calls()),
            final(self).times() == old(self).times(),
            ({
                let cs = since(old(self).calls(), final(self).calls());
                &&& cs.len() == 1 && reads_setting(cs[0], "sync_cursor"@)
                &&& r matches Ok(c) ==> exists|v: Option<String>| setting_read(cs[0], v) && c == cursor_from_setting_spec(v)
            }),
            r matches Err(e) ==> e is Sqlite,
    {
        let key = "sync_cursor";
        proof {
            reveal_strlit("sync_cursor");
        }
        let value = self.setting(key)?;
        Ok(cursor_from_setting(value))
    }

    /// This device's identifier, made and kept on first use.
    pub fn device_id(&mut self) -> (r: Result<NoteId, StorageError>)
        ensures
            extends(old(self).calls(), final(self).calls()),
            final(self).times() == old(self).times(),
            device_made(since(old(self).calls(), final(self).calls()), r),
            r matches Err(e) ==> (e is Sqlite || e is Parse),
    {
        let key = "device_id";
        proof {
            reveal_strlit("device_id");
        }
        let stored = self.setting(key)?;
        let ghost mid = self.calls();
        match stored {
            Some(value) => match parse_uuid(value.as_str()) {
                Ok(u) => Ok(u),
                Err(m) => Err(StorageError::Parse(m)),
            },
            None => {
                let id = new_note_id();
                let text = uuid_to_string(id);
                self.set_setting(key, text.as_str())?;
                proof {
                    let cs = since(old(self).calls(), self.calls());
                    assert(cs[0] == since(old(self).calls(), mid)[0]);
                    assert(cs[1] == since(mid, self.calls())[0]);
                }
                Ok(id)
            },
        }
    }

    /// The stored value of a setting, if any.
    pub fn setting(&mut self, key: &str) -> (r: Result<Option<String>, StorageError>)
        ensures
            extends(old(self).calls(), final(self).calls()),
            final(self).times() == old(self).times(),
            since(old(self).calls(), final(self).calls()).len() == 1,
            reads_setting(since(old(self).calls(), final(self).calls())[0], key@),
            r matches Ok(v) ==> setting_read(since(old(self).calls(), final(self).calls())[0], v),
            r matches Err(e) ==> e is Sqlite,
    {
        let mut params: Vec<SqlValue> = Vec::new();
        params.push(SqlValue::Text(to_string(key)));
        let mut session = SqlSession::new(self.database.connection());
        let row = session.query_row(SETTING_SQL, params.as_slice(), 1);
        self.log = Ghost(self.log@ + session.calls());
        assert(since(old(self).calls(), self.calls()) =~= session.calls());
        assert(sql_views(params@) =~= seq![SqlView::Text(key@)]);
        match row {
            Ok(Some(cols)) => match read_text(&cols[0]) {
                Ok(v) => Ok(Some(v)),
                Err(e) => Err(e),
            },
            Ok(None) => Ok(None),
            Err(m) => Err(sqlite_error(m)),
        }
    }

    /// Stores the value of a setting.
    pub fn set_setting(&mut self, key: &str, value: &str) -> (r: Result<(), StorageError>)
        ensures
            extends(old(self).calls(), final(self).calls()),
            final(self).times() == old(self).times(),
            ({
                let cs = since(old(self).calls(), final(self).calls());
                &&& cs.len() == 1 && cs[0].sql == SET_SETTING_SQL@
                &&& cs[0].params == seq![SqlView::Text(key@), SqlView::Text(value@)]
                &&& r is Ok <==> changed(cs[0])
            }),
            r matches Err(e) ==> e is Sqlite,
    {
        let mut params: Vec<SqlValue> = Vec::new();
        params.push(SqlValue::Text(to_string(key)));
        params.push(SqlValue::Text(to_string(value)));
        let mut session = SqlSession::new(self.database.connection());
        let done = session.execute(SET_SETTING_SQL, params.as_slice());
        self.log = Ghost(self.log@ + session.calls());
        assert(since(old(self).calls(), self.calls()) =~= session.calls());
        assert(sql_views(params@) =~= seq![SqlView::Text(key@), SqlView::Text(value@)]);
        match done {
            Ok(_) => Ok(()),
            Err(m) => Err(sqlite_error(m)),
        }
    }
}

} // verus!
