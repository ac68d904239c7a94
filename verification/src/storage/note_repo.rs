//! Notes kept in the SQLite database.
//!
//! Each edit reads the stored note, works out its next state with the
//! planners of `edit`, writes that state back with one statement, keeps the
//! full-text index in step and reads the note again. What a statement finds
//! in the database is outside the library; the repository keeps a record of
//! the statements it runs, and each operation states, over that record,
//! which statements it ran with which values, and what it gives for the
//! answers that came back.
use vstd::prelude::*;

use crate::clock::{Timestamp, format_rfc3339, parse_rfc3339, rfc3339_parse_result, rfc3339_text, utc_now};
use crate::error::StorageError;
use crate::id::{new_note_id, parse_uuid, uuid_parse_result, uuid_text, uuid_to_string};
use crate::note::{Note, NoteId, NoteType, NoteView, copy_bytes, note_type_name};
use crate::doc::{snapshot_contents, snapshot_exports};
use crate::note::{default_title_spec};
use crate::storage::edit::{
    blob_editable, edit_list_add, edit_list_remove, edit_list_replace, edit_markdown,
    is_missing_item, is_not_found, is_wrong_type, list_add_ok, list_remove_ok, list_replace_ok,
    markdown_edit_ok, merge_base, merge_remote, merge_succeeds, merged_ok, new_note, not_found,
    opt_note_view, opt_str_view, snapshot_editable, stored_items, content_hash_of,
};
use crate::storage::sqlite::{
    SqlAnswer, SqlCall, SqlSession, SqlValue, SqlView, extends, row_answer, rows_answer, since,
    sql_views, sqlite_error,
};
use crate::text::to_string;

verus! {

/// A column read as text.
pub open spec fn col_text(v: SqlView) -> Option<Seq<char>> {
    match v {
        SqlView::Text(s) => Some(s),
        _ => None,
    }
}

/// A column read as bytes.
pub open spec fn col_blob(v: SqlView) -> Option<Seq<u8>> {
    match v {
        SqlView::Blob(b) => Some(b),
        _ => None,
    }
}

/// A column read as an integer.
pub open spec fn col_int(v: SqlView) -> Option<i64> {
    match v {
        SqlView::Integer(i) => Some(i),
        _ => None,
    }
}

/// A column read as a flag: an integer, true when it is not zero.
pub open spec fn col_bool(v: SqlView) -> Option<bool> {
    match v {
        SqlView::Integer(i) => Some(i != 0),
        _ => None,
    }
}

/// A column read as an identifier in UUID text.
pub open spec fn col_id(v: SqlView) -> Option<NoteId> {
    match v {
        SqlView::Text(s) => match uuid_parse_result(s) {
            Ok(u) => Some(u),
            Err(_) => None,
        },
        _ => None,
    }
}

/// A column read as an identifier that may be absent (SQL `NULL`).
pub open spec fn col_opt_id(v: SqlView) -> Option<Option<NoteId>> {
    match v {
        SqlView::Null => Some(None),
        _ => match col_id(v) {
            Some(u) => Some(Some(u)),
            None => None,
        },
    }
}

/// A column read as a note type's name.
pub open spec fn col_type(v: SqlView) -> Option<NoteType> {
    match v {
        SqlView::Text(s) => if s == note_type_name(NoteType::Markdown) {
            Some(NoteType::Markdown)
        } else if s == note_type_name(NoteType::List) {
            Some(NoteType::List)
        } else {
            None
        },
        _ => None,
    }
}

/// A column read as an instant in RFC 3339 text.
pub open spec fn col_time(v: SqlView) -> Option<Timestamp> {
    match v {
        SqlView::Text(s) => match rfc3339_parse_result(s) {
            Ok(t) => Some(t),
            Err(_) => None,
        },
        _ => None,
    }
}

/// A column read as an instant that may be absent (SQL `NULL`).
pub open spec fn col_opt_time(v: SqlView) -> Option<Option<Timestamp>> {
    match v {
        SqlView::Null => Some(None),
        _ => match col_time(v) {
            Some(t) => Some(Some(t)),
            None => None,
        },
    }
}

/// Whether every column of a row of the `notes` table reads as its field.
pub open spec fn row_reads(c: Seq<SqlView>) -> bool {
    &&& c.len() == 12
    &&& col_id(c[0]) is Some
    &&& col_opt_id(c[1]) is Some
    &&& col_type(c[2]) is Some
    &&& col_text(c[3]) is Some
    &&& col_text(c[4]) is Some
    &&& col_blob(c[5]) is Some
    &&& col_blob(c[6]) is Some
    &&& col_time(c[7]) is Some
    &&& col_time(c[8]) is Some
    &&& col_bool(c[9]) is Some
    &&& col_opt_time(c[10]) is Some
    &&& col_int(c[11]) is Some
}

/// The note a row of the `notes` table holds, its columns in the order
/// `id, folder_id, note_type, title, content_plaintext, content_loro_blob,
/// content_hash, created_at, updated_at, is_deleted, deleted_at, sort_order`;
/// `None` when a column does not read as its field.
pub open spec fn row_note(c: Seq<SqlView>) -> Option<NoteView> {
    if row_reads(c) {
        Some(
            NoteView {
                id: col_id(c[0])->Some_0,
                folder_id: col_opt_id(c[1])->Some_0,
                note_type: col_type(c[2])->Some_0,
                title: col_text(c[3])->Some_0,
                content_plaintext: col_text(c[4])->Some_0,
                content_loro_blob: col_blob(c[5])->Some_0,
                content_hash: col_blob(c[6])->Some_0,
                created_at: col_time(c[7])->Some_0,
                updated_at: col_time(c[8])->Some_0,
                is_deleted: col_bool(c[9])->Some_0,
                deleted_at: col_opt_time(c[10])->Some_0,
                sort_order: col_int(c[11])->Some_0,
            },
        )
    } else {
        None
    }
}

fn column_error() -> (e: StorageError)
    ensures
        e matches StorageError::Sqlite(m) && m@ == "invalid column type"@,
{
    sqlite_error(to_string("invalid column type"))
}

pub(crate) fn read_text(v: &SqlValue) -> (r: Result<String, StorageError>)
    ensures
        match r {
            Ok(s) => col_text(v@) == Some(s@),
            Err(e) => col_text(v@) is None && e is Sqlite,
        },
{
    match v {
        SqlValue::Text(s) => Ok(s.clone()),
        _ => Err(column_error()),
    }
}

fn read_blob(v: &SqlValue) -> (r: Result<Vec<u8>, StorageError>)
    ensures
        match r {
            Ok(b) => col_blob(v@) == Some(b@),
            Err(e) => col_blob(v@) is None && e is Sqlite,
        },
{
    match v {
        SqlValue::Blob(b) => Ok(copy_bytes(b.as_slice())),
        _ => Err(column_error()),
    }
}

fn read_int(v: &SqlValue) -> (r: Result<i64, StorageError>)
    ensures
        match r {
            Ok(i) => col_int(v@) == Some(i),
            Err(e) => col_int(v@) is None && e is Sqlite,
        },
{
    match v {
        SqlValue::Integer(i) => Ok(*i),
        _ => Err(column_error()),
    }
}

fn read_id(v: &SqlValue) -> (r: Result<NoteId, StorageError>)
    ensures
        match r {
            Ok(u) => col_id(v@) == Some(u),
            Err(e) => col_id(v@) is None && e is Sqlite,
        },
{
    match v {
        SqlValue::Text(s) => match parse_uuid(s.as_str()) {
            Ok(u) => Ok(u),
            Err(m) => Err(sqlite_error(m)),
        },
        _ => Err(column_error()),
    }
}

fn read_opt_id(v: &SqlValue) -> (r: Result<Option<NoteId>, StorageError>)
    ensures
        match r {
            Ok(u) => col_opt_id(v@) == Some(u),
            Err(e) => col_opt_id(v@) is None && e is Sqlite,
        },
{
    match v {
        SqlValue::Null => Ok(None),
        _ => match read_id(v) {
            Ok(u) => Ok(Some(u)),
            Err(e) => Err(e),
        },
    }
}

fn read_type(v: &SqlValue) -> (r: Result<NoteType, StorageError>)
    ensures
        match r {
            Ok(t) => col_type(v@) == Some(t),
            Err(e) => col_type(v@) is None && e is Sqlite,
        },
{
    match v {
        SqlValue::Text(s) => match crate::note::parse_note_type(s.as_str()) {
            Ok(t) => {
                proof {
                    reveal_strlit("markdown");
                    reveal_strlit("list");
                    assert(note_type_name(NoteType::Markdown).len() == 8);
                }
                Ok(t)
            },
            Err(m) => Err(sqlite_error(m)),
        },
        _ => Err(column_error()),
    }
}

fn read_time(v: &SqlValue) -> (r: Result<Timestamp, StorageError>)
    ensures
        match r {
            Ok(t) => col_time(v@) == Some(t),
            Err(e) => col_time(v@) is None && e is Sqlite,
        },
{
    match v {
        SqlValue::Text(s) => match parse_rfc3339(s.as_str()) {
            Ok(t) => Ok(t),
            Err(m) => Err(sqlite_error(m)),
        },
        _ => Err(column_error()),
    }
}

fn read_opt_time(v: &SqlValue) -> (r: Result<Option<Timestamp>, StorageError>)
    ensures
        match r {
            Ok(t) => col_opt_time(v@) == Some(t),
            Err(e) => col_opt_time(v@) is None && e is Sqlite,
        },
{
    match v {
        SqlValue::Null => Ok(None),
        _ => match read_time(v) {
            Ok(t) => Ok(Some(t)),
            Err(e) => Err(e),
        },
    }
}

/// Decodes a row of the `notes` table into a note.
pub fn row_to_note(cols: &[SqlValue]) -> (r: Result<Note, StorageError>)
    ensures
        match r {
            Ok(n) => row_note(sql_views(cols@)) == Some(n@),
            Err(e) => row_note(sql_views(cols@)) is None && e is Sqlite,
        },
{
    let ghost c = sql_views(cols@);
    if cols.len() != 12 {
        return Err(column_error());
    }
    assert(forall|k: int| 0 <= k < 12 ==> #[trigger] c[k] == cols@[k]@);
    let folder_id = read_opt_id(&cols[1])?;
    let note_type = read_type(&cols[2])?;
    let is_deleted = match &cols[9] {
        SqlValue::Integer(i) => *i != 0,
        _ => {
            return Err(column_error());
        },
    };
    let deleted_at = read_opt_time(&cols[10])?;
    let id = read_id(&cols[0])?;
    let title = read_text(&cols[3])?;
    let content_plaintext = read_text(&cols[4])?;
    let content_loro_blob = read_blob(&cols[5])?;
    let content_hash = read_blob(&cols[6])?;
    let created_at = read_time(&cols[7])?;
    let updated_at = read_time(&cols[8])?;
    let sort_order = read_int(&cols[11])?;
    Ok(
        Note {
            id,
            folder_id,
            note_type,
            title,
            content_plaintext,
            content_loro_blob,
            content_hash,
            created_at,
            updated_at,
            is_deleted,
            deleted_at,
            sort_order,
        },
    )
}

/// Whether `r` is what looking up note `id` gives when the database answers
/// `row`: the row decoded, `NotFound` when there is no row, a database error
/// as itself.
pub open spec fn query_gives(
    id: NoteId,
    row: Result<Option<Seq<SqlView>>, Seq<char>>,
    r: Result<Note, StorageError>,
) -> bool {
    match row {
        Ok(Some(c)) => match r {
            Ok(n) => row_note(c) == Some(n@),
            Err(e) => row_note(c) is None && e is Sqlite,
        },
        Ok(None) => r matches Err(e) && is_not_found(e, id),
        Err(m) => r matches Err(StorageError::Sqlite(x)) && x@ == m,
    }
}

/// Whether `r` is what reading notes gives when the database answers
/// `rows`: every row decoded, in order; a database error when a row does
/// not decode or the query fails.
pub open spec fn rows_give(rows: Result<Seq<Seq<SqlView>>, Seq<char>>, r: Result<Vec<Note>, StorageError>) -> bool {
    match rows {
        Ok(rs) => match r {
            Ok(ns) => ns@.len() == rs.len() && forall|i: int|
                0 <= i < rs.len() ==> row_note(#[trigger] rs[i]) == Some(ns@[i]@),
            Err(e) => e is Sqlite && exists|i: int| 0 <= i < rs.len() && row_note(#[trigger] rs[i]) is None,
        },
        Err(m) => r matches Err(StorageError::Sqlite(x)) && x@ == m,
    }
}

proof fn lemma_rows_give(rows: Result<Vec<Vec<SqlValue>>, String>, r: Result<Vec<Note>, StorageError>)
    requires
        match rows {
            Ok(rs) => match r {
                Ok(ns) => rows_read_as(rs@, ns@.map_values(|n: Note| n@)),
                Err(e) => e is Sqlite && exists|i: int|
                    0 <= i < rs@.len() && row_note(sql_views(#[trigger] rs@[i]@)) is None,
            },
            Err(m) => r matches Err(StorageError::Sqlite(x)) && x@ == m@,
        },
    ensures
        rows_give(rows_answer(rows), r),
{
    match rows {
        Ok(rs) => {
            let v = rs@.map_values(|c: Vec<SqlValue>| sql_views(c@));
            match r {
                Ok(ns) => {
                    assert forall|i: int| 0 <= i < v.len() implies row_note(#[trigger] v[i]) == Some(
                        ns@[i]@,
                    ) by {
                        assert(v[i] == sql_views(rs@[i]@));
                        assert(ns@.map_values(|n: Note| n@)[i] == ns@[i]@);
                    }
                },
                Err(e) => {
                    let i = choose|i: int| 0 <= i < rs@.len() && row_note(sql_views(#[trigger] rs@[i]@)) is None;
                    assert(v[i] == sql_views(rs@[i]@));
                },
            }
        },
        Err(m) => {},
    }
}

/// The note a query for note `id` gave: its row decoded, `NotFound` when
/// there was no row, and a database error as itself.
pub fn note_from_query(id: NoteId, row: Result<Option<Vec<SqlValue>>, String>) -> (r: Result<
    Note,
    StorageError,
>)
    ensures
        match row {
            Ok(Some(cols)) => match r {
                Ok(n) => row_note(sql_views(cols@)) == Some(n@),
                Err(e) => row_note(sql_views(cols@)) is None && e is Sqlite,
            },
            Ok(None) => r matches Err(e) && is_not_found(e, id),
            Err(m) => r matches Err(StorageError::Sqlite(x)) && x@ == m@,
        },
{
    match row {
        Ok(Some(cols)) => row_to_note(cols.as_slice()),
        Ok(None) => Err(not_found(id)),
        Err(m) => Err(sqlite_error(m)),
    }
}

/// Whether `ns` are the notes that rows `rs` hold, one for one.
pub open spec fn rows_read_as(rs: Seq<Vec<SqlValue>>, ns: Seq<NoteView>) -> bool {
    &&& ns.len() == rs.len()
    &&& forall|i: int| 0 <= i < rs.len() ==> row_note(sql_views(#[trigger] rs[i]@)) == Some(ns[i])
}

/// The notes a query gave: every row decoded, in order; an error when a
/// row does not decode, and a database error as itself.
pub fn notes_from_rows(rows: Result<Vec<Vec<SqlValue>>, String>) -> (r: Result<Vec<Note>, StorageError>)
    ensures
        match rows {
            Ok(rs) => match r {
                Ok(ns) => rows_read_as(rs@, ns@.map_values(|n: Note| n@)),
                Err(e) => e is Sqlite && exists|i: int|
                    0 <= i < rs@.len() && row_note(sql_views(#[trigger] rs@[i]@)) is None,
            },
            Err(m) => r matches Err(StorageError::Sqlite(x)) && x@ == m@,
        },
{
    match rows {
        Ok(rs) => decode_rows(&rs),
        Err(m) => Err(sqlite_error(m)),
    }
}

fn decode_rows(rs: &Vec<Vec<SqlValue>>) -> (r: Result<Vec<Note>, StorageError>)
    ensures
        match r {
            Ok(ns) => rows_read_as(rs@, ns@.map_values(|n: Note| n@)),
            Err(e) => e is Sqlite && exists|i: int|
                0 <= i < rs@.len() && row_note(sql_views(#[trigger] rs@[i]@)) is None,
        },
{
    let mut ns: Vec<Note> = Vec::new();
    let mut i: usize = 0;
    while i < rs.len()
        invariant
            i <= rs@.len(),
            rows_read_as(rs@.take(i as int), ns@.map_values(|n: Note| n@)),
        decreases rs@.len() - i,
    {
        match row_to_note(rs[i].as_slice()) {
            Ok(n) => {
                ns.push(n);
            },
            Err(e) => {
                assert(row_note(sql_views(rs@[i as int]@)) is None);
                return Err(e);
            },
        }
        i = i + 1;
        assert(rs@.take(i as int).drop_last() =~= rs@.take(i - 1));
        assert forall|k: int| 0 <= k < i implies row_note(sql_views(#[trigger] rs@.take(i as int)[k]@))
            == Some(ns@.map_values(|n: Note| n@)[k]) by {
            if k < i - 1 {
                assert(rs@.take(i as int)[k] == rs@.take(i - 1)[k]);
            }
        }
    }
    assert(rs@.take(rs@.len() as int) =~= rs@);
    Ok(ns)
}

/// The current time, with its RFC 3339 text.
pub(crate) fn now_stamp() -> (r: (Timestamp, String))
    ensures
        crate::clock::rfc3339_text(r.0.secs, r.0.nanos) == Some(r.1@),
{
    let t = utc_now();
    match format_rfc3339(t) {
        Some(s) => (t, s),
        None => {
            assert(false);
            (t, String::new())
        },
    }
}

fn text_value(s: &str) -> (v: SqlValue)
    ensures
        v@ == SqlView::Text(s@),
{
    SqlValue::Text(to_string(s))
}

fn id_value(id: NoteId) -> (v: SqlValue)
    ensures
        v@ == SqlView::Text(uuid_text(id)),
{
    SqlValue::Text(uuid_to_string(id))
}

fn opt_id_value(id: Option<NoteId>) -> (v: SqlValue)
    ensures
        v@ == match id {
            Some(i) => SqlView::Text(uuid_text(i)),
            None => SqlView::Null,
        },
{
    match id {
        Some(i) => id_value(i),
        None => SqlValue::Null,
    }
}

fn blob_value(b: &[u8]) -> (v: SqlValue)
    ensures
        v@ == SqlView::Blob(b@),
{
    SqlValue::Blob(copy_bytes(b))
}

/// The values that store an edited note's title, text, snapshot, hash and
/// time of change (`stamp`) in the row of note `n.id`.
pub open spec fn content_update_row(n: NoteView, stamp: Seq<char>) -> Seq<SqlView> {
    seq![
        SqlView::Text(n.title),
        SqlView::Text(n.content_plaintext),
        SqlView::Blob(n.content_loro_blob),
        SqlView::Blob(n.content_hash),
        SqlView::Text(stamp),
        SqlView::Text(uuid_text(n.id)),
    ]
}

pub fn content_update_params(n: &Note, stamp: &str) -> (p: Vec<SqlValue>)
    ensures
        sql_views(p@) == content_update_row(n@, stamp@),
{
    let mut p: Vec<SqlValue> = Vec::new();
    p.push(text_value(n.title.as_str()));
    p.push(text_value(n.content_plaintext.as_str()));
    p.push(blob_value(n.content_loro_blob.as_slice()));
    p.push(blob_value(n.content_hash.as_slice()));
    p.push(text_value(stamp));
    p.push(id_value(n.id));
    assert(sql_views(p@) =~= content_update_row(n@, stamp@));
    p
}

/// The values a new note is inserted with, made at time `stamp`: the
/// columns `id, folder_id, note_type, title, content_plaintext,
/// content_loro_blob, content_hash, created_at, updated_at`.
pub open spec fn insert_row(n: NoteView, stamp: Seq<char>) -> Seq<SqlView> {
    seq![
        SqlView::Text(uuid_text(n.id)),
        match n.folder_id {
            Some(f) => SqlView::Text(uuid_text(f)),
            None => SqlView::Null,
        },
        SqlView::Text(note_type_name(n.note_type)),
        SqlView::Text(n.title),
        SqlView::Text(n.content_plaintext),
        SqlView::Blob(n.content_loro_blob),
        SqlView::Blob(n.content_hash),
        SqlView::Text(stamp),
        SqlView::Text(stamp),
    ]
}

/// The values the schema gives the columns an insert leaves out:
/// `is_deleted` 0, `deleted_at` `NULL`, `sort_order` 0.
pub open spec fn column_defaults() -> Seq<SqlView> {
    seq![SqlView::Integer(0), SqlView::Null, SqlView::Integer(0)]
}

/// The parameters that insert a new note, made at time `stamp`.
pub fn note_insert_params(n: &Note, stamp: &str) -> (p: Vec<SqlValue>)
    ensures
        sql_views(p@) == insert_row(n@, stamp@),
{
    let mut p: Vec<SqlValue> = Vec::new();
    p.push(id_value(n.id));
    p.push(opt_id_value(n.folder_id));
    p.push(text_value(n.note_type.as_str()));
    p.push(text_value(n.title.as_str()));
    p.push(text_value(n.content_plaintext.as_str()));
    p.push(blob_value(n.content_loro_blob.as_slice()));
    p.push(blob_value(n.content_hash.as_slice()));
    p.push(text_value(stamp));
    p.push(text_value(stamp));
    assert(sql_views(p@) =~= insert_row(n@, stamp@));
    p
}

/// A note type, stored by its name, reads back as itself.
pub proof fn lemma_stored_type_reads_back(t: NoteType)
    ensures
        col_type(SqlView::Text(note_type_name(t))) == Some(t),
{
    reveal_strlit("markdown");
    reveal_strlit("list");
    assert(note_type_name(NoteType::Markdown).len() == 8);
    assert(note_type_name(NoteType::List).len() == 4);
}

/// A new note's row, as inserted and completed with the schema's defaults,
/// reads back as the note, when its identifiers and its time of creation
/// read back from their texts.
pub proof fn lemma_inserted_row_reads_back(n: NoteView, stamp: Seq<char>)
    requires
        uuid_parse_result(uuid_text(n.id)) == Ok::<u128, Seq<char>>(n.id),
        n.folder_id matches Some(f) ==> uuid_parse_result(uuid_text(f)) == Ok::<u128, Seq<char>>(f),
        rfc3339_parse_result(stamp) == Ok::<Timestamp, Seq<char>>(n.created_at),
        n.updated_at == n.created_at,
        !n.is_deleted,
        n.deleted_at is None,
        n.sort_order == 0,
    ensures
        row_note(insert_row(n, stamp) + column_defaults()) == Some(n),
{
    let row = insert_row(n, stamp) + column_defaults();
    lemma_stored_type_reads_back(n.note_type);
    assert(row[0] == SqlView::Text(uuid_text(n.id)));
    assert(row[1] == insert_row(n, stamp)[1]);
    assert(row[2] == SqlView::Text(note_type_name(n.note_type)));
    assert(row[7] == SqlView::Text(stamp) && row[8] == SqlView::Text(stamp));
    assert(row[9] == SqlView::Integer(0) && row[10] == SqlView::Null && row[11] == SqlView::Integer(0));
    assert(row_reads(row));
    assert(row_note(row) =~= Some(n));
}

/// The values that store a merged note's type, title, text, snapshot and
/// hash, at time `stamp`, in the row of note `n.id`.
pub open spec fn merged_update_row(n: NoteView, stamp: Seq<char>) -> Seq<SqlView> {
    seq![
        SqlView::Text(note_type_name(n.note_type)),
        SqlView::Text(n.title),
        SqlView::Text(n.content_plaintext),
        SqlView::Blob(n.content_loro_blob),
        SqlView::Blob(n.content_hash),
        SqlView::Text(stamp),
        SqlView::Text(uuid_text(n.id)),
    ]
}

pub fn merged_update_params(n: &Note, stamp: &str) -> (p: Vec<SqlValue>)
    ensures
        sql_views(p@) == merged_update_row(n@, stamp@),
{
    let mut p: Vec<SqlValue> = Vec::new();
    p.push(text_value(n.note_type.as_str()));
    p.push(text_value(n.title.as_str()));
    p.push(text_value(n.content_plaintext.as_str()));
    p.push(blob_value(n.content_loro_blob.as_slice()));
    p.push(blob_value(n.content_hash.as_slice()));
    p.push(text_value(stamp));
    p.push(id_value(n.id));
    assert(sql_views(p@) =~= merged_update_row(n@, stamp@));
    p
}

/// The values that insert a note first received from another device, at
/// time `stamp`.
pub open spec fn merged_insert_row(n: NoteView, stamp: Seq<char>) -> Seq<SqlView> {
    seq![
        SqlView::Text(uuid_text(n.id)),
        SqlView::Text(note_type_name(n.note_type)),
        SqlView::Text(n.title),
        SqlView::Text(n.content_plaintext),
        SqlView::Blob(n.content_loro_blob),
        SqlView::Blob(n.content_hash),
        SqlView::Text(stamp),
        SqlView::Text(stamp),
    ]
}

pub fn merged_insert_params(n: &Note, stamp: &str) -> (p: Vec<SqlValue>)
    ensures
        sql_views(p@) == merged_insert_row(n@, stamp@),
{
    let mut p: Vec<SqlValue> = Vec::new();
    p.push(id_value(n.id));
    p.push(text_value(n.note_type.as_str()));
    p.push(text_value(n.title.as_str()));
    p.push(text_value(n.content_plaintext.as_str()));
    p.push(blob_value(n.content_loro_blob.as_slice()));
    p.push(blob_value(n.content_hash.as_slice()));
    p.push(text_value(stamp));
    p.push(text_value(stamp));
    assert(sql_views(p@) =~= merged_insert_row(n@, stamp@));
    p
}

/// What a lookup of a note before a merge gives: the stored note, no note
/// when it is not stored, or the lookup's error.
pub fn existing_from_lookup(looked: Result<Note, StorageError>) -> (r: Result<Option<Note>, StorageError>)
    ensures
        looked matches Ok(n) ==> r == Ok::<Option<Note>, StorageError>(Some(n)),
        looked matches Err(e) ==> (e is NotFound ==> r == Ok::<Option<Note>, StorageError>(None)),
        looked matches Err(e) ==> (!(e is NotFound) ==> r == Err::<Option<Note>, StorageError>(e)),
{
    match looked {
        Ok(n) => Ok(Some(n)),
        Err(StorageError::NotFound { .. }) => Ok(None),
        Err(e) => Err(e),
    }
}

/// A new note of a type, in a folder or none, and the values that insert
/// it, made at time `now`, whose text is `stamp`.
pub fn plan_create(id: NoteId, note_type: NoteType, folder_id: Option<NoteId>, now: Timestamp, stamp: &str) -> (r: (
    Note,
    Vec<SqlValue>,
))
    ensures
        r.0@ == (NoteView {
            id,
            folder_id,
            note_type,
            title: default_title_spec(note_type),
            content_plaintext: seq![],
            content_loro_blob: r.0.content_loro_blob@,
            content_hash: content_hash_of(seq![]),
            created_at: now,
            updated_at: now,
            is_deleted: false,
            deleted_at: None,
            sort_order: 0,
        }),
        snapshot_contents(r.0.content_loro_blob@) == Some(
            (Seq::<char>::empty(), Seq::<Seq<char>>::empty(), Some(default_title_spec(note_type))),
        ),
        r.0.content_loro_blob@.len() > 0,
        sql_views(r.1@) == insert_row(r.0@, stamp@),
{
    match new_note(id, note_type, folder_id, now, 0) {
        Ok(n) => {
            let p = note_insert_params(&n, stamp);
            (n, p)
        },
        Err(_) => {
            assert(false);
            let n = Note {
                id,
                folder_id,
                note_type,
                title: String::new(),
                content_plaintext: String::new(),
                content_loro_blob: Vec::new(),
                content_hash: Vec::new(),
                created_at: now,
                updated_at: now,
                is_deleted: false,
                deleted_at: None,
                sort_order: 0,
            };
            (n, Vec::new())
        },
    }
}

/// A markdown note with new text and, when one is given, a new title, and
/// the values that store it at time `stamp`.
pub fn plan_markdown_edit(
    existing: &Note,
    new_content: &str,
    title_override: Option<&str>,
    now: Timestamp,
    stamp: &str,
) -> (r: Result<(Note, Vec<SqlValue>), StorageError>)
    ensures
        existing.note_type != NoteType::Markdown ==> (r matches Err(e) && is_wrong_type(
            e,
            "markdown"@,
            existing.note_type,
        )),
        existing.note_type == NoteType::Markdown ==> (r matches Err(e) ==> e is Loro),
        existing.note_type == NoteType::Markdown && blob_editable(existing.content_loro_blob@)
            ==> r is Ok,
        r matches Ok((n, p)) ==> markdown_edit_ok(existing@, new_content@, opt_str_view(title_override), n@)
            && n.updated_at == now && sql_views(p@) == content_update_row(n@, stamp@),
{
    let n = edit_markdown(existing, new_content, title_override, now)?;
    let p = content_update_params(&n, stamp);
    Ok((n, p))
}

/// A list note with one more item, and the values that store it at time
/// `stamp`.
pub fn plan_list_add(existing: &Note, item: &str, now: Timestamp, stamp: &str) -> (r: Result<
    (Note, Vec<SqlValue>),
    StorageError,
>)
    ensures
        existing.note_type != NoteType::List ==> (r matches Err(e) && is_wrong_type(
            e,
            "list"@,
            existing.note_type,
        )),
        existing.note_type == NoteType::List ==> (r matches Err(e) ==> e is Loro),
        existing.note_type == NoteType::List && snapshot_editable(existing.content_loro_blob@)
            ==> r is Ok,
        r matches Ok((n, p)) ==> list_add_ok(existing@, item@, n@) && n.updated_at == now
            && sql_views(p@) == content_update_row(n@, stamp@),
{
    let n = edit_list_add(existing, item, now)?;
    let p = content_update_params(&n, stamp);
    Ok((n, p))
}

/// A list note whose items, and when one is given its title, are replaced,
/// and the values that store it at time `stamp`.
pub fn plan_list_replace(
    existing: &Note,
    new_items: &[String],
    title_override: Option<&str>,
    now: Timestamp,
    stamp: &str,
) -> (r: Result<(Note, Vec<SqlValue>), StorageError>)
    ensures
        existing.note_type != NoteType::List ==> (r matches Err(e) && is_wrong_type(
            e,
            "list"@,
            existing.note_type,
        )),
        existing.note_type == NoteType::List ==> (r matches Err(e) ==> e is Loro),
        existing.note_type == NoteType::List && snapshot_editable(existing.content_loro_blob@)
            ==> r is Ok,
        r matches Ok((n, p)) ==> list_replace_ok(
            existing@,
            new_items@.map_values(|s: String| s@),
            opt_str_view(title_override),
            n@,
        ) && n.updated_at == now && sql_views(p@) == content_update_row(n@, stamp@),
{
    let n = edit_list_replace(existing, new_items, title_override, now)?;
    let p = content_update_params(&n, stamp);
    Ok((n, p))
}

/// A list note without the first item equal to `item`, and the values that
/// store it at time `stamp`.
pub fn plan_list_remove(existing: &Note, item: &str, now: Timestamp, stamp: &str) -> (r: Result<
    (Note, Vec<SqlValue>),
    StorageError,
>)
    ensures
        existing.note_type != NoteType::List ==> (r matches Err(e) && is_wrong_type(
            e,
            "list"@,
            existing.note_type,
        )),
        existing.note_type == NoteType::List ==> (r matches Err(e) ==> (e is Loro
            || is_missing_item(e, existing.content_loro_blob@, item@))),
        existing.note_type == NoteType::List && snapshot_contents(existing.content_loro_blob@) is Some
            ==> if stored_items(existing@).contains(item@) {
            snapshot_exports(existing.content_loro_blob@) ==> r is Ok
        } else {
            r matches Err(e) && is_missing_item(e, existing.content_loro_blob@, item@)
        },
        r matches Ok((n, p)) ==> list_remove_ok(existing@, item@, n@) && n.updated_at == now
            && sql_views(p@) == content_update_row(n@, stamp@),
{
    let n = edit_list_remove(existing, item, now)?;
    let p = content_update_params(&n, stamp);
    Ok((n, p))
}

/// A stored note as it is once marked live again.
pub open spec fn undeleted(n: NoteView) -> NoteView {
    NoteView { is_deleted: false, deleted_at: None, ..n }
}

/// A stored note, if there is one, as it is once marked live again.
pub open spec fn undeleted_opt(o: Option<NoteView>) -> Option<NoteView> {
    match o {
        Some(n) => Some(undeleted(n)),
        None => None,
    }
}

/// A note merged with state received from another device, and the values
/// that store it at time `stamp`: an update of the existing row, which
/// also marks the note live again, or the insert of a new one.
pub fn plan_remote_update(
    existing: Option<&Note>,
    note_id: NoteId,
    note_type: NoteType,
    update_blob: &[u8],
    now: Timestamp,
    stamp: &str,
) -> (r: Result<(Note, Vec<SqlValue>), StorageError>)
    ensures
        r is Ok <==> merge_succeeds(merge_base(opt_note_view(existing)), update_blob@),
        r matches Err(e) ==> e is Loro,
        r matches Ok((n, p)) ==> merged_ok(undeleted_opt(opt_note_view(existing)), note_id, note_type, update_blob@, 0, n@)
            && !n.is_deleted && n.deleted_at is None && n.updated_at == now && sql_views(p@) == match existing {
            Some(_) => merged_update_row(n@, stamp@),
            None => merged_insert_row(n@, stamp@),
        },
{
    let mut n = merge_remote(existing, note_id, note_type, update_blob, now, 0)?;
    if existing.is_some() {
        n.is_deleted = false;
        n.deleted_at = None;
    }
    let p = match existing {
        Some(_) => merged_update_params(&n, stamp),
        None => merged_insert_params(&n, stamp),
    };
    Ok((n, p))
}

/// The errors an edit of a stored note can end with.
pub open spec fn edit_error(e: StorageError) -> bool {
    e is Sqlite || e is NotFound || e is WrongNoteType || e is Loro
}

/// Reads a stored note, its columns in the order `row_note` reads them.
pub const NOTE_BY_ID_SQL: &'static str = "SELECT id, folder_id, note_type, title, content_plaintext, content_loro_blob, content_hash, created_at, updated_at, is_deleted, deleted_at, sort_order FROM notes WHERE id = ?1";

/// Reads the notes that are not deleted, in a folder (`?1`) or in any
/// (`?1` is `NULL`), most recently changed first.
pub const LIST_SQL: &'static str = "SELECT id, folder_id, note_type, title, content_plaintext, content_loro_blob, content_hash, created_at, updated_at, is_deleted, deleted_at, sort_order FROM notes WHERE is_deleted = 0 AND (?1 IS NULL OR folder_id = ?1) ORDER BY updated_at DESC";

/// Reads the notes that are not deleted and match a full-text query, best
/// match first.
pub const SEARCH_SQL: &'static str = "SELECT n.id, n.folder_id, n.note_type, n.title, n.content_plaintext, n.content_loro_blob, n.content_hash, n.created_at, n.updated_at, n.is_deleted, n.deleted_at, n.sort_order FROM notes_fts JOIN notes n ON notes_fts.rowid = n.rowid WHERE notes_fts MATCH ?1 AND n.is_deleted = 0 ORDER BY rank";

/// Inserts a new note with the values of `insert_row`.
pub const INSERT_NOTE_SQL: &'static str = "INSERT INTO notes (id, folder_id, note_type, title, content_plaintext, content_loro_blob, content_hash, created_at, updated_at) VALUES (?1, ?2, ?3, ?4, ?5, ?6, ?7, ?8, ?9)";

/// Writes an edited note with the values of `content_update_row`.
pub const UPDATE_CONTENT_SQL: &'static str = "UPDATE notes SET title = ?1, content_plaintext = ?2, content_loro_blob = ?3, content_hash = ?4, updated_at = ?5 WHERE id = ?6";

/// Writes a merged note with the values of `merged_update_row`, marking it
/// live again.
pub const MERGED_UPDATE_SQL: &'static str = "UPDATE notes SET note_type = ?1, title = ?2, content_plaintext = ?3, content_loro_blob = ?4, content_hash = ?5, updated_at = ?6, is_deleted = 0, deleted_at = NULL WHERE id = ?7";

/// Inserts a note first received from another device with the values of
/// `merged_insert_row`.
pub const MERGED_INSERT_SQL: &'static str = "INSERT INTO notes (id, note_type, title, content_plaintext, content_loro_blob, content_hash, created_at, updated_at) VALUES (?1, ?2, ?3, ?4, ?5, ?6, ?7, ?8)";

/// Marks a note deleted at a time (`?1`, `?2`).
pub const SOFT_DELETE_SQL: &'static str = "UPDATE notes SET is_deleted = 1, deleted_at = ?1, updated_at = ?2 WHERE id = ?3";

/// Reads the rowid of a note.
pub const ROWID_SQL: &'static str = "SELECT rowid FROM notes WHERE id = ?1";

/// Puts a title and a text in the full-text index under a rowid.
pub const FTS_UPSERT_SQL: &'static str = "INSERT OR REPLACE INTO notes_fts (rowid, title, content_plaintext) VALUES (?1, ?2, ?3)";

/// Drops a rowid from the full-text index.
pub const FTS_DELETE_SQL: &'static str = "DELETE FROM notes_fts WHERE rowid = ?1";

/// The parameters that name note `id`.
pub open spec fn id_params(id: NoteId) -> Seq<SqlView> {
    seq![SqlView::Text(uuid_text(id))]
}

/// Whether statement `c` looks up note `id`.
pub open spec fn looks_up(c: SqlCall, id: NoteId) -> bool {
    c.sql == NOTE_BY_ID_SQL@ && c.params == id_params(id)
}

/// The note a lookup found: its row, decoded; `None` when there was no
/// row, the row did not decode, or the query failed.
pub open spec fn found_note(c: SqlCall) -> Option<NoteView> {
    match c.answer {
        SqlAnswer::Row(Ok(Some(row))) => row_note(row),
        _ => None,
    }
}

/// Whether statement `c` looked up note `id` and `r` is what its answer
/// gives.
pub open spec fn lookup_gives(c: SqlCall, id: NoteId, r: Result<Note, StorageError>) -> bool {
    &&& looks_up(c, id)
    &&& c.answer matches SqlAnswer::Row(row) && query_gives(id, row, r)
}

/// Whether statement `c` succeeded in changing the database.
pub open spec fn changed(c: SqlCall) -> bool {
    c.answer matches SqlAnswer::Changed(Ok(_))
}

/// The rowid a rowid lookup found.
pub open spec fn found_rowid(c: SqlCall) -> Option<i64> {
    match c.answer {
        SqlAnswer::Row(Ok(Some(row))) => if row.len() > 0 {
            col_int(row[0])
        } else {
            None
        },
        _ => None,
    }
}

/// Whether statement `c` puts `title` and `content` in the full-text
/// index.
pub open spec fn indexes(c: SqlCall, title: Seq<char>, content: Seq<char>) -> bool {
    &&& c.sql == FTS_UPSERT_SQL@
    &&& c.params.len() == 3 && c.params[0] is Integer
    &&& c.params[1] == SqlView::Text(title) && c.params[2] == SqlView::Text(content)
}

/// Whether `cs` are the statements that looking up note `id` runs, and `r`
/// what they give.
pub open spec fn get_made(id: NoteId, cs: Seq<SqlCall>, r: Result<Note, StorageError>) -> bool {
    cs.len() == 1 && lookup_gives(cs[0], id, r)
}

/// Whether `cs` are the statements that looking up the rowid of note `id`
/// runs, and `r` what they give.
pub open spec fn rowid_made(id: NoteId, cs: Seq<SqlCall>, r: Result<Option<i64>, StorageError>) -> bool {
    &&& cs.len() == 1 && cs[0].sql == ROWID_SQL@ && cs[0].params == id_params(id)
    &&& r matches Ok(Some(k)) ==> found_rowid(cs[0]) == Some(k)
    &&& r matches Ok(None) ==> cs[0].answer == SqlAnswer::Row(Ok(None))
    &&& r is Err ==> found_rowid(cs[0]) is None && cs[0].answer != SqlAnswer::Row(Ok(None))
}

/// Whether `cs` are the statements that write note `n` with `params` by
/// `sql`, index its text and read it back, and `r` what they give. The
/// write comes first and a failed write ends the work; then the rowid of
/// the note is looked up; a found rowid is indexed with the note's title
/// and text; last, unless a step failed, the note is read back, and that
/// reading is the result.
pub open spec fn write_made(
    sql: Seq<char>,
    n: NoteView,
    params: Seq<SqlView>,
    cs: Seq<SqlCall>,
    r: Result<Note, StorageError>,
) -> bool {
    &&& cs.len() >= 1 && cs[0].sql == sql && cs[0].params == params
    &&& if !changed(cs[0]) {
        cs.len() == 1 && (r matches Err(e) && e is Sqlite)
    } else {
        &&& cs.len() >= 2 && cs[1].sql == ROWID_SQL@ && cs[1].params == id_params(n.id)
        &&& match found_rowid(cs[1]) {
            Some(k) => {
                &&& cs.len() >= 3 && indexes(cs[2], n.title, n.content_plaintext)
                &&& cs[2].params[0] == SqlView::Integer(k)
                &&& if changed(cs[2]) {
                    cs.len() == 4 && lookup_gives(cs[3], n.id, r)
                } else {
                    cs.len() == 3 && (r matches Err(e) && e is Sqlite)
                }
            },
            None => if cs[1].answer == SqlAnswer::Row(Ok(None)) {
                cs.len() == 3 && lookup_gives(cs[2], n.id, r)
            } else {
                cs.len() == 2 && (r matches Err(e) && e is Sqlite)
            },
        }
    }
}

/// Whether `cs` are the statements that an edit of note `id`, which must be
/// of type `kind`, runs, and `r` what they give. The note is looked up
/// first; a lookup that finds none, or a note of another type, ends the
/// edit; otherwise the edited state `n`, for which `ok(stored, n)` holds,
/// changed at time `now` and stamped with that time's RFC 3339 text, is
/// written by `UPDATE_CONTENT_SQL`, and it is always when `owed(stored)`.
pub open spec fn edit_made(
    id: NoteId,
    kind: NoteType,
    ok: spec_fn(NoteView, NoteView) -> bool,
    owed: spec_fn(NoteView) -> bool,
    now: Timestamp,
    cs: Seq<SqlCall>,
    r: Result<Note, StorageError>,
) -> bool {
    &&& cs.len() >= 1 && looks_up(cs[0], id)
    &&& match found_note(cs[0]) {
        None => cs.len() == 1 && lookup_gives(cs[0], id, r),
        Some(e) => {
            &&& e.note_type != kind ==> cs.len() == 1 && (r matches Err(x) && is_wrong_type(
                x,
                note_type_name(kind),
                e.note_type,
            ))
            &&& e.note_type == kind && owed(e) ==> cs.len() >= 2
            &&& cs.len() >= 2 ==> exists|n: NoteView, stamp: Seq<char>|
                #![trigger content_update_row(n, stamp)]
                {
                    &&& ok(e, n) && n.updated_at == now && rfc3339_text(now.secs, now.nanos) == Some(stamp)
                    &&& write_made(UPDATE_CONTENT_SQL@, n, content_update_row(n, stamp), cs.skip(1), r)
                }
        },
    }
    &&& cs.len() == 1 ==> r is Err
}

/// Whether `n` is a new, empty note of type `t` in folder `folder_id`:
/// its type's default title, no text, and a document that holds only
/// that title.
pub open spec fn created_ok(t: NoteType, folder_id: Option<NoteId>, n: NoteView) -> bool {
    &&& n.folder_id == folder_id && n.note_type == t
    &&& n.title == default_title_spec(t) && n.content_plaintext == Seq::<char>::empty()
    &&& n.content_hash == content_hash_of(seq![])
    &&& n.created_at == n.updated_at && !n.is_deleted && n.deleted_at is None && n.sort_order == 0
    &&& snapshot_contents(n.content_loro_blob) == Some(
        (Seq::<char>::empty(), Seq::<Seq<char>>::empty(), Some(default_title_spec(t))),
    )
}

/// Whether `cs` are the statements that creating a note of type `t` in
/// folder `folder_id` at time `now` runs, and `r` what they give: the insert
/// of a new note made at `now` and stamped with that time's RFC 3339 text,
/// the indexing of its title and text, and reading it back; a failed step
/// ends the work.
pub open spec fn create_made(
    t: NoteType,
    folder_id: Option<NoteId>,
    now: Timestamp,
    cs: Seq<SqlCall>,
    r: Result<Note, StorageError>,
) -> bool {
    &&& cs.len() >= 1 && cs[0].sql == INSERT_NOTE_SQL@
    &&& exists|n: NoteView, stamp: Seq<char>| #![trigger insert_row(n, stamp)]
        {
            &&& created_ok(t, folder_id, n) && cs[0].params == insert_row(n, stamp)
            &&& n.created_at == now && rfc3339_text(now.secs, now.nanos) == Some(stamp)
            &&& if !changed(cs[0]) {
                cs.len() == 1 && (r matches Err(e) && e is Sqlite)
            } else {
                &&& cs.len() >= 2 && indexes(cs[1], n.title, n.content_plaintext)
                &&& if changed(cs[1]) {
                    cs.len() == 3 && lookup_gives(cs[2], n.id, r)
                } else {
                    cs.len() == 2 && (r matches Err(e) && e is Sqlite)
                }
            }
        }
}

/// The values that mark note `id` deleted at time `stamp`.
pub open spec fn delete_params(stamp: Seq<char>, id: NoteId) -> Seq<SqlView> {
    seq![SqlView::Text(stamp), SqlView::Text(stamp), SqlView::Text(uuid_text(id))]
}

/// Whether `cs` are the statements that marking note `id` deleted at time
/// `now` runs, and `r` what they give: the update stamped with that time's
/// RFC 3339 text, the rowid lookup, and the removal from the full-text
/// index when the rowid is found; a failed step ends the work.
pub open spec fn delete_made(id: NoteId, now: Timestamp, cs: Seq<SqlCall>, r: Result<(), StorageError>) -> bool {
    &&& cs.len() >= 1 && cs[0].sql == SOFT_DELETE_SQL@
    &&& rfc3339_text(now.secs, now.nanos) matches Some(stamp) && cs[0].params == delete_params(stamp, id)
    &&& if !changed(cs[0]) {
        cs.len() == 1 && (r matches Err(e) && e is Sqlite)
    } else {
        &&& cs.len() >= 2 && cs[1].sql == ROWID_SQL@ && cs[1].params == id_params(id)
        &&& match found_rowid(cs[1]) {
            Some(k) => {
                &&& cs.len() == 3 && cs[2].sql == FTS_DELETE_SQL@ && cs[2].params == seq![SqlView::Integer(k)]
                &&& r is Ok <==> changed(cs[2])
            },
            None => cs.len() == 2 && (r is Ok <==> cs[1].answer == SqlAnswer::Row(Ok(None))),
        }
    }
}

/// Whether `cs` are the statements that listing the live notes of folder
/// `folder_id` (all folders for `None`) runs, and `r` what they give.
pub open spec fn list_made(folder_id: Option<NoteId>, cs: Seq<SqlCall>, r: Result<Vec<Note>, StorageError>) -> bool {
    &&& cs.len() == 1 && cs[0].sql == LIST_SQL@
    &&& cs[0].params == seq![
        match folder_id {
            Some(f) => SqlView::Text(uuid_text(f)),
            None => SqlView::Null,
        },
    ]
    &&& cs[0].answer matches SqlAnswer::Rows(rows) && rows_give(rows, r)
}

/// Whether `cs` are the statements that a full-text search for `query`
/// runs, and `r` what they give.
pub open spec fn search_made(query: Seq<char>, cs: Seq<SqlCall>, r: Result<Vec<Note>, StorageError>) -> bool {
    &&& cs.len() == 1 && cs[0].sql == SEARCH_SQL@ && cs[0].params == seq![SqlView::Text(query)]
    &&& cs[0].answer matches SqlAnswer::Rows(rows) && rows_give(rows, r)
}

/// Whether `cs` are the statements that merging `update` into note `id`, of
/// type `t`, at time `now`, runs, and `r` what they give. The note is
/// looked up first; a failed lookup ends the merge, as does a merge that
/// does not succeed; otherwise the merged note, live again, changed at `now`
/// and stamped with that time's RFC 3339 text, is written over the stored
/// one or inserted when there was none.
pub open spec fn remote_update_made(
    id: NoteId,
    t: NoteType,
    update: Seq<u8>,
    now: Timestamp,
    cs: Seq<SqlCall>,
    r: Result<Note, StorageError>,
) -> bool {
    let existing = found_note(cs[0]);
    let absent = cs[0].answer == SqlAnswer::Row(Ok(None));
    &&& cs.len() >= 1 && looks_up(cs[0], id)
    &&& existing is None && !absent ==> cs.len() == 1 && lookup_gives(cs[0], id, r)
    &&& (existing is Some || absent) && merge_succeeds(merge_base(existing), update) ==> cs.len() >= 2
    &&& (existing is Some || absent) && !merge_succeeds(merge_base(existing), update) ==> cs.len() == 1
        && (r matches Err(e) && e is Loro)
    &&& cs.len() >= 2 ==> exists|n: NoteView, stamp: Seq<char>| #![trigger merged_update_row(n, stamp)]
        {
            &&& merged_ok(undeleted_opt(existing), id, t, update, 0, n)
            &&& !n.is_deleted && n.deleted_at is None
            &&& n.updated_at == now && rfc3339_text(now.secs, now.nanos) == Some(stamp)
            &&& existing is Some ==> write_made(MERGED_UPDATE_SQL@, n, merged_update_row(n, stamp), cs.skip(1), r)
            &&& existing is None ==> write_made(MERGED_INSERT_SQL@, n, merged_insert_row(n, stamp), cs.skip(1), r)
        }
    &&& cs.len() == 1 ==> r is Err
}

/// Whether `cs` are the statements that applying a deletion of note `id`
/// runs, and `r` what they give: a lookup that finds no row ends it;
/// otherwise the note is marked deleted at time `now`.
pub open spec fn remote_delete_made(id: NoteId, now: Timestamp, cs: Seq<SqlCall>, r: Result<(), StorageError>) -> bool {
    &&& cs.len() >= 1 && looks_up(cs[0], id)
    &&& cs[0].answer == SqlAnswer::Row(Ok(None)) ==> cs.len() == 1 && r is Ok
    &&& cs[0].answer != SqlAnswer::Row(Ok(None)) ==> delete_made(id, now, cs.skip(1), r)
}

/// An edit that succeeds has written the note it found, of the kind asked
/// for, stamped with the time it read from the clock: the update binds, as
/// the note's time of change, the RFC 3339 text of `now`, and the edited
/// state carries `now` as its time of change.
pub proof fn lemma_edit_stamps_its_time(
    id: NoteId,
    kind: NoteType,
    ok: spec_fn(NoteView, NoteView) -> bool,
    owed: spec_fn(NoteView) -> bool,
    now: Timestamp,
    cs: Seq<SqlCall>,
    r: Result<Note, StorageError>,
)
    requires
        edit_made(id, kind, ok, owed, now, cs, r),
        r is Ok,
    ensures
        cs.len() >= 2 && looks_up(cs[0], id) && cs[1].sql == UPDATE_CONTENT_SQL@ && changed(cs[1]),
        found_note(cs[0]) matches Some(e) && e.note_type == kind,
        rfc3339_text(now.secs, now.nanos) is Some,
        cs[1].params[4] == SqlView::Text(rfc3339_text(now.secs, now.nanos)->Some_0),
        exists|e: NoteView, n: NoteView|
            found_note(cs[0]) == Some(e) && #[trigger] ok(e, n) && n.updated_at == now && cs[1].params
                == content_update_row(n, rfc3339_text(now.secs, now.nanos)->Some_0),
{
    let e = found_note(cs[0])->Some_0;
    let (n, stamp) = choose|n: NoteView, stamp: Seq<char>|
        #![trigger content_update_row(n, stamp)]
        {
            &&& ok(e, n) && n.updated_at == now && rfc3339_text(now.secs, now.nanos) == Some(stamp)
            &&& write_made(UPDATE_CONTENT_SQL@, n, content_update_row(n, stamp), cs.skip(1), r)
        };
    assert(cs.skip(1)[0] == cs[1]);
    assert(ok(e, n));
}

/// A note created with success was inserted stamped with the time its
/// creation read from the clock: its time of creation and of change are
/// both the RFC 3339 text of `now`, and the note inserted carries `now` for
/// both.
pub proof fn lemma_create_stamps_its_time(
    t: NoteType,
    folder_id: Option<NoteId>,
    now: Timestamp,
    cs: Seq<SqlCall>,
    r: Result<Note, StorageError>,
)
    requires
        create_made(t, folder_id, now, cs, r),
        r is Ok,
    ensures
        cs.len() == 3 && cs[0].sql == INSERT_NOTE_SQL@ && changed(cs[0]),
        rfc3339_text(now.secs, now.nanos) is Some,
        cs[0].params[7] == SqlView::Text(rfc3339_text(now.secs, now.nanos)->Some_0),
        cs[0].params[8] == SqlView::Text(rfc3339_text(now.secs, now.nanos)->Some_0),
        exists|n: NoteView|
            #[trigger] created_ok(t, folder_id, n) && n.created_at == now && n.updated_at == now
                && cs[0].params == insert_row(n, rfc3339_text(now.secs, now.nanos)->Some_0)
                && lookup_gives(cs[2], n.id, r),
{
    let (n, stamp) = choose|n: NoteView, stamp: Seq<char>|
        #![trigger insert_row(n, stamp)]
        {
            &&& created_ok(t, folder_id, n) && cs[0].params == insert_row(n, stamp)
            &&& n.created_at == now && rfc3339_text(now.secs, now.nanos) == Some(stamp)
            &&& if !changed(cs[0]) {
                cs.len() == 1 && (r matches Err(e) && e is Sqlite)
            } else {
                &&& cs.len() >= 2 && indexes(cs[1], n.title, n.content_plaintext)
                &&& if changed(cs[1]) {
                    cs.len() == 3 && lookup_gives(cs[2], n.id, r)
                } else {
                    cs.len() == 2 && (r matches Err(e) && e is Sqlite)
                }
            }
        };
    assert(created_ok(t, folder_id, n));
}

/// Whether `after` is `before` with one more instant read from the clock.
pub open spec fn read_clock_once(before: Seq<Timestamp>, after: Seq<Timestamp>) -> bool {
    &&& after.len() == before.len() + 1
    &&& forall|i: int| 0 <= i < before.len() ==> #[trigger] after[i] == before[i]
}

/// Notes stored through one connection, with the record of the statements
/// run.
pub struct NoteRepository<'a> {
    session: SqlSession<'a>,
}

impl<'a> NoteRepository<'a> {
    /// The connection the notes are stored through.
    pub closed spec fn connection(&self) -> rusqlite::Connection {
        self.session.connection()
    }

    /// The statements run so far, oldest first.
    pub closed spec fn calls(&self) -> Seq<SqlCall> {
        self.session.calls()
    }

    /// The instants read from the clock so far, oldest first.
    pub closed spec fn times(&self) -> Seq<Timestamp> {
        self.session.times()
    }

    pub fn new(conn: &'a rusqlite::Connection) -> (r: Self)
        ensures
            r.connection() == *conn,
            r.calls() == Seq::<SqlCall>::empty(),
            r.times() == Seq::<Timestamp>::empty(),
    {
        NoteRepository { session: SqlSession::new(conn) }
    }

    /// The stored note with identifier `id`.
    pub fn get(&mut self, id: NoteId) -> (r: Result<Note, StorageError>)
        ensures
            final(self).connection() == old(self).connection(),
            extends(old(self).calls(), final(self).calls()),
            final(self).times() == old(self).times(),
            get_made(id, since(old(self).calls(), final(self).calls()), r),
            r matches Err(e) ==> (e is Sqlite || is_not_found(e, id)),
    {
        let mut params: Vec<SqlValue> = Vec::new();
        params.push(id_value(id));
        let row = self.session.query_row(NOTE_BY_ID_SQL, params.as_slice(), 12);
        let r = note_from_query(id, row);
        proof {
            assert(sql_views(params@) =~= id_params(id));
            assert(query_gives(id, row_answer(row), r));
            let c = self.calls();
            assert(since(old(self).calls(), c) =~= seq![c.last()]);
        }
        r
    }

    /// The rowid of note `id`, if it is stored.
    fn get_rowid(&mut self, id: NoteId) -> (r: Result<Option<i64>, StorageError>)
        ensures
            final(self).connection() == old(self).connection(),
            extends(old(self).calls(), final(self).calls()),
            final(self).times() == old(self).times(),
            rowid_made(id, since(old(self).calls(), final(self).calls()), r),
            r matches Err(e) ==> e is Sqlite,
    {
        let mut params: Vec<SqlValue> = Vec::new();
        params.push(id_value(id));
        let row = self.session.query_row(ROWID_SQL, params.as_slice(), 1);
        proof {
            assert(sql_views(params@) =~= id_params(id));
            let c = self.calls();
            assert(since(old(self).calls(), c) =~= seq![c.last()]);
        }
        match row {
            Ok(Some(cols)) => match read_int(&cols[0]) {
                Ok(i) => Ok(Some(i)),
                Err(e) => Err(e),
            },
            Ok(None) => Ok(None),
            Err(m) => Err(sqlite_error(m)),
        }
    }

    /// Puts a note's title and text in the full-text index under its rowid.
    fn sync_fts(&mut self, rowid: i64, title: &str, content: &str) -> (r: Result<(), StorageError>)
        ensures
            final(self).connection() == old(self).connection(),
            extends(old(self).calls(), final(self).calls()),
            final(self).times() == old(self).times(),
            since(old(self).calls(), final(self).calls()).len() == 1,
            indexes(since(old(self).calls(), final(self).calls())[0], title@, content@),
            since(old(self).calls(), final(self).calls())[0].params[0] == SqlView::Integer(rowid),
            r is Ok <==> changed(since(old(self).calls(), final(self).calls())[0]),
            r matches Err(e) ==> e is Sqlite,
    {
        let mut params: Vec<SqlValue> = Vec::new();
        params.push(SqlValue::Integer(rowid));
        params.push(text_value(title));
        params.push(text_value(content));
        let done = self.session.execute(FTS_UPSERT_SQL, params.as_slice());
        proof {
            let c = self.calls();
            assert(since(old(self).calls(), c) =~= seq![c.last()]);
        }
        match done {
            Ok(_) => Ok(()),
            Err(m) => Err(sqlite_error(m)),
        }
    }

    /// Writes note `n` with `params` by `sql`, indexes its title and text
    /// and reads it back.
    fn store_write(&mut self, sql: &str, n: &Note, params: &[SqlValue]) -> (r: Result<Note, StorageError>)
        ensures
            final(self).connection() == old(self).connection(),
            extends(old(self).calls(), final(self).calls()),
            final(self).times() == old(self).times(),
            write_made(sql@, n@, sql_views(params@), since(old(self).calls(), final(self).calls()), r),
            r matches Err(e) ==> (e is Sqlite || e is NotFound),
    {
        let ghost start = self.calls();
        let done = self.session.execute(sql, params);
        let ghost w = self.calls();
        assert(since(start, w) =~= seq![w.last()]);
        if let Err(m) = done {
            return Err(sqlite_error(m));
        }
        let rowid = self.get_rowid(n.id)?;
        let ghost k = self.calls();
        if let Some(rid) = rowid {
            self.sync_fts(rid, n.title.as_str(), n.content_plaintext.as_str())?;
        }
        let ghost f = self.calls();
        let r = self.get(n.id);
        proof {
            let c = self.calls();
            let cs = since(start, c);
            assert(cs[0] == w.last());
            assert(cs[1] == since(w, k)[0]);
            if rowid is Some {
                assert(cs[2] == since(k, f)[0]);
            }
            assert(cs.last() == since(f, c)[0]);
        }
        r
    }

    /// A new, empty note of a type, in a folder or none, stored with a fresh
    /// identifier, its type's default title and an indexed, empty text.
    pub fn create(&mut self, note_type: NoteType, folder_id: Option<NoteId>) -> (r: Result<
        Note,
        StorageError,
    >)
        ensures
            final(self).connection() == old(self).connection(),
            extends(old(self).calls(), final(self).calls()),
            read_clock_once(old(self).times(), final(self).times()),
            create_made(note_type, folder_id, final(self).times().last(), since(old(self).calls(), final(self).calls()), r),
            r matches Err(e) ==> (e is Sqlite || e is NotFound),
    {
        let ghost start = self.calls();
        let id = new_note_id();
        let (now, stamp) = self.session.now();
        let (n, params) = plan_create(id, note_type, folder_id, now, stamp.as_str());
        let done = self.session.execute(INSERT_NOTE_SQL, params.as_slice());
        let ghost w = self.calls();
        assert(since(start, w) =~= seq![w.last()]);
        if let Err(m) = done {
            return Err(sqlite_error(m));
        }
        let rowid = self.session.last_insert_rowid();
        self.sync_fts(rowid, n.title.as_str(), n.content_plaintext.as_str())?;
        let ghost f = self.calls();
        let r = self.get(id);
        proof {
            let c = self.calls();
            let cs = since(start, c);
            assert(cs[0] == w.last());
            assert(cs[1] == since(w, f)[0]);
            assert(cs.skip(2) =~= since(f, c));
        }
        r
    }

    /// Replaces a markdown note's text and, when one is given, its title.
    pub fn update(&mut self, id: NoteId, new_content: &str, title_override: Option<&str>) -> (r:
        Result<Note, StorageError>)
        ensures
            final(self).connection() == old(self).connection(),
            extends(old(self).calls(), final(self).calls()),
            final(self).times() == old(self).times() || read_clock_once(old(self).times(), final(self).times()),
            since(old(self).calls(), final(self).calls()).len() >= 2 ==> read_clock_once(old(self).times(), final(self).times()),
            edit_made(
                id,
                NoteType::Markdown,
                |e: NoteView, n: NoteView| markdown_edit_ok(e, new_content@, opt_str_view(title_override), n),
                |e: NoteView| blob_editable(e.content_loro_blob),
                final(self).times().last(),
                since(old(self).calls(), final(self).calls()),
                r,
            ),
            r matches Err(e) ==> edit_error(e),
    {
        let ghost start = self.calls();
        let existing = self.get(id)?;
        let ghost g = self.calls();
        let (now, stamp) = self.session.now();
        let (n, params) = plan_markdown_edit(&existing, new_content, title_override, now, stamp.as_str())?;
        let r = self.store_write(UPDATE_CONTENT_SQL, &n, params.as_slice());
        proof {
            let c = self.calls();
            let cs = since(start, c);
            assert(cs[0] == since(start, g)[0]);
            assert(cs.skip(1) =~= since(g, c));
            assert(content_update_row(n@, stamp@) == sql_views(params@));
        }
        r
    }

    /// Appends an item to a list note.
    pub fn list_add_item(&mut self, id: NoteId, item: &str) -> (r: Result<Note, StorageError>)
        ensures
            final(self).connection() == old(self).connection(),
            extends(old(self).calls(), final(self).calls()),
            final(self).times() == old(self).times() || read_clock_once(old(self).times(), final(self).times()),
            since(old(self).calls(), final(self).calls()).len() >= 2 ==> read_clock_once(old(self).times(), final(self).times()),
            edit_made(
                id,
                NoteType::List,
                |e: NoteView, n: NoteView| list_add_ok(e, item@, n),
                |e: NoteView| snapshot_editable(e.content_loro_blob),
                final(self).times().last(),
                since(old(self).calls(), final(self).calls()),
                r,
            ),
            r matches Err(e) ==> edit_error(e),
    {
        let ghost start = self.calls();
        let existing = self.get(id)?;
        let ghost g = self.calls();
        let (now, stamp) = self.session.now();
        let (n, params) = plan_list_add(&existing, item, now, stamp.as_str())?;
        let r = self.store_write(UPDATE_CONTENT_SQL, &n, params.as_slice());
        proof {
            let c = self.calls();
            let cs = since(start, c);
            assert(cs[0] == since(start, g)[0]);
            assert(cs.skip(1) =~= since(g, c));
            assert(content_update_row(n@, stamp@) == sql_views(params@));
        }
        r
    }

    /// Replaces all items of a list note and, when one is given, its title.
    pub fn list_replace_items(
        &mut self,
        id: NoteId,
        new_items: &[String],
        title_override: Option<&str>,
    ) -> (r: Result<Note, StorageError>)
        ensures
            final(self).connection() == old(self).connection(),
            extends(old(self).calls(), final(self).calls()),
            final(self).times() == old(self).times() || read_clock_once(old(self).times(), final(self).times()),
            since(old(self).calls(), final(self).calls()).len() >= 2 ==> read_clock_once(old(self).times(), final(self).times()),
            edit_made(
                id,
                NoteType::List,
                |e: NoteView, n: NoteView| list_replace_ok(
                    e,
                    new_items@.map_values(|s: String| s@),
                    opt_str_view(title_override),
                    n,
                ),
                |e: NoteView| snapshot_editable(e.content_loro_blob),
                final(self).times().last(),
                since(old(self).calls(), final(self).calls()),
                r,
            ),
            r matches Err(e) ==> edit_error(e),
    {
        let ghost start = self.calls();
        let existing = self.get(id)?;
        let ghost g = self.calls();
        let (now, stamp) = self.session.now();
        let (n, params) = plan_list_replace(&existing, new_items, title_override, now, stamp.as_str())?;
        let r = self.store_write(UPDATE_CONTENT_SQL, &n, params.as_slice());
        proof {
            let c = self.calls();
            let cs = since(start, c);
            assert(cs[0] == since(start, g)[0]);
            assert(cs.skip(1) =~= since(g, c));
            assert(content_update_row(n@, stamp@) == sql_views(params@));
        }
        r
    }

    /// Removes the first item equal to `item` from a list note.
    pub fn list_remove_item(&mut self, id: NoteId, item: &str) -> (r: Result<Note, StorageError>)
        ensures
            final(self).connection() == old(self).connection(),
            extends(old(self).calls(), final(self).calls()),
            final(self).times() == old(self).times() || read_clock_once(old(self).times(), final(self).times()),
            since(old(self).calls(), final(self).calls()).len() >= 2 ==> read_clock_once(old(self).times(), final(self).times()),
            edit_made(
                id,
                NoteType::List,
                |e: NoteView, n: NoteView| list_remove_ok(e, item@, n),
                |e: NoteView| snapshot_contents(e.content_loro_blob) is Some && stored_items(e).contains(item@)
                    && snapshot_exports(e.content_loro_blob),
                final(self).times().last(),
                since(old(self).calls(), final(self).calls()),
                r,
            ),
            r matches Err(e) ==> edit_error(e),
    {
        let ghost start = self.calls();
        let existing = self.get(id)?;
        let ghost g = self.calls();
        let (now, stamp) = self.session.now();
        let (n, params) = plan_list_remove(&existing, item, now, stamp.as_str())?;
        let r = self.store_write(UPDATE_CONTENT_SQL, &n, params.as_slice());
        proof {
            let c = self.calls();
            let cs = since(start, c);
            assert(cs[0] == since(start, g)[0]);
            assert(cs.skip(1) =~= since(g, c));
            assert(content_update_row(n@, stamp@) == sql_views(params@));
        }
        r
    }

    /// Marks a note deleted and drops it from the full-text index.
    pub fn soft_delete(&mut self, id: NoteId) -> (r: Result<(), StorageError>)
        ensures
            final(self).connection() == old(self).connection(),
            extends(old(self).calls(), final(self).calls()),
            read_clock_once(old(self).times(), final(self).times()),
            delete_made(id, final(self).times().last(), since(old(self).calls(), final(self).calls()), r),
            r matches Err(e) ==> e is Sqlite,
    {
        let ghost start = self.calls();
        let (_now, stamp) = self.session.now();
        let mut params: Vec<SqlValue> = Vec::new();
        params.push(text_value(stamp.as_str()));
        params.push(text_value(stamp.as_str()));
        params.push(id_value(id));
        let done = self.session.execute(SOFT_DELETE_SQL, params.as_slice());
        let ghost w = self.calls();
        assert(since(start, w) =~= seq![w.last()]);
        assert(sql_views(params@) =~= delete_params(stamp@, id));
        if let Err(m) = done {
            return Err(sqlite_error(m));
        }
        let rowid = self.get_rowid(id)?;
        let ghost k = self.calls();
        if let Some(rid) = rowid {
            let mut p: Vec<SqlValue> = Vec::new();
            p.push(SqlValue::Integer(rid));
            let dropped = self.session.execute(FTS_DELETE_SQL, p.as_slice());
            proof {
                let c = self.calls();
                let cs = since(start, c);
                assert(cs[0] == w.last());
                assert(cs[1] == since(w, k)[0]);
                assert(cs[2] == c.last());
                assert(sql_views(p@) =~= seq![SqlView::Integer(rid)]);
            }
            if let Err(m) = dropped {
                return Err(sqlite_error(m));
            }
        } else {
            proof {
                let cs = since(start, k);
                assert(cs[0] == w.last());
                assert(cs[1] == since(w, k)[0]);
            }
        }
        Ok(())
    }

    /// The notes that are not deleted, in a folder or in any, most recently
    /// changed first.
    pub fn list(&mut self, folder_id: Option<NoteId>) -> (r: Result<Vec<Note>, StorageError>)
        ensures
            final(self).connection() == old(self).connection(),
            extends(old(self).calls(), final(self).calls()),
            final(self).times() == old(self).times(),
            list_made(folder_id, since(old(self).calls(), final(self).calls()), r),
            r matches Err(e) ==> e is Sqlite,
    {
        let mut params: Vec<SqlValue> = Vec::new();
        params.push(opt_id_value(folder_id));
        let rows = self.session.query_rows(LIST_SQL, params.as_slice(), 12);
        let r = notes_from_rows(rows);
        proof {
            assert(sql_views(params@) =~= seq![
                match folder_id {
                    Some(f) => SqlView::Text(uuid_text(f)),
                    None => SqlView::Null,
                },
            ]);
            lemma_rows_give(rows, r);
            let c = self.calls();
            assert(since(old(self).calls(), c) =~= seq![c.last()]);
        }
        r
    }

    /// The notes that are not deleted and whose title or text match a
    /// full-text query, best match first.
    pub fn search(&mut self, query: &str) -> (r: Result<Vec<Note>, StorageError>)
        ensures
            final(self).connection() == old(self).connection(),
            extends(old(self).calls(), final(self).calls()),
            final(self).times() == old(self).times(),
            search_made(query@, since(old(self).calls(), final(self).calls()), r),
            r matches Err(e) ==> e is Sqlite,
    {
        let mut params: Vec<SqlValue> = Vec::new();
        params.push(text_value(query));
        let rows = self.session.query_rows(SEARCH_SQL, params.as_slice(), 12);
        let r = notes_from_rows(rows);
        proof {
            assert(sql_views(params@) =~= seq![SqlView::Text(query@)]);
            lemma_rows_give(rows, r);
            let c = self.calls();
            assert(since(old(self).calls(), c) =~= seq![c.last()]);
        }
        r
    }

    /// Merges state received from another device into note `note_id`,
    /// creating the note when it is not stored yet; a merged note is no
    /// longer deleted.
    pub fn apply_remote_update(&mut self, note_id: NoteId, note_type: NoteType, update_blob: &[u8]) -> (r:
        Result<Note, StorageError>)
        ensures
            final(self).connection() == old(self).connection(),
            extends(old(self).calls(), final(self).calls()),
            final(self).times() == old(self).times() || read_clock_once(old(self).times(), final(self).times()),
            since(old(self).calls(), final(self).calls()).len() >= 2 ==> read_clock_once(old(self).times(), final(self).times()),
            remote_update_made(note_id, note_type, update_blob@, final(self).times().last(), since(old(self).calls(), final(self).calls()), r),
            r matches Err(e) ==> (e is Sqlite || e is Loro || e is NotFound),
    {
        let ghost start = self.calls();
        let looked = self.get(note_id);
        let ghost g = self.calls();
        assert(since(start, g)[0] == g.last());
        let existing = existing_from_lookup(looked)?;
        let (now, stamp) = self.session.now();
        let existing_ref: Option<&Note> = match &existing {
            Some(n) => Some(n),
            None => None,
        };
        let (n, params) = plan_remote_update(existing_ref, note_id, note_type, update_blob, now, stamp.as_str())?;
        let sql = if existing.is_some() {
            MERGED_UPDATE_SQL
        } else {
            MERGED_INSERT_SQL
        };
        let r = self.store_write(sql, &n, params.as_slice());
        proof {
            let c = self.calls();
            let cs = since(start, c);
            assert(cs[0] == g.last());
            assert(cs.skip(1) =~= since(g, c));
            assert(opt_note_view(existing_ref) == found_note(g.last()));
            let w = merged_update_row(n@, stamp@);
            assert(existing_ref is Some ==> w == sql_views(params@));
        }
        r
    }

    /// Applies a deletion received from another device: a note that is not
    /// stored is left so, any other is marked deleted.
    pub fn apply_remote_delete(&mut self, id: NoteId) -> (r: Result<(), StorageError>)
        ensures
            final(self).connection() == old(self).connection(),
            extends(old(self).calls(), final(self).calls()),
            final(self).times() == old(self).times() || read_clock_once(old(self).times(), final(self).times()),
            since(old(self).calls(), final(self).calls()).len() >= 2 ==> read_clock_once(old(self).times(), final(self).times()),
            remote_delete_made(id, final(self).times().last(), since(old(self).calls(), final(self).calls()), r),
            r matches Err(e) ==> e is Sqlite,
    {
        let ghost start = self.calls();
        let looked = self.get(id);
        let ghost g = self.calls();
        match looked {
            Err(StorageError::NotFound { .. }) => {
                assert(since(start, g) =~= seq![g.last()]);
                Ok(())
            },
            _ => {
                let r = self.soft_delete(id);
                proof {
                    let c = self.calls();
                    let cs = since(start, c);
                    assert(cs[0] == g.last());
                    assert(cs.skip(1) =~= since(g, c));
                }
                r
            },
        }
    }
}

} // verus!
