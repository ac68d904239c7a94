//! The errors of the note stores.
use vstd::prelude::*;

use crate::text::{decimal, push_decimal_i64, push_str, to_string};

verus! {

/// Why a store operation failed.
#[derive(Debug)]
pub enum StorageError {
    /// The database reported an error; its message.
    Sqlite(String),
    Migration { version: i64, detail: String },
    /// The CRDT library reported an error; what was being done and its message.
    Loro(String),
    NotFound { id: String },
    WrongNoteType { expected: String, actual: String },
    Parse(String),
    Protocol(String),
}

/// The text that reports an error.
pub open spec fn storage_error_message(e: StorageError) -> Seq<char> {
    match e {
        StorageError::Sqlite(m) => "sqlite error: "@ + m@,
        StorageError::Migration { version, detail } => "migration "@ + decimal(version as int)
            + " failed: "@ + detail@,
        StorageError::Loro(m) => "loro error: "@ + m@,
        StorageError::NotFound { id } => "note "@ + id@ + " not found"@,
        StorageError::WrongNoteType { expected, actual } =>
            "wrong note type for operation: expected "@ + expected@ + ", got "@ + actual@,
        StorageError::Parse(m) => "parse error: "@ + m@,
        StorageError::Protocol(m) => "protocol error: "@ + m@,
    }
}

impl StorageError {
    /// The text that reports the error.
    pub fn message(&self) -> (s: String)
        ensures
            s@ == storage_error_message(*self),
    {
        match self {
            StorageError::Sqlite(m) => {
                let mut s = to_string("sqlite error: ");
                push_str(&mut s, m.as_str());
                s
            },
            StorageError::Migration { version, detail } => {
                let mut s = to_string("migration ");
                push_decimal_i64(&mut s, *version);
                push_str(&mut s, " failed: ");
                push_str(&mut s, detail.as_str());
                s
            },
            StorageError::Loro(m) => {
                let mut s = to_string("loro error: ");
                push_str(&mut s, m.as_str());
                s
            },
            StorageError::NotFound { id } => {
                let mut s = to_string("note ");
                push_str(&mut s, id.as_str());
                push_str(&mut s, " not found");
                s
            },
            StorageError::WrongNoteType { expected, actual } => {
                let mut s = to_string("wrong note type for operation: expected ");
                push_str(&mut s, expected.as_str());
                push_str(&mut s, ", got ");
                push_str(&mut s, actual.as_str());
                s
            },
            StorageError::Parse(m) => {
                let mut s = to_string("parse error: ");
                push_str(&mut s, m.as_str());
                s
            },
            StorageError::Protocol(m) => {
                let mut s = to_string("protocol error: ");
                push_str(&mut s, m.as_str());
                s
            },
        }
    }
}

} // verus!
