# no_nonsense_notes_core

The shared core of No Nonsense Notes — markdown notes and checklists kept as
Loro CRDT documents, stored in memory (web) or in SQLite (native), and synced
with a server over a small binary/text protocol — written in Verus. The
note edits, the in-memory store, the sync protocol and the decoding and
encoding of database rows have their behaviour stated in `requires`/`ensures`
contracts and proved. The SQLite store keeps a record of every statement it
hands to the database (its text, the values bound to it and the answer), and
its contracts say which statements each operation runs, in order, with which
values, and what it gives for whatever the database answers.

## Layout

- `src/` — the verified library.
  - `note.rs`, `text.rs`, `id.rs`, `clock.rs`, `digest.rs`, `doc.rs`: notes,
    titles and text helpers; identifiers (`uuid`), instants (`chrono`),
    hashing (`sha2`) and CRDT documents (`loro`) behind small trusted
    wrappers whose contracts name what the outside crate computes.
  - `storage/edit.rs`: how each edit turns a note into its next state.
  - `storage/memory.rs`: the in-memory store, its listing and search.
  - `storage/migrations.rs`, `storage/sqlite.rs`, `storage/note_repo.rs`,
    `storage/native.rs`: the SQLite schema, the statements the native store
    runs, the decoding of rows, and the push queue and pull cursor.
  - `sync/protocol/*`: sync blobs, push frames and pull responses.
  - `sync/client.rs`, `records.rs`: the sync client's back-off and the records
    of the mobile binding.
- `app/` — ordinary Rust around the library: the UniFFI binding, the
  WebSocket sync thread, and the build-time generator of the migration table.
- `tests/` — tests of the library, run against the real outside crates.
