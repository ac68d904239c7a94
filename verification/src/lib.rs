//! Notes, checklists and the byte-level sync protocol of No Nonsense Notes,
//! with their contracts proved by Verus.

pub mod clock;
pub mod digest;
pub mod doc;
pub mod error;
pub mod folder;
pub mod id;
pub mod note;
pub mod records;
pub mod storage;
pub mod text;
pub mod sync;
pub mod tag;

pub use error::StorageError;
