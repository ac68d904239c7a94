//! Folders that group notes.
use vstd::prelude::*;

use crate::clock::Timestamp;

verus! {

/// A folder's identifier: the 128-bit value of its UUID.
pub type FolderId = u128;

/// A named folder, with its place among the folders and when it was made.
#[derive(Debug, Clone)]
pub struct Folder {
    pub id: FolderId,
    pub name: String,
    pub sort_order: i64,
    pub created_at: Timestamp,
}

} // verus!
