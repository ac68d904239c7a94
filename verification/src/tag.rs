//! Tags that label notes.
use vstd::prelude::*;

verus! {

/// A tag's identifier: the 128-bit value of its UUID.
pub type TagId = u128;

/// A named tag, with an optional display colour.
#[derive(Debug, Clone)]
pub struct Tag {
    pub id: TagId,
    pub name: String,
    pub color: Option<String>,
}

} // verus!
