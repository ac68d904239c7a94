//! Content hashing and case folding, from `sha2` and std.
use sha2::Digest;
use vstd::prelude::*;

verus! {

/// The SHA-256 digest of some bytes.
pub uninterp spec fn sha256_spec(data: Seq<u8>) -> Seq<u8>;

/// Hashes bytes with SHA-256.
/// Trusted: `sha2::Sha256::digest`, whose 32-byte output is a function of the
/// input alone.
#[verifier::external_body]
pub(crate) fn sha256(data: &[u8]) -> (r: Vec<u8>)
    ensures
        r@ == sha256_spec(data@),
        r@.len() == 32,
{
    sha2::Sha256::digest(data).to_vec()
}

/// The lowercase form of a text, per Unicode's `Lowercase` mapping.
pub uninterp spec fn lowercase_spec(s: Seq<char>) -> Seq<char>;

/// Lowercases a text.
/// Trusted: `str::to_lowercase`, whose result is a function of the text
/// alone; the lowercase form of the empty text is empty.
#[verifier::external_body]
pub(crate) fn to_lowercase(s: &str) -> (r: String)
    ensures
        r@ == lowercase_spec(s@),
        s@.len() == 0 ==> r@.len() == 0,
{
    s.to_lowercase()
}

} // verus!
