//! Keys and entries of the optional result cache.

use vstd::prelude::*;
use std::hash::{Hash, Hasher};
use crate::text::{hex, push_hex};

verus! {

/// A cached conversion result.
#[derive(Debug)]
pub struct CacheResult {
    pub data: Vec<u8>,
    pub content_type: String,
    pub filename: String,
    pub size_kb: u64,
}

/// The 64-bit digest that std's default hasher, created with `new` (fixed
/// keys), gives for a byte slice.
pub uninterp spec fn default_hash_of(data: Seq<u8>) -> u64;

/// Relies on std::collections::hash_map::DefaultHasher::new, `<[u8] as
/// Hash>::hash` and `Hasher::finish`: the digest depends on the bytes alone.
#[verifier::external_body]
fn default_digest(data: &[u8]) -> (r: u64)
    ensures
        r == default_hash_of(data@),
{
    let mut hasher = std::collections::hash_map::DefaultHasher::new();
    data.hash(&mut hasher);
    hasher.finish()
}

/// The cache key of a file's bytes: the default hasher's digest of them in
/// lower-case hexadecimal, without leading zeros.
pub fn calculate_file_hash(data: &[u8]) -> (r: String)
    ensures
        r@ == hex(default_hash_of(data@) as nat),
{
    let digest = default_digest(data);
    hash_text(digest)
}

/// The lower-case hexadecimal text of a digest.
pub fn hash_text(digest: u64) -> (r: String)
    ensures
        r@ == hex(digest as nat),
{
    let mut s = String::new();
    push_hex(&mut s, digest);
    assert(s@ =~= hex(digest as nat));
    s
}

} // verus!
