//! Vector backend pieces that are plain logic: the distance metrics and the
//! assignment of documents to shards.

use std::collections::hash_map::DefaultHasher;
use std::hash::{Hash, Hasher};
use vstd::std_specs::hash::DefaultHasherAdditionalSpecFns;
use vstd::prelude::*;

verus! {

/// Distance metric for vector similarity.
#[derive(Debug, Clone, Copy, PartialEq, Eq, Structural)]
pub enum Metric {
    Cosine,
    Euclidean,
    DotProduct,
}

/// The writes that `<str as Hash>::hash` makes to a hasher for a string
/// with these characters.
pub uninterp spec fn str_hash_writes(s: Seq<char>) -> Seq<Seq<u8>>;

/// Calls `<str as Hash>::hash` on a `DefaultHasher`. Claimed: it appends
/// the writes named for this string to the hasher's writes.
#[verifier::external_body]
fn hash_str_into(s: &str, hasher: &mut DefaultHasher)
    ensures
        final(hasher)@ == old(hasher)@ + str_hash_writes(s@),
{
    s.hash(hasher)
}

/// What a fresh `DefaultHasher` (SipHash with fixed keys, so the same
/// string gives the same value in every process of one build) finishes
/// with after hashing the string.
pub open spec fn default_str_hash(s: Seq<char>) -> u64 {
    DefaultHasher::spec_finish(Seq::<Seq<u8>>::empty() + str_hash_writes(s))
}

fn hash_str(s: &str) -> (h: u64)
    ensures
        h == default_str_hash(s@),
{
    let mut hasher = DefaultHasher::new();
    hash_str_into(s, &mut hasher);
    hasher.finish()
}

/// The shard of a document: its hash modulo the shard count, as `u32`.
pub open spec fn shard_of(doc_id: Seq<char>, num_shards: usize) -> u32 {
    (default_str_hash(doc_id) % (num_shards as u64)) as u32
}

/// Compute the shard assignment of a document id.
pub fn shard_for_doc(doc_id: &str, num_shards: usize) -> (r: u32)
    requires
        num_shards > 0,
    ensures
        r == shard_of(doc_id@, num_shards),
        r < num_shards,
{
    let h = hash_str(doc_id);
    let n = num_shards as u64;
    let m = h % n;
    assert((m as u32) as u64 <= m) by (bit_vector);
    m as u32
}

} // verus!
