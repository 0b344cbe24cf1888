//! Shard assignment: from an object's identity to its shard and its label.
//!
//! The shard of an object is the FNV-1a hash of its canonical identity
//! encoding, reduced modulo the number of shards. The label value names the
//! shard and the number of shards, as `index/count` in decimal.

use crate::decimal::{decimal, decimal_int, push_decimal_int};
use crate::hash::{fnv1a, fnv_hash};
use crate::identity::{identity_bytes, identity_encoding, text_of};
use vstd::prelude::*;

verus! {

broadcast use vstd::string::group_string_axioms;

/// The hash that decides an identity's shard.
pub open spec fn identity_hash_of(namespace: Option<Seq<char>>, name: Seq<char>) -> u64 {
    fnv1a(identity_encoding(namespace, name))
}

/// The shard of an identity among `sharding_count` shards.
pub open spec fn shard_of(namespace: Option<Seq<char>>, name: Seq<char>, sharding_count: int) -> int
    recommends
        sharding_count >= 1,
{
    (identity_hash_of(namespace, name) as int) % sharding_count
}

/// The label value for shard `index` of `sharding_count`.
pub open spec fn label_text(index: int, sharding_count: int) -> Seq<char> {
    decimal_int(index) + seq!['/'] + decimal_int(sharding_count)
}

/// The label value an identity must carry under `sharding_count` shards.
pub open spec fn expected_label(
    namespace: Option<Seq<char>>,
    name: Seq<char>,
    sharding_count: int,
) -> Seq<char>
    recommends
        sharding_count >= 1,
{
    label_text(shard_of(namespace, name, sharding_count), sharding_count)
}

/// Hashes the canonical encoding of an identity.
pub fn identity_hash(namespace: Option<&str>, name: &str) -> (hash: u64)
    ensures
        hash == identity_hash_of(text_of(namespace), name@),
{
    let bytes = identity_bytes(namespace, name);
    fnv_hash(bytes.as_slice())
}

/// Computes the shard of an identity.
pub fn shard_index(namespace: Option<&str>, name: &str, sharding_count: i32) -> (index: i32)
    requires
        sharding_count >= 1,
    ensures
        index == shard_of(text_of(namespace), name@, sharding_count as int),
        0 <= index < sharding_count,
{
    let hash = identity_hash(namespace, name);
    let remainder: u64 = hash % (sharding_count as u64);
    remainder as i32
}

/// Renders the label value `index/sharding_count`.
pub fn label_value(index: i32, sharding_count: i32) -> (label: String)
    ensures
        label@ == label_text(index as int, sharding_count as int),
{
    let mut label = String::new();
    push_decimal_int(&mut label, index);
    label.push('/');
    push_decimal_int(&mut label, sharding_count);
    assert(label@ =~= label_text(index as int, sharding_count as int));
    label
}

/// Computes the label value an identity must carry.
pub fn shard_label(namespace: Option<&str>, name: &str, sharding_count: i32) -> (label: String)
    requires
        sharding_count >= 1,
    ensures
        label@ == expected_label(text_of(namespace), name@, sharding_count as int),
{
    label_value(shard_index(namespace, name, sharding_count), sharding_count)
}

/// Every shard lies in `[0, sharding_count)`.
pub proof fn lemma_shard_in_range(
    namespace: Option<Seq<char>>,
    name: Seq<char>,
    sharding_count: int,
)
    requires
        sharding_count >= 1,
    ensures
        0 <= shard_of(namespace, name, sharding_count) < sharding_count,
{
}

/// Any two runs of [`shard_index`] on the same identity and shard count
/// return the same shard.
pub proof fn lemma_shard_index_deterministic(
    namespace: Option<&str>,
    name: &str,
    sharding_count: i32,
    first: i32,
    second: i32,
)
    requires
        sharding_count >= 1,
        call_ensures(shard_index, (namespace, name, sharding_count), first),
        call_ensures(shard_index, (namespace, name, sharding_count), second),
    ensures
        first == second,
{
}

/// With a single shard every identity gets the label `0/1`.
pub proof fn lemma_single_shard(namespace: Option<Seq<char>>, name: Seq<char>)
    ensures
        shard_of(namespace, name, 1) == 0,
        expected_label(namespace, name, 1) == "0/1"@,
{
    reveal_strlit("0/1");
    assert(decimal(0) =~= seq!['0']);
    assert(decimal(1) =~= seq!['1']);
    assert(expected_label(namespace, name, 1) =~= "0/1"@);
}

} // verus!
