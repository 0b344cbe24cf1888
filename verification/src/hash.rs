//! The 64-bit FNV-1a hash, as computed by the `fnv` crate.

use std::hash::Hasher;
use vstd::prelude::*;

verus! {

/// State of a hasher that has seen no byte yet.
pub const FNV_OFFSET_BASIS: u64 = 0xcbf2_9ce4_8422_2325;

/// Multiplier applied after each byte.
pub const FNV_PRIME: u64 = 0x0000_0100_0000_01b3;

/// The hasher state after one more byte: the byte is xor-ed into the low
/// bits, then the state is multiplied by the prime, wrapping at 64 bits.
pub open spec fn fnv1a_step(state: u64, byte: u8) -> u64 {
    (state ^ (byte as u64)).wrapping_mul(FNV_PRIME)
}

/// FNV-1a of `bytes`, folded from the offset basis, first byte first.
pub open spec fn fnv1a(bytes: Seq<u8>) -> u64
    decreases bytes.len(),
{
    if bytes.len() == 0 {
        FNV_OFFSET_BASIS
    } else {
        fnv1a_step(fnv1a(bytes.drop_last()), bytes.last())
    }
}

/// Runs `fnv::FnvHasher` over `bytes`: a hasher from `FnvHasher::default`
/// is fed the whole slice by `Hasher::write`, and `Hasher::finish` reads its
/// state. Trusted: the result is claimed to be FNV-1a of the bytes as
/// [`fnv1a`] spells it out, which is the loop in the crate's `write`.
#[verifier::external_body]
pub(crate) fn fnv_hash(bytes: &[u8]) -> (hash: u64)
    ensures
        hash == fnv1a(bytes@),
{
    let mut hasher = fnv::FnvHasher::default();
    hasher.write(bytes);
    hasher.finish()
}

} // verus!
