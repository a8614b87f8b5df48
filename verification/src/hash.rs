//! The seeded hash family: one 32-bit mixing hash, specialized by a seed,
//! reduced to an index in `[0, modulus)`.

use vstd::prelude::*;
use crate::seeds::BloomFilterConfig;

verus! {

/// The 32-bit MurmurHash3 value of a key under a seed. The hash is a pure
/// function of the key's characters and the seed alone; its definition is
/// not restated here, the executable wrapper below ties this name to the
/// outside implementation.
pub uninterp spec fn murmur3_32_of(key: Seq<char>, seed: u32) -> u32;

/// Relies on `murmur3::murmur3_32`: a deterministic 32-bit hash of the
/// key's bytes (hence of its characters) under the given seed. Reading
/// from an in-memory byte slice cannot fail, so the unwrap cannot panic.
#[verifier::external_body]
fn murmur3_32(key: &str, seed: u32) -> (r: u32)
    ensures
        r == murmur3_32_of(key@, seed),
{
    murmur3::murmur3_32(&mut key.as_bytes(), seed).unwrap()
}

/// The index a seed assigns to `key` in a filter of `modulus` bits: the
/// low 16 bits of the 32-bit hash, reduced by remainder. Truncating to 16
/// bits caps usable filter sizes at `u16::MAX` bits; larger moduli alias
/// silently.
pub open spec fn hash_index(key: Seq<char>, seed: u16, modulus: int) -> int {
    ((murmur3_32_of(key, seed as u32) as int) % 0x10000) % modulus
}

/// Bit-index bound: for a positive modulus the produced index always lies
/// in `[0, modulus)`.
pub proof fn lemma_hash_index_in_range(key: Seq<char>, seed: u16, modulus: int)
    requires
        modulus > 0,
    ensures
        0 <= hash_index(key, seed, modulus) < modulus,
{
}

/// Compute the index the `hash_fn_idx`-th hash function of the pool
/// assigns to `key` in a filter of `size` bits. Deterministic: the result
/// equals `hash_index` of the arguments, so identical `(key, seed, size)`
/// always yield the identical index.
pub fn murmurhash(
    key: &str,
    size: u16,
    hash_fn_idx: usize,
    bloom_filter_config: &BloomFilterConfig,
) -> (idx: u16)
    requires
        size > 0,
        hash_fn_idx < bloom_filter_config.seeds().len(),
    ensures
        idx as int == hash_index(
            key@,
            bloom_filter_config.seeds()[hash_fn_idx as int],
            size as int,
        ),
        idx < size,
{
    let seed = bloom_filter_config.hash_fns_seed[hash_fn_idx];
    let hashed_val = murmur3_32(key, seed as u32);
    let low: u16 = (hashed_val % 0x10000) as u16;
    low % size
}

} // verus!
