//! The Bloom filter: a fixed-size bit array packed into bytes, with
//! insertion and membership queries through the seeded hash family.

use vstd::prelude::*;
use crate::hash::hash_index;
use crate::hash::murmurhash;
use crate::seeds::BloomFilterConfig;

verus! {

/// Whether bit `off` of byte `b` is set.
pub open spec fn byte_bit(b: u8, off: u8) -> bool
    recommends
        off < 8,
{
    b & (1u8 << off) != 0
}

/// Whether `j` is among the first `k` hash positions of `key`: some hash
/// function with index below `k` sends `key` to bit `j`.
pub open spec fn hash_position(
    key: Seq<char>,
    k: int,
    seeds: Seq<u16>,
    modulus: int,
    j: int,
) -> bool {
    exists|i: int| 0 <= i < k && j == hash_index(key, #[trigger] seeds[i], modulus)
}

/// The answer of a membership query: either every probed bit was set (the
/// key is a member or a false positive), or the probe stopped at the first
/// unset bit and reports which hash function found it — a definitive
/// non-membership certificate.
#[derive(Clone, Copy, Debug, PartialEq, Eq, Structural)]
pub enum MembershipResult {
    Present,
    AbsentAt(usize),
}

/// A bit array of `size` addressable positions, packed into
/// `ceil(size / 8)` bytes. Bits are only ever set, never cleared.
pub struct BloomFilter {
    pub filter: Vec<u8>,
    pub size: usize,
}

impl BloomFilter {
    /// The number of addressable bit positions the filter was declared
    /// with.
    pub open spec fn spec_size(self) -> int {
        self.size as int
    }

    /// The effective modulus of the hash family: hashing truncates to 16
    /// bits before reduction, so a filter of more than `u16::MAX` bits
    /// only ever addresses `size % 0x10000` positions.
    pub open spec fn modulus(self) -> int {
        self.size as int % 0x10000
    }

    /// Well-formed: a positive size whose effective modulus is nonzero,
    /// and exactly `ceil(size / 8)` bytes of storage.
    pub open spec fn wf(self) -> bool {
        &&& self.size > 0
        &&& self.size as int % 0x10000 != 0
        &&& self.filter@.len() == (self.size - 1) as int / 8 + 1
    }

    /// Whether bit position `j` is set: bit `j % 8` of byte `j / 8`.
    pub open spec fn is_set(self, j: int) -> bool
        recommends
            0 <= j < self.modulus(),
    {
        byte_bit(self.filter@[j / 8], (j % 8) as u8)
    }

    /// All of the first `k` hash positions of `key` are set in the filter.
    pub open spec fn contains_all(self, key: Seq<char>, k: int, seeds: Seq<u16>) -> bool {
        forall|i: int|
            0 <= i < k ==> self.is_set(hash_index(key, #[trigger] seeds[i], self.modulus()))
    }

    /// A fresh filter of `size` bits, every bit clear.
    pub fn new(size: usize) -> (f: Self)
        requires
            0 < size,
            size % 0x10000 != 0,
        ensures
            f.wf(),
            f.spec_size() == size,
            forall|j: int| 0 <= j < f.modulus() ==> !f.is_set(j),
    {
        let num_bytes: usize = (size - 1) / 8 + 1;
        let mut filter: Vec<u8> = Vec::new();
        while filter.len() < num_bytes
            invariant
                filter@.len() <= num_bytes,
                forall|b: int| 0 <= b < filter@.len() ==> filter@[b] == 0u8,
            decreases num_bytes - filter@.len(),
        {
            filter.push(0u8);
        }
        let f = BloomFilter { filter, size };
        proof {
            assert(forall|off: u8| 0u8 & (1u8 << off) == 0u8) by (bit_vector);
            assert forall|j: int| 0 <= j < f.modulus() implies !f.is_set(j) by {
                lemma_bit_position(j, size as int);
            }
        }
        f
    }

    /// Set bit `idx`: byte `idx / 8` gains bit `idx % 8` by bitwise OR,
    /// and no other bit of any byte changes.
    pub fn set_bit(&mut self, idx: u16)
        requires
            old(self).wf(),
            idx < old(self).modulus(),
        ensures
            final(self).wf(),
            final(self).size == old(self).size,
            final(self).filter@ == old(self).filter@.update(
                idx as int / 8,
                (old(self).filter@[idx as int / 8] | (1u8 << ((idx as int % 8) as u8))),
            ),
            forall|j: int|
                0 <= j < old(self).modulus() ==> (final(self).is_set(j) <==> (old(self).is_set(j)
                    || j == idx)),
    {
        proof {
            lemma_bit_position(idx as int, self.size as int);
        }
        let a_idx: usize = (idx / 8) as usize;
        let b_idx: u8 = (idx % 8) as u8;
        let b = self.filter[a_idx];
        self.filter.set(a_idx, b | (1u8 << b_idx));
        proof {
            let pre = old(self);
            assert forall|j: int|
                0 <= j < pre.modulus() implies (self.is_set(j) <==> (pre.is_set(j)
                || j == idx)) by {
                lemma_bit_position(j, pre.size as int);
                let o2: u8 = (j % 8) as u8;
                if j / 8 == idx as int / 8 {
                    lemma_or_bit(b, b_idx, o2);
                    vstd::arithmetic::div_mod::lemma_fundamental_div_mod(j, 8);
                    vstd::arithmetic::div_mod::lemma_fundamental_div_mod(idx as int, 8);
                } else {
                    assert(self.filter@[j / 8] == pre.filter@[j / 8]);
                }
            }
        }
    }

    /// Insert `key` using the first `num_hash_fns` hash functions of the
    /// pool. Purely additive: afterwards a bit is set exactly when it was
    /// set before or is one of the key's first `num_hash_fns` hash
    /// positions.
    pub fn add(&mut self, key: &str, num_hash_fns: usize, bloom_filter_config: &BloomFilterConfig)
        requires
            old(self).wf(),
            num_hash_fns <= bloom_filter_config.seeds().len(),
        ensures
            final(self).wf(),
            final(self).size == old(self).size,
            forall|j: int|
                0 <= j < old(self).modulus() ==> (final(self).is_set(j) <==> (old(self).is_set(j)
                    || hash_position(
                    key@,
                    num_hash_fns as int,
                    bloom_filter_config.seeds(),
                    old(self).modulus(),
                    j,
                ))),
            final(self).contains_all(
                key@,
                num_hash_fns as int,
                bloom_filter_config.seeds(),
            ),
    {
        let ghost pre = *self;
        let ghost seeds = bloom_filter_config.seeds();
        let m: u16 = (self.size % 0x10000) as u16;
        let mut i: usize = 0;
        while i < num_hash_fns
            invariant
                self.wf(),
                self.size == pre.size,
                i <= num_hash_fns,
                num_hash_fns <= seeds.len(),
                seeds == bloom_filter_config.seeds(),
                m as int == pre.modulus(),
                m > 0,
                forall|j: int|
                    0 <= j < pre.modulus() ==> (#[trigger] self.is_set(j) <==> (pre.is_set(j)
                        || hash_position(key@, i as int, seeds, pre.modulus(), j))),
            decreases num_hash_fns - i,
        {
            let ghost before = *self;
            let idx = murmurhash(key, m, i, bloom_filter_config);
            self.set_bit(idx);
            proof {
                assert forall|j: int|
                    0 <= j < pre.modulus() implies (#[trigger] self.is_set(j) <==> (pre.is_set(j)
                    || hash_position(key@, i as int + 1, seeds, pre.modulus(), j))) by {
                    lemma_hash_position_step(key@, i as int, seeds, pre.modulus(), j);
                    assert(before.is_set(j) <==> (pre.is_set(j) || hash_position(
                        key@,
                        i as int,
                        seeds,
                        pre.modulus(),
                        j,
                    )));
                    assert(self.is_set(j) <==> (before.is_set(j) || j == idx as int));
                    assert(idx as int == hash_index(key@, seeds[i as int], pre.modulus()));
                }
            }
            i = i + 1;
        }
        proof {
            assert forall|t: int|
                0 <= t < num_hash_fns implies self.is_set(
                hash_index(key@, #[trigger] seeds[t], self.modulus()),
            ) by {
                let j = hash_index(key@, seeds[t], pre.modulus());
                crate::hash::lemma_hash_index_in_range(key@, seeds[t], pre.modulus());
                assert(0 <= t < num_hash_fns as int && j == hash_index(key@, seeds[t], pre.modulus()));
                assert(hash_position(key@, num_hash_fns as int, seeds, pre.modulus(), j));
                assert(self.is_set(j) <==> (pre.is_set(j) || hash_position(
                    key@,
                    num_hash_fns as int,
                    seeds,
                    pre.modulus(),
                    j,
                )));
            }
        }
    }

    /// Query `key` with the first `num_hash_fns` hash functions, in
    /// order. The probe stops at the first unset bit and reports its hash
    /// index; if every probed bit is set the key is possibly present.
    pub fn query(
        &self,
        key: &str,
        num_hash_fns: usize,
        bloom_filter_config: &BloomFilterConfig,
    ) -> (r: MembershipResult)
        requires
            self.wf(),
            num_hash_fns <= bloom_filter_config.seeds().len(),
        ensures
            (r == MembershipResult::Present) <==> self.contains_all(
                key@,
                num_hash_fns as int,
                bloom_filter_config.seeds(),
            ),
            (r matches MembershipResult::AbsentAt(i) ==> {
                &&& (i as int) < num_hash_fns
                &&& !self.is_set(
                    hash_index(key@, bloom_filter_config.seeds()[i as int], self.modulus()),
                )
                &&& forall|j: int|
                    0 <= j < i as int ==> self.is_set(
                        hash_index(key@, #[trigger] bloom_filter_config.seeds()[j], self.modulus()),
                    )
            }),
    {
        let ghost seeds = bloom_filter_config.seeds();
        let m: u16 = (self.size % 0x10000) as u16;
        let mut i: usize = 0;
        while i < num_hash_fns
            invariant
                self.wf(),
                i <= num_hash_fns,
                num_hash_fns <= seeds.len(),
                seeds == bloom_filter_config.seeds(),
                m as int == self.modulus(),
                m > 0,
                forall|j: int|
                    0 <= j < i ==> self.is_set(
                        hash_index(key@, #[trigger] seeds[j], self.modulus()),
                    ),
            decreases num_hash_fns - i,
        {
            let idx = murmurhash(key, m, i, bloom_filter_config);
            proof {
                lemma_bit_position(idx as int, self.size as int);
            }
            let a_idx: usize = (idx / 8) as usize;
            let b_idx: u8 = (idx % 8) as u8;
            let hit = self.filter[a_idx] & (1u8 << b_idx) != 0;
            if !hit {
                return MembershipResult::AbsentAt(i);
            }
            i = i + 1;
        }
        MembershipResult::Present
    }

    /// The raw byte array, exposed for diagnostics.
    pub fn bytes(&self) -> (b: &Vec<u8>)
        ensures
            b@ == self.filter@,
    {
        &self.filter
    }
}

/// No false negatives, stated over the filter's bits: whenever all of the
/// first `k_big` hash positions of a key are set — as they are after the
/// key was added with `k_big` hash functions — every query that probes
/// `k_small <= k_big` of them finds only set bits and must answer
/// "possibly present".
pub proof fn lemma_no_false_negatives(
    f: BloomFilter,
    key: Seq<char>,
    k_small: int,
    k_big: int,
    seeds: Seq<u16>,
)
    requires
        0 <= k_small <= k_big,
        f.contains_all(key, k_big, seeds),
    ensures
        f.contains_all(key, k_small, seeds),
{
}

/// Bits are only ever set, never cleared: a filter whose set bits
/// include those of `pre` — as after any further insertion — still
/// answers "possibly present" for every key `pre` did.
pub proof fn lemma_contains_all_preserved(
    pre: BloomFilter,
    post: BloomFilter,
    key: Seq<char>,
    k: int,
    seeds: Seq<u16>,
)
    requires
        pre.wf(),
        pre.modulus() == post.modulus(),
        forall|j: int| 0 <= j < pre.modulus() ==> (#[trigger] pre.is_set(j) ==> post.is_set(j)),
        pre.contains_all(key, k, seeds),
    ensures
        post.contains_all(key, k, seeds),
{
    assert(pre.modulus() > 0) by {
        vstd::arithmetic::div_mod::lemma_mod_bound(pre.size as int, 0x10000);
    }
    assert forall|i: int|
        0 <= i < k implies post.is_set(hash_index(key, #[trigger] seeds[i], post.modulus())) by {
        crate::hash::lemma_hash_index_in_range(key, seeds[i], pre.modulus());
        assert(pre.is_set(hash_index(key, seeds[i], pre.modulus())));
    }
}

/// Extending the probe by one hash function extends the reachable bit
/// positions by exactly that function's index.
proof fn lemma_hash_position_step(key: Seq<char>, i: int, seeds: Seq<u16>, modulus: int, j: int)
    requires
        0 <= i,
    ensures
        hash_position(key, i + 1, seeds, modulus, j) <==> (hash_position(key, i, seeds, modulus, j)
            || j == hash_index(key, seeds[i], modulus)),
{
    if hash_position(key, i + 1, seeds, modulus, j) {
        let t = choose|t: int| 0 <= t < i + 1 && j == hash_index(key, #[trigger] seeds[t], modulus);
        if t < i {
            assert(0 <= t < i && j == hash_index(key, seeds[t], modulus));
            assert(hash_position(key, i, seeds, modulus, j));
        }
    }
    if hash_position(key, i, seeds, modulus, j) {
        let t = choose|t: int| 0 <= t < i && j == hash_index(key, #[trigger] seeds[t], modulus);
        assert(0 <= t < i + 1 && j == hash_index(key, seeds[t], modulus));
        assert(hash_position(key, i + 1, seeds, modulus, j));
    }
    if j == hash_index(key, seeds[i], modulus) {
        assert(0 <= i < i + 1 && j == hash_index(key, seeds[i], modulus));
        assert(hash_position(key, i + 1, seeds, modulus, j));
    }
}

/// For a bit position `j` of a filter of `size` bits, the byte index
/// `j / 8` lies inside the `ceil(size / 8)` bytes of storage, and the bit
/// offset `j % 8` inside the byte.
proof fn lemma_bit_position(j: int, size: int)
    requires
        0 < size,
        0 <= j < size % 0x10000,
    ensures
        0 <= j / 8 <= (size - 1) / 8,
        0 <= j % 8 < 8,
{
    vstd::arithmetic::div_mod::lemma_mod_bound(size, 0x10000);
    assert(size % 0x10000 <= size) by {
        if size < 0x10000 {
            vstd::arithmetic::div_mod::lemma_small_mod(size as nat, 0x10000);
        }
    }
    vstd::arithmetic::div_mod::lemma_div_is_ordered(j, size - 1, 8);
    vstd::arithmetic::div_mod::lemma_div_pos_is_pos(j, 8);
    vstd::arithmetic::div_mod::lemma_mod_bound(j, 8);
}

/// OR-ing one bit into a byte sets exactly that bit.
proof fn lemma_or_bit(b: u8, o1: u8, o2: u8)
    by (bit_vector)
    requires
        o1 < 8,
        o2 < 8,
    ensures
        byte_bit(b | (1u8 << o1), o2) <==> (byte_bit(b, o2) || o1 == o2),
{
}

} // verus!
