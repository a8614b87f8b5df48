//! The seed pool that specializes the hash family: an ordered sequence of
//! 16-bit seeds, each drawn from a range that excludes very small values.

use vstd::prelude::*;

verus! {

/// Seeds below this value are excluded when drawing a pool: very small
/// seeds give degenerate hash mixing.
pub const MIN_SEED: u16 = 100;

/// An ordered pool of hash seeds; the i-th seed names the i-th hash
/// function of the family. The pool is immutable after construction.
pub struct BloomFilterConfig {
    pub hash_fns_seed: Vec<u16>,
}

impl BloomFilterConfig {
    pub fn new(hash_fns_seed: Vec<u16>) -> (cfg: Self)
        ensures
            cfg.hash_fns_seed@ == hash_fns_seed@,
    {
        BloomFilterConfig { hash_fns_seed }
    }

    /// The pool as a mathematical sequence.
    pub open spec fn seeds(self) -> Seq<u16> {
        self.hash_fns_seed@
    }

    /// Every seed lies in `[MIN_SEED, u16::MAX)`.
    pub open spec fn wf(self) -> bool {
        forall|i: int|
            0 <= i < self.seeds().len() ==> MIN_SEED <= #[trigger] self.seeds()[i]
                < u16::MAX
    }

    /// The number of seeds, hence of hash functions available.
    pub fn len(&self) -> (n: usize)
        ensures
            n == self.seeds().len(),
    {
        self.hash_fns_seed.len()
    }
}

/// Relies on `rand::random_range` over the thread-local generator: it
/// returns a uniformly drawn value in `[lo, hi)`, and panics only on an
/// empty range, which the precondition excludes.
#[verifier::external_body]
fn random_seed_in(lo: u16, hi: u16) -> (r: u16)
    requires
        lo < hi,
    ensures
        lo <= r < hi,
{
    rand::random_range(lo..hi)
}

/// Draw a fresh pool of `num_hash_functions` seeds, each independently
/// uniform over `[MIN_SEED, u16::MAX)`. Duplicates are possible and are
/// not treated as an error.
pub fn init(num_hash_functions: u8) -> (cfg: BloomFilterConfig)
    ensures
        cfg.seeds().len() == num_hash_functions as int,
        cfg.wf(),
{
    let mut hash_fns_seed: Vec<u16> = Vec::new();
    let mut i: u8 = 0;
    while i < num_hash_functions
        invariant
            i <= num_hash_functions,
            hash_fns_seed@.len() == i as int,
            forall|j: int|
                0 <= j < hash_fns_seed@.len() ==> MIN_SEED <= #[trigger] hash_fns_seed@[j]
                    < u16::MAX,
        decreases num_hash_functions - i,
    {
        let seed = random_seed_in(MIN_SEED, u16::MAX);
        hash_fns_seed.push(seed);
        i = i + 1;
    }
    BloomFilterConfig::new(hash_fns_seed)
}

} // verus!
