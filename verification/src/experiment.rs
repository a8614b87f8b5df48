//! The measurement harness: synthetic labeled datasets, the two parameter
//! sweeps, and the false-positive accounting they report.

use vstd::prelude::*;
use crate::filter::BloomFilter;
use crate::filter::MembershipResult;
use crate::filter::hash_position;
use crate::filter::lemma_no_false_negatives;
use crate::hash::hash_index;
use crate::hash::lemma_hash_index_in_range;
use crate::seeds::BloomFilterConfig;
use crate::seeds::init;

verus! {

/// The character sequences of a list of keys.
pub open spec fn key_views(keys: Seq<String>) -> Seq<Seq<char>> {
    keys.map_values(|s: String| s@)
}

/// A labeled synthetic dataset: keys inserted into the filter (ground
/// truth positive) and keys withheld from it (ground truth negative).
/// Collisions between the two sets are practically impossible for random
/// keys but are not structurally prevented.
pub struct Dataset {
    pub positives: Vec<String>,
    pub negatives: Vec<String>,
}

/// Relies on `uuid::Uuid::new_v4` and its `Display` form: a freshly drawn
/// random 128-bit token, rendered as its 36-character hyphenated string.
#[verifier::external_body]
fn random_key() -> (r: String)
    ensures
        r@.len() == 36,
{
    uuid::Uuid::new_v4().to_string()
}

/// Generate a labeled dataset of freshly drawn random keys:
/// `num_positive` keys to insert and `num_negative` keys to withhold.
pub fn generate_dataset(num_positive: usize, num_negative: usize) -> (ds: Dataset)
    ensures
        ds.positives@.len() == num_positive,
        ds.negatives@.len() == num_negative,
{
    let mut positives: Vec<String> = Vec::new();
    while positives.len() < num_positive
        invariant
            positives@.len() <= num_positive,
        decreases num_positive - positives@.len(),
    {
        positives.push(random_key());
    }
    let mut negatives: Vec<String> = Vec::new();
    while negatives.len() < num_negative
        invariant
            negatives@.len() <= num_negative,
        decreases num_negative - negatives@.len(),
    {
        negatives.push(random_key());
    }
    Dataset { positives, negatives }
}

/// Whether bit `j` is set after the first `p` of the `positives` have
/// been inserted with `k` hash functions each into a filter of the given
/// modulus: some inserted key hashes to `j`.
pub open spec fn populated_bit_upto(
    positives: Seq<Seq<char>>,
    p: int,
    k: int,
    seeds: Seq<u16>,
    modulus: int,
    j: int,
) -> bool {
    exists|q: int| 0 <= q < p && hash_position(#[trigger] positives[q], k, seeds, modulus, j)
}

/// Whether bit `j` is set in a filter populated with all of `positives`.
pub open spec fn populated_bit(
    positives: Seq<Seq<char>>,
    k: int,
    seeds: Seq<u16>,
    modulus: int,
    j: int,
) -> bool {
    populated_bit_upto(positives, positives.len() as int, k, seeds, modulus, j)
}

/// Whether a query for `key` with `k` hash functions answers "possibly
/// present" on a filter of the given modulus populated with `positives`.
pub open spec fn query_positive(
    positives: Seq<Seq<char>>,
    key: Seq<char>,
    k: int,
    seeds: Seq<u16>,
    modulus: int,
) -> bool {
    forall|i: int|
        0 <= i < k ==> populated_bit(
            positives,
            k,
            seeds,
            modulus,
            hash_index(key, #[trigger] seeds[i], modulus),
        )
}

/// How many of `keys` find all their first `k` hash positions set in the
/// filter `f`.
pub open spec fn fp_count_filter(
    f: BloomFilter,
    keys: Seq<Seq<char>>,
    k: int,
    seeds: Seq<u16>,
) -> int
    decreases keys.len(),
{
    if keys.len() <= 0 {
        0
    } else {
        fp_count_filter(f, keys.drop_last(), k, seeds) + (if f.contains_all(
            keys.last(),
            k,
            seeds,
        ) {
            1int
        } else {
            0int
        })
    }
}

/// How many of `keys` are answered "possibly present" by a filter of the
/// given modulus populated with `positives`.
pub open spec fn fp_count_populated(
    positives: Seq<Seq<char>>,
    keys: Seq<Seq<char>>,
    k: int,
    seeds: Seq<u16>,
    modulus: int,
) -> int
    decreases keys.len(),
{
    if keys.len() <= 0 {
        0
    } else {
        fp_count_populated(positives, keys.drop_last(), k, seeds, modulus) + (if query_positive(
            positives,
            keys.last(),
            k,
            seeds,
            modulus,
        ) {
            1int
        } else {
            0int
        })
    }
}

/// The false-positive count of one sweep point: a filter of `size` bits,
/// populated with the dataset's positives using `k` hash functions,
/// queried with every negative.
pub open spec fn sweep_point_count(ds: Dataset, k: int, seeds: Seq<u16>, size: int) -> int {
    fp_count_populated(
        key_views(ds.positives@),
        key_views(ds.negatives@),
        k,
        seeds,
        size % 0x10000,
    )
}

/// Monotonic no-false-negative growth: on a fixed filter, querying with
/// more hash functions can only lower the number of keys reported
/// present, never raise it — each further hash check is one more chance
/// to find an unset bit.
pub proof fn lemma_fp_count_monotonic(
    f: BloomFilter,
    keys: Seq<Seq<char>>,
    k_small: int,
    k_big: int,
    seeds: Seq<u16>,
)
    requires
        0 <= k_small <= k_big,
    ensures
        fp_count_filter(f, keys, k_big, seeds) <= fp_count_filter(f, keys, k_small, seeds),
    decreases keys.len(),
{
    if keys.len() > 0 {
        lemma_fp_count_monotonic(f, keys.drop_last(), k_small, k_big, seeds);
        if f.contains_all(keys.last(), k_big, seeds) {
            lemma_no_false_negatives(f, keys.last(), k_small, k_big, seeds);
        }
    }
}

/// Inserting one more positive extends the set bits by exactly that key's
/// hash positions.
proof fn lemma_populated_step(
    positives: Seq<Seq<char>>,
    p: int,
    k: int,
    seeds: Seq<u16>,
    modulus: int,
    j: int,
)
    requires
        0 <= p,
    ensures
        populated_bit_upto(positives, p + 1, k, seeds, modulus, j) <==> (populated_bit_upto(
            positives,
            p,
            k,
            seeds,
            modulus,
            j,
        ) || hash_position(positives[p], k, seeds, modulus, j)),
{
    if populated_bit_upto(positives, p + 1, k, seeds, modulus, j) {
        let q = choose|q: int|
            0 <= q < p + 1 && hash_position(#[trigger] positives[q], k, seeds, modulus, j);
        if q < p {
            assert(0 <= q < p && hash_position(positives[q], k, seeds, modulus, j));
            assert(populated_bit_upto(positives, p, k, seeds, modulus, j));
        }
    }
    if populated_bit_upto(positives, p, k, seeds, modulus, j) {
        let q = choose|q: int|
            0 <= q < p && hash_position(#[trigger] positives[q], k, seeds, modulus, j);
        assert(0 <= q < p + 1 && hash_position(positives[q], k, seeds, modulus, j));
        assert(populated_bit_upto(positives, p + 1, k, seeds, modulus, j));
    }
    if hash_position(positives[p], k, seeds, modulus, j) {
        assert(0 <= p < p + 1 && hash_position(positives[p], k, seeds, modulus, j));
        assert(populated_bit_upto(positives, p + 1, k, seeds, modulus, j));
    }
}

/// Populate a filter whose bits are all clear with every key of
/// `positives`, each inserted with the first `num_hash_fns` hash
/// functions: afterwards exactly the positives' hash positions are set.
pub fn populate(
    bloom: &mut BloomFilter,
    positives: &Vec<String>,
    num_hash_fns: usize,
    bloom_filter_config: &BloomFilterConfig,
)
    requires
        old(bloom).wf(),
        num_hash_fns <= bloom_filter_config.seeds().len(),
        forall|j: int| 0 <= j < old(bloom).modulus() ==> !old(bloom).is_set(j),
    ensures
        final(bloom).wf(),
        final(bloom).size == old(bloom).size,
        forall|j: int|
            0 <= j < final(bloom).modulus() ==> (#[trigger] final(bloom).is_set(j)
                <==> populated_bit(
                key_views(positives@),
                num_hash_fns as int,
                bloom_filter_config.seeds(),
                final(bloom).modulus(),
                j,
            )),
{
    let ghost pre = *bloom;
    let ghost views = key_views(positives@);
    let ghost seeds = bloom_filter_config.seeds();
    let mut p: usize = 0;
    while p < positives.len()
        invariant
            bloom.wf(),
            bloom.size == pre.size,
            p <= positives@.len(),
            num_hash_fns <= seeds.len(),
            seeds == bloom_filter_config.seeds(),
            views == key_views(positives@),
            forall|j: int| 0 <= j < pre.modulus() ==> !pre.is_set(j),
            forall|j: int|
                0 <= j < pre.modulus() ==> (#[trigger] bloom.is_set(j) <==> populated_bit_upto(
                    views,
                    p as int,
                    num_hash_fns as int,
                    seeds,
                    pre.modulus(),
                    j,
                )),
        decreases positives@.len() - p,
    {
        let ghost before = *bloom;
        let key: &String = &positives[p];
        bloom.add(key.as_str(), num_hash_fns, bloom_filter_config);
        proof {
            assert(views[p as int] == key@);
            assert forall|j: int|
                0 <= j < pre.modulus() implies (#[trigger] bloom.is_set(j)
                <==> populated_bit_upto(
                views,
                p as int + 1,
                num_hash_fns as int,
                seeds,
                pre.modulus(),
                j,
            )) by {
                lemma_populated_step(views, p as int, num_hash_fns as int, seeds, pre.modulus(), j);
                assert(before.is_set(j) <==> populated_bit_upto(
                    views,
                    p as int,
                    num_hash_fns as int,
                    seeds,
                    pre.modulus(),
                    j,
                ));
                assert(bloom.is_set(j) <==> (before.is_set(j) || hash_position(
                    key@,
                    num_hash_fns as int,
                    seeds,
                    pre.modulus(),
                    j,
                )));
            }
        }
        p = p + 1;
    }
}

/// Query every key of `keys` with the first `num_hash_fns` hash functions
/// and count how many the filter reports "possibly present".
pub fn count_false_positives(
    bloom: &BloomFilter,
    keys: &Vec<String>,
    num_hash_fns: usize,
    bloom_filter_config: &BloomFilterConfig,
) -> (n: usize)
    requires
        bloom.wf(),
        num_hash_fns <= bloom_filter_config.seeds().len(),
    ensures
        n as int == fp_count_filter(
            *bloom,
            key_views(keys@),
            num_hash_fns as int,
            bloom_filter_config.seeds(),
        ),
        n <= keys@.len(),
{
    let ghost views = key_views(keys@);
    let mut n: usize = 0;
    let mut i: usize = 0;
    while i < keys.len()
        invariant
            bloom.wf(),
            num_hash_fns <= bloom_filter_config.seeds().len(),
            i <= keys@.len(),
            n <= i,
            views == key_views(keys@),
            n as int == fp_count_filter(
                *bloom,
                views.take(i as int),
                num_hash_fns as int,
                bloom_filter_config.seeds(),
            ),
        decreases keys@.len() - i,
    {
        let key: &String = &keys[i];
        let r = bloom.query(key.as_str(), num_hash_fns, bloom_filter_config);
        if r == MembershipResult::Present {
            n = n + 1;
        }
        proof {
            assert(views.take(i as int + 1).drop_last() =~= views.take(i as int));
            assert(views.take(i as int + 1).last() == key@);
        }
        i = i + 1;
    }
    proof {
        assert(views.take(keys@.len() as int) =~= views);
    }
    n
}

/// On a filter whose bits are exactly the positives' hash positions, a
/// query agrees with the abstract populated-filter answer.
proof fn lemma_query_matches(
    f: BloomFilter,
    positives: Seq<Seq<char>>,
    key: Seq<char>,
    k: int,
    seeds: Seq<u16>,
)
    requires
        f.wf(),
        forall|j: int|
            0 <= j < f.modulus() ==> (#[trigger] f.is_set(j) <==> populated_bit(
                positives,
                k,
                seeds,
                f.modulus(),
                j,
            )),
    ensures
        f.contains_all(key, k, seeds) <==> query_positive(positives, key, k, seeds, f.modulus()),
{
    assert(f.modulus() > 0) by {
        vstd::arithmetic::div_mod::lemma_mod_bound(f.size as int, 0x10000);
    }
    if f.contains_all(key, k, seeds) {
        assert forall|i: int|
            0 <= i < k implies populated_bit(
            positives,
            k,
            seeds,
            f.modulus(),
            hash_index(key, #[trigger] seeds[i], f.modulus()),
        ) by {
            let j = hash_index(key, seeds[i], f.modulus());
            lemma_hash_index_in_range(key, seeds[i], f.modulus());
            assert(f.is_set(j));
        }
    }
    if query_positive(positives, key, k, seeds, f.modulus()) {
        assert forall|i: int|
            0 <= i < k implies f.is_set(hash_index(key, #[trigger] seeds[i], f.modulus())) by {
            let j = hash_index(key, seeds[i], f.modulus());
            lemma_hash_index_in_range(key, seeds[i], f.modulus());
            assert(populated_bit(positives, k, seeds, f.modulus(), j));
        }
    }
}

/// The runtime count over such a filter equals the abstract count.
proof fn lemma_counts_agree(
    f: BloomFilter,
    positives: Seq<Seq<char>>,
    keys: Seq<Seq<char>>,
    k: int,
    seeds: Seq<u16>,
)
    requires
        f.wf(),
        forall|j: int|
            0 <= j < f.modulus() ==> (#[trigger] f.is_set(j) <==> populated_bit(
                positives,
                k,
                seeds,
                f.modulus(),
                j,
            )),
    ensures
        fp_count_filter(f, keys, k, seeds) == fp_count_populated(
            positives,
            keys,
            k,
            seeds,
            f.modulus(),
        ),
    decreases keys.len(),
{
    if keys.len() > 0 {
        lemma_counts_agree(f, positives, keys.drop_last(), k, seeds);
        lemma_query_matches(f, positives, keys.last(), k, seeds);
    }
}

/// One point of a parameter sweep: build a fresh filter of `size` bits,
/// populate it with the dataset's positives using `num_hash_fns` hash
/// functions, query every negative, and return how many of them the
/// filter wrongly reports present.
pub fn run_sweep_point(
    ds: &Dataset,
    num_hash_fns: usize,
    bloom_filter_config: &BloomFilterConfig,
    size: usize,
) -> (n: usize)
    requires
        0 < size,
        size % 0x10000 != 0,
        num_hash_fns <= bloom_filter_config.seeds().len(),
    ensures
        n as int == sweep_point_count(
            *ds,
            num_hash_fns as int,
            bloom_filter_config.seeds(),
            size as int,
        ),
        n <= ds.negatives@.len(),
{
    let mut bloom = BloomFilter::new(size);
    populate(&mut bloom, &ds.positives, num_hash_fns, bloom_filter_config);
    let n = count_false_positives(&bloom, &ds.negatives, num_hash_fns, bloom_filter_config);
    proof {
        lemma_counts_agree(
            bloom,
            key_views(ds.positives@),
            key_views(ds.negatives@),
            num_hash_fns as int,
            bloom_filter_config.seeds(),
        );
    }
    n
}

/// Sweep the hash-function count at a fixed filter size of 10000 bits:
/// one false-positive count per k, for k from 1 up to two below the seed
/// count. The sweep never exercises the last generated seed; that bound
/// is kept as the experiment defines it.
pub fn sweep_hash_count(bloom_filter_config: &BloomFilterConfig, ds: &Dataset) -> (counts: Vec<
    usize,
>)
    ensures
        counts@.len() == (if bloom_filter_config.seeds().len() >= 2 {
            bloom_filter_config.seeds().len() - 2
        } else {
            0int
        }),
        forall|p: int|
            0 <= p < counts@.len() ==> (#[trigger] counts@[p]) as int == sweep_point_count(
                *ds,
                p + 1,
                bloom_filter_config.seeds(),
                10000,
            ),
        forall|p: int| 0 <= p < counts@.len() ==> (#[trigger] counts@[p]) <= ds.negatives@.len(),
{
    let count = bloom_filter_config.len();
    let mut counts: Vec<usize> = Vec::new();
    let mut k: usize = 1;
    while k + 1 < count
        invariant
            1 <= k,
            count == bloom_filter_config.seeds().len(),
            counts@.len() == k - 1,
            count >= 2 ==> k <= count - 1,
            count < 2 ==> k == 1,
            forall|p: int|
                0 <= p < counts@.len() ==> (#[trigger] counts@[p]) as int == sweep_point_count(
                    *ds,
                    p + 1,
                    bloom_filter_config.seeds(),
                    10000,
                ),
            forall|p: int|
                0 <= p < counts@.len() ==> (#[trigger] counts@[p]) <= ds.negatives@.len(),
        decreases count - k,
    {
        let n = run_sweep_point(ds, k, bloom_filter_config, 10000);
        counts.push(n);
        k = k + 1;
    }
    counts
}

/// Sweep the filter size with a single hash function: one false-positive
/// count per size, for sizes 1000, 1200, and so on up to 9800.
pub fn sweep_filter_size(bloom_filter_config: &BloomFilterConfig, ds: &Dataset) -> (counts: Vec<
    usize,
>)
    requires
        bloom_filter_config.seeds().len() >= 1,
    ensures
        counts@.len() == 45,
        forall|p: int|
            0 <= p < counts@.len() ==> (#[trigger] counts@[p]) as int == sweep_point_count(
                *ds,
                1,
                bloom_filter_config.seeds(),
                1000 + 200 * p,
            ),
        forall|p: int| 0 <= p < counts@.len() ==> (#[trigger] counts@[p]) <= ds.negatives@.len(),
{
    let mut counts: Vec<usize> = Vec::new();
    let mut size: usize = 1000;
    while size < 10000
        invariant
            bloom_filter_config.seeds().len() >= 1,
            1000 <= size <= 10000,
            size as int == 1000 + 200 * counts@.len(),
            forall|p: int|
                0 <= p < counts@.len() ==> (#[trigger] counts@[p]) as int == sweep_point_count(
                    *ds,
                    1,
                    bloom_filter_config.seeds(),
                    1000 + 200 * p,
                ),
            forall|p: int|
                0 <= p < counts@.len() ==> (#[trigger] counts@[p]) <= ds.negatives@.len(),
        decreases 10000 - size,
    {
        proof {
            vstd::arithmetic::div_mod::lemma_small_mod(size as nat, 0x10000);
        }
        let n = run_sweep_point(ds, 1, bloom_filter_config, size);
        counts.push(n);
        size = size + 200;
    }
    counts
}

/// The outcome of one experiment: the false-positive count at each sweep
/// point, in sweep order, and the dataset size that normalizes each count
/// to the reported ratio.
pub struct SweepReport {
    pub counts: Vec<usize>,
    pub dataset_size: usize,
}

/// The hash-count experiment: 100 fresh seeds, 500 positive and 500
/// negative random keys, filter size fixed at 10000 bits; one count per
/// k from 1 to 98. Each reported ratio is its count over the full
/// 1000-key dataset.
pub fn experiment_multiple_hashes() -> (r: SweepReport)
    ensures
        r.counts@.len() == 98,
        r.dataset_size == 1000,
        forall|p: int| 0 <= p < r.counts@.len() ==> #[trigger] r.counts@[p] <= 500,
{
    let bloom_filter_config = init(100);
    let ds = generate_dataset(500, 500);
    let counts = sweep_hash_count(&bloom_filter_config, &ds);
    let dataset_size = ds.positives.len() + ds.negatives.len();
    SweepReport { counts, dataset_size }
}

/// The filter-size experiment: one fresh seed, 500 positive and 500
/// negative random keys, a single hash function; one count per size from
/// 1000 to 9800 in steps of 200. Each reported ratio is its count over
/// the full 1000-key dataset.
pub fn experiment_multiple_sizes() -> (r: SweepReport)
    ensures
        r.counts@.len() == 45,
        r.dataset_size == 1000,
        forall|p: int| 0 <= p < r.counts@.len() ==> #[trigger] r.counts@[p] <= 500,
{
    let bloom_filter_config = init(1);
    let ds = generate_dataset(500, 500);
    let counts = sweep_filter_size(&bloom_filter_config, &ds);
    let dataset_size = ds.positives.len() + ds.negatives.len();
    SweepReport { counts, dataset_size }
}

} // verus!
