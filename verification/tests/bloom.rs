use bloom_filter_experiments::experiment::count_false_positives;
use bloom_filter_experiments::experiment::experiment_multiple_hashes;
use bloom_filter_experiments::experiment::experiment_multiple_sizes;
use bloom_filter_experiments::experiment::generate_dataset;
use bloom_filter_experiments::experiment::populate;
use bloom_filter_experiments::experiment::run_sweep_point;
use bloom_filter_experiments::filter::BloomFilter;
use bloom_filter_experiments::filter::MembershipResult;
use bloom_filter_experiments::hash::murmurhash;
use bloom_filter_experiments::seeds::init;
use bloom_filter_experiments::seeds::BloomFilterConfig;

fn config_of(seeds: Vec<u16>) -> BloomFilterConfig {
    BloomFilterConfig::new(seeds)
}

#[test]
fn hash_is_deterministic() {
    let cfg = config_of(vec![500, 1000]);
    let a = murmurhash("alpha", 10000, 0, &cfg);
    let b = murmurhash("alpha", 10000, 0, &cfg);
    assert_eq!(a, b);
    let cfg2 = config_of(vec![500]);
    let c = murmurhash("alpha", 10000, 0, &cfg2);
    assert_eq!(a, c);
}

#[test]
fn hash_depends_on_key_and_seed() {
    let cfg = config_of(vec![500, 1000]);
    let a = murmurhash("alpha", 65535, 0, &cfg);
    let b = murmurhash("beta", 65535, 0, &cfg);
    assert_ne!(a, b);
    let c = murmurhash("alpha", 65535, 1, &cfg);
    assert_ne!(a, c);
}

#[test]
fn hash_index_within_modulus() {
    let cfg = config_of(vec![100, 500, 60000]);
    for &size in &[1u16, 2, 7, 8, 9, 255, 10000, 65535] {
        for i in 0..3 {
            let idx = murmurhash("some-key", size, i, &cfg);
            assert!(idx < size);
            let again = murmurhash("some-key", size, i, &cfg);
            assert_eq!(idx, again);
        }
    }
    let cfg_one = config_of(vec![4242]);
    let idx = murmurhash("anything", 1, 0, &cfg_one);
    assert_eq!(idx, 0);
}

#[test]
fn new_filter_is_all_zero() {
    let f = BloomFilter::new(10000);
    assert_eq!(f.bytes().len(), 1250);
    assert!(f.bytes().iter().all(|&b| b == 0));
    let g = BloomFilter::new(8);
    assert_eq!(g.bytes().len(), 1);
    let h = BloomFilter::new(9);
    assert_eq!(h.bytes().len(), 2);
}

#[test]
fn bit_addressing_at_byte_boundary() {
    let mut f = BloomFilter::new(16);
    f.set_bit(7);
    assert_eq!(f.bytes(), &vec![0b1000_0000u8, 0]);
    f.set_bit(8);
    assert_eq!(f.bytes(), &vec![0b1000_0000u8, 0b0000_0001]);
    f.set_bit(7);
    assert_eq!(f.bytes(), &vec![0b1000_0000u8, 0b0000_0001]);
    f.set_bit(0);
    assert_eq!(f.bytes(), &vec![0b1000_0001u8, 0b0000_0001]);
}

#[test]
fn no_false_negatives_for_fewer_hashes() {
    let cfg = config_of(vec![101, 5000, 60000]);
    let mut f = BloomFilter::new(10000);
    f.add("alpha", 3, &cfg);
    f.add("beta", 3, &cfg);
    for k in 0..4usize {
        assert_eq!(f.query("alpha", k, &cfg), MembershipResult::Present);
        assert_eq!(f.query("beta", k, &cfg), MembershipResult::Present);
    }
}

#[test]
fn query_on_empty_filter_fails_at_first_hash() {
    let cfg = config_of(vec![101, 5000, 60000]);
    let f = BloomFilter::new(10000);
    assert_eq!(f.query("alpha", 3, &cfg), MembershipResult::AbsentAt(0));
    assert_eq!(f.query("alpha", 0, &cfg), MembershipResult::Present);
}

#[test]
fn absent_certificate_index_is_in_range() {
    let cfg = config_of(vec![101, 5000, 60000]);
    let mut f = BloomFilter::new(10000);
    f.add("alpha", 1, &cfg);
    match f.query("omega", 3, &cfg) {
        MembershipResult::Present => {}
        MembershipResult::AbsentAt(i) => assert!(i < 3),
    }
}

#[test]
fn scenario_small_filter_and_low_false_positive_rate() {
    let cfg = config_of(vec![101, 5000, 60000]);
    let mut f = BloomFilter::new(10000);
    f.add("alpha", 3, &cfg);
    f.add("beta", 3, &cfg);
    assert_eq!(f.query("alpha", 3, &cfg), MembershipResult::Present);
    assert!(f.query("gamma-not-inserted", 3, &cfg) != MembershipResult::Present);
    let ds = generate_dataset(0, 1000);
    let false_positives = count_false_positives(&f, &ds.negatives, 3, &cfg);
    let rate = false_positives as f64 / 1000.0;
    assert!(rate < 0.05);
}

#[test]
fn scenario_one_byte_filter_sets_top_bit() {
    let cfg = config_of(vec![12345]);
    let mut key = None;
    for i in 0..100000u32 {
        let candidate = format!("key{}", i);
        if murmurhash(candidate.as_str(), 8, 0, &cfg) == 7 {
            key = Some(candidate);
            break;
        }
    }
    let key = match key {
        Some(k) => k,
        None => panic!("no candidate key hashed to index 7"),
    };
    let mut f = BloomFilter::new(8);
    f.add(key.as_str(), 1, &cfg);
    assert_eq!(f.bytes(), &vec![0b1000_0000u8]);
    assert_eq!(f.query(key.as_str(), 1, &cfg), MembershipResult::Present);
}

#[test]
fn monotonic_false_positive_counts_in_hash_count() {
    let cfg = init(5);
    let ds = generate_dataset(500, 500);
    let mut f = BloomFilter::new(2000);
    populate(&mut f, &ds.positives, 5, &cfg);
    let mut previous = usize::MAX;
    for k in 1..6usize {
        let n = count_false_positives(&f, &ds.negatives, k, &cfg);
        assert!(n <= previous);
        previous = n;
    }
    assert_eq!(count_false_positives(&f, &ds.positives, 5, &cfg), 500);
}

#[test]
fn sweep_point_counts_only_negatives() {
    let cfg = config_of(vec![101, 5000, 60000]);
    let ds = generate_dataset(20, 0);
    let n = run_sweep_point(&ds, 3, &cfg, 10000);
    assert_eq!(n, 0);
}

#[test]
fn scenario_filter_size_sweep_reports_45_ratios() {
    let report = experiment_multiple_sizes();
    assert_eq!(report.counts.len(), 45);
    assert_eq!(report.dataset_size, 1000);
    for &c in &report.counts {
        let ratio = c as f64 / report.dataset_size as f64;
        assert!((0.0..=1.0).contains(&ratio));
    }
}

#[test]
fn scenario_hash_count_sweep_reports_98_ratios() {
    let report = experiment_multiple_hashes();
    assert_eq!(report.counts.len(), 98);
    assert_eq!(report.dataset_size, 1000);
    for &c in &report.counts {
        let ratio = c as f64 / report.dataset_size as f64;
        assert!((0.0..=1.0).contains(&ratio));
    }
}

#[test]
fn generated_seeds_lie_in_the_documented_range() {
    let cfg = init(100);
    assert_eq!(cfg.hash_fns_seed.len(), 100);
    for &s in &cfg.hash_fns_seed {
        assert!((100..65535).contains(&s));
    }
}

#[test]
fn generated_dataset_has_fresh_random_keys() {
    let ds = generate_dataset(500, 500);
    assert_eq!(ds.positives.len(), 500);
    assert_eq!(ds.negatives.len(), 500);
    assert!(ds.positives.iter().all(|k| k.len() == 36));
    assert!(ds.negatives.iter().all(|k| k.len() == 36));
    assert_ne!(ds.positives[0], ds.positives[1]);
    assert_ne!(ds.positives[0], ds.negatives[0]);
}
