//! A Bloom filter with a seeded 32-bit hash family, and a measurement
//! harness that sweeps the filter's parameters and counts false positives.

pub mod experiment;
pub mod filter;
pub mod hash;
pub mod seeds;
