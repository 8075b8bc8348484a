//! A counting Bloom filter over byte-string items, with machine-checked
//! contracts for insertion, removal and membership queries.

pub mod counters;
pub mod filter;
pub mod hashing;
pub mod laws;
pub mod model;

pub use filter::CountingBloomFilter;
