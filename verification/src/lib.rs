//! A capacity-bounded, frequency-aware cache from `u64` keys to shared
//! values.
//!
//! Entries live in an exact [`StorageMap`]; a [`FrequencyEstimator`] built on
//! a count-min sketch keeps an approximate access count per key. When the
//! cache is full, the admission policy compares the estimate of the incoming
//! key with that of the least frequent key among a bounded sample of the
//! entries, and keeps whichever is more frequent; a tie keeps the entry.
//! [`Inner`] is the single-threaded core; [`LFUCache`] shares one behind a
//! lock.

pub mod cache;
pub mod estimator;
pub mod laws;
pub mod policy;
pub mod sketch;
pub mod storage;
pub mod sync;

pub use cache::{ConfigurationError, Inner, InsertOutcome};
pub use estimator::{check_width, FrequencyEstimator, MAX_ESTIMATOR_WIDTH};
pub use storage::StorageMap;
pub use sync::LFUCache;
