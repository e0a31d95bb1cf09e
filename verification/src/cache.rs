//! The cache core: storage, estimator and capacity as one value, and the
//! operations on it.

use crate::estimator::{capped, FrequencyEstimator};
use crate::policy::{admission, admits, advance, advanced, select_victim, victim_slot};
use crate::sketch::sketch_estimates;
use crate::storage::{StorageMap, StorageView};
use count_min_sketch::CountMinSketch8;
use std::sync::Arc;
use vstd::prelude::*;

verus! {

/// How many increments per unit of capacity pass between two decays.
pub const DECAY_FACTOR: usize = 10;

/// Why a cache could not be built.
#[derive(Debug, Clone, Copy, PartialEq, Eq)]
pub enum ConfigurationError {
    /// The capacity was zero.
    ZeroCapacity,
    /// The estimator width was zero or above the widest table allowed.
    WidthOutOfRange,
}

/// What became of an insertion.
#[derive(Debug)]
pub enum InsertOutcome<V> {
    /// The key was new and its value is now stored.
    Inserted,
    /// The key was known; its value was replaced and the old one is handed
    /// back.
    Replaced(Arc<V>),
    /// The cache was full and the key was not more frequent than the
    /// victim: nothing was stored.
    Rejected,
}

/// The number of increments between two decays for a cache of the given
/// capacity.
pub open spec fn decay_interval(capacity: nat) -> nat {
    if capacity * DECAY_FACTOR <= usize::MAX {
        capacity * DECAY_FACTOR as nat
    } else {
        usize::MAX as nat
    }
}

/// What a cache holds: its entries, its bound, and the hand from which the
/// admission policy reads its next sample.
#[verifier::ext_equal]
pub struct CacheView<V> {
    pub storage: StorageView<V>,
    pub capacity: nat,
    pub hand: nat,
}

impl<V> CacheView<V> {
    /// The entries are well formed and no more than the capacity, which is
    /// positive.
    pub open spec fn wf(self) -> bool {
        &&& self.storage.wf()
        &&& 0 < self.capacity
        &&& self.len() <= self.capacity
    }

    /// The number of entries.
    pub open spec fn len(self) -> nat {
        self.storage.slots.len()
    }

    /// Whether a value is stored under `key`.
    pub open spec fn contains(self, key: u64) -> bool {
        self.storage.entries.contains_key(key)
    }

    /// The value stored under `key`, if any.
    pub open spec fn lookup(self, key: u64) -> Option<Arc<V>> {
        self.storage.lookup(key)
    }

    /// Whether a new key can only enter at the cost of another.
    pub open spec fn is_full(self) -> bool {
        self.len() >= self.capacity
    }

    /// Whether inserting under `key` is a matter for the admission policy:
    /// the key is new and the cache is full.
    pub open spec fn contested(self, key: u64) -> bool {
        !self.contains(key) && self.is_full()
    }

    /// The key that has to leave if a new one is admitted: the least
    /// frequent candidate, the nearest to the hand on a tie.
    pub open spec fn victim(self, frequencies: Map<u64, u8>) -> u64 {
        self.storage.slots[victim_slot(self.storage.slots, self.hand, frequencies)]
    }

    /// Whether a full cache lets `key` in, given the estimates.
    pub open spec fn admits(self, frequencies: Map<u64, u8>, key: u64) -> bool {
        admits(frequencies[key], frequencies[self.victim(frequencies)])
    }

    /// What inserting under `key` reports, given the estimates after the
    /// access has been counted.
    pub open spec fn insert_outcome(self, frequencies: Map<u64, u8>, key: u64) -> InsertOutcome<V> {
        if self.contains(key) {
            InsertOutcome::Replaced(self.storage.entries[key])
        } else if !self.is_full() || self.admits(frequencies, key) {
            InsertOutcome::Inserted
        } else {
            InsertOutcome::Rejected
        }
    }

    /// What inserting `handle` under `key` leaves behind, given the
    /// estimates after the access has been counted. Where the admission
    /// policy decides, the hand moves on, whatever the decision.
    pub open spec fn after_insert(
        self,
        frequencies: Map<u64, u8>,
        key: u64,
        handle: Arc<V>,
    ) -> Self {
        if !self.contested(key) {
            CacheView {
                storage: self.storage.with_entry(key, handle),
                capacity: self.capacity,
                hand: self.hand,
            }
        } else {
            CacheView {
                storage: if self.admits(frequencies, key) {
                    self.storage.without(self.victim(frequencies)).with_entry(key, handle)
                } else {
                    self.storage
                },
                capacity: self.capacity,
                hand: advanced(self.len(), self.hand),
            }
        }
    }

    /// What removing `key` leaves behind.
    pub open spec fn after_remove(self, key: u64) -> Self {
        CacheView { storage: self.storage.without(key), capacity: self.capacity, hand: self.hand }
    }
}

/// The single-threaded cache: a storage map, a frequency estimator and a
/// fixed capacity.
///
/// Every value of this type is coherent, at every point of every program
/// that holds one.
pub struct Inner<V> {
    main_storage: StorageMap<V>,
    frequency_sketch: FrequencyEstimator,
    capacity: usize,
    hand: usize,
}

impl<V> View for Inner<V> {
    type V = CacheView<V>;

    closed spec fn view(&self) -> CacheView<V> {
        CacheView {
            storage: self.main_storage@,
            capacity: self.capacity as nat,
            hand: self.hand as nat,
        }
    }
}

impl<V> Inner<V> {
    #[verifier::type_invariant]
    pub(crate) open spec fn inv(self) -> bool {
        self.coherent()
    }

    /// The frequency estimator of the cache.
    pub closed spec fn estimator(&self) -> FrequencyEstimator {
        self.frequency_sketch
    }

    /// The estimated frequency of every key.
    pub open spec fn frequencies(&self) -> Map<u64, u8> {
        self.estimator().frequencies()
    }

    /// The invariant of the cache: its contents are well formed and within
    /// the capacity, and every key it holds has been counted by the
    /// estimator.
    pub open spec fn coherent(&self) -> bool {
        &&& self@.wf()
        &&& self.indexed()
        &&& self@.storage.entries.dom().subset_of(self.estimator().observed())
    }

    /// The storage map has its keys filed under their slots.
    pub closed spec fn indexed(&self) -> bool {
        self.main_storage.indexed()
    }

    /// An empty cache for at most `capacity` entries that counts accesses in
    /// `sketch`. Fails if the capacity is zero.
    pub fn new(capacity: usize, sketch: CountMinSketch8<u64>) -> (built: Result<
        Self,
        ConfigurationError,
    >)
        ensures
            built is Err <==> capacity == 0,
            built matches Err(error) ==> error == ConfigurationError::ZeroCapacity,
            built matches Ok(cache) ==> {
                &&& cache.coherent()
                &&& cache@.capacity == capacity
                &&& cache@.storage.entries == Map::<u64, Arc<V>>::empty()
                &&& cache@.storage.slots == Seq::<u64>::empty()
                &&& cache@.hand == 0
                &&& cache.frequencies() == sketch_estimates(sketch)
                &&& cache.estimator().interval() == decay_interval(capacity as nat)
                &&& cache.estimator().pending() == 0
                &&& forall|key: u64| #[trigger] cache.estimator().recorded(key) == 0
            },
    {
        if capacity == 0 {
            return Err(ConfigurationError::ZeroCapacity);
        }
        let interval: usize = if capacity <= usize::MAX / DECAY_FACTOR {
            capacity * DECAY_FACTOR
        } else {
            usize::MAX
        };
        Ok(
            Inner {
                main_storage: StorageMap::new(),
                frequency_sketch: FrequencyEstimator::new(sketch, interval),
                capacity,
                hand: 0,
            },
        )
    }

    /// The number of entries, which never exceeds the capacity.
    pub fn len(&self) -> (len: usize)
        ensures
            self.coherent(),
            len == self@.len(),
            len == self@.storage.entries.len(),
            len <= self@.capacity,
    {
        proof {
            use_type_invariant(self);
        }
        self.main_storage.len()
    }

    /// The largest number of entries the cache will hold.
    pub fn capacity(&self) -> (capacity: usize)
        ensures
            self.coherent(),
            capacity == self@.capacity,
            capacity > 0,
    {
        proof {
            use_type_invariant(self);
        }
        self.capacity
    }

    /// The estimated frequency of `key`; nothing is counted. Since the last
    /// decay the estimate has not fallen below the true number of accesses,
    /// up to saturation.
    pub fn estimate(&self, key: u64) -> (frequency: u8)
        ensures
            self.coherent(),
            frequency == self.frequencies()[key],
            capped(self.estimator().recorded(key)) <= frequency,
    {
        proof {
            use_type_invariant(self);
        }
        self.frequency_sketch.estimate(key)
    }

    /// Counts one access of `key` and hands out the value stored under it,
    /// if any. The contents stay as they are.
    pub fn get(&mut self, key: &u64) -> (found: Option<Arc<V>>)
        ensures
            final(self).coherent(),
            final(self)@ == old(self)@,
            old(self).estimator().counts_access(&final(self).estimator(), *key),
            found == old(self)@.lookup(*key),
    {
        proof {
            use_type_invariant(&*self);
        }
        self.frequency_sketch.increment(*key);
        self.main_storage.get(key)
    }

    /// Counts one access of `key`, then stores `value` under it if there is
    /// room or the admission policy makes room.
    ///
    /// A known key has its value replaced. A new key enters a cache that is
    /// not full. A new key enters a full cache only if its estimate is
    /// strictly above that of the victim, which is then evicted; otherwise
    /// the insertion is rejected and the contents stay as they are.
    pub fn insert(&mut self, key: u64, value: V) -> (outcome: InsertOutcome<V>)
        ensures
            final(self).coherent(),
            old(self).estimator().counts_access(&final(self).estimator(), key),
            final(self)@ == old(self)@.after_insert(
                final(self).frequencies(),
                key,
                Arc::new(value),
            ),
            outcome == old(self)@.insert_outcome(final(self).frequencies(), key),
    {
        proof {
            use_type_invariant(&*self);
        }
        self.frequency_sketch.increment(key);
        let handle = Arc::new(value);
        let mut storage = StorageMap::new();
        std::mem::swap(&mut self.main_storage, &mut storage);
        let ghost before = old(self)@;
        let ghost frequencies = self.frequency_sketch.frequencies();
        proof {
            before.storage.lemma_with_entry_wf(key, handle);
        }
        let outcome = if storage.contains(&key) || storage.len() < self.capacity {
            match storage.insert(key, handle) {
                Some(previous) => InsertOutcome::Replaced(previous),
                None => InsertOutcome::Inserted,
            }
        } else {
            let victim = select_victim(&storage, &self.frequency_sketch, self.hand);
            self.hand = advance(storage.len(), self.hand);
            match victim {
                Some((leaving, frequency)) => {
                    let incoming = self.frequency_sketch.estimate(key);
                    if admission(incoming, frequency) {
                        proof {
                            before.storage.lemma_index_of(
                                victim_slot(before.storage.slots, before.hand, frequencies),
                            );
                            before.storage.lemma_without_wf(leaving);
                            before.storage.without(leaving).lemma_with_entry_wf(key, handle);
                        }
                        storage.remove(&leaving);
                        storage.insert(key, handle);
                        InsertOutcome::Inserted
                    } else {
                        InsertOutcome::Rejected
                    }
                },
                None => InsertOutcome::Rejected,
            }
        };
        self.main_storage = storage;
        outcome
    }

    /// Removes `key` and hands back the value that was stored under it, if
    /// any. The estimator is not touched.
    pub fn remove(&mut self, key: &u64) -> (removed: Option<Arc<V>>)
        ensures
            final(self).coherent(),
            final(self).estimator() == old(self).estimator(),
            final(self)@ == old(self)@.after_remove(*key),
            removed == old(self)@.lookup(*key),
    {
        proof {
            use_type_invariant(&*self);
        }
        let mut storage = StorageMap::new();
        std::mem::swap(&mut self.main_storage, &mut storage);
        proof {
            storage@.lemma_without_wf(*key);
        }
        let removed = storage.remove(key);
        self.main_storage = storage;
        removed
    }
}

} // verus!
