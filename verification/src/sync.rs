//! The synchronization layer: one cache shared by many threads.
//!
//! A single lock guards the whole [`Inner`], and every operation holds it
//! exclusively from its first step to its last. So estimator and storage
//! change as one step, the operations on one cache are serialized, and no
//! stream of readers can keep a writer waiting, since there are no readers.
//! Whatever the threads do, the value behind the lock is an [`Inner`], and
//! so coherent: it never holds more entries than its own capacity. What an
//! operation finds behind the lock is for the other threads to decide; what
//! it then does with it is stated by the operation of [`Inner`] that it
//! calls.

use crate::cache::{ConfigurationError, Inner, InsertOutcome};
use count_min_sketch::CountMinSketch8;
use std::sync::Arc;
use std::sync::RwLock;
use std::sync::RwLockWriteGuard;
use vstd::prelude::*;

verus! {

/// `std::sync::RwLock`, as an opaque type.
#[verifier::external_type_specification]
#[verifier::external_body]
#[verifier::reject_recursive_types(T)]
pub struct ExRwLock<T: ?Sized>(RwLock<T>);

/// `std::sync::RwLockWriteGuard`, as an opaque type.
#[verifier::external_type_specification]
#[verifier::external_body]
#[verifier::reject_recursive_types(T)]
pub struct ExRwLockWriteGuard<'a, T: ?Sized + 'a>(RwLockWriteGuard<'a, T>);

/// A cache that any number of threads may use at once.
///
/// The capacity is fixed when the cache is built and is kept beside the
/// lock, so that it can be read without waiting for it.
#[verifier::reject_recursive_types(V)]
pub struct LFUCache<V> {
    inner: RwLock<Inner<V>>,
    capacity: usize,
}

/// `RwLock::new`: a lock around `inner`. Nothing is claimed of it.
#[verifier::external_body]
fn lock_around<V>(inner: Inner<V>) -> RwLock<Inner<V>> {
    RwLock::new(inner)
}

/// `DerefMut::deref_mut` of a write guard: the cache behind the lock.
/// Nothing is claimed of it.
#[verifier::external_body]
fn guarded_mut<'a, 'b, V>(guard: &'a mut RwLockWriteGuard<'b, Inner<V>>) -> &'a mut Inner<V> {
    &mut **guard
}

impl<V> LFUCache<V> {
    #[verifier::type_invariant]
    spec fn inv(self) -> bool {
        0 < self.capacity
    }

    /// The capacity the cache was built with.
    pub closed spec fn bound(&self) -> nat {
        self.capacity as nat
    }

    /// An empty shared cache for at most `capacity` entries that counts
    /// accesses in `sketch`. Fails if the capacity is zero.
    pub fn new(capacity: usize, sketch: CountMinSketch8<u64>) -> (built: Result<
        Self,
        ConfigurationError,
    >)
        ensures
            built is Err <==> capacity == 0,
            built matches Err(error) ==> error == ConfigurationError::ZeroCapacity,
            built matches Ok(cache) ==> cache.bound() == capacity,
    {
        match Inner::new(capacity, sketch) {
            Ok(inner) => Ok(LFUCache { inner: lock_around(inner), capacity }),
            Err(error) => Err(error),
        }
    }

    /// `RwLock::write`: waits for exclusive access to the cache. Nothing is
    /// claimed of what the guard holds. Panics if a thread panicked while
    /// it held the lock.
    #[verifier::external_body]
    pub fn inner_mut(&self) -> RwLockWriteGuard<'_, Inner<V>> {
        self.inner.write().expect("Unable to acquire write lock")
    }

    /// Counts one access of `key` and stores `value` under it if the cache
    /// has room or the admission policy makes room, as one step.
    ///
    /// Which cache the call finds behind the lock is for the other threads
    /// to decide. Whichever it is, it is coherent before and after, and the
    /// step taken on it and the outcome are those of [`Inner::insert`].
    pub fn insert(&self, key: u64, value: V) -> (outcome: InsertOutcome<V>)
        ensures
            exists|before: Inner<V>, after: Inner<V>|
                before.coherent() && after.coherent() && before.estimator().counts_access(
                    &after.estimator(),
                    key,
                ) && after@ == before@.after_insert(after.frequencies(), key, Arc::new(value))
                    && outcome == before@.insert_outcome(after.frequencies(), key),
    {
        let mut guard = self.inner_mut();
        let inner = guarded_mut(&mut guard);
        proof {
            use_type_invariant(&*inner);
        }
        let ghost before = *inner;
        let outcome = inner.insert(key, value);
        let ghost after = *inner;
        assert(before.coherent() && after.coherent() && before.estimator().counts_access(
            &after.estimator(),
            key,
        ) && after@ == before@.after_insert(after.frequencies(), key, Arc::new(value)) && outcome
            == before@.insert_outcome(after.frequencies(), key));
        outcome
    }

    /// Counts one access of `key` and hands out the value stored under it,
    /// if any, as one step.
    ///
    /// Whichever cache the call finds behind the lock, its contents stay as
    /// they are, and what is handed out is what [`Inner::get`] finds in it.
    pub fn get(&self, key: &u64) -> (found: Option<Arc<V>>)
        ensures
            exists|before: Inner<V>, after: Inner<V>|
                before.coherent() && after.coherent() && after@ == before@
                    && before.estimator().counts_access(&after.estimator(), *key) && found
                    == before@.lookup(*key),
    {
        let mut guard = self.inner_mut();
        let inner = guarded_mut(&mut guard);
        proof {
            use_type_invariant(&*inner);
        }
        let ghost before = *inner;
        let found = inner.get(key);
        let ghost after = *inner;
        assert(before.coherent() && after.coherent() && after@ == before@
            && before.estimator().counts_access(&after.estimator(), *key) && found
            == before@.lookup(*key));
        found
    }

    /// Removes `key` and hands back the value that was stored under it, if
    /// any.
    ///
    /// Whichever cache the call finds behind the lock, the step taken on it
    /// and the value handed back are those of [`Inner::remove`]; the
    /// estimator is not touched.
    pub fn remove(&self, key: &u64) -> (removed: Option<Arc<V>>)
        ensures
            exists|before: Inner<V>, after: Inner<V>|
                before.coherent() && after.coherent() && after.estimator() == before.estimator()
                    && after@ == before@.after_remove(*key) && removed == before@.lookup(*key),
    {
        let mut guard = self.inner_mut();
        let inner = guarded_mut(&mut guard);
        proof {
            use_type_invariant(&*inner);
        }
        let ghost before = *inner;
        let removed = inner.remove(key);
        let ghost after = *inner;
        assert(before.coherent() && after.coherent() && after.estimator() == before.estimator()
            && after@ == before@.after_remove(*key) && removed == before@.lookup(*key));
        removed
    }

    /// The number of entries at some moment during the call, which is never
    /// above `capacity()`. The cache that `new` put behind the lock cannot
    /// hold more; should a caller of `inner_mut` have exchanged it for one
    /// that does, the count stops at the capacity.
    pub fn len(&self) -> (len: usize)
        ensures
            len <= self.bound(),
            exists|held: Inner<V>|
                held.coherent() && len == (if held@.len() <= self.bound() {
                    held@.len()
                } else {
                    self.bound()
                }),
    {
        let mut guard = self.inner_mut();
        let inner = guarded_mut(&mut guard);
        let ghost held = *inner;
        let found = inner.len();
        assert(held.coherent() && found == held@.len());
        if found <= self.capacity {
            found
        } else {
            self.capacity
        }
    }

    /// The capacity the cache was built with, which bounds the cache that
    /// `new` put behind the lock. It is read without taking the lock.
    pub fn capacity(&self) -> (capacity: usize)
        ensures
            capacity == self.bound(),
            capacity > 0,
    {
        proof {
            use_type_invariant(self);
        }
        self.capacity
    }
}

} // verus!
