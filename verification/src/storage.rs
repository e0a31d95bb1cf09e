//! The storage map: an exact container from key to shared value that also
//! keeps its keys in numbered slots, so that a bounded sample of them can be
//! read without walking the map.

use std::collections::HashMap;
use std::sync::Arc;
use vstd::prelude::*;

verus! {

broadcast use vstd::std_specs::hash::group_hash_axioms;

/// The slots once the key at `index` has left: the key of the last slot
/// takes its place.
pub open spec fn vacated(slots: Seq<u64>, index: int) -> Seq<u64> {
    slots.update(index, slots.last()).drop_last()
}

/// What a [`StorageMap`] holds: the entries, and their keys slot by slot.
#[verifier::ext_equal]
pub struct StorageView<V> {
    pub entries: Map<u64, Arc<V>>,
    pub slots: Seq<u64>,
}

impl<V> StorageView<V> {
    /// The slots hold exactly the keys of the entries, each once.
    pub open spec fn wf(self) -> bool {
        &&& self.slots.no_duplicates()
        &&& forall|key: u64| self.entries.contains_key(key) <==> self.slots.contains(key)
    }

    /// The value stored under `key`, if any.
    pub open spec fn lookup(self, key: u64) -> Option<Arc<V>> {
        if self.entries.contains_key(key) {
            Some(self.entries[key])
        } else {
            None
        }
    }

    /// The key in slot `index`, if there are that many slots.
    pub open spec fn key_at(self, index: int) -> Option<u64> {
        if 0 <= index < self.slots.len() {
            Some(self.slots[index])
        } else {
            None
        }
    }

    /// The contents once `handle` is stored under `key`: a new key takes a
    /// new last slot, a known key keeps its slot.
    pub open spec fn with_entry(self, key: u64, handle: Arc<V>) -> Self {
        StorageView {
            entries: self.entries.insert(key, handle),
            slots: if self.entries.contains_key(key) {
                self.slots
            } else {
                self.slots.push(key)
            },
        }
    }

    /// The contents once `key` is gone: its slot is taken by the key of the
    /// last slot.
    pub open spec fn without(self, key: u64) -> Self {
        if self.entries.contains_key(key) {
            StorageView {
                entries: self.entries.remove(key),
                slots: vacated(self.slots, self.slots.index_of(key)),
            }
        } else {
            self
        }
    }

    /// While the slots hold each key once, there are as many slots as
    /// entries.
    pub proof fn lemma_len(self)
        requires
            self.wf(),
        ensures
            self.entries.dom().finite(),
            self.entries.len() == self.slots.len(),
    {
        self.slots.unique_seq_to_set();
        assert(self.entries.dom() =~= self.slots.to_set());
    }

    /// In well-formed contents a key is found only in its own slot.
    pub proof fn lemma_index_of(self, index: int)
        requires
            self.wf(),
            0 <= index < self.slots.len(),
        ensures
            self.entries.contains_key(self.slots[index]),
            self.slots.index_of(self.slots[index]) == index,
    {
        assert(self.slots.contains(self.slots[index]));
    }

    /// Storing an entry keeps the contents well formed, and adds a slot
    /// only for a new key.
    pub proof fn lemma_with_entry_wf(self, key: u64, handle: Arc<V>)
        requires
            self.wf(),
        ensures
            self.with_entry(key, handle).wf(),
            self.with_entry(key, handle).slots.len() == self.slots.len() + (if self.entries.contains_key(
                key,
            ) {
                0nat
            } else {
                1nat
            }),
    {
        let next = self.with_entry(key, handle);
        if !self.entries.contains_key(key) {
            assert(!self.slots.contains(key));
            assert forall|k: u64| next.entries.contains_key(k) <==> next.slots.contains(k) by {
                if k == key {
                    assert(next.slots[self.slots.len() as int] == key);
                } else if self.slots.contains(k) {
                    let i = choose|i: int| 0 <= i < self.slots.len() && self.slots[i] == k;
                    assert(next.slots[i] == k);
                }
            }
        }
    }

    /// Removing a key keeps the contents well formed, and frees a slot if
    /// the key was there.
    pub proof fn lemma_without_wf(self, key: u64)
        requires
            self.wf(),
        ensures
            self.without(key).wf(),
            self.without(key).slots.len() + (if self.entries.contains_key(key) {
                1nat
            } else {
                0nat
            }) == self.slots.len(),
    {
        let next = self.without(key);
        if self.entries.contains_key(key) {
            assert(self.slots.contains(key));
            let at = self.slots.index_of(key);
            let last = self.slots.len() - 1;
            assert(0 <= at <= last && self.slots[at] == key);
            assert forall|i: int| 0 <= i < last implies #[trigger] next.slots[i] == self.slots[if i
                == at {
                last
            } else {
                i
            }] by {}
            assert forall|k: u64| next.entries.contains_key(k) <==> next.slots.contains(k) by {
                if next.slots.contains(k) {
                    let i = choose|i: int| 0 <= i < next.slots.len() && next.slots[i] == k;
                    let source = if i == at {
                        last
                    } else {
                        i
                    };
                    assert(self.slots[source] == k);
                    assert(self.slots.contains(k));
                    assert(k != key);
                }
                if next.entries.contains_key(k) {
                    assert(self.slots.contains(k));
                    let i = choose|i: int| 0 <= i < self.slots.len() && self.slots[i] == k;
                    let target = if i == last {
                        at
                    } else {
                        i
                    };
                    assert(next.slots[target] == k);
                }
            }
        }
    }
}

/// An exact map from key to shared value.
///
/// Lookup, insertion and removal take constant expected time: beside the
/// entries the map keeps its keys in a vector of slots, and for each key
/// the number of its slot.
pub struct StorageMap<V> {
    map: HashMap<u64, Arc<V>>,
    slots: Vec<u64>,
    positions: HashMap<u64, usize>,
}

/// `Arc::clone`: a second handle to the same allocation, so to the same
/// value.
#[verifier::external_body]
fn share<V>(handle: &Arc<V>) -> (shared: Arc<V>)
    ensures
        shared == *handle,
{
    Arc::clone(handle)
}

impl<V> View for StorageMap<V> {
    type V = StorageView<V>;

    closed spec fn view(&self) -> StorageView<V> {
        StorageView { entries: self.map@, slots: self.slots@ }
    }
}

impl<V> StorageMap<V> {
    /// Every key is filed under the number of the slot that holds it.
    pub closed spec fn indexed(&self) -> bool {
        &&& forall|key: u64| self.positions@.contains_key(key) <==> self.map@.contains_key(key)
        &&& forall|index: int|
            0 <= index < self.slots@.len() ==> self.positions@.contains_key(
                #[trigger] self.slots@[index],
            ) && self.positions@[self.slots@[index]] == index
    }

    /// The invariant of the storage map: its contents are well formed and
    /// its keys are filed under their slots.
    pub open spec fn wf(&self) -> bool {
        &&& self@.wf()
        &&& self.indexed()
    }

    /// An empty map.
    pub fn new() -> (storage: Self)
        ensures
            storage.wf(),
            storage@.entries == Map::<u64, Arc<V>>::empty(),
            storage@.slots == Seq::<u64>::empty(),
    {
        StorageMap { map: HashMap::new(), slots: Vec::new(), positions: HashMap::new() }
    }

    /// The number of slots, which in a well-formed map is the number of
    /// entries.
    pub fn len(&self) -> (len: usize)
        ensures
            len == self@.slots.len(),
            self.wf() ==> len == self@.entries.len(),
    {
        proof {
            if self.wf() {
                self@.lemma_len();
            }
        }
        self.slots.len()
    }

    /// Whether a value is stored under `key`.
    pub fn contains(&self, key: &u64) -> (present: bool)
        ensures
            present == self@.entries.contains_key(*key),
    {
        self.map.contains_key(key)
    }

    /// A shared handle to the value stored under `key`, if any.
    pub fn get(&self, key: &u64) -> (found: Option<Arc<V>>)
        ensures
            found == self@.lookup(*key),
    {
        match self.map.get(key) {
            Some(handle) => Some(share(handle)),
            None => None,
        }
    }

    /// The key in slot `index`, if there are that many slots.
    pub fn key_at(&self, index: usize) -> (key: Option<u64>)
        ensures
            key == self@.key_at(index as int),
    {
        if index < self.slots.len() {
            Some(self.slots[index])
        } else {
            None
        }
    }

    /// Stores `handle` under `key` and returns the handle it replaces, if
    /// any.
    pub fn insert(&mut self, key: u64, handle: Arc<V>) -> (previous: Option<Arc<V>>)
        requires
            old(self).wf(),
        ensures
            final(self).wf(),
            final(self)@ == old(self)@.with_entry(key, handle),
            previous == old(self)@.lookup(key),
    {
        proof {
            self@.lemma_with_entry_wf(key, handle);
        }
        let previous = self.map.insert(key, handle);
        if previous.is_none() {
            assert(!old(self)@.slots.contains(key));
            self.positions.insert(key, self.slots.len());
            self.slots.push(key);
        }
        assert(self@ =~= old(self)@.with_entry(key, handle));
        previous
    }

    /// Removes `key` and returns the handle that was stored under it, if
    /// any.
    pub fn remove(&mut self, key: &u64) -> (removed: Option<Arc<V>>)
        requires
            old(self).wf(),
        ensures
            final(self).wf(),
            final(self)@ == old(self)@.without(*key),
            removed == old(self)@.lookup(*key),
    {
        proof {
            self@.lemma_without_wf(*key);
            if self@.entries.contains_key(*key) {
                assert(self@.slots.contains(*key));
                self@.lemma_index_of(self@.slots.index_of(*key));
            }
        }
        let removed = self.map.remove(key);
        if let Some(index) = self.positions.remove(key) {
            let last = self.slots.len() - 1;
            let moved = self.slots[last];
            self.slots.swap_remove(index);
            if index < last {
                self.positions.insert(moved, index);
            }
        }
        assert(self@ =~= old(self)@.without(*key));
        removed
    }
}

} // verus!
