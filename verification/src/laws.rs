//! What holds of the cache whatever is done to it, stated over the views
//! that the contracts of the operations use.

use crate::cache::{CacheView, InsertOutcome};
use crate::estimator::{capped, FrequencyEstimator, MAX_FREQUENCY};
use crate::policy::{
    candidate_slot, is_least_frequent, lemma_least_frequent_exists, sample_len, sample_start,
    sampled, SAMPLE_SIZE,
};
use std::sync::Arc;
use vstd::prelude::*;

verus! {

/// The victim of a cache that holds anything is one of its candidates, and
/// no candidate is less frequent: a key whose frequency dominates is never
/// the one that leaves.
pub proof fn law_victim_is_least_frequent_candidate<V>(
    cache: CacheView<V>,
    frequencies: Map<u64, u8>,
)
    requires
        cache.wf(),
        cache.len() > 0,
    ensures
        cache.contains(cache.victim(frequencies)),
        exists|offset: int|
            0 <= offset < sample_len(cache.len()) && cache.victim(frequencies)
                == cache.storage.slots[#[trigger] candidate_slot(cache.len(), cache.hand, offset)],
        forall|offset: int|
            0 <= offset < sample_len(cache.len()) ==> frequencies[cache.victim(frequencies)]
                <= frequencies[cache.storage.slots[#[trigger] candidate_slot(
                cache.len(),
                cache.hand,
                offset,
            )]],
{
    let found = sampled(cache.storage.slots, cache.hand, frequencies);
    lemma_least_frequent_exists(found);
    let index = choose|index: int| is_least_frequent(found, index);
    let slot = candidate_slot(cache.len(), cache.hand, index);
    assert(cache.storage.slots[slot] == cache.victim(frequencies));
    assert(cache.storage.slots.contains(cache.storage.slots[slot]));
    assert forall|offset: int| 0 <= offset < sample_len(cache.len()) implies frequencies[cache.victim(
        frequencies,
    )] <= frequencies[cache.storage.slots[#[trigger] candidate_slot(
        cache.len(),
        cache.hand,
        offset,
    )]] by {
        assert(found[index] <= found[offset]);
    }
}

/// In a cache with no more entries than one sample takes, every entry is a
/// candidate, so the victim is a least frequent entry of the whole cache.
pub proof fn law_small_cache_evicts_its_least_frequent<V>(
    cache: CacheView<V>,
    frequencies: Map<u64, u8>,
    other: u64,
)
    requires
        cache.wf(),
        cache.len() <= SAMPLE_SIZE,
        cache.contains(other),
    ensures
        cache.contains(cache.victim(frequencies)),
        frequencies[cache.victim(frequencies)] <= frequencies[other],
{
    assert(cache.storage.slots.contains(other));
    let at = cache.storage.slots.index_of(other);
    let len = cache.len();
    let start = sample_start(len, cache.hand);
    let offset = if at >= start {
        at - start
    } else {
        at + len - start
    };
    law_victim_is_least_frequent_candidate(cache, frequencies);
    assert(candidate_slot(len, cache.hand, offset) == at);
}

/// A key that is more frequent than some candidate is not the victim: a
/// contested insertion of another key leaves its value where it is.
pub proof fn law_admission_spares_the_more_frequent<V>(
    cache: CacheView<V>,
    frequencies: Map<u64, u8>,
    key: u64,
    handle: Arc<V>,
    spared: u64,
    offset: int,
)
    requires
        cache.wf(),
        cache.contains(spared),
        spared != key,
        0 <= offset < sample_len(cache.len()),
        frequencies[cache.storage.slots[candidate_slot(cache.len(), cache.hand, offset)]]
            < frequencies[spared],
    ensures
        cache.victim(frequencies) != spared,
        cache.after_insert(frequencies, key, handle).lookup(spared) == cache.lookup(spared),
{
    law_victim_is_least_frequent_candidate(cache, frequencies);
    assert(frequencies[cache.victim(frequencies)] <= frequencies[cache.storage.slots[candidate_slot(
        cache.len(),
        cache.hand,
        offset,
    )]]);
}

/// Counted accesses make a key dominate: while no estimate is below the
/// true count, a key that has been accessed more often since the last decay
/// than another key is estimated to have been, has the higher estimate of
/// the two. Only collisions that inflate the other key that far can undo it.
pub proof fn law_counted_accesses_dominate(
    estimator: FrequencyEstimator,
    frequent: u64,
    rare: u64,
)
    requires
        forall|any: u64| capped(#[trigger] estimator.recorded(any)) <= estimator.frequency(any),
        estimator.frequency(rare) < capped(estimator.recorded(frequent)),
    ensures
        estimator.frequency(frequent) > estimator.frequency(rare),
{
    assert(capped(estimator.recorded(frequent)) <= estimator.frequency(frequent));
}

/// The admission between two: a full cache holds exactly `frequent` and
/// `rare`, of which `frequent` has the higher estimate, and a third key
/// comes in. Either the newcomer is rejected and the cache holds what it
/// held, or it is inserted, `rare` leaves and `frequent` stays. Either way
/// the cache holds two entries.
pub proof fn law_admission_between_two<V>(
    cache: CacheView<V>,
    frequencies: Map<u64, u8>,
    frequent: u64,
    rare: u64,
    key: u64,
    handle: Arc<V>,
)
    requires
        cache.wf(),
        cache.capacity == 2,
        cache.len() == 2,
        cache.contains(frequent),
        cache.contains(rare),
        key != frequent,
        key != rare,
        frequencies[frequent] > frequencies[rare],
    ensures
        ({
            let next = cache.after_insert(frequencies, key, handle);
            let outcome = cache.insert_outcome(frequencies, key);
            &&& next.wf()
            &&& next.len() == 2
            &&& cache.victim(frequencies) == rare
            &&& {
                ||| outcome is Rejected && next.storage == cache.storage
                ||| outcome is Inserted && next.storage.entries == Map::<u64, Arc<V>>::empty().insert(
                    frequent,
                    cache.storage.entries[frequent],
                ).insert(key, handle)
            }
            &&& outcome is Inserted <==> frequencies[key] > frequencies[rare]
        }),
{
    let next = cache.after_insert(frequencies, key, handle);
    let victim = cache.victim(frequencies);
    let slots = cache.storage.slots;
    law_small_cache_evicts_its_least_frequent(cache, frequencies, rare);
    law_insert_keeps_bound(cache, frequencies, key, handle);
    assert(slots.contains(frequent));
    assert(slots.contains(rare));
    assert(slots.contains(victim));
    assert forall|known: u64| #[trigger]
        cache.storage.entries.dom().contains(known) implies known == frequent || known
        == rare by {
        assert(slots.contains(known));
        let at = slots.index_of(known);
        let first = slots.index_of(frequent);
        let second = slots.index_of(rare);
        assert(0 <= at < 2 && 0 <= first < 2 && 0 <= second < 2);
    }
    assert(cache.storage.entries.dom().contains(victim));
    assert(victim == rare);
    assert(!cache.contains(key));
    if cache.admits(frequencies, key) {
        cache.storage.lemma_without_wf(rare);
        cache.storage.without(rare).lemma_with_entry_wf(key, handle);
        assert(next.storage.entries =~= Map::<u64, Arc<V>>::empty().insert(
            frequent,
            cache.storage.entries[frequent],
        ).insert(key, handle));
    }
}

/// Inserting keeps the cache well formed: whatever the estimates say, it
/// never holds more entries than its capacity.
pub proof fn law_insert_keeps_bound<V>(
    cache: CacheView<V>,
    frequencies: Map<u64, u8>,
    key: u64,
    handle: Arc<V>,
)
    requires
        cache.wf(),
    ensures
        cache.after_insert(frequencies, key, handle).wf(),
        cache.after_insert(frequencies, key, handle).len() <= cache.capacity,
        cache.after_insert(frequencies, key, handle).capacity == cache.capacity,
{
    cache.storage.lemma_with_entry_wf(key, handle);
    if cache.contested(key) && cache.admits(frequencies, key) {
        let victim = cache.victim(frequencies);
        law_victim_is_least_frequent_candidate(cache, frequencies);
        cache.storage.lemma_without_wf(victim);
        cache.storage.without(victim).lemma_with_entry_wf(key, handle);
    }
}

/// Removing keeps the cache well formed and within its capacity.
pub proof fn law_remove_keeps_bound<V>(cache: CacheView<V>, key: u64)
    requires
        cache.wf(),
    ensures
        cache.after_remove(key).wf(),
        cache.after_remove(key).len() <= cache.len(),
        cache.after_remove(key).capacity == cache.capacity,
{
    cache.storage.lemma_without_wf(key);
}

/// An insertion that reports `Inserted` or `Replaced` leaves the value
/// under its key: the next lookup finds it.
pub proof fn law_inserted_value_is_served<V>(
    cache: CacheView<V>,
    frequencies: Map<u64, u8>,
    key: u64,
    handle: Arc<V>,
)
    requires
        cache.wf(),
        !(cache.insert_outcome(frequencies, key) is Rejected),
    ensures
        cache.after_insert(frequencies, key, handle).lookup(key) == Some(handle),
{
}

/// An insertion into a cache that is not full is never rejected, and no
/// entry leaves for it.
pub proof fn law_room_means_inserted<V>(
    cache: CacheView<V>,
    frequencies: Map<u64, u8>,
    key: u64,
    handle: Arc<V>,
)
    requires
        cache.wf(),
        !cache.is_full(),
    ensures
        !(cache.insert_outcome(frequencies, key) is Rejected),
        forall|other: u64|
            cache.contains(other) ==> #[trigger] cache.after_insert(
                frequencies,
                key,
                handle,
            ).contains(other),
{
}

/// A stored value stays what it is while other keys are inserted, until
/// its key is the victim of an admitted insertion.
pub proof fn law_entry_outlives_other_insert<V>(
    cache: CacheView<V>,
    frequencies: Map<u64, u8>,
    key: u64,
    other: u64,
    handle: Arc<V>,
)
    requires
        cache.wf(),
        cache.contains(key),
        other != key,
    ensures
        ({
            let evicted = {
                &&& cache.contested(other)
                &&& cache.admits(frequencies, other)
                &&& cache.victim(frequencies) == key
            };
            let next = cache.after_insert(frequencies, other, handle);
            if evicted {
                next.lookup(key) is None
            } else {
                next.lookup(key) == cache.lookup(key)
            }
        }),
{
}

/// A stored value stays what it is while other keys are removed.
pub proof fn law_entry_outlives_other_remove<V>(cache: CacheView<V>, key: u64, other: u64)
    requires
        cache.wf(),
        other != key,
    ensures
        cache.after_remove(other).lookup(key) == cache.lookup(key),
{
}

/// A rejected insertion changes nothing, and a tie is a rejection: a new
/// key that is no more frequent than the victim of a full cache stays out.
pub proof fn law_tie_keeps_existing<V>(
    cache: CacheView<V>,
    frequencies: Map<u64, u8>,
    key: u64,
    handle: Arc<V>,
)
    requires
        cache.wf(),
        cache.is_full(),
        !cache.contains(key),
        frequencies[key] <= frequencies[cache.victim(frequencies)],
    ensures
        cache.insert_outcome(frequencies, key) is Rejected,
        cache.after_insert(frequencies, key, handle).storage == cache.storage,
{
}

/// After a removal the key is absent, and removing an absent key changes
/// nothing.
pub proof fn law_removed_key_is_absent<V>(cache: CacheView<V>, key: u64)
    requires
        cache.wf(),
    ensures
        cache.after_remove(key).lookup(key) is None,
        !cache.contains(key) ==> cache.after_remove(key) == cache,
{
}

/// A counted access raises the estimate of its key by exactly one, unless
/// the estimate is saturated or the access completes an interval and ends
/// in a decay.
pub proof fn law_access_raises_frequency(
    before: FrequencyEstimator,
    after: FrequencyEstimator,
    key: u64,
)
    requires
        before.counts_access(&after, key),
        !before.decay_due(),
        before.frequency(key) < MAX_FREQUENCY,
    ensures
        after.frequency(key) == before.frequency(key) + 1,
        after.frequency(key) > before.frequency(key),
{
}

/// Between two decays no estimate falls, whichever key is accessed.
pub proof fn law_frequencies_grow_between_decays(
    before: FrequencyEstimator,
    after: FrequencyEstimator,
    key: u64,
    other: u64,
)
    requires
        before.counts_access(&after, key),
        !before.decay_due(),
    ensures
        before.frequency(other) <= after.frequency(other),
{
}

/// Counting never undercounts: if no estimate is below the true number of
/// accesses since the last decay, up to saturation, then the same holds
/// after one more access.
pub proof fn law_counting_never_undercounts(
    before: FrequencyEstimator,
    after: FrequencyEstimator,
    key: u64,
)
    requires
        before.counts_access(&after, key),
        forall|any: u64| capped(#[trigger] before.recorded(any)) <= before.frequency(any),
    ensures
        forall|any: u64| capped(#[trigger] after.recorded(any)) <= after.frequency(any),
{
    assert forall|any: u64| capped(#[trigger] after.recorded(any)) <= after.frequency(any) by {
        assert(capped(before.recorded(any)) <= before.frequency(any));
        assert(before.frequency(any) <= after.frequency(any) || before.decay_due());
    }
}

/// A decay halves the estimate of every key and starts the true counts
/// again from zero, so that no estimate is below them.
pub proof fn law_decay_halves(before: FrequencyEstimator, after: FrequencyEstimator, key: u64)
    requires
        before.decays_to(&after),
    ensures
        after.frequency(key) == before.frequency(key) / 2,
        capped(after.recorded(key)) <= after.frequency(key),
{
}

} // verus!
