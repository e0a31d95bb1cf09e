//! The admission policy: which existing entry is the victim, and whether an
//! incoming key may take its place.
//!
//! The candidates for eviction are a bounded sample of the slots of the
//! storage map, read from a hand that moves on by one slot with every
//! decision, so that in time every entry is looked at.

use crate::estimator::FrequencyEstimator;
use crate::storage::StorageMap;
use vstd::prelude::*;

verus! {

/// How many entries are candidates for eviction at one decision.
pub const SAMPLE_SIZE: usize = 8;

/// The number of candidates among `len` slots.
pub open spec fn sample_len(len: nat) -> nat {
    if len < SAMPLE_SIZE {
        len
    } else {
        SAMPLE_SIZE as nat
    }
}

/// The slot at which the sample starts: the hand, or the first slot if the
/// hand points past the last.
pub open spec fn sample_start(len: nat, hand: nat) -> nat {
    if hand < len {
        hand
    } else {
        0
    }
}

/// The slot of the candidate at `offset` from the hand; after the last slot
/// comes the first.
pub open spec fn candidate_slot(len: nat, hand: nat, offset: int) -> int {
    if sample_start(len, hand) + offset < len {
        sample_start(len, hand) + offset
    } else {
        sample_start(len, hand) + offset - len
    }
}

/// The hand after a decision: one slot on, and back to the first after the
/// last.
pub open spec fn advanced(len: nat, hand: nat) -> nat {
    if sample_start(len, hand) + 1 < len {
        sample_start(len, hand) + 1
    } else {
        0
    }
}

/// The estimated frequency of each candidate, in the order of their
/// offsets from the hand.
pub open spec fn sampled(slots: Seq<u64>, hand: nat, frequencies: Map<u64, u8>) -> Seq<u8> {
    Seq::new(
        sample_len(slots.len()),
        |offset: int| frequencies[slots[candidate_slot(slots.len(), hand, offset)]],
    )
}

/// `index` is the position of the least frequency, and the first such
/// position if the least frequency occurs more than once.
pub open spec fn is_least_frequent(frequencies: Seq<u8>, index: int) -> bool {
    &&& 0 <= index < frequencies.len()
    &&& forall|other: int|
        0 <= other < frequencies.len() ==> frequencies[index] <= #[trigger] frequencies[other]
    &&& forall|earlier: int|
        0 <= earlier < index ==> frequencies[index] < #[trigger] frequencies[earlier]
}

/// The position of the least frequency among `frequencies`.
pub open spec fn least_frequent_index(frequencies: Seq<u8>) -> int {
    choose|index: int| is_least_frequent(frequencies, index)
}

/// The slot of the key that has to leave if a new one is admitted: the
/// least frequent candidate, the nearest to the hand on a tie.
pub open spec fn victim_slot(slots: Seq<u64>, hand: nat, frequencies: Map<u64, u8>) -> int {
    candidate_slot(slots.len(), hand, least_frequent_index(sampled(slots, hand, frequencies)))
}

/// The decision rule: the incoming key is admitted only if it is strictly
/// more frequent than the victim. A tie keeps the existing entry.
pub open spec fn admits(incoming: u8, victim: u8) -> bool {
    incoming > victim
}

/// Among one or more frequencies there is a least.
pub proof fn lemma_least_frequent_exists(frequencies: Seq<u8>)
    requires
        frequencies.len() > 0,
    ensures
        is_least_frequent(frequencies, least_frequent_index(frequencies)),
    decreases frequencies.len(),
{
    if frequencies.len() == 1 {
        assert(is_least_frequent(frequencies, 0));
    } else {
        let shorter = frequencies.drop_last();
        let last = frequencies.len() - 1;
        lemma_least_frequent_exists(shorter);
        let best = least_frequent_index(shorter);
        if frequencies[last] < shorter[best] {
            assert forall|other: int| 0 <= other < frequencies.len() implies frequencies[last]
                <= #[trigger] frequencies[other] by {
                if other < last {
                    assert(shorter[best] <= shorter[other]);
                }
            }
            assert forall|earlier: int| 0 <= earlier < last implies frequencies[last]
                < #[trigger] frequencies[earlier] by {
                assert(shorter[best] <= shorter[earlier]);
            }
            assert(is_least_frequent(frequencies, last));
        } else {
            assert forall|other: int| 0 <= other < frequencies.len() implies frequencies[best]
                <= #[trigger] frequencies[other] by {
                if other < last {
                    assert(shorter[best] <= shorter[other]);
                }
            }
            assert forall|earlier: int| 0 <= earlier < best implies frequencies[best]
                < #[trigger] frequencies[earlier] by {
                assert(shorter[best] < shorter[earlier]);
            }
            assert(is_least_frequent(frequencies, best));
        }
    }
}

/// There is at most one first position of the least frequency.
pub proof fn lemma_least_frequent_unique(frequencies: Seq<u8>, first: int, second: int)
    requires
        is_least_frequent(frequencies, first),
        is_least_frequent(frequencies, second),
    ensures
        first == second,
{
    if first < second {
        assert(frequencies[second] < frequencies[first]);
    } else if second < first {
        assert(frequencies[first] < frequencies[second]);
    }
}

/// The slot of the candidate at `offset` from the hand, if `offset` is
/// less than the number of slots.
pub fn slot_of(len: usize, hand: usize, offset: usize) -> (slot: Option<usize>)
    ensures
        slot is Some <==> offset < len,
        slot matches Some(at) ==> at == candidate_slot(len as nat, hand as nat, offset as int)
            && at < len,
{
    if offset >= len {
        return None;
    }
    let start: usize = if hand < len {
        hand
    } else {
        0
    };
    if offset < len - start {
        Some(start + offset)
    } else {
        Some(offset - (len - start))
    }
}

/// Moves the hand on by one slot.
pub fn advance(len: usize, hand: usize) -> (next: usize)
    ensures
        next == advanced(len as nat, hand as nat),
{
    let start: usize = if hand < len {
        hand
    } else {
        0
    };
    if start < len && start + 1 < len {
        start + 1
    } else {
        0
    }
}

/// Reads the estimate of each candidate of `storage`, in the order of their
/// offsets from the hand.
pub fn sample_frequencies<V>(
    storage: &StorageMap<V>,
    estimator: &FrequencyEstimator,
    hand: usize,
) -> (found: Vec<u8>)
    ensures
        found@ == sampled(storage@.slots, hand as nat, estimator.frequencies()),
{
    let len = storage.len();
    let sample: usize = if len < SAMPLE_SIZE {
        len
    } else {
        SAMPLE_SIZE
    };
    let mut found: Vec<u8> = Vec::new();
    let mut offset: usize = 0;
    while offset < sample
        invariant
            offset <= sample <= len,
            len == storage@.slots.len(),
            found@.len() == offset,
            forall|earlier: int|
                0 <= earlier < offset ==> found@[earlier] == estimator.frequency(
                    storage@.slots[candidate_slot(len as nat, hand as nat, earlier)],
                ),
        decreases sample - offset,
    {
        if let Some(slot) = slot_of(len, hand, offset) {
            if let Some(candidate) = storage.key_at(slot) {
                found.push(estimator.estimate(candidate));
            }
        }
        offset = offset + 1;
    }
    assert(found@ =~= sampled(storage@.slots, hand as nat, estimator.frequencies()));
    found
}

/// Picks the least frequent: the first position that holds the least
/// frequency, or `None` if there is no frequency at all.
pub fn least_frequent(frequencies: &Vec<u8>) -> (least: Option<usize>)
    ensures
        least is None <==> frequencies@.len() == 0,
        least matches Some(index) ==> is_least_frequent(frequencies@, index as int) && index
            == least_frequent_index(frequencies@),
{
    if frequencies.len() == 0 {
        return None;
    }
    let mut best: usize = 0;
    let mut next: usize = 1;
    while next < frequencies.len()
        invariant
            0 <= best < next <= frequencies.len(),
            is_least_frequent(frequencies@.take(next as int), best as int),
        decreases frequencies.len() - next,
    {
        let ghost seen = frequencies@.take(next as int);
        let ghost grown = frequencies@.take(next + 1);
        if frequencies[next] < frequencies[best] {
            assert forall|other: int| 0 <= other < grown.len() implies grown[next as int]
                <= #[trigger] grown[other] by {
                if other < next {
                    assert(seen[best as int] <= seen[other]);
                }
            }
            assert forall|earlier: int| 0 <= earlier < next implies grown[next as int]
                < #[trigger] grown[earlier] by {
                assert(seen[best as int] <= seen[earlier]);
            }
            best = next;
        } else {
            assert forall|other: int| 0 <= other < grown.len() implies grown[best as int]
                <= #[trigger] grown[other] by {
                if other < next {
                    assert(seen[best as int] <= seen[other]);
                }
            }
            assert forall|earlier: int| 0 <= earlier < best implies grown[best as int]
                < #[trigger] grown[earlier] by {
                assert(seen[best as int] < seen[earlier]);
            }
        }
        next = next + 1;
    }
    proof {
        assert(frequencies@.take(next as int) =~= frequencies@);
        lemma_least_frequent_exists(frequencies@);
        lemma_least_frequent_unique(
            frequencies@,
            best as int,
            least_frequent_index(frequencies@),
        );
    }
    Some(best)
}

/// Picks the victim among the candidates of `storage`: its key and its
/// estimate, or `None` if the storage is empty.
pub fn select_victim<V>(storage: &StorageMap<V>, estimator: &FrequencyEstimator, hand: usize) -> (
    victim: Option<(u64, u8)>
)
    ensures
        victim is None <==> storage@.slots.len() == 0,
        victim matches Some((key, frequency)) ==> {
            let slot = victim_slot(storage@.slots, hand as nat, estimator.frequencies());
            &&& 0 <= slot < storage@.slots.len()
            &&& key == storage@.slots[slot]
            &&& frequency == estimator.frequency(key)
        },
{
    let found = sample_frequencies(storage, estimator, hand);
    match least_frequent(&found) {
        Some(index) => {
            match slot_of(storage.len(), hand, index) {
                Some(slot) => {
                    match storage.key_at(slot) {
                        Some(key) => Some((key, found[index])),
                        None => None,
                    }
                },
                None => None,
            }
        },
        None => None,
    }
}

/// Applies the decision rule to the two estimates.
pub fn admission(incoming: u8, victim: u8) -> (admitted: bool)
    ensures
        admitted == admits(incoming, victim),
{
    incoming > victim
}

} // verus!
