//! The frequency estimator: approximate per-key access counts in fixed
//! memory, with periodic aging.

use crate::cache::ConfigurationError;
use crate::sketch::{sketch_estimate, sketch_estimates, sketch_increment, sketch_reset};
use count_min_sketch::CountMinSketch8;
use vstd::prelude::*;

verus! {

/// The largest frequency the estimator can report; counters saturate here.
pub const MAX_FREQUENCY: u8 = 255;

/// The widest counter table an estimator may be given: 2^24 columns.
pub const MAX_ESTIMATOR_WIDTH: usize = 16_777_216;

/// Whether a counter table may have `estimator_width` columns: at least one,
/// and no more than the widest table allowed.
pub open spec fn width_in_range(estimator_width: usize) -> bool {
    0 < estimator_width <= MAX_ESTIMATOR_WIDTH
}

/// Accepts a width for the counter table of a sketch, or says why not.
pub fn check_width(estimator_width: usize) -> (checked: Result<(), ConfigurationError>)
    ensures
        checked is Ok <==> width_in_range(estimator_width),
        checked is Err <==> estimator_width == 0 || estimator_width > MAX_ESTIMATOR_WIDTH,
        checked matches Err(error) ==> error == ConfigurationError::WidthOutOfRange,
{
    if estimator_width == 0 || estimator_width > MAX_ESTIMATOR_WIDTH {
        Err(ConfigurationError::WidthOutOfRange)
    } else {
        Ok(())
    }
}

/// The frequency after one more access: one higher, unless saturated.
pub open spec fn saturating_succ(frequency: u8) -> u8 {
    if frequency < MAX_FREQUENCY {
        (frequency + 1) as u8
    } else {
        MAX_FREQUENCY
    }
}

/// The most an estimate can say about `count` accesses.
pub open spec fn capped(count: nat) -> nat {
    if count < MAX_FREQUENCY as nat {
        count
    } else {
        MAX_FREQUENCY as nat
    }
}

/// A count-min sketch together with its aging schedule.
///
/// Every `interval` increments all counters are halved, so that estimates
/// follow recent behaviour. Beside the sketch the estimator keeps, as ghost
/// state, the true number of accesses of each key since the last decay and
/// the set of keys it has ever counted.
pub struct FrequencyEstimator {
    sketch: CountMinSketch8<u64>,
    interval: usize,
    pending: usize,
    recorded: Ghost<Map<u64, nat>>,
    observed: Ghost<Set<u64>>,
}

impl FrequencyEstimator {
    #[verifier::type_invariant]
    spec fn inv(self) -> bool {
        &&& 0 < self.interval
        &&& self.pending < self.interval
        &&& forall|key: u64| #[trigger] self.recorded@.contains_key(key)
        &&& forall|key: u64|
            capped(#[trigger] self.recorded@[key]) <= sketch_estimates(self.sketch)[key]
    }

    /// The estimated frequency of every key.
    pub closed spec fn frequencies(&self) -> Map<u64, u8> {
        sketch_estimates(self.sketch)
    }

    /// The estimated frequency of `key`.
    pub open spec fn frequency(&self, key: u64) -> u8 {
        self.frequencies()[key]
    }

    /// The true number of accesses of `key` counted since the last decay.
    pub closed spec fn recorded(&self, key: u64) -> nat {
        self.recorded@[key]
    }

    /// The keys that have been counted at least once.
    pub closed spec fn observed(&self) -> Set<u64> {
        self.observed@
    }

    /// The number of increments between two decays.
    pub closed spec fn interval(&self) -> nat {
        self.interval as nat
    }

    /// The number of increments since the last decay.
    pub closed spec fn pending(&self) -> nat {
        self.pending as nat
    }

    /// Whether the next increment completes an interval and so ends in a
    /// decay.
    pub open spec fn decay_due(&self) -> bool {
        self.pending() + 1 >= self.interval()
    }

    /// How one counted access of `key` relates the estimator before it,
    /// `self`, to the estimator after it, `next`.
    ///
    /// The estimate of `key` is its saturating successor; the estimate of any
    /// other key may be inflated by a collision, by at most one. Where the
    /// access completes an interval, the estimates are then halved and the
    /// true counts start again from zero.
    pub open spec fn counts_access(&self, next: &FrequencyEstimator, key: u64) -> bool {
        &&& next.interval() == self.interval()
        &&& next.observed() == self.observed().insert(key)
        &&& if self.decay_due() {
            &&& next.pending() == 0
            &&& next.frequency(key) == saturating_succ(self.frequency(key)) / 2
            &&& forall|other: u64|
                self.frequency(other) / 2 <= #[trigger] next.frequency(other) <= (self.frequency(
                    other,
                ) + 1) / 2
            &&& forall|other: u64| #[trigger] next.recorded(other) == 0
        } else {
            &&& next.pending() == self.pending() + 1
            &&& next.frequency(key) == saturating_succ(self.frequency(key))
            &&& forall|other: u64|
                self.frequency(other) <= #[trigger] next.frequency(other) <= self.frequency(other)
                    + 1
            &&& forall|other: u64| #[trigger]
                next.recorded(other) == self.recorded(other) + (if other == key {
                    1nat
                } else {
                    0nat
                })
        }
    }

    /// How a decay relates the estimator before it, `self`, to the estimator
    /// after it, `next`: every estimate is halved, rounding down, and a new
    /// interval begins.
    pub open spec fn decays_to(&self, next: &FrequencyEstimator) -> bool {
        &&& next.interval() == self.interval()
        &&& next.observed() == self.observed()
        &&& next.pending() == 0
        &&& forall|key: u64| #[trigger] next.frequency(key) == self.frequency(key) / 2
        &&& forall|key: u64| #[trigger] next.recorded(key) == 0
    }

    /// Wraps `sketch`, halving its counters after every `interval`
    /// increments. An interval of zero is raised to one.
    pub fn new(sketch: CountMinSketch8<u64>, interval: usize) -> (estimator: Self)
        ensures
            estimator.frequencies() == sketch_estimates(sketch),
            estimator.interval() == if interval == 0 {
                1
            } else {
                interval as nat
            },
            estimator.pending() == 0,
            estimator.observed() == Set::<u64>::empty(),
            forall|key: u64| #[trigger] estimator.recorded(key) == 0,
    {
        let interval: usize = if interval == 0 {
            1
        } else {
            interval
        };
        FrequencyEstimator {
            sketch,
            interval,
            pending: 0,
            recorded: Ghost(Map::new(|key: u64| true, |key: u64| 0nat)),
            observed: Ghost(Set::empty()),
        }
    }

    /// The estimated frequency of `key`; nothing is counted. Since the last
    /// decay the estimate has not fallen below the true number of accesses,
    /// up to saturation.
    pub fn estimate(&self, key: u64) -> (frequency: u8)
        ensures
            frequency == self.frequency(key),
            capped(self.recorded(key)) <= frequency,
    {
        proof {
            use_type_invariant(self);
        }
        sketch_estimate(&self.sketch, key)
    }

    /// Counts one access of `key`, then decays if that completes an
    /// interval.
    pub fn increment(&mut self, key: u64)
        ensures
            old(self).counts_access(final(self), key),
        no_unwind
    {
        proof {
            use_type_invariant(&*self);
        }
        sketch_increment(&mut self.sketch, key);
        self.observed = Ghost(self.observed@.insert(key));
        if self.pending + 1 < self.interval {
            self.recorded = Ghost(self.recorded@.insert(key, self.recorded@[key] + 1));
            self.pending = self.pending + 1;
        } else {
            self.decay();
        }
    }

    /// Halves every counter, rounding down, and begins a new interval.
    pub fn decay(&mut self)
        ensures
            old(self).decays_to(final(self)),
        no_unwind
    {
        proof {
            use_type_invariant(&*self);
        }
        self.recorded = Ghost(Map::new(|key: u64| true, |key: u64| 0nat));
        sketch_reset(&mut self.sketch);
        self.pending = 0;
    }
}

} // verus!
