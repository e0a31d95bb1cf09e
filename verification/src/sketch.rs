//! The trusted boundary to the `count-min-sketch` crate.
//!
//! Nothing in this file is proved. The contracts restate what the source of
//! `CountMinSketch8` shows: a table of `u8` counters, one row per hash
//! function, where the estimate of a key is the smallest counter among the
//! key's positions and an increment is a conservative update.

use count_min_sketch::CountMinSketch8;
use vstd::prelude::*;

verus! {

/// `CountMinSketch8`, the sketch with `u8` counters, as an opaque type.
#[verifier::external_type_specification]
#[verifier::external_body]
#[verifier::reject_recursive_types(K)]
pub struct ExCountMinSketch8<K>(CountMinSketch8<K>);

/// What `CountMinSketch8::estimate` answers for each key in the sketch's
/// current state. The map is total: the keyed hash places every key
/// somewhere in the table.
pub uninterp spec fn sketch_estimates(sketch: CountMinSketch8<u64>) -> Map<u64, u8>;

/// `CountMinSketch8::estimate`: the smallest counter among the positions of
/// `key`. A read-only probe.
#[verifier::external_body]
pub(crate) fn sketch_estimate(sketch: &CountMinSketch8<u64>, key: u64) -> (frequency: u8)
    ensures
        frequency == sketch_estimates(*sketch)[key],
{
    sketch.estimate(&key)
}

/// `CountMinSketch8::increment`, which is `add(key, 1)`: of the counters at
/// the positions of `key`, exactly those equal to the smallest one are raised
/// by one, saturating at `u8::MAX`. Hence the estimate of `key` goes up by
/// exactly one unless it is saturated, and no counter, so no estimate of any
/// key, falls or rises by more than one. The call does not panic.
#[verifier::external_body]
pub(crate) fn sketch_increment(sketch: &mut CountMinSketch8<u64>, key: u64)
    ensures
        sketch_estimates(*final(sketch))[key] == (if sketch_estimates(*old(sketch))[key] < 255 {
            sketch_estimates(*old(sketch))[key] + 1
        } else {
            255
        }),
        forall|other: u64|
            sketch_estimates(*old(sketch))[other] <= #[trigger] sketch_estimates(
                *final(sketch),
            )[other] <= sketch_estimates(*old(sketch))[other] + 1,
    no_unwind
{
    sketch.increment(&key)
}

/// `CountMinSketch8::reset`: every counter is halved, rounding down. Halving
/// is monotone, so the smallest counter of a key stays its smallest, and the
/// estimate of every key is halved too. The call does not panic.
#[verifier::external_body]
pub(crate) fn sketch_reset(sketch: &mut CountMinSketch8<u64>)
    ensures
        forall|key: u64| #[trigger]
            sketch_estimates(*final(sketch))[key] == sketch_estimates(*old(sketch))[key] / 2,
    no_unwind
{
    sketch.reset()
}

} // verus!
