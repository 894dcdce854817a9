//! The transform gate: the second termination guarantee beside the depth
//! budget. The renderer tracks the cumulative scale factor of the
//! transforms it has issued (rotations and translations preserve length,
//! so only scale commands matter) and refuses to recurse once a reference
//! square of 100 user units would map to less than 0.3 device units.
//!
//! Cumulative scale is held in micro-units: 1_000_000 is the neutral
//! factor 1. Combining scales rounds down and saturates at the top of
//! `u64`; a saturated value only ever keeps rendering on, which is the
//! conservative direction (more is drawn, nothing is lost).

use vstd::prelude::*;

verus! {

/// Neutral cumulative scale: factor 1 in micro-units.
pub const SCALE_ONE_MICRO: u64 = 1_000_000;

/// A document scale value of 100 (stored as 100_000 milli) means
/// "unchanged", so a scale field is divided by this to get a factor.
pub const SCALE_NEUTRAL_MILLI: u64 = 100_000;

/// Length of the diagonal of the 100-unit reference square at factor 1,
/// in micro-units: 100 * sqrt(2) = 141.421356...
pub const REFERENCE_DIAGONAL_MICRO: u64 = 141_421_356;

/// Below this device-space length (micro-units, i.e. 0.3 units) the
/// reference diagonal is considered invisible and recursion stops.
pub const MIN_VISIBLE_MICRO: u64 = 300_000;

/// The cumulative factor after applying a scale field of `scale_milli`
/// (milli-units, 100_000 = unchanged) on top of `cum_micro`: the product
/// of the magnitudes, rounded down, saturating at u64::MAX. A negative
/// scale mirrors but stretches by its magnitude.
pub open spec fn spec_combine_scale(cum_micro: u64, scale_milli: i64) -> u64 {
    let mag = abs(scale_milli as int);
    let product = cum_micro * mag / (SCALE_NEUTRAL_MILLI as int);
    if product > u64::MAX { u64::MAX } else { product as u64 }
}

/// Magnitude of an int.
pub open spec fn abs(v: int) -> int {
    if v < 0 {
        -v
    } else {
        v
    }
}

/// Device-space length, in micro-units, of the reference diagonal under
/// the cumulative scale `cum_micro`, rounded down and saturating.
pub open spec fn spec_reference_length(cum_micro: u64) -> u64 {
    let len = cum_micro * (REFERENCE_DIAGONAL_MICRO as int) / (SCALE_ONE_MICRO as int);
    if len > u64::MAX { u64::MAX } else { len as u64 }
}

/// The cutoff decision: keep rendering exactly when the reference
/// diagonal is still visible.
pub open spec fn spec_should_continue(cum_micro: u64) -> bool {
    spec_reference_length(cum_micro) >= MIN_VISIBLE_MICRO
}

/// Executable form of `spec_combine_scale`.
pub fn combine_scale(cum_micro: u64, scale_milli: i64) -> (r: u64)
    ensures
        r == spec_combine_scale(cum_micro, scale_milli),
{
    let mag: u64 = if scale_milli >= 0 {
        scale_milli as u64
    } else {
        (-(scale_milli as i128)) as u64
    };
    proof {
        vstd::arithmetic::mul::lemma_mul_upper_bound(
            cum_micro as int,
            u64::MAX as int,
            mag as int,
            u64::MAX as int,
        );
    }
    let product: u128 = (cum_micro as u128) * (mag as u128) / (SCALE_NEUTRAL_MILLI as u128);
    if product > u64::MAX as u128 {
        u64::MAX
    } else {
        product as u64
    }
}

/// Executable form of `spec_should_continue`.
pub fn should_continue(cum_micro: u64) -> (r: bool)
    ensures
        r == spec_should_continue(cum_micro),
{
    let len: u128 = (cum_micro as u128) * (REFERENCE_DIAGONAL_MICRO as u128) / (SCALE_ONE_MICRO
        as u128);
    let clamped: u64 = if len > u64::MAX as u128 {
        u64::MAX
    } else {
        len as u64
    };
    clamped >= MIN_VISIBLE_MICRO
}

} // verus!
