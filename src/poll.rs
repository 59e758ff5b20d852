//! The delay before the next temperature sample, from how fast the
//! temperature moves.
use vstd::prelude::*;

verus! {

/// Delay while the temperature moves by more than five degrees.
pub const SHORT_INTERVAL_MS: u64 = 500;
/// Delay while it moves by three to five degrees.
pub const MEDIUM_INTERVAL_MS: u64 = 1000;
/// Delay while it moves by two degrees or less.
pub const LONG_INTERVAL_MS: u64 = 5000;

pub open spec fn abs_diff(a: int, b: int) -> int {
    if a >= b { a - b } else { b - a }
}

/// The delay, in milliseconds, for a temperature change of `delta` degrees.
pub open spec fn interval_for(delta: int) -> int {
    if delta > 5 {
        SHORT_INTERVAL_MS as int
    } else if delta > 2 {
        MEDIUM_INTERVAL_MS as int
    } else {
        LONG_INTERVAL_MS as int
    }
}

/// Milliseconds to wait before the next sample, after the temperature went
/// from `prev_temp` to `current_temp`.
pub fn calculate_poll_interval(prev_temp: u8, current_temp: u8) -> (r: u64)
    ensures
        r == interval_for(abs_diff(current_temp as int, prev_temp as int)),
{
    let delta: u8 = if current_temp >= prev_temp {
        current_temp - prev_temp
    } else {
        prev_temp - current_temp
    };
    if delta > 5 {
        SHORT_INTERVAL_MS
    } else if delta > 2 {
        MEDIUM_INTERVAL_MS
    } else {
        LONG_INTERVAL_MS
    }
}

/// The larger the temperature change, the shorter (or equal) the delay.
pub proof fn lemma_interval_non_increasing(prev_a: u8, current_a: u8, prev_b: u8, current_b: u8)
    requires
        abs_diff(current_a as int, prev_a as int) <= abs_diff(current_b as int, prev_b as int),
    ensures
        interval_for(abs_diff(current_b as int, prev_b as int)) <= interval_for(
            abs_diff(current_a as int, prev_a as int),
        ),
{
}

} // verus!
