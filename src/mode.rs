//! The firmware performance profile: classifying the register and choosing
//! a profile from the temperature.
use vstd::prelude::*;
use crate::registers::{PERFORMANCE_OFFSET, RegisterWrite};

verus! {

/// Register value of the normal profile.
pub const NORMAL_CODE: u8 = 0x30;
/// Register value of the performance profile.
pub const PERFORMANCE_CODE: u8 = 0x31;
/// Highest temperature at which the performance profile is chosen.
pub const PERFORMANCE_TEMP_LIMIT: u8 = 85;
/// Speed ceiling recommended with the normal profile.
pub const NORMAL_CEILING: u8 = 93;
/// Speed ceiling recommended with the performance profile.
pub const PERFORMANCE_CEILING: u8 = 80;

/// The profile that the performance register reports.
#[derive(Clone, Copy, Debug, PartialEq, Eq, Structural)]
pub enum PerformanceMode {
    Normal,
    Performance,
    /// A register value that names no known profile.
    Undefined,
}

pub open spec fn mode_spec(code: u8) -> PerformanceMode {
    if code == NORMAL_CODE {
        PerformanceMode::Normal
    } else if code == PERFORMANCE_CODE {
        PerformanceMode::Performance
    } else {
        PerformanceMode::Undefined
    }
}

/// Classifies a value read from the performance register.
pub fn mode(code: u8) -> (r: PerformanceMode)
    ensures
        r == mode_spec(code),
{
    if code == NORMAL_CODE {
        PerformanceMode::Normal
    } else if code == PERFORMANCE_CODE {
        PerformanceMode::Performance
    } else {
        PerformanceMode::Undefined
    }
}

/// The profile write and its recommended speed ceiling for `temp`: the
/// normal profile above the limit, the performance profile at or below it.
pub open spec fn selection_spec(temp: u8) -> (RegisterWrite, u8) {
    if temp > PERFORMANCE_TEMP_LIMIT {
        (RegisterWrite { offset: PERFORMANCE_OFFSET, value: NORMAL_CODE }, NORMAL_CEILING)
    } else {
        (RegisterWrite { offset: PERFORMANCE_OFFSET, value: PERFORMANCE_CODE }, PERFORMANCE_CEILING)
    }
}

/// Chooses the performance profile for `temp`: the register write to make
/// and the speed ceiling that goes with it.
pub fn temp_to_performance(temp: u8) -> (r: (RegisterWrite, u8))
    ensures
        r == selection_spec(temp),
{
    if temp > PERFORMANCE_TEMP_LIMIT {
        (RegisterWrite { offset: PERFORMANCE_OFFSET, value: NORMAL_CODE }, NORMAL_CEILING)
    } else {
        (RegisterWrite { offset: PERFORMANCE_OFFSET, value: PERFORMANCE_CODE }, PERFORMANCE_CEILING)
    }
}

} // verus!
