//! Scaling a speed percentage to each fan channel's duty units.
use vstd::prelude::*;
use crate::registers::{FAN1_MAX, FAN2_MAX};

verus! {

/// `channel_max * speed / 100`, truncated.
pub open spec fn duty_spec(speed: int, channel_max: int) -> int {
    channel_max * speed / 100
}

/// The duty value for `speed` percent on a channel whose largest duty is
/// `channel_max`.
pub fn to_duty(speed: u8, channel_max: u8) -> (r: u8)
    requires
        speed <= 100,
    ensures
        r == duty_spec(speed as int, channel_max as int),
        r <= channel_max,
        speed == 100 ==> r == channel_max,
        speed == 0 ==> r == 0,
{
    assert(channel_max * speed <= channel_max * 100) by (nonlinear_arith)
        requires speed <= 100;
    let wide: u16 = channel_max as u16 * speed as u16;
    (wide / 100) as u8
}

/// Duty values of both fan channels.
#[derive(Clone, Copy, Debug, PartialEq, Eq, Structural)]
pub struct DutyPair {
    pub fan1: u8,
    pub fan2: u8,
}

/// The duty pair of both fan channels for one speed percentage.
pub open spec fn duties_spec(speed: int) -> DutyPair {
    DutyPair {
        fan1: duty_spec(speed, FAN1_MAX as int) as u8,
        fan2: duty_spec(speed, FAN2_MAX as int) as u8,
    }
}

/// Duties of both fan channels for `speed` percent, each scaled to its own
/// maximum.
pub fn fan_duties(speed: u8) -> (r: DutyPair)
    requires
        speed <= 100,
    ensures
        r == duties_spec(speed as int),
        r.fan1 <= FAN1_MAX,
        r.fan2 <= FAN2_MAX,
{
    DutyPair { fan1: to_duty(speed, FAN1_MAX), fan2: to_duty(speed, FAN2_MAX) }
}

} // verus!
