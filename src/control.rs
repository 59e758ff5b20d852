//! The decisions of the control loop. The caller samples the registers,
//! hands the readings to [`ControlState::iterate`], performs the register
//! writes it returns in order, and sleeps for the delay it returns.
//!
//! Policy: the arbitration register is written once by
//! [`ControlState::start`], and again on every iteration where the loop
//! policy asks for it. The duty registers start out presumed at `(0, 0)`, so
//! a first target of zero duty is not written. Before the first iteration the
//! previous temperature is the sample taken at start.
use vstd::prelude::*;
use crate::curve::{interpolate_spec, valid_curve, Breakpoint, Curve, Strategy};
use crate::duty::{duties_spec, fan_duties, DutyPair};
use crate::mode::{selection_spec, temp_to_performance};
use crate::poll::{abs_diff, calculate_poll_interval, interval_for};
use crate::registers::{
    disable_bios_control, fan_writes, get_max_temp, Owner, RegisterWrite, BIOS_CONTROL_OFFSET,
    BIOS_DISABLE_CODE, FAN1_OFFSET, FAN2_OFFSET,
};

verus! {

/// How the loop runs.
#[derive(Clone, Copy, Debug, PartialEq, Eq, Structural)]
pub struct LoopPolicy {
    /// Interpolation between breakpoints.
    pub strategy: Strategy,
    /// Write the arbitration code on every iteration, not only at start.
    pub disable_every_iteration: bool,
    /// Choose the performance profile from the temperature on every iteration.
    pub select_mode: bool,
    /// Shorten the delay while the temperature moves; otherwise always
    /// wait `base_interval_ms`.
    pub adaptive_polling: bool,
    pub base_interval_ms: u64,
}

/// What the loop remembers from one iteration to the next.
#[derive(Clone, Copy, Debug, PartialEq, Eq, Structural)]
pub struct ControlState {
    /// The duty pair last written, first channel first.
    pub previous_duty: DutyPair,
    pub previous_temperature: u8,
    pub poll_interval_ms: u64,
    pub owner: Owner,
}

/// The outcome of one iteration: register writes to perform in order, then
/// the delay before the next one.
pub struct Step {
    pub writes: Vec<RegisterWrite>,
    pub sleep_ms: u64,
}

pub open spec fn bios_disable_write() -> RegisterWrite {
    RegisterWrite { offset: BIOS_CONTROL_OFFSET, value: BIOS_DISABLE_CODE }
}

/// The duty pair that a curve asks for, given both temperature readings.
pub open spec fn target_duties(
    ps: Seq<Breakpoint>,
    idle: u8,
    strategy: Strategy,
    cpu_temp: u8,
    gpu_temp: u8,
) -> DutyPair {
    let temp = if cpu_temp >= gpu_temp { cpu_temp } else { gpu_temp };
    duties_spec(interpolate_spec(ps, idle, strategy, temp as int))
}

/// The state that the loop starts in after sampling `initial_temp`.
pub open spec fn start_spec(initial_temp: u8, policy: LoopPolicy) -> ControlState {
    ControlState {
        previous_duty: DutyPair { fan1: 0, fan2: 0 },
        previous_temperature: initial_temp,
        poll_interval_ms: policy.base_interval_ms,
        owner: Owner::Software,
    }
}

/// The state after one iteration.
pub open spec fn next_state(
    state: ControlState,
    ps: Seq<Breakpoint>,
    idle: u8,
    policy: LoopPolicy,
    cpu_temp: u8,
    gpu_temp: u8,
) -> ControlState {
    let temp = if cpu_temp >= gpu_temp { cpu_temp } else { gpu_temp };
    ControlState {
        previous_duty: target_duties(ps, idle, policy.strategy, cpu_temp, gpu_temp),
        previous_temperature: temp,
        poll_interval_ms: if policy.adaptive_polling {
            interval_for(abs_diff(temp as int, state.previous_temperature as int)) as u64
        } else {
            policy.base_interval_ms
        },
        owner: if policy.disable_every_iteration {
            Owner::Software
        } else {
            state.owner
        },
    }
}

/// The register writes of one iteration, in order: the arbitration code if
/// the policy rewrites it, the performance profile if the policy selects
/// one, and the duty pair only if it differs from the previous one.
pub open spec fn step_writes(
    state: ControlState,
    ps: Seq<Breakpoint>,
    idle: u8,
    policy: LoopPolicy,
    cpu_temp: u8,
    gpu_temp: u8,
) -> Seq<RegisterWrite> {
    let temp = if cpu_temp >= gpu_temp { cpu_temp } else { gpu_temp };
    let duties = target_duties(ps, idle, policy.strategy, cpu_temp, gpu_temp);
    let arbitration = if policy.disable_every_iteration {
        seq![bios_disable_write()]
    } else {
        Seq::<RegisterWrite>::empty()
    };
    let profile = if policy.select_mode {
        seq![selection_spec(temp).0]
    } else {
        Seq::<RegisterWrite>::empty()
    };
    let fans = if duties != state.previous_duty {
        fan_writes(duties.fan1, duties.fan2)
    } else {
        Seq::<RegisterWrite>::empty()
    };
    arbitration + profile + fans
}

pub open spec fn writes_no_fan(ws: Seq<RegisterWrite>) -> bool {
    forall|i: int| 0 <= i < ws.len() ==> ws[i].offset != FAN1_OFFSET && ws[i].offset != FAN2_OFFSET
}

impl ControlState {
    /// Starts the loop after sampling `initial_temp`: takes fan control from
    /// firmware and presumes both duty registers at zero.
    pub fn start(initial_temp: u8, policy: &LoopPolicy) -> (r: (ControlState, Vec<RegisterWrite>))
        ensures
            r.0 == start_spec(initial_temp, *policy),
            r.1@ == seq![bios_disable_write()],
    {
        let mut writes: Vec<RegisterWrite> = Vec::new();
        writes.push(disable_bios_control());
        proof {
            assert(writes@ =~= seq![bios_disable_write()]);
        }
        let state = ControlState {
            previous_duty: DutyPair { fan1: 0, fan2: 0 },
            previous_temperature: initial_temp,
            poll_interval_ms: policy.base_interval_ms,
            owner: Owner::Software,
        };
        (state, writes)
    }

    /// One iteration on the two temperature readings.
    pub fn iterate(&mut self, curve: &Curve, policy: &LoopPolicy, cpu_temp: u8, gpu_temp: u8) -> (r: Step)
        requires
            curve.wf(),
        ensures
            *final(self) == next_state(*old(self), curve.points@, curve.idle, *policy, cpu_temp, gpu_temp),
            r.writes@ == step_writes(*old(self), curve.points@, curve.idle, *policy, cpu_temp, gpu_temp),
            r.sleep_ms == final(self).poll_interval_ms,
    {
        let temp = get_max_temp(cpu_temp, gpu_temp);
        let speed = curve.interpolate(temp, policy.strategy);
        let duties = fan_duties(speed);
        let mut writes: Vec<RegisterWrite> = Vec::new();
        if policy.disable_every_iteration {
            writes.push(disable_bios_control());
        }
        let ghost after_arbitration = writes@;
        if policy.select_mode {
            let (profile, _ceiling) = temp_to_performance(temp);
            writes.push(profile);
        }
        let ghost after_profile = writes@;
        if duties.fan1 != self.previous_duty.fan1 || duties.fan2 != self.previous_duty.fan2 {
            writes.push(RegisterWrite { offset: FAN1_OFFSET, value: duties.fan1 });
            writes.push(RegisterWrite { offset: FAN2_OFFSET, value: duties.fan2 });
        }
        proof {
            let ps = curve.points@;
            let s = *old(self);
            assert(after_profile == after_arbitration + (if policy.select_mode {
                seq![selection_spec(temp).0]
            } else {
                Seq::<RegisterWrite>::empty()
            }));
            assert(writes@ =~= step_writes(s, ps, curve.idle, *policy, cpu_temp, gpu_temp));
        }
        let interval = if policy.adaptive_polling {
            calculate_poll_interval(self.previous_temperature, temp)
        } else {
            policy.base_interval_ms
        };
        self.previous_duty = duties;
        self.previous_temperature = temp;
        self.poll_interval_ms = interval;
        if policy.disable_every_iteration {
            self.owner = Owner::Software;
        }
        Step { writes, sleep_ms: interval }
    }
}

/// Write suppression: when two consecutive iterations compute the same duty
/// pair, the second writes no fan duty register, so the pair is written at
/// most once across both.
pub proof fn lemma_write_suppression(
    state: ControlState,
    ps: Seq<Breakpoint>,
    idle: u8,
    policy: LoopPolicy,
    cpu_first: u8,
    gpu_first: u8,
    cpu_second: u8,
    gpu_second: u8,
)
    requires
        valid_curve(ps, idle),
        target_duties(ps, idle, policy.strategy, cpu_first, gpu_first) == target_duties(
            ps,
            idle,
            policy.strategy,
            cpu_second,
            gpu_second,
        ),
    ensures
        writes_no_fan(
            step_writes(
                next_state(state, ps, idle, policy, cpu_first, gpu_first),
                ps,
                idle,
                policy,
                cpu_second,
                gpu_second,
            ),
        ),
{
    let mid = next_state(state, ps, idle, policy, cpu_first, gpu_first);
    let ws = step_writes(mid, ps, idle, policy, cpu_second, gpu_second);
    assert(ws.len() <= 2);
}

} // verus!
