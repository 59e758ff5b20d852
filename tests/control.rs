use omen_fan::control::{ControlState, LoopPolicy};
use omen_fan::curve::{Breakpoint, Curve, Strategy};
use omen_fan::duty::DutyPair;
use omen_fan::registers::{Owner, RegisterWrite};

fn curve() -> Curve {
    let points = vec![
        Breakpoint { temp: 45, speed: 0 },
        Breakpoint { temp: 60, speed: 30 },
        Breakpoint { temp: 93, speed: 100 },
    ];
    Curve::new(points, 0).unwrap()
}

fn policy(every: bool, select: bool, adaptive: bool) -> LoopPolicy {
    LoopPolicy {
        strategy: Strategy::Linear,
        disable_every_iteration: every,
        select_mode: select,
        adaptive_polling: adaptive,
        base_interval_ms: 1000,
    }
}

fn is_fan(w: &RegisterWrite) -> bool {
    w.offset == 0x34 || w.offset == 0x35
}

#[test]
fn start_takes_control() {
    let (state, writes) = ControlState::start(50, &policy(false, false, true));
    assert_eq!(writes, vec![RegisterWrite { offset: 0x62, value: 0x06 }]);
    assert_eq!(state.previous_duty, DutyPair { fan1: 0, fan2: 0 });
    assert_eq!(state.previous_temperature, 50);
    assert_eq!(state.poll_interval_ms, 1000);
    assert_eq!(state.owner, Owner::Software);
}

#[test]
fn identical_duties_are_written_once() {
    let c = curve();
    let p = policy(false, false, true);
    let (mut state, _) = ControlState::start(60, &p);
    let first = state.iterate(&c, &p, 60, 40);
    assert_eq!(
        first.writes,
        vec![RegisterWrite { offset: 0x34, value: 16 }, RegisterWrite { offset: 0x35, value: 17 }]
    );
    let second = state.iterate(&c, &p, 40, 60);
    assert!(second.writes.is_empty());
    assert_eq!(state.previous_duty, DutyPair { fan1: 16, fan2: 17 });
}

#[test]
fn zero_target_at_start_is_not_written() {
    let c = curve();
    let p = policy(false, false, true);
    let (mut state, _) = ControlState::start(30, &p);
    let step = state.iterate(&c, &p, 30, 30);
    assert!(step.writes.is_empty());
    assert_eq!(step.sleep_ms, 5000);
}

#[test]
fn every_iteration_policy_and_profile() {
    let c = curve();
    let p = policy(true, true, false);
    let (mut state, _) = ControlState::start(90, &p);
    let step = state.iterate(&c, &p, 90, 20);
    assert_eq!(step.writes[0], RegisterWrite { offset: 0x62, value: 0x06 });
    assert_eq!(step.writes[1], RegisterWrite { offset: 0x95, value: 0x30 });
    assert_eq!(step.writes.len(), 4);
    assert!(is_fan(&step.writes[2]) && is_fan(&step.writes[3]));
    assert_eq!(step.sleep_ms, 1000);
    let again = state.iterate(&c, &p, 90, 20);
    assert_eq!(again.writes.len(), 2);
    assert!(!again.writes.iter().any(is_fan));
}

#[test]
fn adaptive_delay_follows_temperature_change() {
    let c = curve();
    let p = policy(false, false, true);
    let (mut state, _) = ControlState::start(50, &p);
    assert_eq!(state.iterate(&c, &p, 53, 0).sleep_ms, 1000);
    assert_eq!(state.iterate(&c, &p, 60, 0).sleep_ms, 500);
    assert_eq!(state.iterate(&c, &p, 61, 0).sleep_ms, 5000);
    assert_eq!(state.poll_interval_ms, 5000);
    assert_eq!(state.previous_temperature, 61);
}
