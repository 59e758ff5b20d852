use omen_fan::curve::{calculate_fan_speed, segment_speed, Breakpoint, Curve, CurveError, Strategy};

fn bp(temp: u8, speed: u8) -> Breakpoint {
    Breakpoint { temp, speed }
}

fn three_point_curve() -> Curve {
    Curve::new(vec![bp(45, 0), bp(60, 30), bp(93, 100)], 0).unwrap()
}

fn stock_curve(idle: u8) -> Curve {
    let temps = [45u8, 55, 60, 70, 75, 80, 85, 93];
    let speeds = [0u8, 20, 30, 60, 70, 80, 90, 100];
    let points = temps.iter().zip(speeds.iter()).map(|(&t, &s)| bp(t, s)).collect();
    Curve::new(points, idle).unwrap()
}

#[test]
fn linear_exact_breakpoint_and_truncation() {
    let c = three_point_curve();
    assert_eq!(c.interpolate(60, Strategy::Linear), 30);
    assert_eq!(c.interpolate(52, Strategy::Linear), 14);
}

#[test]
fn quadratic_rounds_to_nearest() {
    let c = three_point_curve();
    assert_eq!(c.interpolate(52, Strategy::Quadratic), 7);
}

#[test]
fn below_first_breakpoint_is_idle_for_both_strategies() {
    let c = three_point_curve();
    assert_eq!(c.interpolate(30, Strategy::Linear), 0);
    assert_eq!(c.interpolate(30, Strategy::Quadratic), 0);
}

#[test]
fn idle_speed_overrides_first_breakpoint_speed() {
    let c = Curve::new(vec![bp(45, 10), bp(60, 30)], 25).unwrap();
    for t in 0..=45u8 {
        assert_eq!(c.interpolate(t, Strategy::Linear), 25);
        assert_eq!(c.interpolate(t, Strategy::Quadratic), 25);
    }
    assert_eq!(c.interpolate(46, Strategy::Linear), 11);
}

#[test]
fn at_or_above_last_breakpoint_is_last_speed() {
    let c = stock_curve(0);
    for t in 93..=255u8 {
        assert_eq!(c.interpolate(t, Strategy::Linear), 100);
        assert_eq!(c.interpolate(t, Strategy::Quadratic), 100);
    }
}

#[test]
fn every_breakpoint_is_exact() {
    let c = stock_curve(5);
    assert_eq!(c.interpolate(45, Strategy::Linear), 5);
    let rest = [(55u8, 20u8), (60, 30), (70, 60), (75, 70), (80, 80), (85, 90), (93, 100)];
    for (t, s) in rest {
        assert_eq!(c.interpolate(t, Strategy::Linear), s);
        assert_eq!(c.interpolate(t, Strategy::Quadratic), s);
    }
}

#[test]
fn monotone_curve_gives_monotone_speeds() {
    let c = stock_curve(0);
    for strategy in [Strategy::Linear, Strategy::Quadratic] {
        let mut last = 0u8;
        for t in 0..=255u8 {
            let s = c.interpolate(t, strategy);
            assert!(s >= last);
            assert!(s <= 100);
            last = s;
        }
    }
}

#[test]
fn falling_segment_stays_between_its_speeds() {
    let c = Curve::new(vec![bp(40, 80), bp(60, 20)], 0).unwrap();
    assert_eq!(c.interpolate(50, Strategy::Linear), 50);
    assert_eq!(c.interpolate(45, Strategy::Linear), 65);
    assert_eq!(c.interpolate(50, Strategy::Quadratic), 65);
    for t in 41..60u8 {
        let s = c.interpolate(t, Strategy::Quadratic);
        assert!(s >= 20 && s <= 80);
    }
}

#[test]
fn single_breakpoint_curve() {
    let c = Curve::new(vec![bp(50, 40)], 10).unwrap();
    assert_eq!(c.interpolate(50, Strategy::Linear), 10);
    assert_eq!(c.interpolate(51, Strategy::Linear), 40);
}

#[test]
fn new_rejects_empty() {
    assert_eq!(Curve::new(vec![], 0).err(), Some(CurveError::Empty));
}

#[test]
fn new_rejects_speed_above_hundred() {
    assert_eq!(Curve::new(vec![bp(40, 101)], 0).err(), Some(CurveError::SpeedOutOfRange));
    assert_eq!(Curve::new(vec![bp(40, 50)], 101).err(), Some(CurveError::SpeedOutOfRange));
}

#[test]
fn new_rejects_non_increasing_temperatures() {
    let equal = vec![bp(40, 10), bp(50, 20), bp(50, 30)];
    assert_eq!(Curve::new(equal, 0).err(), Some(CurveError::TemperaturesNotIncreasing));
    let falling = vec![bp(60, 10), bp(50, 20)];
    assert_eq!(Curve::new(falling, 0).err(), Some(CurveError::TemperaturesNotIncreasing));
}

#[test]
fn new_keeps_points_and_idle() {
    let c = three_point_curve();
    assert_eq!(c.points, vec![bp(45, 0), bp(60, 30), bp(93, 100)]);
    assert_eq!(c.idle, 0);
}

#[test]
fn segment_speed_values() {
    assert_eq!(segment_speed(Strategy::Linear, 45, 0, 60, 30, 45), 0);
    assert_eq!(segment_speed(Strategy::Linear, 45, 0, 60, 30, 60), 30);
    assert_eq!(segment_speed(Strategy::Quadratic, 45, 0, 60, 30, 60), 30);
    assert_eq!(segment_speed(Strategy::Quadratic, 0, 0, 2, 100, 1), 25);
    assert_eq!(segment_speed(Strategy::Quadratic, 0, 0, 4, 2, 2), 1);
}

#[test]
fn ramp_below_above_and_between() {
    assert_eq!(calculate_fan_speed(40, 45, 93, 0, 100), 0);
    assert_eq!(calculate_fan_speed(45, 45, 93, 10, 100), 10);
    assert_eq!(calculate_fan_speed(93, 45, 93, 0, 100), 100);
    assert_eq!(calculate_fan_speed(52, 45, 93, 0, 100), 2);
    assert_eq!(calculate_fan_speed(52, 45, 60, 30, 0), 23);
    assert_eq!(calculate_fan_speed(69, 45, 93, 0, 100), 25);
}
