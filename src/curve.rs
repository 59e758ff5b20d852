//! Temperature-to-speed curves: breakpoints, their validity, and linear or
//! quadratic interpolation between them.
use vstd::prelude::*;
use vstd::arithmetic::div_mod::{
    lemma_basic_div, lemma_div_is_ordered, lemma_div_pos_is_pos, lemma_multiply_divide_lt,
};
use vstd::arithmetic::mul::{lemma_mul_basics, lemma_mul_inequality};

verus! {

/// How a speed is computed between two breakpoints.
#[derive(Clone, Copy, Debug, PartialEq, Eq, Structural)]
pub enum Strategy {
    /// Straight line, truncating division.
    Linear,
    /// Parabola in the normalised position, rounded to the nearest integer.
    Quadratic,
}

/// Linear interpolation from `(t0, s0)` to `(t1, s1)` at `t`; the fraction
/// is truncated toward `s0`.
pub open spec fn linear_segment(t0: int, s0: int, t1: int, s1: int, t: int) -> int {
    if s1 >= s0 {
        s0 + (s1 - s0) * (t - t0) / (t1 - t0)
    } else {
        s0 - (s0 - s1) * (t - t0) / (t1 - t0)
    }
}

/// `s0 + (s1 - s0) * x^2` with `x = (t - t0) / (t1 - t0)`, rounded to the
/// nearest integer, halves away from zero.
pub open spec fn quadratic_segment(t0: int, s0: int, t1: int, s1: int, t: int) -> int {
    let den = (t1 - t0) * (t1 - t0);
    let num = (t - t0) * (t - t0);
    if s1 >= s0 {
        s0 + (2 * (s1 - s0) * num + den) / (2 * den)
    } else {
        s0 - (2 * (s0 - s1) * num + den) / (2 * den)
    }
}

/// The speed between two breakpoints under a strategy.
pub open spec fn segment(strategy: Strategy, t0: int, s0: int, t1: int, s1: int, t: int) -> int {
    match strategy {
        Strategy::Linear => linear_segment(t0, s0, t1, s1, t),
        Strategy::Quadratic => quadratic_segment(t0, s0, t1, s1, t),
    }
}

/// The smaller of two integers.
pub open spec fn min_of(a: int, b: int) -> int {
    if a <= b { a } else { b }
}

/// The larger of two integers.
pub open spec fn max_of(a: int, b: int) -> int {
    if a >= b { a } else { b }
}

/// A fraction `diff * num / den` with `num <= den` never exceeds `diff`.
proof fn lemma_fraction_bounded(diff: int, num: int, den: int)
    requires
        0 <= diff,
        0 <= num <= den,
        0 < den,
    ensures
        0 <= diff * num / den <= diff,
{
    lemma_mul_inequality(num, den, diff);
    assert(diff * num <= diff * den) by (nonlinear_arith)
        requires num * diff <= den * diff;
    assert(0 <= diff * num) by (nonlinear_arith)
        requires 0 <= diff, 0 <= num;
    assert(diff * num < den * (diff + 1)) by (nonlinear_arith)
        requires diff * num <= diff * den, 0 < den;
    lemma_div_pos_is_pos(diff * num, den);
    lemma_multiply_divide_lt(diff * num, den, diff + 1);
}

/// The rounded square fraction `(2 * diff * num + den) / (2 * den)` with
/// `num <= den` never exceeds `diff`.
proof fn lemma_rounded_fraction_bounded(diff: int, num: int, den: int)
    requires
        0 <= diff,
        0 <= num <= den,
        0 < den,
    ensures
        0 <= (2 * diff * num + den) / (2 * den) <= diff,
{
    assert(2 * diff * num + den < (2 * den) * (diff + 1)) by (nonlinear_arith)
        requires 0 <= diff, 0 <= num <= den, 0 < den;
    assert(0 <= 2 * diff * num + den) by (nonlinear_arith)
        requires 0 <= diff, 0 <= num, 0 < den;
    lemma_div_pos_is_pos(2 * diff * num + den, 2 * den);
    lemma_multiply_divide_lt(2 * diff * num + den, 2 * den, diff + 1);
}

/// Between two breakpoints the speed stays within the two speeds.
pub proof fn lemma_segment_within(strategy: Strategy, t0: int, s0: int, t1: int, s1: int, t: int)
    requires
        t0 <= t <= t1,
        t0 < t1,
    ensures
        min_of(s0, s1) <= segment(strategy, t0, s0, t1, s1, t) <= max_of(s0, s1),
{
    let diff = if s1 >= s0 { s1 - s0 } else { s0 - s1 };
    match strategy {
        Strategy::Linear => {
            lemma_fraction_bounded(diff, t - t0, t1 - t0);
        },
        Strategy::Quadratic => {
            assert(0 <= (t - t0) * (t - t0) <= (t1 - t0) * (t1 - t0)) by (nonlinear_arith)
                requires t0 <= t <= t1;
            assert(0 < (t1 - t0) * (t1 - t0)) by (nonlinear_arith)
                requires t0 < t1;
            lemma_rounded_fraction_bounded(diff, (t - t0) * (t - t0), (t1 - t0) * (t1 - t0));
        },
    }
}

/// The speed between two breakpoints, on machine integers.
pub fn segment_speed(strategy: Strategy, t0: u8, s0: u8, t1: u8, s1: u8, t: u8) -> (r: u8)
    requires
        t0 <= t <= t1,
        t0 < t1,
    ensures
        r == segment(strategy, t0 as int, s0 as int, t1 as int, s1 as int, t as int),
        min_of(s0 as int, s1 as int) <= r <= max_of(s0 as int, s1 as int),
{
    proof {
        lemma_segment_within(strategy, t0 as int, s0 as int, t1 as int, s1 as int, t as int);
    }
    let w: u32 = (t1 - t0) as u32;
    let d: u32 = (t - t0) as u32;
    let up = s1 >= s0;
    let diff: u32 = if up { (s1 - s0) as u32 } else { (s0 - s1) as u32 };
    let step: u32 = match strategy {
        Strategy::Linear => {
            assert(diff * d <= 255 * 255) by (nonlinear_arith)
                requires diff <= 255, d <= 255;
            diff * d / w
        },
        Strategy::Quadratic => {
            assert(0 < w * w <= 255 * 255 && d * d <= w * w) by (nonlinear_arith)
                requires d <= w <= 255, 0 < w;
            let den: u32 = w * w;
            let num: u32 = d * d;
            assert(2 * diff * num <= 2 * 255 * 65025) by (nonlinear_arith)
                requires diff <= 255, num <= 65025;
            (2 * diff * num + den) / (2 * den)
        },
    };
    if up {
        (s0 as u32 + step) as u8
    } else {
        (s0 as u32 - step) as u8
    }
}

/// One anchor of a curve: at `temp` degrees the fans run at `speed` percent.
#[derive(Clone, Copy, Debug, PartialEq, Eq, Structural)]
pub struct Breakpoint {
    pub temp: u8,
    pub speed: u8,
}

/// Why a set of breakpoints is not a curve.
#[derive(Clone, Copy, Debug, PartialEq, Eq, Structural)]
pub enum CurveError {
    /// No breakpoint at all.
    Empty,
    /// The idle speed or a breakpoint's speed is above 100 percent.
    SpeedOutOfRange,
    /// Temperatures are not strictly increasing.
    TemperaturesNotIncreasing,
}

pub open spec fn temps_increasing(ps: Seq<Breakpoint>) -> bool {
    forall|i: int, j: int| 0 <= i < j < ps.len() ==> ps[i].temp < ps[j].temp
}

pub open spec fn speeds_in_range(ps: Seq<Breakpoint>) -> bool {
    forall|i: int| 0 <= i < ps.len() ==> ps[i].speed <= 100
}

pub open spec fn speeds_non_decreasing(ps: Seq<Breakpoint>) -> bool {
    forall|i: int, j: int| 0 <= i < j < ps.len() ==> ps[i].speed <= ps[j].speed
}

/// A well-formed curve: at least one breakpoint, strictly increasing
/// temperatures, speeds and idle speed within percent range.
pub open spec fn valid_curve(ps: Seq<Breakpoint>, idle: u8) -> bool {
    &&& ps.len() > 0
    &&& temps_increasing(ps)
    &&& speeds_in_range(ps)
    &&& idle <= 100
}

/// `i` names the interval `[ps[i - 1], ps[i])` that holds `t`.
pub open spec fn brackets(ps: Seq<Breakpoint>, t: int, i: int) -> bool {
    &&& 1 <= i < ps.len()
    &&& ps[i - 1].temp <= t
    &&& t < ps[i].temp
}

/// The speed that a curve asks for at temperature `t`: the idle speed up to
/// and including the first breakpoint, the last speed from the last
/// breakpoint on, and in between the segment whose lower end is the last
/// breakpoint at or below `t`.
pub open spec fn interpolate_spec(ps: Seq<Breakpoint>, idle: u8, strategy: Strategy, t: int) -> int {
    if t <= ps[0].temp {
        idle as int
    } else if t >= ps.last().temp {
        ps.last().speed as int
    } else {
        let i = choose|i: int| brackets(ps, t, i);
        segment(strategy, ps[i - 1].temp as int, ps[i - 1].speed as int, ps[i].temp as int, ps[i].speed as int, t)
    }
}

/// With increasing temperatures at most one interval holds a temperature.
pub proof fn lemma_brackets_unique(ps: Seq<Breakpoint>, t: int, i: int, j: int)
    requires
        temps_increasing(ps),
        brackets(ps, t, i),
        brackets(ps, t, j),
    ensures
        i == j,
{
    if i < j {
        assert(ps[i].temp <= ps[j - 1].temp);
    } else if j < i {
        assert(ps[j].temp <= ps[i - 1].temp);
    }
}

/// A temperature strictly between the first and the last breakpoint lies in
/// exactly one interval, the one that `interpolate_spec` picks.
pub proof fn lemma_brackets_exist(ps: Seq<Breakpoint>, t: int, k: int)
    requires
        temps_increasing(ps),
        0 < k < ps.len(),
        ps[0].temp <= t < ps[k].temp,
    ensures
        exists|i: int| brackets(ps, t, i),
    decreases k,
{
    if ps[k - 1].temp <= t {
        assert(brackets(ps, t, k));
    } else {
        lemma_brackets_exist(ps, t, k - 1);
    }
}

/// On a rising segment the speed does not fall as the temperature rises.
pub proof fn lemma_segment_monotone(
    strategy: Strategy,
    t0: int,
    s0: int,
    t1: int,
    s1: int,
    a: int,
    b: int,
)
    requires
        s0 <= s1,
        t0 <= a <= b <= t1,
        t0 < t1,
    ensures
        segment(strategy, t0, s0, t1, s1, a) <= segment(strategy, t0, s0, t1, s1, b),
{
    let diff = s1 - s0;
    match strategy {
        Strategy::Linear => {
            lemma_mul_inequality(a - t0, b - t0, diff);
            assert(diff * (a - t0) <= diff * (b - t0)) by (nonlinear_arith)
                requires (a - t0) * diff <= (b - t0) * diff;
            lemma_div_is_ordered(diff * (a - t0), diff * (b - t0), t1 - t0);
        },
        Strategy::Quadratic => {
            let den = (t1 - t0) * (t1 - t0);
            assert(0 < (t1 - t0) * (t1 - t0)) by (nonlinear_arith)
                requires t0 < t1;
            assert(2 * diff * ((a - t0) * (a - t0)) + den <= 2 * diff * ((b - t0) * (b - t0)) + den)
                by (nonlinear_arith)
                requires 0 <= diff, t0 <= a <= b;
            lemma_div_is_ordered(
                2 * diff * ((a - t0) * (a - t0)) + den,
                2 * diff * ((b - t0) * (b - t0)) + den,
                2 * den,
            );
        },
    }
}

/// At its lower end a segment gives exactly the lower breakpoint's speed.
pub proof fn lemma_segment_at_start(strategy: Strategy, t0: int, s0: int, t1: int, s1: int)
    requires
        t0 < t1,
    ensures
        segment(strategy, t0, s0, t1, s1, t0) == s0,
{
    let diff = if s1 >= s0 { s1 - s0 } else { s0 - s1 };
    lemma_mul_basics(diff);
    lemma_mul_basics(2 * diff);
    assert((t0 - t0) * (t0 - t0) == 0);
    assert(0 < (t1 - t0) * (t1 - t0)) by (nonlinear_arith)
        requires t0 < t1;
    lemma_basic_div(0, t1 - t0);
    lemma_basic_div((t1 - t0) * (t1 - t0), 2 * ((t1 - t0) * (t1 - t0)));
}

/// Above the first breakpoint a curve with non-decreasing speeds asks for at
/// least the first breakpoint's speed.
proof fn lemma_interpolate_at_least_first(ps: Seq<Breakpoint>, idle: u8, strategy: Strategy, t: int)
    requires
        valid_curve(ps, idle),
        speeds_non_decreasing(ps),
        t > ps[0].temp,
    ensures
        interpolate_spec(ps, idle, strategy, t) >= ps[0].speed,
{
    let n = ps.len();
    if t >= ps.last().temp {
        if n > 1 {
            assert(ps[0].speed <= ps[n - 1].speed);
        }
    } else {
        lemma_brackets_exist(ps, t, n - 1);
        let i = choose|i: int| brackets(ps, t, i);
        let lo = ps[i - 1];
        let hi = ps[i];
        lemma_segment_within(strategy, lo.temp as int, lo.speed as int, hi.temp as int, hi.speed as int, t);
        if i > 1 {
            assert(ps[0].speed <= lo.speed);
        }
        assert(lo.speed <= hi.speed);
    }
}

/// For a curve whose speeds never fall, and whose idle speed is not above
/// the first breakpoint's speed, the interpolated speed never falls as the
/// temperature rises.
pub proof fn lemma_interpolate_monotone(ps: Seq<Breakpoint>, idle: u8, strategy: Strategy, a: int, b: int)
    requires
        valid_curve(ps, idle),
        speeds_non_decreasing(ps),
        idle <= ps[0].speed,
        a <= b,
    ensures
        interpolate_spec(ps, idle, strategy, a) <= interpolate_spec(ps, idle, strategy, b),
{
    let n = ps.len();
    if a <= ps[0].temp {
        if b > ps[0].temp {
            lemma_interpolate_at_least_first(ps, idle, strategy, b);
        }
    } else if a < ps.last().temp {
        lemma_brackets_exist(ps, a, n - 1);
        let i = choose|i: int| brackets(ps, a, i);
        let lo = ps[i - 1];
        let hi = ps[i];
        assert(lo.speed <= hi.speed);
        lemma_segment_within(strategy, lo.temp as int, lo.speed as int, hi.temp as int, hi.speed as int, a);
        if b >= ps.last().temp {
            if i < n - 1 {
                assert(hi.speed <= ps[n - 1].speed);
            }
        } else {
            lemma_brackets_exist(ps, b, n - 1);
            let j = choose|j: int| brackets(ps, b, j);
            let lo2 = ps[j - 1];
            let hi2 = ps[j];
            if j < i {
                assert(ps[j].temp <= ps[i - 1].temp);
            }
            if i == j {
                lemma_segment_monotone(strategy, lo.temp as int, lo.speed as int, hi.temp as int, hi.speed as int, a, b);
            } else {
                assert(lo2.speed <= hi2.speed);
                lemma_segment_within(strategy, lo2.temp as int, lo2.speed as int, hi2.temp as int, hi2.speed as int, b);
                if i < j - 1 {
                    assert(hi.speed <= lo2.speed);
                }
            }
        }
    }
}

/// At its first breakpoint a curve asks for the idle speed; at any other
/// breakpoint, which is the lower end of its interval, it asks for exactly
/// that breakpoint's speed.
pub proof fn lemma_breakpoint_exact(ps: Seq<Breakpoint>, idle: u8, strategy: Strategy, k: int)
    requires
        valid_curve(ps, idle),
        0 <= k < ps.len(),
    ensures
        k == 0 ==> interpolate_spec(ps, idle, strategy, ps[k].temp as int) == idle,
        k > 0 ==> interpolate_spec(ps, idle, strategy, ps[k].temp as int) == ps[k].speed,
{
    if k > 0 {
        assert(ps[0].temp < ps[k].temp);
        if k < ps.len() - 1 {
            let t = ps[k].temp as int;
            assert(ps[k].temp < ps[k + 1].temp);
            assert(brackets(ps, t, k + 1));
            let j = choose|j: int| brackets(ps, t, j);
            lemma_brackets_unique(ps, t, k + 1, j);
            lemma_segment_at_start(strategy, t, ps[k].speed as int, ps[k + 1].temp as int, ps[k + 1].speed as int);
        }
    }
}

/// A temperature curve with its idle speed.
pub struct Curve {
    pub points: Vec<Breakpoint>,
    pub idle: u8,
}

impl Curve {
    /// The curve is well formed, as [`Curve::new`] guarantees.
    pub open spec fn wf(&self) -> bool {
        valid_curve(self.points@, self.idle)
    }

    /// Builds a curve, rejecting an empty one first, then out-of-range
    /// speeds, then temperatures that do not strictly increase.
    pub fn new(points: Vec<Breakpoint>, idle: u8) -> (r: Result<Curve, CurveError>)
        ensures
            points@.len() == 0 ==> r == Err::<Curve, CurveError>(CurveError::Empty),
            points@.len() > 0 && !(speeds_in_range(points@) && idle <= 100) ==> r == Err::<
                Curve,
                CurveError,
            >(CurveError::SpeedOutOfRange),
            points@.len() > 0 && speeds_in_range(points@) && idle <= 100 && !temps_increasing(
                points@,
            ) ==> r == Err::<Curve, CurveError>(CurveError::TemperaturesNotIncreasing),
            valid_curve(points@, idle) ==> r is Ok && r->Ok_0.points@ == points@ && r->Ok_0.idle
                == idle,
    {
        let n = points.len();
        if n == 0 {
            return Err(CurveError::Empty);
        }
        if idle > 100 {
            return Err(CurveError::SpeedOutOfRange);
        }
        let mut k: usize = 0;
        while k < n
            invariant
                n == points@.len(),
                0 <= k <= n,
                forall|i: int| 0 <= i < k ==> points@[i].speed <= 100,
            decreases n - k,
        {
            if points[k].speed > 100 {
                return Err(CurveError::SpeedOutOfRange);
            }
            k += 1;
        }
        let mut k: usize = 1;
        while k < n
            invariant
                n == points@.len(),
                1 <= k <= n,
                speeds_in_range(points@),
                idle <= 100,
                forall|i: int, j: int| 0 <= i < j < k ==> points@[i].temp < points@[j].temp,
            decreases n - k,
        {
            if points[k - 1].temp >= points[k].temp {
                proof {
                    assert(!(points@[k - 1].temp < points@[k as int].temp));
                }
                return Err(CurveError::TemperaturesNotIncreasing);
            }
            proof {
                assert forall|i: int, j: int| 0 <= i < j < k + 1 implies points@[i].temp
                    < points@[j].temp by {
                    if j == k && i < k - 1 {
                        assert(points@[i].temp < points@[k - 1].temp);
                    }
                }
            }
            k += 1;
        }
        Ok(Curve { points, idle })
    }

    /// The speed percentage that the curve asks for at `temp`.
    pub fn interpolate(&self, temp: u8, strategy: Strategy) -> (r: u8)
        requires
            self.wf(),
        ensures
            r == interpolate_spec(self.points@, self.idle, strategy, temp as int),
            temp <= self.points@[0].temp ==> r == self.idle,
            temp > self.points@[0].temp && temp >= self.points@.last().temp ==> r
                == self.points@.last().speed,
            r <= 100,
    {
        let n = self.points.len();
        if temp <= self.points[0].temp {
            return self.idle;
        }
        if temp >= self.points[n - 1].temp {
            return self.points[n - 1].speed;
        }
        let mut i: usize = 1;
        while self.points[i].temp <= temp
            invariant
                self.wf(),
                n == self.points@.len(),
                1 <= i < n,
                self.points@[i - 1].temp <= temp,
                temp < self.points@[n - 1].temp,
            decreases n - i,
        {
            i += 1;
        }
        let lo = self.points[i - 1];
        let hi = self.points[i];
        proof {
            let ps = self.points@;
            assert(brackets(ps, temp as int, i as int));
            let j = choose|j: int| brackets(ps, temp as int, j);
            lemma_brackets_unique(ps, temp as int, i as int, j);
            assert(lo.temp < hi.temp);
        }
        segment_speed(strategy, lo.temp, lo.speed, hi.temp, hi.speed, temp)
    }
}

/// A two-point quadratic ramp: `speed_min` up to `temp_min`, `speed_max`
/// from `temp_max` on, and the quadratic segment in between.
pub open spec fn ramp_spec(temp: int, temp_min: int, temp_max: int, speed_min: int, speed_max: int) -> int {
    if temp <= temp_min {
        speed_min
    } else if temp >= temp_max {
        speed_max
    } else {
        quadratic_segment(temp_min, speed_min, temp_max, speed_max, temp)
    }
}

/// The speed of a two-point quadratic ramp at `temp`.
pub fn calculate_fan_speed(temp: u8, temp_min: u8, temp_max: u8, speed_min: u8, speed_max: u8) -> (r: u8)
    ensures
        r == ramp_spec(temp as int, temp_min as int, temp_max as int, speed_min as int, speed_max as int),
{
    if temp <= temp_min {
        speed_min
    } else if temp >= temp_max {
        speed_max
    } else {
        segment_speed(Strategy::Quadratic, temp_min, speed_min, temp_max, speed_max, temp)
    }
}

} // verus!
