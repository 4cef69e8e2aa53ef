//! Fan duty computation: curve interpolation, per-step rate limiting and the
//! hysteresis-aware curve stepper that drives the fan in curve mode.
use vstd::prelude::*;

verus! {

// ---------------------------------------------------------------------------
// Mathematical model
// ---------------------------------------------------------------------------

/// `v` rounded to the nearest integer with ties away from zero, where `v` is
/// the non-negative rational `num / den` (`den > 0`).
pub open spec fn round_ratio(num: int, den: int) -> int {
    (2 * num + den) / (2 * den)
}

/// Linear interpolation between `(x1, y1)` and `(x2, y2)` at `t`, rounded to
/// the nearest integer (ties away from zero). Meaningful for `x1 < t <= x2`.
pub open spec fn interp_duty(t: int, x1: int, y1: int, x2: int, y2: int) -> int {
    round_ratio(y1 * (x2 - x1) + (t - x1) * (y2 - y1), x2 - x1)
}

/// The duty that a curve given by `pts` (a list of `[temperature, duty]`
/// points, read pairwise in list order) assigns to temperature `t`.
/// Fewer than two points give the safe default of 100%.
pub open spec fn curve_duty(t: int, pts: Seq<[u32; 2]>) -> int
    decreases pts.len(),
{
    if pts.len() < 2 {
        100
    } else {
        let x1 = pts[0][0] as int;
        let y1 = pts[0][1] as int;
        let x2 = pts[1][0] as int;
        let y2 = pts[1][1] as int;
        if t <= x1 {
            y1
        } else if t <= x2 {
            if x2 == x1 {
                y2
            } else {
                interp_duty(t, x1, y1, x2, y2)
            }
        } else {
            curve_duty(t, pts.drop_first())
        }
    }
}

/// One rate-limited step from `current` toward `target` moving at most
/// `max_change`; a zero step means "no limit".
pub open spec fn rate_step(current: int, target: int, max_change: int) -> int {
    if max_change == 0 {
        target
    } else if target > current {
        if current + max_change < target { current + max_change } else { target }
    } else {
        if current - max_change > target { current - max_change } else { target }
    }
}

/// The duty reached after `k` successive rate-limited steps.
pub open spec fn ramp(current: int, target: int, max_change: int, k: nat) -> int
    decreases k,
{
    if k == 0 {
        current
    } else {
        ramp(rate_step(current, target, max_change), target, max_change, (k - 1) as nat)
    }
}

pub open spec fn abs_diff(a: int, b: int) -> int {
    if a >= b { a - b } else { b - a }
}

// ---------------------------------------------------------------------------
// Arithmetic lemmas
// ---------------------------------------------------------------------------

proof fn lemma_round_ratio_bounds(num: int, den: int, lo: int, hi: int)
    requires
        den > 0,
        0 <= lo <= hi,
        lo * den <= num <= hi * den,
    ensures
        lo <= round_ratio(num, den) <= hi,
{
    let q = round_ratio(num, den);
    assert(2 * den > 0);
    // q * (2 den) <= 2 num + den < (q + 1) * (2 den)
    vstd::arithmetic::div_mod::lemma_fundamental_div_mod(2 * num + den, 2 * den);
    let r = (2 * num + den) % (2 * den);
    assert(0 <= r < 2 * den) by {
        vstd::arithmetic::div_mod::lemma_mod_bound(2 * num + den, 2 * den);
    }
    assert(2 * num + den == (2 * den) * q + r);
    assert(lo <= q) by (nonlinear_arith)
        requires
            2 * num + den == (2 * den) * q + r,
            r < 2 * den,
            lo * den <= num,
            den > 0,
    {
        if q < lo {
            assert(q + 1 <= lo);
            assert((2 * den) * (q + 1) <= (2 * den) * lo);
        }
    }
    assert(q <= hi) by (nonlinear_arith)
        requires
            2 * num + den == (2 * den) * q + r,
            0 <= r,
            num <= hi * den,
            den > 0,
    {
        if q > hi {
            assert(q >= hi + 1);
            assert((2 * den) * q >= (2 * den) * (hi + 1));
        }
    }
}

/// The interpolated duty lies between the two end-point duties.
pub proof fn lemma_interp_between(t: int, x1: int, y1: int, x2: int, y2: int)
    requires
        x1 < t <= x2,
        0 <= y1,
        0 <= y2,
    ensures
        ({
            let v = interp_duty(t, x1, y1, x2, y2);
            &&& (y1 <= y2 ==> y1 <= v <= y2)
            &&& (y2 <= y1 ==> y2 <= v <= y1)
        }),
{
    let d = x2 - x1;
    let a = t - x1;
    let n = y1 * d + a * (y2 - y1);
    assert(n == y1 * (d - a) + y2 * a) by (nonlinear_arith)
        requires
            n == y1 * d + a * (y2 - y1),
    ;
    if y1 <= y2 {
        assert(y1 * d <= n <= y2 * d) by (nonlinear_arith)
            requires
                n == y1 * (d - a) + y2 * a,
                0 < a <= d,
                0 <= y1 <= y2,
        ;
        lemma_round_ratio_bounds(n, d, y1, y2);
    }
    if y2 <= y1 {
        assert(y2 * d <= n <= y1 * d) by (nonlinear_arith)
            requires
                n == y1 * (d - a) + y2 * a,
                0 < a <= d,
                0 <= y2 <= y1,
        ;
        lemma_round_ratio_bounds(n, d, y2, y1);
    }
}

/// Every duty the curve yields is either the safe default (100) or lies
/// between the smallest and the largest duty among the points.
pub proof fn lemma_curve_duty_bounded(t: int, pts: Seq<[u32; 2]>, lo: int, hi: int)
    requires
        0 <= lo <= hi,
        forall|i: int| 0 <= i < pts.len() ==> lo <= #[trigger] pts[i][1] <= hi,
    ensures
        pts.len() < 2 ==> curve_duty(t, pts) == 100,
        pts.len() >= 2 ==> (curve_duty(t, pts) == 100 || lo <= curve_duty(t, pts) <= hi),
    decreases pts.len(),
{
    if pts.len() >= 2 {
        let x1 = pts[0][0] as int;
        let y1 = pts[0][1] as int;
        let x2 = pts[1][0] as int;
        let y2 = pts[1][1] as int;
        assert(lo <= y1 <= hi && lo <= y2 <= hi) by {
            assert(lo <= pts[0][1] <= hi);
            assert(lo <= pts[1][1] <= hi);
        }
        if t <= x1 {
        } else if t <= x2 {
            if x2 != x1 {
                lemma_interp_between(t, x1, y1, x2, y2);
            }
        } else {
            let rest = pts.drop_first();
            assert forall|i: int| 0 <= i < rest.len() implies lo <= #[trigger] rest[i][1] <= hi by {
                assert(rest[i] == pts[i + 1]);
            }
            lemma_curve_duty_bounded(t, rest, lo, hi);
        }
    }
}

/// A curve whose temperatures strictly increase and whose duties never
/// decrease and stay within 100%.
pub open spec fn rising_curve(pts: Seq<[u32; 2]>) -> bool {
    &&& forall|i: int, j: int| 0 <= i < j < pts.len() ==> #[trigger] pts[i][0] < #[trigger] pts[j][0]
    &&& forall|i: int, j: int| 0 <= i <= j < pts.len() ==> #[trigger] pts[i][1] <= #[trigger] pts[j][1]
    &&& forall|i: int| 0 <= i < pts.len() ==> #[trigger] pts[i][1] <= 100
}

#[verifier::spinoff_prover]
proof fn lemma_rising_rest(pts: Seq<[u32; 2]>)
    requires
        pts.len() >= 1,
        rising_curve(pts),
    ensures
        rising_curve(pts.drop_first()),
{
    let rest = pts.drop_first();
    assert forall|i: int, j: int| 0 <= i < j < rest.len() implies #[trigger] rest[i][0] < #[trigger] rest[j][0] by {
        assert(rest[i] == pts[i + 1] && rest[j] == pts[j + 1]);
    }
    assert forall|i: int, j: int| 0 <= i <= j < rest.len() implies #[trigger] rest[i][1] <= #[trigger] rest[j][1] by {
        assert(rest[i] == pts[i + 1] && rest[j] == pts[j + 1]);
    }
    assert forall|i: int| 0 <= i < rest.len() implies #[trigger] rest[i][1] <= 100 by {
        assert(rest[i] == pts[i + 1]);
    }
}

/// On a rising curve every temperature gets at least the first point's duty.
#[verifier::spinoff_prover]
proof fn lemma_curve_duty_at_least_first(t: int, pts: Seq<[u32; 2]>)
    requires
        pts.len() >= 1,
        rising_curve(pts),
    ensures
        pts[0][1] <= curve_duty(t, pts),
    decreases pts.len(),
{
    assert(pts[0][1] <= 100);
    if pts.len() >= 2 {
        let x1 = pts[0][0] as int;
        let y1 = pts[0][1] as int;
        let x2 = pts[1][0] as int;
        let y2 = pts[1][1] as int;
        assert(x1 < x2 && y1 <= y2);
        if t <= x1 {
        } else if t <= x2 {
            lemma_interp_between(t, x1, y1, x2, y2);
        } else {
            lemma_rising_rest(pts);
            lemma_curve_duty_at_least_first(t, pts.drop_first());
            assert(pts.drop_first()[0] == pts[1]);
        }
    }
}

#[verifier::spinoff_prover]
proof fn lemma_interp_monotonic(t1: int, t2: int, x1: int, y1: int, x2: int, y2: int)
    requires
        x1 < t1 <= t2 <= x2,
        0 <= y1 <= y2,
    ensures
        interp_duty(t1, x1, y1, x2, y2) <= interp_duty(t2, x1, y1, x2, y2),
{
    let d = x2 - x1;
    let n1 = y1 * d + (t1 - x1) * (y2 - y1);
    let n2 = y1 * d + (t2 - x1) * (y2 - y1);
    assert(n1 <= n2) by (nonlinear_arith)
        requires
            n1 == y1 * d + (t1 - x1) * (y2 - y1),
            n2 == y1 * d + (t2 - x1) * (y2 - y1),
            t1 <= t2,
            y1 <= y2,
    ;
    vstd::arithmetic::div_mod::lemma_div_is_ordered(2 * n1 + d, 2 * n2 + d, 2 * d);
}

/// Law: on a curve whose temperatures strictly increase and whose duties
/// never decrease (all within 100%), a hotter temperature never gets a
/// lower duty.
#[verifier::spinoff_prover]
pub proof fn lemma_curve_duty_monotonic(t1: int, t2: int, pts: Seq<[u32; 2]>)
    requires
        pts.len() >= 2,
        rising_curve(pts),
        t1 <= t2,
    ensures
        curve_duty(t1, pts) <= curve_duty(t2, pts),
    decreases pts.len(),
{
    let x1 = pts[0][0] as int;
    let y1 = pts[0][1] as int;
    let x2 = pts[1][0] as int;
    let y2 = pts[1][1] as int;
    assert(x1 < x2 && y1 <= y2);
    let rest = pts.drop_first();
    assert(rest.len() == pts.len() - 1);
    assert(rest[0] == pts[1]);
    assert(curve_duty(t1, pts) == (if t1 <= x1 { y1 } else if t1 <= x2 { interp_duty(t1, x1, y1, x2, y2) } else { curve_duty(t1, rest) }));
    assert(curve_duty(t2, pts) == (if t2 <= x1 { y1 } else if t2 <= x2 { interp_duty(t2, x1, y1, x2, y2) } else { curve_duty(t2, rest) }));
    if t1 <= x1 {
        lemma_curve_duty_at_least_first(t2, pts);
    } else if t1 <= x2 {
        lemma_interp_between(t1, x1, y1, x2, y2);
        if t2 <= x2 {
            lemma_interp_monotonic(t1, t2, x1, y1, x2, y2);
        } else {
            lemma_rising_rest(pts);
            lemma_curve_duty_at_least_first(t2, rest);
        }
    } else {
        lemma_rising_rest(pts);
        if rest.len() >= 2 {
            lemma_curve_duty_monotonic(t1, t2, rest);
        }
    }
}

// ---------------------------------------------------------------------------
// Executable functions
// ---------------------------------------------------------------------------

/// Interpolated duty of the segment `(x1, y1)`–`(x2, y2)` at `t`.
fn interpolate(t: i32, x1: u32, y1: u32, x2: u32, y2: u32) -> (r: u32)
    requires
        x1 < t <= x2,
    ensures
        r == interp_duty(t as int, x1 as int, y1 as int, x2 as int, y2 as int),
{
    proof {
        lemma_interp_between(t as int, x1 as int, y1 as int, x2 as int, y2 as int);
    }
    let d: i128 = x2 as i128 - x1 as i128;
    let a: i128 = t as i128 - x1 as i128;
    let dy: i128 = y2 as i128 - y1 as i128;
    assert(0 < a <= d <= 0xffff_ffff);
    assert(-0xffff_ffff <= dy <= 0xffff_ffff);
    assert(0 <= (y1 as i128) * d <= 0xffff_ffff * 0xffff_ffff) by (nonlinear_arith)
        requires
            0 < d <= 0xffff_ffff,
            0 <= y1 <= 0xffff_ffff,
    ;
    assert(-0xffff_ffff * 0xffff_ffff <= a * dy <= 0xffff_ffff * 0xffff_ffff) by (nonlinear_arith)
        requires
            0 < a <= 0xffff_ffff,
            -0xffff_ffff <= dy <= 0xffff_ffff,
    ;
    let n: i128 = (y1 as i128) * d + a * dy;
    assert(n >= 0) by (nonlinear_arith)
        requires
            n == y1 * d + a * dy,
            dy == y2 - y1,
            0 < a <= d,
            y1 >= 0,
            y2 >= 0,
    {
        assert(n == y1 * (d - a) + y2 * a);
    }
    let q: i128 = (2 * n + d) / (2 * d);
    assert(q == round_ratio(n as int, d as int));
    assert(n as int == y1 * (x2 - x1) + (t - x1) * (y2 - y1));
    q as u32
}

/// Duty (%) that the fan curve `full_points` assigns to `temp`.
///
/// Points are read pairwise in order; below the first point its duty is
/// used, between two points the duty is linearly interpolated and rounded,
/// and past the last point (or with fewer than two points) the safe
/// default of 100% applies.
///
/// The interpolated value is rounded exactly, halves away from zero. A
/// floating-point evaluation of the same formula can land just below an
/// exact half and round down instead: at 7 °C between (0, 0) and (10, 45)
/// the exact value 31.5 gives 32 here, where `0.7 * 45.0` in f64 gives 31.
pub fn calculate_duty_from_curve(temp: i32, full_points: &[[u32; 2]]) -> (r: u32)
    ensures
        r == curve_duty(temp as int, full_points@),
{
    let len = full_points.len();
    let mut i: usize = 0;
    assert(full_points@.subrange(0, len as int) =~= full_points@);
    while len > 1 && i < len - 1
        invariant
            len == full_points@.len(),
            i <= len,
            curve_duty(temp as int, full_points@) == curve_duty(
                temp as int,
                full_points@.subrange(i as int, len as int),
            ),
        decreases len - i,
    {
        let p1 = full_points[i];
        let p2 = full_points[i + 1];
        let ghost rest = full_points@.subrange(i as int, len as int);
        assert(rest[0] == p1 && rest[1] == p2);
        if (temp as i64) <= (p1[0] as i64) {
            return p1[1];
        }
        if (temp as i64) <= (p2[0] as i64) {
            if p2[0] == p1[0] {
                return p2[1];
            }
            return interpolate(temp, p1[0], p1[1], p2[0], p2[1]);
        }
        assert(rest.drop_first() =~= full_points@.subrange(i + 1, len as int));
        i = i + 1;
    }
    100
}

/// Moves `current` toward `target` by at most `max_change` per call.
/// A zero step means "no rate limit" and jumps straight to the target.
pub fn apply_rate_limit(current: u32, target: u32, max_change: u32) -> (r: u32)
    ensures
        r == rate_step(current as int, target as int, max_change as int),
        // the step never overshoots and never moves away from the target
        (current <= target ==> current <= r <= target),
        (target <= current ==> target <= r <= current),
        max_change > 0 ==> abs_diff(r as int, current as int) <= max_change,
        abs_diff(target as int, current as int) <= max_change ==> r == target,
{
    if max_change == 0 {
        return target;
    }
    if target > current {
        let s = current.saturating_add(max_change);
        if s < target { s } else { target }
    } else {
        let s = current.saturating_sub(max_change);
        if s > target { s } else { target }
    }
}

/// Repeated rate-limited steps reach the target: after `k` steps with a
/// positive step size, the duty is exactly the target once `k` steps of
/// size `max_change` cover the distance, and otherwise it has moved
/// `k * max_change` toward it.
pub proof fn lemma_ramp_converges(current: int, target: int, max_change: int, k: nat)
    requires
        max_change > 0,
    ensures
        k * max_change >= abs_diff(target, current) ==> ramp(current, target, max_change, k) == target,
        k * max_change < abs_diff(target, current) ==> abs_diff(target, ramp(current, target, max_change, k))
            == abs_diff(target, current) - k * max_change,
    decreases k,
{
    if k == 0 {
    } else {
        let next = rate_step(current, target, max_change);
        let km1: nat = (k - 1) as nat;
        assert(ramp(current, target, max_change, k) == ramp(next, target, max_change, km1));
        lemma_ramp_converges(next, target, max_change, km1);
        assert(km1 * max_change + max_change == k * max_change) by (nonlinear_arith)
            requires
                km1 == k - 1,
        ;
        if abs_diff(target, current) <= max_change {
            assert(next == target);
            lemma_ramp_fixed(target, max_change, km1);
        } else {
            assert(abs_diff(target, next) == abs_diff(target, current) - max_change);
        }
    }
}

/// Once at the target, further rate-limited steps stay there.
pub proof fn lemma_ramp_fixed(target: int, max_change: int, k: nat)
    requires
        max_change >= 0,
    ensures
        ramp(target, target, max_change, k) == target,
    decreases k,
{
    if k > 0 {
        assert(rate_step(target, target, max_change) == target);
        lemma_ramp_fixed(target, max_change, (k - 1) as nat);
    }
}

// ---------------------------------------------------------------------------
// Curve stepper
// ---------------------------------------------------------------------------

/// Hysteresis- and rate-limit-aware driver of the fan duty in curve mode.
#[derive(Clone, Copy, Debug)]
pub struct CurveStepper {
    /// Last duty actually applied to the fan (or the seed).
    pub last_duty: Option<u32>,
    /// Curve target the stepper is currently converging to.
    pub active_target: Option<u32>,
    /// Temperature at which the active target was chosen.
    pub transition_start_temp: i32,
    /// Whether `transition_start_temp` has been set since the last reset.
    pub anchored: bool,
}

/// `h as i32`: the two's-complement reading of the 32 bits of `h`.
pub open spec fn as_signed(h: u32) -> int {
    if h <= 0x7fff_ffff { h as int } else { h - 0x1_0000_0000 }
}

/// `a.saturating_sub(b)` on `i32`.
pub open spec fn sat_sub_i32(a: int, b: int) -> int {
    let v = a - b;
    if v < i32::MIN { i32::MIN as int } else if v > i32::MAX { i32::MAX as int } else { v }
}

/// Whether a change of the curve target from `current` to `target` takes
/// effect: rises always do; drops only once the temperature has left the
/// hysteresis band below the temperature where the current target was set.
pub open spec fn retarget_allowed(target: u32, current: u32, temp: i32, start: i32, hyst: u32) -> bool {
    ||| target > current
    ||| hyst == 0
    ||| temp >= start
    ||| temp <= sat_sub_i32(start as int, as_signed(hyst))
}

/// The stepper after anchoring at `temp` and updating its active target
/// from the curve.
pub open spec fn stepper_retargeted(s: CurveStepper, temp: i32, hyst: u32, pts: Seq<[u32; 2]>) -> CurveStepper {
    let a = if !s.anchored {
        CurveStepper { last_duty: s.last_duty, active_target: None, transition_start_temp: temp, anchored: true }
    } else {
        s
    };
    let tgt = curve_duty(temp as int, pts) as u32;
    match a.active_target {
        None => CurveStepper { active_target: Some(tgt), transition_start_temp: temp, ..a },
        Some(cur) => if tgt != cur && retarget_allowed(tgt, cur, temp, a.transition_start_temp, hyst) {
            CurveStepper { active_target: Some(tgt), transition_start_temp: temp, ..a }
        } else {
            a
        },
    }
}

/// The duty the stepper steps to from its last applied duty toward its
/// active target, using the up or down rate limit.
pub open spec fn stepper_next_duty(s: CurveStepper, tgt: u32, up: u32, down: Option<u32>) -> u32 {
    match s.last_duty {
        Some(prev) => {
            let rate = if tgt >= prev { up } else { match down { Some(d) => d, None => up } };
            rate_step(prev as int, tgt as int, rate as int) as u32
        },
        None => tgt,
    }
}

/// What `next` reports: the new duty when it differs from the last applied one.
pub open spec fn stepper_output(s: CurveStepper, temp: i32, hyst: u32, up: u32, down: Option<u32>, pts: Seq<[u32; 2]>) -> Option<u32> {
    let a = stepper_retargeted(s, temp, hyst, pts);
    match a.active_target {
        None => None,
        Some(tgt) => {
            let n = stepper_next_duty(a, tgt, up, down);
            if a.last_duty == Some(n) { None } else { Some(n) }
        },
    }
}

impl CurveStepper {
    pub fn new() -> (s: Self)
        ensures
            s.last_duty is None,
            s.active_target is None,
            s.transition_start_temp == 0,
            !s.anchored,
    {
        CurveStepper { last_duty: None, active_target: None, transition_start_temp: 0, anchored: false }
    }

    /// A stepper that resumes a ramp from a duty already applied.
    pub fn with_last_duty(duty: u32) -> (s: Self)
        ensures
            s.last_duty == Some(duty),
            s.active_target is None,
            s.transition_start_temp == 0,
            !s.anchored,
    {
        CurveStepper { last_duty: Some(duty), active_target: None, transition_start_temp: 0, anchored: false }
    }

    /// Forgets the applied duty and the active target; the next step
    /// re-anchors at the temperature it is given.
    pub fn reset(&mut self)
        ensures
            final(self).last_duty is None,
            final(self).active_target is None,
            !final(self).anchored,
            final(self).transition_start_temp == old(self).transition_start_temp,
    {
        self.last_duty = None;
        self.active_target = None;
        self.anchored = false;
    }

    /// Records the duty that was actually written to the fan.
    pub fn note_applied(&mut self, duty: u32)
        ensures
            *final(self) == (CurveStepper { last_duty: Some(duty), ..*old(self) }),
    {
        self.last_duty = Some(duty);
    }

    /// Last duty actually applied (or the seed), if any.
    pub fn current_duty(&self) -> (r: Option<u32>)
        ensures
            r == self.last_duty,
    {
        self.last_duty
    }

    /// One control step at temperature `temp`: updates the active target from
    /// the curve (respecting the hysteresis band on drops) and returns the
    /// rate-limited duty to apply, or `None` when it equals the last applied
    /// duty.
    pub fn next(
        &mut self,
        temp: i32,
        hysteresis_c: u32,
        rate_limit_up: u32,
        rate_limit_down: Option<u32>,
        full_points: &[[u32; 2]],
    ) -> (r: Option<u32>)
        ensures
            *final(self) == stepper_retargeted(*old(self), temp, hysteresis_c, full_points@),
            r == stepper_output(*old(self), temp, hysteresis_c, rate_limit_up, rate_limit_down, full_points@),
            final(self).last_duty == old(self).last_duty,
            final(self).anchored,
            final(self).active_target is Some,
    {
        if !self.anchored {
            self.transition_start_temp = temp;
            self.active_target = None;
            self.anchored = true;
        }
        let curve_target = calculate_duty_from_curve(temp, full_points);
        match self.active_target {
            None => {
                self.active_target = Some(curve_target);
                self.transition_start_temp = temp;
            },
            Some(current) => {
                if curve_target != current {
                    let h: i64 = if hysteresis_c <= 0x7fff_ffff {
                        hysteresis_c as i64
                    } else {
                        hysteresis_c as i64 - 0x1_0000_0000
                    };
                    let diff: i64 = self.transition_start_temp as i64 - h;
                    let low: i64 = if diff < i32::MIN as i64 {
                        i32::MIN as i64
                    } else if diff > i32::MAX as i64 {
                        i32::MAX as i64
                    } else {
                        diff
                    };
                    let should_apply = curve_target > current || hysteresis_c == 0
                        || temp >= self.transition_start_temp || (temp as i64) <= low;
                    if should_apply {
                        self.active_target = Some(curve_target);
                        self.transition_start_temp = temp;
                    }
                }
            },
        }
        let tgt = match self.active_target {
            Some(t) => t,
            None => { return None; },
        };
        let next = match self.last_duty {
            Some(prev) => {
                let rate = if tgt >= prev {
                    rate_limit_up
                } else {
                    match rate_limit_down {
                        Some(d) => d,
                        None => rate_limit_up,
                    }
                };
                apply_rate_limit(prev, tgt, rate)
            },
            None => tgt,
        };
        if self.last_duty != Some(next) {
            Some(next)
        } else {
            None
        }
    }
}

/// A step never moves the applied duty by more than the rate limit in force,
/// and always moves it toward the stepper's active target.
pub proof fn lemma_stepper_rate_limited(
    s: CurveStepper,
    temp: i32,
    hyst: u32,
    up: u32,
    down: Option<u32>,
    pts: Seq<[u32; 2]>,
)
    requires
        s.last_duty is Some,
        up > 0,
        down matches Some(d) ==> d > 0,
    ensures
        ({
            let a = stepper_retargeted(s, temp, hyst, pts);
            let prev = s.last_duty->0;
            let tgt = a.active_target->0;
            let limit = if tgt >= prev { up } else { match down { Some(d) => d, None => up } };
            match stepper_output(s, temp, hyst, up, down, pts) {
                Some(n) => {
                    &&& abs_diff(n as int, prev as int) <= limit
                    &&& (prev <= tgt ==> prev <= n <= tgt)
                    &&& (tgt <= prev ==> tgt <= n <= prev)
                },
                None => true,
            }
        }),
{
    let a = stepper_retargeted(s, temp, hyst, pts);
    let prev = s.last_duty->0;
    let tgt = a.active_target->0;
    let limit = if tgt >= prev { up } else { match down { Some(d) => d, None => up } };
    let v = rate_step(prev as int, tgt as int, limit as int);
    assert(prev <= tgt ==> prev <= v <= tgt);
    assert(tgt <= prev ==> tgt <= v <= prev);
}

/// Hysteresis: while the active target is set and the temperature stays
/// strictly inside the band `(start - hysteresis, start)`, a lower curve
/// target is ignored and the active target is kept.
pub proof fn lemma_stepper_hysteresis_holds(s: CurveStepper, temp: i32, hyst: u32, pts: Seq<[u32; 2]>)
    requires
        s.anchored,
        s.active_target matches Some(cur) && (curve_duty(temp as int, pts) as u32) < cur,
        0 < hyst <= 0x7fff_ffff,
        sat_sub_i32(s.transition_start_temp as int, hyst as int) < temp < s.transition_start_temp,
    ensures
        stepper_retargeted(s, temp, hyst, pts) == s,
{
}

/// Law (the hysteresis band is measured from where the target was set): a
/// step always leaves the stepper anchored with an active target, which is
/// either the one it had or the curve's duty at the step's temperature;
/// whenever the step changes the active target, the band is re-anchored at
/// the step's temperature.
#[verifier::spinoff_prover]
pub proof fn lemma_retarget_anchors_at_step(s: CurveStepper, temp: i32, hyst: u32, pts: Seq<[u32; 2]>)
    ensures
        ({
            let a = stepper_retargeted(s, temp, hyst, pts);
            &&& a.anchored
            &&& a.last_duty == s.last_duty
            &&& a.active_target is Some
            &&& (a.active_target == s.active_target || a.active_target == Some(curve_duty(temp as int, pts) as u32))
            &&& (a.active_target != s.active_target ==> a.transition_start_temp == temp)
            &&& (a.active_target == s.active_target && s.anchored ==> a.transition_start_temp
                == s.transition_start_temp)
        }),
{
}

/// Law (how the target follows the curve): a fresh stepper takes the
/// curve's duty at once; a higher curve duty is always taken; a lower one
/// is taken without hysteresis, at or above the temperature where the
/// target was set, or once the temperature has dropped the full band below
/// it (the band's floor saturates at `i32::MIN`); inside the band the
/// target is kept.
#[verifier::spinoff_prover]
pub proof fn lemma_retarget_follows_curve(s: CurveStepper, temp: i32, hyst: u32, pts: Seq<[u32; 2]>)
    requires
        hyst <= 0x7fff_ffff,
    ensures
        ({
            let a = stepper_retargeted(s, temp, hyst, pts);
            let tgt = curve_duty(temp as int, pts) as u32;
            let start = s.transition_start_temp;
            &&& (!s.anchored || s.active_target is None) ==> a.active_target == Some(tgt) && a.transition_start_temp == temp
            &&& (s.anchored && s.active_target is Some) ==> {
                let cur = s.active_target->0;
                &&& tgt >= cur ==> a.active_target == Some(tgt)
                &&& (tgt < cur && (hyst == 0 || temp >= start || temp <= start - hyst)) ==> a.active_target == Some(tgt)
                &&& (tgt < cur && hyst > 0 && start - hyst < temp < start && temp > i32::MIN) ==> a == s
            }
        }),
{
    let start = s.transition_start_temp;
    assert(as_signed(hyst) == hyst);
    assert(sat_sub_i32(start as int, hyst as int) >= start - hyst);
    assert(temp <= start - hyst ==> temp <= sat_sub_i32(start as int, hyst as int));
    assert(start - hyst < temp && temp > i32::MIN ==> sat_sub_i32(start as int, hyst as int) < temp);
}

/// Law (a target set at `t1` holds inside the band below `t1`): right after
/// a step at `t1` changes the active target, a later step at a temperature
/// strictly inside the hysteresis band below `t1` whose curve duty is lower
/// keeps that target, whatever duty was applied in between.
#[verifier::spinoff_prover]
pub proof fn lemma_target_holds_below_where_set(
    s: CurveStepper,
    t1: i32,
    t2: i32,
    hyst: u32,
    pts: Seq<[u32; 2]>,
    applied: Option<u32>,
)
    requires
        0 < hyst <= 0x7fff_ffff,
        t1 - hyst < t2 < t1,
        stepper_retargeted(s, t1, hyst, pts).active_target != s.active_target,
        (curve_duty(t2 as int, pts) as u32) < stepper_retargeted(s, t1, hyst, pts).active_target->0,
    ensures
        ({
            let a = stepper_retargeted(s, t1, hyst, pts);
            let b = CurveStepper { last_duty: applied, ..a };
            stepper_retargeted(b, t2, hyst, pts).active_target == a.active_target
        }),
{
    lemma_retarget_anchors_at_step(s, t1, hyst, pts);
}

/// The duty the fan is at after a step: the new duty, or the last applied
/// one when the step reports none.
pub open spec fn duty_after(prev: u32, out: Option<u32>) -> u32 {
    match out {
        Some(n) => n,
        None => prev,
    }
}

/// Law (separate ramp rates): toward a higher target the duty rises by the
/// up rate (or reaches the target), whatever the down rate is; toward a
/// lower target it falls by the down rate, or by the up rate when no down
/// rate is set (or reaches the target); a zero rate jumps to the target.
/// Without an applied duty the stepper goes straight to the target.
#[verifier::spinoff_prover]
pub proof fn lemma_stepper_ramp_rates(
    s: CurveStepper,
    temp: i32,
    hyst: u32,
    up: u32,
    down: Option<u32>,
    pts: Seq<[u32; 2]>,
)
    ensures
        ({
            let a = stepper_retargeted(s, temp, hyst, pts);
            let tgt = a.active_target->0;
            let out = stepper_output(s, temp, hyst, up, down, pts);
            &&& s.last_duty is None ==> out == Some(tgt)
            &&& (s.last_duty matches Some(prev) ==> (tgt >= prev ==> duty_after(prev, out) == (if up == 0
                || tgt - prev <= up { tgt as int } else { prev + up })))
            &&& (s.last_duty matches Some(prev) ==> (tgt < prev ==> {
                let r = match down { Some(d) => d, None => up };
                duty_after(prev, out) == (if r == 0 || prev - tgt <= r { tgt as int } else { prev - r })
            }))
            &&& (s.last_duty matches Some(prev) ==> (tgt >= prev ==> forall|d2: Option<u32>|
                #[trigger] stepper_output(s, temp, hyst, up, d2, pts) == out))
            &&& (s.last_duty matches Some(prev) ==> (duty_after(prev, out) == prev ==> out is None))
            &&& (out matches Some(n) ==> s.last_duty != Some(n))
        }),
{
    lemma_retarget_anchors_at_step(s, temp, hyst, pts);
}

} // verus!
