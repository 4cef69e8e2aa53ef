use framework_crate::fan_control::{apply_rate_limit, calculate_duty_from_curve, CurveStepper};
use framework_crate::types::curve_full_points;

fn default_full() -> Vec<[u32; 2]> {
    curve_full_points(&[[30, 0], [45, 20], [60, 40], [75, 80], [85, 100]])
}

#[test]
fn calculate_duty_from_curve_below_min() {
    let points = default_full();
    assert_eq!(calculate_duty_from_curve(20, &points), 0);
}

#[test]
fn calculate_duty_from_curve_at_point() {
    let points = default_full();
    assert_eq!(calculate_duty_from_curve(60, &points), 40);
}

#[test]
fn calculate_duty_from_curve_interpolated() {
    let points = default_full();
    assert_eq!(calculate_duty_from_curve(67, &points), 59);
}

#[test]
fn calculate_duty_from_curve_above_max() {
    let points = default_full();
    assert_eq!(calculate_duty_from_curve(90, &points), 100);
}

#[test]
fn calculate_duty_from_curve_empty_uses_full() {
    let points = curve_full_points(&[]);
    // The fallback spans 0°C..110°C, so 50°C sits at 50/110 of the ramp.
    assert_eq!(calculate_duty_from_curve(50, &points), 45);
    assert_eq!(calculate_duty_from_curve(110, &points), 100);
}

#[test]
fn apply_rate_limit_up() {
    assert_eq!(apply_rate_limit(40, 60, 10), 50);
}

#[test]
fn apply_rate_limit_down() {
    assert_eq!(apply_rate_limit(60, 40, 10), 50);
}

#[test]
fn apply_rate_limit_already_at_target() {
    assert_eq!(apply_rate_limit(50, 50, 10), 50);
}

#[test]
fn apply_rate_limit_clamps_to_target() {
    assert_eq!(apply_rate_limit(40, 100, 50), 90);
}

#[test]
fn apply_rate_limit_saturate_sub() {
    assert_eq!(apply_rate_limit(5, 0, 10), 0);
}

#[test]
fn apply_rate_limit_zero_step_jumps_to_target() {
    assert_eq!(apply_rate_limit(40, 60, 0), 60);
    assert_eq!(apply_rate_limit(60, 40, 0), 40);
    assert_eq!(apply_rate_limit(40, 40, 0), 40);
}

#[test]
fn curve_stepper_first_return() {
    let mut stepper = CurveStepper::new();
    let full = default_full();
    let result = stepper.next(50, 2, 10, None, &full);
    assert_eq!(result, Some(27));
}

#[test]
fn curve_stepper_no_change_returns_none() {
    let mut stepper = CurveStepper::new();
    let full = default_full();
    let first = stepper.next(60, 2, 100, None, &full);
    assert_eq!(first, Some(40));
    stepper.note_applied(40);
    let result = stepper.next(60, 2, 100, None, &full);
    assert_eq!(result, None);
}

#[test]
fn curve_stepper_rate_limited() {
    let mut stepper = CurveStepper::new();
    let full = default_full();
    let first = stepper.next(85, 2, 5, None, &full);
    assert_eq!(first, Some(100));
    stepper.note_applied(100);
    let result = stepper.next(30, 2, 5, None, &full);
    assert_eq!(result, Some(95));
}

#[test]
fn curve_stepper_hysteresis_suppresses_small_drop() {
    let mut stepper = CurveStepper::new();
    let full = default_full();
    let first = stepper.next(70, 5, 100, None, &full);
    assert_eq!(first, Some(67));
    stepper.note_applied(67);
    let result = stepper.next(68, 5, 100, None, &full);
    assert_eq!(result, None);
}

#[test]
fn curve_stepper_hysteresis_allows_large_drop() {
    let mut stepper = CurveStepper::new();
    let full = default_full();
    let first = stepper.next(70, 5, 100, None, &full);
    assert_eq!(first, Some(67));
    stepper.note_applied(67);
    let result = stepper.next(60, 5, 100, None, &full);
    assert_eq!(result, Some(40));
}

#[test]
fn curve_stepper_hysteresis_zero_always_triggers() {
    let mut stepper = CurveStepper::new();
    let full = default_full();
    let first = stepper.next(70, 0, 100, None, &full);
    assert_eq!(first, Some(67));
    stepper.note_applied(67);
    let result = stepper.next(69, 0, 100, None, &full);
    assert_eq!(result, Some(64));
}

#[test]
fn curve_stepper_rise_always_triggers() {
    let mut stepper = CurveStepper::new();
    let full = default_full();
    let first = stepper.next(60, 5, 100, None, &full);
    assert_eq!(first, Some(40));
    stepper.note_applied(40);
    let result = stepper.next(62, 5, 100, None, &full);
    assert_eq!(result, Some(45));
}

#[test]
fn curve_stepper_with_last_duty_restores_state() {
    let mut stepper = CurveStepper::with_last_duty(50);
    let full = default_full();
    let result = stepper.next(60, 2, 10, None, &full);
    assert_eq!(result, Some(40));
}

#[test]
fn curve_stepper_reset_clears_state() {
    let mut stepper = CurveStepper::new();
    let full = default_full();
    let first = stepper.next(85, 2, 100, None, &full);
    assert_eq!(first, Some(100));
    stepper.note_applied(100);
    stepper.reset();
    let result = stepper.next(85, 2, 100, None, &full);
    assert_eq!(result, Some(100));
}

#[test]
fn curve_stepper_separate_down_rate() {
    let mut stepper = CurveStepper::new();
    let full = default_full();
    let first = stepper.next(85, 0, 100, Some(3), &full);
    assert_eq!(first, Some(100));
    stepper.note_applied(100);
    let result = stepper.next(30, 0, 100, Some(3), &full);
    assert_eq!(result, Some(97));
}

// --- further cases ---

#[test]
fn calculate_duty_with_fewer_than_two_points_is_full_speed() {
    assert_eq!(calculate_duty_from_curve(40, &[]), 100);
    assert_eq!(calculate_duty_from_curve(40, &[[50, 20]]), 100);
}

#[test]
fn calculate_duty_rounds_half_up() {
    // 0..10°C maps 0..1%: at 5°C the exact value is 0.5%.
    assert_eq!(calculate_duty_from_curve(5, &[[0, 0], [10, 1]]), 1);
    // falling segment: 10% → 0% over 0..4°C, at 1°C exactly 7.5%.
    assert_eq!(calculate_duty_from_curve(1, &[[0, 10], [4, 0]]), 8);
}

#[test]
fn calculate_duty_negative_temperature_uses_first_point() {
    let points = default_full();
    assert_eq!(calculate_duty_from_curve(-20, &points), 0);
}

#[test]
fn ramp_reaches_target_in_steps() {
    let mut d = 0;
    for _ in 0..10 {
        d = apply_rate_limit(d, 95, 10);
    }
    assert_eq!(d, 95);
}

#[test]
fn stepper_steps_never_exceed_rate() {
    let mut stepper = CurveStepper::with_last_duty(0);
    let full = default_full();
    let mut last = 0u32;
    for _ in 0..20 {
        if let Some(d) = stepper.next(100, 2, 7, None, &full) {
            assert!(d >= last && d - last <= 7);
            stepper.note_applied(d);
            last = d;
        }
    }
    assert_eq!(last, 100);
    assert_eq!(stepper.current_duty(), Some(100));
}

#[test]
fn rising_curve_duty_never_drops_as_temperature_rises() {
    let full = default_full();
    let mut prev = 0;
    for t in -20..130 {
        let d = calculate_duty_from_curve(t, &full);
        assert!(d >= prev, "duty fell at {} °C", t);
        prev = d;
    }
}
