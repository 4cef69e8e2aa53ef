use std::collections::VecDeque;

use framework_crate::background::{
    count_failure, curve_write_duty, elapsed_at_least, estimate_duty, fit_per_fan_duty,
    initial_last_mode, initial_ramp, is_idle, manual_seed, manual_step, mark_pd_usb_c_seen,
    max_fan_rpm, per_fan_fill, per_fan_seed, per_fan_step, pl_reset_needed, poll_interval,
    push_pd_ports_history, restore_firmware_control, update_fan_max_rpm, curve_failsafe,
    note_failover, poll_step, FanRamps, thermal_changed, PollAction, PollDecisions, PollEvent,
    CURVE_TEMP_FAILOVER_MS, MAX_EC_IO_FAILURES,
};
use framework_crate::cli::ec_wrapper::{FanReading, PowerRole, ThermalData, UsbCPort};
use std::sync::Arc;
use framework_crate::types::{FanControlMode, ManualConfig};

fn fan(rpm: u32) -> FanReading {
    FanReading { name: "Fan".to_string(), rpm }
}

fn port(id: u32, role: PowerRole) -> UsbCPort {
    UsbCPort {
        port: id,
        pd_contract: false,
        power_role: Some(role),
        voltage_mv: 0,
        current_ma: 0,
        negotiated_mw: None,
        data_role: None,
        dp_alt_mode: false,
    }
}

#[test]
fn intervals_and_idle() {
    assert!(elapsed_at_least(10_000, 0, 10_000));
    assert!(!elapsed_at_least(9_999, 0, 10_000));
    assert!(is_idle(20_001, 10_000));
    assert!(!is_idle(20_000, 10_000));
    assert!(!is_idle(0, 10_000));
    assert_eq!(poll_interval(FanControlMode::Curve, 100, 1000, true), 200);
    assert_eq!(poll_interval(FanControlMode::Curve, 700, 1000, true), 700);
    assert_eq!(poll_interval(FanControlMode::Manual, 700, 1000, true), 2000);
    assert_eq!(poll_interval(FanControlMode::Manual, 700, 100, false), 200);
    assert_eq!(poll_interval(FanControlMode::Disabled, 700, 900, false), 900);
}

#[test]
fn fan_speed_estimates() {
    assert_eq!(max_fan_rpm(&[]), None);
    assert_eq!(max_fan_rpm(&[fan(1200), fan(3400), fan(900)]), Some(3400));
    assert_eq!(estimate_duty(None, 5000), None);
    assert_eq!(estimate_duty(Some(0), 5000), Some(0));
    assert_eq!(estimate_duty(Some(2500), 0), Some(10));
    assert_eq!(estimate_duty(Some(2500), 5000), Some(50));
    assert_eq!(estimate_duty(Some(100), 5000), Some(10));
    assert_eq!(estimate_duty(Some(6000), 5000), Some(100));
}

#[test]
fn fan_max_rpm_only_rises() {
    assert_eq!(update_fan_max_rpm(4000, 0, None, 100_000), (4000, 0));
    assert_eq!(update_fan_max_rpm(4000, 0, Some(3000), 10_000), (4000, 0));
    assert_eq!(update_fan_max_rpm(4000, 0, Some(4500), 10_000), (4500, 0));
    // Re-base after the interval keeps the higher value but records the time.
    assert_eq!(update_fan_max_rpm(4000, 0, Some(800), 60_000), (4000, 60_000));
    assert_eq!(update_fan_max_rpm(4000, 0, Some(4800), 60_000), (4800, 60_000));
}

#[test]
fn per_fan_duties_follow_fan_count() {
    assert_eq!(per_fan_fill(None), 50);
    assert_eq!(per_fan_fill(Some(ManualConfig { duty_pct: 35 })), 35);
    let mut d = vec![20, 30];
    assert!(!fit_per_fan_duty(&mut d, 0, 50));
    assert_eq!(d, vec![20, 30]);
    assert!(fit_per_fan_duty(&mut d, 4, 50));
    assert_eq!(d, vec![20, 30, 50, 50]);
    assert!(fit_per_fan_duty(&mut d, 1, 50));
    assert_eq!(d, vec![20]);
    assert!(!fit_per_fan_duty(&mut d, 1, 70));
}

#[test]
fn ramp_seeds() {
    assert_eq!(manual_seed(40, Some(10)), Some(40));
    assert_eq!(manual_seed(0, Some(10)), Some(10));
    assert_eq!(manual_seed(0, None), None);
    assert_eq!(initial_ramp(55, false, Some(10)), Some(55));
    assert_eq!(initial_ramp(0, true, Some(10)), Some(10));
    assert_eq!(initial_ramp(0, false, Some(10)), None);
    assert_eq!(initial_last_mode(FanControlMode::Disabled), None);
    assert_eq!(initial_last_mode(FanControlMode::Curve), Some(FanControlMode::Curve));
    assert!(restore_firmware_control(None));
    assert!(restore_firmware_control(Some(FanControlMode::Manual)));
    assert!(!restore_firmware_control(Some(FanControlMode::Disabled)));
    assert_eq!(per_fan_seed(30, Some(10), 80), 30);
    assert_eq!(per_fan_seed(0, Some(10), 80), 10);
    assert_eq!(per_fan_seed(0, None, 80), 80);
}

#[test]
fn manual_ramp_steps() {
    // Ramps by 10 points and writes while moving.
    assert_eq!(manual_step(Some(20), 60, Some(20), 1_000, 0), (30, true));
    // Converged: no write until the re-assert interval has passed.
    assert_eq!(manual_step(Some(60), 60, Some(60), 29_999, 0), (60, false));
    assert_eq!(manual_step(Some(60), 60, Some(60), 30_000, 0), (60, true));
    // No ramp yet: starts at the target and writes it once.
    assert_eq!(manual_step(None, 45, None, 0, 0), (45, true));
    assert_eq!(per_fan_step(20, 60, false, false), Some(30));
    assert_eq!(per_fan_step(60, 60, false, false), None);
    assert_eq!(per_fan_step(60, 60, true, false), Some(60));
    assert_eq!(per_fan_step(60, 60, false, true), Some(60));
}

#[test]
fn curve_reassert_and_failures() {
    assert_eq!(curve_write_duty(Some(40), Some(35), 0, 0), Some(40));
    assert_eq!(curve_write_duty(None, Some(35), 10_000, 0), None);
    assert_eq!(curve_write_duty(None, Some(35), 30_000, 0), Some(35));
    assert_eq!(count_failure(3, 5), (4, false));
    assert_eq!(count_failure(4, 5), (5, true));
    assert_eq!(count_failure(u32::MAX, 5), (u32::MAX, true));
    assert!(pl_reset_needed(true, false));
    assert!(!pl_reset_needed(false, false));
    assert!(!pl_reset_needed(true, true));
}

#[test]
fn pd_history_keeps_three_newest() {
    let mut h: VecDeque<Vec<UsbCPort>> = VecDeque::new();
    for id in 0..5u32 {
        push_pd_ports_history(&mut h, vec![port(id, PowerRole::Source)]);
    }
    let ids: Vec<u32> = h.iter().map(|s| s[0].port).collect();
    assert_eq!(ids, vec![2, 3, 4]);
}

#[test]
fn usb_c_markers() {
    let mut seen = vec![false, true];
    // No sink at all: untouched.
    mark_pd_usb_c_seen(&mut seen, &[port(3, PowerRole::Source)]);
    assert_eq!(seen, vec![false, true]);
    mark_pd_usb_c_seen(&mut seen, &[port(3, PowerRole::Sink), port(0, PowerRole::Source)]);
    assert_eq!(seen, vec![false, true, false, true]);
    // Markers never clear.
    mark_pd_usb_c_seen(&mut seen, &[port(0, PowerRole::Sink), port(1, PowerRole::Source)]);
    assert_eq!(seen, vec![true, true, false, true]);
}

fn curve_event(read_ok: bool, empty: Option<bool>, now: u64) -> PollEvent {
    PollEvent {
        mode: FanControlMode::Curve,
        curve_configured: true,
        read_ok,
        held_temps_empty: empty,
        now,
    }
}

#[test]
fn curve_failsafe_hands_over_after_interval() {
    assert_eq!(curve_failsafe(CURVE_TEMP_FAILOVER_MS, 0, 0), (true, 1, false));
    assert_eq!(curve_failsafe(CURVE_TEMP_FAILOVER_MS - 1, 0, 0), (false, 1, false));
    assert_eq!(curve_failsafe(100_000, 90_000, 2), (false, 3, false));
}

#[test]
fn curve_failsafe_resets_at_limit() {
    assert_eq!(curve_failsafe(100_000, 0, MAX_EC_IO_FAILURES - 1), (false, MAX_EC_IO_FAILURES, true));
    assert_eq!(curve_failsafe(100_000, 0, u32::MAX), (false, u32::MAX, true));
}

#[test]
fn poll_step_empty_temps_hands_over_once_per_interval() {
    let mut s = PollDecisions::new();
    let a = poll_step(&mut s, curve_event(true, Some(true), 40_000));
    assert_eq!(a, PollAction::HandToFirmware);
    assert_eq!(s.read_failures, 1);
    note_failover(&mut s, 40_000);
    assert_eq!(s, PollDecisions { read_failures: 0, last_curve_failover_ms: 40_000 });
    let a = poll_step(&mut s, curve_event(true, Some(true), 45_000));
    assert_eq!(a, PollAction::SkipFanControl);
    let a = poll_step(&mut s, curve_event(true, Some(true), 70_000));
    assert_eq!(a, PollAction::HandToFirmware);
}

#[test]
fn poll_step_failed_reads_reset_at_limit() {
    let mut s = PollDecisions::new();
    let ev = PollEvent {
        mode: FanControlMode::Manual,
        curve_configured: false,
        read_ok: false,
        held_temps_empty: None,
        now: 1000,
    };
    for i in 1..MAX_EC_IO_FAILURES {
        assert_eq!(poll_step(&mut s, ev), PollAction::ControlFans);
        assert_eq!(s.read_failures, i);
    }
    assert_eq!(poll_step(&mut s, ev), PollAction::ResetEc);
    assert_eq!(s.read_failures, MAX_EC_IO_FAILURES);
    let ok = PollEvent { read_ok: true, ..ev };
    assert_eq!(poll_step(&mut s, ok), PollAction::ControlFans);
    assert_eq!(s.read_failures, 0);
}

#[test]
fn poll_step_empty_temps_count_toward_reset() {
    let mut s = PollDecisions { read_failures: 3, last_curve_failover_ms: 0 };
    // A failed read and empty held temperatures count twice in one poll.
    assert_eq!(poll_step(&mut s, curve_event(false, Some(true), 10)), PollAction::ResetEc);
    assert_eq!(s.read_failures, 5);
}

#[test]
fn poll_step_curve_with_temps_controls_fans() {
    let mut s = PollDecisions::new();
    assert_eq!(poll_step(&mut s, curve_event(true, Some(false), 10)), PollAction::ControlFans);
    assert_eq!(poll_step(&mut s, curve_event(true, None, 10)), PollAction::ControlFans);
    let mut no_curve = curve_event(true, Some(true), 10);
    no_curve.curve_configured = false;
    assert_eq!(poll_step(&mut s, no_curve), PollAction::ControlFans);
}

fn sample(rpm: u32) -> ThermalData {
    ThermalData {
        temps: Arc::new(vec![("CPU".to_string(), 60)]),
        fans: vec![FanReading { name: "Fan 1".to_string(), rpm }],
    }
}

#[test]
fn record_thermal_sample_updates_on_fan_rpm_change() {
    let mut held: Option<ThermalData> = None;
    assert!(thermal_changed(&held, &sample(2000)));
    held = Some(sample(2000));
    assert!(thermal_changed(&held, &sample(3200)));
    held = Some(sample(3200));
    assert!(!thermal_changed(&held, &sample(3200)));
}

#[test]
fn thermal_changed_on_temperature() {
    let held = Some(sample(2000));
    let mut t = sample(2000);
    t.temps = Arc::new(vec![("CPU".to_string(), 61)]);
    assert!(thermal_changed(&held, &t));
    t.temps = Arc::new(vec![]);
    assert!(thermal_changed(&held, &t));
}

#[test]
fn fan_ramps_start_over_on_mode_change() {
    let mut r = FanRamps::new(FanControlMode::Curve, 40, None);
    assert_eq!(r.last_fan_mode, Some(FanControlMode::Curve));
    assert_eq!(r.manual_ramp, Some(40));
    assert_eq!(r.stepper.current_duty(), Some(40));
    r.last_manual_duty = Some(30);
    r.enter_mode(FanControlMode::Curve, 55, Some(70));
    assert_eq!(r.manual_ramp, Some(40));
    assert_eq!(r.last_manual_duty, Some(30));
    r.enter_mode(FanControlMode::Manual, 0, Some(70));
    assert_eq!(r.manual_ramp, Some(70));
    assert_eq!(r.last_manual_duty, None);
    assert_eq!(r.stepper.current_duty(), None);
    r.last_fan_mode = Some(FanControlMode::Manual);
    r.enter_mode(FanControlMode::Disabled, 55, Some(70));
    assert_eq!(r.manual_ramp, None);
}

#[test]
fn fan_ramps_start_disabled_without_last_mode() {
    let r = FanRamps::new(FanControlMode::Disabled, 0, Some(20));
    assert_eq!(r.last_fan_mode, None);
    assert_eq!(r.manual_ramp, None);
    let m = FanRamps::new(FanControlMode::Manual, 0, Some(20));
    assert_eq!(m.manual_ramp, Some(20));
}

#[test]
fn curve_duty_to_write_follows_hottest_sensor_and_reasserts() {
    let full: Vec<[u32; 2]> = vec![[0, 0], [50, 50], [110, 100]];
    let temps = vec![("CPU".to_string(), 50), ("Battery".to_string(), 90)];
    let mut r = FanRamps::new(FanControlMode::Curve, 0, None);
    // No rate limit: straight to the curve's duty at the CPU's 50 °C.
    let d = r.curve_duty_to_write(&temps, &[], 2, 0, None, &full, 1000, 0);
    assert_eq!(d, Some(50));
    r.stepper.note_applied(50);
    // Converged: nothing to write until the re-assert interval has passed.
    assert_eq!(r.curve_duty_to_write(&temps, &[], 2, 0, None, &full, 2000, 1000), None);
    assert_eq!(r.curve_duty_to_write(&temps, &[], 2, 0, None, &full, 40_000, 1000), Some(50));
    // A configured sensor takes over.
    let battery = vec!["Battery".to_string()];
    assert_eq!(r.curve_duty_to_write(&temps, &battery, 2, 0, None, &full, 40_500, 40_000), Some(83));
}

#[test]
fn manual_ramp_holds_after_failed_write() {
    let mut r = FanRamps::new(FanControlMode::Manual, 30, None);
    r.manual_outcome(40, true, false);
    assert_eq!(r.manual_ramp, Some(30));
    assert_eq!(r.last_manual_duty, None);
    r.manual_outcome(40, true, true);
    assert_eq!(r.manual_ramp, Some(40));
    assert_eq!(r.last_manual_duty, Some(40));
    r.manual_outcome(40, false, false);
    assert_eq!(r.manual_ramp, Some(40));
}

#[test]
fn per_fan_ramps_seed_advance_and_report() {
    let mut r = FanRamps::new(FanControlMode::Manual, 0, None);
    r.ensure_per_fan_ramp(20, 3);
    assert_eq!(r.per_fan_ramp, Some(vec![20, 20, 20]));
    r.ensure_per_fan_ramp(90, 2);
    assert_eq!(r.per_fan_ramp, Some(vec![20, 20, 20]));
    r.per_fan_written(1, 30);
    r.per_fan_written(7, 99);
    assert_eq!(r.per_fan_ramp, Some(vec![20, 30, 20]));
    assert_eq!(r.per_fan_done(false), None);
    assert_eq!(r.manual_ramp, Some(30));
    assert_eq!(r.per_fan_done(true), Some(30));
}

#[test]
fn resume_starts_every_ramp_over() {
    let mut r = FanRamps::new(FanControlMode::Curve, 60, Some(10));
    r.ensure_per_fan_ramp(20, 2);
    r.on_resume();
    assert_eq!(r.last_fan_mode, None);
    assert_eq!(r.manual_ramp, None);
    assert_eq!(r.per_fan_ramp, None);
    assert_eq!(r.stepper.current_duty(), None);
}
