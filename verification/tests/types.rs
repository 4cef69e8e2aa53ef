use framework_crate::types::{
    curve_control_temp, curve_full_points, default_points, is_battery_sensor,
    sort_points_by_temp, sorted_sensor_list, BatteryConfig, Config, CurveConfig, FanControlMode, GlobalCurveConfig,
    ManualConfig, SettingChargeRate, SettingU8,
};

/// A charge rate in C as the configuration holds it (thousandths of C).
fn milli_c(c: f32) -> u32 {
    (c * 1000.0).round() as u32
}

fn in_c(milli: u32) -> f32 {
    milli as f32 / 1000.0
}

fn temps(entries: &[(&str, i32)]) -> Vec<(String, i32)> {
    entries.iter().map(|(n, t)| (n.to_string(), *t)).collect()
}

fn strings(names: &[&str]) -> Vec<String> {
    names.iter().map(|s| s.to_string()).collect()
}

fn curve(points: Vec<[u32; 2]>, sensors: Vec<String>) -> GlobalCurveConfig {
    GlobalCurveConfig {
        curve: CurveConfig {
            sensors,
            points,
            hysteresis_c: 2,
            rate_limit_pct_per_step: 10,
            rate_limit_down_pct_per_step: None,
        },
        poll_ms: 1000,
    }
}

#[test]
fn validate_poll_ms_below_min_clamps() {
    let mut c = Config::default();
    c.telemetry.poll_ms = 50;
    c.validate();
    assert_eq!(c.telemetry.poll_ms, 200);
}

#[test]
fn validate_poll_ms_above_min_unchanged() {
    let mut c = Config::default();
    c.telemetry.poll_ms = 1000;
    c.validate();
    assert_eq!(c.telemetry.poll_ms, 1000);
}

#[test]
fn validate_ui_refresh_ms_below_min_clamps() {
    let mut c = Config::default();
    c.telemetry.ui_refresh_ms = 10;
    c.validate();
    assert_eq!(c.telemetry.ui_refresh_ms, 50);
}

#[test]
fn validate_ui_refresh_ms_above_max_clamps() {
    let mut c = Config::default();
    c.telemetry.ui_refresh_ms = 5000;
    c.validate();
    assert_eq!(c.telemetry.ui_refresh_ms, 1000);
}

#[test]
fn validate_ui_refresh_ms_in_range_unchanged() {
    let mut c = Config::default();
    c.telemetry.ui_refresh_ms = 500;
    c.validate();
    assert_eq!(c.telemetry.ui_refresh_ms, 500);
}

#[test]
fn validate_manual_duty_pct_above_100_clamps() {
    let mut c = Config::default();
    c.fan.manual = Some(ManualConfig { duty_pct: 200 });
    c.validate();
    assert_eq!(c.fan.manual.as_ref().unwrap().duty_pct, 100);
}

#[test]
fn validate_manual_duty_pct_zero_unchanged() {
    let mut c = Config::default();
    c.fan.manual = Some(ManualConfig { duty_pct: 0 });
    c.validate();
    assert_eq!(c.fan.manual.as_ref().unwrap().duty_pct, 0);
}

#[test]
fn curve_control_temp_skips_battery_by_default() {
    let t = temps(&[("F75303_CPU", 55), ("Battery", 90), ("PECI", 48)]);
    assert_eq!(curve_control_temp(&t, &[]), 55);
}

#[test]
fn curve_control_temp_uses_configured_sensors() {
    let t = temps(&[("F75303_CPU", 55), ("PECI", 70)]);
    assert_eq!(curve_control_temp(&t, &strings(&["PECI"])), 70);
}

#[test]
fn validate_manual_duty_pct_in_range_unchanged() {
    let mut c = Config::default();
    c.fan.manual = Some(ManualConfig { duty_pct: 60 });
    c.validate();
    assert_eq!(c.fan.manual.as_ref().unwrap().duty_pct, 60);
}

#[test]
fn validate_curve_poll_ms_below_min_clamps() {
    let mut c = Config::default();
    c.fan.curve = Some(GlobalCurveConfig { curve: CurveConfig::default(), poll_ms: 100 });
    c.validate();
    assert_eq!(c.fan.curve.as_ref().unwrap().poll_ms, 500);
}

#[test]
fn validate_curve_poll_ms_above_min_unchanged() {
    let mut c = Config::default();
    c.fan.curve = Some(GlobalCurveConfig { curve: CurveConfig::default(), poll_ms: 2000 });
    c.validate();
    assert_eq!(c.fan.curve.as_ref().unwrap().poll_ms, 2000);
}

#[test]
fn validate_no_manual_no_curve_no_panic() {
    let mut c = Config::default();
    c.validate();
    assert!(c.fan.manual.is_none());
    assert!(c.fan.curve.is_none());
}

#[test]
fn validate_curve_points_clamp() {
    let mut c = Config::default();
    c.fan.curve = Some(curve(vec![[150, 200], [40, 10]], vec![]));
    c.validate();
    let pts = &c.fan.curve.as_ref().unwrap().curve.points;
    assert_eq!(pts[0], [110, 100]);
    assert_eq!(pts[1], [40, 10]);
}

#[test]
fn validate_empty_curve_points_restores_defaults() {
    let mut c = Config::default();
    c.fan.curve = Some(curve(vec![], vec![]));
    c.validate();
    let pts = &c.fan.curve.as_ref().unwrap().curve.points;
    assert_eq!(pts, &default_points());
    assert!(!pts.is_empty());
}

#[test]
fn validate_truncates_curve_sensors_to_single_selection() {
    let mut c = Config::default();
    c.fan.curve = Some(curve(default_points(), strings(&["CPU", "Battery", "SSD"])));
    c.validate();
    let sensors = &c.fan.curve.as_ref().unwrap().curve.sensors;
    assert_eq!(sensors.len(), 1);
    assert_eq!(sensors[0], "CPU");
}

#[test]
fn validate_battery_charge_limit_clamps_high() {
    let mut cfg = Config::default();
    cfg.battery.charge_limit_max_pct = Some(SettingU8 { enabled: true, value: 150 });
    cfg.validate();
    assert_eq!(cfg.battery.charge_limit_max_pct.unwrap().value, 100);
}

#[test]
fn validate_battery_charge_limit_clamps_low() {
    let mut cfg = Config::default();
    cfg.battery.charge_limit_max_pct = Some(SettingU8 { enabled: true, value: 10 });
    cfg.validate();
    assert_eq!(cfg.battery.charge_limit_max_pct.unwrap().value, 25);
}

#[test]
fn validate_battery_charge_rate_clamps_high() {
    let mut cfg = Config::default();
    cfg.battery.charge_rate_c = Some(SettingChargeRate { enabled: true, milli_c: milli_c(5.0) });
    cfg.validate();
    assert!((in_c(cfg.battery.charge_rate_c.unwrap().milli_c) - 1.0).abs() < f32::EPSILON);
}

#[test]
fn validate_battery_charge_rate_clamps_low() {
    let mut cfg = Config::default();
    cfg.battery.charge_rate_c = Some(SettingChargeRate { enabled: true, milli_c: milli_c(0.01) });
    cfg.validate();
    assert!((in_c(cfg.battery.charge_rate_c.unwrap().milli_c) - 0.05).abs() < f32::EPSILON);
}

#[test]
fn validate_soc_threshold_capped() {
    let mut cfg = Config::default();
    cfg.battery.charge_rate_soc_threshold_pct = Some(180);
    cfg.validate();
    assert_eq!(cfg.battery.charge_rate_soc_threshold_pct, Some(100));
}

#[test]
fn sorted_sensor_list_empty_selected_uses_all_keys() {
    let selected: Vec<String> = vec![];
    let keys = strings(&["C", "A", "B"]);
    let result = sorted_sensor_list(&selected, &keys);
    assert_eq!(result, vec!["C", "A", "B"]);
}

#[test]
fn sorted_sensor_list_filters_stale_names() {
    let selected = strings(&["A", "Gone", "C"]);
    let keys = strings(&["A", "B", "C"]);
    let result = sorted_sensor_list(&selected, &keys);
    assert_eq!(result, vec!["A", "C"]);
}

#[test]
fn sorted_sensor_list_preserves_key_order() {
    let selected = strings(&["C", "A", "B"]);
    let keys = strings(&["A", "B", "C"]);
    let result = sorted_sensor_list(&selected, &keys);
    assert_eq!(result, vec!["A", "B", "C"]);
}

#[test]
fn sorted_sensor_list_duplicate_key_uses_last_position() {
    let selected: Vec<String> = vec![];
    let keys = strings(&["A", "B", "A"]);
    assert_eq!(sorted_sensor_list(&selected, &keys), vec!["B", "A", "A"]);
    let selected = strings(&["A", "B"]);
    assert_eq!(sorted_sensor_list(&selected, &keys), vec!["B", "A"]);
}

#[test]
fn battery_health_calculation() {
    let remaining = 4500u32;
    let design = 5000u32;
    let health = (remaining as f32 / design as f32 * 100.0) as u32;
    assert_eq!(health, 90);
}

#[test]
fn battery_health_full() {
    let remaining = 5000u32;
    let design = 5000u32;
    let health = (remaining as f32 / design as f32 * 100.0) as u32;
    assert_eq!(health, 100);
}

#[test]
fn battery_health_degraded() {
    let remaining = 3000u32;
    let design = 5000u32;
    let health = (remaining as f32 / design as f32 * 100.0) as u32;
    assert_eq!(health, 60);
}

#[test]
fn voltage_formatting() {
    let mv = 12340u32;
    let v = mv as f32 / 1000.0;
    assert!((v - 12.34).abs() < 0.01);
}

#[test]
fn current_prefix_charging() {
    let charging = true;
    let prefix = if charging { "" } else { "-" };
    assert_eq!(prefix, "");
}

#[test]
fn current_prefix_discharging() {
    let charging = false;
    let prefix = if charging { "" } else { "-" };
    assert_eq!(prefix, "-");
}

// --- Further cases -------------------------------------------------------

#[test]
fn is_battery_sensor_ignores_ascii_case() {
    assert!(is_battery_sensor("Battery"));
    assert!(is_battery_sensor("BATTERY"));
    assert!(is_battery_sensor("battery"));
    assert!(!is_battery_sensor("Battery2"));
    assert!(!is_battery_sensor("batt"));
    assert!(!is_battery_sensor(""));
}

#[test]
fn curve_control_temp_empty_is_zero() {
    assert_eq!(curve_control_temp(&[], &[]), 0);
}

#[test]
fn curve_control_temp_only_battery_falls_back_to_battery() {
    let t = temps(&[("Battery", 41)]);
    assert_eq!(curve_control_temp(&t, &[]), 41);
}

#[test]
fn curve_control_temp_missing_configured_sensor_falls_back() {
    let t = temps(&[("F75303_CPU", 55), ("Battery", 90)]);
    assert_eq!(curve_control_temp(&t, &strings(&["Gone"])), 55);
}

#[test]
fn curve_control_temp_configured_battery_is_used() {
    let t = temps(&[("F75303_CPU", 55), ("Battery", 90)]);
    assert_eq!(curve_control_temp(&t, &strings(&["Battery"])), 90);
}

#[test]
fn curve_control_temp_negative_readings() {
    let t = temps(&[("A", -5), ("B", -3)]);
    assert_eq!(curve_control_temp(&t, &[]), -3);
}

#[test]
fn curve_full_points_frames_the_domain() {
    assert_eq!(curve_full_points(&[]), vec![[0, 0], [110, 100]]);
    assert_eq!(curve_full_points(&[[50, 40]]), vec![[0, 0], [50, 40], [110, 100]]);
}

#[test]
fn curve_full_points_keeps_given_end_points() {
    assert_eq!(curve_full_points(&[[110, 70], [0, 20]]), vec![[0, 20], [110, 70]]);
}

#[test]
fn curve_full_points_later_duplicate_wins_and_sorts() {
    assert_eq!(
        curve_full_points(&[[60, 40], [30, 10], [60, 90]]),
        vec![[0, 0], [30, 10], [60, 90], [110, 100]]
    );
}

#[test]
fn fan_mode_codes_round_trip() {
    for m in [FanControlMode::Disabled, FanControlMode::Manual, FanControlMode::Curve] {
        assert_eq!(FanControlMode::from_u8(m.to_u8()), m);
    }
    assert_eq!(FanControlMode::Disabled.to_u8(), 0);
    assert_eq!(FanControlMode::Manual.to_u8(), 1);
    assert_eq!(FanControlMode::Curve.to_u8(), 2);
    assert_eq!(FanControlMode::from_u8(7), FanControlMode::Disabled);
}

#[test]
fn validate_clamps_curve_parameters() {
    let mut c = Config::default();
    let mut g = curve(vec![[40, 10]], vec![]);
    g.poll_ms = 99_999;
    g.curve.hysteresis_c = 50;
    g.curve.rate_limit_pct_per_step = 0;
    g.curve.rate_limit_down_pct_per_step = Some(500);
    c.fan.curve = Some(g);
    c.fan.per_fan_duty = vec![150, 30];
    c.telemetry.poll_ms = 10_000;
    c.validate();
    let g = c.fan.curve.as_ref().unwrap();
    assert_eq!(g.poll_ms, 5000);
    assert_eq!(g.curve.hysteresis_c, 10);
    assert_eq!(g.curve.rate_limit_pct_per_step, 1);
    assert_eq!(g.curve.rate_limit_down_pct_per_step, Some(100));
    assert_eq!(c.fan.per_fan_duty, vec![100, 30]);
    assert_eq!(c.telemetry.poll_ms, 2000);
}

#[test]
fn validate_is_idempotent() {
    let mut c = Config::default();
    c.fan.curve = Some(curve(vec![[150, 200], [40, 10]], strings(&["A", "B"])));
    c.battery = BatteryConfig {
        charge_limit_max_pct: Some(SettingU8 { enabled: false, value: 3 }),
        charge_rate_c: Some(SettingChargeRate { enabled: true, milli_c: 7 }),
        charge_rate_soc_threshold_pct: Some(250),
    };
    c.validate();
    let once = c.clone();
    c.validate();
    assert_eq!(c, once);
}

#[test]
fn sort_points_is_stable_by_temperature() {
    assert_eq!(
        sort_points_by_temp(vec![[60, 40], [30, 10], [60, 20], [0, 0], [30, 5]]),
        vec![[0, 0], [30, 10], [30, 5], [60, 40], [60, 20]]
    );
    assert_eq!(sort_points_by_temp(vec![]), Vec::<[u32; 2]>::new());
}

#[test]
fn save_sorts_curve_points() {
    let mut cfg = Config::default();
    cfg.fan.mode = FanControlMode::Curve;
    cfg.fan.curve = Some(curve(vec![[80, 100], [50, 20], [65, 60]], vec![]));
    let mut cfg2 = cfg.clone();
    cfg2.validate();
    cfg2.sort_curve_points();
    let pts = &cfg2.fan.curve.unwrap().curve.points;
    assert_eq!(pts[0][0], 50);
    assert_eq!(pts[1][0], 65);
    assert_eq!(pts[2][0], 80);
}
