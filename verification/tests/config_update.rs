use framework_crate::config_update::{
    move_curve_point, select_curve_sensor, set_charge_limit, set_curve_hysteresis,
    set_charge_rate_soc_threshold, set_curve_rate_limit, set_fan_mode, set_manual_duty, set_per_fan_duty, set_poll_rate,
    set_ui_refresh_rate, set_unified_duty, slider_duty, toggle_charge_limit, toggle_sensor,
};
use framework_crate::types::{default_points, Config, CurveConfig, FanControlMode, GlobalCurveConfig, SettingU8};

fn strings(names: &[&str]) -> Vec<String> {
    names.iter().map(|s| s.to_string()).collect()
}

fn with_curve() -> Config {
    let mut c = Config::default();
    c.fan.curve = Some(GlobalCurveConfig {
        curve: CurveConfig {
            sensors: vec![],
            points: default_points(),
            hysteresis_c: 2,
            rate_limit_pct_per_step: 10,
            rate_limit_down_pct_per_step: None,
        },
        poll_ms: 1000,
    });
    c
}

#[test]
fn fan_mode_curve_creates_default_config() {
    let mut cfg = Config::default();
    set_fan_mode(&mut cfg, FanControlMode::Curve);
    assert_eq!(cfg.fan.mode, FanControlMode::Curve);
    assert!(cfg.fan.curve.is_some());
}

#[test]
fn fan_mode_disabled_sets_disabled() {
    let mut cfg = Config::default();
    set_fan_mode(&mut cfg, FanControlMode::Curve);
    set_fan_mode(&mut cfg, FanControlMode::Disabled);
    assert_eq!(cfg.fan.mode, FanControlMode::Disabled);
    assert!(cfg.fan.curve.is_some());
}

#[test]
fn fan_manual_duty_is_clamped() {
    let mut cfg = Config::default();
    set_manual_duty(&mut cfg, 5);
    assert_eq!(cfg.fan.manual.as_ref().map(|m| m.duty_pct), Some(10));
}

#[test]
fn fan_manual_duty_above_max_clamps() {
    let mut cfg = Config::default();
    set_manual_duty(&mut cfg, 200);
    assert_eq!(cfg.fan.manual.as_ref().map(|m| m.duty_pct), Some(100));
}

#[test]
fn fan_manual_duty_in_range_unchanged() {
    let mut cfg = Config::default();
    set_manual_duty(&mut cfg, 60);
    assert_eq!(cfg.fan.manual.as_ref().map(|m| m.duty_pct), Some(60));
}

#[test]
fn charge_limit_toggle_creates_default() {
    let mut cfg = Config::default();
    toggle_charge_limit(&mut cfg, true);
    let limit = cfg.battery.charge_limit_max_pct;
    assert!(limit.is_some());
    assert!(limit.unwrap().enabled);
    assert_eq!(limit.unwrap().value, 25);
}

#[test]
fn charge_limit_changes_value() {
    let mut cfg = Config::default();
    set_charge_limit(&mut cfg, 80);
    assert_eq!(cfg.battery.charge_limit_max_pct.map(|l| l.value), Some(80));
    set_charge_limit(&mut cfg, 300);
    assert_eq!(cfg.battery.charge_limit_max_pct.map(|l| l.value), Some(100));
}

#[test]
fn charge_limit_toggle_raises_low_value() {
    let mut cfg = Config::default();
    cfg.battery.charge_limit_max_pct = Some(SettingU8 { enabled: true, value: 10 });
    toggle_charge_limit(&mut cfg, false);
    assert_eq!(cfg.battery.charge_limit_max_pct, Some(SettingU8 { enabled: false, value: 25 }));
}

#[test]
fn charge_rate_soc_threshold_changes_value() {
    let mut cfg = Config::default();
    set_charge_rate_soc_threshold(&mut cfg, 80);
    assert_eq!(cfg.battery.charge_rate_soc_threshold_pct, Some(80));
    set_charge_rate_soc_threshold(&mut cfg, 0);
    assert_eq!(cfg.battery.charge_rate_soc_threshold_pct, None);
}

#[test]
fn poll_rate_changes_config() {
    let mut cfg = Config::default();
    assert_eq!(set_poll_rate(&mut cfg, 1000), 1000);
    assert_eq!(cfg.telemetry.poll_ms, 1000);
    assert_eq!(set_poll_rate(&mut cfg, 10), 200);
    assert_eq!(cfg.telemetry.poll_ms, 200);
}

#[test]
fn ui_refresh_rate_changes_interval() {
    let mut cfg = Config::default();
    assert_eq!(set_ui_refresh_rate(&mut cfg, 200), 200);
    assert_eq!(cfg.telemetry.ui_refresh_ms, 200);
    assert_eq!(set_ui_refresh_rate(&mut cfg, 5), 50);
    assert_eq!(set_ui_refresh_rate(&mut cfg, 5000), 1000);
}

#[test]
fn slider_duty_clamped() {
    assert_eq!(slider_duty(5), 10);
    assert_eq!(slider_duty(150), 100);
    assert_eq!(slider_duty(50), 50);
}

#[test]
fn unified_and_per_fan_duty() {
    let mut cfg = Config::default();
    set_unified_duty(&mut cfg, false);
    assert!(!cfg.fan.unified_duty);
    let mut d = vec![10, 20];
    set_per_fan_duty(&mut d, 1, 150);
    assert_eq!(d, vec![10, 100]);
    set_per_fan_duty(&mut d, 5, 40);
    assert_eq!(d, vec![10, 100]);
}

#[test]
fn curve_edits() {
    let mut cfg = with_curve();
    move_curve_point(&mut cfg, 1, 0, 300);
    assert_eq!(cfg.fan.curve.as_ref().unwrap().curve.points[1], [1, 100]);
    move_curve_point(&mut cfg, 9, 50, 50);
    assert_eq!(cfg.fan.curve.as_ref().unwrap().curve.points.len(), 5);
    set_curve_hysteresis(&mut cfg, 4);
    set_curve_rate_limit(&mut cfg, 25);
    select_curve_sensor(&mut cfg, "PECI".to_string());
    let g = cfg.fan.curve.as_ref().unwrap();
    assert_eq!(g.curve.hysteresis_c, 4);
    assert_eq!(g.curve.rate_limit_pct_per_step, 25);
    assert_eq!(g.curve.sensors, strings(&["PECI"]));
    let mut plain = Config::default();
    move_curve_point(&mut plain, 0, 50, 50);
    select_curve_sensor(&mut plain, "PECI".to_string());
    assert!(plain.fan.curve.is_none());
}

#[test]
fn sensor_toggles() {
    let keys = strings(&["A", "B", "C"]);
    let mut cfg = Config::default();
    toggle_sensor(&mut cfg, &keys, "B".to_string(), false);
    assert_eq!(cfg.telemetry.selected_sensors, strings(&["A", "C"]));
    toggle_sensor(&mut cfg, &keys, "B".to_string(), true);
    assert_eq!(cfg.telemetry.selected_sensors, strings(&["A", "C", "B"]));
    toggle_sensor(&mut cfg, &keys, "B".to_string(), true);
    assert_eq!(cfg.telemetry.selected_sensors, strings(&["A", "C", "B"]));
}
