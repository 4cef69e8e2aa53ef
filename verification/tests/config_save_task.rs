use framework_crate::config_save_task::{battery_changed, battery_key, charge_limit_target};
use framework_crate::types::{Config, SettingU8};

fn default_config() -> Config {
    Config::default()
}

#[test]
fn battery_key_default() {
    let cfg = default_config();
    let key = battery_key(&cfg);
    assert_eq!(key, None);
}

#[test]
fn battery_key_with_limit() {
    let mut cfg = default_config();
    cfg.battery.charge_limit_max_pct = Some(SettingU8 { enabled: true, value: 80 });
    let key = battery_key(&cfg);
    assert_eq!(key, Some(SettingU8 { enabled: true, value: 80 }));
}

#[test]
fn battery_key_equal_for_same_config() {
    let mut cfg1 = default_config();
    cfg1.battery.charge_limit_max_pct = Some(SettingU8 { enabled: true, value: 75 });

    let mut cfg2 = default_config();
    cfg2.battery.charge_limit_max_pct = Some(SettingU8 { enabled: true, value: 75 });

    assert_eq!(battery_key(&cfg1), battery_key(&cfg2));
}

#[test]
fn battery_key_different_when_limit_differs() {
    let mut cfg1 = default_config();
    cfg1.battery.charge_limit_max_pct = Some(SettingU8 { enabled: true, value: 75 });

    let mut cfg2 = default_config();
    cfg2.battery.charge_limit_max_pct = Some(SettingU8 { enabled: true, value: 80 });

    assert_ne!(battery_key(&cfg1), battery_key(&cfg2));
}

// --- Further cases -------------------------------------------------------

#[test]
fn charge_limit_target_disabled_means_full() {
    assert_eq!(charge_limit_target(SettingU8 { enabled: true, value: 80 }), 80);
    assert_eq!(charge_limit_target(SettingU8 { enabled: false, value: 80 }), 100);
}

#[test]
fn battery_changed_detects_changes() {
    let mut cfg = default_config();
    assert!(battery_changed(None, &cfg));
    assert!(!battery_changed(Some(None), &cfg));
    cfg.battery.charge_limit_max_pct = Some(SettingU8 { enabled: true, value: 80 });
    assert!(battery_changed(Some(None), &cfg));
    assert!(!battery_changed(Some(Some(SettingU8 { enabled: true, value: 80 })), &cfg));
    assert!(battery_changed(Some(Some(SettingU8 { enabled: false, value: 80 })), &cfg));
}
