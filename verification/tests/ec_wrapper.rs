use framework_crate::cli::ec_wrapper::{
    battery_data_from, classify_pd_port, decode_fans, decode_pd_port, decode_temps,
    expansion_cards_from, parse_fp_led_level, pd_ports_from, platform_family,
    sensor_name_for_index, thermal_from, versions_from, BatteryData, BatteryReading, DataRole,
    EcImage, EsrtEntry, FlashVersion, FpLedLevel, PdPortState, PlatformFamily, PlatformId,
    PowerReading, PowerRole, UsbCPort,
};

#[test]
fn platform_families() {
    assert_eq!(platform_family(Some(PlatformId::Framework12IntelGen13)), PlatformFamily::Laptop12);
    assert_eq!(platform_family(Some(PlatformId::IntelGen11)), PlatformFamily::Laptop13);
    assert_eq!(platform_family(Some(PlatformId::Framework13AmdAi300)), PlatformFamily::Laptop13);
    assert_eq!(platform_family(Some(PlatformId::Framework16Amd7080)), PlatformFamily::Laptop16);
    assert_eq!(platform_family(Some(PlatformId::FrameworkDesktopAmdAiMax300)), PlatformFamily::Desktop);
    assert_eq!(platform_family(Some(PlatformId::Framework12IntelCore3)), PlatformFamily::Unknown);
    assert_eq!(platform_family(None), PlatformFamily::Unknown);
}

#[test]
fn platform_capabilities() {
    for f in [PlatformFamily::Laptop12, PlatformFamily::Laptop13, PlatformFamily::Laptop16] {
        assert!(f.has_battery());
        assert!(f.has_fingerprint_led());
        assert!(f.has_keyboard_backlight());
    }
    for f in [PlatformFamily::Desktop, PlatformFamily::Unknown] {
        assert!(!f.has_battery());
        assert!(!f.has_fingerprint_led());
        assert!(!f.has_keyboard_backlight());
    }
}

#[test]
fn sensor_names_per_platform() {
    assert_eq!(sensor_name_for_index(Some(PlatformId::IntelGen11), 1), "F75303_CPU");
    assert_eq!(sensor_name_for_index(Some(PlatformId::IntelGen11), 5), "Sensor 5");
    assert_eq!(sensor_name_for_index(Some(PlatformId::IntelGen13), 5), "F57397_VCCGT");
    assert_eq!(sensor_name_for_index(Some(PlatformId::IntelCoreUltra1), 2), "Battery");
    assert_eq!(sensor_name_for_index(Some(PlatformId::Framework12IntelGen13), 5), "Charger IC");
    assert_eq!(sensor_name_for_index(Some(PlatformId::Framework13Amd7080), 4), "Sensor 4");
    assert_eq!(sensor_name_for_index(Some(PlatformId::Framework16AmdAi300), 7), "dGPU temp");
    assert_eq!(sensor_name_for_index(Some(PlatformId::FrameworkDesktopAmdAiMax300), 4), "Virtual");
    assert_eq!(sensor_name_for_index(None, 12), "Sensor 12");
}

#[test]
fn temps_skip_invalid_bytes() {
    let data = [73 + 40, 0xFF, 73 + 55, 0xFC, 10];
    let t = decode_temps(Some(PlatformId::IntelGen12), &data);
    assert_eq!(
        t,
        vec![
            ("F75303_Local".to_string(), 40),
            ("F75303_DDR".to_string(), 55),
            ("PECI".to_string(), -63),
        ]
    );
}

#[test]
fn fans_decode_little_endian_words() {
    // 0x0BB8 = 3000 rpm, absent, stalled, stopped; plus a trailing odd byte.
    let data = [0xB8, 0x0B, 0xFF, 0xFF, 0xFE, 0xFF, 0x00, 0x00, 0x42];
    let f = decode_fans(&data);
    let got: Vec<(String, u32)> = f.iter().map(|r| (r.name.clone(), r.rpm)).collect();
    assert_eq!(
        got,
        vec![("Fan 1".to_string(), 3000), ("Fan 3".to_string(), 0), ("Fan 4".to_string(), 0)]
    );
}

#[test]
fn thermal_without_reads_is_empty() {
    let d = thermal_from(None, None, None);
    assert!(d.temps.is_empty());
    assert!(d.fans.is_empty());
    let d = thermal_from(None, Some(vec![100]), Some(vec![0x10, 0x00]));
    assert_eq!(*d.temps, vec![("Sensor 0".to_string(), 27)]);
    assert_eq!(d.fans[0].rpm, 16);
}

fn reading(design_voltage: u32) -> PowerReading {
    PowerReading {
        ac_present: true,
        battery: Some(BatteryReading {
            present_voltage: 17000,
            present_rate: 1200,
            remaining_capacity: 2000,
            design_capacity: 3500,
            design_voltage,
            last_full_charge_capacity: 3300,
            cycle_count: 42,
            charge_percentage: 61,
            manufacturer: "NVT".to_string(),
            model_number: "FRANGWA".to_string(),
            serial_number: "0042".to_string(),
            battery_type: "LION".to_string(),
            discharging: false,
        }),
    }
}

#[test]
fn battery_data_from_reading() {
    let d = battery_data_from(Some(reading(15480))).unwrap();
    assert_eq!(d.ac_present, Some(true));
    assert_eq!(d.design_capacity_uwh, Some(3500 * 15480));
    assert_eq!(d.remaining_capacity_uwh, Some(2000 * 15480));
    assert_eq!(d.soc_pct, Some(61));
    assert_eq!(d.cycle_count, Some(42));
    assert_eq!(d.manufacturer.as_deref(), Some("NVT"));
    assert_eq!(d.charger_temp_c, None);
}

#[test]
fn battery_data_without_design_voltage() {
    let d = battery_data_from(Some(reading(0))).unwrap();
    assert_eq!(d.remaining_capacity_uwh, None);
    assert_eq!(d.design_capacity_uwh, Some(0));
}

#[test]
fn battery_data_without_battery_or_reading() {
    let d = battery_data_from(Some(PowerReading { ac_present: false, battery: None })).unwrap();
    let mut expected = BatteryData::default();
    expected.ac_present = Some(false);
    assert_eq!(d, expected);
    assert_eq!(
        battery_data_from(None),
        Err("power_info returned None (no battery data available)".to_string())
    );
}

#[test]
fn versions_assembled() {
    let v = versions_from(
        Some("Laptop 13 (AMD Ryzen 7040 Series)".to_string()),
        Some("Framework13Amd7080".to_string()),
        Some(FlashVersion { ro: "ro-1".to_string(), rw: "rw-2".to_string(), current: EcImage::RW }),
        Some((
            2,
            vec![
                EsrtEntry { fw_type: 1, fw_version: 0x0305 },
                EsrtEntry { fw_type: 2, fw_version: 0x0101 },
                EsrtEntry { fw_type: 1, fw_version: 0x0AFF },
            ],
        )),
    );
    assert_eq!(v.mainboard_type.as_deref(), Some("Laptop 13 (AMD Ryzen 7040 Series)"));
    assert_eq!(v.ec_build_version.as_deref(), Some("rw-2"));
    assert_eq!(v.ec_current_image.as_deref(), Some("RW"));
    // The third entry is beyond the resource count.
    assert_eq!(v.uefi_version.as_deref(), Some("03.05"));
    assert_eq!(v.tool_version, None);
}

#[test]
fn versions_ro_and_unknown_images() {
    let ro = versions_from(None, None, Some(FlashVersion { ro: "a".into(), rw: "b".into(), current: EcImage::RO }), None);
    assert_eq!(ro.ec_build_version.as_deref(), Some("a"));
    assert_eq!(ro.ec_current_image.as_deref(), Some("RO"));
    let unk = versions_from(None, None, Some(FlashVersion { ro: "a".into(), rw: "b".into(), current: EcImage::Unknown }), Some((5, vec![EsrtEntry { fw_type: 1, fw_version: 0xABCD }])));
    assert_eq!(unk.ec_build_version.as_deref(), Some("b"));
    assert_eq!(unk.ec_current_image.as_deref(), Some("Unknown"));
    assert_eq!(unk.uefi_version.as_deref(), Some("AB.CD"));
}

#[test]
fn expansion_cards_from_board_id() {
    let cards = expansion_cards_from(Some(0x2c));
    assert_eq!(cards.len(), 1);
    assert_eq!(cards[0].name, "Board ID: 0x002c");
    assert_eq!(cards[0].active_firmware, None);
    assert!(expansion_cards_from(Some(0)).is_empty());
    assert!(expansion_cards_from(None).is_empty());
}

#[test]
fn fp_led_levels() {
    assert_eq!(parse_fp_led_level("high"), Some(FpLedLevel::High));
    assert_eq!(parse_fp_led_level("Medium"), Some(FpLedLevel::Medium));
    assert_eq!(parse_fp_led_level("LOW"), Some(FpLedLevel::Low));
    assert_eq!(parse_fp_led_level("UltraLow"), Some(FpLedLevel::UltraLow));
    assert_eq!(parse_fp_led_level("auto"), Some(FpLedLevel::Auto));
    assert_eq!(parse_fp_led_level("custom"), None);
    assert_eq!(parse_fp_led_level("hig"), None);
    assert_eq!(parse_fp_led_level(""), None);
}

fn state(pd: u8, role: u8, data: u8, mv: u16, ma: u16, alt: u8) -> PdPortState {
    PdPortState { pd_state: pd, power_role: role, data_role: data, voltage_mv: mv, current_ma: ma, alt_mode_status: alt }
}

#[test]
fn pd_port_decoding() {
    let p = decode_pd_port(2, state(1, 0, 1, 20000, 3250, 0));
    assert_eq!(p.port, 2);
    assert!(p.pd_contract);
    assert_eq!(p.power_role, Some(PowerRole::Sink));
    assert_eq!(p.data_role, Some(DataRole::Dfp));
    assert_eq!(p.negotiated_mw, Some(65000));
    assert!(!p.dp_alt_mode);
    let q = decode_pd_port(0, state(0, 7, 9, 5000, 0, 0x06));
    assert_eq!(q.power_role, Some(PowerRole::Unknown));
    assert_eq!(q.data_role, Some(DataRole::Disconnected));
    assert_eq!(q.negotiated_mw, None);
    assert!(q.dp_alt_mode);
    assert_eq!(PowerRole::Source.as_str(), "Source");
    assert_eq!(DataRole::Ufp.as_str(), "Ufp");
}

#[test]
fn pd_ports_skip_failed_queries() {
    let ports = pd_ports_from([None, Some(state(0, 1, 1, 0, 0, 0)), None, Some(state(1, 0, 0, 5000, 3000, 0))]);
    assert_eq!(ports.len(), 2);
    assert_eq!(ports[0].port, 1);
    assert_eq!(ports[1].port, 3);
    assert_eq!(ports[1].negotiated_mw, Some(15000));
}

fn port(id: u32, pd: bool, role: PowerRole, dp: bool) -> UsbCPort {
    UsbCPort {
        port: id,
        pd_contract: pd,
        power_role: Some(role),
        voltage_mv: 0,
        current_ma: 0,
        negotiated_mw: None,
        data_role: None,
        dp_alt_mode: dp,
    }
}

#[test]
fn classify_simple_cases() {
    assert_eq!(classify_pd_port(&port(0, true, PowerRole::Sink, false), &[], 2, false), "USB-C Expansion Card");
    assert_eq!(classify_pd_port(&port(0, false, PowerRole::Source, true), &[], 2, false), "DP/HDMI Expansion Card");
    assert_eq!(classify_pd_port(&port(0, true, PowerRole::Source, false), &[], 2, false), "USB-C Expansion Card");
    assert_eq!(classify_pd_port(&port(0, false, PowerRole::Sink, false), &[], 2, false), "USB-C Expansion Card");
    assert_eq!(classify_pd_port(&port(0, false, PowerRole::Unknown, false), &[], 2, false), "USB-C Port");
}

#[test]
fn classify_stable_source_is_usb_a() {
    let p = port(1, false, PowerRole::Source, false);
    let hist = vec![vec![p], vec![p]];
    assert_eq!(classify_pd_port(&p, &hist, 2, false), "USB-A Expansion Card");
    assert_eq!(classify_pd_port(&p, &hist[..1], 2, false), "USB Device (newly connected)");
}

#[test]
fn classify_source_seen_as_sink_is_usb_c() {
    let p = port(1, false, PowerRole::Source, false);
    let sink = port(1, true, PowerRole::Sink, false);
    let hist = vec![vec![p], vec![sink], vec![p]];
    assert_eq!(classify_pd_port(&p, &hist, 2, false), "USB-C Expansion Card");
}

#[test]
fn classify_dp_alt_mode_wins() {
    assert_eq!(classify_pd_port(&port(0, true, PowerRole::Sink, true), &[], 2, false), "DP/HDMI Expansion Card");
    assert_eq!(classify_pd_port(&port(0, true, PowerRole::Source, true), &[], 2, false), "DP/HDMI Expansion Card");
}

#[test]
fn classify_reads_at_most_three_samples() {
    let p = port(1, false, PowerRole::Source, false);
    let other = port(2, false, PowerRole::Source, false);
    let sink = port(1, false, PowerRole::Sink, false);
    let hist = vec![vec![other], vec![other], vec![p], vec![sink], vec![p]];
    // Only the first three samples count: one matching sample, no sink seen.
    assert_eq!(classify_pd_port(&p, &hist, 1, false), "USB-A Expansion Card");
    assert_eq!(classify_pd_port(&p, &hist, 2, false), "USB Device (newly connected)");
}

#[test]
fn classify_ignores_samples_past_the_third() {
    let p = port(1, false, PowerRole::Source, false);
    let sink = port(1, false, PowerRole::Sink, false);
    let h1 = vec![vec![p], vec![p], vec![p], vec![sink]];
    let h2 = vec![vec![p], vec![p], vec![p]];
    for k in 0..5 {
        assert_eq!(classify_pd_port(&p, &h1, k, false), classify_pd_port(&p, &h2, k, false));
    }
    assert_eq!(classify_pd_port(&p, &h1, 3, false), "USB-A Expansion Card");
}

#[test]
fn thermal_temps_are_listed_by_name() {
    let data = vec![73 + 40, 0xFF, 73 + 55, 0xFC, 10];
    let d = thermal_from(Some(PlatformId::IntelGen12), Some(data), None);
    assert_eq!(
        *d.temps,
        vec![
            ("F75303_DDR".to_string(), 55),
            ("F75303_Local".to_string(), 40),
            ("PECI".to_string(), -63),
        ]
    );
}
