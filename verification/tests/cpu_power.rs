use framework_crate::cpu_power::{
    decode_power_limit, encode_power_limit, pack_power_limits, pawnio_modules_version,
    rapl_unit_bits, time_window_quarters, PowerLimitFields,
};

#[test]
fn modules_version() {
    assert_eq!(pawnio_modules_version(), "0.2.10");
}

#[test]
fn decode_known_register_half() {
    // 28 W at 1/8 W units = 224, enabled, clamped, Y = 10, Z = 1.
    let raw: u64 = 224 | (1 << 15) | (1 << 16) | (10 << 17) | (1 << 22);
    assert_eq!(
        decode_power_limit(raw),
        PowerLimitFields { power_raw: 224, enabled: true, clamped: true, time_y: 10, time_z: 1 }
    );
}

#[test]
fn decode_ignores_upper_bits() {
    let raw: u64 = 0xFFFF_FFFF_FF00_0000 | 5;
    assert_eq!(
        decode_power_limit(raw),
        PowerLimitFields { power_raw: 5, enabled: false, clamped: false, time_y: 0, time_z: 0 }
    );
}

#[test]
fn encode_matches_layout() {
    assert_eq!(encode_power_limit(224, true, false, 10, 1), 224 | (1 << 15) | (10 << 17) | (1 << 22));
    // Fields wider than their slots are cut to width.
    assert_eq!(encode_power_limit(0x8001, false, true, 33, 5), 1 | (1 << 16) | (1 << 17) | (1 << 22));
}

#[test]
fn encode_decode_round_trip() {
    let v = encode_power_limit(512, true, true, 21, 3);
    assert_eq!(
        decode_power_limit(v as u64),
        PowerLimitFields { power_raw: 512, enabled: true, clamped: true, time_y: 21, time_z: 3 }
    );
}

#[test]
fn pack_places_pl2_high() {
    let pl1 = encode_power_limit(224, true, false, 10, 1);
    let pl2 = encode_power_limit(512, true, false, 0, 0);
    let v = pack_power_limits(pl1, pl2);
    assert_eq!(v, ((pl2 as u64) << 32) | pl1 as u64);
    assert_eq!(decode_power_limit(v).power_raw, 224);
    assert_eq!(decode_power_limit(v >> 32).power_raw, 512);
}

#[test]
fn rapl_units() {
    // Typical value: power bits 3 (1/8 W), time bits 10 (1/1024 s).
    assert_eq!(rapl_unit_bits(0x000A_0E03), (3, 10));
}

#[test]
fn time_window_in_quarters() {
    assert_eq!(time_window_quarters(0, 0), 4);
    assert_eq!(time_window_quarters(10, 1), 1024 * 5);
    assert_eq!(time_window_quarters(31, 3), (1u64 << 31) * 7);
}
