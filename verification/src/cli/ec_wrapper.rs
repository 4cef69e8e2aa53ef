//! The readings the application takes from the embedded controller (EC) and
//! the firmware, and the decoding of the raw EC data into them.
//!
//! The EC is reached through port I/O; the calls that do so live with the
//! application, which hands the raw bytes and records read here to the
//! decoders below.
use std::sync::Arc;
use vstd::prelude::*;
use crate::types::{ascii_lower_code, distinct_sensors};
use crate::cli::names::{lemma_sorted_names_distinct, readings_by_name, sorted_by_name};
use crate::cli::text::{board_id_label, byte_hex_lower, byte_hex_upper, decimal, hex_pair, lemma_decimal_injective, numbered};

verus! {

// ---------------------------------------------------------------------------
// Platforms
// ---------------------------------------------------------------------------

/// The Framework platform models that SMBIOS identifies.
#[derive(Clone, Copy, Debug, PartialEq, Eq, Structural)]
pub enum PlatformId {
    Framework12IntelGen13,
    Framework12IntelCore3,
    IntelGen11,
    IntelGen12,
    IntelGen13,
    IntelCoreUltra1,
    IntelCoreUltra3,
    Framework13Amd7080,
    Framework13AmdAi300,
    Framework16Amd7080,
    Framework16AmdAi300,
    FrameworkDesktopAmdAiMax300,
    GenericFramework,
    UnknownSystem,
}

/// The product families the interface distinguishes.
#[derive(Clone, Copy, Debug, PartialEq, Eq, Structural)]
pub enum PlatformFamily {
    Laptop12,
    Laptop13,
    Laptop16,
    Desktop,
    Unknown,
}

pub open spec fn is_laptop(f: PlatformFamily) -> bool {
    f == PlatformFamily::Laptop12 || f == PlatformFamily::Laptop13 || f == PlatformFamily::Laptop16
}

impl PlatformFamily {
    pub fn has_battery(self) -> (b: bool)
        ensures
            b == is_laptop(self),
    {
        matches!(self, PlatformFamily::Laptop12 | PlatformFamily::Laptop13 | PlatformFamily::Laptop16)
    }

    pub fn has_fingerprint_led(self) -> (b: bool)
        ensures
            b == is_laptop(self),
    {
        matches!(self, PlatformFamily::Laptop12 | PlatformFamily::Laptop13 | PlatformFamily::Laptop16)
    }

    pub fn has_keyboard_backlight(self) -> (b: bool)
        ensures
            b == is_laptop(self),
    {
        matches!(self, PlatformFamily::Laptop12 | PlatformFamily::Laptop13 | PlatformFamily::Laptop16)
    }
}

/// The family of a detected platform (`None` when SMBIOS gave none).
pub open spec fn family_of(p: Option<PlatformId>) -> PlatformFamily {
    match p {
        Some(PlatformId::Framework12IntelGen13) => PlatformFamily::Laptop12,
        Some(PlatformId::IntelCoreUltra1) | Some(PlatformId::IntelCoreUltra3)
        | Some(PlatformId::IntelGen11) | Some(PlatformId::IntelGen12) | Some(PlatformId::IntelGen13)
        | Some(PlatformId::Framework13Amd7080) | Some(PlatformId::Framework13AmdAi300) => PlatformFamily::Laptop13,
        Some(PlatformId::Framework16Amd7080) | Some(PlatformId::Framework16AmdAi300) => PlatformFamily::Laptop16,
        Some(PlatformId::FrameworkDesktopAmdAiMax300) => PlatformFamily::Desktop,
        _ => PlatformFamily::Unknown,
    }
}

pub fn platform_family(p: Option<PlatformId>) -> (f: PlatformFamily)
    ensures
        f == family_of(p),
{
    match p {
        Some(PlatformId::Framework12IntelGen13) => PlatformFamily::Laptop12,
        Some(PlatformId::IntelCoreUltra1) | Some(PlatformId::IntelCoreUltra3)
        | Some(PlatformId::IntelGen11) | Some(PlatformId::IntelGen12) | Some(PlatformId::IntelGen13)
        | Some(PlatformId::Framework13Amd7080) | Some(PlatformId::Framework13AmdAi300) => PlatformFamily::Laptop13,
        Some(PlatformId::Framework16Amd7080) | Some(PlatformId::Framework16AmdAi300) => PlatformFamily::Laptop16,
        Some(PlatformId::FrameworkDesktopAmdAiMax300) => PlatformFamily::Desktop,
        _ => PlatformFamily::Unknown,
    }
}

// ---------------------------------------------------------------------------
// Temperature sensor names
// ---------------------------------------------------------------------------

/// The name of temperature sensor `index` in the platform's sensor table,
/// or `None` where the table has no entry.
pub open spec fn sensor_table_name(platform: Option<PlatformId>, index: int) -> Option<Seq<char>> {
    match platform {
        Some(PlatformId::IntelGen11) | Some(PlatformId::IntelGen12) | Some(PlatformId::IntelGen13) =>
            if index == 0 { Some("F75303_Local"@) }
            else if index == 1 { Some("F75303_CPU"@) }
            else if index == 2 { Some("F75303_DDR"@) }
            else if index == 3 { Some("Battery"@) }
            else if index == 4 { Some("PECI"@) }
            else if index == 5 && platform != Some(PlatformId::IntelGen11) { Some("F57397_VCCGT"@) }
            else { None },
        Some(PlatformId::IntelCoreUltra1) | Some(PlatformId::IntelCoreUltra3) =>
            if index == 0 { Some("F75303_Local"@) }
            else if index == 1 { Some("F75303_CPU"@) }
            else if index == 2 { Some("Battery"@) }
            else if index == 3 { Some("F75303_DDR"@) }
            else if index == 4 { Some("PECI"@) }
            else { None },
        Some(PlatformId::Framework12IntelGen13) =>
            if index == 0 { Some("F75303_CPU"@) }
            else if index == 1 { Some("F75303_Skin"@) }
            else if index == 2 { Some("F75303_Local"@) }
            else if index == 3 { Some("Battery"@) }
            else if index == 4 { Some("PECI"@) }
            else if index == 5 { Some("Charger IC"@) }
            else { None },
        Some(PlatformId::Framework13Amd7080) | Some(PlatformId::Framework13AmdAi300)
        | Some(PlatformId::Framework16Amd7080) | Some(PlatformId::Framework16AmdAi300) => {
            let is_16 = platform == Some(PlatformId::Framework16Amd7080)
                || platform == Some(PlatformId::Framework16AmdAi300);
            if index == 0 { Some("F75303_Local"@) }
            else if index == 1 { Some("F75303_CPU"@) }
            else if index == 2 { Some("F75303_DDR"@) }
            else if index == 3 { Some("APU"@) }
            else if index == 4 && is_16 { Some("dGPU VR"@) }
            else if index == 5 && is_16 { Some("dGPU VRAM"@) }
            else if index == 6 && is_16 { Some("dGPU AMB"@) }
            else if index == 7 && is_16 { Some("dGPU temp"@) }
            else { None }
        },
        Some(PlatformId::FrameworkDesktopAmdAiMax300) =>
            if index == 0 { Some("F75303_APU"@) }
            else if index == 1 { Some("F75303_DDR"@) }
            else if index == 2 { Some("F75303_AMB"@) }
            else if index == 3 { Some("APU"@) }
            else if index == 4 { Some("Virtual"@) }
            else { None },
        _ => None,
    }
}

/// The display name of temperature sensor `index`: the table name, or
/// "Sensor <index>".
pub open spec fn sensor_label(platform: Option<PlatformId>, index: nat) -> Seq<char> {
    match sensor_table_name(platform, index as int) {
        Some(name) => name,
        None => "Sensor"@ + seq![' '] + decimal(index),
    }
}

/// Different sensors of a platform have different names.
#[verifier::spinoff_prover]
pub proof fn lemma_sensor_labels_distinct(platform: Option<PlatformId>, i: nat, j: nat)
    requires
        i != j,
    ensures
        sensor_label(platform, i) != sensor_label(platform, j),
{
    reveal_strlit("F75303_Local");
    reveal_strlit("F75303_CPU");
    reveal_strlit("F75303_DDR");
    reveal_strlit("Battery");
    reveal_strlit("PECI");
    reveal_strlit("F57397_VCCGT");
    reveal_strlit("F75303_Skin");
    reveal_strlit("Charger IC");
    reveal_strlit("APU");
    reveal_strlit("dGPU VR");
    reveal_strlit("dGPU VRAM");
    reveal_strlit("dGPU AMB");
    reveal_strlit("dGPU temp");
    reveal_strlit("F75303_APU");
    reveal_strlit("F75303_AMB");
    reveal_strlit("Virtual");
    reveal_strlit("Sensor");
    let a = sensor_label(platform, i);
    let b = sensor_label(platform, j);
    match (sensor_table_name(platform, i as int), sensor_table_name(platform, j as int)) {
        (None, None) => {
            lemma_decimal_injective(i, j);
            if a == b {
                assert(a.skip(7) =~= decimal(i));
                assert(b.skip(7) =~= decimal(j));
            }
        },
        (Some(x), None) => {
            assert(a[0] != b[0]);
        },
        (None, Some(y)) => {
            assert(a[0] != b[0]);
        },
        (Some(x), Some(y)) => {
            if a == b {
                assert(a[0] == b[0]);
                assert(a.len() == b.len());
                assert(a[7] == b[7]);
                assert(a[5] == b[5]);
                assert(a[8] == b[8]);
            }
        },
    }
}

/// Law (the EC's sensor tables): the name of each temperature sensor, per
/// platform and index; an index past a platform's table (or on a platform
/// without one) is called "Sensor <index>".
#[verifier::spinoff_prover]
pub proof fn lemma_sensor_tables(p: Option<PlatformId>, i: nat)
    ensures
        (p == Some(PlatformId::IntelGen11) || p == Some(PlatformId::IntelGen12) || p == Some(PlatformId::IntelGen13)) ==> sensor_label(p, 0) == "F75303_Local"@,
        (p == Some(PlatformId::IntelGen11) || p == Some(PlatformId::IntelGen12) || p == Some(PlatformId::IntelGen13)) ==> sensor_label(p, 1) == "F75303_CPU"@,
        (p == Some(PlatformId::IntelGen11) || p == Some(PlatformId::IntelGen12) || p == Some(PlatformId::IntelGen13)) ==> sensor_label(p, 2) == "F75303_DDR"@,
        (p == Some(PlatformId::IntelGen11) || p == Some(PlatformId::IntelGen12) || p == Some(PlatformId::IntelGen13)) ==> sensor_label(p, 3) == "Battery"@,
        (p == Some(PlatformId::IntelGen11) || p == Some(PlatformId::IntelGen12) || p == Some(PlatformId::IntelGen13)) ==> sensor_label(p, 4) == "PECI"@,
        (p == Some(PlatformId::IntelCoreUltra1) || p == Some(PlatformId::IntelCoreUltra3)) ==> sensor_label(p, 0) == "F75303_Local"@,
        (p == Some(PlatformId::IntelCoreUltra1) || p == Some(PlatformId::IntelCoreUltra3)) ==> sensor_label(p, 1) == "F75303_CPU"@,
        (p == Some(PlatformId::IntelCoreUltra1) || p == Some(PlatformId::IntelCoreUltra3)) ==> sensor_label(p, 2) == "Battery"@,
        (p == Some(PlatformId::IntelCoreUltra1) || p == Some(PlatformId::IntelCoreUltra3)) ==> sensor_label(p, 3) == "F75303_DDR"@,
        (p == Some(PlatformId::IntelCoreUltra1) || p == Some(PlatformId::IntelCoreUltra3)) ==> sensor_label(p, 4) == "PECI"@,
        (p == Some(PlatformId::IntelCoreUltra1) || p == Some(PlatformId::IntelCoreUltra3)) ==> sensor_table_name(p, 5) is None,
        (p == Some(PlatformId::Framework12IntelGen13)) ==> sensor_label(p, 0) == "F75303_CPU"@,
        (p == Some(PlatformId::Framework12IntelGen13)) ==> sensor_label(p, 1) == "F75303_Skin"@,
        (p == Some(PlatformId::Framework12IntelGen13)) ==> sensor_label(p, 2) == "F75303_Local"@,
        (p == Some(PlatformId::Framework12IntelGen13)) ==> sensor_label(p, 3) == "Battery"@,
        (p == Some(PlatformId::Framework12IntelGen13)) ==> sensor_label(p, 4) == "PECI"@,
        (p == Some(PlatformId::Framework12IntelGen13)) ==> sensor_label(p, 5) == "Charger IC"@,
        (p == Some(PlatformId::Framework12IntelGen13)) ==> sensor_table_name(p, 6) is None,
        (p == Some(PlatformId::Framework13Amd7080) || p == Some(PlatformId::Framework13AmdAi300)) ==> sensor_label(p, 0) == "F75303_Local"@,
        (p == Some(PlatformId::Framework13Amd7080) || p == Some(PlatformId::Framework13AmdAi300)) ==> sensor_label(p, 1) == "F75303_CPU"@,
        (p == Some(PlatformId::Framework13Amd7080) || p == Some(PlatformId::Framework13AmdAi300)) ==> sensor_label(p, 2) == "F75303_DDR"@,
        (p == Some(PlatformId::Framework13Amd7080) || p == Some(PlatformId::Framework13AmdAi300)) ==> sensor_label(p, 3) == "APU"@,
        (p == Some(PlatformId::Framework13Amd7080) || p == Some(PlatformId::Framework13AmdAi300)) ==> sensor_table_name(p, 4) is None,
        (p == Some(PlatformId::Framework16Amd7080) || p == Some(PlatformId::Framework16AmdAi300)) ==> sensor_label(p, 0) == "F75303_Local"@,
        (p == Some(PlatformId::Framework16Amd7080) || p == Some(PlatformId::Framework16AmdAi300)) ==> sensor_label(p, 1) == "F75303_CPU"@,
        (p == Some(PlatformId::Framework16Amd7080) || p == Some(PlatformId::Framework16AmdAi300)) ==> sensor_label(p, 2) == "F75303_DDR"@,
        (p == Some(PlatformId::Framework16Amd7080) || p == Some(PlatformId::Framework16AmdAi300)) ==> sensor_label(p, 3) == "APU"@,
        (p == Some(PlatformId::Framework16Amd7080) || p == Some(PlatformId::Framework16AmdAi300)) ==> sensor_label(p, 4) == "dGPU VR"@,
        (p == Some(PlatformId::Framework16Amd7080) || p == Some(PlatformId::Framework16AmdAi300)) ==> sensor_label(p, 5) == "dGPU VRAM"@,
        (p == Some(PlatformId::Framework16Amd7080) || p == Some(PlatformId::Framework16AmdAi300)) ==> sensor_label(p, 6) == "dGPU AMB"@,
        (p == Some(PlatformId::Framework16Amd7080) || p == Some(PlatformId::Framework16AmdAi300)) ==> sensor_label(p, 7) == "dGPU temp"@,
        (p == Some(PlatformId::Framework16Amd7080) || p == Some(PlatformId::Framework16AmdAi300)) ==> sensor_table_name(p, 8) is None,
        (p == Some(PlatformId::FrameworkDesktopAmdAiMax300)) ==> sensor_label(p, 0) == "F75303_APU"@,
        (p == Some(PlatformId::FrameworkDesktopAmdAiMax300)) ==> sensor_label(p, 1) == "F75303_DDR"@,
        (p == Some(PlatformId::FrameworkDesktopAmdAiMax300)) ==> sensor_label(p, 2) == "F75303_AMB"@,
        (p == Some(PlatformId::FrameworkDesktopAmdAiMax300)) ==> sensor_label(p, 3) == "APU"@,
        (p == Some(PlatformId::FrameworkDesktopAmdAiMax300)) ==> sensor_label(p, 4) == "Virtual"@,
        (p == Some(PlatformId::FrameworkDesktopAmdAiMax300)) ==> sensor_table_name(p, 5) is None,
        (p == Some(PlatformId::IntelGen12) || p == Some(PlatformId::IntelGen13)) ==> sensor_label(p, 5) == "F57397_VCCGT"@,
        p == Some(PlatformId::IntelGen11) ==> sensor_table_name(p, 5) is None,
        (p == Some(PlatformId::IntelGen12) || p == Some(PlatformId::IntelGen13)) ==> sensor_table_name(p, 6) is None,
        (p is None || p == Some(PlatformId::Framework12IntelCore3) || p == Some(PlatformId::GenericFramework) || p == Some(PlatformId::UnknownSystem)) ==> sensor_table_name(p, i as int) is None,
        sensor_table_name(p, i as int) is None ==> sensor_label(p, i) == "Sensor"@ + seq![' '] + decimal(i),
{
}

fn table_name(platform: Option<PlatformId>, index: usize) -> (r: Option<&'static str>)
    ensures
        match sensor_table_name(platform, index as int) {
            Some(name) => r matches Some(s) && s@ == name,
            None => r is None,
        },
{
    match platform {
        Some(PlatformId::IntelGen11) | Some(PlatformId::IntelGen12) | Some(PlatformId::IntelGen13) => {
            let newer = !matches!(platform, Some(PlatformId::IntelGen11));
            if index == 0 { Some("F75303_Local") }
            else if index == 1 { Some("F75303_CPU") }
            else if index == 2 { Some("F75303_DDR") }
            else if index == 3 { Some("Battery") }
            else if index == 4 { Some("PECI") }
            else if index == 5 && newer { Some("F57397_VCCGT") }
            else { None }
        },
        Some(PlatformId::IntelCoreUltra1) | Some(PlatformId::IntelCoreUltra3) => {
            if index == 0 { Some("F75303_Local") }
            else if index == 1 { Some("F75303_CPU") }
            else if index == 2 { Some("Battery") }
            else if index == 3 { Some("F75303_DDR") }
            else if index == 4 { Some("PECI") }
            else { None }
        },
        Some(PlatformId::Framework12IntelGen13) => {
            if index == 0 { Some("F75303_CPU") }
            else if index == 1 { Some("F75303_Skin") }
            else if index == 2 { Some("F75303_Local") }
            else if index == 3 { Some("Battery") }
            else if index == 4 { Some("PECI") }
            else if index == 5 { Some("Charger IC") }
            else { None }
        },
        Some(PlatformId::Framework13Amd7080) | Some(PlatformId::Framework13AmdAi300)
        | Some(PlatformId::Framework16Amd7080) | Some(PlatformId::Framework16AmdAi300) => {
            let is_16 = matches!(platform, Some(PlatformId::Framework16Amd7080) | Some(PlatformId::Framework16AmdAi300));
            if index == 0 { Some("F75303_Local") }
            else if index == 1 { Some("F75303_CPU") }
            else if index == 2 { Some("F75303_DDR") }
            else if index == 3 { Some("APU") }
            else if index == 4 && is_16 { Some("dGPU VR") }
            else if index == 5 && is_16 { Some("dGPU VRAM") }
            else if index == 6 && is_16 { Some("dGPU AMB") }
            else if index == 7 && is_16 { Some("dGPU temp") }
            else { None }
        },
        Some(PlatformId::FrameworkDesktopAmdAiMax300) => {
            if index == 0 { Some("F75303_APU") }
            else if index == 1 { Some("F75303_DDR") }
            else if index == 2 { Some("F75303_AMB") }
            else if index == 3 { Some("APU") }
            else if index == 4 { Some("Virtual") }
            else { None }
        },
        _ => None,
    }
}

/// The display name of temperature sensor `index` on `platform`.
pub fn sensor_name_for_index(platform: Option<PlatformId>, index: usize) -> (name: String)
    ensures
        name@ == sensor_label(platform, index as nat),
{
    match table_name(platform, index) {
        Some(s) => s.to_string(),
        None => numbered("Sensor", index),
    }
}

// ---------------------------------------------------------------------------
// Temperatures and fans
// ---------------------------------------------------------------------------

/// EC memory-map window of the temperature bytes.
pub const EC_TEMP_OFFSET: u16 = 0x00;
pub const EC_TEMP_LEN: u16 = 0x0F;

/// EC memory-map window of the fan speeds (little-endian `u16` each).
pub const EC_FAN_OFFSET: u16 = 0x10;
pub const EC_FAN_LEN: u16 = 0x08;

/// A temperature byte at or above this marks an absent or failed sensor.
pub const TEMP_INVALID_MIN: u8 = 0xFC;

/// Offset between the EC's temperature encoding and degrees Celsius.
pub const TEMP_OFFSET_C: i32 = 73;

/// Fan speed word of an absent fan.
pub const FAN_NOT_PRESENT: u32 = 0xFFFF;

/// Fan speed word of a stalled fan.
pub const FAN_STALLED: u32 = 0xFFFE;

#[derive(Clone, Debug)]
pub struct FanReading {
    pub name: String,
    pub rpm: u32,
}

/// One poll of the thermal sensors: the temperatures as a map from sensor
/// name to °C (one reading per name, listed in name order), and the fans.
#[derive(Clone, Debug)]
pub struct ThermalData {
    pub temps: Arc<Vec<(String, i32)>>,
    pub fans: Vec<FanReading>,
}

/// The temperature readings decoded from the first `n` temperature bytes.
pub open spec fn decoded_temps(platform: Option<PlatformId>, data: Seq<u8>, n: nat) -> Seq<(Seq<char>, i32)>
    decreases n,
{
    if n == 0 {
        Seq::empty()
    } else {
        let prev = decoded_temps(platform, data, (n - 1) as nat);
        let b = data[n - 1];
        if b >= TEMP_INVALID_MIN {
            prev
        } else {
            prev.push((sensor_label(platform, (n - 1) as nat), (b - TEMP_OFFSET_C) as i32))
        }
    }
}

pub open spec fn temps_view(t: Seq<(String, i32)>) -> Seq<(Seq<char>, i32)> {
    t.map_values(|p: (String, i32)| (p.0@, p.1))
}

/// The speed in a fan word: 0 for a stalled or stopped fan, `None` for an
/// absent one.
pub open spec fn fan_rpm(word: u32) -> Option<u32> {
    if word == FAN_NOT_PRESENT {
        None
    } else if word == FAN_STALLED {
        Some(0)
    } else {
        Some(word)
    }
}

/// The fan readings decoded from the first `n` complete fan words.
pub open spec fn decoded_fans(data: Seq<u8>, n: nat) -> Seq<(Seq<char>, u32)>
    decreases n,
{
    if n == 0 {
        Seq::empty()
    } else {
        let prev = decoded_fans(data, (n - 1) as nat);
        let i = n - 1;
        let word = (data[2 * i] + 256 * data[2 * i + 1]) as u32;
        match fan_rpm(word) {
            None => prev,
            Some(rpm) => prev.push(("Fan"@ + seq![' '] + decimal(n), rpm)),
        }
    }
}

pub open spec fn fans_view(f: Seq<FanReading>) -> Seq<(Seq<char>, u32)> {
    f.map_values(|r: FanReading| (r.name@, r.rpm))
}

/// Each reading decoded from the first `n` bytes names a sensor below `n`,
/// and no two readings name the same sensor.
#[verifier::spinoff_prover]
proof fn lemma_decoded_temps_distinct(platform: Option<PlatformId>, data: Seq<u8>, n: nat)
    ensures
        forall|i: int| 0 <= i < decoded_temps(platform, data, n).len() ==> exists|k: nat|
            k < n && (#[trigger] decoded_temps(platform, data, n)[i]).0 == sensor_label(platform, k),
        forall|i: int, j: int| 0 <= i < j < decoded_temps(platform, data, n).len() ==>
            (#[trigger] decoded_temps(platform, data, n)[i]).0 != (#[trigger] decoded_temps(platform, data, n)[j]).0,
    decreases n,
{
    if n > 0 {
        lemma_decoded_temps_distinct(platform, data, (n - 1) as nat);
        let prev = decoded_temps(platform, data, (n - 1) as nat);
        let cur = decoded_temps(platform, data, n);
        if data[n - 1] < TEMP_INVALID_MIN {
            let last = sensor_label(platform, (n - 1) as nat);
            assert(cur == prev.push((last, (data[n - 1] - TEMP_OFFSET_C) as i32)));
            assert forall|i: int| 0 <= i < cur.len() implies exists|k: nat|
                k < n && (#[trigger] cur[i]).0 == sensor_label(platform, k) by {
                if i < prev.len() {
                    assert(cur[i] == prev[i]);
                    let k = choose|k: nat| k < n - 1 && (#[trigger] prev[i]).0 == sensor_label(platform, k);
                    assert(k < n && cur[i].0 == sensor_label(platform, k));
                } else {
                    assert(cur[i].0 == sensor_label(platform, (n - 1) as nat));
                }
            }
            assert forall|i: int, j: int| 0 <= i < j < cur.len() implies (#[trigger] cur[i]).0 != (#[trigger] cur[j]).0 by {
                if j < prev.len() {
                    assert(cur[i] == prev[i] && cur[j] == prev[j]);
                } else {
                    assert(cur[i] == prev[i]);
                    let k = choose|k: nat| k < n - 1 && (#[trigger] prev[i]).0 == sensor_label(platform, k);
                    lemma_sensor_labels_distinct(platform, k, (n - 1) as nat);
                }
            }
        }
    }
}

/// The reading that temperature byte `i` stands for: the sensor's name and
/// the byte less `TEMP_OFFSET_C` (°C).
pub open spec fn temp_reading_at(platform: Option<PlatformId>, data: Seq<u8>, i: int) -> (Seq<char>, i32) {
    (sensor_label(platform, i as nat), (data[i] - TEMP_OFFSET_C) as i32)
}

/// Law: the readings decoded from the first `n` temperature bytes are
/// exactly one reading per valid byte (below `TEMP_INVALID_MIN`), named
/// after its sensor and offset by `TEMP_OFFSET_C`; with distinct sensor
/// names (see `thermal_from`) they form the map from sensor name to °C.
#[verifier::spinoff_prover]
pub proof fn lemma_decoded_temps_map(platform: Option<PlatformId>, data: Seq<u8>, n: nat)
    requires
        n <= data.len(),
    ensures
        forall|i: int| 0 <= i < n && data[i] < TEMP_INVALID_MIN ==> decoded_temps(platform, data, n).contains(
            #[trigger] temp_reading_at(platform, data, i),
        ),
        forall|k: int|
            #![trigger decoded_temps(platform, data, n)[k]]
            0 <= k < decoded_temps(platform, data, n).len() ==> exists|i: int|
                #![trigger temp_reading_at(platform, data, i)]
                0 <= i < n && data[i] < TEMP_INVALID_MIN && decoded_temps(platform, data, n)[k]
                    == temp_reading_at(platform, data, i),
    decreases n,
{
    if n > 0 {
        lemma_decoded_temps_map(platform, data, (n - 1) as nat);
        let prev = decoded_temps(platform, data, (n - 1) as nat);
        let cur = decoded_temps(platform, data, n);
        let m = n - 1;
        if data[m] < TEMP_INVALID_MIN {
            assert(cur == prev.push(temp_reading_at(platform, data, m)));
            assert forall|i: int| 0 <= i < n && data[i] < TEMP_INVALID_MIN implies cur.contains(
                #[trigger] temp_reading_at(platform, data, i),
            ) by {
                if i < m {
                    let k = choose|k: int| 0 <= k < prev.len() && prev[k] == temp_reading_at(platform, data, i);
                    assert(cur[k] == prev[k]);
                } else {
                    assert(cur[prev.len() as int] == temp_reading_at(platform, data, i));
                }
            }
            assert forall|k: int| #![trigger cur[k]] 0 <= k < cur.len() implies exists|i: int|
                #![trigger temp_reading_at(platform, data, i)]
                0 <= i < n && data[i] < TEMP_INVALID_MIN && cur[k] == temp_reading_at(platform, data, i) by {
                if k < prev.len() {
                    assert(cur[k] == prev[k]);
                    let i = choose|i: int| #![trigger temp_reading_at(platform, data, i)] 0 <= i < m && data[i] < TEMP_INVALID_MIN && prev[k] == temp_reading_at(platform, data, i);
                    assert(0 <= i < n && data[i] < TEMP_INVALID_MIN && cur[k] == temp_reading_at(platform, data, i));
                } else {
                    assert(cur[k] == temp_reading_at(platform, data, m));
                    assert(0 <= m < n && data[m] < TEMP_INVALID_MIN);
                }
            }
        } else {
            assert(cur == prev);
            assert forall|i: int| 0 <= i < n && data[i] < TEMP_INVALID_MIN implies cur.contains(
                #[trigger] temp_reading_at(platform, data, i),
            ) by {
                assert(i < m);
            }
            assert forall|k: int| #![trigger cur[k]] 0 <= k < cur.len() implies exists|i: int|
                #![trigger temp_reading_at(platform, data, i)]
                0 <= i < n && data[i] < TEMP_INVALID_MIN && cur[k] == temp_reading_at(platform, data, i) by {
                let i = choose|i: int| #![trigger temp_reading_at(platform, data, i)] 0 <= i < m && data[i] < TEMP_INVALID_MIN && prev[k] == temp_reading_at(platform, data, i);
                assert(0 <= i < n && data[i] < TEMP_INVALID_MIN && cur[k] == temp_reading_at(platform, data, i));
            }
        }
    } else {
        assert(decoded_temps(platform, data, n).len() == 0);
    }
}

/// The fan reading that fan word `j` stands for: "Fan <j+1>" and the speed,
/// 0 for a stalled fan (`FAN_STALLED`).
pub open spec fn fan_reading_at(data: Seq<u8>, j: int) -> (Seq<char>, u32) {
    let w = fan_word(data, j);
    ("Fan"@ + seq![' '] + decimal((j + 1) as nat), if w == FAN_STALLED { 0u32 } else { w })
}

/// Fan word `j`: little-endian over bytes `2j` and `2j + 1`.
pub open spec fn fan_word(data: Seq<u8>, j: int) -> u32 {
    (data[2 * j] + 256 * data[2 * j + 1]) as u32
}

/// Number of fan words among the first `n` that report a fan.
pub open spec fn fans_present(data: Seq<u8>, n: nat) -> nat
    decreases n,
{
    if n == 0 {
        0
    } else {
        fans_present(data, (n - 1) as nat) + if fan_word(data, n - 1) != FAN_NOT_PRESENT { 1nat } else { 0nat }
    }
}

/// Law: the fans decoded from the first `n` fan words are one reading per
/// word other than `FAN_NOT_PRESENT` and nothing else: every such word's
/// reading is there ("Fan <position from 1>", a stalled fan
/// (`FAN_STALLED`) at 0 rpm, any other word as its little-endian speed),
/// and there are exactly as many readings as such words.
#[verifier::spinoff_prover]
pub proof fn lemma_decoded_fans_map(data: Seq<u8>, n: nat)
    requires
        2 * n <= data.len(),
    ensures
        forall|j: int| 0 <= j < n && fan_word(data, j) != FAN_NOT_PRESENT ==> decoded_fans(data, n).contains(
            #[trigger] fan_reading_at(data, j),
        ),
        decoded_fans(data, n).len() == fans_present(data, n),
    decreases n,
{
    if n > 0 {
        lemma_decoded_fans_map(data, (n - 1) as nat);
        let prev = decoded_fans(data, (n - 1) as nat);
        let cur = decoded_fans(data, n);
        let m = n - 1;
        if fan_word(data, m) != FAN_NOT_PRESENT {
            assert(cur == prev.push(fan_reading_at(data, m)));
            assert forall|j: int| 0 <= j < n && fan_word(data, j) != FAN_NOT_PRESENT implies cur.contains(
                #[trigger] fan_reading_at(data, j),
            ) by {
                if j < m {
                    let k = choose|k: int| 0 <= k < prev.len() && prev[k] == fan_reading_at(data, j);
                    assert(cur[k] == prev[k]);
                } else {
                    assert(cur[prev.len() as int] == fan_reading_at(data, j));
                }
            }
        } else {
            assert(cur == prev);
            assert forall|j: int| 0 <= j < n && fan_word(data, j) != FAN_NOT_PRESENT implies cur.contains(
                #[trigger] fan_reading_at(data, j),
            ) by {
                assert(j < m);
            }
        }
    }
}

/// The temperatures in the EC's temperature bytes: every byte below
/// `TEMP_INVALID_MIN` is a reading of the sensor at its position.
pub fn decode_temps(platform: Option<PlatformId>, data: &[u8]) -> (temps: Vec<(String, i32)>)
    ensures
        temps_view(temps@) == decoded_temps(platform, data@, data@.len()),
{
    let mut temps: Vec<(String, i32)> = Vec::new();
    let mut i: usize = 0;
    while i < data.len()
        invariant
            i <= data@.len(),
            temps_view(temps@) == decoded_temps(platform, data@, i as nat),
        decreases data@.len() - i,
    {
        let b = data[i];
        if b < TEMP_INVALID_MIN {
            let name = sensor_name_for_index(platform, i);
            let t: i32 = b as i32 - TEMP_OFFSET_C;
            let ghost before = temps@;
            temps.push((name, t));
            assert(temps_view(temps@) =~= temps_view(before).push((name@, t)));
        }
        i = i + 1;
    }
    temps
}

/// The fans in the EC's fan words: an absent fan is skipped, a stalled one
/// reads 0; fan `i` (from 0) is named "Fan <i+1>". A trailing odd byte is
/// ignored.
pub fn decode_fans(data: &[u8]) -> (fans: Vec<FanReading>)
    ensures
        fans_view(fans@) == decoded_fans(data@, data@.len() / 2),
{
    let mut fans: Vec<FanReading> = Vec::new();
    let len = data.len();
    let n = len / 2;
    let mut i: usize = 0;
    while i < n
        invariant
            len == data@.len(),
            n == data@.len() / 2,
            i <= n,
            fans_view(fans@) == decoded_fans(data@, i as nat),
        decreases n - i,
    {
        assert(2 * i + 1 < data@.len());
        let word: u32 = data[2 * i] as u32 + 256 * (data[2 * i + 1] as u32);
        if word != FAN_NOT_PRESENT {
            let rpm: u32 = if word == FAN_STALLED { 0 } else { word };
            let name = numbered("Fan", i + 1);
            let ghost before = fans@;
            fans.push(FanReading { name, rpm });
            assert(fans_view(fans@) =~= fans_view(before).push((name@, rpm)));
        }
        i = i + 1;
    }
    fans
}

/// A thermal poll from the two EC memory windows (`None` where the read
/// failed, which leaves that part empty).
pub fn thermal_from(platform: Option<PlatformId>, temp_bytes: Option<Vec<u8>>, fan_bytes: Option<Vec<u8>>) -> (d: ThermalData)
    ensures
        forall|e: (Seq<char>, i32)| #[trigger] temps_view(d.temps@).contains(e) == match temp_bytes {
            Some(b) => decoded_temps(platform, b@, b@.len()).contains(e),
            None => false,
        },
        sorted_by_name(temps_view(d.temps@)),
        fans_view(d.fans@) == match fan_bytes {
            Some(b) => decoded_fans(b@, b@.len() / 2),
            None => Seq::empty(),
        },
        distinct_sensors(d.temps@),
{
    let temps = match temp_bytes {
        Some(b) => {
            proof {
                lemma_decoded_temps_distinct(platform, b@, b@.len());
            }
            decode_temps(platform, b.as_slice())
        },
        None => {
            let v: Vec<(String, i32)> = Vec::new();
            assert(temps_view(v@) =~= Seq::empty());
            v
        },
    };
    let fans = match fan_bytes {
        Some(b) => decode_fans(b.as_slice()),
        None => {
            let v: Vec<FanReading> = Vec::new();
            assert(fans_view(v@) =~= Seq::empty());
            v
        },
    };
    proof {
        assert forall|i: int, j: int| 0 <= i < j < temps@.len() implies #[trigger] temps@[i].0@ != #[trigger] temps@[j].0@ by {
            assert(temps_view(temps@)[i].0 == temps@[i].0@);
            assert(temps_view(temps@)[j].0 == temps@[j].0@);
        }
    }
    let by_name = readings_by_name(&temps);
    proof {
        let v = temps_view(by_name@);
        lemma_sorted_names_distinct(v);
        assert forall|i: int, j: int| 0 <= i < j < by_name@.len() implies #[trigger] by_name@[i].0@ != #[trigger] by_name@[j].0@ by {
            assert(v[i].0 == by_name@[i].0@);
            assert(v[j].0 == by_name@[j].0@);
        }
    }
    ThermalData { temps: Arc::new(by_name), fans }
}

// ---------------------------------------------------------------------------
// Battery
// ---------------------------------------------------------------------------

/// Battery figures as the EC's smart-battery block reports them (mV, mA,
/// mAh, %).
#[derive(Clone, Debug)]
pub struct BatteryReading {
    pub present_voltage: u32,
    pub present_rate: u32,
    pub remaining_capacity: u32,
    pub design_capacity: u32,
    pub design_voltage: u32,
    pub last_full_charge_capacity: u32,
    pub cycle_count: u32,
    pub charge_percentage: u32,
    pub manufacturer: String,
    pub model_number: String,
    pub serial_number: String,
    pub battery_type: String,
    pub discharging: bool,
}

/// Power state as the EC reports it: AC presence and, when a battery is
/// present, its figures.
#[derive(Clone, Debug)]
pub struct PowerReading {
    pub ac_present: bool,
    pub battery: Option<BatteryReading>,
}

/// Battery state shown by the application. Energies are in µWh (mAh × mV),
/// exact; a field is `None` where the EC did not report it.
#[derive(Clone, Debug, PartialEq)]
pub struct BatteryData {
    pub ac_present: Option<bool>,
    pub last_full_charge_capacity_mah: Option<u32>,
    pub remaining_capacity_mah: Option<u32>,
    pub remaining_capacity_uwh: Option<u64>,
    pub soc_pct: Option<u32>,
    pub present_voltage_mv: Option<u32>,
    pub present_rate_ma: Option<u32>,
    pub charger_voltage_mv: Option<u32>,
    pub charger_current_ma: Option<u32>,
    pub chg_input_current_ma: Option<u32>,
    pub charger_temp_c: Option<i32>,
    pub design_capacity_mah: Option<u32>,
    pub design_capacity_uwh: Option<u64>,
    pub cycle_count: Option<u32>,
    pub discharging: Option<bool>,
    pub manufacturer: Option<String>,
    pub model_number: Option<String>,
    pub serial_number: Option<String>,
    pub battery_type: Option<String>,
}

pub open spec fn battery_data_empty(d: BatteryData) -> bool {
    &&& d.ac_present is None
    &&& d.last_full_charge_capacity_mah is None
    &&& d.remaining_capacity_mah is None
    &&& d.remaining_capacity_uwh is None
    &&& d.soc_pct is None
    &&& d.present_voltage_mv is None
    &&& d.present_rate_ma is None
    &&& d.charger_voltage_mv is None
    &&& d.charger_current_ma is None
    &&& d.chg_input_current_ma is None
    &&& d.charger_temp_c is None
    &&& d.design_capacity_mah is None
    &&& d.design_capacity_uwh is None
    &&& d.cycle_count is None
    &&& d.discharging is None
    &&& d.manufacturer is None
    &&& d.model_number is None
    &&& d.serial_number is None
    &&& d.battery_type is None
}

impl Default for BatteryData {
    fn default() -> (d: Self)
        ensures
            battery_data_empty(d),
    {
        BatteryData {
            ac_present: None,
            last_full_charge_capacity_mah: None,
            remaining_capacity_mah: None,
            remaining_capacity_uwh: None,
            soc_pct: None,
            present_voltage_mv: None,
            present_rate_ma: None,
            charger_voltage_mv: None,
            charger_current_ma: None,
            chg_input_current_ma: None,
            charger_temp_c: None,
            design_capacity_mah: None,
            design_capacity_uwh: None,
            cycle_count: None,
            discharging: None,
            manufacturer: None,
            model_number: None,
            serial_number: None,
            battery_type: None,
        }
    }
}

/// The battery state in a power reading (see [`battery_data_from`]).
pub open spec fn battery_data_of(p: PowerReading, d: BatteryData) -> bool {
    &&& d.ac_present == Some(p.ac_present)
    &&& d.charger_voltage_mv is None
    &&& d.charger_current_ma is None
    &&& d.chg_input_current_ma is None
    &&& d.charger_temp_c is None
    &&& match p.battery {
        None => {
            &&& d.last_full_charge_capacity_mah is None
            &&& d.remaining_capacity_mah is None
            &&& d.remaining_capacity_uwh is None
            &&& d.soc_pct is None
            &&& d.present_voltage_mv is None
            &&& d.present_rate_ma is None
            &&& d.design_capacity_mah is None
            &&& d.design_capacity_uwh is None
            &&& d.cycle_count is None
            &&& d.discharging is None
            &&& d.manufacturer is None
            &&& d.model_number is None
            &&& d.serial_number is None
            &&& d.battery_type is None
        },
        Some(b) => {
            &&& d.present_voltage_mv == Some(b.present_voltage)
            &&& d.present_rate_ma == Some(b.present_rate)
            &&& d.remaining_capacity_mah == Some(b.remaining_capacity)
            &&& d.design_capacity_mah == Some(b.design_capacity)
            &&& d.design_capacity_uwh == Some((b.design_capacity * b.design_voltage) as u64)
            &&& d.last_full_charge_capacity_mah == Some(b.last_full_charge_capacity)
            &&& d.cycle_count == Some(b.cycle_count)
            &&& d.soc_pct == Some(b.charge_percentage)
            &&& d.discharging == Some(b.discharging)
            &&& d.manufacturer == Some(b.manufacturer)
            &&& d.model_number == Some(b.model_number)
            &&& d.serial_number == Some(b.serial_number)
            &&& d.battery_type == Some(b.battery_type)
            &&& d.remaining_capacity_uwh == if b.design_voltage > 0 {
                Some((b.remaining_capacity * b.design_voltage) as u64)
            } else {
                None
            }
        },
    }
}

/// The battery state from a power reading; an error when the EC gave none.
pub fn battery_data_from(info: Option<PowerReading>) -> (r: Result<BatteryData, String>)
    ensures
        info is None <==> r is Err,
        r matches Err(e) ==> e@ == "power_info returned None (no battery data available)"@,
        r matches Ok(d) ==> battery_data_of(info->Some_0, d),
{
    let info = match info {
        Some(i) => i,
        None => return Err("power_info returned None (no battery data available)".to_string()),
    };
    let mut data = BatteryData::default();
    data.ac_present = Some(info.ac_present);
    if let Some(batt) = info.battery {
        let dv = batt.design_voltage as u64;
        assert((batt.design_capacity as u64) * dv <= u64::MAX) by (nonlinear_arith)
            requires batt.design_capacity <= u32::MAX, dv <= u32::MAX;
        assert((batt.remaining_capacity as u64) * dv <= u64::MAX) by (nonlinear_arith)
            requires batt.remaining_capacity <= u32::MAX, dv <= u32::MAX;
        data.present_voltage_mv = Some(batt.present_voltage);
        data.present_rate_ma = Some(batt.present_rate);
        data.remaining_capacity_mah = Some(batt.remaining_capacity);
        data.design_capacity_mah = Some(batt.design_capacity);
        data.design_capacity_uwh = Some(batt.design_capacity as u64 * dv);
        data.last_full_charge_capacity_mah = Some(batt.last_full_charge_capacity);
        data.cycle_count = Some(batt.cycle_count);
        data.soc_pct = Some(batt.charge_percentage);
        data.discharging = Some(batt.discharging);
        if batt.design_voltage > 0 {
            data.remaining_capacity_uwh = Some(batt.remaining_capacity as u64 * dv);
        }
        data.manufacturer = Some(batt.manufacturer);
        data.model_number = Some(batt.model_number);
        data.serial_number = Some(batt.serial_number);
        data.battery_type = Some(batt.battery_type);
    }
    Ok(data)
}

// ---------------------------------------------------------------------------
// Firmware versions
// ---------------------------------------------------------------------------

/// Which EC firmware image is running.
#[derive(Clone, Copy, Debug, PartialEq, Eq, Structural)]
pub enum EcImage {
    Unknown,
    RO,
    RW,
}

/// The EC firmware versions: read-only image, read-write image, and which
/// one runs.
#[derive(Clone, Debug)]
pub struct FlashVersion {
    pub ro: String,
    pub rw: String,
    pub current: EcImage,
}

/// One ESRT resource entry: its firmware type and version word.
#[derive(Clone, Copy, Debug, PartialEq, Eq, Structural)]
pub struct EsrtEntry {
    pub fw_type: u32,
    pub fw_version: u32,
}

/// ESRT resource type of the system firmware (UEFI).
pub const ESRT_SYSTEM_FIRMWARE: u32 = 1;

#[derive(Clone, Debug, PartialEq)]
pub struct VersionsData {
    pub mainboard_type: Option<String>,
    pub mainboard_revision: Option<String>,
    pub uefi_version: Option<String>,
    pub uefi_release_date: Option<String>,
    pub ec_build_version: Option<String>,
    pub ec_current_image: Option<String>,
    pub tool_version: Option<String>,
}

impl Default for VersionsData {
    fn default() -> (d: Self)
        ensures
            d.mainboard_type is None,
            d.mainboard_revision is None,
            d.uefi_version is None,
            d.uefi_release_date is None,
            d.ec_build_version is None,
            d.ec_current_image is None,
            d.tool_version is None,
    {
        VersionsData {
            mainboard_type: None,
            mainboard_revision: None,
            uefi_version: None,
            uefi_release_date: None,
            ec_build_version: None,
            ec_current_image: None,
            tool_version: None,
        }
    }
}

/// A firmware version word as "HH.LL": bits 8..16, a dot, bits 0..8, each
/// as two upper-case hexadecimal digits.
pub open spec fn fw_version_text(v: u32) -> Seq<char> {
    byte_hex_upper(((v as nat / 256) % 256) as u8) + seq!['.'] + byte_hex_upper((v as nat % 256) as u8)
}

/// The UEFI version among the first `n` entries: that of the last system
/// firmware entry.
pub open spec fn uefi_version_in(entries: Seq<EsrtEntry>, n: nat) -> Option<Seq<char>>
    decreases n,
{
    if n == 0 {
        None
    } else if entries[n - 1].fw_type == ESRT_SYSTEM_FIRMWARE {
        Some(fw_version_text(entries[n - 1].fw_version))
    } else {
        uefi_version_in(entries, (n - 1) as nat)
    }
}

pub open spec fn image_name(i: EcImage) -> Seq<char> {
    match i {
        EcImage::RO => "RO"@,
        EcImage::RW => "RW"@,
        EcImage::Unknown => "Unknown"@,
    }
}

pub open spec fn opt_view(s: Option<String>) -> Option<Seq<char>> {
    match s {
        Some(t) => Some(t@),
        None => None,
    }
}

fn uefi_version(resource_count: u32, entries: &[EsrtEntry]) -> (r: Option<String>)
    ensures
        opt_view(r) == uefi_version_in(
            entries@,
            if (resource_count as nat) < entries@.len() { resource_count as nat } else { entries@.len() },
        ),
{
    let n: usize = if (resource_count as usize) < entries.len() { resource_count as usize } else { entries.len() };
    let mut found: Option<String> = None;
    let mut i: usize = 0;
    while i < n
        invariant
            n <= entries@.len(),
            i <= n,
            opt_view(found) == uefi_version_in(entries@, i as nat),
        decreases n - i,
    {
        let e = entries[i];
        if e.fw_type == ESRT_SYSTEM_FIRMWARE {
            let hi = ((e.fw_version / 256) % 256) as u8;
            let lo = (e.fw_version % 256) as u8;
            found = Some(hex_pair(hi, lo));
        }
        i = i + 1;
    }
    found
}

/// The firmware versions shown by the application, from the SMBIOS product
/// name and platform name, the EC flash versions and the ESRT table
/// (resource count and entries), each `None` where it could not be read.
pub fn versions_from(
    product_name: Option<String>,
    platform_name: Option<String>,
    flash: Option<FlashVersion>,
    esrt: Option<(u32, Vec<EsrtEntry>)>,
) -> (d: VersionsData)
    ensures
        d.mainboard_type == product_name,
        d.mainboard_revision == platform_name,
        match flash {
            Some(f) => {
                &&& d.ec_build_version == Some(if f.current == EcImage::RO { f.ro } else { f.rw })
                &&& opt_view(d.ec_current_image) == Some(image_name(f.current))
            },
            None => d.ec_build_version is None && d.ec_current_image is None,
        },
        opt_view(d.uefi_version) == match esrt {
            Some((count, entries)) => uefi_version_in(
                entries@,
                if (count as nat) < entries@.len() { count as nat } else { entries@.len() },
            ),
            None => None,
        },
        d.uefi_release_date is None,
        d.tool_version is None,
{
    let mut data = VersionsData::default();
    data.mainboard_type = product_name;
    data.mainboard_revision = platform_name;
    if let Some(f) = flash {
        let current = match f.current {
            EcImage::RO => "RO",
            EcImage::RW => "RW",
            EcImage::Unknown => "Unknown",
        };
        data.ec_build_version = Some(if matches!(f.current, EcImage::RO) { f.ro } else { f.rw });
        data.ec_current_image = Some(current.to_string());
    }
    if let Some((count, entries)) = esrt {
        data.uefi_version = uefi_version(count, entries.as_slice());
    }
    data
}

// ---------------------------------------------------------------------------
// Expansion cards and the fingerprint LED
// ---------------------------------------------------------------------------

#[derive(Clone, Debug, PartialEq)]
pub struct ExpansionCard {
    pub name: String,
    pub active_firmware: Option<String>,
}

/// The expansion cards derived from the mainboard ID read from the EC
/// (`None` when the read failed or gave nothing): one entry naming a
/// non-zero ID.
pub fn expansion_cards_from(board_id: Option<u8>) -> (cards: Vec<ExpansionCard>)
    ensures
        match board_id {
            Some(id) if id != 0 => {
                &&& cards@.len() == 1
                &&& cards@[0].name@ == "Board ID: 0x00"@ + byte_hex_lower(id)
                &&& cards@[0].active_firmware is None
            },
            _ => cards@.len() == 0,
        },
{
    let mut cards: Vec<ExpansionCard> = Vec::new();
    if let Some(id) = board_id {
        if id != 0 {
            let name = board_id_label(id);
            proof {
                reveal_strlit("Board ID: 0x00");
            }
            cards.push(ExpansionCard { name, active_firmware: None });
        }
    }
    cards
}

/// Brightness levels of the fingerprint reader LED that can be set.
#[derive(Clone, Copy, Debug, PartialEq, Eq, Structural)]
pub enum FpLedLevel {
    High,
    Medium,
    Low,
    UltraLow,
    Auto,
}

/// `s` equals `word` (lower-case ASCII) up to ASCII case.
pub open spec fn eq_ignore_case(s: Seq<char>, word: Seq<char>) -> bool {
    s.len() == word.len() && forall|i: int| 0 <= i < s.len() ==> ascii_lower_code(#[trigger] s[i]) == word[i] as u32
}

/// The level a name stands for, compared without regard to case.
pub open spec fn fp_led_level_of(s: Seq<char>) -> Option<FpLedLevel> {
    if eq_ignore_case(s, "high"@) {
        Some(FpLedLevel::High)
    } else if eq_ignore_case(s, "medium"@) {
        Some(FpLedLevel::Medium)
    } else if eq_ignore_case(s, "low"@) {
        Some(FpLedLevel::Low)
    } else if eq_ignore_case(s, "ultralow"@) {
        Some(FpLedLevel::UltraLow)
    } else if eq_ignore_case(s, "auto"@) {
        Some(FpLedLevel::Auto)
    } else {
        None
    }
}

fn matches_word(s: &str, word: &str) -> (b: bool)
    ensures
        b == eq_ignore_case(s@, word@),
{
    let n = s.unicode_len();
    if n != word.unicode_len() {
        return false;
    }
    let mut i: usize = 0;
    while i < n
        invariant
            n == s@.len(),
            n == word@.len(),
            i <= n,
            forall|k: int| 0 <= k < i ==> ascii_lower_code(#[trigger] s@[k]) == word@[k] as u32,
        decreases n - i,
    {
        let c = s.get_char(i);
        let u = c as u32;
        let lower = if 65 <= u && u <= 90 { u + 32 } else { u };
        assert(lower == ascii_lower_code(s@[i as int]));
        if lower != word.get_char(i) as u32 {
            return false;
        }
        i = i + 1;
    }
    true
}

/// The fingerprint LED level named by `level` ("high", "medium", "low",
/// "ultralow" or "auto", in any letter case); `None` for any other name.
/// (None of these words contains a letter that a non-ASCII character
/// lower-cases to, so ASCII case folding decides as full lower-casing does.)
pub fn parse_fp_led_level(level: &str) -> (r: Option<FpLedLevel>)
    ensures
        r == fp_led_level_of(level@),
{
    if matches_word(level, "high") {
        Some(FpLedLevel::High)
    } else if matches_word(level, "medium") {
        Some(FpLedLevel::Medium)
    } else if matches_word(level, "low") {
        Some(FpLedLevel::Low)
    } else if matches_word(level, "ultralow") {
        Some(FpLedLevel::UltraLow)
    } else if matches_word(level, "auto") {
        Some(FpLedLevel::Auto)
    } else {
        None
    }
}

// ---------------------------------------------------------------------------
// USB-C power delivery ports
// ---------------------------------------------------------------------------

/// Number of USB-C ports the EC reports on.
pub const PD_PORT_COUNT: usize = 4;

/// Maximum number of history samples used to classify a port.
pub const PD_HISTORY_MAX: usize = 3;

#[derive(Clone, Copy, Debug, PartialEq, Eq, Structural)]
pub enum PowerRole {
    Sink,
    Source,
    Unknown,
}

impl PowerRole {
    pub fn as_str(self) -> (s: &'static str)
        ensures
            s@ == power_role_name(self),
    {
        match self {
            PowerRole::Sink => "Sink",
            PowerRole::Source => "Source",
            PowerRole::Unknown => "Unknown",
        }
    }
}

pub open spec fn power_role_name(r: PowerRole) -> Seq<char> {
    match r {
        PowerRole::Sink => "Sink"@,
        PowerRole::Source => "Source"@,
        PowerRole::Unknown => "Unknown"@,
    }
}

#[derive(Clone, Copy, Debug, PartialEq, Eq, Structural)]
pub enum DataRole {
    Ufp,
    Dfp,
    Disconnected,
}

impl DataRole {
    pub fn as_str(self) -> (s: &'static str)
        ensures
            s@ == data_role_name(self),
    {
        match self {
            DataRole::Ufp => "Ufp",
            DataRole::Dfp => "Dfp",
            DataRole::Disconnected => "Disconnected",
        }
    }
}

pub open spec fn data_role_name(r: DataRole) -> Seq<char> {
    match r {
        DataRole::Ufp => "Ufp"@,
        DataRole::Dfp => "Dfp"@,
        DataRole::Disconnected => "Disconnected"@,
    }
}

/// The EC's report on one PD port (the fields the application reads).
#[derive(Clone, Copy, Debug, PartialEq, Eq, Structural)]
pub struct PdPortState {
    pub pd_state: u8,
    pub power_role: u8,
    pub data_role: u8,
    pub voltage_mv: u16,
    pub current_ma: u16,
    pub alt_mode_status: u8,
}

/// A USB-C port as shown by the application. The negotiated power is in
/// milliwatts; voltage and current are as negotiated (0 without a contract).
#[derive(Clone, Copy, Debug, PartialEq, Eq, Structural)]
pub struct UsbCPort {
    pub port: u32,
    pub pd_contract: bool,
    pub power_role: Option<PowerRole>,
    pub voltage_mv: u16,
    pub current_ma: u16,
    pub negotiated_mw: Option<u32>,
    pub data_role: Option<DataRole>,
    pub dp_alt_mode: bool,
}

pub open spec fn power_role_of(raw: u8) -> PowerRole {
    if raw == 0 { PowerRole::Sink } else if raw == 1 { PowerRole::Source } else { PowerRole::Unknown }
}

pub open spec fn data_role_of(raw: u8) -> DataRole {
    if raw == 0 { DataRole::Ufp } else if raw == 1 { DataRole::Dfp } else { DataRole::Disconnected }
}

/// The port that an EC report describes.
pub open spec fn port_of(index: u32, st: PdPortState) -> UsbCPort {
    let mw = (st.voltage_mv * st.current_ma) / 1000;
    UsbCPort {
        port: index,
        pd_contract: st.pd_state != 0,
        power_role: Some(power_role_of(st.power_role)),
        voltage_mv: st.voltage_mv,
        current_ma: st.current_ma,
        negotiated_mw: if mw > 0 { Some(mw as u32) } else { None },
        data_role: Some(data_role_of(st.data_role)),
        dp_alt_mode: st.alt_mode_status % 4 != 0,
    }
}

pub fn decode_pd_port(index: u32, st: PdPortState) -> (p: UsbCPort)
    ensures
        p == port_of(index, st),
{
    let power_role = if st.power_role == 0 {
        PowerRole::Sink
    } else if st.power_role == 1 {
        PowerRole::Source
    } else {
        PowerRole::Unknown
    };
    let data_role = if st.data_role == 0 {
        DataRole::Ufp
    } else if st.data_role == 1 {
        DataRole::Dfp
    } else {
        DataRole::Disconnected
    };
    let v = st.voltage_mv as u32;
    let c = st.current_ma as u32;
    assert(v * c <= 65535 * 65535) by (nonlinear_arith)
        requires v <= 65535, c <= 65535;
    let mw: u32 = v * c / 1000;
    let status = st.alt_mode_status;
    let alt = status & 3;
    assert(alt == status % 4) by (bit_vector)
        requires alt == status & 3;
    UsbCPort {
        port: index,
        pd_contract: st.pd_state != 0,
        power_role: Some(power_role),
        voltage_mv: st.voltage_mv,
        current_ma: st.current_ma,
        negotiated_mw: if mw > 0 { Some(mw) } else { None },
        data_role: Some(data_role),
        dp_alt_mode: alt != 0,
    }
}

/// The ports among the first `n` EC reports (a failed query leaves its port out).
pub open spec fn ports_of(states: Seq<Option<PdPortState>>, n: nat) -> Seq<UsbCPort>
    decreases n,
{
    if n == 0 {
        Seq::empty()
    } else {
        let prev = ports_of(states, (n - 1) as nat);
        match states[n - 1] {
            Some(st) => prev.push(port_of((n - 1) as u32, st)),
            None => prev,
        }
    }
}

/// The USB-C ports from the EC's answers for ports 0 to 3.
pub fn pd_ports_from(states: [Option<PdPortState>; 4]) -> (ports: Vec<UsbCPort>)
    ensures
        ports@ == ports_of(states@, 4),
{
    let mut ports: Vec<UsbCPort> = Vec::new();
    let mut i: usize = 0;
    while i < PD_PORT_COUNT
        invariant
            i <= 4,
            ports@ == ports_of(states@, i as nat),
        decreases 4 - i,
    {
        if let Some(st) = states[i] {
            ports.push(decode_pd_port(i as u32, st));
        }
        i = i + 1;
    }
    ports
}

/// `sample` reports port `id` as a sink.
pub open spec fn sample_has_sink(sample: Seq<UsbCPort>, id: u32) -> bool {
    exists|j: int| 0 <= j < sample.len() && #[trigger] sample[j].port == id && sample[j].power_role == Some(PowerRole::Sink)
}

/// Two reports describe the same attachment of the same port.
pub open spec fn same_port_identity(a: UsbCPort, b: UsbCPort) -> bool {
    a.port == b.port && a.pd_contract == b.pd_contract && a.power_role == b.power_role && a.dp_alt_mode == b.dp_alt_mode
}

/// `sample` contains a report with the identity of `port`.
pub open spec fn sample_has_identity(sample: Seq<UsbCPort>, port: UsbCPort) -> bool {
    exists|j: int| 0 <= j < sample.len() && same_port_identity(#[trigger] sample[j], port)
}

/// How many of the first `n` samples contain the identity of `port`.
pub open spec fn stable_count(history: Seq<Seq<UsbCPort>>, port: UsbCPort, n: nat) -> nat
    decreases n,
{
    if n == 0 {
        0
    } else {
        stable_count(history, port, (n - 1) as nat) + if sample_has_identity(history[n - 1], port) { 1nat } else { 0nat }
    }
}

/// Some of the first `n` samples report the port as a sink.
pub open spec fn seen_sink(history: Seq<Seq<UsbCPort>>, id: u32, n: nat) -> bool {
    exists|i: int| 0 <= i < n && #[trigger] sample_has_sink(history[i], id)
}

/// The number of history samples that classification looks at.
pub open spec fn hist_len(history: Seq<Seq<UsbCPort>>) -> nat {
    if history.len() < PD_HISTORY_MAX { history.len() } else { PD_HISTORY_MAX as nat }
}

/// What is attached at a USB-C port, judged from its report and recent
/// history.
pub open spec fn pd_port_kind(port: UsbCPort, history: Seq<Seq<UsbCPort>>, stable_threshold: nat) -> Seq<char> {
    let is_sink = port.power_role == Some(PowerRole::Sink);
    let is_source = port.power_role == Some(PowerRole::Source);
    let n = hist_len(history);
    if port.dp_alt_mode {
        "DP/HDMI Expansion Card"@
    } else if port.pd_contract && is_sink {
        "USB-C Expansion Card"@
    } else if port.pd_contract && is_source {
        "USB-C Expansion Card"@
    } else if is_source {
        if seen_sink(history, port.port, n) {
            "USB-C Expansion Card"@
        } else if stable_count(history, port, n) >= stable_threshold {
            "USB-A Expansion Card"@
        } else {
            "USB Device (newly connected)"@
        }
    } else if is_sink {
        "USB-C Expansion Card"@
    } else {
        "USB-C Port"@
    }
}

/// The history samples that classification looks at: the first
/// `PD_HISTORY_MAX` (or all, when there are fewer).
pub open spec fn looked_at(history: Seq<Seq<UsbCPort>>) -> Seq<Seq<UsbCPort>> {
    history.take(hist_len(history) as int)
}

proof fn lemma_stable_count_prefix(h1: Seq<Seq<UsbCPort>>, h2: Seq<Seq<UsbCPort>>, port: UsbCPort, n: nat)
    requires
        n <= h1.len(),
        n <= h2.len(),
        forall|i: int| 0 <= i < n ==> h1[i] == h2[i],
    ensures
        stable_count(h1, port, n) == stable_count(h2, port, n),
    decreases n,
{
    if n > 0 {
        lemma_stable_count_prefix(h1, h2, port, (n - 1) as nat);
        assert(h1[n - 1] == h2[n - 1]);
    }
}

/// Law: two histories whose first `PD_HISTORY_MAX` samples agree (later
/// samples may differ or be missing) classify every port alike.
#[verifier::spinoff_prover]
pub proof fn lemma_classify_reads_recent_history(
    port: UsbCPort,
    h1: Seq<Seq<UsbCPort>>,
    h2: Seq<Seq<UsbCPort>>,
    stable_threshold: nat,
)
    requires
        looked_at(h1) == looked_at(h2),
    ensures
        pd_port_kind(port, h1, stable_threshold) == pd_port_kind(port, h2, stable_threshold),
{
    let n = hist_len(h1);
    assert(looked_at(h1).len() == n);
    assert(looked_at(h2).len() == hist_len(h2));
    assert(hist_len(h2) == n);
    assert forall|i: int| 0 <= i < n implies h1[i] == h2[i] by {
        assert(looked_at(h1)[i] == h1[i]);
        assert(looked_at(h2)[i] == h2[i]);
    }
    lemma_stable_count_prefix(h1, h2, port, n);
    assert(seen_sink(h1, port.port, n) == seen_sink(h2, port.port, n)) by {
        if seen_sink(h1, port.port, n) {
            let i = choose|i: int| 0 <= i < n && #[trigger] sample_has_sink(h1[i], port.port);
            assert(sample_has_sink(h2[i], port.port));
        }
        if seen_sink(h2, port.port, n) {
            let i = choose|i: int| 0 <= i < n && #[trigger] sample_has_sink(h2[i], port.port);
            assert(sample_has_sink(h1[i], port.port));
        }
    }
}

proof fn lemma_stable_count_extremes(h: Seq<Seq<UsbCPort>>, port: UsbCPort, n: nat)
    requires
        n <= h.len(),
    ensures
        stable_count(h, port, n) <= n,
        (forall|i: int| 0 <= i < n ==> sample_has_identity(#[trigger] h[i], port)) ==> stable_count(h, port, n) == n,
        (forall|i: int| 0 <= i < n ==> !sample_has_identity(#[trigger] h[i], port)) ==> stable_count(h, port, n) == 0,
    decreases n,
{
    if n > 0 {
        lemma_stable_count_extremes(h, port, (n - 1) as nat);
    }
}

/// Law (what a port is, from its report and recent history): in alternate
/// display mode it is a DP/HDMI card; with a PD contract as sink or source
/// a USB-C card; as a sink without contract an idle USB-C card; with no
/// role it is a plain USB-C port. A source without contract is a USB-C card
/// with a device plugged in when any of the first `PD_HISTORY_MAX` samples
/// reports the same port as a sink (with or without a contract); otherwise
/// it is a USB-A card when enough of those samples report exactly the same
/// state (all of them, if there are at least `stable_threshold`; always
/// when the threshold is 0), and a newly connected USB device when none of
/// them does and the threshold is positive.
#[verifier::spinoff_prover]
pub proof fn lemma_classification(port: UsbCPort, history: Seq<Seq<UsbCPort>>, stable_threshold: nat)
    ensures
        port.dp_alt_mode ==> pd_port_kind(port, history, stable_threshold) == "DP/HDMI Expansion Card"@,
        !port.dp_alt_mode && port.pd_contract && (port.power_role == Some(PowerRole::Sink)
            || port.power_role == Some(PowerRole::Source)) ==> pd_port_kind(port, history, stable_threshold)
            == "USB-C Expansion Card"@,
        !port.dp_alt_mode && port.power_role == Some(PowerRole::Sink) ==> pd_port_kind(port, history, stable_threshold)
            == "USB-C Expansion Card"@,
        !port.dp_alt_mode && (port.power_role is None || port.power_role == Some(PowerRole::Unknown))
            ==> pd_port_kind(port, history, stable_threshold) == "USB-C Port"@,
        ({
            let looked = if history.len() < PD_HISTORY_MAX { history.len() as int } else { PD_HISTORY_MAX as int };
            let sink_seen = exists|i: int, j: int|
                0 <= i < looked && 0 <= j < history[i].len() && (#[trigger] history[i][j]).port == port.port
                    && history[i][j].power_role == Some(PowerRole::Sink);
            let holds_state = |i: int| exists|j: int|
                0 <= j < history[i].len() && (#[trigger] history[i][j]).port == port.port
                    && history[i][j].pd_contract == port.pd_contract && history[i][j].power_role == port.power_role
                    && history[i][j].dp_alt_mode == port.dp_alt_mode;
            let source_without_contract = !port.dp_alt_mode && !port.pd_contract && port.power_role == Some(
                PowerRole::Source,
            );
            &&& source_without_contract && sink_seen ==> pd_port_kind(port, history, stable_threshold)
                == "USB-C Expansion Card"@
            &&& source_without_contract && !sink_seen && stable_threshold == 0 ==> pd_port_kind(
                port,
                history,
                stable_threshold,
            ) == "USB-A Expansion Card"@
            &&& source_without_contract && !sink_seen && stable_threshold <= looked && (forall|i: int|
                0 <= i < looked ==> #[trigger] holds_state(i)) ==> pd_port_kind(port, history, stable_threshold)
                == "USB-A Expansion Card"@
            &&& source_without_contract && !sink_seen && stable_threshold > 0 && (forall|i: int|
                0 <= i < looked ==> !#[trigger] holds_state(i)) ==> pd_port_kind(port, history, stable_threshold)
                == "USB Device (newly connected)"@
        }),
{
    let n = hist_len(history);
    let looked = if history.len() < PD_HISTORY_MAX { history.len() as int } else { PD_HISTORY_MAX as int };
    assert(looked == n);
    let sink_seen = exists|i: int, j: int|
        0 <= i < looked && 0 <= j < history[i].len() && (#[trigger] history[i][j]).port == port.port
            && history[i][j].power_role == Some(PowerRole::Sink);
    assert(sink_seen == seen_sink(history, port.port, n)) by {
        if sink_seen {
            let (i, j) = choose|i: int, j: int|
                0 <= i < looked && 0 <= j < history[i].len() && (#[trigger] history[i][j]).port == port.port
                    && history[i][j].power_role == Some(PowerRole::Sink);
            assert(sample_has_sink(history[i], port.port));
        }
        if seen_sink(history, port.port, n) {
            let i = choose|i: int| 0 <= i < n && #[trigger] sample_has_sink(history[i], port.port);
            let j = choose|j: int| 0 <= j < history[i].len() && #[trigger] history[i][j].port == port.port
                && history[i][j].power_role == Some(PowerRole::Sink);
            assert(history[i][j].port == port.port);
        }
    }
    let holds_state = |i: int| exists|j: int|
        0 <= j < history[i].len() && (#[trigger] history[i][j]).port == port.port
            && history[i][j].pd_contract == port.pd_contract && history[i][j].power_role == port.power_role
            && history[i][j].dp_alt_mode == port.dp_alt_mode;
    assert forall|i: int| 0 <= i < n implies #[trigger] holds_state(i) == sample_has_identity(history[i], port) by {
        if holds_state(i) {
            let j = choose|j: int|
                0 <= j < history[i].len() && (#[trigger] history[i][j]).port == port.port
                    && history[i][j].pd_contract == port.pd_contract && history[i][j].power_role == port.power_role
                    && history[i][j].dp_alt_mode == port.dp_alt_mode;
            assert(same_port_identity(history[i][j], port));
        }
        if sample_has_identity(history[i], port) {
            let j = choose|j: int| 0 <= j < history[i].len() && same_port_identity(#[trigger] history[i][j], port);
            assert(history[i][j].port == port.port);
        }
    }
    lemma_stable_count_extremes(history, port, n);
    if forall|i: int| 0 <= i < looked ==> #[trigger] holds_state(i) {
        assert forall|i: int| 0 <= i < n implies sample_has_identity(#[trigger] history[i], port) by {
            assert(holds_state(i));
        }
        assert(stable_count(history, port, n) == n);
    }
    if forall|i: int| 0 <= i < looked ==> !#[trigger] holds_state(i) {
        assert forall|i: int| 0 <= i < n implies !sample_has_identity(#[trigger] history[i], port) by {
            assert(!holds_state(i));
        }
        assert(stable_count(history, port, n) == 0);
    }
}

fn has_sink(sample: &Vec<UsbCPort>, id: u32) -> (b: bool)
    ensures
        b == sample_has_sink(sample@, id),
{
    let mut j: usize = 0;
    while j < sample.len()
        invariant
            j <= sample@.len(),
            forall|k: int| 0 <= k < j ==> !(#[trigger] sample@[k].port == id && sample@[k].power_role == Some(PowerRole::Sink)),
        decreases sample@.len() - j,
    {
        let p = sample[j];
        if p.port == id && p.power_role == Some(PowerRole::Sink) {
            assert(sample@[j as int].port == id);
            return true;
        }
        j = j + 1;
    }
    false
}

fn has_identity(sample: &Vec<UsbCPort>, port: &UsbCPort) -> (b: bool)
    ensures
        b == sample_has_identity(sample@, *port),
{
    let mut j: usize = 0;
    while j < sample.len()
        invariant
            j <= sample@.len(),
            forall|k: int| 0 <= k < j ==> !same_port_identity(#[trigger] sample@[k], *port),
        decreases sample@.len() - j,
    {
        let p = sample[j];
        if p.port == port.port && p.pd_contract == port.pd_contract && p.power_role == port.power_role
            && p.dp_alt_mode == port.dp_alt_mode {
            assert(same_port_identity(sample@[j as int], *port));
            return true;
        }
        j = j + 1;
    }
    false
}

/// What is attached at `port` (see [`pd_port_kind`]), from its report and
/// the most recent history samples (at most `PD_HISTORY_MAX` of them are
/// read). DP alt mode always means a DP/HDMI card. A source without a PD
/// contract counts as a USB-A card once it has looked the same in
/// `stable_threshold` samples and was never a sink; before that it is a
/// newly connected USB device.
pub fn classify_pd_port(
    port: &UsbCPort,
    history: &[Vec<UsbCPort>],
    stable_threshold: usize,
    display_card_installed: bool,
) -> (kind: &'static str)
    ensures
        kind@ == pd_port_kind(*port, history@.map_values(|s: Vec<UsbCPort>| s@), stable_threshold as nat),
{
    let ghost h = history@.map_values(|s: Vec<UsbCPort>| s@);
    let is_sink = port.power_role == Some(PowerRole::Sink);
    let is_source = port.power_role == Some(PowerRole::Source);
    if port.dp_alt_mode {
        return "DP/HDMI Expansion Card";
    }
    if port.pd_contract && is_sink {
        return "USB-C Expansion Card";
    }
    if port.pd_contract && is_source {
        return "USB-C Expansion Card";
    }
    if is_source {
        let n: usize = if history.len() < PD_HISTORY_MAX { history.len() } else { PD_HISTORY_MAX };
        assert(n == hist_len(h));
        let mut seen = false;
        let mut count: usize = 0;
        let mut i: usize = 0;
        while i < n
            invariant
                n <= history@.len(),
                h == history@.map_values(|s: Vec<UsbCPort>| s@),
                i <= n,
                count == stable_count(h, *port, i as nat),
                count <= i,
                seen == seen_sink(h, port.port, i as nat),
            decreases n - i,
        {
            let sample = &history[i];
            assert(h[i as int] == sample@);
            if has_sink(sample, port.port) {
                seen = true;
            }
            if has_identity(sample, port) {
                count = count + 1;
            }
            i = i + 1;
            assert(seen == seen_sink(h, port.port, i as nat)) by {
                if seen_sink(h, port.port, (i - 1) as nat) {
                    let w = choose|k: int| 0 <= k < i - 1 && #[trigger] sample_has_sink(h[k], port.port);
                    assert(0 <= w < i && sample_has_sink(h[w], port.port));
                }
                if seen_sink(h, port.port, i as nat) && !sample_has_sink(h[i - 1], port.port) {
                    let w = choose|k: int| 0 <= k < i && #[trigger] sample_has_sink(h[k], port.port);
                    assert(w != i - 1);
                }
            }
        }
        if seen {
            return "USB-C Expansion Card";
        }
        if count >= stable_threshold {
            return "USB-A Expansion Card";
        }
        return "USB Device (newly connected)";
    }
    if is_sink {
        return "USB-C Expansion Card";
    }
    "USB-C Port"
}

} // verus!
