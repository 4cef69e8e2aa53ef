use framework_crate::cli::ec_wrapper::VersionsData;
use framework_crate::system_info::{cpu_name, header_device_name, header_info_text};

fn brand(text: &[u8]) -> [u8; 48] {
    let mut b = [0u8; 48];
    b[..text.len()].copy_from_slice(text);
    b
}

#[test]
fn cpu_name_trims_and_stops_at_nul() {
    let b = brand(b"       12th Gen Intel(R) Core(TM) i7-1260P  ");
    assert_eq!(cpu_name(&b), "12th Gen Intel(R) Core(TM) i7-1260P");
}

#[test]
fn cpu_name_uses_all_48_bytes_without_nul() {
    let b = [b'A'; 48];
    assert_eq!(cpu_name(&b), "A".repeat(48));
}

#[test]
fn cpu_name_replaces_invalid_utf8() {
    let b = brand(b"AMD \xFF Ryzen");
    assert_eq!(cpu_name(&b), "AMD \u{FFFD} Ryzen");
}

#[test]
fn cpu_name_of_empty_brand() {
    assert_eq!(cpu_name(&[0u8; 48]), "");
}

#[test]
fn header_text_joins_known_parts() {
    assert_eq!(
        header_info_text("Ryzen 7", "32 GB", "Linux", "03.05", "2560x1600", "165Hz"),
        "CPU: Ryzen 7  |  RAM: 32 GB  |  OS: Linux  |  BIOS: 03.05  |  Display: 2560x1600 165Hz"
    );
}

#[test]
fn header_text_skips_unknown_parts() {
    assert_eq!(header_info_text("", "N/A", "Linux", "", "2560x1600", ""), "OS: Linux  |  Display: 2560x1600");
    assert_eq!(header_info_text("", "N/A", "", "", "", "120Hz"), "");
    assert_eq!(header_info_text("", "", "", "", "", ""), "RAM: ");
}

#[test]
fn device_name_falls_back() {
    assert_eq!(header_device_name(&None), "Framework Crate");
    let mut v = VersionsData::default();
    assert_eq!(header_device_name(&Some(v.clone())), "Framework Crate");
    v.mainboard_type = Some("Laptop 16".to_string());
    assert_eq!(header_device_name(&Some(v)), "Laptop 16");
}

#[test]
fn cpu_name_trims_unicode_white_space() {
    let b = brand("\u{3000}\t AMD Ryzen\u{A0}\u{2009}".as_bytes());
    assert_eq!(cpu_name(&b), "AMD Ryzen");
}
