use flipper_tui::device::{BootMode, DeviceInfo};
use flipper_tui::error::FlipperError;

/// A `device_info` payload from a Momentum v1.4.4 firmware on a US-region
/// unit: the test pins every field the dashboard renders.
const HELLO_SAMPLE: &str = "\
hardware_name: f7\n\
hardware_revision: R3llow4n\n\
hardware_region: US\n\
hardware_lot: 2024-Q3-19\n\
firmware_branch: mntm-012\n\
firmware_version: Momentum v1.4.4 OCT 2024\n\
firmware_build: 4106\n\
firmware_target: f7\n\
radio_ble_mac: AA:BB:CC:DD:EE:FF\n\
radio_subghz: true\n\
radio_nfc: true\n\
radio_ir: true\n\
flash_vendor: Winbond\n\
flash_model: W25Q128\n\
flash_size: 16384 kB\n\
api_major: 87\n\
api_minor: 1\n\
boot_mode: Normal\n\
serial_number: flip_R3llow4n1\n";

#[test]
fn parse_extracts_hardware_metadata() {
    let info = DeviceInfo::parse(HELLO_SAMPLE).expect("parse fails");
    assert_eq!(info.hardware.name, "f7");
    assert_eq!(info.hardware.revision, "R3llow4n");
    assert_eq!(info.hardware.region, "US");
    assert_eq!(info.hardware.lot, "2024-Q3-19");
}

#[test]
fn parse_extracts_firmware_metadata() {
    let info = DeviceInfo::parse(HELLO_SAMPLE).expect("parse fails");
    assert_eq!(info.firmware_branch, "mntm-012");
    assert_eq!(info.firmware_version, "Momentum v1.4.4 OCT 2024");
    assert_eq!(info.firmware_build, "4106");
    assert_eq!(info.firmware_target, "f7");
}

#[test]
fn parse_extracts_radio_flags() {
    let info = DeviceInfo::parse(HELLO_SAMPLE).expect("parse fails");
    assert_eq!(info.radio.ble_mac, "AA:BB:CC:DD:EE:FF");
    assert!(info.radio.subghz);
    assert!(info.radio.nfc);
    assert!(info.radio.ir);
}

#[test]
fn parse_extracts_flash_metadata() {
    let info = DeviceInfo::parse(HELLO_SAMPLE).expect("parse fails");
    assert_eq!(info.flash.vendor, "Winbond");
    assert_eq!(info.flash.model, "W25Q128");
    // The size stays in kB, as the Flipper prints it.
    assert_eq!(info.flash.size_bytes, 16384);
}

#[test]
fn parse_extracts_api_version_and_boot_mode() {
    let info = DeviceInfo::parse(HELLO_SAMPLE).expect("parse fails");
    assert_eq!(info.api_major, 87);
    assert_eq!(info.api_minor, 1);
    assert_eq!(info.boot_mode, BootMode::Normal);
    assert_eq!(info.serial, "flip_R3llow4n1");
}

#[test]
fn parse_errors_without_hardware_name() {
    let bad = "firmware_branch: dev\n";
    let err = DeviceInfo::parse(bad).unwrap_err();
    assert!(matches!(err, FlipperError::Parse(_)));
}

#[test]
fn parse_skips_unknown_lines() {
    let mixed = "hardware_name: f7\nfuture_field: 42\n";
    let info = DeviceInfo::parse(mixed).expect("parse fails");
    assert_eq!(info.hardware.name, "f7");
}
