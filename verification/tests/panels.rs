use flipper_tui::device::{BootMode, DeviceInfo, FlashInfo, HardwareInfo, RadioInfo};
use flipper_tui::info::Info;
use flipper_tui::panels::{
    boot_mode_name, dashboard_subtitle, device_lines, hardware_lines, help_key_cell, help_lines,
    installed_lines, label_cell, name_cell, radio_lines, status_lines, storage_lines, PanelLine,
};
use flipper_tui::protocol::StorageEntry;
use flipper_tui::screens::Tone;
use flipper_tui::settings::StorageInfo;
use flipper_tui::text::pad_right;
use flipper_tui::updates::{UpdateState, UpdateStatus};

fn sample() -> DeviceInfo {
    DeviceInfo {
        hardware: HardwareInfo {
            name: "f7".into(),
            revision: "R3llow4n".into(),
            region: "US".into(),
            lot: "2024-Q3-19".into(),
        },
        firmware_branch: "mntm-012".into(),
        firmware_version: "Momentum v1.4.4 OCT 2024".into(),
        firmware_build: "4106".into(),
        firmware_target: "f7".into(),
        radio: RadioInfo { ble_mac: "AA:BB:CC:DD:EE:FF".into(), subghz: true, nfc: false, ir: true },
        flash: FlashInfo { vendor: "Winbond".into(), model: "W25Q128".into(), size_bytes: 16384 },
        api_major: 87,
        api_minor: 1,
        boot_mode: BootMode::Normal,
        serial: "flip_R3llow4n1".into(),
    }
}

fn field(k: &'static str, v: &str) -> PanelLine {
    PanelLine::Field(k, v.to_string())
}

fn status(state: UpdateState) -> UpdateStatus {
    UpdateStatus {
        installed: Info {
            firmware_version: "mntm-012 e1784e74".into(),
            firmware_branch: "mntm-012".into(),
            firmware_commit: "e1784e74".into(),
            firmware_build_date: "31-12-2025".into(),
        },
        state,
    }
}

#[test]
fn hardware_panel_lists_identity_and_firmware() {
    let lines = hardware_lines(&sample());
    assert_eq!(lines.len(), 16);
    assert_eq!(lines[0], field("Hardware", "f7"));
    assert_eq!(lines[6], field("Firmware", "mntm-012"));
    assert_eq!(lines[13], field("Size (kB)", "16384"));
    assert_eq!(lines[14], field("API", "87.1"));
    assert_eq!(lines[15], field("Boot", "Normal"));
    assert_eq!(lines[5], PanelLine::Blank);
    assert_eq!(dashboard_subtitle(&sample()), "R3llow4n • US");
}

#[test]
fn radio_panel_lists_flags_and_mac() {
    let lines = radio_lines(&sample());
    assert_eq!(
        lines,
        vec![
            PanelLine::Title("Radios"),
            PanelLine::Blank,
            PanelLine::Flag("Sub-GHz", true),
            PanelLine::Flag("NFC", false),
            PanelLine::Flag("IR", true),
            PanelLine::Blank,
            field("BLE MAC", "AA:BB:CC:DD:EE:FF"),
        ]
    );
}

#[test]
fn boot_modes_are_named_as_debug_prints_them() {
    assert_eq!(boot_mode_name(BootMode::Normal), format!("{:?}", BootMode::Normal));
    assert_eq!(boot_mode_name(BootMode::Dfu), format!("{:?}", BootMode::Dfu));
    assert_eq!(boot_mode_name(BootMode::Recovery), format!("{:?}", BootMode::Recovery));
    assert_eq!(boot_mode_name(BootMode::Unknown), format!("{:?}", BootMode::Unknown));
}

#[test]
fn storage_panel_shows_usage() {
    let dev = device_lines(&sample());
    assert_eq!(dev.len(), 16);
    assert_eq!(dev[0], field("Name", "f7"));
    assert_eq!(dev[15], field("Flash Size", "16384 KiB"));
    let s = StorageInfo {
        label: "FLIPPER".into(),
        free_bytes: 100 * 1024 * 1024,
        total_bytes: 500 * 1024 * 1024,
        fs_type: "FAT".into(),
        path: "/ext".into(),
    };
    let lines = storage_lines(Some(&s));
    assert_eq!(
        lines,
        vec![
            field("Path", "/ext"),
            field("Label", "FLIPPER"),
            field("Type", "FAT"),
            field("Free", "100 MiB"),
            field("Total", "500 MiB"),
            field("Used", "400 MiB"),
            PanelLine::Note("  80% used".to_string(), Tone::Yellow),
        ]
    );
}

#[test]
fn storage_panel_hints_without_snapshot() {
    let lines = storage_lines(None);
    assert_eq!(lines.len(), 1);
    assert_eq!(
        lines[0],
        PanelLine::Note(
            "  (storage info unavailable — try `r` to refresh)".to_string(),
            Tone::DarkGray
        )
    );
}

#[test]
fn storage_panel_without_total_shows_no_percentage() {
    let s = StorageInfo {
        label: String::new(),
        free_bytes: 4096,
        total_bytes: 0,
        fs_type: String::new(),
        path: "/int".into(),
    };
    let lines = storage_lines(Some(&s));
    assert_eq!(lines.len(), 6);
    assert_eq!(lines[5], field("Used", "0 B"));
}

#[test]
fn status_panel_unsupported() {
    let lines = status_lines(&status(UpdateState::NotSupported));
    assert_eq!(lines.len(), 5);
    assert_eq!(lines[0], field("Branch", "mntm-012"));
    assert_eq!(lines[1], field("Commit", "e1784e74"));
    assert_eq!(lines[3], PanelLine::Title("Status"));
    assert_eq!(
        lines[4],
        PanelLine::Note(
            "  not supported on this firmware — v0.2 will add protobuf RPC".to_string(),
            Tone::Yellow
        )
    );
}

#[test]
fn status_panel_up_to_date() {
    let lines = status_lines(&status(UpdateState::NoUpdates));
    assert_eq!(lines[4], PanelLine::Note("  up to date".to_string(), Tone::Green));
}

#[test]
fn status_panel_error_carries_message() {
    let lines = status_lines(&status(UpdateState::Error("network unreachable".into())));
    assert_eq!(lines.len(), 6);
    assert_eq!(lines[4], PanelLine::Note("  error".to_string(), Tone::Red));
    assert_eq!(lines[5], PanelLine::Note("  network unreachable".to_string(), Tone::Red));
}

#[test]
fn updates_renders_available_update() {
    let lines = status_lines(&status(UpdateState::UpdateAvailable {
        branch: "release".into(),
        target_version: "Momentum v1.5.0 JAN 2026".into(),
    }));
    assert_eq!(lines.len(), 8);
    assert_eq!(lines[4], PanelLine::Note("  update available".to_string(), Tone::Green));
    assert_eq!(lines[6], field("Update branch", "release"));
    assert_eq!(lines[7], field("Target version", "Momentum v1.5.0 JAN 2026"));
}

#[test]
fn installed_panel_shows_the_device_firmware() {
    let lines = installed_lines(&sample());
    assert_eq!(lines.len(), 7);
    assert_eq!(lines[1], field("Version", "Momentum v1.4.4 OCT 2024"));
    assert_eq!(lines[6], field("Hardware", "f7"));
}

#[test]
fn help_lists_every_section() {
    let lines = help_lines();
    let text: Vec<String> = lines
        .iter()
        .map(|l| match l {
            PanelLine::Field(k, v) => format!("{k} {v}"),
            PanelLine::Title(t) => t.to_string(),
            _ => String::new(),
        })
        .collect();
    let all = text.join("\n");
    for needle in ["Navigation", "Global", "Dashboard tabs", "cycle focus", "back / cancel"] {
        assert!(all.contains(needle), "missing {needle:?}:\n{all}");
    }
    assert_eq!(lines.len(), 15);
}

#[test]
fn cells_pad_like_format_width() {
    assert_eq!(pad_right("ab", 5), format!("{:<5}", "ab"));
    assert_eq!(pad_right("abcdef", 3), "abcdef");
    assert_eq!(pad_right("↑/↓", 5), format!("{:<5}", "↑/↓"));
    assert_eq!(label_cell("API"), format!("{:<14} ", "API"));
    assert_eq!(help_key_cell("Tab"), format!("  {:<14}", "Tab"));
    let e = StorageEntry { name: "Manifest".into(), is_dir: false, size: 4096 };
    assert_eq!(name_cell(&e), format!("{:<24}", "Manifest"));
}
