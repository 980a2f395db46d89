use flipper_tui::device::{BootMode, DeviceInfo, FlashInfo, HardwareInfo, RadioInfo};
use flipper_tui::info::Info;
use flipper_tui::panels::{
    device_lines, hardware_lines, installed_lines, radio_lines, status_lines, storage_lines,
};
use flipper_tui::protocol::StorageEntry;
use flipper_tui::screens::{
    human_bytes, human_size, Apps, Dashboard, Devices, Settings, StorageLocation, Updates,
};
use flipper_tui::settings::StorageInfo;
use flipper_tui::updates::{UpdateState, UpdateStatus};

fn sample_info() -> DeviceInfo {
    DeviceInfo {
        hardware: HardwareInfo {
            name: "f7".into(),
            revision: "R3llow4n".into(),
            region: "US".into(),
            lot: "2024-Q3-19".into(),
        },
        firmware_branch: "mntm-012".into(),
        firmware_version: "Momentum v1.4.4 OCT 2024".into(),
        firmware_build: "4106".into(),
        firmware_target: "f7".into(),
        radio: RadioInfo {
            ble_mac: "AA:BB:CC:DD:EE:FF".into(),
            subghz: true,
            nfc: true,
            ir: true,
        },
        flash: FlashInfo {
            vendor: "Winbond".into(),
            model: "W25Q128".into(),
            size_bytes: 16384,
        },
        api_major: 87,
        api_minor: 1,
        boot_mode: BootMode::Normal,
        serial: "flip_R3llow4n1".into(),
    }
}

fn sample_storage() -> StorageInfo {
    StorageInfo {
        label: "FLIPPER".into(),
        free_bytes: 100 * 1024 * 1024,
        total_bytes: 500 * 1024 * 1024,
        fs_type: "FAT".into(),
        path: "/ext".into(),
    }
}

fn sample_status(state: UpdateState) -> UpdateStatus {
    UpdateStatus {
        installed: Info {
            firmware_version: "mntm-012 e1784e74".into(),
            firmware_branch: "mntm-012".into(),
            firmware_commit: "e1784e74".into(),
            firmware_build_date: "31-12-2025".into(),
        },
        state,
    }
}

#[test]
fn apps_root_is_ext_apps() {
    let loc = Apps::root();
    assert_eq!(loc.path, "/ext/apps");
}

#[test]
fn apps_can_descend_into_an_app_dir() {
    let loc = Apps::root().descend("nfc_reader");
    assert_eq!(loc.path, "/ext/apps/nfc_reader");
    // Ascending back out of one app brings us to the apps root, not to
    // /ext: the Apps tab is its own scope.
    let back = loc.ascend().unwrap();
    assert_eq!(back.path, "/ext/apps");
}

#[test]
fn apps_holds_without_panicking() {
    let _ = Apps::new();
}

#[test]
fn empty_apps_list_renders_without_panicking() {
    let entries: Vec<StorageEntry> = Vec::new();
    assert!(entries.is_empty());
    assert_eq!(Apps::root().path, "/ext/apps");
}

#[test]
fn dashboard_holds_without_panicking() {
    let _ = Dashboard::new();
    let info = sample_info();
    assert_eq!(info.firmware_branch, "mntm-012");
    assert_eq!(hardware_lines(&info).len(), 16);
    assert_eq!(radio_lines(&info).len(), 7);
}

#[test]
fn empty_endpoint_list_doesnt_panic() {
    let _ = Devices::new();
}

#[test]
fn settings_holds_without_panicking() {
    let _ = Settings::new();
}

#[test]
fn settings_renders_with_full_storage() {
    let info = sample_info();
    let storage = sample_storage();
    assert_eq!(device_lines(&info).len(), 16);
    assert_eq!(storage_lines(Some(&storage)).len(), 7);
}

#[test]
fn settings_renders_without_storage() {
    // When the live fetch fails the screen still has the device panel;
    // the storage panel falls back to a hint.
    let _info = sample_info();
    let storage: Option<StorageInfo> = None;
    assert!(storage.is_none());
    assert_eq!(storage_lines(storage.as_ref()).len(), 1);
}

#[test]
fn human_bytes_renders_known_units() {
    assert_eq!(human_bytes(0), "0 B");
    assert_eq!(human_bytes(512), "512 B");
    assert_eq!(human_bytes(2048), "2 KiB");
    assert_eq!(human_bytes(5 * 1024 * 1024), "5 MiB");
    assert_eq!(human_bytes(2 * 1024 * 1024 * 1024), "2 GiB");
}

#[test]
fn descend_appends_with_single_slash() {
    let loc = StorageLocation::root();
    let child = loc.descend("apps");
    assert_eq!(child.path, "/ext/apps");
    let grandchild = child.descend("nfc");
    assert_eq!(grandchild.path, "/ext/apps/nfc");
}

#[test]
fn ascend_pops_one_component() {
    let loc = StorageLocation {
        path: "/ext/apps/nfc".to_string(),
    };
    let parent = loc.ascend().unwrap();
    assert_eq!(parent.path, "/ext/apps");
    let grandparent = parent.ascend().unwrap();
    assert_eq!(grandparent.path, "/ext");
    assert!(grandparent.ascend().is_none(), "ascending /ext yields None");
}

#[test]
fn ascend_on_root_returns_none() {
    let loc = StorageLocation::root();
    assert!(loc.ascend().is_none());
}

#[test]
fn human_size_renders_known_units() {
    assert_eq!(human_size(0), "0 B");
    assert_eq!(human_size(512), "512 B");
    assert_eq!(human_size(2048), "2 KiB");
    assert_eq!(human_size(5 * 1024 * 1024), "5 MiB");
}

#[test]
fn updates_holds_without_panicking() {
    let _ = Updates::new();
}

#[test]
fn updates_renders_unsupported_state() {
    let info = sample_info();
    let status = sample_status(UpdateState::NotSupported);
    assert_eq!(installed_lines(&info).len(), 7);
    assert_eq!(status_lines(&status).len(), 5);
}

#[test]
fn updates_renders_no_updates_state() {
    let info = sample_info();
    let status = sample_status(UpdateState::NoUpdates);
    assert_eq!(installed_lines(&info).len(), 7);
    assert_eq!(status_lines(&status).len(), 5);
}

#[test]
fn updates_renders_error_state() {
    let info = sample_info();
    let status = sample_status(UpdateState::Error("network unreachable".into()));
    assert_eq!(installed_lines(&info).len(), 7);
    assert_eq!(status_lines(&status).len(), 6);
}
