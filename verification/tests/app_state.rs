use flipper_tui::app_state::{AppState, KeyOutcome, Refresh, Screen};
use flipper_tui::device::{BootMode, DeviceInfo, FlashInfo, HardwareInfo, RadioInfo};
use flipper_tui::error::{FlipperError, TransportError};
use flipper_tui::keymap::{KeyCode, KeyEvent, KeyModifiers};
use flipper_tui::updates::UpdateState;

fn sample_info() -> DeviceInfo {
    DeviceInfo {
        hardware: HardwareInfo {
            name: "f7".into(),
            revision: "R3llow4n".into(),
            region: "US".into(),
            lot: "2024-Q3-19".into(),
        },
        firmware_branch: "mntm-012".into(),
        firmware_version: "Momentum v1.4.4 OCT 2024".into(),
        firmware_build: "4106".into(),
        firmware_target: "f7".into(),
        radio: RadioInfo {
            ble_mac: "AA:BB:CC:DD:EE:FF".into(),
            subghz: true,
            nfc: true,
            ir: true,
        },
        flash: FlashInfo {
            vendor: "Winbond".into(),
            model: "W25Q128".into(),
            size_bytes: 16384,
        },
        api_major: 87,
        api_minor: 0,
        boot_mode: BootMode::Normal,
        serial: "flip_R3llow4n1".into(),
    }
}

fn press(c: KeyCode) -> KeyEvent {
    KeyEvent::new(c, KeyModifiers::none())
}

#[test]
fn state_starts_on_devices() {
    let s = AppState::new(sample_info());
    assert_eq!(s.screen, Screen::Devices);
    assert_eq!(s.storage_location.path, "/ext");
    assert_eq!(s.apps_location.path, "/ext/apps");
    assert!(s.storage_entries.is_empty());
    assert!(s.apps_entries.is_empty());
    assert!(!s.storage_dirty);
    assert!(!s.apps_dirty);
    assert!(s.settings_storage.is_none());
    assert!(s.settings_dirty, "Settings should fetch on first paint");
    assert_eq!(s.updates.installed.firmware_branch, "mntm-012");
    assert_eq!(s.updates.installed.firmware_version, "Momentum v1.4.4 OCT 2024");
    assert_eq!(s.updates.state, UpdateState::NotSupported);
    assert!(!s.updates_dirty, "Updates check only fires when the user opens the screen");
}

#[test]
fn installed_firmware_takes_build_as_date_and_no_commit() {
    let s = AppState::new(sample_info());
    assert_eq!(s.updates.installed.firmware_build_date, "4106");
    assert_eq!(s.updates.installed.firmware_commit, "");
}

#[test]
fn q_quits_from_any_screen() {
    let mut s = AppState::new(sample_info());
    let out = s.on_key(press(KeyCode::Char('q')), None);
    assert!(out.quit);
    assert_eq!(s.screen, Screen::Devices);
}

#[test]
fn first_key_drains_the_settings_fetch() {
    let mut s = AppState::new(sample_info());
    let out = s.on_key(press(KeyCode::Char('x')), None);
    assert!(!out.quit);
    assert!(out.refresh_settings);
    assert!(!out.refresh_storage && !out.refresh_apps && !out.refresh_updates);
    assert!(!s.settings_dirty);
    let out = s.on_key(press(KeyCode::Char('x')), None);
    assert!(!out.refresh_settings);
}

#[test]
fn enter_on_devices_opens_dashboard_and_esc_goes_back() {
    let mut s = AppState::new(sample_info());
    s.on_key(press(KeyCode::Enter), None);
    assert_eq!(s.screen, Screen::Dashboard);
    s.on_key(press(KeyCode::Esc), None);
    assert_eq!(s.screen, Screen::Devices);
}

#[test]
fn r_on_devices_asks_for_a_rescan() {
    let mut s = AppState::new(sample_info());
    let out = s.on_key(press(KeyCode::Char('r')), None);
    assert!(out.rescan_devices);
    s.set_devices(vec!["/dev/ttyACM0".to_string()]);
    assert_eq!(s.devices, vec!["/dev/ttyACM0".to_string()]);
}

#[test]
fn help_toggles_and_esc_leaves_it() {
    let mut s = AppState::new(sample_info());
    s.on_key(press(KeyCode::Char('?')), None);
    assert_eq!(s.screen, Screen::Help);
    s.on_key(press(KeyCode::Char('?')), None);
    assert_eq!(s.screen, Screen::Dashboard);
    s.on_key(press(KeyCode::Char('?')), None);
    s.on_key(press(KeyCode::Esc), None);
    assert_eq!(s.screen, Screen::Dashboard);
}

#[test]
fn dashboard_shortcuts_open_their_screens() {
    let mut s = AppState::new(sample_info());
    s.on_key(press(KeyCode::Enter), None);
    let out = s.on_key(press(KeyCode::Char('s')), None);
    assert_eq!(s.screen, Screen::Storage);
    assert!(out.refresh_storage);
    assert_eq!(s.storage_location.path, "/ext");
    s.on_key(press(KeyCode::Esc), None);
    assert_eq!(s.screen, Screen::Dashboard);

    let out = s.on_key(press(KeyCode::Char('a')), None);
    assert_eq!(s.screen, Screen::Apps);
    assert!(out.refresh_apps);
    s.on_key(press(KeyCode::Esc), None);
    // `/ext/apps` has a parent, so Esc goes up to `/ext` first.
    assert_eq!(s.screen, Screen::Apps);
    assert_eq!(s.apps_location.path, "/ext");
    s.on_key(press(KeyCode::Esc), None);
    assert_eq!(s.screen, Screen::Dashboard);

    let out = s.on_key(KeyEvent::new(KeyCode::Char('S'), KeyModifiers::shift()), None);
    assert_eq!(s.screen, Screen::Settings);
    assert!(out.refresh_settings);
    s.on_key(press(KeyCode::Esc), None);

    let out = s.on_key(press(KeyCode::Char('u')), None);
    assert_eq!(s.screen, Screen::Updates);
    assert!(out.refresh_updates);
    let out = s.on_key(press(KeyCode::Char('c')), None);
    assert!(out.refresh_updates);
    s.on_key(press(KeyCode::Esc), None);
    assert_eq!(s.screen, Screen::Dashboard);
}

#[test]
fn storage_esc_undoes_enter() {
    let mut s = AppState::new(sample_info());
    s.on_key(press(KeyCode::Enter), None);
    s.on_key(press(KeyCode::Char('s')), None);
    s.apply_storage_listing(b"[D] apps 0\n[F] Manifest 4096\n");
    assert_eq!(s.storage_entries.len(), 2);

    // Enter on a file does nothing.
    let out = s.on_key(press(KeyCode::Enter), Some(1));
    assert!(!out.refresh_storage);
    assert_eq!(s.storage_location.path, "/ext");

    // Enter on a directory descends; Esc comes back.
    let out = s.on_key(press(KeyCode::Enter), Some(0));
    assert!(out.refresh_storage);
    assert_eq!(s.storage_location.path, "/ext/apps");
    let out = s.on_key(press(KeyCode::Esc), None);
    assert!(out.refresh_storage);
    assert_eq!(s.storage_location.path, "/ext");
    assert_eq!(s.screen, Screen::Storage);

    // Nothing selected, or a row past the end: nothing happens.
    let out = s.on_key(press(KeyCode::Enter), None);
    assert!(!out.refresh_storage);
    let out = s.on_key(press(KeyCode::Enter), Some(7));
    assert!(!out.refresh_storage);
}

#[test]
fn apps_esc_undoes_enter() {
    let mut s = AppState::new(sample_info());
    s.on_key(press(KeyCode::Enter), None);
    s.on_key(press(KeyCode::Char('a')), None);
    s.apply_apps_listing(b"[D] nfc_reader 0\n");
    s.on_key(press(KeyCode::Enter), Some(0));
    assert_eq!(s.apps_location.path, "/ext/apps/nfc_reader");
    s.on_key(press(KeyCode::Esc), None);
    assert_eq!(s.apps_location.path, "/ext/apps");
    // The Storage browser did not move.
    assert_eq!(s.storage_location.path, "/ext");
}

#[test]
fn a_listing_that_is_not_utf8_lists_nothing() {
    let mut s = AppState::new(sample_info());
    s.apply_storage_listing(b"[D] apps 0\n");
    assert_eq!(s.storage_entries.len(), 1);
    s.apply_storage_listing(&[0xff, 0xfe]);
    assert!(s.storage_entries.is_empty());
}

#[test]
fn blank_settings_reply_keeps_the_last_snapshot() {
    let mut s = AppState::new(sample_info());
    s.apply_settings_reply(b"  \n");
    assert!(s.settings_storage.is_none());
    s.apply_settings_reply(b"Label: FLIPPER\nFree: 1K\nTotal: 2K\n");
    let si = s.settings_storage.clone().expect("snapshot");
    assert_eq!(si.path, "/ext");
    assert_eq!(si.label, "FLIPPER");
    assert_eq!(si.free_bytes, 1024);
    assert_eq!(si.total_bytes, 2048);
    s.apply_settings_reply(b"\n");
    assert_eq!(s.settings_storage, Some(si));
}

#[test]
fn update_check_outcomes_reach_the_status() {
    let mut s = AppState::new(sample_info());
    s.apply_update_check(Ok(UpdateState::NoUpdates));
    assert_eq!(s.updates.state, UpdateState::NoUpdates);
    assert_eq!(s.updates.installed.firmware_branch, "mntm-012");
    s.apply_update_check(Err(FlipperError::Transport(TransportError::NotConnected)));
    assert_eq!(
        s.updates.state,
        UpdateState::Error("transport error: transport not connected".to_string())
    );
}

#[test]
fn refresh_commands_come_in_order_with_the_new_locations() {
    let mut s = AppState::new(sample_info());
    // First key: only the pending volume snapshot.
    let out = s.on_key(press(KeyCode::Enter), None);
    let reqs = s.refresh_requests(&out);
    assert_eq!(reqs.len(), 1);
    assert_eq!(reqs[0].refresh, Refresh::StorageInfo);
    assert_eq!(reqs[0].command, "storage info");
    assert_eq!(reqs[0].args, vec!["/ext".to_string()]);
    // Opening Storage asks for its listing at the root.
    let out = s.on_key(press(KeyCode::Char('s')), None);
    let reqs = s.refresh_requests(&out);
    assert_eq!(reqs.len(), 1);
    assert_eq!(reqs[0].refresh, Refresh::StorageListing);
    assert_eq!(reqs[0].command, "storage list");
    assert_eq!(reqs[0].args, vec!["/ext".to_string()]);
    // All four, in order, when every flag is set.
    let all = KeyOutcome {
        quit: false,
        rescan_devices: false,
        refresh_storage: true,
        refresh_apps: true,
        refresh_settings: true,
        refresh_updates: true,
    };
    let reqs = s.refresh_requests(&all);
    let kinds: Vec<Refresh> = reqs.iter().map(|r| r.refresh).collect();
    assert_eq!(
        kinds,
        vec![Refresh::StorageListing, Refresh::AppsListing, Refresh::StorageInfo, Refresh::UpdateCheck]
    );
    assert_eq!(reqs[1].args, vec!["/ext/apps".to_string()]);
    assert_eq!(reqs[3].command, "firmware update check");
    assert!(reqs[3].args.is_empty());
    // Nothing due, nothing sent.
    let out = s.on_key(press(KeyCode::Char('x')), None);
    assert!(s.refresh_requests(&out).is_empty());
}
