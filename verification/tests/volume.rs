use flipper_tui::mock::MockRegistry;
use flipper_tui::settings::{parse_storage_info, parse_storage_info_reply};

#[test]
fn parse_storage_info_extracts_label_and_sizes() {
    let payload = "\
Storage: /ext\n\
Label:   FLIPPER\n\
Type:    FAT\n\
Free:    1234567k\n\
Total:   7890MiB\n";
    let info = parse_storage_info(payload, "/ext");
    assert_eq!(info.label, "FLIPPER");
    assert_eq!(info.fs_type, "FAT");
    assert_eq!(info.path, "/ext");
    assert_eq!(info.free_bytes, 1_234_567 * 1024);
    assert_eq!(info.total_bytes, 7890 * 1_024 * 1_024);
}

#[test]
fn parse_storage_info_defaults_missing_fields() {
    let info = parse_storage_info("Path: /int\n", "/int");
    assert_eq!(info.path, "/int");
    assert_eq!(info.label, "");
    assert_eq!(info.fs_type, "");
    assert_eq!(info.free_bytes, 0);
    assert_eq!(info.total_bytes, 0);
}

#[test]
fn parse_storage_info_handles_plain_byte_counts() {
    // No unit suffix: the numbers are bytes.
    let info = parse_storage_info("Free: 4096\nTotal: 8192\n", "/ext");
    assert_eq!(info.free_bytes, 4096);
    assert_eq!(info.total_bytes, 8192);
}

#[test]
fn storage_info_round_trips_through_mock_transport() {
    // The mock registry picks the handler; the handler's reply is then
    // parsed as `storage info` is.
    let handlers: Vec<fn(&[&str]) -> Vec<u8>> = vec![|args| {
        let path = args.first().copied().unwrap_or("/ext");
        format!("Storage: {path}\nLabel: MOCK\nType: LFS2\nFree: 100k\nTotal: 200k\n").into_bytes()
    }];
    let mut tx = MockRegistry::new();
    tx.on("storage info", 0);
    tx.connect();
    let slot = tx.dispatch("storage info", &["/ext"]).unwrap();
    let reply = handlers[slot](&["/ext"]);
    let info = parse_storage_info_reply(&reply, "/ext").unwrap();
    assert_eq!(info.path, "/ext");
    assert_eq!(info.label, "MOCK");
    assert_eq!(info.fs_type, "LFS2");
    assert_eq!(info.free_bytes, 100 * 1024);
    assert_eq!(info.total_bytes, 200 * 1024);
}

#[test]
fn mkdir_calls_transport() {
    let mut tx = MockRegistry::new();
    tx.on("storage mkdir", 0);
    tx.connect();
    assert_eq!(tx.dispatch("storage mkdir", &["/ext/notes"]), Ok(0));
    assert_eq!(
        tx.call_log(),
        vec![("storage mkdir".to_string(), vec!["/ext/notes".to_string()])]
    );
}

#[test]
fn size_suffixes_scale_and_saturate() {
    let info = parse_storage_info(
        "Free: 12345 kB\nTotal: 3 MB\nLabel: extra\nType: SD Card\n",
        "/ext",
    );
    assert_eq!(info.free_bytes, 12345 * 1024);
    assert_eq!(info.total_bytes, 3 * 1024 * 1024);
    assert_eq!(info.fs_type, "SD Card");
    let info = parse_storage_info("Free: 18446744073709551615K\nTotal: +7 KiB\n", "/ext");
    assert_eq!(info.free_bytes, u64::MAX);
    assert_eq!(info.total_bytes, 7 * 1024);
    let info = parse_storage_info("Free: lots\nTotal: 5K\nTotal: 6\n", "/ext");
    assert_eq!(info.free_bytes, 0);
    assert_eq!(info.total_bytes, 6);
}
