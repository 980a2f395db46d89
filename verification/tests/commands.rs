use flipper_tui::commands::{cli_listing, confirmed, listing_row, stat_report};
use flipper_tui::error::FlipperError;
use flipper_tui::protocol::{parse_storage_list, StorageEntry};
use flipper_tui::storage::FileStat;

#[test]
fn empty_listing_reply_lists_the_placeholder() {
    let v = cli_listing(b"").unwrap();
    let expected = parse_storage_list(b"[D] ext 4096\n[F] Manifest 24\n").unwrap();
    assert_eq!(v, expected);
    assert_eq!(v.len(), 2);
    assert_eq!(v[0], StorageEntry { name: "ext".into(), is_dir: true, size: 4096 });
}

#[test]
fn listing_reply_is_parsed() {
    let v = cli_listing(b"[F] nfc 128\n").unwrap();
    assert_eq!(v, vec![StorageEntry { name: "nfc".into(), is_dir: false, size: 128 }]);
    assert!(matches!(cli_listing(&[0xc3]), Err(FlipperError::Parse(_))));
}

#[test]
fn listing_rows_are_tab_separated() {
    let d = StorageEntry { name: "ext".into(), is_dir: true, size: 4096 };
    let f = StorageEntry { name: "Manifest".into(), is_dir: false, size: 24 };
    assert_eq!(listing_row(&d), "d\t4096\text");
    assert_eq!(listing_row(&f), "f\t24\tManifest");
}

#[test]
fn stat_report_has_three_lines() {
    let s = FileStat { path: "/ext".into(), size_bytes: 0, is_dir: true };
    assert_eq!(
        stat_report(&s),
        vec!["path:   /ext".to_string(), "size:   0 bytes".to_string(), "type:   dir".to_string()]
    );
    let f = FileStat { path: "/ext/Manifest".into(), size_bytes: 24, is_dir: false };
    assert_eq!(stat_report(&f)[2], "type:   file");
}

#[test]
fn only_y_confirms() {
    assert!(confirmed("y\n"));
    assert!(confirmed("  Y "));
    assert!(!confirmed("yes\n"));
    assert!(!confirmed("\n"));
    assert!(!confirmed("n"));
}
