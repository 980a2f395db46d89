use flipper_tui::backup::{backup_status, BackupState};
use flipper_tui::error::{FlipperError, TransportError};
use flipper_tui::storage::{hex_encode, parse_stat, parse_stat_reply, StatFlags};
use flipper_tui::updates::{check_outcome, UpdateState};

#[test]
fn stat_parses_dir() {
    let st = parse_stat_reply(b"type: dir\nsize: 0\n", "/ext").unwrap();
    assert!(st.is_dir);
    assert_eq!(st.path, "/ext");
}

#[test]
fn stat_parses_file_size_and_case() {
    let st = parse_stat("type: FILE\nsize: 4096\n", "/ext/Manifest");
    assert!(!st.is_dir);
    assert_eq!(st.size_bytes, 4096);
    let st = parse_stat("type: DIR\nsize: nope\n", "/x");
    assert!(st.is_dir);
    assert_eq!(st.size_bytes, 0);
    // The last value of a key wins; lines without `:` are skipped.
    let st = parse_stat("size: 1\nnoise\nsize: 2\n", "/x");
    assert_eq!(st.size_bytes, 2);
}

#[test]
fn stat_reply_that_is_not_utf8_is_a_parse_error() {
    let err = parse_stat_reply(&[0x74, 0xff], "/ext").unwrap_err();
    match err {
        FlipperError::Parse(m) => assert!(m.starts_with("storage stat not utf-8: "), "{m}"),
        other => panic!("expected Parse, got {other:?}"),
    }
}

#[test]
fn stat_flags_default_follows_no_symlinks() {
    assert!(!StatFlags::default().follow_symlinks);
}

#[test]
fn write_payload_is_lower_hex() {
    assert_eq!(hex_encode(b"hello"), "68656c6c6f");
    assert_eq!(hex_encode(&[0x00, 0x0f, 0xa0, 0xff]), "000fa0ff");
    assert_eq!(hex_encode(&[]), "");
}

#[test]
fn request_backup_returns_pending_on_ok() {
    let s = backup_status(b"ok", "/ext/backups");
    assert_eq!(s.state, BackupState::Pending);
    assert_eq!(s.destination, "/ext/backups");
    let s = backup_status(b"ok\r\n> ", "/ext/backups");
    assert_eq!(s.state, BackupState::Pending);
}

#[test]
fn request_backup_returns_failed_when_device_rejects() {
    let s = backup_status(b"nok: out of space", "/ext/backups");
    assert_eq!(s.state, BackupState::Failed);
    assert_eq!(backup_status(b"", "/d").state, BackupState::Failed);
    assert_eq!(backup_status(b"okay", "/d").state, BackupState::Failed);
    assert_eq!(backup_status(&[0x6f, 0x6b, 0xff], "/d").state, BackupState::Failed);
}

#[test]
fn update_check_is_unsupported_unless_the_transport_fails() {
    let sent: Result<Vec<u8>, TransportError> = Ok(b"whatever".to_vec());
    assert_eq!(check_outcome(sent), Ok(UpdateState::NotSupported));
    let failed: Result<Vec<u8>, TransportError> = Err(TransportError::NotConnected);
    assert_eq!(
        check_outcome(failed),
        Err(FlipperError::Transport(TransportError::NotConnected))
    );
}

#[test]
fn error_messages_match_their_display() {
    assert_eq!(
        FlipperError::Parse("x".to_string()).message(),
        "protocol parse error: x"
    );
    assert_eq!(FlipperError::NotConnected.message(), "device is not connected; call hello() first");
    assert_eq!(
        FlipperError::Unsupported("update").message(),
        "unsupported operation on this firmware: update"
    );
    assert_eq!(
        FlipperError::Transport(TransportError::Serial("busy".to_string())).message(),
        "transport error: serial error: busy"
    );
    assert_eq!(FlipperError::Io("gone".to_string()).message(), "io error: gone");
    assert_eq!(
        TransportError::Rejected("no".to_string()).message(),
        "command rejected by device: no"
    );
    assert_eq!(TransportError::InvalidFrame("f".to_string()).message(), "invalid frame: f");
    assert_eq!(TransportError::Io("e".to_string()).message(), "i/o error: e");
}
