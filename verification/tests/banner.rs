use flipper_tui::error::FlipperError;
use flipper_tui::info::Info;

const SAMPLE: &str = "\
\x1b[38;2;255;130;0m\n\
              _.-------.._                    -,\n\
\r\n\
\x1b[97mWelcome to Flipper Zero Command Line Interface!\n\
\r\n\
\x1b[0m\n\
Firmware version: mntm-012 mntm-012 (e1784e74 built on 31-12-2025)\n\
\r\n\
>: help\n";

#[test]
fn parse_extracts_firmware_version_from_banner() {
    let info = Info::parse(SAMPLE).expect("parse");
    assert_eq!(info.firmware_branch, "mntm-012");
    assert_eq!(info.firmware_commit, "e1784e74");
    assert_eq!(info.firmware_build_date, "31-12-2025");
    assert_eq!(info.firmware_version, "mntm-012 e1784e74");
}

#[test]
fn parse_errors_without_firmware_line() {
    let err = Info::parse("just some text\n").unwrap_err();
    assert!(matches!(err, FlipperError::Parse(_)));
}

#[test]
fn parse_errors_on_malformed_firmware_line() {
    // No parentheses: the parser rejects the line.
    let err = Info::parse("Firmware version: mntm-012 mntm-012\n").unwrap_err();
    assert!(matches!(err, FlipperError::Parse(_)));
}
