use flipper_tui::protocol::parse_storage_list;

const SAMPLE: &str = "\
        [D] ext         4096\n\
        [F] Manifest       24\n\
        [F] nfc          128\n";

#[test]
fn parse_storage_list_extracts_dirs_and_files() {
    let entries = parse_storage_list(SAMPLE.as_bytes()).unwrap();
    assert_eq!(entries.len(), 3);
    assert!(entries[0].is_dir);
    assert_eq!(entries[0].name, "ext");
    assert_eq!(entries[0].size, 4096);
    assert!(!entries[1].is_dir);
    assert_eq!(entries[1].name, "Manifest");
    assert_eq!(entries[1].size, 24);
}

#[test]
fn parse_storage_list_ignores_blank_lines() {
    let entries = parse_storage_list(b"\n\n[D] ext  0\n").unwrap();
    assert_eq!(entries.len(), 1);
}

#[test]
fn joined_replies_list_both_in_order() {
    let a: &[u8] = b"[D] ext 4096\r\n\n";
    let b: &[u8] = b"junk\n[F] Manifest 24";
    let mut joined = a.to_vec();
    joined.push(b'\n');
    joined.extend_from_slice(b);
    let mut expected = parse_storage_list(a).unwrap();
    expected.extend(parse_storage_list(b).unwrap());
    assert_eq!(parse_storage_list(&joined).unwrap(), expected);
    assert_eq!(expected.len(), 2);
}
