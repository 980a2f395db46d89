use flipper_tui::transport::{
    choose_endpoint, command_line, flipper_endpoints, idle_gap_ms, poll_step, PollStep, POLL_INTERVAL_MS, quiet_after_timeout,
    read_window_over, strip_prompts, PortInfo, ReadStep, ReadWindow, UsbPortInfo, FIRST_IDLE_GAP_MS, IDLE_GAP_MS,
    READ_TIMEOUT_MS,
};

#[test]
fn command_line_joins_args_with_spaces_and_ends_with_newline() {
    assert_eq!(command_line("storage list", &["/ext"]), "storage list /ext\n");
    assert_eq!(command_line("device_info", &[]), "device_info\n");
    assert_eq!(command_line("storage rename", &["/a", "/b"]), "storage rename /a /b\n");
    assert_eq!(command_line("", &[]), "\n");
}

#[test]
fn strip_prompts_drops_every_trailing_prompt() {
    let mut v = b"hello\r\n> > ".to_vec();
    strip_prompts(&mut v);
    assert_eq!(v, b"hello\r\n".to_vec());
    let mut w = b"> x".to_vec();
    strip_prompts(&mut w);
    assert_eq!(w, b"> x".to_vec());
    let mut e: Vec<u8> = Vec::new();
    strip_prompts(&mut e);
    assert!(e.is_empty());
}

#[test]
fn first_command_waits_for_the_banner() {
    assert_eq!(idle_gap_ms(true), FIRST_IDLE_GAP_MS);
    assert_eq!(idle_gap_ms(false), IDLE_GAP_MS);
    assert_eq!(IDLE_GAP_MS, 1500);
    assert_eq!(FIRST_IDLE_GAP_MS, 8000);
}

#[test]
fn read_window_rules() {
    // The hard cap ends every window.
    assert!(read_window_over(READ_TIMEOUT_MS, 0, true, 1500));
    // Nothing yet: wait the whole gap from the start.
    assert!(!read_window_over(1000, 1000, false, 1500));
    assert!(read_window_over(1500, 1500, false, 1500));
    // Bytes arrived: the gap counts from the last one.
    assert!(!read_window_over(4000, 100, true, 1500));
    assert!(read_window_over(4000, 1500, true, 1500));
    assert!(quiet_after_timeout(1500, true, 1500));
    assert!(!quiet_after_timeout(1500, false, 1500));
    assert!(!quiet_after_timeout(10, true, 1500));
}

#[test]
fn polls_every_quarter_second_until_a_flipper_appears() {
    assert_eq!(POLL_INTERVAL_MS, 250);
    match poll_step(&Vec::new()) {
        PollStep::Wait(ms) => assert_eq!(ms, 250),
        other => panic!("expected a wait, got {other:?}"),
    }
    let found = vec![endpoint("/dev/ttyACM0"), endpoint("/dev/ttyACM1")];
    match poll_step(&found) {
        PollStep::Found(e) => assert_eq!(e, endpoint("/dev/ttyACM0")),
        other => panic!("expected a device, got {other:?}"),
    }
}

fn usb(name: &str, vid: u16, pid: u16, serial: Option<&str>) -> PortInfo {
    PortInfo {
        port_name: name.to_string(),
        usb: Some(UsbPortInfo { vid, pid, serial_number: serial.map(|s| s.to_string()) }),
    }
}

#[test]
fn only_flipper_usb_ports_are_endpoints() {
    let ports = vec![
        PortInfo { port_name: "/dev/ttyS0".to_string(), usb: None },
        usb("/dev/ttyACM0", 0x0483, 0x5740, Some("flip_R3llow4n1")),
        usb("/dev/ttyUSB0", 0x1a86, 0x7523, Some("x")),
        usb("/dev/ttyACM1", 0x0483, 0xdf11, Some("")),
    ];
    let eps = flipper_endpoints(&ports);
    assert_eq!(eps.len(), 2);
    assert_eq!(eps[0].path, "/dev/ttyACM0");
    assert_eq!(eps[0].vid, 0x0483);
    assert_eq!(eps[0].pid, 0x5740);
    assert_eq!(eps[0].label, Some("flip_R3llow4n1".to_string()));
    assert_eq!(eps[1].path, "/dev/ttyACM1");
    assert_eq!(eps[1].label, None);
}

#[test]
fn detect_returns_no_panic_when_no_flipper() {
    let eps = flipper_endpoints(&Vec::new());
    assert!(eps.is_empty());
}

#[test]
fn read_window_collects_chunks_and_strips_prompts() {
    let mut w = ReadWindow::open(false);
    assert_eq!(w.gap_ms, IDLE_GAP_MS);
    assert_eq!(w.next_step(0, 0), ReadStep::Read);
    // Nothing yet: a timeout does not end the window.
    assert_eq!(w.on_timeout(5000), ReadStep::Read);
    assert_eq!(w.on_read(b"hello\r\n"), ReadStep::Read);
    assert_eq!(w.on_read(b"> "), ReadStep::Read);
    assert_eq!(w.next_step(2000, 100), ReadStep::Read);
    assert_eq!(w.next_step(2000, 1500), ReadStep::Finish);
    assert_eq!(w.on_timeout(1500), ReadStep::Finish);
    assert_eq!(w.on_read(b""), ReadStep::Finish);
    assert_eq!(w.reply(), b"hello\r\n".to_vec());
}

#[test]
fn first_read_window_waits_longer() {
    let w = ReadWindow::open(true);
    assert_eq!(w.gap_ms, FIRST_IDLE_GAP_MS);
    assert_eq!(w.next_step(7999, 7999), ReadStep::Read);
    assert_eq!(w.next_step(8000, 8000), ReadStep::Finish);
}

fn endpoint(path: &str) -> flipper_tui::transport::DeviceEndpoint {
    flipper_tui::transport::DeviceEndpoint {
        path: path.to_string(),
        vid: 0x0483,
        pid: 0xdf11,
        label: Some("x".to_string()),
    }
}

#[test]
fn choose_endpoint_prefers_the_asked_path() {
    let eps = vec![endpoint("/dev/ttyACM0"), endpoint("/dev/ttyACM1")];
    assert_eq!(choose_endpoint(&eps, Some("/dev/ttyACM1")), Some(endpoint("/dev/ttyACM1")));
    assert_eq!(choose_endpoint(&eps, None), Some(endpoint("/dev/ttyACM0")));
}

#[test]
fn choose_endpoint_assumes_a_normal_mode_flipper_at_an_unknown_path() {
    let eps = vec![endpoint("/dev/ttyACM0")];
    let e = choose_endpoint(&eps, Some("/dev/cu.usbmodemflip")).unwrap();
    assert_eq!(e.path, "/dev/cu.usbmodemflip");
    assert_eq!(e.vid, 0x0483);
    assert_eq!(e.pid, 0x5740);
    assert_eq!(e.label, None);
    assert_eq!(choose_endpoint(&Vec::new(), None), None);
}
