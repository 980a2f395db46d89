use flipper_tui::error::TransportError;
use flipper_tui::mock::MockRegistry;
use flipper_tui::transport::{ping_result, CommandResult};

#[test]
fn not_connected_rejects_send() {
    let mut tx = MockRegistry::new();
    let err = tx.dispatch("device_info", &[]).unwrap_err();
    assert!(matches!(err, TransportError::NotConnected));
    assert!(tx.call_log().is_empty());
}

#[test]
fn handler_dispatched_and_logged() {
    let mut tx = MockRegistry::new();
    tx.on("device_info", 3);
    tx.connect();
    assert_eq!(tx.dispatch("device_info", &["/ext"]), Ok(3));
    assert_eq!(
        tx.call_log(),
        vec![("device_info".to_string(), vec!["/ext".to_string()])]
    );
}

#[test]
fn unhandled_command_errors() {
    let mut tx = MockRegistry::new();
    tx.connect();
    let err = tx.dispatch("nope", &[]).unwrap_err();
    assert_eq!(err, TransportError::MockUnhandled("nope".to_string()));
    assert_eq!(
        err.message(),
        "mock transport: no handler registered for command nope"
    );
    // An unanswered command is still logged.
    assert_eq!(tx.call_log().len(), 1);
}

#[test]
fn ping_succeeds_when_device_replies_with_bytes() {
    let reply = CommandResult::ok(b"any-bytes".to_vec());
    ping_result(&reply).expect("ping should succeed");
}

#[test]
fn ping_errors_when_device_returns_empty_reply() {
    let reply = CommandResult::ok(Vec::new());
    let err = ping_result(&reply).unwrap_err();
    assert_eq!(err, TransportError::Io("ping: empty reply".to_string()));
}

#[test]
fn persistent_handler_answers_every_time() {
    let mut tx = MockRegistry::new();
    tx.on("storage list", 1);
    tx.connect();
    assert_eq!(tx.dispatch("storage list", &["/ext"]), Ok(1));
    assert_eq!(tx.dispatch("storage list", &["/ext"]), Ok(1));
    assert_eq!(tx.call_log().len(), 2);
}

#[test]
fn one_shot_handler_answers_once() {
    let mut tx = MockRegistry::new();
    tx.one_shot("backup", 2);
    tx.connect();
    assert_eq!(tx.dispatch("backup", &["/ext/backups"]), Ok(2));
    assert_eq!(
        tx.dispatch("backup", &["/ext/backups"]),
        Err(TransportError::MockUnhandled("backup".to_string()))
    );
}

#[test]
fn re_registering_replaces_the_handler() {
    let mut tx = MockRegistry::new();
    tx.on("device_info", 1);
    tx.on("device_info", 5);
    tx.connect();
    assert_eq!(tx.dispatch("device_info", &[]), Ok(5));
}

#[test]
fn disconnect_refuses_and_logs_nothing() {
    let mut tx = MockRegistry::new();
    tx.on("device_info", 0);
    tx.connect();
    assert!(tx.is_connected());
    tx.disconnect();
    assert!(!tx.is_connected());
    assert_eq!(tx.dispatch("device_info", &[]), Err(TransportError::NotConnected));
    assert!(tx.call_log().is_empty());
    tx.connect();
    assert_eq!(tx.dispatch("device_info", &[]), Ok(0));
}

#[test]
fn command_result_with_status_keeps_the_response() {
    let r = CommandResult::ok(b"x".to_vec()).with_status("done".to_string());
    assert_eq!(r.response, b"x".to_vec());
    assert_eq!(r.status, Some("done".to_string()));
}

#[test]
fn catch_all_answers_any_command_without_its_own_handler() {
    let mut tx = MockRegistry::new();
    tx.on_any(7);
    tx.on("device_info", 1);
    tx.connect();
    assert_eq!(tx.dispatch("device_info", &[]), Ok(1));
    assert_eq!(tx.dispatch("storage list", &["/ext"]), Ok(7));
    assert_eq!(tx.dispatch("anything", &[]), Ok(7));
}

#[test]
fn one_shot_fails_on_every_later_send() {
    let mut tx = MockRegistry::new();
    tx.one_shot("x", 0);
    tx.on("y", 1);
    tx.connect();
    assert_eq!(tx.dispatch("x", &["a"]), Ok(0));
    for _ in 0..3 {
        assert_eq!(tx.dispatch("x", &["a"]), Err(TransportError::MockUnhandled("x".to_string())));
        assert_eq!(tx.dispatch("y", &["a"]), Ok(1));
    }
    assert_eq!(tx.call_log().len(), 7);
    assert_eq!(tx.call_log()[6], ("y".to_string(), vec!["a".to_string()]));
}
