use flipper_tui::info::Info;
use flipper_tui::updates::{UpdateState, UpdateStatus};

fn sample_info() -> Info {
    Info {
        firmware_version: "mntm-012 e1784e74".into(),
        firmware_branch: "mntm-012".into(),
        firmware_commit: "e1784e74".into(),
        firmware_build_date: "31-12-2025".into(),
    }
}

#[test]
fn unsupported_status_holds_installed_metadata() {
    let status = UpdateStatus::unsupported(sample_info());
    assert_eq!(status.installed.firmware_branch, "mntm-012");
    assert_eq!(status.installed.firmware_commit, "e1784e74");
    assert_eq!(status.state, UpdateState::NotSupported);
}

#[test]
fn new_status_with_explicit_state() {
    let info = sample_info();
    let status = UpdateStatus::new(info.clone(), UpdateState::NoUpdates);
    assert_eq!(status.state, UpdateState::NoUpdates);
    assert_eq!(status.installed, info);
}

#[test]
fn update_available_carries_branch_and_version() {
    let info = sample_info();
    let status = UpdateStatus::new(
        info,
        UpdateState::UpdateAvailable {
            branch: "release".into(),
            target_version: "Momentum v1.5.0 JAN 2026".into(),
        },
    );
    match status.state {
        UpdateState::UpdateAvailable {
            branch,
            target_version,
        } => {
            assert_eq!(branch, "release");
            assert_eq!(target_version, "Momentum v1.5.0 JAN 2026");
        }
        other => panic!("expected UpdateAvailable, got {other:?}"),
    }
}

#[test]
fn error_state_carries_message() {
    let info = sample_info();
    let status = UpdateStatus::new(info, UpdateState::Error("network down".into()));
    match status.state {
        UpdateState::Error(msg) => assert_eq!(msg, "network down"),
        other => panic!("expected Error, got {other:?}"),
    }
}
