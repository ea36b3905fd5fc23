use boreal::metadata::{GoogleClientConfig, GoogleClientState, GoogleRemotesState, RcloneState};
use boreal::rclone::remotes::RemoteState;
use boreal::rclone::RcloneStatus;
use boreal::setup::{build_alerts, build_setup_progress, remote_state_class, remote_state_label};

fn client() -> GoogleClientState {
    GoogleClientState::Ready(GoogleClientConfig {
        client_id: "id.apps.googleusercontent.com".to_string(),
        client_secret: "SECRET-REDACTED".to_string(),
        project_id: None,
    })
}

#[test]
fn raises_alerts_for_setup_problems() {
    let alerts = build_alerts(&RcloneState::Error("boom".to_string()), &GoogleClientState::NotConfigured, true);
    assert_eq!(alerts.len(), 3);
    assert_eq!(alerts[0].dismiss_action, "/settings/bookmark-reminder/dismiss");
    assert_eq!(alerts[1].message, "Rclone initialization failed: boom");
    assert_eq!(alerts[2].modal_target, "googleClientSetupModal");
    let ready = RcloneState::Ready(RcloneStatus { path: "/r".to_string(), version: "rclone v1.70".to_string(), gui_url: None });
    assert!(build_alerts(&ready, &client(), false).is_empty());
}

#[test]
fn setup_progress_counts_quarters() {
    let ready = RcloneState::Ready(RcloneStatus { path: "/r".to_string(), version: "rclone v1.70".to_string(), gui_url: None });
    let remotes = GoogleRemotesState { rw: RemoteState::NotConfigured, ro: RemoteState::NotConfigured };
    let (steps, percent) = build_setup_progress(&ready, &client(), &remotes, false);
    assert_eq!(steps.len(), 3);
    assert_eq!(steps[0].description, "rclone v1.70 is installed and ready.");
    assert!(!steps[2].disabled);
    assert_eq!(steps[2].action, "/setup/remotes/my-drive-ro");
    assert_eq!(percent, 50);
    let done = GoogleRemotesState { rw: RemoteState::NotConfigured, ro: RemoteState::Ready };
    let (steps, percent) = build_setup_progress(&ready, &client(), &done, true);
    assert!(steps[2].disabled);
    assert_eq!(percent, 100);
    let (steps, percent) = build_setup_progress(&RcloneState::Initializing, &GoogleClientState::NotConfigured, &remotes, false);
    assert!(steps[2].disabled);
    assert_eq!(percent, 0);
}

#[test]
fn labels_remote_states() {
    assert_eq!(remote_state_label(&RemoteState::Waiting), "Not ready");
    assert_eq!(remote_state_class(&RemoteState::Waiting), "text-bg-warning");
    assert_eq!(remote_state_label(&RemoteState::Conflict("x".to_string())), "Conflict");
    assert_eq!(remote_state_class(&RemoteState::NotConfigured), "text-bg-secondary");
}
