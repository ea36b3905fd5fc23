use boreal::metadata::{GoogleClientConfig, GoogleClientState, GoogleRemotesState, RcloneState};
use boreal::rclone::remotes::RemoteState;
use boreal::rclone::RcloneStatus;
use boreal::status::{
    boreal_version_label, build_status_items, rclone_gui_url, should_poll_rclone, should_poll_setup, should_poll_ui,
    UpdateState,
};
use boreal::views::{DownloadState, MetadataProgress, MetadataState, MetadataSummary, MetadataUpdateSelection};

fn ready(gui_url: Option<&str>) -> RcloneState {
    RcloneState::Ready(RcloneStatus {
        path: "/opt/rclone".to_string(),
        version: "rclone v1.71.0".to_string(),
        gui_url: gui_url.map(str::to_string),
    })
}

fn remotes(ro: RemoteState) -> GoogleRemotesState {
    GoogleRemotesState { rw: RemoteState::Ready, ro }
}

fn updating() -> MetadataState {
    MetadataState::Updating(MetadataProgress {
        selection: MetadataUpdateSelection { my_drive: true, shared_drives: false, shared_with_me: false, directory_info: false },
        phase: "Scanning My Drive".to_string(),
        files_scanned: 0,
        folders_scanned: 0,
        permissions_scanned: 0,
        bytes_discovered: 0,
        errors: 0,
    })
}

#[test]
fn status_version_includes_release_maturity() {
    assert_eq!(boreal_version_label("0.4.2", "beta"), "v0.4.2 (beta)");
}

#[test]
fn builds_the_status_bar() {
    let client = GoogleClientState::Ready(GoogleClientConfig {
        client_id: "id".to_string(),
        client_secret: "s".to_string(),
        project_id: None,
    });
    let synchronized = MetadataState::Synchronized(MetadataSummary {
        completed_at: "2026-08-30 12:00:00".to_string(),
        files_scanned: 1,
        folders_scanned: 1,
        permissions_scanned: 1,
        bytes_discovered: 1,
    });
    let items = build_status_items(
        &DownloadState::Idle,
        &ready(Some("http://127.0.0.1:5572/")),
        &client,
        &remotes(RemoteState::Ready),
        &synchronized,
        2,
        "ada@example.edu".to_string(),
        &UpdateState::Available { version: "0.5.0".to_string() },
        "v0.4.2 (beta)",
    );
    assert_eq!(items.len(), 7);
    assert_eq!(items[0].value, "v1.71.0");
    assert_eq!(items[0].value_url, "http://127.0.0.1:5572/");
    assert_eq!(items[1].value, "ada@example.edu");
    assert_eq!(items[2].value, "Configured");
    assert_eq!(items[3].value, "2 configured");
    assert_eq!(items[3].value_class, "text-success");
    assert_eq!(items[4].value, "00:00:00");
    assert_eq!(items[4].age_timestamp, "2026-08-30 12:00:00");
    assert_eq!(items[5].value, "Idle");
    assert_eq!(items[6].value_class, "text-warning fw-semibold");
    assert_eq!(items[6].title, "BOREAL v0.5.0 is available");

    let waiting = build_status_items(
        &DownloadState::Idle,
        &RcloneState::Initializing,
        &GoogleClientState::NotConfigured,
        &remotes(RemoteState::Waiting),
        &updating(),
        0,
        String::new(),
        &UpdateState::Current,
        "v0.4.2 (beta)",
    );
    assert_eq!(waiting[0].value, "Initializing...");
    assert_eq!(waiting[0].value_url, "");
    assert_eq!(waiting[1].value, "Not verified");
    assert_eq!(waiting[2].value, "Not configured");
    assert_eq!(waiting[3].value, "0 configured");
    assert_eq!(waiting[3].value_class, "text-warning");
    assert_eq!(waiting[4].value, "Scanning My Drive");
    assert!(waiting[4].spinner);
    assert_eq!(waiting[6].title, "BOREAL is up to date. Open Update page.");
}

#[test]
fn polls_while_something_is_in_progress() {
    assert!(should_poll_rclone(&RcloneState::Initializing));
    assert!(!should_poll_rclone(&ready(None)));
    assert!(should_poll_setup(&ready(None), &remotes(RemoteState::Configuring)));
    assert!(!should_poll_setup(&ready(None), &remotes(RemoteState::Ready)));
    assert!(should_poll_ui(&ready(None), &remotes(RemoteState::Ready), &updating()));
    assert!(!should_poll_ui(&ready(None), &remotes(RemoteState::Ready), &MetadataState::NotSynchronized));
    assert_eq!(rclone_gui_url(&ready(None)), "");
}
