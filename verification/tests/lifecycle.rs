use boreal::database::inventory::InventorySummary;
use boreal::database::settings::InventorySettings;
use boreal::metadata::{
    add_drive_summary, completion_state, managers_phase, plan_metadata_update, scanning_phase, MetadataJob,
    RcloneState,
};
use boreal::rclone::RcloneStatus;
use boreal::views::{scope_progress_views, MetadataState, MetadataUpdateSelection};

fn settings(sheet_enabled: bool, url: &str) -> InventorySettings {
    let mut s = InventorySettings::defaults("/home/person".to_string());
    s.directory_sheet_enabled = sheet_enabled;
    s.directory_sheet_url = url.to_string();
    s
}

fn selection(directory_info: bool) -> MetadataUpdateSelection {
    MetadataUpdateSelection { my_drive: true, shared_drives: false, shared_with_me: false, directory_info }
}

fn ready() -> RcloneState {
    RcloneState::Ready(RcloneStatus { path: "/opt/rclone".to_string(), version: "rclone v1".to_string(), gui_url: None })
}

#[test]
fn one_metadata_update_at_a_time() {
    let mut job = MetadataJob::new();
    assert!(job.try_begin());
    assert!(!job.try_begin());
    job.finish();
    assert!(job.try_begin());
}

#[test]
fn refuses_updates_in_order() {
    let mut job = MetadataJob::new();
    let none = MetadataUpdateSelection { my_drive: false, shared_drives: false, shared_with_me: false, directory_info: false };
    assert_eq!(
        plan_metadata_update(none, &mut job, Ok(()), &ready(), Ok(settings(false, "")), true).err().unwrap(),
        "Select at least one metadata source"
    );
    assert!(!job.active());
    assert_eq!(
        plan_metadata_update(selection(false), &mut job, Ok(()), &RcloneState::Initializing, Ok(settings(false, "")), true)
            .err()
            .unwrap(),
        "Rclone is not ready"
    );
    assert!(!job.active());
    assert_eq!(
        plan_metadata_update(selection(true), &mut job, Ok(()), &ready(), Ok(settings(true, "  ")), true).err().unwrap(),
        "Directory Info requires a configured directory spreadsheet URL"
    );
    let plan = plan_metadata_update(selection(true), &mut job, Ok(()), &ready(), Ok(settings(true, " https://sheet ")), false)
        .expect("update should start");
    assert_eq!(plan.directory_sheet_url.as_deref(), Some("https://sheet"));
    assert_eq!(plan.rclone_path, "/opt/rclone");
    assert!(job.active());
    assert_eq!(
        plan_metadata_update(selection(false), &mut job, Ok(()), &ready(), Ok(settings(false, "")), true).err().unwrap(),
        "A metadata update is already running"
    );
    assert!(job.active());
}

#[test]
fn scanning_phases_read_back_as_progress() {
    assert_eq!(scanning_phase(1, 4, "Research: Lab"), "Scanning Shared Drive 2 of 4: Research: Lab");
    assert_eq!(managers_phase(0, 3, "Ops"), "Fetching Shared Drive managers 1 of 3: Ops");
    let selection = MetadataUpdateSelection { my_drive: false, shared_drives: true, shared_with_me: false, directory_info: false };
    let state = boreal::metadata::progress_state(selection, scanning_phase(1, 4, "of of"), 0, 0, 0, 0, 0);
    let views = scope_progress_views(&state, &[None, None, None, None]);
    assert_eq!(views[3].percent, 50);
}

#[test]
fn completion_reflects_the_my_drive_summary() {
    let summary = InventorySummary {
        completed_at: "2026-08-30 12:00:00".to_string(),
        files_scanned: 1,
        folders_scanned: 2,
        permissions_scanned: 3,
        bytes_discovered: 4,
        deleted_items: 0,
    };
    assert!(matches!(completion_state(Ok(summary.clone())), MetadataState::Synchronized(s) if s.files_scanned == 1));
    let mut empty = summary.clone();
    empty.completed_at = String::new();
    assert!(matches!(completion_state(Ok(empty)), MetadataState::NotSynchronized));
    assert!(matches!(completion_state(Err("offline".to_string())), MetadataState::Error(m) if m == "offline"));
    let doubled = add_drive_summary(&summary, &summary);
    assert_eq!(doubled.files_scanned, 2);
    let mut huge = summary.clone();
    huge.bytes_discovered = u64::MAX;
    assert_eq!(add_drive_summary(&huge, &summary).bytes_discovered, u64::MAX);
}
