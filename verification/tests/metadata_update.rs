use boreal::database::inventory::InventorySummary;
use boreal::metadata::{
    metadata_update_step, update_progress, update_start, UpdateAction, UpdateEvent, UpdatePlan, UpdateStage,
    UpdateStep,
};
use boreal::views::{MetadataState, MetadataUpdateSelection};

fn plan(my_drive: bool, shared_drives: bool, shared_with_me: bool, sheet: bool, permissions: bool) -> UpdatePlan {
    UpdatePlan {
        selection: MetadataUpdateSelection { my_drive, shared_drives, shared_with_me, directory_info: sheet },
        rclone_path: "/usr/bin/rclone".to_string(),
        directory_sheet_url: if sheet { Some("https://docs.google.com/spreadsheets/d/x".to_string()) } else { None },
        permission_scanning: permissions,
    }
}

fn summary(completed_at: &str, files: u64, folders: u64, bytes: u64) -> InventorySummary {
    InventorySummary {
        completed_at: completed_at.to_string(),
        files_scanned: files,
        folders_scanned: folders,
        permissions_scanned: 0,
        bytes_discovered: bytes,
        deleted_items: 0,
    }
}

fn step(plan: &UpdatePlan, stage: UpdateStage, event: UpdateEvent) -> (UpdateStage, UpdateAction) {
    metadata_update_step(plan, stage, event)
}

#[test]
fn a_full_update_takes_its_steps_in_order() {
    let p = plan(true, true, true, false, true);
    let (s, a) = step(&p, update_start(), UpdateEvent::Begin);
    assert!(matches!(a, UpdateAction::CheckAccount));
    let (s, a) = step(&p, s, UpdateEvent::Unavailable("offline".to_string()));
    assert!(matches!(a, UpdateAction::FetchMyDrive));
    let (s, a) = step(&p, s, UpdateEvent::Listed { files: 3, folders: 1, bytes: 42 });
    assert!(matches!(a, UpdateAction::DiscoverDrives));
    assert_eq!((s.files, s.folders, s.bytes), (3, 1, 42));
    let (s, a) = step(&p, s, UpdateEvent::Discovered(2));
    assert!(matches!(a, UpdateAction::FetchDriveManagers(0)));
    let (s, a) = step(&p, s, UpdateEvent::Unavailable("no access".to_string()));
    assert!(matches!(a, UpdateAction::FetchDriveManagers(1)));
    assert_eq!(s.drive_errors, 1);
    let (s, a) = step(&p, s, UpdateEvent::Done);
    assert!(matches!(a, UpdateAction::ScanDrive(0)));
    let (s, a) = step(&p, s, UpdateEvent::DriveScanned(summary("", 5, 2, 100)));
    assert!(matches!(a, UpdateAction::RecordDriveScan(0, _)));
    assert_eq!((s.drive_files, s.drive_folders, s.drive_bytes), (5, 2, 100));
    let (s, a) = step(&p, s, UpdateEvent::Done);
    assert!(matches!(a, UpdateAction::ScanDrive(1)));
    let (s, a) = step(&p, s, UpdateEvent::Unavailable("listing failed".to_string()));
    match &a {
        UpdateAction::RecordDriveFailure(1, message) => assert_eq!(message, "listing failed"),
        other => panic!("unexpected {other:?}"),
    }
    assert_eq!(s.drive_errors, 2);
    let (s, a) = step(&p, s, UpdateEvent::Done);
    assert!(matches!(a, UpdateAction::AggregateDrives));
    let (s, a) = step(&p, s, UpdateEvent::Done);
    assert!(matches!(a, UpdateAction::FetchSharedWithMe));
    let (s, a) = step(&p, s, UpdateEvent::Done);
    assert!(matches!(a, UpdateAction::SaveMyDrive(true)));
    let (s, a) = step(&p, s, UpdateEvent::Saved(summary("2026-01-02 03:04:05", 3, 1, 42)));
    assert!(matches!(a, UpdateAction::SaveSharedWithMe(true)));
    let (s, a) = step(&p, s, UpdateEvent::Saved(summary("2026-01-02 03:04:06", 9, 9, 9)));
    assert!(matches!(a, UpdateAction::Finish));
    assert_eq!(s.step, UpdateStep::Finished);
    match update_progress(&p, &s, "") {
        Some(MetadataState::Synchronized(m)) => {
            assert_eq!(m.completed_at, "2026-01-02 03:04:05");
            assert_eq!((m.files_scanned, m.folders_scanned, m.bytes_discovered), (3, 1, 42));
        }
        other => panic!("unexpected {other:?}"),
    }
}

#[test]
fn a_directory_only_update_reads_the_sheet_then_the_latest_inventories() {
    let p = plan(false, false, false, true, false);
    let (s, _) = step(&p, update_start(), UpdateEvent::Begin);
    let (s, a) = step(&p, s, UpdateEvent::Done);
    assert!(matches!(a, UpdateAction::SaveAccount));
    let (s, a) = step(&p, s, UpdateEvent::Done);
    assert!(matches!(a, UpdateAction::DownloadDirectory));
    match update_progress(&p, &s, "") {
        Some(MetadataState::Updating(progress)) => assert_eq!(progress.phase, "Downloading directory spreadsheet"),
        other => panic!("unexpected {other:?}"),
    }
    let (s, a) = step(&p, s, UpdateEvent::Unavailable("HTTP 403".to_string()));
    assert!(matches!(a, UpdateAction::RecordDirectoryFailure(_)));
    let (s, a) = step(&p, s, UpdateEvent::Done);
    assert!(matches!(a, UpdateAction::SaveMyDrive(false)));
    assert!(update_progress(&p, &s, "").is_none());
    let (s, a) = step(&p, s, UpdateEvent::Saved(summary("", 0, 0, 0)));
    assert!(matches!(a, UpdateAction::SaveSharedWithMe(false)));
    let (s, a) = step(&p, s, UpdateEvent::Saved(summary("", 0, 0, 0)));
    assert!(matches!(a, UpdateAction::Finish));
    assert!(matches!(update_progress(&p, &s, ""), Some(MetadataState::NotSynchronized)));
}

#[test]
fn a_fatal_event_fails_the_update_and_its_scan_runs() {
    let p = plan(true, false, false, false, false);
    let (s, _) = step(&p, update_start(), UpdateEvent::Begin);
    let (s, _) = step(&p, s, UpdateEvent::Unavailable("offline".to_string()));
    let (s, a) = step(&p, s, UpdateEvent::Fatal("Rclone my-drive inventory failed".to_string()));
    match &a {
        UpdateAction::FailRuns(message) => assert_eq!(message, "Rclone my-drive inventory failed"),
        other => panic!("unexpected {other:?}"),
    }
    assert_eq!(s.step, UpdateStep::Failed);
    match update_progress(&p, &s, "") {
        Some(MetadataState::Error(message)) => assert_eq!(message, "Rclone my-drive inventory failed"),
        other => panic!("unexpected {other:?}"),
    }
    let (_, a) = step(&p, s, UpdateEvent::Done);
    assert!(matches!(a, UpdateAction::Wait));
}

#[test]
fn scanning_a_shared_drive_shows_its_position_and_totals() {
    let p = plan(false, true, false, false, false);
    let (s, _) = step(&p, update_start(), UpdateEvent::Begin);
    let (s, _) = step(&p, s, UpdateEvent::Unavailable("offline".to_string()));
    let (s, a) = step(&p, s, UpdateEvent::Discovered(5));
    assert!(matches!(a, UpdateAction::ScanDrive(0)));
    let (s, _) = step(&p, s, UpdateEvent::DriveScanned(summary("", 4, 1, 10)));
    let (s, a) = step(&p, s, UpdateEvent::Done);
    assert!(matches!(a, UpdateAction::ScanDrive(1)));
    match update_progress(&p, &s, "Research") {
        Some(MetadataState::Updating(progress)) => {
            assert_eq!(progress.phase, "Scanning Shared Drive 2 of 5: Research");
            assert_eq!((progress.files_scanned, progress.bytes_discovered), (4, 10));
        }
        other => panic!("unexpected {other:?}"),
    }
}
