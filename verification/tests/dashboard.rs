use boreal::database::inventory::{InventorySummary, ScanTimingEstimate};
use boreal::desktop::boreal_icon_rgba;
use boreal::format::format_bytes;
use boreal::views::{
    build_download_status_item, build_metadata_view, is_boreal_instance_response, scope_progress_views,
    DownloadState, MetadataProgress, MetadataState, MetadataSummary, MetadataUpdateSelection,
    PERSONS_CSV_TEMPLATE,
};

fn selection(my_drive: bool, shared_drives: bool, shared_with_me: bool, directory_info: bool) -> MetadataUpdateSelection {
    MetadataUpdateSelection { my_drive, shared_drives, shared_with_me, directory_info }
}

fn progress(phase: &str, selected: MetadataUpdateSelection) -> MetadataProgress {
    MetadataProgress {
        selection: selected,
        phase: phase.to_string(),
        files_scanned: 500,
        folders_scanned: 75,
        permissions_scanned: 900,
        bytes_discovered: 8_000_000,
        errors: 0,
    }
}

#[test]
fn persons_csv_template_has_supported_import_columns() {
    assert_eq!(PERSONS_CSV_TEMPLATE, "name,email,organization,type,status,departure_date,notes\r\n");
}

#[test]
fn formats_dashboard_sizes_with_one_decimal_and_adaptive_units() {
    assert_eq!(format_bytes(2_208_400_000_000), "2.2 TB");
    assert_eq!(format_bytes(2_208_400_000), "2.2 GB");
    assert_eq!(format_bytes(2_208_400), "2.2 MB");
    assert_eq!(format_bytes(2_208), "2.2 KB");
    assert_eq!(format_bytes(208), "208 B");
}

#[test]
fn active_scope_progress_does_not_replace_my_drive_summary() {
    let my_drive = InventorySummary {
        completed_at: "2026-08-30 12:00:00".to_string(),
        files_scanned: 10,
        folders_scanned: 2,
        permissions_scanned: 15,
        bytes_discovered: 1_000,
        deleted_items: 0,
    };
    let state = MetadataState::Updating(progress(
        "Scanning Shared Drive 1 of 1: Research",
        selection(false, true, false, false),
    ));

    let view = build_metadata_view(&state, true, false, Some(&my_drive), None, None, 1);

    assert_eq!(view.files_scanned, 10);
    assert_eq!(view.folders_scanned, 2);
    assert_eq!(view.permissions_scanned, 15);
    assert_eq!(view.progress_files_scanned, 500);
    assert_eq!(view.progress_folders_scanned, 75);
    assert_eq!(view.progress_permissions_scanned, 900);
}

#[test]
fn download_status_item_reflects_background_state() {
    let running = build_download_status_item(&DownloadState::Running {
        item_name: "Research".to_string(),
        destination: "/tmp/Research".to_string(),
    });
    assert!(running.spinner);
    assert_eq!(running.value, "Downloading Research");

    let complete = build_download_status_item(&DownloadState::Complete {
        item_name: "Research".to_string(),
        destination: "/tmp/Research".to_string(),
    });
    assert!(!complete.spinner);
    assert_eq!(complete.value, "Complete: Research");
    assert_eq!(complete.value_class, "text-success");
}

#[test]
fn failed_downloads_name_the_item_when_known() {
    let named = build_download_status_item(&DownloadState::Error {
        item_name: "Research".to_string(),
        message: "disk full".to_string(),
    });
    assert_eq!(named.value, "Failed: Research");
    assert_eq!(named.value_class, "text-danger");
    let unnamed = build_download_status_item(&DownloadState::Error {
        item_name: String::new(),
        message: "disk full".to_string(),
    });
    assert_eq!(unnamed.value, "Failed");
    assert_eq!(build_download_status_item(&DownloadState::Idle).value, "Idle");
}

#[test]
fn synchronized_and_failed_states_label_the_card() {
    let done = MetadataState::Synchronized(MetadataSummary {
        completed_at: "2026-08-30 12:00:00".to_string(),
        files_scanned: 3,
        folders_scanned: 1,
        permissions_scanned: 4,
        bytes_discovered: 1_500,
    });
    let view = build_metadata_view(&done, true, false, None, None, None, 0);
    assert_eq!(view.state_label, "Synchronized");
    assert_eq!(view.state_class, "text-bg-success");
    assert_eq!(view.size_label, "1.5 KB");
    assert_eq!(view.completed_at, "2026-08-30 12:00:00");
    assert!(!view.poll);

    let failed = build_metadata_view(&MetadataState::Error("offline".to_string()), true, true, None, None, None, 0);
    assert_eq!(failed.state_label, "Update failed");
    assert_eq!(failed.phase, "offline");
    assert_eq!(failed.errors, 1);
    assert!(failed.poll);

    let never = build_metadata_view(&MetadataState::NotSynchronized, false, false, None, None, None, 0);
    assert_eq!(never.size_label, "0 B");
    assert_eq!(never.state_label, "Not synchronized");
}

#[test]
fn scope_progress_follows_the_phase() {
    let state = MetadataState::Updating(progress(
        "Scanning Shared Drive 2 of 4: Research",
        selection(true, true, false, false),
    ));
    let views = scope_progress_views(&state, &[None, None, None, None]);
    assert_eq!(views.len(), 4);
    assert_eq!(views[0].name, "Persons");
    assert_eq!(views[0].status, "Not requested");
    assert!(views[1].complete);
    assert_eq!(views[1].percent, 100);
    assert_eq!(views[2].status, "Not requested");
    assert!(views[3].active);
    assert_eq!(views[3].percent, 50);
    assert_eq!(views[3].elapsed_label, "Timing this update…");
}

#[test]
fn scope_progress_uses_the_timing_of_past_updates() {
    let state = MetadataState::Updating(progress("Fetching My Drive metadata", selection(true, false, false, false)));
    let timing = ScanTimingEstimate { elapsed_seconds: 90, average_seconds: 100, sample_count: 2 };
    let views = scope_progress_views(&state, &[None, Some(timing), None, None]);
    assert_eq!(views[1].percent, 90);
    assert_eq!(views[1].elapsed_label, "1m 30s elapsed");
    assert_eq!(views[1].estimate_label, "about 1m 40s average from 2 updates");
    assert!(scope_progress_views(&MetadataState::NotSynchronized, &[None, None, None, None]).is_empty());
}

#[test]
fn generated_icon_has_expected_dimensions_and_visible_pixels() {
    let icon = boreal_icon_rgba(32);
    assert_eq!(icon.len(), 32 * 32 * 4);
    assert_eq!(icon.len() % 4, 0);
    assert!(icon.chunks(4).any(|pixel| pixel[3] != 0));
    assert!(icon.chunks(4).any(|pixel| pixel == [255, 255, 255, 255]));
}

#[test]
fn icon_corners_are_transparent_at_every_tray_size() {
    for size in [16_u32, 32, 64] {
        let icon = boreal_icon_rgba(size);
        assert_eq!(icon.len(), (size * size * 4) as usize);
        assert_eq!(&icon[0..4], &[0, 0, 0, 0]);
        let body = ((12 * size / 32) * size + 4 * size / 32) as usize * 4;
        assert_eq!(&icon[body..body + 4], &[13, 110, 253, 255]);
    }
}

#[test]
fn recognizes_an_existing_boreal_status_response() {
    assert!(is_boreal_instance_response("HTTP/1.1 200 OK\r\nContent-Length: 6\r\n\r\nBOREAL"));
}

#[test]
fn rejects_a_non_boreal_response() {
    assert!(!is_boreal_instance_response("HTTP/1.1 200 OK\r\nContent-Length: 5\r\n\r\nOTHER"));
}

#[test]
fn rejects_an_error_status_from_boreal() {
    assert!(!is_boreal_instance_response("HTTP/1.1 500 Error\r\n\r\nBOREAL"));
    assert!(is_boreal_instance_response("HTTP/1.0 200 OK\r\n\r\nBOREAL"));
}

#[test]
fn no_selected_scope_opens_no_scan_run() {
    let mut database = boreal::database::Database::at("/nonexistent/boreal-test/none.sqlite".to_string());
    let selection = boreal::views::MetadataUpdateSelection {
        my_drive: false,
        shared_drives: false,
        shared_with_me: false,
        directory_info: true,
    };
    let runs = boreal::metadata::start_scan_runs(&mut database, selection).expect("nothing to open");
    assert_eq!((runs.my_drive, runs.shared_with_me, runs.shared_drives), (0, 0, 0));
}
