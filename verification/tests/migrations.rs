use boreal::database::migration::{MigrationJob, MigrationSource};
use boreal::migrations::{
    filter_value, google_drive_folder_id, migration_list_url, migration_view, DestinationUrlError,
};

fn job(status: &str, started_at: &str, archived_at: &str) -> MigrationJob {
    MigrationJob {
        id: 7,
        source_kind: "shared-with-me".to_string(),
        operation_kind: "copy".to_string(),
        status: status.to_string(),
        phase: String::new(),
        destination_url: String::new(),
        destination_kind: "google".to_string(),
        destination_path: String::new(),
        destination_drive_name: "Team".to_string(),
        destination_folder_name: "Archive".to_string(),
        destination_drive_id: String::new(),
        destination_folder_id: String::new(),
        files_total: 3,
        folders_total: 1,
        bytes_total: 1_500_000,
        files_copied: 1,
        bytes_copied: 500,
        exceptions_count: 0,
        created_at: "2026-01-01".to_string(),
        started_at: started_at.to_string(),
        completed_at: String::new(),
        copy_completed_at: String::new(),
        archived_at: archived_at.to_string(),
        resume_count: 0,
        error_message: String::new(),
        sources: vec![MigrationSource {
            item_id: "abc".to_string(),
            name: "Folder".to_string(),
            relative_path: "Folder".to_string(),
            is_directory: true,
            files_total: 3,
            folders_total: 1,
            bytes_total: 1_500_000,
            status: "pending".to_string(),
            error_message: String::new(),
        }],
    }
}

#[test]
fn shows_the_actions_each_status_allows() {
    let ready = migration_view(job("ready", "", ""), false);
    assert!(ready.can_cancel && ready.can_start && ready.can_archive && !ready.can_resume && !ready.running);
    assert_eq!(ready.source_label, "Shared with Me");
    assert_eq!(ready.destination_label, "Team / Archive");
    assert_eq!(ready.size_label, "1.5 MB");
    assert!(ready.allows_my_drive_destination && ready.allows_google_destination);
    assert_eq!(ready.sources[0].drive_url, "https://drive.google.com/drive/folders/abc");
    let running = migration_view(job("running", "2026-01-02", ""), false);
    assert!(running.running && !running.can_archive && !running.can_cancel && !running.can_start);
    let failed = migration_view(job("error", "2026-01-02", ""), false);
    assert!(failed.can_resume && failed.can_archive);
    let archived = migration_view(job("error", "2026-01-02", "2026-02-01"), false);
    assert!(!archived.can_resume && !archived.can_archive);
}

#[test]
fn reads_destination_folder_ids() {
    assert_eq!(
        google_drive_folder_id(" https://drive.google.com/drive/folders/0AbCdEfGhIj?usp=sharing ").unwrap(),
        "0AbCdEfGhIj"
    );
    assert_eq!(google_drive_folder_id("https://example.com/folders/0AbCdEfGhIj"), Err(DestinationUrlError::NotDrive));
    assert_eq!(google_drive_folder_id("https://drive.google.com/drive/folders/short"), Err(DestinationUrlError::NoFolderId));
    assert_eq!(google_drive_folder_id("https://drive.google.com/file/d/0AbCdEfGhIj"), Err(DestinationUrlError::NoFolderId));
}

#[test]
fn links_the_migration_list() {
    assert_eq!(migration_list_url("a b", true, "status", true), "/migrations?q=a%20b&sort=status&dir=desc&archived=1");
    assert_eq!(migration_list_url("", false, "id", false), "/migrations?q=&sort=id&dir=asc");
    assert_eq!(filter_value("  "), "Any");
    assert_eq!(filter_value(">5MB"), ">5MB");
}
