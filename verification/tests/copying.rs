use boreal::database::migration::MigrationSource;
use boreal::rclone::identity::GoogleDriveFolder;
use boreal::rclone::inventory::SharedDrive;
use boreal::rclone::migration::{
    authorization_error, check_destination_access, check_destination_folder, check_selected_names, copy_arguments,
    copy_error, destination_in_drives, destination_remote, source_remote, DestinationCheck,
};

fn folder(id: &str, name: &str, drive_id: &str, can_add: bool) -> GoogleDriveFolder {
    GoogleDriveFolder {
        id: id.to_string(),
        name: name.to_string(),
        drive_id: drive_id.to_string(),
        can_add_children: can_add,
        parents: Vec::new(),
        modified_at: String::new(),
    }
}

fn source(name: &str, path: &str, is_directory: bool) -> MigrationSource {
    MigrationSource {
        item_id: format!("id-{name}"),
        name: name.to_string(),
        relative_path: path.to_string(),
        is_directory,
        files_total: 0,
        folders_total: 0,
        bytes_total: 0,
        status: "pending".to_string(),
        error_message: String::new(),
    }
}

fn drive(id: &str, name: &str) -> SharedDrive {
    SharedDrive { id: id.to_string(), name: name.to_string() }
}

#[test]
fn accepts_my_drive_folders_only_when_allowed() {
    match check_destination_folder(&folder("F", "Archive", "", true), false) {
        DestinationCheck::Ready(d) => {
            assert_eq!(d.drive_id, "");
            assert_eq!(d.drive_name, "My Drive");
            assert_eq!(d.folder_id, "F");
            assert_eq!(d.folder_name, "Archive");
        }
        other => panic!("unexpected {other:?}"),
    }
    match check_destination_folder(&folder("F", "Archive", "", true), true) {
        DestinationCheck::Refused(m) => assert_eq!(m, "My Drive migrations require a Shared Drive destination folder"),
        other => panic!("unexpected {other:?}"),
    }
    assert!(matches!(check_destination_folder(&folder("F", "x", "D", true), true), DestinationCheck::NeedsSharedDrives));
}

#[test]
fn finds_the_destination_drive() {
    let drives = vec![drive("D1", "Research"), drive("D2", "Teaching")];
    let inside = destination_in_drives(&folder("F", "Sub", "D2", true), &drives).unwrap();
    assert_eq!(inside.drive_name, "Teaching");
    assert_eq!(inside.folder_name, "Sub");
    let root = destination_in_drives(&folder("D1", "Drive", "D1", true), &drives).unwrap();
    assert_eq!(root.folder_name, "Research");
    assert_eq!(
        destination_in_drives(&folder("F", "Sub", "D9", true), &drives).unwrap_err(),
        "The destination belongs to a Shared Drive that is not available to the authenticated read-only account"
    );
    assert_eq!(
        destination_in_drives(&folder("F", "Sub", "D9", true), &Vec::new()).unwrap_err(),
        "The authenticated read-only account cannot access any Shared Drives"
    );
}

#[test]
fn checks_the_destination_before_copying() {
    assert_eq!(
        check_destination_access(&folder("F", "x", "D1", true), "D2").unwrap_err(),
        "The destination now resolves to a different Shared Drive"
    );
    assert_eq!(
        check_destination_access(&folder("F", "x", "D1", false), "D1").unwrap_err(),
        "The My Drive RW account cannot add content to the destination folder"
    );
    assert!(check_destination_access(&folder("F", "x", "D1", true), "D1").is_ok());
    assert_eq!(authorization_error(" token expired\n"), "My Drive RW authorization failed: token expired");
}

#[test]
fn refuses_duplicate_or_existing_names() {
    let existing = vec!["Old".to_string()];
    let sources = vec![source("A", "A", true), source("B", "B", false)];
    assert!(check_selected_names(&existing, &sources).is_ok());
    let twice = vec![source("A", "A", true), source("A", "x/A", false), source("Old", "Old", false)];
    assert_eq!(
        check_selected_names(&existing, &twice).unwrap_err(),
        "Multiple selected items are named 'A'. Select unique top-level names before starting the migration."
    );
    let clash = vec![source("Old", "Old", true), source("Old", "Old", true)];
    assert_eq!(
        check_selected_names(&existing, &clash).unwrap_err(),
        "The destination already contains an item named 'Old'. BOREAL will not merge or overwrite it."
    );
}

#[test]
fn builds_copy_commands() {
    assert_eq!(destination_remote("", "F1"), "my-drive-rw,root_folder_id=F1:");
    assert_eq!(destination_remote("D1", "F1"), "my-drive-rw,team_drive=D1,root_folder_id=F1:");
    assert_eq!(source_remote("shared-with-me", "//Team/Plan"), "my-drive-ro,shared_with_me=true:Team/Plan");
    assert_eq!(source_remote("my-drive", "Plan.pdf"), "my-drive-ro:Plan.pdf");
    let folder_args = copy_arguments("my-drive", &source("Plans", "/Work/Plans", true), "D1", "F1", "/c/rclone.conf");
    assert_eq!(
        folder_args,
        vec![
            "copy",
            "my-drive-ro:Work/Plans",
            "my-drive-rw,team_drive=D1,root_folder_id=F1:Plans",
            "--drive-server-side-across-configs",
            "--immutable",
            "--config",
            "/c/rclone.conf",
            "--create-empty-src-dirs",
        ]
    );
    let file_args = copy_arguments("shared-with-me", &source("a.txt", "a.txt", false), "", "F1", "c");
    assert_eq!(file_args[0], "copyto");
    assert_eq!(file_args.len(), 7);
    assert_eq!(copy_error("a.txt", "denied\n"), "Rclone could not copy 'a.txt': denied");
}
