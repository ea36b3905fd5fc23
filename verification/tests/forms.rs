use boreal::forms::{
    comma_separated_values, destination_requirement, migration_source_kind, ready_executable,
    selected_update_redirect, shared_drive_list_redirect, tag_change_redirect, ApplyTagForm, SharedDriveTagForm,
};
use boreal::metadata::RcloneState;
use boreal::rclone::RcloneStatus;

fn apply_form() -> ApplyTagForm {
    ApplyTagForm {
        selected_item_ids: "a, b".to_string(),
        drive: String::new(),
        tag: "finance".to_string(),
        path: "A B".to_string(),
        q: String::new(),
        sort: "name".to_string(),
        direction: "asc".to_string(),
        tag_filter: String::new(),
        type_filter: String::new(),
        size_filter: String::new(),
        modified_filter: String::new(),
        owner_filter: String::new(),
        permission_filter: String::new(),
        owner_identity_tag_filter: String::new(),
        permission_identity_tag_filter: String::new(),
        include_deleted: false,
    }
}

#[test]
fn splits_comma_separated_values() {
    assert_eq!(comma_separated_values(" a, ,b ,,c"), vec!["a", "b", "c"]);
    assert!(comma_separated_values(" , ").is_empty());
    assert!(comma_separated_values("").is_empty());
}

#[test]
fn knows_which_inventories_can_be_migrated() {
    assert_eq!(migration_source_kind("my-drive-ro"), Some("my-drive"));
    assert_eq!(migration_source_kind("shared-with-me"), Some("shared-with-me"));
    assert_eq!(migration_source_kind("shared-drive:0A"), None);
}

#[test]
fn redirects_after_a_selected_update() {
    assert_eq!(selected_update_redirect("my-drive-ro", "", true).as_deref(), Some("/shared-drives"));
    assert_eq!(selected_update_redirect("my-drive-ro", "", false).as_deref(), Some("/my-drive"));
    assert_eq!(selected_update_redirect("shared-with-me", "", false).as_deref(), Some("/shared-with-me"));
    assert_eq!(
        selected_update_redirect("shared-drive:0A", "0A B", false).as_deref(),
        Some("/shared-drives?drive=0A%20B")
    );
    assert_eq!(selected_update_redirect("other", "", false), None);
}

#[test]
fn returns_to_the_explorer_after_tagging() {
    let url = tag_change_redirect(&apply_form(), "/my-drive", false, 3);
    assert_eq!(
        url,
        "/my-drive?path=A%20B&q=&tag=&type_filter=&size_filter=&modified_filter=&owner_filter=&permission_filter=&owner_identity_tag=&permission_identity_tag=&sort=name&direction=asc&include_deleted=false&tagged=3"
    );
    assert!(tag_change_redirect(&apply_form(), "/my-drive", true, 0).ends_with("&untagged=0"));
}

#[test]
fn returns_to_the_shared_drive_list_after_tagging() {
    let form = SharedDriveTagForm {
        selected_drive_ids: "0A".to_string(),
        tag: "t".to_string(),
        q: "lab data".to_string(),
        tag_filter: String::new(),
        show_inaccessible: true,
        files_filter: ">10".to_string(),
        folders_filter: String::new(),
        size_filter: String::new(),
        modified_filter: String::new(),
        manager_filter: String::new(),
        permissions_filter: String::new(),
        sort: "size".to_string(),
        direction: "desc".to_string(),
    };
    assert_eq!(
        shared_drive_list_redirect(&form, true, 2),
        "/shared-drives?q=lab%20data&tag=&show_inaccessible=true&files_filter=%3E10&folders_filter=&size_filter=&modified_filter=&shared_drive_manager_filter=&shared_drive_permission_filter=&sort=size&direction=desc&untagged=2"
    );
}

#[test]
fn checks_what_a_destination_needs() {
    assert_eq!(
        destination_requirement("shared-drive").unwrap_err(),
        "Shared Drives can only be copied to a local destination."
    );
    assert_eq!(destination_requirement("my-drive"), Ok(true));
    assert_eq!(destination_requirement("shared-with-me"), Ok(false));
    assert_eq!(
        ready_executable(&RcloneState::Initializing).unwrap_err(),
        "Rclone is still initializing. Try again when it is ready."
    );
    assert_eq!(ready_executable(&RcloneState::Error("boom".to_string())).unwrap_err(), "Rclone is not ready: boom");
    let ready = RcloneState::Ready(RcloneStatus { path: "/bin/rclone".to_string(), version: "v".to_string(), gui_url: None });
    assert_eq!(ready_executable(&ready).unwrap(), "/bin/rclone");
}
