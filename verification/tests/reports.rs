use boreal::database::inventory::{DriveExplorerItem, PermissionIdentity, Tag};
use boreal::explorer::DrivePathQuery;
use boreal::reports::{drive_export_context, drive_item_row};
use boreal::xlsx::Cell;

fn query() -> DrivePathQuery {
    DrivePathQuery {
        drive: String::new(),
        path: String::new(),
        q: "budget".to_string(),
        sort: "size".to_string(),
        direction: "desc".to_string(),
        tag: String::new(),
        tagged: 0,
        untagged: 0,
        type_filter: String::new(),
        size_filter: ">5MB".to_string(),
        modified_filter: String::new(),
        owner_filter: "  ".to_string(),
        permission_filter: String::new(),
        owner_identity_tag: String::new(),
        permission_identity_tag: String::new(),
        include_deleted: true,
        show_inaccessible: false,
        files_filter: String::new(),
        folders_filter: String::new(),
        shared_drive_manager_filter: String::new(),
        shared_drive_permission_filter: String::new(),
    }
}

#[test]
fn records_the_drive_view_filters() {
    let context = drive_export_context("My Drive", &query(), "size", 12);
    let expected = [
        ("View", "My Drive"),
        ("Location", "My Drive"),
        ("Results", "12"),
        ("Search", "budget"),
        ("Tag", "Any"),
        ("Type", "Any"),
        ("Size", ">5MB"),
        ("Modified", "Any"),
        ("Owner", "Any"),
        ("Permission", "Any"),
        ("Owner person tag", "Any"),
        ("Permission person tag", "Any"),
        ("Include deleted", "true"),
        ("Sort", "size desc"),
    ];
    assert_eq!(context.len(), expected.len());
    for (pair, (name, value)) in context.iter().zip(expected.iter()) {
        assert_eq!(pair.0, *name);
        assert_eq!(pair.1, *value);
    }
    let mut inside = query();
    inside.path = "Reports/2026".to_string();
    inside.direction = "DESC".to_string();
    let context = drive_export_context("My Drive", &inside, "name", 0);
    assert_eq!(context[1].1, "Reports/2026");
    assert_eq!(context[13].1, "name asc");
}

#[test]
fn writes_a_report_row_per_item() {
    let item = DriveExplorerItem {
        item_id: "F1".to_string(),
        name: "budget.xlsx".to_string(),
        relative_path: "Reports/budget.xlsx".to_string(),
        is_directory: false,
        mime_type: None,
        size_bytes: Some(2_500),
        modified_at: Some("2026-03-04".to_string()),
        owner_email: None,
        owner_known: false,
        owner_tags: Vec::new(),
        tags: vec![Tag {
            slug: "fin".to_string(),
            name: "Finance".to_string(),
            description: String::new(),
            color: "#fff".to_string(),
            directory: false,
            my_drive: true,
            shared_drives: false,
            shared_with_me: false,
        }],
        permissions: vec![
            PermissionIdentity { label: "a@x.edu".to_string(), known: true, tags: Vec::new() },
            PermissionIdentity { label: "b@x.edu".to_string(), known: false, tags: Vec::new() },
        ],
        is_deleted: true,
    };
    let row = drive_item_row(&item);
    assert_eq!(row.len(), 12);
    assert!(matches!(&row[1], Cell::Text(t) if t == "File"));
    assert!(matches!(&row[3], Cell::Text(t) if t.is_empty()));
    assert!(matches!(&row[4], Cell::Number(2_500)));
    assert!(matches!(&row[5], Cell::Text(t) if t == "2.5 KB"));
    assert!(matches!(&row[8], Cell::Text(t) if t == "a@x.edu, b@x.edu"));
    assert!(matches!(&row[9], Cell::Text(t) if t == "Finance"));
    assert!(matches!(&row[10], Cell::Text(t) if t == "Yes"));
    assert!(matches!(&row[11], Cell::Link { url, label } if url == "https://drive.google.com/open?id=F1" && label == "Open in Google Drive"));
    let folder = DriveExplorerItem { is_directory: true, size_bytes: None, ..item };
    let row = drive_item_row(&folder);
    assert!(matches!(&row[4], Cell::Number(0)));
    assert!(matches!(&row[11], Cell::Link { url, .. } if url == "https://drive.google.com/drive/folders/F1"));
}
