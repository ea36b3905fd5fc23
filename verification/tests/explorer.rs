use boreal::database::inventory::{DriveExplorerItem, PermissionIdentity, Tag};
use boreal::explorer::{
    encode_query_value, explorer_request, explorer_row, explorer_summary, explorer_url, identity_display,
    mime_icon, sort_url, tag_filter_pills, tag_text_color, DrivePathQuery,
};

fn tag(slug: &str, name: &str, color: &str, description: &str) -> Tag {
    Tag {
        slug: slug.to_string(),
        name: name.to_string(),
        description: description.to_string(),
        color: color.to_string(),
        directory: false,
        my_drive: true,
        shared_drives: false,
        shared_with_me: false,
    }
}

fn query() -> DrivePathQuery {
    DrivePathQuery {
        drive: String::new(),
        path: "Reports/2026".to_string(),
        q: "budget".to_string(),
        sort: "size".to_string(),
        direction: "desc".to_string(),
        tag: String::new(),
        tagged: 0,
        untagged: 0,
        type_filter: String::new(),
        size_filter: ">5MB".to_string(),
        modified_filter: String::new(),
        owner_filter: "!me@example.edu ".to_string(),
        permission_filter: String::new(),
        owner_identity_tag: String::new(),
        permission_identity_tag: String::new(),
        include_deleted: false,
        show_inaccessible: false,
        files_filter: String::new(),
        folders_filter: String::new(),
        shared_drive_manager_filter: String::new(),
        shared_drive_permission_filter: String::new(),
    }
}

fn item(id: &str, is_directory: bool, size: Option<u64>) -> DriveExplorerItem {
    DriveExplorerItem {
        item_id: id.to_string(),
        name: format!("item {id}"),
        relative_path: format!("Reports/{id}"),
        is_directory,
        mime_type: if is_directory { None } else { Some("application/pdf".to_string()) },
        size_bytes: size,
        modified_at: None,
        owner_email: Some("owner@example.edu".to_string()),
        owner_known: false,
        owner_tags: Vec::new(),
        tags: vec![tag("keep", "Keep", "#ffffff", "")],
        permissions: vec![PermissionIdentity { label: "reader@example.edu".to_string(), known: true, tags: Vec::new() }],
        is_deleted: false,
    }
}

#[test]
fn encodes_query_values_byte_by_byte() {
    assert_eq!(encode_query_value("a b&c/é"), "a%20b%26c%2F%C3%A9");
    assert_eq!(encode_query_value("Az09-_.~"), "Az09-_.~");
}

#[test]
fn chooses_readable_text_on_tag_colors() {
    assert_eq!(tag_text_color("#ffffff"), "#212529");
    assert_eq!(tag_text_color("#000000"), "#ffffff");
    assert_eq!(tag_text_color("not a color"), "#ffffff");
    assert_eq!(tag_text_color("##ffc107"), "#212529");
}

#[test]
fn picks_icons_from_mime_types() {
    assert_eq!(mime_icon(true, None), "bi-folder-fill");
    assert_eq!(mime_icon(false, Some("application/vnd.google-apps.spreadsheet")), "bi-file-earmark-spreadsheet");
    assert_eq!(mime_icon(false, Some("application/pdf")), "bi-file-earmark-pdf");
    assert_eq!(mime_icon(false, Some("image/png")), "bi-file-earmark-image");
    assert_eq!(mime_icon(false, None), "bi-file-earmark");
}

#[test]
fn shows_unknown_and_tagged_identities() {
    let unknown = identity_display("new@example.edu".to_string(), false, &[]);
    assert!(unknown.unknown);
    assert_eq!(unknown.directory_url, "/directory/new?email=new%40example.edu");
    assert_eq!(unknown.tag_details, "Unknown identity — not found in BOREAL Persons");
    let tags = [tag("staff", "Staff", "#000000", "Employees"), tag("vip", "VIP", "#ffffff", "")];
    let known = identity_display("person@example.edu".to_string(), true, &tags);
    assert!(!known.unknown && known.tagged);
    assert_eq!(known.color, "#000000");
    assert_eq!(known.text_color, "#ffffff");
    assert_eq!(known.tag_details, "Identity tags: Staff: Employees, VIP");
    let dash = identity_display("—".to_string(), false, &[]);
    assert!(!dash.unknown);
    assert_eq!(dash.tag_details, "No identity tags");
}

#[test]
fn builds_explorer_links_that_keep_filters() {
    let url = explorer_url("/my-drive", "A B", "", "", "", "", "", "", "", "", "", "name", "asc", false);
    assert_eq!(
        url,
        "/my-drive?path=A%20B&q=&tag=&type_filter=&size_filter=&modified_filter=&owner_filter=&permission_filter=&owner_identity_tag=&permission_identity_tag=&sort=name&direction=asc&include_deleted=false"
    );
    let shared = explorer_url("/shared-drives?drive=1", "", "", "", "", "", "", "", "", "", "", "name", "asc", true);
    assert!(shared.starts_with("/shared-drives?drive=1&path="));
    assert!(shared.ends_with("&include_deleted=true"));
    let q = query();
    assert!(sort_url("/my-drive", &q, "size", false, "size").contains("&sort=size&direction=desc"));
    assert!(sort_url("/my-drive", &q, "size", true, "size").contains("&sort=size&direction=asc"));
    assert!(sort_url("/my-drive", &q, "size", false, "name").contains("&sort=name&direction=asc"));
}

#[test]
fn derives_the_listing_request_from_the_query() {
    let request = explorer_request(&query());
    assert_eq!(request.parent.as_deref(), Some("Reports/2026"));
    assert_eq!(request.sort, "size");
    assert!(request.descending);
    assert!(!request.include_deleted);
    assert!(request.exclude_owner);
    assert_eq!(request.owner_filter, "me@example.edu");
    let mut other = query();
    other.sort = "bogus".to_string();
    other.tag = "__deleted__".to_string();
    other.path = String::new();
    let request = explorer_request(&other);
    assert_eq!(request.sort, "name");
    assert!(request.include_deleted);
    assert!(request.parent.is_none());
}

#[test]
fn summarizes_and_renders_rows() {
    let items = [item("1", true, Some(2_000)), item("2", false, Some(500)), item("3", false, None)];
    let summary = explorer_summary(&items);
    assert_eq!((summary.items, summary.files, summary.folders), (3, 2, 1));
    assert_eq!(summary.size_bytes, 2_500);
    assert_eq!(summary.size_label, "2.5 KB");
    assert_eq!(summary.permissions, 3);

    let q = query();
    let folder = explorer_row(&items[0], "/my-drive", &q, "size", true, false);
    assert_eq!(folder.drive_url, "https://drive.google.com/drive/folders/1");
    assert!(folder.name_url.starts_with("/my-drive?path=Reports%2F1&q=&"));
    assert_eq!(folder.mime_type, "Folder");
    assert!(!folder.name_new_tab);
    let file = explorer_row(&items[2], "/my-drive", &q, "size", true, false);
    assert_eq!(file.name_url, "https://drive.google.com/open?id=3");
    assert_eq!(file.size, "—");
    assert_eq!(file.size_bytes, 0);
    assert_eq!(file.modified_at, "—");
    assert_eq!(file.type_icon, "bi-file-earmark-pdf");
    assert_eq!(file.tags[0].text_color, "#212529");
    assert!(file.owner.unknown);
    assert_eq!(file.permission_count, 1);
}

#[test]
fn offers_the_deleted_pseudo_tag_last() {
    let pills = tag_filter_pills(&[tag("keep", "Keep", "#000000", "")], "__deleted__");
    assert_eq!(pills.len(), 2);
    assert!(!pills[0].selected);
    assert_eq!(pills[1].name, "Deleted");
    assert!(pills[1].selected);
}
