use boreal::database::inventory::{SharedDrivePermissionIdentity, SharedDriveRow, Tag};
use boreal::explorer::DrivePathQuery;
use boreal::reports::{shared_drive_row, shared_drives_export_context, shared_drives_sheets};
use boreal::shared_drives::{
    role_label, shared_drive_identity_view, shared_drive_manager_sort_key, shared_drive_view, shared_drives_listing,
    sort_shared_drives,
};
use boreal::xlsx::Cell;

fn tag(name: &str, color: &str) -> Tag {
    Tag {
        slug: name.to_lowercase(),
        name: name.to_string(),
        description: String::new(),
        color: color.to_string(),
        directory: false,
        my_drive: false,
        shared_drives: true,
        shared_with_me: false,
    }
}

fn identity(label: &str, roles: &[&str], known: bool) -> SharedDrivePermissionIdentity {
    SharedDrivePermissionIdentity {
        label: label.to_string(),
        roles: roles.iter().map(|r| r.to_string()).collect(),
        known,
        tags: Vec::new(),
    }
}

fn drive(id: &str, name: &str, files: u64, accessible: bool) -> SharedDriveRow {
    SharedDriveRow {
        drive_id: id.to_string(),
        name: name.to_string(),
        inventory_scope: format!("shared-drive:{id}"),
        is_accessible: accessible,
        last_error: String::new(),
        files_scanned: files,
        folders_scanned: 2,
        permissions_scanned: 3,
        bytes_discovered: 1_500_000,
        modified_at: String::new(),
        tags: Vec::new(),
        permission_identities: Vec::new(),
    }
}

fn query(sort: &str, direction: &str, show_inaccessible: bool) -> DrivePathQuery {
    DrivePathQuery {
        drive: String::new(),
        path: String::new(),
        q: String::new(),
        sort: sort.to_string(),
        direction: direction.to_string(),
        tag: String::new(),
        tagged: 0,
        untagged: 0,
        type_filter: String::new(),
        size_filter: String::new(),
        modified_filter: String::new(),
        owner_filter: String::new(),
        permission_filter: String::new(),
        owner_identity_tag: String::new(),
        permission_identity_tag: String::new(),
        include_deleted: false,
        show_inaccessible,
        files_filter: ">10".to_string(),
        folders_filter: String::new(),
        shared_drive_manager_filter: String::new(),
        shared_drive_permission_filter: String::new(),
    }
}

fn ids(drives: &[SharedDriveRow]) -> Vec<&str> {
    drives.iter().map(|d| d.drive_id.as_str()).collect()
}

#[test]
fn names_drive_roles() {
    assert_eq!(role_label("organizer").iter().collect::<String>(), "Manager");
    assert_eq!(role_label("fileOrganizer").iter().collect::<String>(), "Content manager");
    assert_eq!(role_label("WRITER").iter().collect::<String>(), "Contributor");
    assert_eq!(role_label("reader").iter().collect::<String>(), "Viewer");
    assert_eq!(role_label("custom").iter().collect::<String>(), "custom");
    let view = shared_drive_identity_view(&identity("ops@example.edu", &["organizer", "commenter"], false));
    assert_eq!(view.roles_label, "Manager, Commenter");
    assert!(view.unknown);
    assert_eq!(view.directory_url, "/directory/new?email=ops%40example.edu");
}

#[test]
fn sorts_drives_by_name_ignoring_case_then_by_id() {
    let mut drives = vec![drive("3", "beta", 1, true), drive("2", "Alpha", 1, true), drive("1", "alpha", 1, true)];
    sort_shared_drives(&mut drives, &query("", "", false));
    assert_eq!(ids(&drives), vec!["1", "2", "3"]);
    sort_shared_drives(&mut drives, &query("name", "DESC", false));
    assert_eq!(ids(&drives), vec!["3", "1", "2"]);
}

#[test]
fn sorts_drives_by_counts_and_managers() {
    let mut drives = vec![drive("a", "A", 30, true), drive("b", "B", 10, true), drive("c", "C", 20, true)];
    sort_shared_drives(&mut drives, &query("files", "asc", false));
    assert_eq!(ids(&drives), vec!["b", "c", "a"]);
    let mut managed = vec![drive("x", "X", 1, true), drive("y", "Y", 1, true), drive("z", "Z", 1, true)];
    managed[0].permission_identities = vec![identity("Zed", &["owner"], true), identity("amy", &["reader"], true)];
    managed[1].permission_identities = vec![identity("Bob", &["Organizer"], true), identity("Carl", &["owner"], true)];
    assert_eq!(shared_drive_manager_sort_key(&managed[0]).map(|k| k.iter().collect::<String>()).as_deref(), Some("zed"));
    assert_eq!(shared_drive_manager_sort_key(&managed[1]).map(|k| k.iter().collect::<String>()).as_deref(), Some("bob"));
    assert_eq!(shared_drive_manager_sort_key(&managed[2]), None);
    sort_shared_drives(&mut managed, &query("managers", "asc", false));
    assert_eq!(ids(&managed), vec!["z", "y", "x"]);
}

#[test]
fn sorts_drives_by_first_tag() {
    let mut drives = vec![drive("a", "A", 1, true), drive("b", "B", 1, true)];
    drives[0].tags = vec![tag("Zeta", "#000000")];
    drives[1].tags = vec![tag("alpha", "#ffffff")];
    sort_shared_drives(&mut drives, &query("tags", "", false));
    assert_eq!(ids(&drives), vec!["b", "a"]);
}

#[test]
fn lists_accessible_drives_with_totals() {
    let all = vec![drive("a", "A", 5, true), drive("b", "B", 7, false), drive("c", "C", 11, true)];
    let listing = shared_drives_listing(all.clone(), &query("files", "desc", false));
    assert_eq!(listing.inaccessible_count, 1);
    assert_eq!(listing.drives.iter().map(|d| d.drive_id.as_str()).collect::<Vec<_>>(), vec!["c", "a"]);
    assert_eq!(listing.summary.items, 2);
    assert_eq!(listing.summary.files, 16);
    assert_eq!(listing.summary.folders, 4);
    assert_eq!(listing.summary.size_bytes, 3_000_000);
    assert_eq!(listing.summary.size_label, "3.0 MB");
    assert_eq!(listing.summary.permissions, 6);
    assert_eq!(listing.sort, "files");
    assert_eq!(listing.direction, "desc");
    let everything = shared_drives_listing(all, &query("bogus", "up", true));
    assert_eq!(everything.drives.len(), 3);
    assert_eq!(everything.sort, "name");
    assert_eq!(everything.direction, "asc");
}

#[test]
fn shows_a_drive_with_managers_and_a_dash_for_no_date() {
    let mut d = drive("d1", "Research", 1, true);
    d.permission_identities = vec![identity("Ann", &["organizer"], true), identity("Ben", &["reader"], true)];
    d.tags = vec![tag("Grant", "#ffff00")];
    let view = shared_drive_view(&d);
    assert_eq!(view.managers.len(), 1);
    assert_eq!(view.managers[0].label, "Ann");
    assert_eq!(view.permission_identities.len(), 2);
    assert_eq!(view.modified_at, "—");
    assert_eq!(view.size_label, "1.5 MB");
    assert_eq!(view.tags[0].text_color, "#212529");
}

#[test]
fn writes_a_report_row_per_drive() {
    let mut d = drive("0AB", "Research", 4, false);
    d.modified_at = "2026-01-02T03:04:05Z".to_string();
    d.permission_identities = vec![identity("Ann", &["owner"], true), identity("Ben", &["writer"], true)];
    d.tags = vec![tag("Grant", "#ffff00"), tag("Lab", "#000")];
    let row = shared_drive_row(&d);
    assert_eq!(row.len(), 13);
    assert!(matches!(&row[2], Cell::Text(t) if t == "No"));
    assert!(matches!(&row[3], Cell::Number(4)));
    assert!(matches!(&row[6], Cell::Text(t) if t == "1.5 MB"));
    assert!(matches!(&row[9], Cell::Text(t) if t == "Ann"));
    assert!(matches!(&row[10], Cell::Text(t) if t == "Ann, Ben"));
    assert!(matches!(&row[11], Cell::Text(t) if t == "Grant, Lab"));
    assert!(matches!(&row[12], Cell::Link { url, .. } if url == "https://drive.google.com/drive/folders/0AB"));
}

#[test]
fn records_the_shared_drive_filters() {
    let context = shared_drives_export_context(&query("size", "desc", true), 7);
    assert_eq!(context.len(), 12);
    assert_eq!(context[1], ("Results".to_string(), "7".to_string()));
    assert_eq!(context[4], ("Files".to_string(), ">10".to_string()));
    assert_eq!(context[5], ("Folders".to_string(), "Any".to_string()));
    assert_eq!(context[10], ("Show inaccessible".to_string(), "true".to_string()));
    assert_eq!(context[11], ("Sort".to_string(), "size desc".to_string()));
    let (sheet_context, rows) =
        shared_drives_sheets(vec![drive("b", "B", 1, true), drive("a", "A", 1, true)], &query("", "asc", false));
    assert_eq!(sheet_context[1].1, "2");
    assert!(matches!(&rows[0][0], Cell::Text(t) if t == "A"));
}

#[test]
fn packed_permissions_group_roles_by_identity_in_first_seen_order() {
    let packed = "ann@example.com\u{1e}writer\u{1f}bob@example.com\u{1e}reader\u{1f}ann@example.com\u{1e}commenter\u{1f}ann@example.com\u{1e}writer\u{1f}broken";
    let identities = boreal::database::inventory::identities_from_packed(packed);
    assert_eq!(identities.len(), 2);
    assert_eq!(identities[0].label, "ann@example.com");
    assert_eq!(identities[0].roles, vec!["writer".to_string(), "commenter".to_string()]);
    assert_eq!(identities[1].label, "bob@example.com");
    assert_eq!(identities[1].roles, vec!["reader".to_string()]);
    assert!(identities.iter().all(|i| !i.known && i.tags.is_empty()));
}
