use boreal::keeper::{group_report_rows, SharedFolderReportRow};
use boreal::keeper::{command_path, json_array, target_kind};

#[test]
fn extracts_json_from_commander_output() {
    assert_eq!(json_array("notice\n[]\n").as_deref(), Some("[]"));
}

#[test]
fn expands_a_user_relative_commander_path() {
    let path = command_path("~/.boreal/keeper-env/bin/keeper", "/home/person").unwrap();
    assert!(path.ends_with(".boreal/keeper-env/bin/keeper"));
    assert!(!path.starts_with('~'));
}

#[test]
fn output_without_a_json_array_gives_nothing() {
    assert_eq!(json_array("no json here"), None);
}

#[test]
fn classifies_share_targets() {
    assert_eq!(target_kind("(Team User) Ops"), "team-user");
    assert_eq!(target_kind("(Team) Ops"), "team");
    assert_eq!(target_kind("person@example.edu"), "user");
}

#[test]
fn resolves_commander_paths() {
    assert_eq!(command_path("  ", "/home/person"), None);
    assert_eq!(command_path("~\\\\keeper", "/home/person").as_deref(), Some("/home/person/keeper"));
    assert_eq!(command_path("~", "/home/person").as_deref(), Some("/home/person/"));
    assert_eq!(command_path(" /usr/bin/keeper ", "/home/person").as_deref(), Some("/usr/bin/keeper"));
    assert_eq!(command_path("keeper", "/home/person").as_deref(), Some("keeper"));
}

#[test]
fn groups_report_rows_by_folder() {

    let row = |uid: &str, name: &str, to: &str| SharedFolderReportRow {
        folder_uid: uid.to_string(),
        folder_name: name.to_string(),
        folder_type: "Shared Folder".to_string(),
        shared_to: to.to_string(),
        permissions: "Can Edit".to_string(),
        folder_path: format!("/{name}"),
    };
    let folders = group_report_rows(vec![
        row("u2", "Operations", "(Team) Ops"),
        row(" ", "Ignored", "a@example.edu"),
        row("u1", "alpha", ""),
        row("u2", "Renamed", "(Team User) Ann"),
        row("u2", "Operations", "bob@example.edu"),
    ]);
    assert_eq!(folders.len(), 2);
    assert_eq!(folders[0].name, "alpha");
    assert!(folders[0].access.is_empty());
    assert_eq!(folders[1].name, "Operations");
    let kinds: Vec<&str> = folders[1].access.iter().map(|a| a.target_kind.as_str()).collect();
    assert_eq!(kinds, vec!["team", "team-user", "user"]);
}
