use boreal::database::inventory::{plan_sync, PermissionRecord};
use boreal::json::JsonValue;
use boreal::rclone::inventory::DriveItem;

fn item(id: &str, path: &str, is_dir: bool, size: i64, permissions: usize) -> DriveItem {
    DriveItem {
        id: id.to_string(),
        name: path.rsplit('/').next().unwrap_or(path).to_string(),
        path: path.to_string(),
        is_dir,
        size,
        mime_type: String::new(),
        mod_time: String::new(),
        metadata: vec![("owner".to_string(), "owner@example.edu".to_string())],
        permissions: (0..permissions)
            .map(|_| PermissionRecord {
                value: JsonValue::Object(vec![("role".to_string(), JsonValue::Text("reader".to_string()))]),
                raw_json: "{\"role\":\"reader\"}".to_string(),
            })
            .collect(),
    }
}

#[test]
fn a_repeated_drive_object_is_counted_once() {
    let items = vec![
        item("folder-id-1", "Reports", true, -1, 0),
        item("drive-id-1", "Reports/Report.pdf", false, 42, 1),
        item("drive-id-1", "Reports/Report.pdf", false, 42, 1),
    ];
    let plan = plan_sync(&items);
    assert_eq!(plan.kept, vec![0, 1]);
    assert_eq!(plan.files_scanned, 1);
    assert_eq!(plan.folders_scanned, 1);
    assert_eq!(plan.bytes_discovered, 42);
    assert_eq!(plan.permission_records, 1);
}
