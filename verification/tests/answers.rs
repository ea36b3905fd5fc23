use boreal::database::directory::{account_email_from_answer, associations_from_answer};
use boreal::database::inventory::totals_from_answer;
use boreal::database::settings::{drive_data_found, google_drive_flag_to_write};
use boreal::database::sql::SqlValue;
use boreal::database::{changed_or, DatabaseError, Rejection};
use boreal::json::distinct_entries;

fn text(value: &str) -> SqlValue {
    SqlValue::Text(value.to_string())
}

#[test]
fn a_guarded_change_is_refused_only_when_no_row_changed() {
    assert!(changed_or(1, Rejection::MigrationNotCancelable).is_ok());
    assert!(changed_or(3, Rejection::MigrationNotArchivable).is_ok());
    match changed_or(0, Rejection::MigrationNotCancelable) {
        Err(DatabaseError::Rejected(Rejection::MigrationNotCancelable)) => {},
        other => panic!("expected a refusal, got {:?}", other),
    }
}

#[test]
fn the_google_drive_flag_is_written_only_when_missing() {
    assert_eq!(google_drive_flag_to_write(true, true, true), None);
    assert_eq!(google_drive_flag_to_write(true, false, false), None);
    assert_eq!(google_drive_flag_to_write(false, true, false), Some(true));
    assert_eq!(google_drive_flag_to_write(false, false, true), Some(true));
    assert_eq!(google_drive_flag_to_write(false, false, false), Some(false));
}

#[test]
fn drive_data_is_found_from_a_non_zero_first_cell() {
    assert!(drive_data_found(1, &vec![vec![SqlValue::Integer(1)]]));
    assert!(!drive_data_found(1, &vec![vec![SqlValue::Integer(0)]]));
    assert!(!drive_data_found(1, &vec![vec![SqlValue::Null]]));
    assert!(!drive_data_found(1, &Vec::new()));
}

#[test]
fn shared_drive_totals_read_the_five_sums() {
    let row = vec![
        SqlValue::Integer(3),
        SqlValue::Integer(2),
        SqlValue::Integer(7),
        SqlValue::Integer(4096),
        SqlValue::Integer(1),
    ];
    let totals = totals_from_answer(5, &vec![row]);
    assert_eq!(
        (totals.files_scanned, totals.folders_scanned, totals.permissions_scanned, totals.bytes_discovered, totals.deleted_items),
        (3, 2, 7, 4096, 1)
    );
    assert_eq!(totals.completed_at, "");
    let none = totals_from_answer(5, &Vec::new());
    assert_eq!((none.files_scanned, none.bytes_discovered), (0, 0));
}

#[test]
fn associations_read_each_row_in_order() {
    let rows = vec![
        vec![
            text("my-drive-ro"),
            text("a1"),
            text("Budget"),
            text("Finance/Budget"),
            text("Owner"),
            text("owner"),
            text("ada@example.edu"),
            SqlValue::Integer(0),
        ],
        vec![
            text("my-drive-ro"),
            text("b2"),
            text("Notes"),
            text("Notes"),
            text("Permission"),
            text("reader"),
            SqlValue::Null,
            SqlValue::Integer(1),
        ],
    ];
    let out = associations_from_answer(8, &rows);
    assert_eq!(out.len(), 2);
    assert_eq!(out[0].item_id, "a1");
    assert_eq!(out[0].relationship, "Owner");
    assert!(!out[0].is_deleted);
    assert_eq!(out[1].role, "reader");
    assert_eq!(out[1].owner_email, "");
    assert!(out[1].is_deleted);
    assert!(associations_from_answer(7, &rows).is_empty());
}

#[test]
fn the_account_address_is_the_first_cell() {
    assert_eq!(account_email_from_answer(1, &vec![vec![text("ada@example.edu")]]), Some("ada@example.edu".to_string()));
    assert_eq!(account_email_from_answer(1, &Vec::new()), None);
    assert_eq!(account_email_from_answer(1, &vec![vec![SqlValue::Null]]), None);
}

#[test]
fn repeated_metadata_keys_keep_their_later_value_once() {
    let entries = vec![
        ("owner".to_string(), "a@example.edu".to_string()),
        ("btime".to_string(), "2024".to_string()),
        ("owner".to_string(), "b@example.edu".to_string()),
    ];
    assert_eq!(
        distinct_entries(&entries),
        vec![("owner".to_string(), "b@example.edu".to_string()), ("btime".to_string(), "2024".to_string())]
    );
}
