use boreal::database::inventory::{drive_directory_query, shared_drives_request, DRIVE_DIRECTORY_SELECT};
use boreal::database::sql::SqlParam;
use boreal::database::inventory::parse_size_filter;
use boreal::database::Rejection;
use boreal::database::local_files::{file_icon_class, item_type_label, parse_modified_filter};
use boreal::format::{format_bytes, format_unix};

#[test]
fn formats_local_file_sizes_with_adaptive_units() {
    assert_eq!(format_bytes(2_208_400_000_000), "2.2 TB");
    assert_eq!(format_bytes(1_250_000), "1.2 MB");
    assert_eq!(format_bytes(42), "42 B");
}

#[test]
fn formats_local_timestamps_and_file_icons() {
    let timestamp = format_unix(1_788_243_845, 0);
    assert_eq!(timestamp.len(), 19);
    assert_eq!(timestamp.as_bytes()[4], b'-');
    assert_eq!(timestamp.as_bytes()[10], b'T');
    assert_eq!(file_icon_class("PDF"), "bi-file-earmark-pdf text-danger");
    assert_eq!(file_icon_class("jpg"), "bi-file-earmark-image text-success");
}

#[test]
fn parses_before_and_after_modified_time_filters() {
    assert_eq!(
        parse_modified_filter(">2026-01-01").expect("date filter should parse"),
        (1, "2026-01-01".to_string())
    );
    assert_eq!(
        parse_modified_filter("<=2026-01-01T12:30:45").expect("timestamp filter should parse"),
        (4, "2026-01-01T12:30:45".to_string())
    );
    assert!(parse_modified_filter("tomorrow").is_err());
}

#[test]
fn formats_a_known_instant_in_utc_and_with_an_offset() {
    assert_eq!(format_unix(1_788_243_845, 0), "2026-09-01T06:24:05");
    assert_eq!(format_unix(0, 0), "");
    assert_eq!(format_unix(3_600, -3_600), "1970-01-01T00:00:00");
    assert_eq!(format_unix(1_788_243_845, 7_200), "2026-09-01T08:24:05");
}

#[test]
fn picks_icons_for_other_extensions() {
    assert_eq!(file_icon_class("XLSX"), "bi-file-earmark-excel text-success");
    assert_eq!(file_icon_class("rs"), "bi-file-earmark-code text-primary");
    assert_eq!(file_icon_class("md"), "bi-file-earmark-text");
    assert_eq!(file_icon_class("unknown"), "bi-file-earmark");
}

#[test]
fn labels_item_types() {
    assert_eq!(item_type_label(true, false, ""), "Folder");
    assert_eq!(item_type_label(false, false, "pdf"), "PDF");
}

#[test]
fn parses_size_filters_with_units() {
    assert_eq!(parse_size_filter(">5GB").unwrap(), (1, 5_000_000_000));
    assert_eq!(parse_size_filter("1.5 KiB").unwrap(), (2, 1536));
    assert_eq!(parse_size_filter("<=250MB").unwrap(), (4, 250_000_000));
    assert_eq!(parse_size_filter("=10").unwrap(), (5, 10_000_000));
    assert_eq!(parse_size_filter("  ").unwrap(), (0, 0));
    assert_eq!(parse_size_filter("0.5b").unwrap(), (2, 1));
    assert_eq!(parse_size_filter("<2tib").unwrap(), (3, 2_199_023_255_552));
}

#[test]
fn refuses_malformed_size_filters() {
    let message = |filter: &str| match parse_size_filter(filter) {
        Err(Rejection::InvalidFilter(m)) => m,
        other => panic!("unexpected {other:?}"),
    };
    assert_eq!(message("abc"), "Invalid size filter 'abc'. Try >5GB or <=250MB.");
    assert_eq!(message("5XB"), "Unknown size unit in '5XB'. Use B, KB, MB, GB, or TB.");
    assert_eq!(message("99999999999TB"), "Size filter '99999999999TB' is out of range.");
}

#[test]
fn a_size_of_two_to_the_sixty_third_bytes_saturates() {
    assert_eq!(parse_size_filter("9223372036854775808B").unwrap(), (2, i64::MAX));
    assert_eq!(parse_size_filter("<9223372036854775807b").unwrap(), (3, i64::MAX));
    assert_eq!(parse_size_filter("9223372036854775809B").unwrap(), (2, i64::MAX));
    assert_eq!(parse_size_filter("9223372036854776832B").unwrap(), (2, i64::MAX));
    assert!(parse_size_filter("9223372036854776833B").is_err());
}

#[test]
fn a_folder_listing_query_carries_its_filters_in_order() {
    let (sql, params) = drive_directory_query(
        "my-drive-ro",
        Some("Reports"),
        "  budget ",
        "finance",
        " pdf ",
        1,
        5_000_000_000,
        0,
        String::new(),
        " owner@example.edu ",
        true,
        "",
        "",
        "staff",
        false,
        "name",
        true,
    );
    assert!(sql.starts_with(DRIVE_DIRECTORY_SELECT));
    assert!(sql.ends_with("is_directory DESC, name COLLATE NOCASE DESC, name COLLATE NOCASE, item_id"));
    assert_eq!(params.len(), 15);
    let texts: Vec<String> = params
        .iter()
        .map(|p| match p {
            SqlParam::Text(t) => format!("T:{t}"),
            SqlParam::Integer(i) => format!("I:{i}"),
            SqlParam::Null => "N".to_string(),
        })
        .collect();
    assert_eq!(
        texts,
        vec![
            "T:my-drive-ro", "T:Reports", "T:budget", "T:finance", "T:pdf", "I:1", "I:5000000000", "I:0", "T:",
            "T:owner@example.edu", "I:1", "T:", "I:0", "T:", "T:staff",
        ]
    );
}

fn param_texts(params: &[SqlParam]) -> Vec<String> {
    params
        .iter()
        .map(|p| match p {
            SqlParam::Text(t) => format!("T:{t}"),
            SqlParam::Integer(i) => format!("I:{i}"),
            SqlParam::Null => "N".to_string(),
        })
        .collect()
}

#[test]
fn the_shared_drives_request_binds_each_argument_in_its_place() {
    let params = shared_drives_request(" budget ", "finance", ">= 10", "", "", "< 2024-01-01", " ada ", " reader ")
        .expect("filters accepted");
    assert_eq!(
        param_texts(&params),
        vec![
            "T:budget", "T:finance", "I:2", "I:10", "I:0", "I:0", "I:0", "I:0", "I:3", "T:2024-01-01", "T:ada",
            "T:reader",
        ]
    );
    let swapped = shared_drives_request("finance", "budget", ">= 10", "", "", "< 2024-01-01", "ada", "reader")
        .expect("filters accepted");
    assert_ne!(param_texts(&params), param_texts(&swapped));
}

#[test]
fn the_shared_drives_request_refuses_a_bad_filter() {
    assert!(shared_drives_request("", "", "", "", "5 parsecs", "", "", "").is_err());
    assert!(shared_drives_request("", "", "", "", "", "", "", "").is_ok());
}
