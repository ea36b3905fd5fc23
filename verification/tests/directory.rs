use boreal::database::directory::{import_csv, parse_csv, parse_date_filter, plan_import, valid_email, ImportError};
use boreal::database::{Database, DatabaseError, Rejection};

#[test]
fn parses_quoted_csv_fields_and_newlines() {
    let rows = parse_csv("email,notes\r\na@example.edu,\"One, two\"\r\nb@example.edu,\"Line 1\nLine 2\"\n")
        .expect("CSV should parse");
    assert_eq!(rows.len(), 3);
    assert_eq!(rows[1][1], "One, two");
    assert_eq!(rows[2][1], "Line 1\nLine 2");
}

#[test]
fn refuses_an_unterminated_quote() {
    let error = parse_csv("email\n\"open").err().expect("an open quote should be refused");
    assert_eq!(error.message(), "Directory CSV contains an unterminated quoted field");
}

#[test]
fn doubled_quotes_stand_for_one_quote() {
    let rows = parse_csv("a,\"say \"\"hi\"\"\"\n").expect("CSV should parse");
    assert_eq!(rows, vec![vec!["a".to_string(), "say \"hi\"".to_string()]]);
}

#[test]
fn recognizes_simple_email_addresses() {
    assert!(valid_email("person@example.edu"));
    assert!(!valid_email("person.example.edu"));
    assert!(!valid_email("@example.edu"));
    assert!(!valid_email("person@example"));
}

#[test]
fn parses_departure_date_filters() {
    assert_eq!(parse_date_filter("").unwrap(), (0, String::new()));
    let error = parse_date_filter(" soon ").err().expect("a word is no date");
    assert_eq!(error.message(), "Invalid departure-date filter 'soon'. Try <2026-12-31.");
}

#[test]
fn plans_an_import_without_an_email_column_as_refused() {
    match plan_import("name,notes\nAda,first\n") {
        Err(ImportError::NoEmailColumn) => {}
        _ => panic!("an import without an email column must be refused"),
    }
    match plan_import("") {
        Err(ImportError::Empty) => {}
        _ => panic!("an empty import must be refused"),
    }
}

#[test]
fn rows_with_an_invalid_address_are_the_rejected_ones() {
    let plan = plan_import(
        "Name,Primary Email\nAda, ADA@Example.edu \n,,\nBob,not-an-address\nCy,cy@example\n\"Di\",di@example.org\n",
    )
    .ok()
    .expect("the plan should be made");
    assert_eq!(plan.rows_seen, 4);
    assert_eq!(plan.rows_rejected, 2);
    let emails: Vec<&str> = plan.people.iter().map(|p| p.email.as_str()).collect();
    assert_eq!(emails, vec!["ada@example.edu", "di@example.org"]);
}

#[test]
fn an_import_that_is_not_utf8_is_refused_before_any_write() {
    let mut database = Database::at("/nonexistent/boreal-test/none.sqlite".to_string());
    match import_csv(&mut database, "people.csv", &[0xff, 0xfe, b'a']) {
        Err(DatabaseError::Rejected(Rejection::InvalidImport(message))) => {
            assert_eq!(message, "Directory CSV must use UTF-8 encoding")
        },
        other => panic!("expected a refusal, got {:?}", other.err()),
    }
}

#[test]
fn an_import_without_an_email_column_is_refused_before_any_write() {
    let mut database = Database::at("/nonexistent/boreal-test/none.sqlite".to_string());
    match import_csv(&mut database, "people.csv", b"name,type\nAda,person\n") {
        Err(DatabaseError::Rejected(Rejection::InvalidImport(_))) => {},
        other => panic!("expected a refusal, got {:?}", other.err()),
    }
}
