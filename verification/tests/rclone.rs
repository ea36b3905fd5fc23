use boreal::json::JsonValue;
use boreal::rclone::download::safe_local_name;
use boreal::rclone::identity::{identity_from_value, parse_google_sheet_url, remote_setting, string_field, SheetUrlError};
use boreal::rclone::remotes::{classify_remote, DetectedRemote, RemoteKind};

fn object(entries: &[(&str, &str)]) -> JsonValue {
    JsonValue::Object(
        entries.iter().map(|(k, v)| (k.to_string(), JsonValue::Text(v.to_string()))).collect(),
    )
}

const CLIENT: &str = "test.apps.googleusercontent.com";

#[test]
fn makes_cross_platform_local_names() {
    assert_eq!(safe_local_name("Budget: 2026/Final?.xlsx"), "Budget_ 2026_Final_.xlsx");
    assert_eq!(safe_local_name(".."), "Drive item");
    assert_eq!(safe_local_name("CON.txt"), "_CON.txt");
}

#[test]
fn reads_common_userinfo_field_names() {
    let value = object(&[("Email", "user@example.edu"), ("DisplayName", "Example User"), ("ID", "123")]);
    assert_eq!(string_field(&value, &["email", "Email"]).as_deref(), Some("user@example.edu"));
    assert_eq!(string_field(&value, &["displayName", "DisplayName"]).as_deref(), Some("Example User"));
}

#[test]
fn reads_token_only_from_requested_remote() {
    let config = "[other]\ntoken = wrong\n[my-drive-ro]\ntype = drive\ntoken = {\"access_token\":\"secret\"}\n";
    assert_eq!(
        remote_setting(config, "my-drive-ro", "token").as_deref(),
        Some("{\"access_token\":\"secret\"}"),
    );
}

#[test]
fn parses_google_sheet_and_worksheet_ids() {
    let location =
        parse_google_sheet_url("https://docs.google.com/spreadsheets/d/abc_DEF-123/edit?gid=42#gid=42")
            .expect("Google Sheets URL should parse");
    assert_eq!(location.spreadsheet_id, "abc_DEF-123");
    assert_eq!(location.gid, "42");
}

#[test]
fn refuses_urls_that_are_not_sheets() {
    assert!(matches!(
        parse_google_sheet_url("https://example.edu/sheet"),
        Err(SheetUrlError::NotASheet)
    ));
}

#[test]
fn uses_expected_remote_names_and_scopes() {
    assert_eq!(RemoteKind::MyDriveRw.name(), "my-drive-rw");
    assert_eq!(RemoteKind::MyDriveRw.scope(), "drive");
    assert_eq!(RemoteKind::MyDriveRo.name(), "my-drive-ro");
    assert_eq!(RemoteKind::MyDriveRo.scope(), "drive.readonly");
}

#[test]
fn recognizes_a_ready_remote() {
    let remote = object(&[
        ("type", "drive"),
        ("scope", "drive.readonly"),
        ("client_id", CLIENT),
        ("token", "{\"refresh_token\":\"token\"}"),
    ]);
    assert!(matches!(classify_remote(&remote, CLIENT, RemoteKind::MyDriveRo), Ok(DetectedRemote::Ready)));
}

#[test]
fn rejects_a_conflicting_scope() {
    let remote = object(&[("type", "drive"), ("scope", "drive"), ("client_id", CLIENT), ("token", "token")]);
    let error = classify_remote(&remote, CLIENT, RemoteKind::MyDriveRo)
        .err()
        .expect("scope conflict should fail");
    assert!(error.message().contains("expected 'drive.readonly'"));
}

#[test]
fn a_remote_without_a_token_needs_authorization() {
    let remote = object(&[("type", "drive"), ("scope", "drive"), ("client_id", CLIENT)]);
    assert!(matches!(
        classify_remote(&remote, CLIENT, RemoteKind::MyDriveRw),
        Ok(DetectedRemote::NeedsAuthorization)
    ));
}

#[test]
fn builds_an_identity_from_a_userinfo_answer() {
    let value = object(&[("emailAddress", " ada@example.edu "), ("name", "   "), ("permissionId", "42")]);
    let identity = identity_from_value(&value, "{raw}".to_string());
    assert_eq!(identity.email.as_deref(), Some("ada@example.edu"));
    assert_eq!(identity.display_name, None);
    assert_eq!(identity.account_id.as_deref(), Some("42"));
    assert_eq!(identity.raw_json, "{raw}");
}
