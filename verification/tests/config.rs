use boreal::config::boreal_home_outdated;
use boreal::config::set_boreal_home;
use boreal::config::{get_webapp_config, is_pseudo_name, resolve_all_directories, split_pseudo_path, ConfigError};
use boreal::json::JsonValue;

fn text(value: &str) -> JsonValue {
    JsonValue::Text(value.to_string())
}

fn object(entries: Vec<(&str, JsonValue)>) -> JsonValue {
    JsonValue::Object(entries.into_iter().map(|(name, value)| (name.to_string(), value)).collect())
}

fn with_dirs(dirs: Vec<(&str, JsonValue)>) -> JsonValue {
    object(vec![("BOREAL", object(vec![("DIRS", object(dirs))]))])
}

fn with_webapp(webapp: Vec<(&str, JsonValue)>) -> JsonValue {
    object(vec![("BOREAL", object(vec![("WEBAPP", object(webapp))]))])
}

#[test]
fn reads_the_web_interface_settings() {
    let doc = with_webapp(vec![
        ("listen", text("127.0.0.1")),
        ("port", JsonValue::Integer(8787)),
        ("open_browser", JsonValue::Bool(false)),
    ]);
    let config = get_webapp_config(&doc).unwrap();
    assert_eq!(config.listen, "127.0.0.1");
    assert_eq!(config.port, 8787);
    assert!(!config.open_browser);
}

#[test]
fn opens_the_browser_unless_told_otherwise() {
    let doc = with_webapp(vec![("listen", text("0.0.0.0")), ("port", JsonValue::Integer(80))]);
    let config = get_webapp_config(&doc).unwrap();
    assert!(config.open_browser);
}

#[test]
fn rejects_missing_or_invalid_web_settings() {
    let empty = object(vec![]);
    assert_eq!(get_webapp_config(&empty).unwrap_err().message(), "Missing BOREAL.WEBAPP in boreal.json");
    let no_listen = with_webapp(vec![("port", JsonValue::Integer(80))]);
    assert_eq!(
        get_webapp_config(&no_listen).unwrap_err().message(),
        "Missing or invalid BOREAL.WEBAPP.listen"
    );
    let text_port = with_webapp(vec![("listen", text("x")), ("port", text("80"))]);
    assert_eq!(get_webapp_config(&text_port).unwrap_err().message(), "Missing or invalid BOREAL.WEBAPP.port");
    let negative = with_webapp(vec![("listen", text("x")), ("port", JsonValue::Integer(-1))]);
    assert_eq!(get_webapp_config(&negative).unwrap_err().message(), "Missing or invalid BOREAL.WEBAPP.port");
    let large = with_webapp(vec![("listen", text("x")), ("port", JsonValue::Integer(70000))]);
    let error = get_webapp_config(&large).unwrap_err();
    assert!(matches!(error, ConfigError::PortOutOfRange(70000)));
    assert_eq!(error.message(), "Invalid BOREAL.WEBAPP.port: 70000");
}

#[test]
fn resolves_directories_through_pseudo_variables() {
    let doc = with_dirs(vec![
        ("data", text("HOME/data")),
        ("home", text("~/.boreal")),
        ("logs", text("/var/log/boreal")),
        ("sqlite", text("DATA\\sqlite")),
    ]);
    let dirs = resolve_all_directories(&doc, "/home/ada/.boreal").unwrap();
    let expected = vec![
        ("HOME".to_string(), "/home/ada/.boreal".to_string()),
        ("DATA".to_string(), "/home/ada/.boreal/data".to_string()),
        ("LOGS".to_string(), "/var/log/boreal".to_string()),
        ("SQLITE".to_string(), "/home/ada/.boreal/data/sqlite".to_string()),
    ];
    assert_eq!(dirs, expected);
}

#[test]
fn resolves_entries_in_any_order() {
    let doc = with_dirs(vec![
        ("cache", text("DATA/cache//tmp")),
        ("data", text("HOME/data")),
        ("home", text("~/.boreal")),
    ]);
    let dirs = resolve_all_directories(&doc, "/b").unwrap();
    assert_eq!(dirs.len(), 3);
    assert_eq!(dirs[1], ("CACHE".to_string(), "/b/data/cache/tmp".to_string()));
    assert_eq!(dirs[2], ("DATA".to_string(), "/b/data".to_string()));
}

#[test]
fn reports_circular_directories() {
    let doc = with_dirs(vec![("a", text("B/x")), ("b", text("A/y"))]);
    let error = resolve_all_directories(&doc, "/b").unwrap_err();
    assert_eq!(error.message(), "Unable to resolve BOREAL directories: A=B/x, B=A/y");
}

#[test]
fn reports_unknown_pseudo_variables_and_bad_entries() {
    let unknown = with_dirs(vec![("data", text("CACHE/x"))]);
    assert_eq!(
        resolve_all_directories(&unknown, "/b").unwrap_err().message(),
        "Unknown BOREAL directory pseudo-variable 'CACHE' in path 'CACHE/x'"
    );
    let literal = with_dirs(vec![("data", text("relative/x"))]);
    assert_eq!(resolve_all_directories(&literal, "/b").unwrap()[1].1, "relative/x");
    let not_text = with_dirs(vec![("data", JsonValue::Integer(3))]);
    assert_eq!(
        resolve_all_directories(&not_text, "/b").unwrap_err().message(),
        "BOREAL.DIRS.data must be a string"
    );
    let missing = object(vec![("BOREAL", object(vec![]))]);
    assert_eq!(resolve_all_directories(&missing, "/b").unwrap_err().message(), "Missing BOREAL.DIRS in boreal.json");
}

#[test]
fn splits_pseudo_paths_at_the_first_separator() {
    let chars: Vec<char> = "DATA/a\\b".chars().collect();
    let (prefix, rest) = split_pseudo_path(&chars).unwrap();
    assert_eq!(prefix.iter().collect::<String>(), "DATA");
    assert_eq!(rest.iter().collect::<String>(), "a\\b");
    let leading: Vec<char> = "/abs/path".chars().collect();
    assert!(split_pseudo_path(&leading).is_none());
    assert!(is_pseudo_name("DATA_2"));
    assert!(!is_pseudo_name("Data"));
    assert!(!is_pseudo_name(""));
}

#[test]
fn the_boreal_home_is_rewritten_only_when_it_differs() {
    let doc = |home: Option<&str>| {
        let mut dirs = vec![("bin".to_string(), JsonValue::Text("HOME/bin".to_string()))];
        if let Some(h) = home {
            dirs.push(("home".to_string(), JsonValue::Text(h.to_string())));
        }
        JsonValue::Object(vec![("BOREAL".to_string(), JsonValue::Object(vec![("DIRS".to_string(), JsonValue::Object(dirs))]))])
    };
    assert_eq!(boreal_home_outdated(&doc(Some("/home/ada/BOREAL")), "/home/ada/BOREAL").ok(), Some(false));
    assert_eq!(boreal_home_outdated(&doc(Some("")), "/home/ada/BOREAL").ok(), Some(true));
    assert_eq!(boreal_home_outdated(&doc(None), "/home/ada/BOREAL").ok(), Some(true));
    let missing = JsonValue::Object(vec![("BOREAL".to_string(), JsonValue::Object(Vec::new()))]);
    assert_eq!(boreal_home_outdated(&missing, "/x").err().map(|e| e.message()), Some("Missing BOREAL.DIRS in boreal.json".to_string()));
}

#[test]
fn a_directory_named_twice_keeps_its_later_value() {
    // The entries in the key order a parsed document gives them.
    let doc = with_dirs(vec![
        ("DATA", text("HOME/first")),
        ("data", text("HOME/second")),
        ("home", text("...")),
        ("logs", text("DATA/logs")),
    ]);
    let dirs = resolve_all_directories(&doc, "/h").unwrap();
    assert_eq!(
        dirs,
        vec![
            ("HOME".to_string(), "/h".to_string()),
            ("DATA".to_string(), "/h/second".to_string()),
            ("LOGS".to_string(), "/h/second/logs".to_string()),
        ]
    );
}

#[test]
fn the_documented_directories_resolve_exactly() {
    let doc = with_dirs(vec![
        ("conf", text("HOME/conf")),
        ("data", text("HOME/data")),
        ("home", text("...")),
        ("logs", text("HOME/logs")),
        ("sqlite", text("DATA/sqlite")),
    ]);
    let mut dirs = resolve_all_directories(&doc, "/h").unwrap();
    dirs.sort();
    assert_eq!(
        dirs,
        vec![
            ("CONF".to_string(), "/h/conf".to_string()),
            ("DATA".to_string(), "/h/data".to_string()),
            ("HOME".to_string(), "/h".to_string()),
            ("LOGS".to_string(), "/h/logs".to_string()),
            ("SQLITE".to_string(), "/h/data/sqlite".to_string()),
        ]
    );
}

#[test]
fn setting_the_home_writes_it_once() {
    let mut doc = with_dirs(vec![("bin", text("HOME/bin")), ("home", text("/old"))]);
    assert_eq!(set_boreal_home(&mut doc, "/home/ada/BOREAL").ok(), Some(true));
    assert_eq!(
        format!("{:?}", doc),
        format!("{:?}", with_dirs(vec![("bin", text("HOME/bin")), ("home", text("/home/ada/BOREAL"))]))
    );
    assert_eq!(set_boreal_home(&mut doc, "/home/ada/BOREAL").ok(), Some(false));
    assert_eq!(
        format!("{:?}", doc),
        format!("{:?}", with_dirs(vec![("bin", text("HOME/bin")), ("home", text("/home/ada/BOREAL"))]))
    );
}

#[test]
fn a_missing_home_is_added_and_a_missing_section_refused() {
    let mut doc = with_dirs(vec![("bin", text("HOME/bin"))]);
    assert_eq!(set_boreal_home(&mut doc, "/h").ok(), Some(true));
    assert_eq!(
        format!("{:?}", doc),
        format!("{:?}", with_dirs(vec![("bin", text("HOME/bin")), ("home", text("/h"))]))
    );
    let mut missing = object(vec![("BOREAL", object(Vec::new()))]);
    assert_eq!(
        set_boreal_home(&mut missing, "/h").err().map(|e| e.message()),
        Some("Missing BOREAL.DIRS in boreal.json".to_string())
    );
    assert_eq!(format!("{:?}", missing), format!("{:?}", object(vec![("BOREAL", object(Vec::new()))])));
}
