use boreal::local_files::{validate_roots, wildcard_match, LocalRoot, RootProblem};

#[test]
fn wildcard_patterns_match_paths() {
    assert!(wildcard_match("Downloads/*.iso", "Downloads/archive.iso"));
    assert!(wildcard_match("**/cache*", "work/cache-data"));
    assert!(!wildcard_match("*.zip", "Downloads/archive.iso"));
}

#[test]
fn rejects_missing_roots() {
    let missing = LocalRoot { path: format!("/tmp/boreal-missing-{}", 7), is_directory: false };
    assert!(validate_roots(&[missing]).is_err());
}

#[test]
fn rejects_empty_relative_and_repeated_roots() {
    let empty = validate_roots(&[]).err().expect("no roots is an error");
    assert!(matches!(empty.problem, RootProblem::Empty));
    assert_eq!(empty.message(), "Add at least one local folder");
    let relative = LocalRoot { path: "Documents".to_string(), is_directory: true };
    let error = validate_roots(&[relative]).err().expect("a relative root is an error");
    assert!(matches!(error.problem, RootProblem::NotAbsolute));
    let root = LocalRoot { path: "/srv/data".to_string(), is_directory: true };
    let error = validate_roots(&[root.clone(), root.clone()]).err().expect("a repeated root is an error");
    assert!(matches!(error.problem, RootProblem::Duplicate));
    assert!(validate_roots(&[root]).is_ok());
}
