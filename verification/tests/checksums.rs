use boreal::checksum::{hex_text, sha256_hex, Sha256State};
use boreal::database::local_files::CachedChecksum;
use boreal::local_files::{checksum_actions, joined_path, scan, ChecksumAction, Item, ScanResult};

fn item(root: &str, path: &str, size: u64, is_directory: bool) -> Item {
    Item {
        root_path: root.to_string(),
        relative_path: path.to_string(),
        name: path.rsplit('/').next().unwrap().to_string(),
        extension: String::new(),
        is_directory,
        size_bytes: size,
        modified_unix: 100,
        checksum_sha256: String::new(),
    }
}

#[test]
fn computes_sha256_in_hexadecimal() {
    assert_eq!(sha256_hex(b"abc"), "ba7816bf8f01cfea414140de5dae2223b00361a396177a9cb410ff61f20015ad");
    assert_eq!(sha256_hex(b""), "e3b0c44298fc1c149afbf4c8996fb92427ae41e4649b934ca495991b7852b855");
    let mut state = Sha256State::new();
    state.update(b"a");
    state.update(b"bc");
    assert_eq!(state.hex_digest(), sha256_hex(b"abc"));
    assert_eq!(hex_text(&[0, 15, 16, 255]), "000f10ff");
}

#[test]
fn hashes_only_files_that_share_a_size() {
    let items = vec![
        item("/r", "a.bin", 10, false),
        item("/r", "b.bin", 10, false),
        item("/r", "c.bin", 11, false),
        item("/r", "dir", 0, true),
        item("/r", "empty", 0, false),
        item("/r", "d.bin", 10, false),
    ];
    let cached = vec![
        CachedChecksum {
            root_path: "/r".to_string(),
            relative_path: "b.bin".to_string(),
            size_bytes: 10,
            modified_unix: 100,
            checksum_sha256: "abc".to_string(),
        },
        CachedChecksum {
            root_path: "/r".to_string(),
            relative_path: "d.bin".to_string(),
            size_bytes: 10,
            modified_unix: 99,
            checksum_sha256: "old".to_string(),
        },
    ];
    let actions = checksum_actions(&items, &cached);
    assert!(matches!(actions[0], ChecksumAction::Compute));
    assert!(matches!(&actions[1], ChecksumAction::Reuse(h) if h == "abc"));
    assert!(matches!(actions[2], ChecksumAction::Skip));
    assert!(matches!(actions[3], ChecksumAction::Skip));
    assert!(matches!(actions[4], ChecksumAction::Skip));
    assert!(matches!(actions[5], ChecksumAction::Compute));

    let outcomes = vec![
        Ok("h0".to_string()),
        Ok(String::new()),
        Ok(String::new()),
        Ok(String::new()),
        Ok(String::new()),
        Err("permission denied".to_string()),
    ];
    let walked = ScanResult { items, skipped: 2, errors: vec!["/r/x: gone".to_string()] };
    let done = scan(walked, &actions, &outcomes);
    assert_eq!(done.items[0].checksum_sha256, "h0");
    assert_eq!(done.items[1].checksum_sha256, "abc");
    assert_eq!(done.items[2].checksum_sha256, "");
    assert_eq!(done.items[5].checksum_sha256, "");
    assert_eq!(done.skipped, 3);
    assert_eq!(done.errors, vec!["/r/x: gone".to_string(), "/r/d.bin: permission denied".to_string()]);
}

#[test]
fn joins_paths_as_the_standard_library_does() {
    assert_eq!(joined_path("/home/a", "docs/x"), "/home/a/docs/x");
    assert_eq!(joined_path("/home/a/", "x"), "/home/a/x");
    assert_eq!(joined_path("/home/a", "/abs"), "/abs");
}
