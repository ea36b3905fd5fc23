use boreal::rclone::inventory::{listing_arguments, ListingScope};
use boreal::github::{after_page, check_credentials, repositories_query, token_to_save, Credentials, ListingStep};
use boreal::keeper::{commander_file_name, session_status, sort_folders, SharedFolder};
use boreal::rclone::gui::{gui_failure_message, gui_url_in, remember_line};
use boreal::rclone::remotes::{configure_arguments, configure_error, unusable_remote_message, DetectedRemote, RemoteKind};
use boreal::s3::{inventory_arguments, inventory_error, object_from_listing};

#[test]
fn lists_an_s3_bucket_with_checksums() {
    let args = inventory_arguments(" research-s3: ", "/c/rclone.conf").unwrap();
    assert_eq!(
        args,
        vec!["lsjson", "research-s3:", "--recursive", "--fast-list", "--hash", "--config", "/c/rclone.conf"]
    );
    assert!(inventory_arguments("s3:bucket", "/c").is_err());
    assert_eq!(inventory_error("lab", " denied \n"), "Unable to inventory S3 remote lab: denied");
    let hashes = vec![("md5".to_string(), "abc".to_string()), ("sha1".to_string(), "def".to_string())];
    let object = object_from_listing(
        "a/b.txt".to_string(),
        "b.txt".to_string(),
        -3,
        "2026-01-01".to_string(),
        false,
        "text/plain".to_string(),
        &hashes,
    );
    assert_eq!(object.size_bytes, 0);
    assert_eq!(object.checksum, "abc");
}

#[test]
fn pages_through_github_repositories() {
    assert_eq!(after_page(1, 100), ListingStep::NextPage(2));
    assert_eq!(after_page(3, 42), ListingStep::Complete);
    assert_eq!(after_page(100, 100), ListingStep::TooMany);
    let query = repositories_query(7);
    assert_eq!(query[1], ("page".to_string(), "7".to_string()));
    assert_eq!(query[3].1, "owner,collaborator,organization_member");
    assert_eq!(token_to_save("  ghp_x \n").unwrap(), "ghp_x");
    assert_eq!(token_to_save("   ").unwrap_err(), "Enter a GitHub access token");
    assert_eq!(check_credentials(Credentials { token: " ".to_string() }).unwrap_err(), "GitHub token is empty");
}

#[test]
fn reads_keeper_sessions_and_sorts_folders() {
    assert_eq!(session_status("  Logged in as ops\n").unwrap(), "Logged in as ops");
    assert_eq!(
        session_status("\n").unwrap_err(),
        "Keeper Commander did not report an authenticated session"
    );
    assert_eq!(commander_file_name(true), "keeper.exe");
    let folder = |name: &str| SharedFolder {
        folder_uid: name.to_string(),
        name: name.to_string(),
        folder_type: String::new(),
        folder_path: String::new(),
        access: Vec::new(),
    };
    let sorted = sort_folders(vec![folder("beta"), folder("Alpha"), folder("alpha2")]);
    assert_eq!(sorted.iter().map(|f| f.name.as_str()).collect::<Vec<_>>(), vec!["Alpha", "alpha2", "beta"]);
}

#[test]
fn sets_up_google_remotes() {
    let create = configure_arguments(RemoteKind::MyDriveRo, DetectedRemote::Missing, "id", "secret", "/c").unwrap();
    assert_eq!(
        create,
        vec![
            "config", "create", "my-drive-ro", "drive", "client_id", "id", "client_secret", "secret", "scope",
            "drive.readonly", "--config", "/c",
        ]
    );
    let reconnect =
        configure_arguments(RemoteKind::MyDriveRw, DetectedRemote::NeedsAuthorization, "id", "s", "/c").unwrap();
    assert_eq!(reconnect, vec!["config", "reconnect", "my-drive-rw:", "--config", "/c"]);
    assert!(configure_arguments(RemoteKind::MyDriveRw, DetectedRemote::Ready, "id", "s", "/c").is_none());
    assert_eq!(configure_error(RemoteKind::MyDriveRw, "bad\n"), "Rclone could not configure My Drive RW: bad");
    assert_eq!(unusable_remote_message(RemoteKind::MyDriveRo), "Rclone finished without a usable My Drive RO remote");
}

#[test]
fn watches_the_rclone_gui_start() {
    assert_eq!(
        gui_url_in("2026/01/01 NOTICE: GUI available at http://127.0.0.1:5572/ ").as_deref(),
        Some("http://127.0.0.1:5572/")
    );
    assert_eq!(gui_url_in("Serving remote control"), None);
    let mut output: Vec<String> = Vec::new();
    for k in 0..14 {
        remember_line(&mut output, format!("line {k}"));
    }
    assert_eq!(output.len(), 12);
    assert_eq!(output[0], "line 2");
    assert_eq!(
        gui_failure_message(Some("exit status: 1".to_string()), &vec!["a".to_string(), "b".to_string()], "closed"),
        "Rclone WebGUI exited before becoming ready (exit status: 1): a | b"
    );
    assert_eq!(
        gui_failure_message(None, &Vec::new(), "timed out"),
        "Rclone WebGUI exited before becoming ready: no diagnostic output; readiness channel closed: timed out"
    );
}

#[test]
fn lists_drive_inventories_with_rclone() {

    let my_drive = listing_arguments("/c/rclone.conf", false, &ListingScope::MyDrive);
    assert_eq!(
        my_drive,
        vec![
            "lsjson", "my-drive-ro:", "--recursive", "--metadata", "--drive-metadata-owner=read", "--fast-list",
            "--config", "/c/rclone.conf",
        ]
    );
    let shared = listing_arguments("/c", true, &ListingScope::SharedDrive("0AB".to_string()));
    assert_eq!(shared.len(), 13);
    assert_eq!(shared[8], "--drive-metadata-permissions=read");
    assert_eq!(&shared[9..], &["--drive-team-drive", "0AB", "--drive-root-folder-id", ""]);
    let with_me = listing_arguments("/c", false, &ListingScope::SharedWithMe);
    assert_eq!(with_me.last().map(String::as_str), Some("--drive-shared-with-me"));
}
