use boreal::s3::validate_remote_name;

#[test]
fn validates_rclone_remote_names() {
    assert_eq!(validate_remote_name("research-s3:").unwrap(), "research-s3");
    assert!(validate_remote_name("").is_err());
    assert!(validate_remote_name("s3:bucket").is_err());
}
