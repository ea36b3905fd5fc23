use boreal::logging::{format_date, format_timestamp, log_file_name, log_line, LocalTime};
use boreal::rclone::install::{check_download_length, download_url, executable_name, rclone_platform};

fn moment() -> LocalTime {
    LocalTime { year: 2026, month: 3, day: 7, hour: 4, minute: 5, second: 9, millisecond: 42 }
}

#[test]
fn formats_requested_log_file_name() {
    let name = log_file_name(&format_date(moment()));
    assert_eq!(name.len(), "YYYY-MM-DD.boreal.log".len());
    assert!(name.ends_with(".boreal.log"));
    assert_eq!(name, "2026-03-07.boreal.log");
}

#[test]
fn formats_log_timestamps_and_lines() {
    assert_eq!(format_timestamp(moment()), "2026-03-07T04:05:09.042");
    assert_eq!(
        log_line(moment(), "INFO", "boreal::web", "started"),
        "2026-03-07T04:05:09.042 INFO  [boreal::web] started\n"
    );
    let odd = LocalTime { year: -5, month: 12, day: 31, hour: 23, minute: 59, second: 60, millisecond: 1234 };
    assert_eq!(format_timestamp(odd), "-005-12-31T23:59:60.1234");
}

#[test]
fn picks_the_rclone_release_for_the_machine() {
    assert_eq!(rclone_platform("linux", "x86_64"), Ok("linux-amd64"));
    assert_eq!(rclone_platform("macos", "aarch64"), Ok("osx-arm64"));
    assert_eq!(rclone_platform("windows", "x86_64"), Ok("windows-amd64"));
    assert_eq!(
        rclone_platform("freebsd", "x86_64").unwrap_err(),
        "BOREAL does not currently support Rclone installation on OS 'freebsd' architecture 'x86_64'"
    );
    assert_eq!(download_url("linux-amd64"), "https://downloads.rclone.org/rclone-current-linux-amd64.zip");
    assert_eq!(executable_name(true), "rclone.exe");
    assert_eq!(executable_name(false), "rclone");
}

#[test]
fn notices_a_short_download() {
    assert!(check_download_length(20, Some(20)).is_ok());
    assert!(check_download_length(20, None).is_ok());
    assert_eq!(
        check_download_length(10, Some(20)).unwrap_err(),
        "Rclone download ended early: received 10 of 20 bytes"
    );
}
