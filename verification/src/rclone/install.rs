//! Installing BOREAL's private Rclone: which release fits the machine,
//! where it is downloaded from, and whether the download is whole.
use vstd::prelude::*;

use crate::text::{chars_of, decimal, push_decimal, push_str, string_of};

verus! {

/// The Rclone release name for an operating system and architecture (as
/// Rust names them), if BOREAL installs Rclone there.
pub open spec fn platform_of(os: Seq<char>, arch: Seq<char>) -> Option<Seq<char>> {
    if os == "linux"@ && arch == "x86_64"@ {
        Some("linux-amd64"@)
    } else if os == "linux"@ && arch == "aarch64"@ {
        Some("linux-arm64"@)
    } else if os == "linux"@ && arch == "arm"@ {
        Some("linux-arm-v7"@)
    } else if os == "macos"@ && arch == "x86_64"@ {
        Some("osx-amd64"@)
    } else if os == "macos"@ && arch == "aarch64"@ {
        Some("osx-arm64"@)
    } else if os == "windows"@ && arch == "x86_64"@ {
        Some("windows-amd64"@)
    } else {
        None
    }
}

/// The Rclone release for the machine, or why there is none.
pub fn rclone_platform(os: &str, arch: &str) -> (result: Result<&'static str, String>)
    ensures
        match platform_of(os@, arch@) {
            Some(p) => result matches Ok(r) && r@ == p,
            None => result matches Err(m) && m@ == "BOREAL does not currently support Rclone installation on OS '"@
                + os@ + "' architecture '"@ + arch@ + "'"@,
        },
{
    let o = chars_of(os);
    let a = chars_of(arch);
    let linux = crate::text::equals_str(o.as_slice(), "linux");
    let macos = crate::text::equals_str(o.as_slice(), "macos");
    let windows = crate::text::equals_str(o.as_slice(), "windows");
    let x86 = crate::text::equals_str(a.as_slice(), "x86_64");
    let arm64 = crate::text::equals_str(a.as_slice(), "aarch64");
    let arm = crate::text::equals_str(a.as_slice(), "arm");
    if linux && x86 {
        Ok("linux-amd64")
    } else if linux && arm64 {
        Ok("linux-arm64")
    } else if linux && arm {
        Ok("linux-arm-v7")
    } else if macos && x86 {
        Ok("osx-amd64")
    } else if macos && arm64 {
        Ok("osx-arm64")
    } else if windows && x86 {
        Ok("windows-amd64")
    } else {
        let mut v = chars_of("BOREAL does not currently support Rclone installation on OS '");
        push_str(&mut v, os);
        push_str(&mut v, "' architecture '");
        push_str(&mut v, arch);
        push_str(&mut v, "'");
        Err(string_of(v.as_slice()))
    }
}

/// Where the current Rclone release for a platform is downloaded from.
pub fn download_url(platform: &str) -> (url: String)
    ensures
        url@ == "https://downloads.rclone.org/rclone-current-"@ + platform@ + ".zip"@,
{
    let mut v = chars_of("https://downloads.rclone.org/rclone-current-");
    push_str(&mut v, platform);
    push_str(&mut v, ".zip");
    string_of(v.as_slice())
}

/// A download is whole when it holds as many bytes as the server announced
/// (when it announced any).
pub fn check_download_length(copied: u64, expected: Option<u64>) -> (result: Result<(), String>)
    ensures
        match expected {
            Some(e) => if copied == e {
                result is Ok
            } else {
                result matches Err(m) && m@ == "Rclone download ended early: received "@ + decimal(copied as nat)
                    + " of "@ + decimal(e as nat) + " bytes"@
            },
            None => result is Ok,
        },
{
    match expected {
        Some(e) => if copied == e {
            Ok(())
        } else {
            let mut v = chars_of("Rclone download ended early: received ");
            push_decimal(&mut v, copied);
            push_str(&mut v, " of ");
            push_decimal(&mut v, e);
            push_str(&mut v, " bytes");
            Err(string_of(v.as_slice()))
        },
        None => Ok(()),
    }
}

/// The name of the Rclone executable inside the release archive.
pub fn executable_name(windows: bool) -> (name: &'static str)
    ensures
        name@ == (if windows {
            "rclone.exe"@
        } else {
            "rclone"@
        }),
{
    if windows {
        "rclone.exe"
    } else {
        "rclone"
    }
}

} // verus!
