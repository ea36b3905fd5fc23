//! Running BOREAL's Rclone executable.
use vstd::prelude::*;

use crate::local_files::{
    lines_of,
    text_lines,
};
use crate::text::{
    push_str,
    string_of,
    trim,
    trim_chars,
};

verus! {

/// Why `rclone version` gave no version.
#[derive(Debug, Clone)]
pub enum VersionError {
    /// The command failed; its trimmed error output.
    Failed { executable: String, stderr: String },
    /// The command printed no version line.
    Empty { executable: String },
}

impl VersionError {
    pub fn message(&self) -> (result: String)
        ensures
            result@ == match *self {
                VersionError::Failed { executable, stderr } => "Rclone version check failed for "@
                    + executable@ + ": "@ + trim(stderr@),
                VersionError::Empty { executable } => "Rclone returned no version information: "@
                    + executable@,
            },
    {
        let mut text: Vec<char> = Vec::new();
        match self {
            VersionError::Failed { executable, stderr } => {
                push_str(&mut text, "Rclone version check failed for ");
                push_str(&mut text, executable.as_str());
                push_str(&mut text, ": ");
                let t = crate::text::trim_str(stderr.as_str());
                crate::text::push_chars(&mut text, t.as_slice());
            },
            VersionError::Empty { executable } => {
                push_str(&mut text, "Rclone returned no version information: ");
                push_str(&mut text, executable.as_str());
            },
        }
        assert(text@ =~= match *self {
            VersionError::Failed { executable, stderr } => "Rclone version check failed for "@
                + executable@ + ": "@ + trim(stderr@),
            VersionError::Empty { executable } => "Rclone returned no version information: "@
                + executable@,
        });
        string_of(text.as_slice())
    }
}

/// The version line of `rclone version`: the first line of its output,
/// trimmed, when not blank.
pub open spec fn version_line(stdout: Seq<char>) -> Option<Seq<char>> {
    let lines = text_lines(stdout);
    if lines.len() > 0 && trim(lines[0]).len() > 0 {
        Some(trim(lines[0]))
    } else {
        None
    }
}

/// Reads the result of running `rclone version`: the version line on
/// success, else why there is none.
pub fn version(executable: &str, succeeded: bool, stdout: &str, stderr: &str) -> (result: Result<
    String,
    VersionError,
>)
    ensures
        !succeeded ==> result matches Err(VersionError::Failed { .. }),
        succeeded ==> match version_line(stdout@) {
            Some(v) => result matches Ok(r) && r@ == v,
            None => result matches Err(VersionError::Empty { .. }),
        },
{
    if !succeeded {
        return Err(
            VersionError::Failed {
                executable: crate::text::string_from(executable),
                stderr: crate::text::string_from(stderr),
            },
        );
    }
    let lines = lines_of(stdout);
    if lines.len() > 0 {
        let first = trim_chars(lines[0].as_slice());
        if first.len() > 0 {
            return Ok(string_of(first.as_slice()));
        }
    }
    Err(VersionError::Empty { executable: crate::text::string_from(executable) })
}

} // verus!
