//! S3 buckets reached through an Rclone remote.
use vstd::prelude::*;

use crate::text::{
    char_is_ascii_alphanumeric,
    is_ascii_alphanumeric,
    strip_trailing,
    strip_trailing_char,
    string_of,
    trim,
    trim_str,
};

verus! {

/// One object (or prefix) of a bucket listing.
#[derive(Debug, Clone)]
pub struct Object {
    pub path: String,
    pub name: String,
    pub size_bytes: u64,
    pub modified_at: String,
    pub is_directory: bool,
    pub mime_type: String,
    pub checksum: String,
}

/// A listed size as stored: negative sizes count as 0.
pub fn listed_size(size: i64) -> (result: u64)
    ensures
        result == if size > 0 { size as u64 } else { 0 },
{
    if size > 0 {
        size as u64
    } else {
        0
    }
}

/// Characters allowed in an Rclone remote name.
pub open spec fn remote_name_char(c: char) -> bool {
    is_ascii_alphanumeric(c) || c == '-' || c == '_' || c == '.' || c == ' '
}

/// The remote name as typed, trimmed and without its trailing colons.
pub open spec fn normalized_remote_name(value: Seq<char>) -> Seq<char> {
    strip_trailing(trim(value), ':')
}

pub open spec fn valid_remote_name(name: Seq<char>) -> bool {
    name.len() > 0 && forall|i: int| 0 <= i < name.len() ==> remote_name_char(#[trigger] name[i])
}

/// A remote name that Rclone would not accept.
#[derive(Debug, Clone, Copy, PartialEq, Eq, Structural)]
pub struct InvalidRemoteName;

impl InvalidRemoteName {
    pub fn message(&self) -> (result: &'static str)
        ensures
            result@ == "Enter a valid Rclone remote name"@,
    {
        "Enter a valid Rclone remote name"
    }
}

/// The remote's name without surrounding blanks or trailing `:`, when it is
/// non-empty and made of ASCII letters, digits, `-`, `_`, `.` and spaces.
pub fn validate_remote_name(value: &str) -> (result: Result<String, InvalidRemoteName>)
    ensures
        match result {
            Ok(name) => name@ == normalized_remote_name(value@) && valid_remote_name(name@),
            Err(_) => !valid_remote_name(normalized_remote_name(value@)),
        },
{
    let trimmed = trim_str(value);
    let name = strip_trailing_char(trimmed.as_slice(), ':');
    if name.len() == 0 {
        return Err(InvalidRemoteName);
    }
    let mut i: usize = 0;
    while i < name.len()
        invariant
            i <= name@.len(),
            name@ == normalized_remote_name(value@),
            forall|k: int| 0 <= k < i ==> remote_name_char(#[trigger] name@[k]),
        decreases name@.len() - i,
    {
        let c = name[i];
        if !(char_is_ascii_alphanumeric(c) || c == '-' || c == '_' || c == '.' || c == ' ') {
            assert(!remote_name_char(name@[i as int]));
            return Err(InvalidRemoteName);
        }
        i = i + 1;
    }
    Ok(string_of(name.as_slice()))
}


/// The Rclone arguments that list a whole bucket with checksums.
pub open spec fn inventory_arguments_are(args: Seq<Seq<char>>, remote: Seq<char>, config_path: Seq<char>) -> bool {
    args == seq![
        "lsjson"@,
        remote + ":"@,
        "--recursive"@,
        "--fast-list"@,
        "--hash"@,
        "--config"@,
        config_path,
    ]
}

/// The Rclone arguments that list a bucket, for a valid remote name.
pub fn inventory_arguments(remote_name: &str, config_path: &str) -> (result: Result<Vec<String>, InvalidRemoteName>)
    ensures
        valid_remote_name(normalized_remote_name(remote_name@)) <==> result is Ok,
        result matches Ok(args) ==> inventory_arguments_are(
            args@.map_values(|a: String| a@),
            normalized_remote_name(remote_name@),
            config_path@,
        ),
{
    let name = validate_remote_name(remote_name)?;
    let mut target = crate::text::chars_of(name.as_str());
    target.push(':');
    let args = vec![
        crate::text::string_from("lsjson"),
        string_of(target.as_slice()),
        crate::text::string_from("--recursive"),
        crate::text::string_from("--fast-list"),
        crate::text::string_from("--hash"),
        crate::text::string_from("--config"),
        crate::text::string_from(config_path),
    ];
    proof {
        reveal_strlit(":");
        assert(":"@ =~= seq![':']);
        assert(target@ =~= normalized_remote_name(remote_name@) + ":"@);
    }
    assert(args@.map_values(|a: String| a@) =~= seq![
        "lsjson"@,
        normalized_remote_name(remote_name@) + ":"@,
        "--recursive"@,
        "--fast-list"@,
        "--hash"@,
        "--config"@,
        config_path@,
    ]);
    Ok(args)
}

/// Why a bucket could not be listed.
pub fn inventory_error(remote_name: &str, stderr: &str) -> (message: String)
    ensures
        message@ == "Unable to inventory S3 remote "@ + remote_name@ + ": "@ + trim(stderr@),
{
    let mut v = crate::text::chars_of("Unable to inventory S3 remote ");
    crate::text::push_str(&mut v, remote_name);
    crate::text::push_str(&mut v, ": ");
    crate::text::push_chars(&mut v, trim_str(stderr).as_slice());
    string_of(v.as_slice())
}

/// One listed object as BOREAL keeps it: negative sizes count as 0 and the
/// checksum is the first the listing gives (by hash name), if any.
pub fn object_from_listing(
    path: String,
    name: String,
    size: i64,
    mod_time: String,
    is_dir: bool,
    mime_type: String,
    hashes: &Vec<(String, String)>,
) -> (object: Object)
    ensures
        object.path == path,
        object.name == name,
        object.size_bytes == (if size > 0 { size as u64 } else { 0 }),
        object.modified_at == mod_time,
        object.is_directory == is_dir,
        object.mime_type == mime_type,
        hashes@.len() > 0 ==> object.checksum@ == hashes@[0].1@,
        hashes@.len() == 0 ==> object.checksum@ == Seq::<char>::empty(),
{
    let checksum = if hashes.len() > 0 {
        crate::text::string_from(hashes[0].1.as_str())
    } else {
        String::new()
    };
    Object { path, name, size_bytes: listed_size(size), modified_at: mod_time, is_directory: is_dir, mime_type, checksum }
}

} // verus!
