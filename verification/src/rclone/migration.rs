//! The decisions around copying My Drive items into a destination folder:
//! whether a folder can be a destination, whether the copy may start, and
//! the Rclone remotes and arguments each copy uses.  Running Rclone and
//! asking Google is left to the caller, which hands the answers back here.
use vstd::prelude::*;

use crate::database::migration::MigrationSource;
use crate::keeper::without_leading;
use crate::rclone::identity::GoogleDriveFolder;
use crate::rclone::inventory::SharedDrive;
use crate::rclone::remotes::{kind_name, RemoteKind};
use crate::text::{chars_of, chars_equal, push_chars, push_str, string_from, string_of, trim, trim_str};

verus! {

/// A checked migration destination: the Shared Drive (none for My Drive)
/// and the folder inside it.
#[derive(Debug, Clone)]
pub struct SharedDriveDestination {
    pub drive_id: String,
    pub drive_name: String,
    pub folder_id: String,
    pub folder_name: String,
}

/// What the destination folder alone decides.
#[derive(Debug, Clone)]
pub enum DestinationCheck {
    /// The folder is in My Drive and My Drive is acceptable.
    Ready(SharedDriveDestination),
    /// The folder cannot be a destination.
    Refused(String),
    /// The folder is in a Shared Drive: the account's Shared Drives decide.
    NeedsSharedDrives,
}

/// The first step of checking a destination folder: a My Drive folder is
/// accepted unless a Shared Drive is required; a Shared Drive folder needs
/// the account's Shared Drives (`destination_in_drives`).
pub fn check_destination_folder(folder: &GoogleDriveFolder, require_shared_drive: bool) -> (check: DestinationCheck)
    ensures
        folder.drive_id@.len() == 0 && require_shared_drive ==> (check matches DestinationCheck::Refused(m) && m@
            == "My Drive migrations require a Shared Drive destination folder"@),
        folder.drive_id@.len() == 0 && !require_shared_drive ==> (check matches DestinationCheck::Ready(d)
            && d.drive_id@ == Seq::<char>::empty() && d.drive_name@ == "My Drive"@ && d.folder_id@ == folder.id@
            && d.folder_name@ == folder.name@),
        folder.drive_id@.len() > 0 ==> check is NeedsSharedDrives,
{
    if chars_of(folder.drive_id.as_str()).len() == 0 {
        if require_shared_drive {
            return DestinationCheck::Refused(string_from("My Drive migrations require a Shared Drive destination folder"));
        }
        return DestinationCheck::Ready(
            SharedDriveDestination {
                drive_id: String::new(),
                drive_name: string_from("My Drive"),
                folder_id: string_from(folder.id.as_str()),
                folder_name: string_from(folder.name.as_str()),
            },
        );
    }
    DestinationCheck::NeedsSharedDrives
}

/// `i` is the first drive with this id.
pub open spec fn first_drive_with_id(drives: Seq<SharedDrive>, id: Seq<char>, i: int) -> bool {
    &&& 0 <= i < drives.len()
    &&& drives[i].id@ == id
    &&& forall|j: int| 0 <= j < i ==> (#[trigger] drives[j]).id@ != id
}

/// The second step for a folder in a Shared Drive: that drive must be one of
/// the account's Shared Drives.  A drive's own root folder takes the drive's
/// name.
pub fn destination_in_drives(folder: &GoogleDriveFolder, drives: &Vec<SharedDrive>) -> (result: Result<
    SharedDriveDestination,
    String,
>)
    ensures
        drives@.len() == 0 ==> (result matches Err(m) && m@
            == "The authenticated read-only account cannot access any Shared Drives"@),
        drives@.len() > 0 && (forall|j: int| 0 <= j < drives@.len() ==> (#[trigger] drives@[j]).id@ != folder.drive_id@)
            ==> (result matches Err(m) && m@
            == "The destination belongs to a Shared Drive that is not available to the authenticated read-only account"@),
        result matches Ok(d) ==> exists|i: int| #[trigger]
            first_drive_with_id(drives@, folder.drive_id@, i) && d.drive_id@ == drives@[i].id@ && d.drive_name@
                == drives@[i].name@ && d.folder_id@ == folder.id@ && d.folder_name@ == (if folder.id@ == drives@[i].id@ {
                drives@[i].name@
            } else {
                folder.name@
            }),
        (exists|i: int| 0 <= i < drives@.len() && (#[trigger] drives@[i]).id@ == folder.drive_id@) ==> result is Ok,
{
    if drives.len() == 0 {
        return Err(string_from("The authenticated read-only account cannot access any Shared Drives"));
    }
    let wanted = chars_of(folder.drive_id.as_str());
    let mut i: usize = 0;
    while i < drives.len()
        invariant
            i <= drives@.len(),
            wanted@ == folder.drive_id@,
            forall|j: int| 0 <= j < i ==> (#[trigger] drives@[j]).id@ != folder.drive_id@,
        decreases drives.len() - i,
    {
        let drive = &drives[i];
        if chars_equal(chars_of(drive.id.as_str()).as_slice(), wanted.as_slice()) {
            let same = chars_equal(chars_of(folder.id.as_str()).as_slice(), chars_of(drive.id.as_str()).as_slice());
            let folder_name = if same {
                string_from(drive.name.as_str())
            } else {
                string_from(folder.name.as_str())
            };
            assert(first_drive_with_id(drives@, folder.drive_id@, i as int));
            return Ok(
                SharedDriveDestination {
                    drive_id: string_from(drive.id.as_str()),
                    drive_name: string_from(drive.name.as_str()),
                    folder_id: string_from(folder.id.as_str()),
                    folder_name,
                },
            );
        }
        i = i + 1;
    }
    Err(
        string_from(
            "The destination belongs to a Shared Drive that is not available to the authenticated read-only account",
        ),
    )
}

/// A prefix followed by Rclone's error output, trimmed.
pub open spec fn with_detail(prefix: Seq<char>, stderr: Seq<char>) -> Seq<char> {
    prefix + trim(stderr)
}

fn detail_message(prefix: &str, stderr: &str) -> (m: String)
    ensures
        m@ == with_detail(prefix@, stderr@),
{
    let mut v = chars_of(prefix);
    push_chars(&mut v, trim_str(stderr).as_slice());
    string_of(v.as_slice())
}

/// Why the read-write remote's authorization could not be refreshed.
pub fn authorization_error(stderr: &str) -> (m: String)
    ensures
        m@ == with_detail("My Drive RW authorization failed: "@, stderr@),
{
    detail_message("My Drive RW authorization failed: ", stderr)
}

/// Why the destination's contents could not be listed.
pub fn inspection_error(stderr: &str) -> (m: String)
    ensures
        m@ == with_detail("Unable to inspect the migration destination: "@, stderr@),
{
    detail_message("Unable to inspect the migration destination: ", stderr)
}

/// What the read-write account sees of the destination must match what was
/// checked: the same Shared Drive, and a folder it may add to.
pub fn check_destination_access(folder: &GoogleDriveFolder, destination_drive_id: &str) -> (result: Result<(), String>)
    ensures
        folder.drive_id@ != destination_drive_id@ ==> (result matches Err(m) && m@
            == "The destination now resolves to a different Shared Drive"@),
        folder.drive_id@ == destination_drive_id@ && !folder.can_add_children ==> (result matches Err(m) && m@
            == "The My Drive RW account cannot add content to the destination folder"@),
        folder.drive_id@ == destination_drive_id@ && folder.can_add_children ==> result is Ok,
{
    if !chars_equal(chars_of(folder.drive_id.as_str()).as_slice(), chars_of(destination_drive_id).as_slice()) {
        return Err(string_from("The destination now resolves to a different Shared Drive"));
    }
    if !folder.can_add_children {
        return Err(string_from("The My Drive RW account cannot add content to the destination folder"));
    }
    Ok(())
}

/// The message for two selected items with one name.
pub open spec fn duplicate_message(name: Seq<char>) -> Seq<char> {
    "Multiple selected items are named '"@ + name
        + "'. Select unique top-level names before starting the migration."@
}

/// The message for a selected item the destination already holds.
pub open spec fn existing_message(name: Seq<char>) -> Seq<char> {
    "The destination already contains an item named '"@ + name + "'. BOREAL will not merge or overwrite it."@
}

/// Going through the selected names from `i` on: the first that repeats an
/// earlier one, or that the destination already holds, stops the copy.
pub open spec fn selection_error(existing: Seq<Seq<char>>, names: Seq<Seq<char>>, i: int) -> Option<Seq<char>>
    decreases names.len() - i,
{
    if i < 0 || i >= names.len() {
        None
    } else if names.subrange(0, i).contains(names[i]) {
        Some(duplicate_message(names[i]))
    } else if existing.contains(names[i]) {
        Some(existing_message(names[i]))
    } else {
        selection_error(existing, names, i + 1)
    }
}

/// The names of the selected items.
pub open spec fn source_names(sources: Seq<MigrationSource>) -> Seq<Seq<char>> {
    sources.map_values(|s: MigrationSource| s.name@)
}

/// The text of some names.
pub open spec fn texts(names: Seq<String>) -> Seq<Seq<char>> {
    names.map_values(|s: String| s@)
}

fn contains_name(names: &[String], name: &String) -> (result: bool)
    ensures
        result == texts(names@).contains(name@),
{
    let target = chars_of(name.as_str());
    let mut i: usize = 0;
    while i < names.len()
        invariant
            i <= names@.len(),
            target@ == name@,
            forall|j: int| 0 <= j < i ==> (#[trigger] names@[j])@ != name@,
        decreases names.len() - i,
    {
        if chars_equal(chars_of(names[i].as_str()).as_slice(), target.as_slice()) {
            assert(texts(names@)[i as int] == name@);
            return true;
        }
        i = i + 1;
    }
    assert forall|j: int| 0 <= j < texts(names@).len() implies texts(names@)[j] != name@ by {
        assert(names@[j]@ != name@);
    }
    false
}

fn message_with_name(before: &str, name: &str, after: &str) -> (m: String)
    ensures
        m@ == before@ + name@ + after@,
{
    let mut v = chars_of(before);
    push_str(&mut v, name);
    push_str(&mut v, after);
    string_of(v.as_slice())
}

/// Whether the selected items can be copied into a destination holding
/// `existing`: their names must differ from one another and from what is
/// there, as BOREAL neither merges nor overwrites.
pub fn check_selected_names(existing: &Vec<String>, sources: &[MigrationSource]) -> (result: Result<(), String>)
    ensures
        match selection_error(texts(existing@), source_names(sources@), 0) {
            None => result is Ok,
            Some(m) => result matches Err(e) && e@ == m,
        },
{
    let mut seen: Vec<String> = Vec::new();
    let mut i: usize = 0;
    while i < sources.len()
        invariant
            i <= sources@.len(),
            texts(seen@) == source_names(sources@).subrange(0, i as int),
            selection_error(texts(existing@), source_names(sources@), 0) == selection_error(
                texts(existing@),
                source_names(sources@),
                i as int,
            ),
        decreases sources.len() - i,
    {
        let name = &sources[i].name;
        let ghost names = source_names(sources@);
        assert(names[i as int] == name@);
        if contains_name(seen.as_slice(), name) {
            return Err(
                message_with_name(
                    "Multiple selected items are named '",
                    name.as_str(),
                    "'. Select unique top-level names before starting the migration.",
                ),
            );
        }
        if contains_name(existing.as_slice(), name) {
            return Err(
                message_with_name(
                    "The destination already contains an item named '",
                    name.as_str(),
                    "'. BOREAL will not merge or overwrite it.",
                ),
            );
        }
        let ghost seen_before = seen@;
        seen.push(string_from(name.as_str()));
        assert(texts(seen@) =~= texts(seen_before).push(name@));
        assert(names.subrange(0, i + 1) =~= names.subrange(0, i as int).push(names[i as int]));
        assert(texts(seen@) =~= names.subrange(0, i + 1));
        i = i + 1;
    }
    Ok(())
}

/// The read-write remote rooted at the destination folder, inside its
/// Shared Drive when there is one.
pub open spec fn destination_remote_text(drive_id: Seq<char>, folder_id: Seq<char>) -> Seq<char> {
    if drive_id.len() == 0 {
        kind_name(RemoteKind::MyDriveRw) + ",root_folder_id="@ + folder_id + ":"@
    } else {
        kind_name(RemoteKind::MyDriveRw) + ",team_drive="@ + drive_id + ",root_folder_id="@ + folder_id + ":"@
    }
}

/// The Rclone remote that writes into the destination folder.
pub fn destination_remote(drive_id: &str, folder_id: &str) -> (remote: String)
    ensures
        remote@ == destination_remote_text(drive_id@, folder_id@),
{
    let mut v = chars_of(RemoteKind::MyDriveRw.name());
    if chars_of(drive_id).len() > 0 {
        push_str(&mut v, ",team_drive=");
        push_str(&mut v, drive_id);
    }
    push_str(&mut v, ",root_folder_id=");
    push_str(&mut v, folder_id);
    push_str(&mut v, ":");
    string_of(v.as_slice())
}

/// The read-only remote path a selected item is copied from: through the
/// "shared with me" view for items shared with the account.
pub open spec fn source_remote_text(source_kind: Seq<char>, relative_path: Seq<char>) -> Seq<char> {
    kind_name(RemoteKind::MyDriveRo) + (if source_kind == "shared-with-me"@ {
        ",shared_with_me=true:"@
    } else {
        ":"@
    }) + without_leading(relative_path, '/', '/')
}

/// The read-only remote path a selected item is copied from.
pub fn source_remote(source_kind: &str, relative_path: &str) -> (remote: String)
    ensures
        remote@ == source_remote_text(source_kind@, relative_path@),
{
    let mut v = chars_of(RemoteKind::MyDriveRo.name());
    if crate::text::equals_str(chars_of(source_kind).as_slice(), "shared-with-me") {
        push_str(&mut v, ",shared_with_me=true:");
    } else {
        push_str(&mut v, ":");
    }
    let path = chars_of(relative_path);
    let mut k: usize = 0;
    assert(path@.subrange(0, path@.len() as int) =~= path@);
    while k < path.len() && path[k] == '/'
        invariant
            k <= path@.len(),
            without_leading(relative_path@, '/', '/') == without_leading(
                path@.subrange(k as int, path@.len() as int),
                '/',
                '/',
            ),
            path@ == relative_path@,
        decreases path.len() - k,
    {
        assert(path@.subrange(k as int, path@.len() as int).drop_first() =~= path@.subrange(k + 1, path@.len() as int));
        k = k + 1;
    }
    let rest = crate::text::slice_range(path.as_slice(), k, path.len());
    assert(k < path@.len() ==> path@.subrange(k as int, path@.len() as int)[0] != '/');
    push_chars(&mut v, rest.as_slice());
    string_of(v.as_slice())
}

/// The Rclone arguments that copy one selected item: `copy` for a folder
/// (keeping empty folders), `copyto` for a file, server side and without
/// replacing anything.
pub open spec fn copy_arguments_are(
    args: Seq<Seq<char>>,
    source_kind: Seq<char>,
    source: MigrationSource,
    drive_id: Seq<char>,
    folder_id: Seq<char>,
    config_path: Seq<char>,
) -> bool {
    let base = seq![
        if source.is_directory {
            "copy"@
        } else {
            "copyto"@
        },
        source_remote_text(source_kind, source.relative_path@),
        destination_remote_text(drive_id, folder_id) + source.name@,
        "--drive-server-side-across-configs"@,
        "--immutable"@,
        "--config"@,
        config_path,
    ];
    args == if source.is_directory {
        base.push("--create-empty-src-dirs"@)
    } else {
        base
    }
}

/// The Rclone arguments that copy one selected item into the destination.
pub fn copy_arguments(
    source_kind: &str,
    source: &MigrationSource,
    drive_id: &str,
    folder_id: &str,
    config_path: &str,
) -> (args: Vec<String>)
    ensures
        copy_arguments_are(texts(args@), source_kind@, *source, drive_id@, folder_id@, config_path@),
{
    let mut destination = chars_of(destination_remote(drive_id, folder_id).as_str());
    push_str(&mut destination, source.name.as_str());
    let mut args: Vec<String> = Vec::new();
    args.push(
        if source.is_directory {
            string_from("copy")
        } else {
            string_from("copyto")
        },
    );
    args.push(source_remote(source_kind, source.relative_path.as_str()));
    args.push(string_of(destination.as_slice()));
    args.push(string_from("--drive-server-side-across-configs"));
    args.push(string_from("--immutable"));
    args.push(string_from("--config"));
    args.push(string_from(config_path));
    if source.is_directory {
        args.push(string_from("--create-empty-src-dirs"));
    }
    let ghost base = seq![
        if source.is_directory {
            "copy"@
        } else {
            "copyto"@
        },
        source_remote_text(source_kind@, source.relative_path@),
        destination_remote_text(drive_id@, folder_id@) + source.name@,
        "--drive-server-side-across-configs"@,
        "--immutable"@,
        "--config"@,
        config_path@,
    ];
    assert(texts(args@) =~= if source.is_directory {
        base.push("--create-empty-src-dirs"@)
    } else {
        base
    });
    args
}

/// Why Rclone could not copy an item.
pub fn copy_error(name: &str, stderr: &str) -> (m: String)
    ensures
        m@ == "Rclone could not copy '"@ + name@ + "': "@ + trim(stderr@),
{
    let mut v = chars_of("Rclone could not copy '");
    push_str(&mut v, name);
    push_str(&mut v, "': ");
    push_chars(&mut v, trim_str(stderr).as_slice());
    string_of(v.as_slice())
}

} // verus!
