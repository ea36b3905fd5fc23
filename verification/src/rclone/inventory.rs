//! Drive inventories listed by `rclone lsjson`.
use vstd::prelude::*;

use crate::database::inventory::PermissionRecord;
use crate::rclone::remotes::{kind_name, RemoteKind};
use crate::text::{
    push_str,
    string_from,
    string_of,
    trim,
};

verus! {

/// One object of a Drive listing. `metadata` holds Rclone's metadata
/// entries, read as a map (`json::entries_map`: where a key comes twice, the
/// later entry counts); `permissions` the permission records its
/// `permissions` entry holds.
#[derive(Debug)]
pub struct DriveItem {
    pub id: String,
    pub name: String,
    pub path: String,
    pub is_dir: bool,
    pub size: i64,
    pub mime_type: String,
    pub mod_time: String,
    pub metadata: Vec<(String, String)>,
    pub permissions: Vec<PermissionRecord>,
}

#[derive(Debug, Clone)]
pub struct SharedDrive {
    pub id: String,
    pub name: String,
}

/// The first listed item without a Drive id, if any.
pub fn first_item_without_id(items: &[DriveItem]) -> (result: Option<usize>)
    ensures
        match result {
            Some(i) => i < items@.len() && trim(items@[i as int].id@).len() == 0 && forall|j: int|
                0 <= j < i ==> trim(#[trigger] items@[j].id@).len() > 0,
            None => forall|j: int| 0 <= j < items@.len() ==> trim(#[trigger] items@[j].id@).len() > 0,
        },
{
    let mut i: usize = 0;
    while i < items.len()
        invariant
            i <= items@.len(),
            forall|j: int| 0 <= j < i ==> trim(#[trigger] items@[j].id@).len() > 0,
        decreases items@.len() - i,
    {
        if crate::text::trim_str(items[i].id.as_str()).len() == 0 {
            return Some(i);
        }
        i = i + 1;
    }
    None
}

/// Which part of Drive a listing covers.
#[derive(Debug, Clone)]
pub enum ListingScope {
    MyDrive,
    SharedWithMe,
    SharedDrive(String),
}

/// The `rclone lsjson` arguments for an inventory listing: everything under
/// the read-only remote with its metadata and owners, permissions when
/// asked, and the part of Drive the scope names.
pub open spec fn listing_arguments_for(config_path: Seq<char>, include_permissions: bool, scope: ListingScope) -> Seq<
    Seq<char>,
> {
    let base = seq![
        "lsjson"@,
        kind_name(RemoteKind::MyDriveRo) + ":"@,
        "--recursive"@,
        "--metadata"@,
        "--drive-metadata-owner=read"@,
        "--fast-list"@,
        "--config"@,
        config_path,
    ];
    let with_permissions = if include_permissions {
        base.push("--drive-metadata-permissions=read"@)
    } else {
        base
    };
    match scope {
        ListingScope::MyDrive => with_permissions,
        ListingScope::SharedWithMe => with_permissions.push("--drive-shared-with-me"@),
        ListingScope::SharedDrive(id) => with_permissions + seq![
            "--drive-team-drive"@,
            id@,
            "--drive-root-folder-id"@,
            Seq::empty(),
        ],
    }
}

/// The `rclone lsjson` arguments for an inventory listing.
pub fn listing_arguments(config_path: &str, include_permissions: bool, scope: &ListingScope) -> (result:
    Vec<String>)
    ensures
        result@.map_values(|a: String| a@) == listing_arguments_for(config_path@, include_permissions, *scope),
{
    let mut args: Vec<String> = Vec::new();
    args.push(string_from("lsjson"));
    let mut remote: Vec<char> = Vec::new();
    push_str(&mut remote, RemoteKind::MyDriveRo.name());
    remote.push(':');
    proof {
        reveal_strlit(":");
        assert(":"@ =~= seq![':']);
        assert(remote@ =~= kind_name(RemoteKind::MyDriveRo) + ":"@);
    }
    args.push(string_of(remote.as_slice()));
    args.push(string_from("--recursive"));
    args.push(string_from("--metadata"));
    args.push(string_from("--drive-metadata-owner=read"));
    args.push(string_from("--fast-list"));
    args.push(string_from("--config"));
    args.push(string_from(config_path));
    let ghost base = seq![
        "lsjson"@,
        kind_name(RemoteKind::MyDriveRo) + ":"@,
        "--recursive"@,
        "--metadata"@,
        "--drive-metadata-owner=read"@,
        "--fast-list"@,
        "--config"@,
        config_path@,
    ];
    assert(args@.map_values(|a: String| a@) =~= base);
    if include_permissions {
        args.push(string_from("--drive-metadata-permissions=read"));
    }
    let ghost with_permissions = if include_permissions {
        base.push("--drive-metadata-permissions=read"@)
    } else {
        base
    };
    assert(args@.map_values(|a: String| a@) =~= with_permissions);
    let ghost before = args@;
    match scope {
        ListingScope::SharedWithMe => {
            args.push(string_from("--drive-shared-with-me"));
            assert(args@.map_values(|a: String| a@) =~= with_permissions.push("--drive-shared-with-me"@));
        },
        ListingScope::SharedDrive(id) => {
            args.push(string_from("--drive-team-drive"));
            args.push(string_from(id.as_str()));
            args.push(string_from("--drive-root-folder-id"));
            args.push(String::new());
            assert(args@.map_values(|a: String| a@) =~= with_permissions + seq![
                "--drive-team-drive"@,
                id@,
                "--drive-root-folder-id"@,
                Seq::empty(),
            ]);
        },
        ListingScope::MyDrive => {},
    }
    assert(args@.map_values(|a: String| a@) =~= listing_arguments_for(config_path@, include_permissions, *scope));
    args
}

} // verus!
