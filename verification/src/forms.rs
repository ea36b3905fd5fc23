//! What the web interface does with the forms it receives: tagging selected
//! items or drives, planning migrations, and where each answer redirects.
use vstd::prelude::*;
use vstd::string::StringSliceAdditionalSpecFns;

use crate::database::inventory::{
    apply_tag_recursively_for_scope, change_shared_drive_tags, get_shared_drive, remove_tag_recursively_for_scope,
    MY_DRIVE_SCOPE, SHARED_DRIVE_SCOPE_PREFIX, SHARED_WITH_ME_SCOPE,
};
use crate::database::{migration, Database, DatabaseError};
use crate::explorer::{encode_query_value, explorer_link, explorer_url, percent_encoded};
use crate::metadata::RcloneState;
use crate::text::{
    chars_of, decimal, equals_str, push_decimal, push_str, signed_decimal, split_char, split_chars, starts_with,
    string_from, string_of, trim, trim_chars,
};

verus! {

/// Why a form was not carried out, as the web interface answers.
#[derive(Debug, Clone)]
pub enum FormError {
    /// The database could not be opened.
    Unavailable,
    /// The form asks for something that cannot be done.
    BadRequest(String),
    /// The database failed.
    Internal(String),
}

/// The pieces of a comma-separated list, trimmed, blank ones left out.
pub open spec fn nonblank_pieces(pieces: Seq<Seq<char>>) -> Seq<Seq<char>>
    decreases pieces.len(),
{
    if pieces.len() == 0 {
        seq![]
    } else if trim(pieces.last()).len() > 0 {
        nonblank_pieces(pieces.drop_last()).push(trim(pieces.last()))
    } else {
        nonblank_pieces(pieces.drop_last())
    }
}

/// The values of a comma-separated list.
pub open spec fn comma_values(value: Seq<char>) -> Seq<Seq<char>> {
    nonblank_pieces(split_char(value, ','))
}

/// The text of some strings.
pub open spec fn texts_of(values: Seq<String>) -> Seq<Seq<char>> {
    values.map_values(|s: String| s@)
}

/// The values of a comma-separated list: trimmed, blank ones left out.
pub fn comma_separated_values(value: &str) -> (values: Vec<String>)
    ensures
        texts_of(values@) == comma_values(value@),
{
    let pieces = split_chars(chars_of(value).as_slice(), ',');
    let ghost all = split_char(value@, ',');
    let mut values: Vec<String> = Vec::new();
    let mut i: usize = 0;
    while i < pieces.len()
        invariant
            i <= pieces@.len(),
            pieces@.len() == all.len(),
            all == split_char(value@, ','),
            forall|k: int| 0 <= k < pieces@.len() ==> #[trigger] pieces@[k]@ == all[k],
            texts_of(values@) == nonblank_pieces(all.subrange(0, i as int)),
        decreases pieces.len() - i,
    {
        assert(all.subrange(0, i + 1).drop_last() =~= all.subrange(0, i as int));
        assert(all.subrange(0, i + 1).last() == pieces@[i as int]@);
        let trimmed = trim_chars(pieces[i].as_slice());
        let ghost before = values@;
        if trimmed.len() > 0 {
            values.push(string_of(trimmed.as_slice()));
            assert(texts_of(values@) =~= texts_of(before).push(trimmed@));
        }
        i = i + 1;
    }
    assert(all.subrange(0, all.len() as int) =~= all);
    values
}

/// What kind of source an inventory's items are, for a migration.
pub open spec fn source_kind_of(inventory_scope: Seq<char>) -> Option<Seq<char>> {
    if inventory_scope == MY_DRIVE_SCOPE@ {
        Some("my-drive"@)
    } else if inventory_scope == SHARED_WITH_ME_SCOPE@ {
        Some("shared-with-me"@)
    } else {
        None
    }
}

/// The migration source kind of an inventory: its own items or those shared
/// with the account; other inventories cannot be migrated this way.
pub fn migration_source_kind(inventory_scope: &str) -> (kind: Option<&'static str>)
    ensures
        match source_kind_of(inventory_scope@) {
            Some(k) => kind matches Some(s) && s@ == k,
            None => kind is None,
        },
{
    let scope = chars_of(inventory_scope);
    if equals_str(scope.as_slice(), MY_DRIVE_SCOPE) {
        Some("my-drive")
    } else if equals_str(scope.as_slice(), SHARED_WITH_ME_SCOPE) {
        Some("shared-with-me")
    } else {
        None
    }
}

/// The page of a migration.
pub open spec fn migration_page(id: int) -> Seq<char> {
    "/migrations/"@ + signed_decimal(id)
}

fn migration_url(id: i64) -> (url: String)
    ensures
        url@ == migration_page(id as int),
{
    let mut v = chars_of("/migrations/");
    crate::text::push_i64(&mut v, id);
    string_of(v.as_slice())
}

/// Plans a migration of the selected items of an inventory (a local
/// download when `intent` says so, a copy into Google Drive otherwise) and
/// answers with the plan's page.
pub fn create_migration(database: &Database, inventory_scope: &str, selected_item_ids: &str, intent: &str) -> (result:
    Result<String, FormError>)
    ensures
        source_kind_of(inventory_scope@) is None ==> result matches Err(FormError::BadRequest(_)),
        comma_values(selected_item_ids@).len() == 0 ==> result matches Err(FormError::BadRequest(_)),
        result matches Ok(url) ==> exists|id: int| url@ == #[trigger] migration_page(id),
{
    let source_kind = match migration_source_kind(inventory_scope) {
        Some(k) => k,
        None => return Err(FormError::BadRequest(string_from("Unknown inventory"))),
    };
    let item_ids = comma_separated_values(selected_item_ids);
    let operation_kind = if equals_str(chars_of(intent).as_slice(), "local-download") {
        "local-download"
    } else {
        "drive-copy"
    };
    proof {
        reveal_strlit("my-drive");
        reveal_strlit("shared-with-me");
        reveal_strlit("drive-copy");
        reveal_strlit("local-download");
    }
    match migration::create(database, inventory_scope, source_kind, item_ids.as_slice(), operation_kind) {
        Ok(id) => Ok(migration_url(id)),
        Err(e) => Err(FormError::BadRequest(e.message())),
    }
}

/// Plans the local download of one item of an inventory and answers with
/// the plan's page.
pub fn create_download_migration(database: &Database, inventory_scope: &str, item_id: &str) -> (result: Result<
    String,
    FormError,
>)
    ensures
        source_kind_of(inventory_scope@) is None ==> result matches Err(FormError::BadRequest(_)),
        result matches Ok(url) ==> exists|id: int| url@ == #[trigger] migration_page(id),
{
    let source_kind = match migration_source_kind(inventory_scope) {
        Some(k) => k,
        None => return Err(FormError::BadRequest(string_from("Unknown inventory"))),
    };
    let items = vec![string_from(item_id)];
    match migration::create(database, inventory_scope, source_kind, items.as_slice(), "local-download") {
        Ok(id) => Ok(migration_url(id)),
        Err(e) => Err(FormError::BadRequest(e.message())),
    }
}

/// Where the page goes after asking for selected items to be rescanned:
/// the Shared Drives list for drives, else the inventory's explorer.
pub open spec fn selected_update_page(inventory_scope: Seq<char>, drive: Seq<char>, drives_selected: bool) -> Option<
    Seq<char>,
> {
    if drives_selected {
        Some("/shared-drives"@)
    } else if inventory_scope == MY_DRIVE_SCOPE@ {
        Some("/my-drive"@)
    } else if inventory_scope == SHARED_WITH_ME_SCOPE@ {
        Some("/shared-with-me"@)
    } else if starts_with(inventory_scope, SHARED_DRIVE_SCOPE_PREFIX@) {
        Some("/shared-drives?drive="@ + percent_encoded(vstd::utf8::encode_utf8(drive)))
    } else {
        None
    }
}

/// Where to go after asking for selected items to be rescanned; nothing
/// for an unknown inventory.
pub fn selected_update_redirect(inventory_scope: &str, drive: &str, drives_selected: bool) -> (page: Option<String>)
    ensures
        match selected_update_page(inventory_scope@, drive@, drives_selected) {
            Some(p) => page matches Some(s) && s@ == p,
            None => page is None,
        },
{
    let scope = chars_of(inventory_scope);
    if drives_selected {
        Some(string_from("/shared-drives"))
    } else if equals_str(scope.as_slice(), MY_DRIVE_SCOPE) {
        Some(string_from("/my-drive"))
    } else if equals_str(scope.as_slice(), SHARED_WITH_ME_SCOPE) {
        Some(string_from("/shared-with-me"))
    } else if crate::text::starts_with_str(scope.as_slice(), SHARED_DRIVE_SCOPE_PREFIX) {
        let mut v = chars_of("/shared-drives?drive=");
        push_str(&mut v, encode_query_value(drive).as_str());
        proof {
            assert(drive.spec_bytes() == vstd::utf8::encode_utf8(drive@));
        }
        Some(string_of(v.as_slice()))
    } else {
        None
    }
}

/// A tagging form of an explorer page: the selected items, the tag, and the
/// page's filters to return to.
#[derive(Debug, Clone)]
pub struct ApplyTagForm {
    pub selected_item_ids: String,
    pub drive: String,
    pub tag: String,
    pub path: String,
    pub q: String,
    pub sort: String,
    pub direction: String,
    pub tag_filter: String,
    pub type_filter: String,
    pub size_filter: String,
    pub modified_filter: String,
    pub owner_filter: String,
    pub permission_filter: String,
    pub owner_identity_tag_filter: String,
    pub permission_identity_tag_filter: String,
    pub include_deleted: bool,
}

/// The explorer page to return to after tagging, saying how many items
/// changed.
pub open spec fn tag_change_page(form: ApplyTagForm, explorer_path: Seq<char>, remove: bool, changed: nat) -> Seq<
    char,
> {
    explorer_link(
        explorer_path,
        vstd::utf8::encode_utf8(form.path@),
        vstd::utf8::encode_utf8(form.q@),
        vstd::utf8::encode_utf8(form.tag_filter@),
        vstd::utf8::encode_utf8(form.type_filter@),
        vstd::utf8::encode_utf8(form.size_filter@),
        vstd::utf8::encode_utf8(form.modified_filter@),
        vstd::utf8::encode_utf8(form.owner_filter@),
        vstd::utf8::encode_utf8(form.permission_filter@),
        vstd::utf8::encode_utf8(form.owner_identity_tag_filter@),
        vstd::utf8::encode_utf8(form.permission_identity_tag_filter@),
        vstd::utf8::encode_utf8(form.sort@),
        vstd::utf8::encode_utf8(form.direction@),
        form.include_deleted,
    ) + (if remove {
        "&untagged="@
    } else {
        "&tagged="@
    }) + decimal(changed)
}

/// The explorer page to return to after tagging.
pub fn tag_change_redirect(form: &ApplyTagForm, explorer_path: &str, remove: bool, changed: usize) -> (url: String)
    ensures
        url@ == tag_change_page(*form, explorer_path@, remove, changed as nat),
{
    let url = explorer_url(
        explorer_path,
        form.path.as_str(),
        form.q.as_str(),
        form.tag_filter.as_str(),
        form.type_filter.as_str(),
        form.size_filter.as_str(),
        form.modified_filter.as_str(),
        form.owner_filter.as_str(),
        form.permission_filter.as_str(),
        form.owner_identity_tag_filter.as_str(),
        form.permission_identity_tag_filter.as_str(),
        form.sort.as_str(),
        form.direction.as_str(),
        form.include_deleted,
    );
    let mut v = chars_of(url.as_str());
    push_str(&mut v, if remove { "&untagged=" } else { "&tagged=" });
    push_decimal(&mut v, changed as u64);
    string_of(v.as_slice())
}

/// Tags (or untags) the selected items of an inventory and everything
/// under them, then answers with the explorer page to return to.
pub fn change_drive_tag(
    database: &mut Database,
    form: &ApplyTagForm,
    inventory_scope: &str,
    explorer_path: &str,
    remove: bool,
) -> (result: Result<String, FormError>)
    ensures
        comma_values(form.selected_item_ids@).len() == 0 ==> result matches Err(FormError::BadRequest(_)),
        result matches Ok(url) ==> exists|n: nat| url@ == #[trigger] tag_change_page(*form, explorer_path@, remove, n),
{
    let selected = comma_separated_values(form.selected_item_ids.as_str());
    let changed = if remove {
        remove_tag_recursively_for_scope(database, inventory_scope, selected.as_slice(), form.tag.as_str())
    } else {
        apply_tag_recursively_for_scope(database, inventory_scope, selected.as_slice(), form.tag.as_str())
    };
    match changed {
        Ok(n) => Ok(tag_change_redirect(form, explorer_path, remove, n)),
        Err(e) => Err(FormError::BadRequest(e.message())),
    }
}

/// The explorer of a Shared Drive.
pub open spec fn shared_drive_explorer(drive_id: Seq<char>) -> Seq<char> {
    "/shared-drives?drive="@ + percent_encoded(vstd::utf8::encode_utf8(drive_id))
}

/// Tags (or untags) items inside a Shared Drive: the drive must be known.
pub fn change_shared_drive_tag(database: &mut Database, form: &ApplyTagForm, remove: bool) -> (result: Result<
    String,
    FormError,
>)
    ensures
        comma_values(form.selected_item_ids@).len() == 0 ==> result is Err,
        result matches Ok(url) ==> exists|n: nat| url@ == #[trigger] tag_change_page(
            *form,
            shared_drive_explorer(form.drive@),
            remove,
            n,
        ),
{
    let drive = match get_shared_drive(database, form.drive.as_str()) {
        Ok(Some(d)) => d,
        Ok(None) => return Err(FormError::BadRequest(string_from("Unknown Shared Drive"))),
        Err(e) => return Err(FormError::Internal(e.message())),
    };
    let mut path = chars_of("/shared-drives?drive=");
    push_str(&mut path, encode_query_value(drive.drive_id.as_str()).as_str());
    let explorer_path = string_of(path.as_slice());
    assert(explorer_path@ =~= shared_drive_explorer(form.drive@));
    change_drive_tag(database, form, drive.inventory_scope.as_str(), explorer_path.as_str(), remove)
}

/// A tagging form of the Shared Drives list.
#[derive(Debug, Clone)]
pub struct SharedDriveTagForm {
    pub selected_drive_ids: String,
    pub tag: String,
    pub q: String,
    pub tag_filter: String,
    pub show_inaccessible: bool,
    pub files_filter: String,
    pub folders_filter: String,
    pub size_filter: String,
    pub modified_filter: String,
    pub manager_filter: String,
    pub permissions_filter: String,
    pub sort: String,
    pub direction: String,
}

/// A query value, percent-encoded.
pub open spec fn encoded(value: String) -> Seq<char> {
    percent_encoded(vstd::utf8::encode_utf8(value@))
}

/// The Shared Drives list to return to after tagging, with its filters and
/// how many drives changed.
pub open spec fn shared_drive_list_page(form: SharedDriveTagForm, remove: bool, changed: nat) -> Seq<char> {
    "/shared-drives?q="@ + encoded(form.q) + "&tag="@ + encoded(form.tag_filter) + "&show_inaccessible="@ + (if form.show_inaccessible {
        "true"@
    } else {
        "false"@
    }) + "&files_filter="@ + encoded(form.files_filter) + "&folders_filter="@ + encoded(form.folders_filter)
        + "&size_filter="@ + encoded(form.size_filter) + "&modified_filter="@ + encoded(form.modified_filter)
        + "&shared_drive_manager_filter="@ + encoded(form.manager_filter) + "&shared_drive_permission_filter="@
        + encoded(form.permissions_filter) + "&sort="@ + encoded(form.sort) + "&direction="@ + encoded(form.direction)
        + (if remove {
        "&untagged="@
    } else {
        "&tagged="@
    }) + decimal(changed)
}

fn push_encoded_value(v: &mut Vec<char>, name: &str, value: &String)
    ensures
        final(v)@ == old(v)@ + name@ + encoded(*value),
{
    push_str(v, name);
    let e = encode_query_value(value.as_str());
    push_str(v, e.as_str());
}

/// The Shared Drives list to return to after tagging.
pub fn shared_drive_list_redirect(form: &SharedDriveTagForm, remove: bool, changed: usize) -> (url: String)
    ensures
        url@ == shared_drive_list_page(*form, remove, changed as nat),
{
    let mut v: Vec<char> = Vec::new();
    push_encoded_value(&mut v, "/shared-drives?q=", &form.q);
    push_encoded_value(&mut v, "&tag=", &form.tag_filter);
    push_str(&mut v, "&show_inaccessible=");
    push_str(&mut v, if form.show_inaccessible { "true" } else { "false" });
    push_encoded_value(&mut v, "&files_filter=", &form.files_filter);
    push_encoded_value(&mut v, "&folders_filter=", &form.folders_filter);
    push_encoded_value(&mut v, "&size_filter=", &form.size_filter);
    push_encoded_value(&mut v, "&modified_filter=", &form.modified_filter);
    push_encoded_value(&mut v, "&shared_drive_manager_filter=", &form.manager_filter);
    push_encoded_value(&mut v, "&shared_drive_permission_filter=", &form.permissions_filter);
    push_encoded_value(&mut v, "&sort=", &form.sort);
    push_encoded_value(&mut v, "&direction=", &form.direction);
    push_str(&mut v, if remove { "&untagged=" } else { "&tagged=" });
    push_decimal(&mut v, changed as u64);
    assert(v@ =~= shared_drive_list_page(*form, remove, changed as nat));
    string_of(v.as_slice())
}

/// Tags (or untags) the selected Shared Drives themselves, then answers
/// with the list to return to.
pub fn change_shared_drive_list_tag(database: &Database, form: &SharedDriveTagForm, remove: bool) -> (result: Result<
    String,
    FormError,
>)
    ensures
        comma_values(form.selected_drive_ids@).len() == 0 ==> result matches Err(FormError::BadRequest(_)),
        result matches Ok(url) ==> exists|n: nat| url@ == #[trigger] shared_drive_list_page(*form, remove, n),
{
    let drive_ids = comma_separated_values(form.selected_drive_ids.as_str());
    match change_shared_drive_tags(database, drive_ids.as_slice(), form.tag.as_str(), remove) {
        Ok(n) => Ok(shared_drive_list_redirect(form, remove, n)),
        Err(e) => Err(FormError::BadRequest(e.message())),
    }
}

/// What a migration's source allows as a Google Drive destination: Shared
/// Drives only go to local folders; My Drive items need a Shared Drive.
pub fn destination_requirement(source_kind: &str) -> (result: Result<bool, String>)
    ensures
        source_kind@ == "shared-drive"@ ==> (result matches Err(m) && m@
            == "Shared Drives can only be copied to a local destination."@),
        source_kind@ != "shared-drive"@ ==> result == Ok::<bool, String>(source_kind@ == "my-drive"@),
{
    let kind = chars_of(source_kind);
    if equals_str(kind.as_slice(), "shared-drive") {
        return Err(string_from("Shared Drives can only be copied to a local destination."));
    }
    Ok(equals_str(kind.as_slice(), "my-drive"))
}

/// The Rclone executable to validate a destination with, or why there is
/// none yet.
pub fn ready_executable(rclone_state: &RcloneState) -> (result: Result<String, String>)
    ensures
        match *rclone_state {
            RcloneState::Ready(status) => result matches Ok(p) && p@ == status.path@,
            RcloneState::Initializing => result matches Err(m) && m@
                == "Rclone is still initializing. Try again when it is ready."@,
            RcloneState::Error(e) => result matches Err(m) && m@ == "Rclone is not ready: "@ + e@,
        },
{
    match rclone_state {
        RcloneState::Ready(status) => Ok(string_from(status.path.as_str())),
        RcloneState::Initializing => Err(string_from("Rclone is still initializing. Try again when it is ready.")),
        RcloneState::Error(e) => {
            let mut v = chars_of("Rclone is not ready: ");
            push_str(&mut v, e.as_str());
            Err(string_of(v.as_slice()))
        },
    }
}

} // verus!
