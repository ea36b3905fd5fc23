//! The Shared Drives page: how each drive and the identities its
//! permissions name are shown, the order the listing is sorted in, and the
//! totals above it.
use vstd::prelude::*;

use crate::database::inventory::{SharedDrivePermissionIdentity, SharedDriveRow, Tag};
use crate::explorer::{
    identity_display, identity_shown, pill_of, tag_pill, DrivePathQuery, ExplorerSummary, IdentityDisplay, TagPill,
};
use crate::format::{format_bytes, size_text};
use crate::text::{chars_of, equals_str, join, join_chars, lower_seq, string_from, string_of, to_ascii_lower};

verus! {

/// An identity named by a Shared Drive's permissions, as the page shows it.
#[derive(Debug, Clone)]
pub struct SharedDriveIdentityView {
    pub label: String,
    pub roles_label: String,
    pub tagged: bool,
    pub unknown: bool,
    pub color: String,
    pub text_color: &'static str,
    pub tag_details: String,
    pub directory_url: String,
}

/// One Shared Drive of the listing.
#[derive(Debug, Clone)]
pub struct SharedDriveView {
    pub drive_id: String,
    pub name: String,
    pub is_accessible: bool,
    pub last_error: String,
    pub files: u64,
    pub folders: u64,
    pub permissions_count: u64,
    pub managers: Vec<SharedDriveIdentityView>,
    pub permission_identities: Vec<SharedDriveIdentityView>,
    pub size_label: String,
    pub modified_at: String,
    pub tags: Vec<TagPill>,
}

/// How a Google Drive role is named on the page (ignoring ASCII case);
/// roles it does not know keep their own name.
pub open spec fn role_text(role: Seq<char>) -> Seq<char> {
    let l = lower_seq(role);
    if l == "organizer"@ {
        "Manager"@
    } else if l == "fileorganizer"@ {
        "Content manager"@
    } else if l == "writer"@ {
        "Contributor"@
    } else if l == "commenter"@ {
        "Commenter"@
    } else if l == "reader"@ {
        "Viewer"@
    } else if l == "owner"@ {
        "Owner"@
    } else {
        role
    }
}

/// The roles of an identity, named and joined with commas.
pub open spec fn roles_text(roles: Seq<String>) -> Seq<char> {
    join(roles.map_values(|r: String| role_text(r@)), ", "@)
}

/// The page's name for a Google Drive role.
pub fn role_label(role: &str) -> (label: Vec<char>)
    ensures
        label@ == role_text(role@),
{
    let lower = to_ascii_lower(chars_of(role).as_slice());
    if equals_str(lower.as_slice(), "organizer") {
        chars_of("Manager")
    } else if equals_str(lower.as_slice(), "fileorganizer") {
        chars_of("Content manager")
    } else if equals_str(lower.as_slice(), "writer") {
        chars_of("Contributor")
    } else if equals_str(lower.as_slice(), "commenter") {
        chars_of("Commenter")
    } else if equals_str(lower.as_slice(), "reader") {
        chars_of("Viewer")
    } else if equals_str(lower.as_slice(), "owner") {
        chars_of("Owner")
    } else {
        chars_of(role)
    }
}

fn roles_label(roles: &Vec<String>) -> (label: String)
    ensures
        label@ == roles_text(roles@),
{
    let mut names: Vec<Vec<char>> = Vec::new();
    let mut i: usize = 0;
    while i < roles.len()
        invariant
            i <= roles@.len(),
            names@.len() == i,
            forall|k: int| 0 <= k < i ==> #[trigger] names@[k]@ == role_text(roles@[k]@),
        decreases roles.len() - i,
    {
        names.push(role_label(roles[i].as_str()));
        i = i + 1;
    }
    let joined = join_chars(&names, ", ");
    assert(names@.map_values(|p: Vec<char>| p@) =~= roles@.map_values(|r: String| role_text(r@)));
    string_of(joined.as_slice())
}

/// A role that manages a Shared Drive: organizer or owner, ignoring ASCII case.
pub open spec fn is_manager_role(role: Seq<char>) -> bool {
    lower_seq(role) == "organizer"@ || lower_seq(role) == "owner"@
}

/// Whether any of the roles manages the drive.
pub open spec fn has_manager_role(roles: Seq<String>) -> bool
    decreases roles.len(),
{
    roles.len() > 0 && (is_manager_role(roles.last()@) || has_manager_role(roles.drop_last()))
}

/// Whether the identity manages the drive.
pub fn is_manager(identity: &SharedDrivePermissionIdentity) -> (result: bool)
    ensures
        result == has_manager_role(identity.roles@),
{
    let roles = &identity.roles;
    let mut found = false;
    let mut i: usize = 0;
    while i < roles.len()
        invariant
            i <= roles@.len(),
            found == has_manager_role(roles@.subrange(0, i as int)),
        decreases roles.len() - i,
    {
        let lower = to_ascii_lower(chars_of(roles[i].as_str()).as_slice());
        let this = equals_str(lower.as_slice(), "organizer") || equals_str(lower.as_slice(), "owner");
        assert(roles@.subrange(0, i + 1).drop_last() =~= roles@.subrange(0, i as int));
        found = found || this;
        i = i + 1;
    }
    assert(roles@.subrange(0, roles@.len() as int) =~= roles@);
    found
}

/// The identities that manage a drive, in their order.
pub open spec fn managers_of(ids: Seq<SharedDrivePermissionIdentity>) -> Seq<SharedDrivePermissionIdentity>
    decreases ids.len(),
{
    if ids.len() == 0 {
        seq![]
    } else if has_manager_role(ids.last().roles@) {
        managers_of(ids.drop_last()).push(ids.last())
    } else {
        managers_of(ids.drop_last())
    }
}

/// The view shows the identity: as an explorer shows an identity, with its
/// roles named.
pub open spec fn identity_view_of(v: SharedDriveIdentityView, identity: SharedDrivePermissionIdentity) -> bool {
    &&& identity_shown(
        IdentityDisplay {
            label: v.label,
            tagged: v.tagged,
            unknown: v.unknown,
            color: v.color,
            text_color: v.text_color,
            tag_details: v.tag_details,
            directory_url: v.directory_url,
        },
        identity.label@,
        identity.known,
        identity.tags@,
    )
    &&& v.roles_label@ == roles_text(identity.roles@)
}

/// One identity of a Shared Drive, as the page shows it.
pub fn shared_drive_identity_view(identity: &SharedDrivePermissionIdentity) -> (v: SharedDriveIdentityView)
    ensures
        identity_view_of(v, *identity),
{
    let display = identity_display(identity.label.clone(), identity.known, identity.tags.as_slice());
    let roles = roles_label(&identity.roles);
    let v = SharedDriveIdentityView {
        label: display.label,
        roles_label: roles,
        tagged: display.tagged,
        unknown: display.unknown,
        color: display.color,
        text_color: display.text_color,
        tag_details: display.tag_details,
        directory_url: display.directory_url,
    };
    v
}

/// Each view shows the identity at its place.
pub open spec fn identity_views_of(views: Seq<SharedDriveIdentityView>, ids: Seq<SharedDrivePermissionIdentity>) -> bool {
    &&& views.len() == ids.len()
    &&& forall|k: int| 0 <= k < ids.len() ==> identity_view_of(#[trigger] views[k], ids[k])
}

fn identity_views(ids: &Vec<SharedDrivePermissionIdentity>, managers_only: bool) -> (views: Vec<
    SharedDriveIdentityView,
>)
    ensures
        identity_views_of(views@, if managers_only { managers_of(ids@) } else { ids@ }),
{
    let mut views: Vec<SharedDriveIdentityView> = Vec::new();
    let mut i: usize = 0;
    while i < ids.len()
        invariant
            i <= ids@.len(),
            identity_views_of(
                views@,
                if managers_only {
                    managers_of(ids@.subrange(0, i as int))
                } else {
                    ids@.subrange(0, i as int)
                },
            ),
        decreases ids.len() - i,
    {
        let ghost before = views@;
        assert(ids@.subrange(0, i + 1).drop_last() =~= ids@.subrange(0, i as int));
        assert(ids@.subrange(0, i + 1).last() == ids@[i as int]);
        if !managers_only || is_manager(&ids[i]) {
            views.push(shared_drive_identity_view(&ids[i]));
            assert(views@.drop_last() =~= before);
        }
        i = i + 1;
    }
    assert(ids@.subrange(0, ids@.len() as int) =~= ids@);
    views
}

/// The date shown for a drive: its last modification, or a dash.
pub open spec fn modified_text(modified_at: Seq<char>) -> Seq<char> {
    if modified_at.len() == 0 {
        "—"@
    } else {
        modified_at
    }
}

/// The view shows the drive.
pub open spec fn drive_view_of(v: SharedDriveView, d: SharedDriveRow) -> bool {
    &&& v.drive_id@ == d.drive_id@
    &&& v.name@ == d.name@
    &&& v.is_accessible == d.is_accessible
    &&& v.last_error@ == d.last_error@
    &&& v.files == d.files_scanned
    &&& v.folders == d.folders_scanned
    &&& v.permissions_count == d.permissions_scanned
    &&& identity_views_of(v.managers@, managers_of(d.permission_identities@))
    &&& identity_views_of(v.permission_identities@, d.permission_identities@)
    &&& v.size_label@ == size_text(d.bytes_discovered as nat)
    &&& v.modified_at@ == modified_text(d.modified_at@)
    &&& v.tags@.len() == d.tags@.len()
    &&& forall|k: int| 0 <= k < d.tags@.len() ==> pill_of(#[trigger] v.tags@[k], d.tags@[k])
}

fn tag_pills(tags: &Vec<Tag>) -> (pills: Vec<TagPill>)
    ensures
        pills@.len() == tags@.len(),
        forall|k: int| 0 <= k < tags@.len() ==> pill_of(#[trigger] pills@[k], tags@[k]),
{
    let mut pills: Vec<TagPill> = Vec::new();
    let mut i: usize = 0;
    while i < tags.len()
        invariant
            i <= tags@.len(),
            pills@.len() == i,
            forall|k: int| 0 <= k < i ==> pill_of(#[trigger] pills@[k], tags@[k]),
        decreases tags.len() - i,
    {
        pills.push(tag_pill(&tags[i]));
        i = i + 1;
    }
    pills
}

/// One Shared Drive of the listing, as the page shows it.
pub fn shared_drive_view(drive: &SharedDriveRow) -> (v: SharedDriveView)
    ensures
        drive_view_of(v, *drive),
{
    let modified = if chars_of(drive.modified_at.as_str()).len() == 0 {
        string_from("—")
    } else {
        drive.modified_at.clone()
    };
    SharedDriveView {
        drive_id: drive.drive_id.clone(),
        name: drive.name.clone(),
        is_accessible: drive.is_accessible,
        last_error: drive.last_error.clone(),
        files: drive.files_scanned,
        folders: drive.folders_scanned,
        permissions_count: drive.permissions_scanned,
        managers: identity_views(&drive.permission_identities, true),
        permission_identities: identity_views(&drive.permission_identities, false),
        size_label: format_bytes(drive.bytes_discovered),
        modified_at: modified,
        tags: tag_pills(&drive.tags),
    }
}

/// The column the listing is sorted by: one the page offers, else the name.
pub open spec fn shared_drive_sort_key(sort: Seq<char>) -> Seq<char> {
    if sort == "tags"@ || sort == "files"@ || sort == "folders"@ || sort == "size"@ || sort == "modified"@
        || sort == "managers"@ || sort == "permissions"@ {
        sort
    } else {
        "name"@
    }
}

/// The column the listing is sorted by.
pub fn shared_drive_sort(query: &DrivePathQuery) -> (sort: &'static str)
    ensures
        sort@ == shared_drive_sort_key(query.sort@),
{
    let s = chars_of(query.sort.as_str());
    if equals_str(s.as_slice(), "tags") {
        "tags"
    } else if equals_str(s.as_slice(), "files") {
        "files"
    } else if equals_str(s.as_slice(), "folders") {
        "folders"
    } else if equals_str(s.as_slice(), "size") {
        "size"
    } else if equals_str(s.as_slice(), "modified") {
        "modified"
    } else if equals_str(s.as_slice(), "managers") {
        "managers"
    } else if equals_str(s.as_slice(), "permissions") {
        "permissions"
    } else {
        "name"
    }
}

/// Whether a direction asks for descending order (ignoring ASCII case).
pub open spec fn is_descending(direction: Seq<char>) -> bool {
    lower_seq(direction) == "desc"@
}

/// Three-way comparison of texts, character by character (the order of
/// `String`).
pub open spec fn text_order(a: Seq<char>, b: Seq<char>) -> int
    decreases a.len(),
{
    if a.len() == 0 {
        if b.len() == 0 {
            0
        } else {
            -1
        }
    } else if b.len() == 0 {
        1
    } else if a[0] < b[0] {
        -1
    } else if a[0] > b[0] {
        1
    } else {
        text_order(a.drop_first(), b.drop_first())
    }
}

/// Three-way comparison of optional texts; nothing comes first.
pub open spec fn optional_text_order(a: Option<Seq<char>>, b: Option<Seq<char>>) -> int {
    match (a, b) {
        (None, None) => 0,
        (None, Some(_)) => -1,
        (Some(_), None) => 1,
        (Some(x), Some(y)) => text_order(x, y),
    }
}

/// Three-way comparison of counts.
pub open spec fn count_order(a: u64, b: u64) -> int {
    if a < b {
        -1
    } else if a > b {
        1
    } else {
        0
    }
}

/// The smallest of some texts, if any.
pub open spec fn smallest_text(texts: Seq<Seq<char>>) -> Option<Seq<char>>
    decreases texts.len(),
{
    if texts.len() == 0 {
        None
    } else {
        match smallest_text(texts.drop_last()) {
            None => Some(texts.last()),
            Some(m) => if text_order(texts.last(), m) < 0 {
                Some(texts.last())
            } else {
                Some(m)
            },
        }
    }
}

/// A drive's key for the managers column: its managers' labels in lower
/// case, the smallest of them.
pub open spec fn manager_key(d: SharedDriveRow) -> Option<Seq<char>> {
    smallest_text(managers_of(d.permission_identities@).map_values(|i: SharedDrivePermissionIdentity| lower_seq(i.label@)))
}

/// A drive's key for the tags column: its first tag's name in lower case.
pub open spec fn first_tag_key(tags: Seq<Tag>) -> Option<Seq<char>> {
    if tags.len() > 0 {
        Some(lower_seq(tags[0].name@))
    } else {
        None
    }
}

/// A drive's key for the permissions column: its first identity's label in
/// lower case.
pub open spec fn first_identity_key(ids: Seq<SharedDrivePermissionIdentity>) -> Option<Seq<char>> {
    if ids.len() > 0 {
        Some(lower_seq(ids[0].label@))
    } else {
        None
    }
}

/// How two drives compare on the sorted column.
pub open spec fn column_order(l: SharedDriveRow, r: SharedDriveRow, sort: Seq<char>) -> int {
    if sort == "tags"@ {
        optional_text_order(first_tag_key(l.tags@), first_tag_key(r.tags@))
    } else if sort == "files"@ {
        count_order(l.files_scanned, r.files_scanned)
    } else if sort == "folders"@ {
        count_order(l.folders_scanned, r.folders_scanned)
    } else if sort == "size"@ {
        count_order(l.bytes_discovered, r.bytes_discovered)
    } else if sort == "modified"@ {
        text_order(l.modified_at@, r.modified_at@)
    } else if sort == "managers"@ {
        optional_text_order(manager_key(l), manager_key(r))
    } else if sort == "permissions"@ {
        optional_text_order(first_identity_key(l.permission_identities@), first_identity_key(r.permission_identities@))
    } else {
        text_order(lower_seq(l.name@), lower_seq(r.name@))
    }
}

/// The listing's order: the sorted column, reversed when descending, then
/// the drive id.
pub open spec fn drive_order(l: SharedDriveRow, r: SharedDriveRow, sort: Seq<char>, descending: bool) -> int {
    let o = column_order(l, r, sort);
    let o = if descending {
        -o
    } else {
        o
    };
    if o != 0 {
        o
    } else {
        text_order(l.drive_id@, r.drive_id@)
    }
}

/// Comparing the other way round gives the opposite answer.
pub proof fn lemma_text_order_antisymmetric(a: Seq<char>, b: Seq<char>)
    ensures
        text_order(a, b) == -text_order(b, a),
    decreases a.len(),
{
    if a.len() > 0 && b.len() > 0 && a[0] == b[0] {
        lemma_text_order_antisymmetric(a.drop_first(), b.drop_first());
    }
}

/// A comparison answers -1, 0 or 1.
pub proof fn lemma_text_order_range(a: Seq<char>, b: Seq<char>)
    ensures
        -1 <= text_order(a, b) <= 1,
    decreases a.len(),
{
    if a.len() > 0 && b.len() > 0 && a[0] == b[0] {
        lemma_text_order_range(a.drop_first(), b.drop_first());
    }
}

proof fn lemma_column_order_range(l: SharedDriveRow, r: SharedDriveRow, sort: Seq<char>)
    ensures
        -1 <= column_order(l, r, sort) <= 1,
{
    lemma_text_order_range(l.modified_at@, r.modified_at@);
    lemma_text_order_range(lower_seq(l.name@), lower_seq(r.name@));
    match (first_tag_key(l.tags@), first_tag_key(r.tags@)) {
        (Some(x), Some(y)) => lemma_text_order_range(x, y),
        _ => {},
    }
    match (manager_key(l), manager_key(r)) {
        (Some(x), Some(y)) => lemma_text_order_range(x, y),
        _ => {},
    }
    match (first_identity_key(l.permission_identities@), first_identity_key(r.permission_identities@)) {
        (Some(x), Some(y)) => lemma_text_order_range(x, y),
        _ => {},
    }
}

/// The listing's order is antisymmetric.
pub proof fn lemma_drive_order_antisymmetric(l: SharedDriveRow, r: SharedDriveRow, sort: Seq<char>, descending: bool)
    ensures
        drive_order(l, r, sort, descending) == -drive_order(r, l, sort, descending),
{
    lemma_text_order_antisymmetric(l.drive_id@, r.drive_id@);
    lemma_text_order_antisymmetric(l.modified_at@, r.modified_at@);
    lemma_text_order_antisymmetric(lower_seq(l.name@), lower_seq(r.name@));
    match (first_tag_key(l.tags@), first_tag_key(r.tags@)) {
        (Some(x), Some(y)) => lemma_text_order_antisymmetric(x, y),
        _ => {},
    }
    match (manager_key(l), manager_key(r)) {
        (Some(x), Some(y)) => lemma_text_order_antisymmetric(x, y),
        _ => {},
    }
    match (first_identity_key(l.permission_identities@), first_identity_key(r.permission_identities@)) {
        (Some(x), Some(y)) => lemma_text_order_antisymmetric(x, y),
        _ => {},
    }
}

fn compare_texts(a: &[char], b: &[char]) -> (o: i8)
    ensures
        o == text_order(a@, b@),
{
    let mut i: usize = 0;
    assert(a@.subrange(0, a@.len() as int) =~= a@);
    assert(b@.subrange(0, b@.len() as int) =~= b@);
    while i < a.len() && i < b.len() && a[i] == b[i]
        invariant
            i <= a@.len(),
            i <= b@.len(),
            text_order(a@, b@) == text_order(a@.subrange(i as int, a@.len() as int), b@.subrange(i as int, b@.len() as int)),
        decreases a@.len() - i,
    {
        assert(a@.subrange(i as int, a@.len() as int).drop_first() =~= a@.subrange(i + 1, a@.len() as int));
        assert(b@.subrange(i as int, b@.len() as int).drop_first() =~= b@.subrange(i + 1, b@.len() as int));
        i = i + 1;
    }
    if i == a.len() {
        if i == b.len() {
            0
        } else {
            -1
        }
    } else if i == b.len() {
        1
    } else if a[i] < b[i] {
        -1
    } else {
        1
    }
}

fn compare_optional_texts(a: &Option<Vec<char>>, b: &Option<Vec<char>>) -> (o: i8)
    ensures
        o == optional_text_order(chars_view(*a), chars_view(*b)),
{
    match (a, b) {
        (None, None) => 0,
        (None, Some(_)) => -1,
        (Some(_), None) => 1,
        (Some(x), Some(y)) => compare_texts(x.as_slice(), y.as_slice()),
    }
}

/// The characters of an optional text.
pub open spec fn chars_view(o: Option<Vec<char>>) -> Option<Seq<char>> {
    match o {
        Some(v) => Some(v@),
        None => None,
    }
}

fn compare_counts(a: u64, b: u64) -> (o: i8)
    ensures
        o == count_order(a, b),
{
    if a < b {
        -1
    } else if a > b {
        1
    } else {
        0
    }
}

fn lower_chars(s: &String) -> (result: Vec<char>)
    ensures
        result@ == lower_seq(s@),
{
    to_ascii_lower(chars_of(s.as_str()).as_slice())
}

/// The drive's key for the managers column: the smallest of its managers'
/// labels in lower case.
pub fn shared_drive_manager_sort_key(drive: &SharedDriveRow) -> (key: Option<Vec<char>>)
    ensures
        chars_view(key) == manager_key(*drive),
{
    let ids = &drive.permission_identities;
    let ghost lowered = |i: SharedDrivePermissionIdentity| lower_seq(i.label@);
    let mut best: Option<Vec<char>> = None;
    let mut k: usize = 0;
    while k < ids.len()
        invariant
            k <= ids@.len(),
            lowered == (|i: SharedDrivePermissionIdentity| lower_seq(i.label@)),
            chars_view(best) == smallest_text(managers_of(ids@.subrange(0, k as int)).map_values(lowered)),
        decreases ids.len() - k,
    {
        let ghost before = managers_of(ids@.subrange(0, k as int));
        assert(ids@.subrange(0, k + 1).drop_last() =~= ids@.subrange(0, k as int));
        assert(ids@.subrange(0, k + 1).last() == ids@[k as int]);
        if is_manager(&ids[k]) {
            let label = lower_chars(&ids[k].label);
            let ghost after = managers_of(ids@.subrange(0, k + 1));
            assert(after == before.push(ids@[k as int]));
            assert(after.map_values(lowered).drop_last() =~= before.map_values(lowered));
            assert(after.map_values(lowered).last() == label@);
            let replace = match &best {
                None => true,
                Some(m) => compare_texts(label.as_slice(), m.as_slice()) < 0,
            };
            if replace {
                best = Some(label);
            }
        }
        k = k + 1;
    }
    assert(ids@.subrange(0, ids@.len() as int) =~= ids@);
    best
}

fn first_tag_name(tags: &Vec<Tag>) -> (key: Option<Vec<char>>)
    ensures
        chars_view(key) == first_tag_key(tags@),
{
    if tags.len() > 0 {
        Some(lower_chars(&tags[0].name))
    } else {
        None
    }
}

fn first_identity_label(ids: &Vec<SharedDrivePermissionIdentity>) -> (key: Option<Vec<char>>)
    ensures
        chars_view(key) == first_identity_key(ids@),
{
    if ids.len() > 0 {
        Some(lower_chars(&ids[0].label))
    } else {
        None
    }
}

fn compare_columns(l: &SharedDriveRow, r: &SharedDriveRow, sort: &str) -> (o: i8)
    ensures
        o == column_order(*l, *r, sort@),
{
    let s = chars_of(sort);
    if equals_str(s.as_slice(), "tags") {
        compare_optional_texts(&first_tag_name(&l.tags), &first_tag_name(&r.tags))
    } else if equals_str(s.as_slice(), "files") {
        compare_counts(l.files_scanned, r.files_scanned)
    } else if equals_str(s.as_slice(), "folders") {
        compare_counts(l.folders_scanned, r.folders_scanned)
    } else if equals_str(s.as_slice(), "size") {
        compare_counts(l.bytes_discovered, r.bytes_discovered)
    } else if equals_str(s.as_slice(), "modified") {
        compare_texts(chars_of(l.modified_at.as_str()).as_slice(), chars_of(r.modified_at.as_str()).as_slice())
    } else if equals_str(s.as_slice(), "managers") {
        compare_optional_texts(&shared_drive_manager_sort_key(l), &shared_drive_manager_sort_key(r))
    } else if equals_str(s.as_slice(), "permissions") {
        compare_optional_texts(
            &first_identity_label(&l.permission_identities),
            &first_identity_label(&r.permission_identities),
        )
    } else {
        compare_texts(lower_chars(&l.name).as_slice(), lower_chars(&r.name).as_slice())
    }
}

fn compare_drives(l: &SharedDriveRow, r: &SharedDriveRow, sort: &str, descending: bool) -> (o: i8)
    ensures
        o == drive_order(*l, *r, sort@, descending),
{
    let c = compare_columns(l, r, sort);
    proof {
        lemma_column_order_range(*l, *r, sort@);
    }
    let c: i8 = if descending {
        -c
    } else {
        c
    };
    if c != 0 {
        c
    } else {
        compare_texts(chars_of(l.drive_id.as_str()).as_slice(), chars_of(r.drive_id.as_str()).as_slice())
    }
}

/// The drives are in the listing's order.
pub open spec fn in_drive_order(drives: Seq<SharedDriveRow>, sort: Seq<char>, descending: bool) -> bool {
    forall|a: int| 0 <= a < drives.len() - 1 ==> drive_order(#[trigger] drives[a], drives[a + 1], sort, descending) <= 0
}

/// Drives sorted by a count column ascending come in non-decreasing order of
/// that count, and sorted descending in non-increasing order: "size" orders
/// by the bytes discovered, "files" by the files and "folders" by the
/// folders scanned.
pub proof fn law_count_sorts_follow_their_count(drives: Seq<SharedDriveRow>, query: DrivePathQuery)
    requires
        in_drive_order(drives, shared_drive_sort_key(query.sort@), is_descending(query.direction@)),
    ensures
        query.sort@ == "size"@ ==> forall|a: int|
            0 <= a < drives.len() - 1 ==> if is_descending(query.direction@) {
                #[trigger] drives[a].bytes_discovered >= drives[a + 1].bytes_discovered
            } else {
                drives[a].bytes_discovered <= drives[a + 1].bytes_discovered
            },
        query.sort@ == "files"@ ==> forall|a: int|
            0 <= a < drives.len() - 1 ==> if is_descending(query.direction@) {
                #[trigger] drives[a].files_scanned >= drives[a + 1].files_scanned
            } else {
                drives[a].files_scanned <= drives[a + 1].files_scanned
            },
        query.sort@ == "folders"@ ==> forall|a: int|
            0 <= a < drives.len() - 1 ==> if is_descending(query.direction@) {
                #[trigger] drives[a].folders_scanned >= drives[a + 1].folders_scanned
            } else {
                drives[a].folders_scanned <= drives[a + 1].folders_scanned
            },
{
    reveal_strlit("tags");
    reveal_strlit("files");
    reveal_strlit("folders");
    reveal_strlit("size");
    reveal_strlit("modified");
    reveal_strlit("managers");
    reveal_strlit("permissions");
    reveal_strlit("name");
    let descending = is_descending(query.direction@);
    let key = shared_drive_sort_key(query.sort@);
    if query.sort@ == "size"@ {
        assert(key == "size"@);
        assert("size"@[0] != "tags"@[0] && "size"@.len() != "files"@.len() && "size"@.len() != "folders"@.len());
        assert forall|a: int| 0 <= a < drives.len() - 1 implies if descending {
            #[trigger] drives[a].bytes_discovered >= drives[a + 1].bytes_discovered
        } else {
            drives[a].bytes_discovered <= drives[a + 1].bytes_discovered
        } by {
            lemma_adjacent_in_column_order(drives[a], drives[a + 1], key, descending);
        }
    }
    if query.sort@ == "files"@ {
        assert(key == "files"@);
        assert("files"@.len() != "tags"@.len());
        assert forall|a: int| 0 <= a < drives.len() - 1 implies if descending {
            #[trigger] drives[a].files_scanned >= drives[a + 1].files_scanned
        } else {
            drives[a].files_scanned <= drives[a + 1].files_scanned
        } by {
            lemma_adjacent_in_column_order(drives[a], drives[a + 1], key, descending);
        }
    }
    if query.sort@ == "folders"@ {
        assert(key == "folders"@);
        assert("folders"@.len() != "tags"@.len() && "folders"@.len() != "files"@.len());
        assert forall|a: int| 0 <= a < drives.len() - 1 implies if descending {
            #[trigger] drives[a].folders_scanned >= drives[a + 1].folders_scanned
        } else {
            drives[a].folders_scanned <= drives[a + 1].folders_scanned
        } by {
            lemma_adjacent_in_column_order(drives[a], drives[a + 1], key, descending);
        }
    }
}

/// Two drives in the listing's order are in the sorted column's order
/// (reversed when descending).
proof fn lemma_adjacent_in_column_order(l: SharedDriveRow, r: SharedDriveRow, key: Seq<char>, descending: bool)
    requires
        drive_order(l, r, key, descending) <= 0,
    ensures
        descending ==> column_order(l, r, key) >= 0,
        !descending ==> column_order(l, r, key) <= 0,
{
}

/// Sorts the drives as the query asks: by the chosen column (the name by
/// default, ignoring ASCII case), descending when the direction says
/// `desc` in any case, and by drive id among equals.  The sort is stable.
pub fn sort_shared_drives(drives: &mut Vec<SharedDriveRow>, query: &DrivePathQuery)
    ensures
        final(drives)@.to_multiset() == old(drives)@.to_multiset(),
        final(drives)@.len() == old(drives)@.len(),
        in_drive_order(final(drives)@, shared_drive_sort_key(query.sort@), is_descending(query.direction@)),
{
    broadcast use vstd::seq_lib::group_to_multiset_ensures, vstd::multiset::group_multiset_axioms;

    let sort = shared_drive_sort(query);
    let descending = equals_str(to_ascii_lower(chars_of(query.direction.as_str()).as_slice()).as_slice(), "desc");
    let ghost original = drives@;
    let mut rest: Vec<SharedDriveRow> = Vec::new();
    std::mem::swap(&mut rest, drives);
    let mut sorted: Vec<SharedDriveRow> = Vec::new();
    while rest.len() > 0
        invariant
            sorted@.to_multiset().add(rest@.to_multiset()) == original.to_multiset(),
            sorted@.len() + rest@.len() == original.len(),
            in_drive_order(sorted@, sort@, descending),
        decreases rest@.len(),
    {
        let ghost rest_before = rest@;
        let x = rest.remove(0);
        assert(rest_before.to_multiset() == rest@.to_multiset().insert(x)) by {
            vstd::seq_lib::to_multiset_remove(rest_before, 0);
            assert(rest_before[0] == x);
            assert(rest_before.contains(x));
            vstd::seq_lib::to_multiset_contains(rest_before, x);
        }
        let mut at: usize = sorted.len();
        while at > 0 && compare_drives(&sorted[at - 1], &x, sort, descending) > 0
            invariant
                at <= sorted@.len(),
                at < sorted@.len() ==> drive_order(sorted@[at as int], x, sort@, descending) > 0,
            decreases at,
        {
            at = at - 1;
        }
        let ghost before = sorted@;
        proof {
            if at < before.len() {
                lemma_drive_order_antisymmetric(before[at as int], x, sort@, descending);
            }
        }
        sorted.insert(at, x);
        proof {
            vstd::seq_lib::to_multiset_insert(before, at as int, x);
            assert forall|a: int| 0 <= a < sorted@.len() - 1 implies drive_order(
                #[trigger] sorted@[a],
                sorted@[a + 1],
                sort@,
                descending,
            ) <= 0 by {
                if a + 1 < at {
                    assert(sorted@[a] == before[a] && sorted@[a + 1] == before[a + 1]);
                } else if a + 1 == at {
                    assert(sorted@[a] == before[a] && sorted@[a + 1] == x);
                } else if a == at {
                    assert(sorted@[a] == x && sorted@[a + 1] == before[a]);
                } else {
                    assert(sorted@[a] == before[a - 1] && sorted@[a + 1] == before[a]);
                }
            }
            assert(sorted@.to_multiset().add(rest@.to_multiset()) =~= original.to_multiset());
        }
    }
    assert(rest@.to_multiset() =~= vstd::multiset::Multiset::empty());
    assert(sorted@.to_multiset() =~= original.to_multiset());
    *drives = sorted;
}

/// The drives a listing shows: all of them, or only the accessible ones.
pub open spec fn visible_drives(all: Seq<SharedDriveRow>, show_inaccessible: bool) -> Seq<SharedDriveRow>
    decreases all.len(),
{
    if all.len() == 0 {
        seq![]
    } else if show_inaccessible || all.last().is_accessible {
        visible_drives(all.drop_last(), show_inaccessible).push(all.last())
    } else {
        visible_drives(all.drop_last(), show_inaccessible)
    }
}

/// How many of the drives Rclone cannot reach.
pub open spec fn inaccessible_total(all: Seq<SharedDriveRow>) -> nat
    decreases all.len(),
{
    if all.len() == 0 {
        0
    } else {
        inaccessible_total(all.drop_last()) + if all.last().is_accessible {
            0nat
        } else {
            1nat
        }
    }
}

/// The files scanned in the drives, together.
pub open spec fn files_total(drives: Seq<SharedDriveRow>) -> nat
    decreases drives.len(),
{
    if drives.len() == 0 {
        0
    } else {
        files_total(drives.drop_last()) + drives.last().files_scanned as nat
    }
}

/// The folders scanned in the drives, together.
pub open spec fn folders_total(drives: Seq<SharedDriveRow>) -> nat
    decreases drives.len(),
{
    if drives.len() == 0 {
        0
    } else {
        folders_total(drives.drop_last()) + drives.last().folders_scanned as nat
    }
}

/// The bytes found in the drives, together.
pub open spec fn bytes_total(drives: Seq<SharedDriveRow>) -> nat
    decreases drives.len(),
{
    if drives.len() == 0 {
        0
    } else {
        bytes_total(drives.drop_last()) + drives.last().bytes_discovered as nat
    }
}

/// The permissions scanned in the drives, together.
pub open spec fn permissions_total(drives: Seq<SharedDriveRow>) -> nat
    decreases drives.len(),
{
    if drives.len() == 0 {
        0
    } else {
        permissions_total(drives.drop_last()) + drives.last().permissions_scanned as nat
    }
}

/// The totals fit the summary's integers.
pub open spec fn totals_fit(drives: Seq<SharedDriveRow>) -> bool {
    &&& files_total(drives) <= usize::MAX
    &&& folders_total(drives) <= usize::MAX
    &&& bytes_total(drives) <= u64::MAX
    &&& permissions_total(drives) <= usize::MAX
}

proof fn lemma_totals_prefix(drives: Seq<SharedDriveRow>, i: int)
    requires
        0 <= i <= drives.len(),
    ensures
        files_total(drives.subrange(0, i)) <= files_total(drives),
        folders_total(drives.subrange(0, i)) <= folders_total(drives),
        bytes_total(drives.subrange(0, i)) <= bytes_total(drives),
        permissions_total(drives.subrange(0, i)) <= permissions_total(drives),
    decreases drives.len() - i,
{
    if i < drives.len() {
        lemma_totals_prefix(drives, i + 1);
        assert(drives.subrange(0, i + 1).drop_last() =~= drives.subrange(0, i));
    } else {
        assert(drives.subrange(0, i) =~= drives);
    }
}

/// The totals above a listing of drives.
pub open spec fn summary_of(summary: ExplorerSummary, drives: Seq<SharedDriveRow>) -> bool {
    &&& summary.items == drives.len()
    &&& summary.files == files_total(drives)
    &&& summary.folders == folders_total(drives)
    &&& summary.size_bytes == bytes_total(drives)
    &&& summary.size_label@ == size_text(bytes_total(drives))
    &&& summary.permissions == permissions_total(drives)
}

/// The totals above a listing of drives.
pub fn shared_drives_summary(drives: &Vec<SharedDriveRow>) -> (summary: ExplorerSummary)
    requires
        totals_fit(drives@),
    ensures
        summary_of(summary, drives@),
{
    let mut files: usize = 0;
    let mut folders: usize = 0;
    let mut bytes: u64 = 0;
    let mut permissions: usize = 0;
    let mut i: usize = 0;
    while i < drives.len()
        invariant
            i <= drives@.len(),
            totals_fit(drives@),
            files == files_total(drives@.subrange(0, i as int)),
            folders == folders_total(drives@.subrange(0, i as int)),
            bytes == bytes_total(drives@.subrange(0, i as int)),
            permissions == permissions_total(drives@.subrange(0, i as int)),
        decreases drives.len() - i,
    {
        proof {
            lemma_totals_prefix(drives@, i + 1);
            assert(drives@.subrange(0, i + 1).drop_last() =~= drives@.subrange(0, i as int));
        }
        let d = &drives[i];
        files = files + d.files_scanned as usize;
        folders = folders + d.folders_scanned as usize;
        bytes = bytes + d.bytes_discovered;
        permissions = permissions + d.permissions_scanned as usize;
        i = i + 1;
    }
    assert(drives@.subrange(0, drives@.len() as int) =~= drives@);
    ExplorerSummary {
        items: drives.len(),
        files,
        folders,
        size_bytes: bytes,
        size_label: format_bytes(bytes),
        permissions,
    }
}

/// `sorted` holds the drives of `rows` in the listing's order.
pub open spec fn sorted_from(
    sorted: Seq<SharedDriveRow>,
    rows: Seq<SharedDriveRow>,
    sort: Seq<char>,
    descending: bool,
) -> bool {
    &&& sorted.to_multiset() == rows.to_multiset()
    &&& sorted.len() == rows.len()
    &&& in_drive_order(sorted, sort, descending)
}

/// The views show the drives of `rows` in the listing's order.
pub open spec fn listing_shows(
    views: Seq<SharedDriveView>,
    rows: Seq<SharedDriveRow>,
    sort: Seq<char>,
    descending: bool,
) -> bool {
    exists|sorted: Seq<SharedDriveRow>|
        #[trigger] sorted_from(sorted, rows, sort, descending) && views.len() == sorted.len() && forall|k: int|
            0 <= k < sorted.len() ==> drive_view_of(#[trigger] views[k], sorted[k])
}

/// What the Shared Drives page lists.
#[derive(Debug, Clone)]
pub struct SharedDrivesListing {
    pub drives: Vec<SharedDriveView>,
    pub inaccessible_count: usize,
    pub summary: ExplorerSummary,
    pub sort: &'static str,
    pub direction: &'static str,
}

pub(crate) fn visible(all: Vec<SharedDriveRow>, show_inaccessible: bool) -> (shown: Vec<SharedDriveRow>)
    ensures
        shown@ == visible_drives(all@, show_inaccessible),
{
    let ghost original = all@;
    let n = all.len();
    let mut rest = all;
    let mut shown: Vec<SharedDriveRow> = Vec::new();
    let mut i: usize = 0;
    while rest.len() > 0
        invariant
            i + rest@.len() == original.len(),
            original.len() == n,
            rest@ == original.subrange(i as int, original.len() as int),
            shown@ == visible_drives(original.subrange(0, i as int), show_inaccessible),
        decreases rest@.len(),
    {
        let d = rest.remove(0);
        assert(original.subrange(0, i + 1).drop_last() =~= original.subrange(0, i as int));
        assert(original.subrange(0, i + 1).last() == d);
        assert(rest@ =~= original.subrange(i + 1, original.len() as int));
        if show_inaccessible || d.is_accessible {
            shown.push(d);
        }
        i = i + 1;
    }
    assert(original.subrange(0, original.len() as int) =~= original);
    shown
}

/// The Shared Drives page's listing of `all`: the drives it shows, sorted
/// as the query asks, with the totals over them and how many drives are
/// out of reach.
pub fn shared_drives_listing(all: Vec<SharedDriveRow>, query: &DrivePathQuery) -> (listing: SharedDrivesListing)
    requires
        totals_fit(visible_drives(all@, query.show_inaccessible)),
    ensures
        listing.inaccessible_count == inaccessible_total(all@),
        summary_of(listing.summary, visible_drives(all@, query.show_inaccessible)),
        listing_shows(
            listing.drives@,
            visible_drives(all@, query.show_inaccessible),
            shared_drive_sort_key(query.sort@),
            is_descending(query.direction@),
        ),
        listing.sort@ == shared_drive_sort_key(query.sort@),
        listing.direction@ == (if is_descending(query.direction@) {
            "desc"@
        } else {
            "asc"@
        }),
{
    let mut inaccessible: usize = 0;
    let mut i: usize = 0;
    while i < all.len()
        invariant
            i <= all@.len(),
            inaccessible == inaccessible_total(all@.subrange(0, i as int)),
            inaccessible <= i,
        decreases all.len() - i,
    {
        assert(all@.subrange(0, i + 1).drop_last() =~= all@.subrange(0, i as int));
        if !all[i].is_accessible {
            inaccessible = inaccessible + 1;
        }
        i = i + 1;
    }
    assert(all@.subrange(0, all@.len() as int) =~= all@);
    let ghost rows = visible_drives(all@, query.show_inaccessible);
    let mut drives = visible(all, query.show_inaccessible);
    let summary = shared_drives_summary(&drives);
    sort_shared_drives(&mut drives, query);
    let mut views: Vec<SharedDriveView> = Vec::new();
    let mut k: usize = 0;
    while k < drives.len()
        invariant
            k <= drives@.len(),
            views@.len() == k,
            forall|m: int| 0 <= m < k ==> drive_view_of(#[trigger] views@[m], drives@[m]),
        decreases drives.len() - k,
    {
        views.push(shared_drive_view(&drives[k]));
        k = k + 1;
    }
    assert(sorted_from(drives@, rows, shared_drive_sort_key(query.sort@), is_descending(query.direction@)));
    let descending = equals_str(to_ascii_lower(chars_of(query.direction.as_str()).as_slice()).as_slice(), "desc");
    SharedDrivesListing {
        drives: views,
        inaccessible_count: inaccessible,
        summary,
        sort: shared_drive_sort(query),
        direction: if descending {
            "desc"
        } else {
            "asc"
        },
    }
}

} // verus!
