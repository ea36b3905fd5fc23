//! The Excel reports of the web interface: a drive listing as the explorer
//! shows it, and the Shared Drives listing, each with a sheet that records
//! the filters it was made with.
use vstd::prelude::*;

use crate::database::inventory::{
    get_shared_drive, list_drive_directory, list_shared_drives_filtered, count_filter_ok, modified_filter_ok,
    size_filter_ok, DriveExplorerItem, PermissionIdentity, SharedDrivePermissionIdentity, SharedDriveRow, Tag,
    MY_DRIVE_SCOPE, SHARED_WITH_ME_SCOPE, explorer_listing, shared_drive_listing,
};
use crate::database::{DatabaseError, Database};
use crate::explorer::{explorer_request, explorer_sort_key, DrivePathQuery};
use crate::format::{format_bytes, size_text};
use crate::migrations::{filter_shown, filter_value};
use crate::shared_drives::{
    is_descending, is_manager, managers_of, shared_drive_sort, shared_drive_sort_key, sort_shared_drives, sorted_from,
    visible, visible_drives,
};
use crate::text::{chars_of, decimal, join, join_chars, push_decimal, push_str, string_from, string_of};
use crate::xlsx::{workbook, workbook_entries, workbook_sheets, zip_archive, Cell};

verus! {

/// Why a report could not be made, as the web interface answers.
#[derive(Debug, Clone)]
pub enum ReportError {
    /// The drive asked for is not in the inventory.
    NotFound,
    /// The inventory refused the request (a malformed filter, say).
    BadRequest(String),
    /// The inventory or the workbook failed.
    Internal(String),
}

/// A finished report and the name it is offered under.
#[derive(Debug)]
pub struct Report {
    pub bytes: Vec<u8>,
    pub filename: &'static str,
}

/// The context sheet's pairs as text.
pub open spec fn pairs_view(pairs: Seq<(String, String)>) -> Seq<(Seq<char>, Seq<char>)> {
    pairs.map_values(|p: (String, String)| (p.0@, p.1@))
}

/// How a flag is written: `true` or `false`.
pub open spec fn flag_text(b: bool) -> Seq<char> {
    if b {
        "true"@
    } else {
        "false"@
    }
}

/// The context sheet of a drive listing's report.
pub open spec fn drive_context(
    view_name: Seq<char>,
    query: DrivePathQuery,
    sort: Seq<char>,
    result_count: nat,
) -> Seq<(Seq<char>, Seq<char>)> {
    seq![
        ("View"@, view_name),
        (
            "Location"@,
            if query.path@.len() == 0 {
                view_name
            } else {
                query.path@
            },
        ),
        ("Results"@, decimal(result_count)),
        ("Search"@, filter_shown(query.q@)),
        ("Tag"@, filter_shown(query.tag@)),
        ("Type"@, filter_shown(query.type_filter@)),
        ("Size"@, filter_shown(query.size_filter@)),
        ("Modified"@, filter_shown(query.modified_filter@)),
        ("Owner"@, filter_shown(query.owner_filter@)),
        ("Permission"@, filter_shown(query.permission_filter@)),
        ("Owner person tag"@, filter_shown(query.owner_identity_tag@)),
        ("Permission person tag"@, filter_shown(query.permission_identity_tag@)),
        ("Include deleted"@, flag_text(query.include_deleted)),
        (
            "Sort"@,
            sort + " "@ + if query.direction@ == "desc"@ {
                "desc"@
            } else {
                "asc"@
            },
        ),
    ]
}

fn pair(name: &str, value: String) -> (p: (String, String))
    ensures
        p.0@ == name@,
        p.1@ == value@,
{
    (string_from(name), value)
}

fn flag(b: bool) -> (text: String)
    ensures
        text@ == flag_text(b),
{
    if b {
        string_from("true")
    } else {
        string_from("false")
    }
}

fn count_text(n: usize) -> (text: String)
    ensures
        text@ == decimal(n as nat),
{
    let mut v: Vec<char> = Vec::new();
    push_decimal(&mut v, n as u64);
    string_of(v.as_slice())
}

/// The context sheet of a drive listing's report: the view, where in it,
/// how many results, each filter (`Any` when blank), and the sort.
pub fn drive_export_context(view_name: &str, query: &DrivePathQuery, sort: &str, result_count: usize) -> (context: Vec<
    (String, String),
>)
    ensures
        pairs_view(context@) == drive_context(view_name@, *query, sort@, result_count as nat),
{
    let location = if chars_of(query.path.as_str()).len() == 0 {
        string_from(view_name)
    } else {
        string_from(query.path.as_str())
    };
    let mut sorted: Vec<char> = chars_of(sort);
    sorted.push(' ');
    let descending = crate::text::equals_str(chars_of(query.direction.as_str()).as_slice(), "desc");
    push_str(&mut sorted, if descending { "desc" } else { "asc" });
    let context = vec![
        pair("View", string_from(view_name)),
        pair("Location", location),
        pair("Results", count_text(result_count)),
        pair("Search", filter_value(query.q.as_str())),
        pair("Tag", filter_value(query.tag.as_str())),
        pair("Type", filter_value(query.type_filter.as_str())),
        pair("Size", filter_value(query.size_filter.as_str())),
        pair("Modified", filter_value(query.modified_filter.as_str())),
        pair("Owner", filter_value(query.owner_filter.as_str())),
        pair("Permission", filter_value(query.permission_filter.as_str())),
        pair("Owner person tag", filter_value(query.owner_identity_tag.as_str())),
        pair("Permission person tag", filter_value(query.permission_identity_tag.as_str())),
        pair("Include deleted", flag(query.include_deleted)),
        pair("Sort", string_of(sorted.as_slice())),
    ];
    proof {
        reveal_strlit(" ");
        let expected = drive_context(view_name@, *query, sort@, result_count as nat);
        assert(" "@ =~= seq![' ']);
        assert(context@.len() == 14);
        assert(pairs_view(context@)[13] == expected[13]);
        assert(pairs_view(context@)[1] == expected[1]);
    }
    assert(pairs_view(context@) =~= drive_context(view_name@, *query, sort@, result_count as nat));
    context
}

/// A text cell holding `t`.
pub open spec fn text_cell(c: Cell, t: Seq<char>) -> bool {
    c matches Cell::Text(s) && s@ == t
}

/// A link cell to `url` labelled `label`.
pub open spec fn link_cell(c: Cell, url: Seq<char>, label: Seq<char>) -> bool {
    c matches Cell::Link { url: u, label: l } && u@ == url && l@ == label
}

/// An optional text, empty when absent.
pub open spec fn text_or_empty(o: Option<String>) -> Seq<char> {
    match o {
        Some(s) => s@,
        None => Seq::empty(),
    }
}

/// Where Google Drive opens an item: folders by their folder page, files by
/// their id.
pub open spec fn drive_item_url(item: DriveExplorerItem) -> Seq<char> {
    if item.is_directory {
        "https://drive.google.com/drive/folders/"@ + item.item_id@
    } else {
        "https://drive.google.com/open?id="@ + item.item_id@
    }
}

/// The labels of the identities a permission list names, joined with commas.
pub open spec fn permission_labels(ps: Seq<PermissionIdentity>) -> Seq<char> {
    join(ps.map_values(|p: PermissionIdentity| p.label@), ", "@)
}

/// The names of the tags, joined with commas.
pub open spec fn tag_names(tags: Seq<Tag>) -> Seq<char> {
    join(tags.map_values(|t: Tag| t.name@), ", "@)
}

/// `Yes` or `No`.
pub open spec fn yes_no(b: bool) -> Seq<char> {
    if b {
        "Yes"@
    } else {
        "No"@
    }
}

/// The report's row for one listed item: name, kind, path, MIME type, size
/// in bytes and as text, modification time, owner, permissions, tags,
/// whether deleted, and a link to Google Drive.
pub open spec fn item_row_is(row: Seq<Cell>, item: DriveExplorerItem) -> bool {
    let size: u64 = match item.size_bytes {
        Some(s) => s,
        None => 0,
    };
    &&& row.len() == 12
    &&& text_cell(row[0], item.name@)
    &&& text_cell(
        row[1],
        if item.is_directory {
            "Folder"@
        } else {
            "File"@
        },
    )
    &&& text_cell(row[2], item.relative_path@)
    &&& text_cell(row[3], text_or_empty(item.mime_type))
    &&& row[4] == Cell::Number(size)
    &&& text_cell(row[5], size_text(size as nat))
    &&& text_cell(row[6], text_or_empty(item.modified_at))
    &&& text_cell(row[7], text_or_empty(item.owner_email))
    &&& text_cell(row[8], permission_labels(item.permissions@))
    &&& text_cell(row[9], tag_names(item.tags@))
    &&& text_cell(row[10], yes_no(item.is_deleted))
    &&& link_cell(row[11], drive_item_url(item), "Open in Google Drive"@)
}

fn text_or_empty_of(o: &Option<String>) -> (s: String)
    ensures
        s@ == text_or_empty(*o),
{
    match o {
        Some(s) => string_from(s.as_str()),
        None => String::new(),
    }
}

fn yes_no_of(b: bool) -> (s: String)
    ensures
        s@ == yes_no(b),
{
    if b {
        string_from("Yes")
    } else {
        string_from("No")
    }
}

fn permission_labels_of(ps: &Vec<PermissionIdentity>) -> (s: String)
    ensures
        s@ == permission_labels(ps@),
{
    let mut pieces: Vec<Vec<char>> = Vec::new();
    let mut i: usize = 0;
    while i < ps.len()
        invariant
            i <= ps@.len(),
            pieces@.len() == i,
            forall|k: int| 0 <= k < i ==> #[trigger] pieces@[k]@ == ps@[k].label@,
        decreases ps.len() - i,
    {
        pieces.push(chars_of(ps[i].label.as_str()));
        i = i + 1;
    }
    assert(pieces@.map_values(|p: Vec<char>| p@) =~= ps@.map_values(|p: PermissionIdentity| p.label@));
    string_of(join_chars(&pieces, ", ").as_slice())
}

fn tag_names_of(tags: &Vec<Tag>) -> (s: String)
    ensures
        s@ == tag_names(tags@),
{
    let mut pieces: Vec<Vec<char>> = Vec::new();
    let mut i: usize = 0;
    while i < tags.len()
        invariant
            i <= tags@.len(),
            pieces@.len() == i,
            forall|k: int| 0 <= k < i ==> #[trigger] pieces@[k]@ == tags@[k].name@,
        decreases tags.len() - i,
    {
        pieces.push(chars_of(tags[i].name.as_str()));
        i = i + 1;
    }
    assert(pieces@.map_values(|p: Vec<char>| p@) =~= tags@.map_values(|t: Tag| t.name@));
    string_of(join_chars(&pieces, ", ").as_slice())
}

/// The report's row for one listed item.
pub fn drive_item_row(item: &DriveExplorerItem) -> (row: Vec<Cell>)
    ensures
        item_row_is(row@, *item),
{
    let size: u64 = match item.size_bytes {
        Some(s) => s,
        None => 0,
    };
    let mut url = if item.is_directory {
        chars_of("https://drive.google.com/drive/folders/")
    } else {
        chars_of("https://drive.google.com/open?id=")
    };
    push_str(&mut url, item.item_id.as_str());
    let row = vec![
        Cell::Text(string_from(item.name.as_str())),
        Cell::Text(
            if item.is_directory {
                string_from("Folder")
            } else {
                string_from("File")
            },
        ),
        Cell::Text(string_from(item.relative_path.as_str())),
        Cell::Text(text_or_empty_of(&item.mime_type)),
        Cell::Number(size),
        Cell::Text(format_bytes(size)),
        Cell::Text(text_or_empty_of(&item.modified_at)),
        Cell::Text(text_or_empty_of(&item.owner_email)),
        Cell::Text(permission_labels_of(&item.permissions)),
        Cell::Text(tag_names_of(&item.tags)),
        Cell::Text(yes_no_of(item.is_deleted)),
        Cell::Link { url: string_of(url.as_slice()), label: string_from("Open in Google Drive") },
    ];
    row
}

/// The report's rows, one per item.
pub fn drive_item_rows(items: &Vec<DriveExplorerItem>) -> (rows: Vec<Vec<Cell>>)
    ensures
        rows@.len() == items@.len(),
        forall|k: int| 0 <= k < items@.len() ==> item_row_is(#[trigger] rows@[k]@, items@[k]),
{
    let mut rows: Vec<Vec<Cell>> = Vec::new();
    let mut i: usize = 0;
    while i < items.len()
        invariant
            i <= items@.len(),
            rows@.len() == i,
            forall|k: int| 0 <= k < i ==> item_row_is(#[trigger] rows@[k]@, items@[k]),
        decreases items.len() - i,
    {
        rows.push(drive_item_row(&items[i]));
        i = i + 1;
    }
    rows
}

/// The header of a drive listing's report.
pub open spec fn drive_report_headers() -> Seq<Seq<char>> {
    seq![
        "Name"@,
        "Type"@,
        "Path"@,
        "MIME type"@,
        "Size (bytes)"@,
        "Size"@,
        "Modified"@,
        "Owner"@,
        "Permissions"@,
        "Tags"@,
        "Deleted"@,
        "Google Drive"@,
    ]
}

/// The bytes are the workbook archive of these sheets.
pub open spec fn workbook_bytes(
    bytes: Seq<u8>,
    context: Seq<(String, String)>,
    headers: Seq<&str>,
    rows: Seq<Vec<Cell>>,
) -> bool {
    exists|context_sheet: Seq<char>, results_sheet: Seq<char>|
        workbook_sheets(context_sheet, results_sheet, context, headers, rows) && bytes == zip_archive(
            #[trigger] workbook_entries(context_sheet, results_sheet),
        )
}

fn workbook_report(
    context: &Vec<(String, String)>,
    headers: &[&str],
    rows: &Vec<Vec<Cell>>,
    filename: &'static str,
) -> (result: Result<Report, ReportError>)
    ensures
        result matches Ok(r) ==> r.filename == filename,
        result matches Ok(r) ==> workbook_bytes(r.bytes@, context@, headers@, rows@),
        result matches Err(e) ==> e is Internal,
{
    if context.len() > usize::MAX - 2 || rows.len() > usize::MAX - 2 {
        return Err(ReportError::Internal(string_from("The report is too large")));
    }
    match workbook(context.as_slice(), headers, rows.as_slice()) {
        Ok(bytes) => Ok(Report { bytes, filename }),
        Err(e) => Err(ReportError::Internal(e.message)),
    }
}

/// A filter the inventory refuses makes a drive listing's report fail as a
/// bad request.
pub open spec fn drive_filters_refused(query: DrivePathQuery) -> bool {
    !size_filter_ok(query.size_filter@) || !modified_filter_ok(query.modified_filter@)
}

/// The columns of an inventory listing's report.
pub open spec fn drive_headers() -> Seq<&'static str> {
    seq![
        "Name",
        "Type",
        "Path",
        "MIME type",
        "Size (bytes)",
        "Size",
        "Modified",
        "Owner",
        "Permissions",
        "Tags",
        "Deleted",
        "Google Drive",
    ]
}

/// The bytes are the report of a listing: its context sheet (the view, the
/// query, the sort and the count), and one row per listed item, in order.
pub open spec fn drive_report(
    bytes: Seq<u8>,
    items: Seq<DriveExplorerItem>,
    view_name: Seq<char>,
    query: DrivePathQuery,
) -> bool {
    exists|context: Seq<(String, String)>, rows: Seq<Vec<Cell>>|
        pairs_view(context) == drive_context(view_name, query, explorer_sort_key(query.sort@), items.len())
            && rows.len() == items.len() && (forall|k: int|
            0 <= k < items.len() ==> item_row_is(#[trigger] rows[k]@, items[k])) && #[trigger] workbook_bytes(
            bytes,
            context,
            drive_headers(),
            rows,
        )
}

/// A report of one inventory's listing as the explorer shows it (the folder,
/// filters and sort of `query`), named `filename`.  A listing the inventory
/// refuses is a bad request; a failed workbook an internal error.
pub fn export_drive_view(
    database: &mut Database,
    query: &DrivePathQuery,
    inventory_scope: &str,
    view_name: &str,
    filename: &'static str,
) -> (result: Result<Report, ReportError>)
    ensures
        drive_filters_refused(*query) ==> result matches Err(ReportError::BadRequest(_)),
        result matches Ok(r) ==> r.filename == filename,
        result matches Ok(r) ==> exists|items: Seq<DriveExplorerItem>|
            explorer_listing(items) && #[trigger] drive_report(r.bytes@, items, view_name@, *query),
        result matches Err(ReportError::NotFound) ==> false,
        result is Ok ==> crate::database::inventory::listing_sent(old(database).sent(), final(database).sent())
            && crate::database::inventory::drive_directory_sent(
            final(database).sent()[old(database).sent().len() as int],
            inventory_scope@,
            if query.path@.len() == 0 {
                None
            } else {
                Some(query.path@)
            },
            query.q@,
            query.tag@,
            query.type_filter@,
            query.size_filter@,
            query.modified_filter@,
            crate::text::trim(
                if query.owner_filter@.len() > 0 && query.owner_filter@[0] == '!' {
                    query.owner_filter@.drop_first()
                } else {
                    query.owner_filter@
                },
            ),
            query.owner_filter@.len() > 0 && query.owner_filter@[0] == '!',
            query.permission_filter@,
            query.owner_identity_tag@,
            query.permission_identity_tag@,
            query.include_deleted,
            crate::explorer::explorer_sort_key(query.sort@),
            query.direction@ == "desc"@,
        ),
{
    let request = explorer_request(query);
    let parent = match &request.parent {
        Some(p) => Some(p.as_str()),
        None => None,
    };
    let descending = crate::text::equals_str(chars_of(query.direction.as_str()).as_slice(), "desc");
    let items = match list_drive_directory(
        database,
        inventory_scope,
        parent,
        query.q.as_str(),
        query.tag.as_str(),
        query.type_filter.as_str(),
        query.size_filter.as_str(),
        query.modified_filter.as_str(),
        request.owner_filter.as_str(),
        request.exclude_owner,
        query.permission_filter.as_str(),
        query.owner_identity_tag.as_str(),
        query.permission_identity_tag.as_str(),
        query.include_deleted,
        request.sort,
        descending,
    ) {
        Ok(items) => items,
        Err(e) => return Err(ReportError::BadRequest(e.message())),
    };
    let context = drive_export_context(view_name, query, request.sort, items.len());
    let rows = drive_item_rows(&items);
    let headers = [
        "Name",
        "Type",
        "Path",
        "MIME type",
        "Size (bytes)",
        "Size",
        "Modified",
        "Owner",
        "Permissions",
        "Tags",
        "Deleted",
        "Google Drive",
    ];
    assert(headers@ =~= drive_headers());
    let ghost listed = items@;
    let result = workbook_report(&context, &headers, &rows, filename);
    if let Ok(r) = &result {
        assert(workbook_bytes(r.bytes@, context@, drive_headers(), rows@));
        assert(drive_report(r.bytes@, listed, view_name@, *query));
    }
    result
}

/// The report of the My Drive explorer.
pub fn export_my_drive(database: &mut Database, query: &DrivePathQuery) -> (result: Result<Report, ReportError>)
    ensures
        drive_filters_refused(*query) ==> result matches Err(ReportError::BadRequest(_)),
        result matches Ok(r) ==> r.filename@ == "boreal-my-drive-report.xlsx"@,
        result matches Ok(r) ==> exists|items: Seq<DriveExplorerItem>|
            explorer_listing(items) && #[trigger] drive_report(r.bytes@, items, "My Drive"@, *query),
{
    export_drive_view(database, query, MY_DRIVE_SCOPE, "My Drive", "boreal-my-drive-report.xlsx")
}

/// The report of the Shared with me explorer.
pub fn export_shared_with_me(database: &mut Database, query: &DrivePathQuery) -> (result: Result<Report, ReportError>)
    ensures
        drive_filters_refused(*query) ==> result matches Err(ReportError::BadRequest(_)),
        result matches Ok(r) ==> r.filename@ == "boreal-shared-with-me-report.xlsx"@,
        result matches Ok(r) ==> exists|items: Seq<DriveExplorerItem>|
            explorer_listing(items) && #[trigger] drive_report(r.bytes@, items, "Shared with me"@, *query),
{
    export_drive_view(database, query, SHARED_WITH_ME_SCOPE, "Shared with me", "boreal-shared-with-me-report.xlsx")
}

/// The context sheet of the Shared Drives report.
pub open spec fn shared_drives_context(query: DrivePathQuery, result_count: nat) -> Seq<(Seq<char>, Seq<char>)> {
    seq![
        ("View"@, "Shared Drives"@),
        ("Results"@, decimal(result_count)),
        ("Search"@, filter_shown(query.q@)),
        ("Tag"@, filter_shown(query.tag@)),
        ("Files"@, filter_shown(query.files_filter@)),
        ("Folders"@, filter_shown(query.folders_filter@)),
        ("Total size"@, filter_shown(query.size_filter@)),
        ("Modified"@, filter_shown(query.modified_filter@)),
        ("Manager"@, filter_shown(query.shared_drive_manager_filter@)),
        ("Permission"@, filter_shown(query.shared_drive_permission_filter@)),
        ("Show inaccessible"@, flag_text(query.show_inaccessible)),
        ("Sort"@, shared_drive_sort_key(query.sort@) + " "@ + query.direction@),
    ]
}

/// The context sheet of the Shared Drives report: how many drives, each
/// filter (`Any` when blank), whether unreachable drives are shown, and the
/// sort.
pub fn shared_drives_export_context(query: &DrivePathQuery, result_count: usize) -> (context: Vec<(String, String)>)
    ensures
        pairs_view(context@) == shared_drives_context(*query, result_count as nat),
{
    let mut sorted: Vec<char> = chars_of(shared_drive_sort(query));
    sorted.push(' ');
    push_str(&mut sorted, query.direction.as_str());
    let context = vec![
        pair("View", string_from("Shared Drives")),
        pair("Results", count_text(result_count)),
        pair("Search", filter_value(query.q.as_str())),
        pair("Tag", filter_value(query.tag.as_str())),
        pair("Files", filter_value(query.files_filter.as_str())),
        pair("Folders", filter_value(query.folders_filter.as_str())),
        pair("Total size", filter_value(query.size_filter.as_str())),
        pair("Modified", filter_value(query.modified_filter.as_str())),
        pair("Manager", filter_value(query.shared_drive_manager_filter.as_str())),
        pair("Permission", filter_value(query.shared_drive_permission_filter.as_str())),
        pair("Show inaccessible", flag(query.show_inaccessible)),
        pair("Sort", string_of(sorted.as_slice())),
    ];
    proof {
        reveal_strlit(" ");
        let expected = shared_drives_context(*query, result_count as nat);
        assert(" "@ =~= seq![' ']);
        assert(context@.len() == 12);
        assert(pairs_view(context@)[11] == expected[11]);
    }
    assert(pairs_view(context@) =~= shared_drives_context(*query, result_count as nat));
    context
}

/// The labels of some identities, joined with commas.
pub open spec fn identity_labels(ids: Seq<SharedDrivePermissionIdentity>) -> Seq<char> {
    join(ids.map_values(|i: SharedDrivePermissionIdentity| i.label@), ", "@)
}

/// The report's row for one Shared Drive: name, id, whether reachable, the
/// files, folders and bytes scanned, the size as text, modification time,
/// permission references, managers, every identity, tags, and a link.
pub open spec fn shared_drive_row_is(row: Seq<Cell>, d: SharedDriveRow) -> bool {
    &&& row.len() == 13
    &&& text_cell(row[0], d.name@)
    &&& text_cell(row[1], d.drive_id@)
    &&& text_cell(row[2], yes_no(d.is_accessible))
    &&& row[3] == Cell::Number(d.files_scanned)
    &&& row[4] == Cell::Number(d.folders_scanned)
    &&& row[5] == Cell::Number(d.bytes_discovered)
    &&& text_cell(row[6], size_text(d.bytes_discovered as nat))
    &&& text_cell(row[7], d.modified_at@)
    &&& row[8] == Cell::Number(d.permissions_scanned)
    &&& text_cell(row[9], identity_labels(managers_of(d.permission_identities@)))
    &&& text_cell(row[10], identity_labels(d.permission_identities@))
    &&& text_cell(row[11], tag_names(d.tags@))
    &&& link_cell(row[12], "https://drive.google.com/drive/folders/"@ + d.drive_id@, "Open in Google Drive"@)
}

fn identity_labels_of(ids: &Vec<SharedDrivePermissionIdentity>, managers_only: bool) -> (s: String)
    ensures
        s@ == identity_labels(
            if managers_only {
                managers_of(ids@)
            } else {
                ids@
            },
        ),
{
    let ghost label = |i: SharedDrivePermissionIdentity| i.label@;
    let mut pieces: Vec<Vec<char>> = Vec::new();
    let mut i: usize = 0;
    while i < ids.len()
        invariant
            i <= ids@.len(),
            label == (|i: SharedDrivePermissionIdentity| i.label@),
            pieces@.map_values(|p: Vec<char>| p@) == (if managers_only {
                managers_of(ids@.subrange(0, i as int))
            } else {
                ids@.subrange(0, i as int)
            }).map_values(label),
        decreases ids.len() - i,
    {
        let ghost chosen = if managers_only {
            managers_of(ids@.subrange(0, i as int))
        } else {
            ids@.subrange(0, i as int)
        };
        let ghost before = pieces@;
        assert(ids@.subrange(0, i + 1).drop_last() =~= ids@.subrange(0, i as int));
        assert(ids@.subrange(0, i + 1).last() == ids@[i as int]);
        if !managers_only || is_manager(&ids[i]) {
            pieces.push(chars_of(ids[i].label.as_str()));
            assert(pieces@.map_values(|p: Vec<char>| p@) =~= before.map_values(|p: Vec<char>| p@).push(
                ids@[i as int].label@,
            ));
            assert(chosen.push(ids@[i as int]).map_values(label) =~= chosen.map_values(label).push(
                ids@[i as int].label@,
            ));
        }
        i = i + 1;
    }
    assert(ids@.subrange(0, ids@.len() as int) =~= ids@);
    string_of(join_chars(&pieces, ", ").as_slice())
}

/// The report's row for one Shared Drive.
pub fn shared_drive_row(d: &SharedDriveRow) -> (row: Vec<Cell>)
    ensures
        shared_drive_row_is(row@, *d),
{
    let mut url = chars_of("https://drive.google.com/drive/folders/");
    push_str(&mut url, d.drive_id.as_str());
    let row = vec![
        Cell::Text(string_from(d.name.as_str())),
        Cell::Text(string_from(d.drive_id.as_str())),
        Cell::Text(yes_no_of(d.is_accessible)),
        Cell::Number(d.files_scanned),
        Cell::Number(d.folders_scanned),
        Cell::Number(d.bytes_discovered),
        Cell::Text(format_bytes(d.bytes_discovered)),
        Cell::Text(string_from(d.modified_at.as_str())),
        Cell::Number(d.permissions_scanned),
        Cell::Text(identity_labels_of(&d.permission_identities, true)),
        Cell::Text(identity_labels_of(&d.permission_identities, false)),
        Cell::Text(tag_names_of(&d.tags)),
        Cell::Link { url: string_of(url.as_slice()), label: string_from("Open in Google Drive") },
    ];
    row
}

/// The rows show the drives of `all` that the listing shows, in its order.
pub open spec fn shared_drive_rows_show(rows: Seq<Vec<Cell>>, all: Seq<SharedDriveRow>, query: DrivePathQuery) -> bool {
    exists|sorted: Seq<SharedDriveRow>|
        #[trigger] sorted_from(
            sorted,
            visible_drives(all, query.show_inaccessible),
            shared_drive_sort_key(query.sort@),
            is_descending(query.direction@),
        ) && rows.len() == sorted.len() && forall|k: int|
            0 <= k < sorted.len() ==> shared_drive_row_is(#[trigger] rows[k]@, sorted[k])
}

/// The two sheets of the Shared Drives report on `all`: the context, and
/// one row per drive the listing shows, sorted as it is.
pub fn shared_drives_sheets(all: Vec<SharedDriveRow>, query: &DrivePathQuery) -> (sheets: (
    Vec<(String, String)>,
    Vec<Vec<Cell>>,
))
    ensures
        pairs_view(sheets.0@) == shared_drives_context(
            *query,
            visible_drives(all@, query.show_inaccessible).len(),
        ),
        shared_drive_rows_show(sheets.1@, all@, *query),
{
    let ghost shown = visible_drives(all@, query.show_inaccessible);
    let mut drives = visible(all, query.show_inaccessible);
    sort_shared_drives(&mut drives, query);
    let context = shared_drives_export_context(query, drives.len());
    let mut rows: Vec<Vec<Cell>> = Vec::new();
    let mut k: usize = 0;
    while k < drives.len()
        invariant
            k <= drives@.len(),
            rows@.len() == k,
            forall|m: int| 0 <= m < k ==> shared_drive_row_is(#[trigger] rows@[m]@, drives@[m]),
        decreases drives.len() - k,
    {
        rows.push(shared_drive_row(&drives[k]));
        k = k + 1;
    }
    assert(sorted_from(drives@, shown, shared_drive_sort_key(query.sort@), is_descending(query.direction@)));
    (context, rows)
}

/// The Shared Drives filters the inventory refuses.
pub open spec fn shared_drive_filters_refused(query: DrivePathQuery) -> bool {
    !(count_filter_ok(query.files_filter@) && count_filter_ok(query.folders_filter@) && size_filter_ok(
        query.size_filter@,
    ) && modified_filter_ok(query.modified_filter@))
}

/// The columns of the Shared Drives report.
pub open spec fn shared_drives_headers() -> Seq<&'static str> {
    seq![
        "Name",
        "Drive ID",
        "Accessible",
        "Files",
        "Folders",
        "Total size (bytes)",
        "Total size",
        "Modified",
        "Permission references",
        "Managers",
        "Permissions",
        "Tags",
        "Google Drive",
    ]
}

/// The bytes are the Shared Drives report of the drives `all`: its context
/// sheet and one row per drive the listing shows, in its order.
pub open spec fn shared_drives_report(bytes: Seq<u8>, all: Seq<SharedDriveRow>, query: DrivePathQuery) -> bool {
    exists|context: Seq<(String, String)>, rows: Seq<Vec<Cell>>|
        pairs_view(context) == shared_drives_context(query, visible_drives(all, query.show_inaccessible).len())
            && shared_drive_rows_show(rows, all, query) && #[trigger] workbook_bytes(
            bytes,
            context,
            shared_drives_headers(),
            rows,
        )
}

/// The Shared Drives report.  With a drive chosen, the report of that
/// drive's listing as its explorer shows it (an unknown drive is not
/// found); otherwise one row per drive the listing shows, sorted as it is.
pub fn export_shared_drives(database: &mut Database, query: &DrivePathQuery) -> (result: Result<Report, ReportError>)
    ensures
        query.drive@.len() == 0 && shared_drive_filters_refused(*query) ==> result matches Err(
            ReportError::BadRequest(_),
        ),
        query.drive@.len() > 0 && drive_filters_refused(*query) ==> result is Err,
        result matches Ok(r) ==> r.filename@ == (if query.drive@.len() == 0 {
            "boreal-shared-drives-report.xlsx"@
        } else {
            "boreal-shared-drive-content-report.xlsx"@
        }),
        query.drive@.len() == 0 ==> (result matches Ok(r) ==> exists|all: Seq<SharedDriveRow>|
            shared_drive_listing(all) && #[trigger] shared_drives_report(r.bytes@, all, *query)),
        query.drive@.len() == 0 && result is Ok ==> crate::database::inventory::listing_sent(
            old(database).sent(),
            final(database).sent(),
        ) && final(database).sent()[old(database).sent().len() as int].0
            == crate::database::inventory::SHARED_DRIVES_QUERY@
            && crate::database::inventory::shared_drives_request_params(
            final(database).sent()[old(database).sent().len() as int].1,
            query.q@,
            query.tag@,
            query.files_filter@,
            query.folders_filter@,
            query.size_filter@,
            query.modified_filter@,
            query.shared_drive_manager_filter@,
            query.shared_drive_permission_filter@,
        ),
{
    if chars_of(query.drive.as_str()).len() > 0 {
        let drive = match get_shared_drive(database, query.drive.as_str()) {
            Ok(Some(d)) => d,
            Ok(None) => return Err(ReportError::NotFound),
            Err(e) => return Err(ReportError::Internal(e.message())),
        };
        let mut view = chars_of("Shared Drive: ");
        push_str(&mut view, drive.name.as_str());
        let view_name = string_of(view.as_slice());
        return export_drive_view(
            database,
            query,
            drive.inventory_scope.as_str(),
            view_name.as_str(),
            "boreal-shared-drive-content-report.xlsx",
        );
    }
    let all = match list_shared_drives_filtered(
        database,
        query.q.as_str(),
        query.tag.as_str(),
        query.files_filter.as_str(),
        query.folders_filter.as_str(),
        query.size_filter.as_str(),
        query.modified_filter.as_str(),
        query.shared_drive_manager_filter.as_str(),
        query.shared_drive_permission_filter.as_str(),
    ) {
        Ok(drives) => drives,
        Err(e) => return Err(ReportError::BadRequest(e.message())),
    };
    let (context, rows) = shared_drives_sheets(all, query);
    let headers = [
        "Name",
        "Drive ID",
        "Accessible",
        "Files",
        "Folders",
        "Total size (bytes)",
        "Total size",
        "Modified",
        "Permission references",
        "Managers",
        "Permissions",
        "Tags",
        "Google Drive",
    ];
    assert(headers@ =~= shared_drives_headers());
    let ghost drives = all@;
    let result = workbook_report(&context, &headers, &rows, "boreal-shared-drives-report.xlsx");
    if let Ok(r) = &result {
        assert(workbook_bytes(r.bytes@, context@, shared_drives_headers(), rows@));
        assert(shared_drives_report(r.bytes@, drives, *query));
    }
    result
}

} // verus!
