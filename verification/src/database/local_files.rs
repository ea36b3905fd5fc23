//! Local files as last scanned.
use vstd::prelude::*;

use crate::database::inventory::{
    Tag,
    tags_from_packed,
};
use crate::database::sql::SqlParam;
use crate::database::{
    Database,
    DatabaseError,
    Rejection,
    integer_or_zero,
    query_rows,
    run,
    run_batch,
    text_or_empty,
};
use crate::format::{
    format_bytes,
    size_text,
};
use crate::text::{
    char_is_ascii_digit,
    chars_of,
    equals_str,
    is_ascii_digit,
    push_chars,
    push_str,
    string_from,
    string_of,
    trim,
    trim_str,
    upper_seq,
};

verus! {

#[derive(Debug, Clone, Default)]
pub struct Summary {
    pub files: u64,
    pub folders: u64,
    pub bytes: u64,
    pub size_label: String,
    pub duplicate_groups: u64,
    pub duplicate_bytes: u64,
    pub duplicate_size_label: String,
    pub completed_at: String,
}

/// A cached checksum: the file's root and relative path, and the size,
/// modification time and SHA-256 it had when hashed.
#[derive(Debug, Clone)]
pub struct CachedChecksum {
    pub root_path: String,
    pub relative_path: String,
    pub size_bytes: u64,
    pub modified_unix: i64,
    pub checksum_sha256: String,
}

/// Every stored checksum, so a scan can skip hashing unchanged files.
pub fn checksum_cache(db: &Database) -> (result: Result<Vec<CachedChecksum>, DatabaseError>)
    ensures
        result matches Err(e) ==> e is Storage,
{
    let c = db.connect()?;
    let none: Vec<SqlParam> = Vec::new();
    let (columns, rows) = query_rows(
        &c,
        "SELECT root_path,relative_path,size_bytes,modified_unix,checksum_sha256 FROM local_file_items WHERE checksum_sha256<>''",
        none.as_slice(),
    )?;
    let mut out: Vec<CachedChecksum> = Vec::new();
    if columns < 5 {
        return Ok(out);
    }
    let mut i: usize = 0;
    while i < rows.len()
        invariant
            i <= rows@.len(),
            columns >= 5,
            forall|k: int| 0 <= k < rows@.len() ==> #[trigger] rows@[k].len() == columns,
        decreases rows@.len() - i,
    {
        let r = &rows[i];
        out.push(
            CachedChecksum {
                root_path: text_or_empty(r, 0),
                relative_path: text_or_empty(r, 1),
                size_bytes: integer_or_zero(r, 2) as u64,
                modified_unix: integer_or_zero(r, 3),
                checksum_sha256: text_or_empty(r, 4),
            },
        );
        i = i + 1;
    }
    Ok(out)
}

/// Files, folders and bytes of the accessible local inventory, the groups
/// of identical files and the bytes their extra copies take.
pub fn summary(db: &Database) -> (result: Result<Summary, DatabaseError>)
    ensures
        result matches Err(e) ==> e is Storage,
        result matches Ok(s) ==> s.size_label@ == size_text(s.bytes as nat)
            && s.duplicate_size_label@ == size_text(s.duplicate_bytes as nat),
{
    let c = db.connect()?;
    let none: Vec<SqlParam> = Vec::new();
    let (columns, rows) = query_rows(
        &c,
        "SELECT COALESCE(SUM(CASE WHEN is_directory=0 THEN 1 ELSE 0 END),0),COALESCE(SUM(CASE WHEN is_directory=1 THEN 1 ELSE 0 END),0),COALESCE(SUM(CASE WHEN is_directory=0 THEN size_bytes ELSE 0 END),0),(SELECT COUNT(*) FROM (SELECT checksum_sha256 FROM local_file_items WHERE is_accessible=1 AND checksum_sha256<>'' GROUP BY checksum_sha256 HAVING COUNT(*)>1)),(SELECT COALESCE(SUM((copies-1)*size_bytes),0) FROM (SELECT size_bytes,COUNT(*) copies FROM local_file_items WHERE is_accessible=1 AND checksum_sha256<>'' GROUP BY checksum_sha256,size_bytes HAVING COUNT(*)>1)),COALESCE((SELECT value FROM settings WHERE key='local_files.last_sync_at'),'') FROM local_file_items WHERE is_accessible=1",
        none.as_slice(),
    )?;
    let (files, folders, bytes, groups, duplicate_bytes, completed_at) = if rows.len() > 0 && columns >= 6 {
        let r = &rows[0];
        (
            integer_or_zero(r, 0) as u64,
            integer_or_zero(r, 1) as u64,
            integer_or_zero(r, 2) as u64,
            integer_or_zero(r, 3) as u64,
            integer_or_zero(r, 4) as u64,
            text_or_empty(r, 5),
        )
    } else {
        (0, 0, 0, 0, 0, String::new())
    };
    Ok(
        Summary {
            files,
            folders,
            bytes,
            size_label: format_bytes(bytes),
            duplicate_groups: groups,
            duplicate_bytes,
            duplicate_size_label: format_bytes(duplicate_bytes),
            completed_at,
        },
    )
}

/// One scanned file or folder, as stored.
#[derive(Debug, Clone)]
pub struct StoredItem {
    pub root_path: String,
    pub relative_path: String,
    pub name: String,
    pub extension: String,
    pub is_directory: bool,
    pub size_bytes: u64,
    pub modified_unix: i64,
    pub checksum_sha256: String,
    pub owner_username: String,
    pub owner_identifier: String,
    pub group_name: String,
    pub group_identifier: String,
    pub is_symlink: bool,
    pub symlink_target: String,
}

/// Replaces the stored scan: scanned items are accessible, others are not,
/// and each folder's size becomes the bytes of the files under it.
pub fn synchronize(db: &Database, items: &[StoredItem]) -> (result: Result<(), DatabaseError>)
    ensures
        result matches Err(e) ==> e is Storage,
{
    let c = db.connect()?;
    run_batch(&c, "BEGIN")?;
    let none: Vec<SqlParam> = Vec::new();
    run(&c, "UPDATE local_file_items SET is_accessible=0", none.as_slice())?;
    let mut k: usize = 0;
    while k < items.len()
        invariant
            k <= items@.len(),
        decreases items@.len() - k,
    {
        let i = &items[k];
        run(
            &c,
            "INSERT INTO local_file_items(root_path,relative_path,name,extension,is_directory,size_bytes,modified_unix,checksum_sha256,owner_username,owner_identifier,group_name,group_identifier,is_symlink,symlink_target,is_accessible,last_seen_at) VALUES(?1,?2,?3,?4,?5,?6,?7,?8,?9,?10,?11,?12,?13,?14,1,CURRENT_TIMESTAMP) ON CONFLICT(root_path,relative_path) DO UPDATE SET name=excluded.name,extension=excluded.extension,is_directory=excluded.is_directory,size_bytes=excluded.size_bytes,modified_unix=excluded.modified_unix,checksum_sha256=excluded.checksum_sha256,owner_username=excluded.owner_username,owner_identifier=excluded.owner_identifier,group_name=excluded.group_name,group_identifier=excluded.group_identifier,is_symlink=excluded.is_symlink,symlink_target=excluded.symlink_target,is_accessible=1,last_seen_at=CURRENT_TIMESTAMP",
            vec![
                SqlParam::Text(i.root_path.clone()),
                SqlParam::Text(i.relative_path.clone()),
                SqlParam::Text(i.name.clone()),
                SqlParam::Text(i.extension.clone()),
                SqlParam::Integer(if i.is_directory { 1 } else { 0 }),
                SqlParam::Integer(i.size_bytes as i64),
                SqlParam::Integer(i.modified_unix),
                SqlParam::Text(i.checksum_sha256.clone()),
                SqlParam::Text(i.owner_username.clone()),
                SqlParam::Text(i.owner_identifier.clone()),
                SqlParam::Text(i.group_name.clone()),
                SqlParam::Text(i.group_identifier.clone()),
                SqlParam::Integer(if i.is_symlink { 1 } else { 0 }),
                SqlParam::Text(i.symlink_target.clone()),
            ].as_slice(),
        )?;
        k = k + 1;
    }
    run(
        &c,
        "UPDATE local_file_items AS folder
         SET size_bytes = COALESCE((
             SELECT SUM(file.size_bytes) FROM local_file_items AS file
             WHERE file.is_accessible = 1 AND file.is_directory = 0
               AND file.root_path = folder.root_path
               AND substr(file.relative_path, 1, length(folder.relative_path) + 1)
                   = folder.relative_path || '/'
         ), 0)
         WHERE folder.is_accessible = 1 AND folder.is_directory = 1",
        none.as_slice(),
    )?;
    run(
        &c,
        "INSERT INTO settings(key,value,updated_at) VALUES('local_files.last_sync_at',CURRENT_TIMESTAMP,CURRENT_TIMESTAMP) ON CONFLICT(key) DO UPDATE SET value=CURRENT_TIMESTAMP,updated_at=CURRENT_TIMESTAMP",
        none.as_slice(),
    )?;
    run_batch(&c, "COMMIT")?;
    Ok(())
}

/// How an item's kind reads: `Folder`, `File`, or its extension in upper
/// case, with ` symlink` after it for links.
pub open spec fn type_label(is_directory: bool, is_symlink: bool, extension: Seq<char>) -> Seq<char> {
    let base = if is_directory {
        seq!['F', 'o', 'l', 'd', 'e', 'r']
    } else if extension.len() == 0 {
        seq!['F', 'i', 'l', 'e']
    } else {
        upper_seq(extension)
    };
    if is_symlink {
        base + seq![' ', 's', 'y', 'm', 'l', 'i', 'n', 'k']
    } else {
        base
    }
}

pub fn item_type_label(is_directory: bool, is_symlink: bool, extension: &str) -> (result: String)
    ensures
        result@ == type_label(is_directory, is_symlink, extension@),
{
    let ext = chars_of(extension);
    let mut base: Vec<char> = if is_directory {
        chars_of("Folder")
    } else if ext.len() == 0 {
        chars_of("File")
    } else {
        crate::text::to_ascii_upper(ext.as_slice())
    };
    proof {
        reveal_strlit("Folder");
        reveal_strlit("File");
        reveal_strlit(" symlink");
    }
    if is_symlink {
        push_str(&mut base, " symlink");
    }
    assert(base@ =~= type_label(is_directory, is_symlink, extension@));
    string_of(base.as_slice())
}

/// Whether `e` is one of `names`.
pub open spec fn one_of(e: Seq<char>, names: Seq<&str>) -> bool {
    exists|k: int| 0 <= k < names.len() && #[trigger] names[k]@ == e
}

/// The Bootstrap icon class for a lower-case file extension.
pub open spec fn icon_class(e: Seq<char>) -> Seq<char> {
    if e == "pdf"@ {
        "bi-file-earmark-pdf text-danger"@
    } else if one_of(e, seq!["png", "jpg", "jpeg", "gif", "webp", "svg", "tif", "tiff", "bmp"]) {
        "bi-file-earmark-image text-success"@
    } else if one_of(e, seq!["mp3", "wav", "flac", "m4a", "ogg"]) {
        "bi-file-earmark-music text-primary"@
    } else if one_of(e, seq!["mp4", "mov", "mkv", "avi", "webm"]) {
        "bi-file-earmark-play text-primary"@
    } else if one_of(e, seq!["zip", "tar", "gz", "bz2", "xz", "7z", "rar"]) {
        "bi-file-earmark-zip text-warning"@
    } else if one_of(e, seq!["xls", "xlsx", "ods", "csv"]) {
        "bi-file-earmark-excel text-success"@
    } else if one_of(e, seq!["doc", "docx", "odt", "rtf"]) {
        "bi-file-earmark-word text-primary"@
    } else if one_of(e, seq!["ppt", "pptx", "odp"]) {
        "bi-file-earmark-slides text-danger"@
    } else if one_of(
        e,
        seq!["rs", "py", "js", "ts", "html", "css", "json", "toml", "yaml", "yml", "xml", "sh"],
    ) {
        "bi-file-earmark-code text-primary"@
    } else if one_of(e, seq!["txt", "md", "log"]) {
        "bi-file-earmark-text"@
    } else {
        "bi-file-earmark"@
    }
}

fn is_one_of(e: &[char], names: &[&str]) -> (result: bool)
    ensures
        result == one_of(e@, names@),
{
    let mut i: usize = 0;
    while i < names.len()
        invariant
            i <= names@.len(),
            forall|k: int| 0 <= k < i ==> #[trigger] names@[k]@ != e@,
        decreases names@.len() - i,
    {
        if equals_str(e, names[i]) {
            return true;
        }
        i = i + 1;
    }
    false
}

/// The Bootstrap icon class for a file extension (any case).
pub fn file_icon_class(extension: &str) -> (result: &'static str)
    ensures
        result@ == icon_class(crate::text::lower_seq(extension@)),
{
    let lower = crate::text::to_ascii_lower(chars_of(extension).as_slice());
    let e = lower.as_slice();
    let image = ["png", "jpg", "jpeg", "gif", "webp", "svg", "tif", "tiff", "bmp"];
    let music = ["mp3", "wav", "flac", "m4a", "ogg"];
    let video = ["mp4", "mov", "mkv", "avi", "webm"];
    let archive = ["zip", "tar", "gz", "bz2", "xz", "7z", "rar"];
    let sheet = ["xls", "xlsx", "ods", "csv"];
    let document = ["doc", "docx", "odt", "rtf"];
    let slides = ["ppt", "pptx", "odp"];
    let code = ["rs", "py", "js", "ts", "html", "css", "json", "toml", "yaml", "yml", "xml", "sh"];
    let text = ["txt", "md", "log"];
    assert(image@ =~= seq!["png", "jpg", "jpeg", "gif", "webp", "svg", "tif", "tiff", "bmp"]);
    assert(music@ =~= seq!["mp3", "wav", "flac", "m4a", "ogg"]);
    assert(video@ =~= seq!["mp4", "mov", "mkv", "avi", "webm"]);
    assert(archive@ =~= seq!["zip", "tar", "gz", "bz2", "xz", "7z", "rar"]);
    assert(sheet@ =~= seq!["xls", "xlsx", "ods", "csv"]);
    assert(document@ =~= seq!["doc", "docx", "odt", "rtf"]);
    assert(slides@ =~= seq!["ppt", "pptx", "odp"]);
    assert(code@ =~= seq!["rs", "py", "js", "ts", "html", "css", "json", "toml", "yaml", "yml", "xml", "sh"]);
    assert(text@ =~= seq!["txt", "md", "log"]);
    if equals_str(e, "pdf") {
        "bi-file-earmark-pdf text-danger"
    } else if is_one_of(e, &image) {
        "bi-file-earmark-image text-success"
    } else if is_one_of(e, &music) {
        "bi-file-earmark-music text-primary"
    } else if is_one_of(e, &video) {
        "bi-file-earmark-play text-primary"
    } else if is_one_of(e, &archive) {
        "bi-file-earmark-zip text-warning"
    } else if is_one_of(e, &sheet) {
        "bi-file-earmark-excel text-success"
    } else if is_one_of(e, &document) {
        "bi-file-earmark-word text-primary"
    } else if is_one_of(e, &slides) {
        "bi-file-earmark-slides text-danger"
    } else if is_one_of(e, &code) {
        "bi-file-earmark-code text-primary"
    } else if is_one_of(e, &text) {
        "bi-file-earmark-text"
    } else {
        "bi-file-earmark"
    }
}

/// A `YYYY-MM-DD` date or a `YYYY-MM-DDTHH:MM:SS` time (`T` or a space).
pub open spec fn time_text(v: Seq<char>) -> bool {
    crate::database::directory::date_text(v) || (v.len() == 19 && v[4] == '-' && v[7] == '-' && (
    v[10] == 'T' || v[10] == ' ') && v[13] == ':' && v[16] == ':' && forall|i: int|
        0 <= i < 19 && i != 4 && i != 7 && i != 10 && i != 13 && i != 16 ==> is_ascii_digit(
            #[trigger] v[i],
        ))
}

fn digits_except(v: &[char], skip: &[usize]) -> (result: bool)
    ensures
        result == forall|i: int|
            0 <= i < v@.len() && !skip@.contains(i as usize) ==> is_ascii_digit(#[trigger] v@[i]),
{
    let mut i: usize = 0;
    while i < v.len()
        invariant
            i <= v@.len(),
            forall|q: int| 0 <= q < i && !skip@.contains(q as usize) ==> is_ascii_digit(#[trigger] v@[q]),
        decreases v@.len() - i,
    {
        let mut skipped = false;
        let mut k: usize = 0;
        while k < skip.len()
            invariant
                k <= skip@.len(),
                skipped == exists|q: int| 0 <= q < k && skip@[q] == i,
            decreases skip@.len() - k,
        {
            if skip[k] == i {
                skipped = true;
            }
            k = k + 1;
        }
        if !skipped && !char_is_ascii_digit(v[i]) {
            assert(!skip@.contains(i));
            assert(!is_ascii_digit(v@[i as int]));
            return false;
        }
        i = i + 1;
    }
    true
}

/// A modified-time filter of the local explorer, such as `>2026-01-01` or
/// `<=2026-01-01T12:00:00`.
pub fn parse_modified_filter(filter: &str) -> (result: Result<(i64, String), Rejection>)
    ensures
        trim(filter@).len() == 0 ==> (result matches Ok((c, v)) && c == 0 && v@.len() == 0),
        trim(filter@).len() > 0 ==> if time_text(crate::database::inventory::comparison_parts(trim(filter@)).1) {
            result matches Ok((c, v)) && c == crate::database::inventory::comparison_parts(trim(filter@)).0 && v@
                == crate::database::inventory::comparison_parts(trim(filter@)).1
        } else {
            result is Err
        },
{
    let f = trim_str(filter);
    if f.len() == 0 {
        return Ok((0, String::new()));
    }
    let (code, value) = crate::database::inventory::comparison_prefix(f.as_slice());
    let v = value.as_slice();
    let date = v.len() == 10 && v[4] == '-' && v[7] == '-' && digits_except(v, &[4, 7]);
    let timestamp = v.len() == 19 && v[4] == '-' && v[7] == '-' && (v[10] == 'T' || v[10] == ' ')
        && v[13] == ':' && v[16] == ':' && digits_except(v, &[4, 7, 10, 13, 16]);
    proof {
        let s4 = seq![4usize, 7usize];
        let s5 = seq![4usize, 7usize, 10usize, 13usize, 16usize];
        assert forall|i: int| 0 <= i < 10 implies (!#[trigger] s4.contains(i as usize) <==> (i != 4 && i != 7)) by {
            if i == 4 { assert(s4[0] == 4usize); }
            if i == 7 { assert(s4[1] == 7usize); }
        }
        assert forall|i: int| 0 <= i < 19 implies (!#[trigger] s5.contains(i as usize) <==> (i != 4 && i != 7 && i != 10 && i != 13 && i != 16)) by {
            if i == 4 { assert(s5[0] == 4usize); }
            if i == 7 { assert(s5[1] == 7usize); }
            if i == 10 { assert(s5[2] == 10usize); }
            if i == 13 { assert(s5[3] == 13usize); }
            if i == 16 { assert(s5[4] == 16usize); }
        }
    }
    if !date && !timestamp {
        let mut m: Vec<char> = Vec::new();
        push_str(&mut m, "Invalid modified-time filter '");
        push_chars(&mut m, f.as_slice());
        push_str(&mut m, "'. Try >2026-01-01 or <=2026-01-01T12:00:00.");
        return Err(Rejection::InvalidFilter(string_of(m.as_slice())));
    }
    Ok((code, string_of(v)))
}

/// The tags packed by the local explorer query.
pub fn parse_tags(value: Option<String>) -> (result: Vec<Tag>)
    ensures
        result@.map_values(|t: Tag| crate::database::inventory::tag_text(t)) == match value {
            Some(v) => crate::database::inventory::packed_tags(crate::text::split_char(v@, '\u{1f}'), true),
            None => seq![],
        },
{
    match value {
        Some(v) => tags_from_packed(v.as_str(), true),
        None => Vec::new(),
    }
}

/// A stored local file or folder as the Local Files page lists it.
#[derive(Debug, Clone)]
pub struct Row {
    pub id: i64,
    pub root_path: String,
    pub relative_path: String,
    pub name: String,
    pub extension: String,
    pub type_label: String,
    pub is_directory: bool,
    pub size_bytes: u64,
    pub size_label: String,
    pub modified_unix: i64,
    pub modified_label: String,
    pub checksum_sha256: String,
    pub is_symlink: bool,
    pub symlink_target: String,
    pub full_path: String,
    pub icon_class: &'static str,
    pub owner_username: String,
    pub owner_identifier: String,
    pub owner_principal_id: i64,
    pub owner_display_name: String,
    pub group_name: String,
    pub group_identifier: String,
    pub duplicate_copies: u64,
    pub tags: Vec<Tag>,
}

/// The `ORDER BY` expression of the Local Files list (folders always first).
pub open spec fn children_order(sort: Seq<char>) -> Seq<char> {
    if sort == "path"@ {
        "i.relative_path"@
    } else if sort == "type"@ {
        "i.is_directory DESC,i.extension"@
    } else if sort == "size"@ {
        "i.size_bytes"@
    } else if sort == "modified"@ {
        "i.modified_unix"@
    } else if sort == "owner"@ {
        "i.owner_username COLLATE NOCASE"@
    } else if sort == "group"@ {
        "i.group_name COLLATE NOCASE"@
    } else if sort == "duplicates"@ {
        "copies"@
    } else {
        "i.name COLLATE NOCASE"@
    }
}

fn children_order_of(sort: &str) -> (result: &'static str)
    ensures
        result@ == children_order(sort@),
{
    let s = chars_of(sort);
    let v = s.as_slice();
    if equals_str(v, "path") {
        "i.relative_path"
    } else if equals_str(v, "type") {
        "i.is_directory DESC,i.extension"
    } else if equals_str(v, "size") {
        "i.size_bytes"
    } else if equals_str(v, "modified") {
        "i.modified_unix"
    } else if equals_str(v, "owner") {
        "i.owner_username COLLATE NOCASE"
    } else if equals_str(v, "group") {
        "i.group_name COLLATE NOCASE"
    } else if equals_str(v, "duplicates") {
        "copies"
    } else {
        "i.name COLLATE NOCASE"
    }
}

/// The full path of a stored item: its relative path under its root, as
/// `Path::join` forms it.
pub fn full_path_of(root: &String, relative: &String) -> (result: String)
    ensures
        result@ == crate::local_files::join_path(root@, relative@),
{
    let r = chars_of(root.as_str());
    let rel = chars_of(relative.as_str());
    if (rel.len() > 0 && rel[0] == '/') || r.len() == 0 {
        return relative.clone();
    }
    let mut v = r.clone();
    if r[r.len() - 1] != '/' {
        v.push('/');
    }
    push_chars(&mut v, rel.as_slice());
    string_of(v.as_slice())
}

/// What a listed row shows of the stored columns.
pub open spec fn row_derived(row: Row, utc_offset_seconds: int) -> bool {
    &&& row.full_path@ == crate::local_files::join_path(row.root_path@, row.relative_path@)
    &&& row.icon_class@ == icon_class(crate::text::lower_seq(row.extension@))
    &&& row.type_label@ == type_label(row.is_directory, row.is_symlink, row.extension@)
    &&& row.size_label@ == size_text(row.size_bytes as nat)
    &&& (row.modified_unix <= 0 ==> row.modified_label@.len() == 0)
}

/// The stored items directly inside `parent` of `root` (the root's top
/// level when `parent` is empty), or anywhere under the root matching
/// `search`, filtered and sorted as asked.  Modification times are shown in
/// local time at the given offset from UTC.
pub fn list_children(
    db: &Database,
    root: &str,
    parent: &str,
    search: &str,
    name: &str,
    path: &str,
    item_type: &str,
    size: &str,
    modified: &str,
    owner: &str,
    group: &str,
    tag: &str,
    duplicates_only: bool,
    sort: &str,
    descending: bool,
    utc_offset_seconds: i64,
) -> (result: Result<Vec<Row>, DatabaseError>)
    ensures
        result matches Err(e) ==> (e is Storage || e is Rejected),
        result matches Ok(rows) ==> forall|k: int| 0 <= k < rows@.len() ==> row_derived(#[trigger] rows@[k], utc_offset_seconds as int),
{
    let connection = db.connect()?;
    let (modified_comparison, modified_value) = match parse_modified_filter(modified) {
        Ok(parts) => parts,
        Err(r) => return Err(DatabaseError::Rejected(r)),
    };
    let direction = if descending { " DESC" } else { " ASC" };
    let mut sql: Vec<char> = Vec::new();
    push_str(
        &mut sql,
        "SELECT i.id,i.root_path,i.relative_path,i.name,i.extension,i.is_directory,i.size_bytes,i.modified_unix,i.checksum_sha256,CASE WHEN i.checksum_sha256='' THEN 0 ELSE (SELECT COUNT(*) FROM local_file_items d WHERE d.is_accessible=1 AND d.checksum_sha256=i.checksum_sha256) END copies,(SELECT group_concat(t.slug||char(30)||t.name||char(30)||t.color||char(30)||t.description,char(31)) FROM local_file_tags lft JOIN tags t ON t.id=lft.tag_id WHERE lft.local_file_id=i.id),i.owner_username,i.owner_identifier,COALESCE(p.id,0),COALESCE(p.display_name,''),i.group_name,i.group_identifier,i.is_symlink,i.symlink_target FROM local_file_items i LEFT JOIN principals p ON lower(p.username)=lower(i.owner_username) WHERE i.is_accessible=1 AND i.root_path=?1 AND ((?10='' AND ((?2='' AND instr(i.relative_path,'/')=0) OR (?2<>'' AND i.relative_path LIKE ?2||'/%' AND instr(substr(i.relative_path,length(?2)+2),'/')=0))) OR (?10<>'' AND (instr(lower(i.name),lower(?10))>0 OR instr(lower(i.relative_path),lower(?10))>0 OR instr(lower((CASE WHEN i.is_directory=1 THEN 'folder' WHEN i.extension<>'' THEN i.extension ELSE 'file' END)||(CASE WHEN i.is_symlink=1 THEN ' symlink' ELSE '' END)),lower(?10))>0 OR instr(lower(CAST(i.size_bytes AS TEXT)),lower(?10))>0 OR instr(lower(CASE WHEN i.size_bytes>=1000000000000 THEN printf('%.1f TB',i.size_bytes/1000000000000.0) WHEN i.size_bytes>=1000000000 THEN printf('%.1f GB',i.size_bytes/1000000000.0) WHEN i.size_bytes>=1000000 THEN printf('%.1f MB',i.size_bytes/1000000.0) WHEN i.size_bytes>=1000 THEN printf('%.1f KB',i.size_bytes/1000.0) ELSE CAST(i.size_bytes AS TEXT)||' B' END),lower(?10))>0 OR instr(lower(replace(datetime(i.modified_unix,'unixepoch','localtime'),' ','T')),lower(?10))>0 OR instr(lower(i.owner_username),lower(?10))>0 OR instr(lower(i.owner_identifier),lower(?10))>0 OR instr(lower(COALESCE(p.display_name,'')),lower(?10))>0 OR instr(lower(i.group_name),lower(?10))>0 OR instr(lower(i.group_identifier),lower(?10))>0))) AND (?3='' OR instr(lower(i.name),lower(?3))>0) AND (?4='' OR instr(lower(i.relative_path),lower(?4))>0) AND (?5='' OR instr(lower((CASE WHEN i.is_directory=1 THEN 'folder' WHEN i.extension<>'' THEN i.extension ELSE 'file' END)||(CASE WHEN i.is_symlink=1 THEN ' symlink' ELSE '' END)),lower(?5))>0) AND (?6='' OR instr(lower(CAST(i.size_bytes AS TEXT)),lower(?6))>0 OR instr(lower(CASE WHEN i.size_bytes>=1000000000000 THEN printf('%.1f TB',i.size_bytes/1000000000000.0) WHEN i.size_bytes>=1000000000 THEN printf('%.1f GB',i.size_bytes/1000000000.0) WHEN i.size_bytes>=1000000 THEN printf('%.1f MB',i.size_bytes/1000000.0) WHEN i.size_bytes>=1000 THEN printf('%.1f KB',i.size_bytes/1000.0) ELSE CAST(i.size_bytes AS TEXT)||' B' END),lower(?6))>0) AND (?11=0 OR (?11=1 AND datetime(i.modified_unix,'unixepoch','localtime') > replace(?7,'T',' ')) OR (?11=2 AND datetime(i.modified_unix,'unixepoch','localtime') >= replace(?7,'T',' ')) OR (?11=3 AND datetime(i.modified_unix,'unixepoch','localtime') < replace(?7,'T',' ')) OR (?11=4 AND datetime(i.modified_unix,'unixepoch','localtime') <= replace(?7,'T',' ')) OR (?11=5 AND substr(datetime(i.modified_unix,'unixepoch','localtime'),1,length(?7))=replace(?7,'T',' '))) AND (?12='' OR instr(lower(i.owner_username),lower(?12))>0 OR instr(lower(i.owner_identifier),lower(?12))>0 OR instr(lower(COALESCE(p.display_name,'')),lower(?12))>0) AND (?13='' OR instr(lower(i.group_name),lower(?13))>0 OR instr(lower(i.group_identifier),lower(?13))>0) AND (?8='' OR (?8='__untagged__' AND NOT EXISTS(SELECT 1 FROM local_file_tags x WHERE x.local_file_id=i.id)) OR EXISTS(SELECT 1 FROM local_file_tags x JOIN tags xt ON xt.id=x.tag_id WHERE x.local_file_id=i.id AND xt.slug=?8)) AND (?9=0 OR (i.checksum_sha256<>'' AND (SELECT COUNT(*) FROM local_file_items d WHERE d.is_accessible=1 AND d.checksum_sha256=i.checksum_sha256)>1)) ORDER BY i.is_directory DESC,",
    );
    push_str(&mut sql, children_order_of(sort));
    push_str(&mut sql, direction);
    let params = vec![
        SqlParam::Text(string_from(root)),
        SqlParam::Text(string_from(parent)),
        SqlParam::Text(string_from(name)),
        SqlParam::Text(string_from(path)),
        SqlParam::Text(string_from(item_type)),
        SqlParam::Text(string_from(size)),
        SqlParam::Text(modified_value),
        SqlParam::Text(string_from(tag)),
        SqlParam::Integer(if duplicates_only { 1 } else { 0 }),
        SqlParam::Text(string_from(search)),
        SqlParam::Integer(modified_comparison),
        SqlParam::Text(string_from(owner)),
        SqlParam::Text(string_from(group)),
    ];
    let query = string_of(sql.as_slice());
    let (columns, rows) = query_rows(&connection, query.as_str(), params.as_slice())?;
    let mut out: Vec<Row> = Vec::new();
    if columns < 19 {
        return Ok(out);
    }
    let mut i: usize = 0;
    while i < rows.len()
        invariant
            i <= rows@.len(),
            columns >= 19,
            forall|k: int| 0 <= k < rows.len() ==> #[trigger] rows[k].len() == columns,
            forall|k: int| 0 <= k < out@.len() ==> row_derived(#[trigger] out@[k], utc_offset_seconds as int),
        decreases rows.len() - i,
    {
        let r = &rows[i];
        let root_path = text_or_empty(r, 1);
        let relative_path = text_or_empty(r, 2);
        let extension = text_or_empty(r, 4);
        let is_directory = integer_or_zero(r, 5) != 0;
        let is_symlink = integer_or_zero(r, 17) != 0;
        let bytes = integer_or_zero(r, 6) as u64;
        let modified_unix = integer_or_zero(r, 7);
        let tags_text = crate::database::text_at(r, 10);
        let row = Row {
            id: integer_or_zero(r, 0),
            full_path: full_path_of(&root_path, &relative_path),
            root_path,
            relative_path,
            name: text_or_empty(r, 3),
            icon_class: file_icon_class(extension.as_str()),
            type_label: item_type_label(is_directory, is_symlink, extension.as_str()),
            extension,
            is_directory,
            size_bytes: bytes,
            size_label: format_bytes(bytes),
            modified_unix,
            modified_label: crate::format::format_unix(modified_unix, utc_offset_seconds),
            checksum_sha256: text_or_empty(r, 8),
            duplicate_copies: integer_or_zero(r, 9) as u64,
            tags: parse_tags(tags_text),
            owner_username: text_or_empty(r, 11),
            owner_identifier: text_or_empty(r, 12),
            owner_principal_id: integer_or_zero(r, 13),
            owner_display_name: text_or_empty(r, 14),
            group_name: text_or_empty(r, 15),
            group_identifier: text_or_empty(r, 16),
            is_symlink,
            symlink_target: text_or_empty(r, 18),
        };
        out.push(row);
        i = i + 1;
    }
    Ok(out)
}

pub const LOCAL_TAG_SQL: &'static str = "SELECT t.id FROM tags t JOIN tag_scopes s ON s.tag_id=t.id WHERE t.slug=?1 AND s.scope='local-files'";

pub const LOCAL_UNTAG_SQL: &'static str = "DELETE FROM local_file_tags WHERE local_file_id=?1 AND tag_id=?2";

pub const LOCAL_TAG_LINK_SQL: &'static str = "INSERT OR IGNORE INTO local_file_tags(local_file_id,tag_id) SELECT id,?2 FROM local_file_items WHERE id=?1";

/// Tags (or untags) the given local items with a tag offered for them.
pub fn change_tags(database: &mut Database, ids: &[i64], slug: &str, remove: bool) -> (result: Result<
    usize,
    DatabaseError,
>)
    ensures
        ids@.len() == 0 ==> result matches Err(DatabaseError::Rejected(Rejection::LocalItemsRequired)),
        ids@.len() > 0 ==> (result matches Err(e) ==> (e is Storage || (e matches DatabaseError::Rejected(
            Rejection::TagNotForLocalFiles(s),
        ) && s@ == slug@))),
        result is Ok ==> crate::database::tag_links_changed(
            old(database).sent(),
            final(database).sent(),
            LOCAL_TAG_SQL@,
            slug@,
            ids@.map_values(|r: i64| SqlParam::Integer(r)),
            LOCAL_UNTAG_SQL@,
            LOCAL_TAG_LINK_SQL@,
            remove,
        ),
{
    if ids.len() == 0 {
        return Err(DatabaseError::Rejected(Rejection::LocalItemsRequired));
    }
    let connection = database.connect()?;
    let mut params: Vec<SqlParam> = Vec::new();
    let mut i: usize = 0;
    while i < ids.len()
        invariant
            i <= ids@.len(),
            params@.len() == i,
            forall|k: int| 0 <= k < i ==> #[trigger] params@[k] == SqlParam::Integer(ids@[k]),
        decreases ids.len() - i,
    {
        params.push(SqlParam::Integer(ids[i]));
        i = i + 1;
    }
    match crate::database::change_tag_links(
        database,
        &connection,
        LOCAL_TAG_SQL,
        slug,
        params.as_slice(),
        LOCAL_UNTAG_SQL,
        LOCAL_TAG_LINK_SQL,
        remove,
    )? {
        Some(changed) => {
            proof {
                let wanted = ids@.map_values(|r: i64| SqlParam::Integer(r));
                assert forall|k: int| 0 <= k < params@.len() implies crate::database::same_param(#[trigger] params@[k], wanted[k]) by {}
                crate::database::lemma_links_same_ids(
                    old(database).sent(),
                    database.sent(),
                    LOCAL_TAG_SQL@,
                    slug@,
                    params@,
                    wanted,
                    LOCAL_UNTAG_SQL@,
                    LOCAL_TAG_LINK_SQL@,
                    remove,
                );
            }
            Ok(changed)
        },
        None => Err(DatabaseError::Rejected(Rejection::TagNotForLocalFiles(string_from(slug)))),
    }
}

} // verus!
