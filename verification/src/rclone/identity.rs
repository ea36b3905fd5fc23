//! Google identities and documents reached through the read-only remote:
//! sheet links, tokens in the Rclone configuration, and account details.
use vstd::prelude::*;

use crate::json::{
    JsonValue,
    get,
    get_str,
    member,
    text_of,
};
use crate::text::{
    all_digits,
    char_is_ascii_alphanumeric,
    char_is_ascii_digit,
    chars_of,
    contains_seq,
    find_seq,
    first_occurrence,
    is_ascii_alphanumeric,
    is_ascii_digit,
    slice_range,
    split_char,
    split_chars,
    starts_with,
    string_from,
    string_of,
    trim,
    trim_chars,
    trim_str,
};

verus! {

#[derive(Debug, Clone)]
pub struct RemoteIdentity {
    pub email: Option<String>,
    pub display_name: Option<String>,
    pub account_id: Option<String>,
    pub raw_json: String,
}

#[derive(Debug, Clone, PartialEq, Eq)]
pub struct GoogleSheetLocation {
    pub spreadsheet_id: String,
    pub gid: String,
}

#[derive(Debug, Clone, PartialEq, Eq)]
pub struct GoogleDriveFolder {
    pub id: String,
    pub name: String,
    pub drive_id: String,
    pub can_add_children: bool,
    pub parents: Vec<String>,
    pub modified_at: String,
}

/// Why a link is not a usable Google Sheets link.
#[derive(Debug, Clone, Copy, PartialEq, Eq, Structural)]
pub enum SheetUrlError {
    NotASheet,
    InvalidSpreadsheetId,
    InvalidGid,
}

impl SheetUrlError {
    pub fn message(&self) -> (result: &'static str)
        ensures
            result@ == match *self {
                SheetUrlError::NotASheet => "Directory source must be a Google Sheets URL"@,
                SheetUrlError::InvalidSpreadsheetId => "Google Sheets URL contains an invalid spreadsheet ID"@,
                SheetUrlError::InvalidGid => "Google Sheets URL contains an invalid worksheet gid"@,
            },
    {
        match self {
            SheetUrlError::NotASheet => "Directory source must be a Google Sheets URL",
            SheetUrlError::InvalidSpreadsheetId => "Google Sheets URL contains an invalid spreadsheet ID",
            SheetUrlError::InvalidGid => "Google Sheets URL contains an invalid worksheet gid",
        }
    }
}

pub open spec fn sheet_marker() -> Seq<char> {
    seq![
        'd', 'o', 'c', 's', '.', 'g', 'o', 'o', 'g', 'l', 'e', '.', 'c', 'o', 'm', '/', 's', 'p',
        'r', 'e', 'a', 'd', 's', 'h', 'e', 'e', 't', 's', '/', 'd', '/',
    ]
}

pub open spec fn id_char(c: char) -> bool {
    is_ascii_alphanumeric(c) || c == '-' || c == '_'
}

pub open spec fn query_separator(c: char) -> bool {
    c == '?' || c == '#' || c == '&'
}

/// Splits at every `?`, `#` and `&`.
pub open spec fn query_parts(s: Seq<char>) -> Seq<Seq<char>>
    decreases s.len(),
{
    if s.len() == 0 {
        seq![seq![]]
    } else {
        let rest = query_parts(s.drop_last());
        if query_separator(s.last()) {
            rest.push(seq![])
        } else {
            rest.update(rest.len() - 1, rest.last().push(s.last()))
        }
    }
}

pub open spec fn gid_prefix() -> Seq<char> {
    seq!['g', 'i', 'd', '=']
}

/// The text after `gid=` in the first part that starts with it, if any.
pub open spec fn first_gid(parts: Seq<Seq<char>>) -> Option<Seq<char>>
    decreases parts.len(),
{
    if parts.len() == 0 {
        None
    } else if starts_with(parts[0], gid_prefix()) {
        Some(parts[0].subrange(4, parts[0].len() as int))
    } else {
        first_gid(parts.drop_first())
    }
}

/// The spreadsheet id: the trimmed text between the marker and the next `/`.
pub open spec fn spreadsheet_id_of(url: Seq<char>) -> Seq<char> {
    let start = (choose|i: int| first_occurrence(url, sheet_marker(), i)) + sheet_marker().len();
    trim(split_char(url.subrange(start, url.len() as int), '/')[0])
}

pub open spec fn gid_of(url: Seq<char>) -> Seq<char> {
    match first_gid(query_parts(url)) {
        Some(g) => g,
        None => seq!['0'],
    }
}

pub open spec fn valid_id(id: Seq<char>) -> bool {
    id.len() > 0 && forall|i: int| 0 <= i < id.len() ==> id_char(#[trigger] id[i])
}

proof fn lemma_first_occurrence_unique(s: Seq<char>, p: Seq<char>, i: int, j: int)
    requires
        first_occurrence(s, p, i),
        first_occurrence(s, p, j),
    ensures
        i == j,
{
}

proof fn lemma_query_parts_nonempty(s: Seq<char>)
    ensures
        query_parts(s).len() >= 1,
    decreases s.len(),
{
    if s.len() > 0 {
        lemma_query_parts_nonempty(s.drop_last());
    }
}

fn split_query(s: &[char]) -> (result: Vec<Vec<char>>)
    ensures
        result@.len() == query_parts(s@).len(),
        forall|i: int| 0 <= i < result@.len() ==> #[trigger] result@[i]@ == query_parts(s@)[i],
{
    let mut pieces: Vec<Vec<char>> = Vec::new();
    let mut current: Vec<char> = Vec::new();
    let mut i: usize = 0;
    while i < s.len()
        invariant
            i <= s.len(),
            pieces@.len() + 1 == query_parts(s@.subrange(0, i as int)).len(),
            forall|k: int|
                0 <= k < pieces@.len() ==> #[trigger] pieces@[k]@ == query_parts(
                    s@.subrange(0, i as int),
                )[k],
            current@ == query_parts(s@.subrange(0, i as int)).last(),
        decreases s.len() - i,
    {
        let ghost prefix = s@.subrange(0, i as int);
        proof {
            lemma_query_parts_nonempty(prefix);
        }
        assert(s@.subrange(0, i + 1).drop_last() =~= prefix);
        let c = s[i];
        if c == '?' || c == '#' || c == '&' {
            let mut done: Vec<char> = Vec::new();
            std::mem::swap(&mut done, &mut current);
            pieces.push(done);
        } else {
            current.push(c);
        }
        i = i + 1;
    }
    assert(s@.subrange(0, s@.len() as int) =~= s@);
    proof {
        lemma_query_parts_nonempty(s@);
    }
    pieces.push(current);
    pieces
}

fn find_gid(parts: &Vec<Vec<char>>) -> (result: Option<Vec<char>>)
    ensures
        match result {
            Some(g) => first_gid(parts@.map_values(|p: Vec<char>| p@)) == Some(g@),
            None => first_gid(parts@.map_values(|p: Vec<char>| p@)) is None,
        },
{
    let ghost all = parts@.map_values(|p: Vec<char>| p@);
    let mut i: usize = 0;
    assert(all.subrange(0, all.len() as int) =~= all);
    while i < parts.len()
        invariant
            i <= parts@.len(),
            all == parts@.map_values(|p: Vec<char>| p@),
            first_gid(all) == first_gid(all.subrange(i as int, all.len() as int)),
        decreases parts@.len() - i,
    {
        let ghost rest = all.subrange(i as int, all.len() as int);
        assert(rest[0] == parts@[i as int]@);
        let part = &parts[i];
        if part.len() >= 4 && part[0] == 'g' && part[1] == 'i' && part[2] == 'd' && part[3] == '=' {
            assert(part@.subrange(0, 4) =~= gid_prefix());
            return Some(slice_range(part.as_slice(), 4, part.len()));
        }
        proof {
            if starts_with(part@, gid_prefix()) {
                assert(part@.subrange(0, 4)[0] == 'g');
                assert(part@.subrange(0, 4)[1] == 'i');
                assert(part@.subrange(0, 4)[2] == 'd');
                assert(part@.subrange(0, 4)[3] == '=');
            }
        }
        assert(rest.drop_first() =~= all.subrange(i + 1, all.len() as int));
        i = i + 1;
    }
    None
}

/// Reads the spreadsheet id and worksheet gid of a Google Sheets link. The
/// id follows `docs.google.com/spreadsheets/d/` and must be letters, digits,
/// `-` or `_`; the gid is the first `gid=` parameter (`0` when there is
/// none) and must be digits.
pub fn parse_google_sheet_url(url: &str) -> (result: Result<GoogleSheetLocation, SheetUrlError>)
    ensures
        !contains_seq(url@, sheet_marker()) ==> result == Err::<GoogleSheetLocation, SheetUrlError>(
            SheetUrlError::NotASheet,
        ),
        contains_seq(url@, sheet_marker()) && !valid_id(spreadsheet_id_of(url@)) ==> result == Err::<
            GoogleSheetLocation,
            SheetUrlError,
        >(SheetUrlError::InvalidSpreadsheetId),
        contains_seq(url@, sheet_marker()) && valid_id(spreadsheet_id_of(url@)) && !(gid_of(url@).len()
            > 0 && all_digits(gid_of(url@))) ==> result == Err::<GoogleSheetLocation, SheetUrlError>(
            SheetUrlError::InvalidGid,
        ),
        result matches Ok(location) ==> location.spreadsheet_id@ == spreadsheet_id_of(url@)
            && location.gid@ == gid_of(url@) && valid_id(location.spreadsheet_id@)
            && location.gid@.len() > 0 && all_digits(location.gid@),
{
    let chars = chars_of(url);
    let marker = chars_of("docs.google.com/spreadsheets/d/");
    proof {
        reveal_strlit("docs.google.com/spreadsheets/d/");
        assert(marker@ =~= sheet_marker());
    }
    let start = match find_seq(chars.as_slice(), marker.as_slice()) {
        Some(i) => i,
        None => return Err(SheetUrlError::NotASheet),
    };
    proof {
        let c = choose|i: int| first_occurrence(url@, sheet_marker(), i);
        lemma_first_occurrence_unique(url@, sheet_marker(), c, start as int);
        assert(crate::text::occurs_at(url@, sheet_marker(), start as int));
        assert(contains_seq(url@, sheet_marker()));
    }
    assert(start + marker@.len() <= chars@.len());
    assert(chars@.len() == chars.len() && marker@.len() == marker.len());
    let from = start + marker.len();
    let rest = slice_range(chars.as_slice(), from, chars.len());
    let pieces = split_chars(rest.as_slice(), '/');
    proof {
        crate::text::lemma_split_nonempty(rest@, '/');
    }
    let id = trim_chars(pieces[0].as_slice());
    assert(id@ == spreadsheet_id_of(url@));
    if id.len() == 0 {
        return Err(SheetUrlError::InvalidSpreadsheetId);
    }
    let mut k: usize = 0;
    while k < id.len()
        invariant
            k <= id@.len(),
            id@ == spreadsheet_id_of(url@),
            contains_seq(url@, sheet_marker()),
            forall|q: int| 0 <= q < k ==> id_char(#[trigger] id@[q]),
        decreases id@.len() - k,
    {
        let c = id[k];
        if !(char_is_ascii_alphanumeric(c) || c == '-' || c == '_') {
            assert(!id_char(id@[k as int]));
            return Err(SheetUrlError::InvalidSpreadsheetId);
        }
        k = k + 1;
    }
    let parts = split_query(chars.as_slice());
    proof {
        let mapped = parts@.map_values(|p: Vec<char>| p@);
        assert(mapped =~= query_parts(url@));
    }
    let gid = match find_gid(&parts) {
        Some(g) => g,
        None => {
            let mut z: Vec<char> = Vec::new();
            z.push('0');
            assert(z@ =~= seq!['0']);
            z
        },
    };
    assert(gid@ == gid_of(url@));
    if gid.len() == 0 {
        return Err(SheetUrlError::InvalidGid);
    }
    let mut k: usize = 0;
    while k < gid.len()
        invariant
            k <= gid@.len(),
            gid@ == gid_of(url@),
            contains_seq(url@, sheet_marker()),
            valid_id(spreadsheet_id_of(url@)),
            forall|q: int| 0 <= q < k ==> is_ascii_digit(#[trigger] gid@[q]),
        decreases gid@.len() - k,
    {
        if !char_is_ascii_digit(gid[k]) {
            assert(!is_ascii_digit(gid@[k as int]));
            return Err(SheetUrlError::InvalidGid);
        }
        k = k + 1;
    }
    Ok(
        GoogleSheetLocation {
            spreadsheet_id: string_of(id.as_slice()),
            gid: string_of(gid.as_slice()),
        },
    )
}

// ---------------------------------------------------------------------------
// The Rclone configuration file
// ---------------------------------------------------------------------------

/// What a configuration line says, after trimming.
pub open spec fn is_section_header(line: Seq<char>) -> bool {
    line.len() >= 2 && line[0] == '[' && line.last() == ']'
}

pub open spec fn is_comment(line: Seq<char>) -> bool {
    line.len() > 0 && (line[0] == '#' || line[0] == ';')
}

/// The value of `key` in section `section`: the first `key = value` line
/// inside that section, its value trimmed.
pub open spec fn setting_in(lines: Seq<Seq<char>>, section: Seq<char>, key: Seq<char>, inside: bool) -> Option<
    Seq<char>,
>
    decreases lines.len(),
{
    if lines.len() == 0 {
        None
    } else {
        let line = trim(lines[0]);
        if is_section_header(line) {
            setting_in(lines.drop_first(), section, key, line.subrange(1, line.len() - 1) == section)
        } else if !inside || is_comment(line) || !line.contains('=') {
            setting_in(lines.drop_first(), section, key, inside)
        } else {
            let eq = choose|i: int| crate::text::first_index_of(line, '=', i);
            if trim(line.subrange(0, eq)) == key {
                Some(trim(line.subrange(eq + 1, line.len() as int)))
            } else {
                setting_in(lines.drop_first(), section, key, inside)
            }
        }
    }
}

proof fn lemma_first_index_unique(s: Seq<char>, c: char, i: int, j: int)
    requires
        crate::text::first_index_of(s, c, i),
        crate::text::first_index_of(s, c, j),
    ensures
        i == j,
{
}

/// Reads `key` from section `[section]` of an Rclone configuration text.
pub fn remote_setting(config: &str, section: &str, key: &str) -> (result: Option<String>)
    ensures
        match result {
            Some(v) => setting_in(crate::local_files::text_lines(config@), section@, key@, false)
                == Some(v@),
            None => setting_in(crate::local_files::text_lines(config@), section@, key@, false) is None,
        },
{
    let lines = crate::local_files::lines_of(config);
    let ghost all = crate::local_files::text_lines(config@);
    let mut inside = false;
    let mut i: usize = 0;
    assert(all.subrange(0, all.len() as int) =~= all);
    while i < lines.len()
        invariant
            i <= lines@.len(),
            lines@.len() == all.len(),
            all == crate::local_files::text_lines(config@),
            forall|k: int| 0 <= k < lines@.len() ==> #[trigger] lines@[k]@ == all[k],
            setting_in(all, section@, key@, false) == setting_in(
                all.subrange(i as int, all.len() as int),
                section@,
                key@,
                inside,
            ),
        decreases lines@.len() - i,
    {
        let ghost rest = all.subrange(i as int, all.len() as int);
        assert(rest[0] == lines@[i as int]@);
        assert(rest.drop_first() =~= all.subrange(i + 1, all.len() as int));
        let line = trim_chars(lines[i].as_slice());
        if line.len() >= 2 && line[0] == '[' && line[line.len() - 1] == ']' {
            let name = slice_range(line.as_slice(), 1, line.len() - 1);
            inside = crate::text::equals_str(name.as_slice(), section);
        } else if !inside || (line.len() > 0 && (line[0] == '#' || line[0] == ';')) {
        } else {
            match crate::text::find_char(line.as_slice(), '=') {
                None => {},
                Some(eq) => {
                    proof {
                        assert(line@.contains('=')) by {
                            assert(line@[eq as int] == '=');
                        }
                        let c = choose|q: int| crate::text::first_index_of(line@, '=', q);
                        lemma_first_index_unique(line@, '=', c, eq as int);
                    }
                    let name = trim_chars(slice_range(line.as_slice(), 0, eq).as_slice());
                    if crate::text::equals_str(name.as_slice(), key) {
                        let value = trim_chars(
                            slice_range(line.as_slice(), eq + 1, line.len()).as_slice(),
                        );
                        return Some(string_of(value.as_slice()));
                    }
                },
            }
        }
        i = i + 1;
    }
    None
}

// ---------------------------------------------------------------------------
// Account details
// ---------------------------------------------------------------------------

/// The first of `names` whose member is a string, trimmed, when not blank.
pub open spec fn first_text_field(value: JsonValue, names: Seq<Seq<char>>) -> Option<Seq<char>>
    decreases names.len(),
{
    if names.len() == 0 {
        None
    } else {
        match text_of(member(value, names[0])) {
            Some(t) => if trim(t).len() > 0 {
                Some(trim(t))
            } else {
                None
            },
            None => first_text_field(value, names.drop_first()),
        }
    }
}

/// Reads the first of several field names that holds text.
pub fn string_field(value: &JsonValue, names: &[&str]) -> (result: Option<String>)
    ensures
        match result {
            Some(s) => first_text_field(*value, names@.map_values(|n: &str| n@)) == Some(s@),
            None => first_text_field(*value, names@.map_values(|n: &str| n@)) is None,
        },
{
    let ghost all = names@.map_values(|n: &str| n@);
    let mut i: usize = 0;
    assert(all.subrange(0, all.len() as int) =~= all);
    while i < names.len()
        invariant
            i <= names@.len(),
            all == names@.map_values(|n: &str| n@),
            first_text_field(*value, all) == first_text_field(
                *value,
                all.subrange(i as int, all.len() as int),
            ),
        decreases names@.len() - i,
    {
        let ghost rest = all.subrange(i as int, all.len() as int);
        assert(rest[0] == names@[i as int]@);
        assert(rest.drop_first() =~= all.subrange(i + 1, all.len() as int));
        if let Some(t) = get_str(value, names[i]) {
            let trimmed = trim_str(t.as_str());
            if trimmed.len() > 0 {
                return Some(string_of(trimmed.as_slice()));
            }
            return None;
        }
        i = i + 1;
    }
    None
}

/// The account an Rclone userinfo or Drive "about" answer describes;
/// `raw_json` is the answer's text.
pub fn identity_from_value(value: &JsonValue, raw_json: String) -> (result: RemoteIdentity)
    ensures
        result.raw_json@ == raw_json@,
        text_view(result.email) == first_text_field(*value, seq!["Email"@, "email"@, "EmailAddress"@, "emailAddress"@]),
        text_view(result.display_name) == first_text_field(
            *value,
            seq!["Name"@, "name"@, "DisplayName"@, "displayName"@],
        ),
        text_view(result.account_id) == first_text_field(
            *value,
            seq!["ID"@, "Id"@, "id"@, "UserID"@, "userId"@, "permissionId"@],
        ),
{
    let email_names: Vec<&str> = vec!["Email", "email", "EmailAddress", "emailAddress"];
    let name_names: Vec<&str> = vec!["Name", "name", "DisplayName", "displayName"];
    let id_names: Vec<&str> = vec!["ID", "Id", "id", "UserID", "userId", "permissionId"];
    assert(email_names@.map_values(|n: &str| n@) =~= seq!["Email"@, "email"@, "EmailAddress"@, "emailAddress"@]);
    assert(name_names@.map_values(|n: &str| n@) =~= seq!["Name"@, "name"@, "DisplayName"@, "displayName"@]);
    assert(id_names@.map_values(|n: &str| n@) =~= seq!["ID"@, "Id"@, "id"@, "UserID"@, "userId"@, "permissionId"@]);
    RemoteIdentity {
        email: string_field(value, email_names.as_slice()),
        display_name: string_field(value, name_names.as_slice()),
        account_id: string_field(value, id_names.as_slice()),
        raw_json,
    }
}

/// The text of an optional string.
pub open spec fn text_view(o: Option<String>) -> Option<Seq<char>> {
    match o {
        Some(s) => Some(s@),
        None => None,
    }
}

/// The OAuth access token held in a token document, when it is not blank.
pub fn access_token_from(token: &JsonValue) -> (result: Option<String>)
    ensures
        match result {
            Some(t) => text_of(member(*token, seq!['a', 'c', 'c', 'e', 's', 's', '_', 't', 'o', 'k', 'e', 'n']))
                == Some(t@) && trim(t@).len() > 0,
            None => !(text_of(
                member(*token, seq!['a', 'c', 'c', 'e', 's', 's', '_', 't', 'o', 'k', 'e', 'n']),
            ) matches Some(t) && trim(t).len() > 0),
        },
{
    proof {
        reveal_strlit("access_token");
        assert("access_token"@ =~= seq!['a', 'c', 'c', 'e', 's', 's', '_', 't', 'o', 'k', 'e', 'n']);
    }
    match get_str(token, "access_token") {
        Some(t) => {
            if trim_str(t.as_str()).len() > 0 {
                Some(t.clone())
            } else {
                None
            }
        },
        None => None,
    }
}

/// Why a Drive answer does not describe a usable destination folder.
#[derive(Debug, Clone, Copy, PartialEq, Eq, Structural)]
pub enum FolderError {
    NotAFolder,
    MissingId,
    MissingName,
}

impl FolderError {
    pub fn message(&self) -> (result: &'static str)
        ensures
            result@ == match *self {
                FolderError::NotAFolder => "The Google Drive link must identify a folder"@,
                FolderError::MissingId => "Google Drive did not return the destination folder ID"@,
                FolderError::MissingName => "Google Drive did not return the destination name"@,
            },
    {
        match self {
            FolderError::NotAFolder => "The Google Drive link must identify a folder",
            FolderError::MissingId => "Google Drive did not return the destination folder ID",
            FolderError::MissingName => "Google Drive did not return the destination name",
        }
    }
}

/// The trimmed text of a string member, when it is not blank.
pub open spec fn trimmed_member(value: JsonValue, field: Seq<char>) -> Option<Seq<char>> {
    match text_of(member(value, field)) {
        Some(t) => if trim(t).len() > 0 {
            Some(trim(t))
        } else {
            None
        },
        None => None,
    }
}

fn trimmed_field(value: &JsonValue, field: &str) -> (result: Option<String>)
    ensures
        match trimmed_member(*value, field@) {
            Some(t) => result matches Some(s) && s@ == t,
            None => result is None,
        },
{
    match get_str(value, field) {
        Some(t) => {
            let s = trim_str(t.as_str());
            if s.len() > 0 {
                Some(string_of(s.as_slice()))
            } else {
                None
            }
        },
        None => None,
    }
}

/// The destination folder a Drive `files.get` answer describes.
pub fn folder_from_value(value: &JsonValue) -> (result: Result<GoogleDriveFolder, FolderError>)
    ensures
        text_of(member(*value, seq!['m', 'i', 'm', 'e', 'T', 'y', 'p', 'e'])) != Some(
            "application/vnd.google-apps.folder"@,
        ) ==> result == Err::<GoogleDriveFolder, FolderError>(FolderError::NotAFolder),
{
    proof {
        reveal_strlit("mimeType");
        assert("mimeType"@ =~= seq!['m', 'i', 'm', 'e', 'T', 'y', 'p', 'e']);
    }
    let is_folder = match get_str(value, "mimeType") {
        Some(t) => {
            let c = chars_of(t.as_str());
            crate::text::equals_str(c.as_slice(), "application/vnd.google-apps.folder")
        },
        None => false,
    };
    if !is_folder {
        return Err(FolderError::NotAFolder);
    }
    let id = match trimmed_field(value, "id") {
        Some(v) => v,
        None => return Err(FolderError::MissingId),
    };
    let name = match trimmed_field(value, "name") {
        Some(v) => v,
        None => return Err(FolderError::MissingName),
    };
    let drive_id = match trimmed_field(value, "driveId") {
        Some(v) => v,
        None => String::new(),
    };
    let modified_at = match trimmed_field(value, "modifiedTime") {
        Some(v) => v,
        None => String::new(),
    };
    let can_add_children = match get(value, "capabilities") {
        Some(caps) => match get(caps, "canAddChildren") {
            Some(JsonValue::Bool(b)) => *b,
            _ => false,
        },
        None => false,
    };
    let mut parents: Vec<String> = Vec::new();
    if let Some(JsonValue::Array(items)) = get(value, "parents") {
        let mut i: usize = 0;
        while i < items.len()
            invariant
                i <= items@.len(),
            decreases items@.len() - i,
        {
            if let JsonValue::Text(t) = &items[i] {
                parents.push(t.clone());
            }
            i = i + 1;
        }
    }
    Ok(GoogleDriveFolder { id, name, drive_id, can_add_children, parents, modified_at })
}

} // verus!
