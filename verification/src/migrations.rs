//! The migrations page: how a migration job is shown, which actions it
//! offers, and the links and destination URLs the page reads.
use vstd::prelude::*;
use vstd::string::StringSliceAdditionalSpecFns;

use crate::database::migration::{
    can_archive, can_cancel, can_resume, can_start, is_active, state_of, MigrationJob, MigrationSource,
};
use crate::explorer::{drive_link, percent_encoded, push_encoded};
use crate::format::{format_bytes, size_text};
use crate::text::{chars_of, push_str, split_once, split_once_str, starts_with, string_from, string_of, trim};

verus! {

/// One source item of a migration.
#[derive(Debug, Clone)]
pub struct MigrationSourceView {
    pub item_id: String,
    pub name: String,
    pub relative_path: String,
    pub is_directory: bool,
    pub files_total: u64,
    pub folders_total: u64,
    pub bytes_total: u64,
    pub status: String,
    pub error_message: String,
    pub drive_url: String,
}

/// A column header of the migrations table.
#[derive(Debug, Clone)]
pub struct MigrationSortHeader {
    pub label: &'static str,
    pub url: String,
    pub active: bool,
    pub descending: bool,
}

/// A migration job as the migrations page shows it.
#[derive(Debug, Clone)]
pub struct MigrationView {
    pub id: i64,
    pub source_label: String,
    pub operation_label: String,
    pub destination_kind: String,
    pub destination_path: String,
    pub can_open_local: bool,
    pub status: String,
    pub phase: String,
    pub destination_url: String,
    pub destination_label: String,
    pub files_total: u64,
    pub folders_total: u64,
    pub size_label: String,
    pub files_copied: u64,
    pub copied_size_label: String,
    pub exceptions_count: u64,
    pub created_at: String,
    pub started_at: String,
    pub completed_at: String,
    pub copy_completed_at: String,
    pub resume_count: u64,
    pub error_message: String,
    pub archived_at: String,
    pub can_cancel: bool,
    pub can_archive: bool,
    pub can_start: bool,
    pub can_resume: bool,
    pub running: bool,
    pub allows_my_drive_destination: bool,
    pub allows_google_destination: bool,
    pub sources: Vec<MigrationSourceView>,
}

pub open spec fn source_label_of(kind: Seq<char>) -> Seq<char> {
    if kind == "my-drive"@ {
        "My Drive"@
    } else if kind == "shared-drive"@ {
        "Shared Drive"@
    } else {
        "Shared with Me"@
    }
}

pub open spec fn is_local(job: MigrationJob) -> bool {
    job.destination_kind@ == "local"@
}

pub open spec fn operation_label_of(job: MigrationJob) -> Seq<char> {
    if is_local(job) || job.operation_kind@ == "local-download"@ {
        "Local Download"@
    } else {
        "Google Drive Migration"@
    }
}

/// Where a job copies to, in words: the local folder, or the Drive and the
/// folder in it (once when they are the same).
pub open spec fn destination_label_of(job: MigrationJob) -> Seq<char> {
    if is_local(job) {
        job.destination_path@
    } else if job.destination_drive_name@.len() == 0 {
        "Not selected"@
    } else if job.destination_folder_name@ == job.destination_drive_name@ {
        job.destination_drive_name@
    } else {
        job.destination_drive_name@ + " / "@ + job.destination_folder_name@
    }
}

pub open spec fn source_shown(v: MigrationSourceView, s: MigrationSource) -> bool {
    &&& v.item_id@ == s.item_id@
    &&& v.name@ == s.name@
    &&& v.relative_path@ == s.relative_path@
    &&& v.is_directory == s.is_directory
    &&& v.files_total == s.files_total
    &&& v.folders_total == s.folders_total
    &&& v.bytes_total == s.bytes_total
    &&& v.status@ == s.status@
    &&& v.error_message@ == s.error_message@
    &&& v.drive_url@ == drive_link(s.item_id@, s.is_directory)
}

/// The actions a job's row offers are exactly those its lifecycle allows:
/// cancelling before any copy, starting a ready job once, resuming an
/// interrupted, failed or copied job, and archiving an inactive one.
pub open spec fn actions_match(v: MigrationView, job: MigrationJob) -> bool {
    &&& v.can_cancel == can_cancel(state_of(job))
    &&& v.can_archive == can_archive(state_of(job))
    &&& v.can_start == can_start(state_of(job))
    &&& v.can_resume == can_resume(state_of(job))
    &&& v.running == is_active(state_of(job))
}

pub open spec fn migration_shown(v: MigrationView, job: MigrationJob, destination_is_directory: bool) -> bool {
    &&& v.id == job.id
    &&& v.source_label@ == source_label_of(job.source_kind@)
    &&& v.operation_label@ == operation_label_of(job)
    &&& v.destination_kind@ == job.destination_kind@
    &&& v.destination_path@ == job.destination_path@
    &&& v.can_open_local == (is_local(job) && job.destination_path@.len() > 0 && destination_is_directory)
    &&& v.status@ == job.status@
    &&& v.phase@ == job.phase@
    &&& v.destination_url@ == job.destination_url@
    &&& v.destination_label@ == destination_label_of(job)
    &&& v.files_total == job.files_total
    &&& v.folders_total == job.folders_total
    &&& v.size_label@ == size_text(job.bytes_total as nat)
    &&& v.files_copied == job.files_copied
    &&& v.copied_size_label@ == size_text(job.bytes_copied as nat)
    &&& v.exceptions_count == job.exceptions_count
    &&& v.created_at@ == job.created_at@
    &&& v.started_at@ == job.started_at@
    &&& v.completed_at@ == job.completed_at@
    &&& v.copy_completed_at@ == job.copy_completed_at@
    &&& v.resume_count == job.resume_count
    &&& v.error_message@ == job.error_message@
    &&& v.archived_at@ == job.archived_at@
    &&& actions_match(v, job)
    &&& v.allows_my_drive_destination == (job.source_kind@ == "shared-with-me"@)
    &&& v.allows_google_destination == (job.source_kind@ != "shared-drive"@)
    &&& v.sources@.len() == job.sources@.len()
    &&& forall|k: int| 0 <= k < v.sources@.len() ==> #[trigger] source_shown(v.sources@[k], job.sources@[k])
}

fn drive_url(item_id: &String, is_directory: bool) -> (url: String)
    ensures
        url@ == drive_link(item_id@, is_directory),
{
    let mut v = if is_directory {
        chars_of("https://drive.google.com/drive/folders/")
    } else {
        chars_of("https://drive.google.com/open?id=")
    };
    push_str(&mut v, item_id.as_str());
    string_of(v.as_slice())
}

fn text_is(text: &String, literal: &str) -> (result: bool)
    ensures
        result == (text@ == literal@),
{
    crate::text::equals_str(chars_of(text.as_str()).as_slice(), literal)
}

/// How the migrations page shows a job.  Whether its local destination is
/// an existing folder is read from the file system by the caller.
pub fn migration_view(job: MigrationJob, destination_is_directory: bool) -> (v: MigrationView)
    ensures
        migration_shown(v, job, destination_is_directory),
{
    let state = job.state();
    let local = text_is(&job.destination_kind, "local");
    let source_label = if text_is(&job.source_kind, "my-drive") {
        string_from("My Drive")
    } else if text_is(&job.source_kind, "shared-drive") {
        string_from("Shared Drive")
    } else {
        string_from("Shared with Me")
    };
    let operation_label = if local || text_is(&job.operation_kind, "local-download") {
        string_from("Local Download")
    } else {
        string_from("Google Drive Migration")
    };
    let destination_label = if local {
        job.destination_path.clone()
    } else if chars_of(job.destination_drive_name.as_str()).len() == 0 {
        string_from("Not selected")
    } else if crate::text::chars_equal(
        chars_of(job.destination_folder_name.as_str()).as_slice(),
        chars_of(job.destination_drive_name.as_str()).as_slice(),
    ) {
        job.destination_drive_name.clone()
    } else {
        let mut v = chars_of(job.destination_drive_name.as_str());
        push_str(&mut v, " / ");
        push_str(&mut v, job.destination_folder_name.as_str());
        string_of(v.as_slice())
    };
    let can_open_local = local && chars_of(job.destination_path.as_str()).len() > 0 && destination_is_directory;
    let mut sources: Vec<MigrationSourceView> = Vec::new();
    let mut k: usize = 0;
    while k < job.sources.len()
        invariant
            k <= job.sources@.len(),
            sources@.len() == k,
            forall|j: int| 0 <= j < k ==> #[trigger] source_shown(sources@[j], job.sources@[j]),
        decreases job.sources.len() - k,
    {
        let s = &job.sources[k];
        sources.push(
            MigrationSourceView {
                item_id: s.item_id.clone(),
                name: s.name.clone(),
                relative_path: s.relative_path.clone(),
                is_directory: s.is_directory,
                files_total: s.files_total,
                folders_total: s.folders_total,
                bytes_total: s.bytes_total,
                status: s.status.clone(),
                error_message: s.error_message.clone(),
                drive_url: drive_url(&s.item_id, s.is_directory),
            },
        );
        k = k + 1;
    }
    MigrationView {
        id: job.id,
        source_label,
        operation_label,
        destination_kind: job.destination_kind.clone(),
        destination_path: job.destination_path.clone(),
        can_open_local,
        status: job.status.clone(),
        phase: job.phase.clone(),
        destination_url: job.destination_url.clone(),
        destination_label,
        files_total: job.files_total,
        folders_total: job.folders_total,
        size_label: format_bytes(job.bytes_total),
        files_copied: job.files_copied,
        copied_size_label: format_bytes(job.bytes_copied),
        exceptions_count: job.exceptions_count,
        created_at: job.created_at.clone(),
        started_at: job.started_at.clone(),
        completed_at: job.completed_at.clone(),
        copy_completed_at: job.copy_completed_at.clone(),
        resume_count: job.resume_count,
        error_message: job.error_message.clone(),
        archived_at: job.archived_at.clone(),
        can_cancel: !state.started && (state.status == crate::database::migration::JobStatus::Draft
            || state.status == crate::database::migration::JobStatus::Ready),
        can_archive: !(state.status == crate::database::migration::JobStatus::Preflight || state.status
            == crate::database::migration::JobStatus::Running) && !state.archived,
        can_start: state.status == crate::database::migration::JobStatus::Ready && !state.started,
        can_resume: !state.archived && (state.status == crate::database::migration::JobStatus::Interrupted
            || state.status == crate::database::migration::JobStatus::Error || state.status
            == crate::database::migration::JobStatus::Copied),
        running: state.status == crate::database::migration::JobStatus::Preflight || state.status
            == crate::database::migration::JobStatus::Running,
        allows_my_drive_destination: text_is(&job.source_kind, "shared-with-me"),
        allows_google_destination: !text_is(&job.source_kind, "shared-drive"),
        sources,
    }
}

/// A query value percent-encoded (the same rule as the explorer's links).
pub fn url_encode_component(value: &str) -> (encoded: String)
    ensures
        encoded@ == percent_encoded(value.spec_bytes()),
{
    crate::explorer::encode_query_value(value)
}

pub open spec fn migration_list_link(search: Seq<u8>, include_archived: bool, sort: Seq<char>, descending: bool) -> Seq<char> {
    "/migrations?q="@ + percent_encoded(search) + "&sort="@ + sort + "&dir="@ + (if descending {
        "desc"@
    } else {
        "asc"@
    }) + (if include_archived {
        "&archived=1"@
    } else {
        Seq::empty()
    })
}

/// The link to the migrations list with a search, sort and archive choice.
pub fn migration_list_url(search: &str, include_archived: bool, sort: &str, descending: bool) -> (url: String)
    ensures
        url@ == migration_list_link(search.spec_bytes(), include_archived, sort@, descending),
{
    let mut v = chars_of("/migrations?q=");
    push_encoded(&mut v, search);
    push_str(&mut v, "&sort=");
    push_str(&mut v, sort);
    push_str(&mut v, "&dir=");
    if descending {
        push_str(&mut v, "desc");
    } else {
        push_str(&mut v, "asc");
    }
    if include_archived {
        push_str(&mut v, "&archived=1");
    }
    proof {
        reveal_strlit("");
    }
    assert(v@ =~= migration_list_link(search.spec_bytes(), include_archived, sort@, descending));
    string_of(v.as_slice())
}

pub open spec fn id_delimiter(c: char) -> bool {
    c == '?' || c == '/' || c == '#'
}

/// The text up to the first `?`, `/` or `#`.
pub open spec fn before_delimiter(s: Seq<char>) -> Seq<char>
    decreases s.len(),
{
    if s.len() == 0 || id_delimiter(s[0]) {
        Seq::empty()
    } else {
        seq![s[0]] + before_delimiter(s.drop_first())
    }
}

pub open spec fn id_char(c: char) -> bool {
    crate::text::is_ascii_alphanumeric(c) || c == '-' || c == '_'
}

/// The folder id in a Drive folder URL: what follows `/folders/`, up to
/// the query, fragment or next path segment.
pub open spec fn folder_id_in(url: Seq<char>) -> Seq<char> {
    match split_once(url, "/folders/"@) {
        Some((_, after)) => before_delimiter(after),
        None => Seq::empty(),
    }
}

/// Why a destination URL was refused.
#[derive(Debug, Clone, Copy, PartialEq, Eq, Structural)]
pub enum DestinationUrlError {
    NotDrive,
    NoFolderId,
}

impl DestinationUrlError {
    pub fn message(&self) -> (m: &'static str)
        ensures
            m@ == match *self {
                DestinationUrlError::NotDrive => "Enter a Google Drive folder or Shared Drive URL."@,
                DestinationUrlError::NoFolderId => "The Google Drive URL does not contain a valid destination folder ID."@,
            },
    {
        match self {
            DestinationUrlError::NotDrive => "Enter a Google Drive folder or Shared Drive URL.",
            DestinationUrlError::NoFolderId => "The Google Drive URL does not contain a valid destination folder ID.",
        }
    }
}

fn take_until_delimiter(s: &[char]) -> (result: Vec<char>)
    ensures
        result@ == before_delimiter(s@),
{
    let mut k: usize = 0;
    while k < s.len() && !(s[k] == '?' || s[k] == '/' || s[k] == '#')
        invariant
            k <= s@.len(),
            forall|j: int| 0 <= j < k ==> !id_delimiter(#[trigger] s@[j]),
        decreases s.len() - k,
    {
        k = k + 1;
    }
    proof {
        lemma_before_delimiter(s@, k as int);
    }
    crate::text::slice_range(s, 0, k)
}

proof fn lemma_before_delimiter(s: Seq<char>, k: int)
    requires
        0 <= k <= s.len(),
        forall|j: int| 0 <= j < k ==> !id_delimiter(#[trigger] s[j]),
        k == s.len() || id_delimiter(s[k]),
    ensures
        before_delimiter(s) == s.subrange(0, k),
    decreases k,
{
    if k == 0 {
        assert(s.subrange(0, 0) =~= Seq::<char>::empty());
    } else {
        assert(!id_delimiter(s[0]));
        lemma_before_delimiter(s.drop_first(), k - 1);
        assert(seq![s[0]] + s.drop_first().subrange(0, k - 1) =~= s.subrange(0, k));
    }
}

/// The destination folder id of a Google Drive folder URL: the URL, trimmed,
/// must be on `drive.google.com`, and the id at least ten letters, digits,
/// `-` or `_`.
pub fn google_drive_folder_id(url: &str) -> (result: Result<String, DestinationUrlError>)
    ensures
        !starts_with(trim(url@), "https://drive.google.com/"@) ==> result == Err::<String, DestinationUrlError>(
            DestinationUrlError::NotDrive,
        ),
        starts_with(trim(url@), "https://drive.google.com/"@) ==> {
            let id = folder_id_in(trim(url@));
            if id.len() >= 10 && forall|i: int| 0 <= i < id.len() ==> id_char(#[trigger] id[i]) {
                result matches Ok(r) && r@ == id
            } else {
                result == Err::<String, DestinationUrlError>(DestinationUrlError::NoFolderId)
            }
        },
{
    let u = crate::text::trim_str(url);
    if !crate::text::starts_with_str(u.as_slice(), "https://drive.google.com/") {
        return Err(DestinationUrlError::NotDrive);
    }
    let id: Vec<char> = match split_once_str(u.as_slice(), "/folders/") {
        Some((_, after)) => take_until_delimiter(after.as_slice()),
        None => Vec::new(),
    };
    if id.len() < 10 {
        return Err(DestinationUrlError::NoFolderId);
    }
    let mut k: usize = 0;
    while k < id.len()
        invariant
            k <= id@.len(),
            u@ == trim(url@),
            starts_with(u@, "https://drive.google.com/"@),
            id@ == folder_id_in(u@),
            id@.len() >= 10,
            forall|j: int| 0 <= j < k ==> id_char(#[trigger] id@[j]),
        decreases id.len() - k,
    {
        let c = id[k];
        if !(crate::text::char_is_ascii_alphanumeric(c) || c == '-' || c == '_') {
            assert(!id_char(id@[k as int]));
            return Err(DestinationUrlError::NoFolderId);
        }
        k = k + 1;
    }
    Ok(string_of(id.as_slice()))
}

/// A filter's value as an export's context sheet shows it: `Any` when blank.
pub open spec fn filter_shown(value: Seq<char>) -> Seq<char> {
    if trim(value).len() == 0 {
        "Any"@
    } else {
        value
    }
}

/// A filter's value as the export's context sheet shows it.
pub fn filter_value(value: &str) -> (shown: String)
    ensures
        shown@ == filter_shown(value@),
{
    if crate::text::trim_str(value).len() == 0 {
        string_from("Any")
    } else {
        string_from(value)
    }
}

} // verus!
