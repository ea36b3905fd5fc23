//! View models behind the dashboard: status items, the download indicator,
//! the metadata inventory card and the local instance probe.
use vstd::prelude::*;

use crate::database::inventory::{scan_timing_estimate, InventorySummary, ScanTimingEstimate};
use crate::database::Database;
use crate::format::{duration_text, format_bytes, format_duration, size_text};
use crate::text::{
    all_digits, chars_of, contains_seq, decimal, equals_str, find_seq, first_occurrence, first_position,
    is_ascii_digit, lemma_decimal_digits, lemma_first_occurrence_unique, lemma_split_first_piece,
    lemma_split_nonempty, lemma_trim_digits, occurs_at, parse_u64, push_chars, push_decimal, push_str,
    slice_range, split_char, split_chars, split_once, split_once_str, starts_with, starts_with_str,
    string_from, string_of, trim, trim_chars, u64_text_value, unsigned_digits,
};

verus! {

/// The CSV header offered as a template for the persons import.
pub const PERSONS_CSV_TEMPLATE: &'static str = "name,email,organization,type,status,departure_date,notes\r\n";

/// One entry of the status bar.
pub struct StatusItem {
    pub icon: &'static str,
    pub label: &'static str,
    pub value: String,
    pub value_class: &'static str,
    pub value_url: String,
    pub spinner: bool,
    pub age_timestamp: String,
    pub title: String,
}

/// What the background download worker is doing.
#[derive(Debug, Clone)]
pub enum DownloadState {
    Idle,
    Running { item_name: String, destination: String },
    Complete { item_name: String, destination: String },
    Error { item_name: String, message: String },
}

/// The text the status bar shows for a download state.
pub open spec fn download_status_value(state: DownloadState) -> Seq<char> {
    match state {
        DownloadState::Idle => "Idle"@,
        DownloadState::Running { item_name, .. } => "Downloading "@ + item_name@,
        DownloadState::Complete { item_name, .. } => "Complete: "@ + item_name@,
        DownloadState::Error { item_name, .. } => if item_name@.len() == 0 {
            "Failed"@
        } else {
            "Failed: "@ + item_name@
        },
    }
}

/// The colour class the status bar uses for a download state.
pub open spec fn download_status_class(state: DownloadState) -> Seq<char> {
    match state {
        DownloadState::Idle => "text-body-secondary"@,
        DownloadState::Running { .. } => "text-primary"@,
        DownloadState::Complete { .. } => "text-success"@,
        DownloadState::Error { .. } => "text-danger"@,
    }
}

fn prefixed(prefix: &str, name: &String) -> (result: String)
    ensures
        result@ == prefix@ + name@,
{
    let mut text = chars_of(prefix);
    push_str(&mut text, name.as_str());
    string_of(text.as_slice())
}

/// The status bar entry for the background download.
pub fn build_download_status_item(download_state: &DownloadState) -> (item: StatusItem)
    ensures
        item.icon@ == "bi-download"@,
        item.label@ == "Download"@,
        item.value@ == download_status_value(*download_state),
        item.value_class@ == download_status_class(*download_state),
        item.spinner == (*download_state is Running),
        item.value_url@.len() == 0,
        item.age_timestamp@.len() == 0,
        item.title@.len() == 0,
{
    let (value, value_class, spinner): (String, &'static str, bool) = match download_state {
        DownloadState::Idle => (string_from("Idle"), "text-body-secondary", false),
        DownloadState::Running { item_name, .. } => (
            prefixed("Downloading ", item_name),
            "text-primary",
            true,
        ),
        DownloadState::Complete { item_name, .. } => (
            prefixed("Complete: ", item_name),
            "text-success",
            false,
        ),
        DownloadState::Error { item_name, .. } => {
            let name = chars_of(item_name.as_str());
            let text = if name.len() == 0 {
                string_from("Failed")
            } else {
                prefixed("Failed: ", item_name)
            };
            (text, "text-danger", false)
        },
    };
    StatusItem {
        icon: "bi-download",
        label: "Download",
        value,
        value_class,
        value_url: String::new(),
        spinner,
        age_timestamp: String::new(),
        title: String::new(),
    }
}


/// Which inventories a metadata update was asked to refresh.
#[derive(Debug, Clone, Copy)]
pub struct MetadataUpdateSelection {
    pub my_drive: bool,
    pub shared_drives: bool,
    pub shared_with_me: bool,
    pub directory_info: bool,
}

/// Counters of a metadata update that is under way.
#[derive(Debug, Clone)]
pub struct MetadataProgress {
    pub selection: MetadataUpdateSelection,
    pub phase: String,
    pub files_scanned: u64,
    pub folders_scanned: u64,
    pub permissions_scanned: u64,
    pub bytes_discovered: u64,
    pub errors: u64,
}

/// The outcome of a finished My Drive update.
#[derive(Debug, Clone)]
pub struct MetadataSummary {
    pub completed_at: String,
    pub files_scanned: u64,
    pub folders_scanned: u64,
    pub permissions_scanned: u64,
    pub bytes_discovered: u64,
}

/// Where the metadata inventory stands.
#[derive(Debug, Clone)]
pub enum MetadataState {
    NotSynchronized,
    Updating(MetadataProgress),
    Synchronized(MetadataSummary),
    Error(String),
}

/// The metadata inventory card of the dashboard.
pub struct MetadataView {
    pub available: bool,
    pub poll: bool,
    pub updating: bool,
    pub state_label: String,
    pub state_class: &'static str,
    pub phase: String,
    pub files_scanned: u64,
    pub folders_scanned: u64,
    pub permissions_scanned: u64,
    pub size_label: String,
    pub progress_files_scanned: u64,
    pub progress_folders_scanned: u64,
    pub progress_permissions_scanned: u64,
    pub progress_size_label: String,
    pub errors: u64,
    pub completed_at: String,
    pub shared_drives_indexed: bool,
    pub shared_drives_count: usize,
    pub shared_drives_files_scanned: u64,
    pub shared_drives_folders_scanned: u64,
    pub shared_drives_permissions_scanned: u64,
    pub shared_drives_size_label: String,
    pub shared_drives_completed_at: String,
    pub shared_indexed: bool,
    pub shared_files_scanned: u64,
    pub shared_folders_scanned: u64,
    pub shared_permissions_scanned: u64,
    pub shared_size_label: String,
    pub shared_completed_at: String,
}

/// Files, folders, permissions and bytes of a scan, in that order.
pub type ScanCounts = (u64, u64, u64, u64);

/// The counts of a stored summary, zero where there is none.
pub open spec fn summary_counts(summary: Option<&InventorySummary>) -> ScanCounts {
    match summary {
        Some(s) => (s.files_scanned, s.folders_scanned, s.permissions_scanned, s.bytes_discovered),
        None => (0, 0, 0, 0),
    }
}

/// The completion time of a stored summary, empty where there is none.
pub open spec fn summary_completed(summary: Option<&InventorySummary>) -> Seq<char> {
    match summary {
        Some(s) => s.completed_at@,
        None => Seq::empty(),
    }
}

/// The counts the card leads with: the last complete My Drive inventory,
/// which a running update of any scope does not replace.
pub open spec fn headline_counts(state: MetadataState, my_drive: Option<&InventorySummary>) -> ScanCounts {
    match state {
        MetadataState::NotSynchronized => (0, 0, 0, 0),
        MetadataState::Synchronized(s) => (s.files_scanned, s.folders_scanned, s.permissions_scanned, s.bytes_discovered),
        _ => summary_counts(my_drive),
    }
}

/// The counts of the update in progress, or of the one just finished.
pub open spec fn progress_counts(state: MetadataState) -> ScanCounts {
    match state {
        MetadataState::Updating(p) => (p.files_scanned, p.folders_scanned, p.permissions_scanned, p.bytes_discovered),
        MetadataState::Synchronized(s) => (s.files_scanned, s.folders_scanned, s.permissions_scanned, s.bytes_discovered),
        _ => (0, 0, 0, 0),
    }
}

pub open spec fn state_label(state: MetadataState) -> Seq<char> {
    match state {
        MetadataState::NotSynchronized => "Not synchronized"@,
        MetadataState::Updating(_) => "Updating"@,
        MetadataState::Synchronized(_) => "Synchronized"@,
        MetadataState::Error(_) => "Update failed"@,
    }
}

pub open spec fn state_class(state: MetadataState) -> Seq<char> {
    match state {
        MetadataState::NotSynchronized => "text-bg-warning"@,
        MetadataState::Updating(_) => "text-bg-primary"@,
        MetadataState::Synchronized(_) => "text-bg-success"@,
        MetadataState::Error(_) => "text-bg-danger"@,
    }
}

pub open spec fn state_phase(state: MetadataState) -> Seq<char> {
    match state {
        MetadataState::NotSynchronized => "No metadata inventory has been created yet."@,
        MetadataState::Updating(p) => p.phase@,
        MetadataState::Synchronized(_) => "My Drive inventory is current as of the completed update."@,
        MetadataState::Error(message) => message@,
    }
}

pub open spec fn state_errors(state: MetadataState) -> u64 {
    match state {
        MetadataState::Updating(p) => p.errors,
        MetadataState::Error(_) => 1,
        _ => 0,
    }
}

pub open spec fn state_completed(state: MetadataState, my_drive: Option<&InventorySummary>) -> Seq<char> {
    match state {
        MetadataState::NotSynchronized => Seq::empty(),
        MetadataState::Synchronized(s) => s.completed_at@,
        _ => summary_completed(my_drive),
    }
}

fn counts_of(summary: Option<&InventorySummary>) -> (result: (u64, u64, u64, u64, String))
    ensures
        (result.0, result.1, result.2, result.3) == summary_counts(summary),
        result.4@ == summary_completed(summary),
{
    match summary {
        Some(s) => (s.files_scanned, s.folders_scanned, s.permissions_scanned, s.bytes_discovered, s.completed_at.clone()),
        None => (0, 0, 0, 0, String::new()),
    }
}

/// Builds the metadata card from the update state and the stored summaries
/// of My Drive, Shared with me and the Shared Drives.
pub fn build_metadata_view(
    state: &MetadataState,
    available: bool,
    poll_for_setup: bool,
    my_drive_summary: Option<&InventorySummary>,
    shared_summary: Option<&InventorySummary>,
    shared_drives_summary: Option<&InventorySummary>,
    shared_drives_count: usize,
) -> (view: MetadataView)
    ensures
        view.available == available,
        view.poll == (*state is Updating || poll_for_setup),
        view.updating == (*state is Updating),
        view.state_label@ == state_label(*state),
        view.state_class@ == state_class(*state),
        view.phase@ == state_phase(*state),
        (view.files_scanned, view.folders_scanned, view.permissions_scanned)
            == ({
                let c = headline_counts(*state, my_drive_summary);
                (c.0, c.1, c.2)
            }),
        view.size_label@ == size_text(headline_counts(*state, my_drive_summary).3 as nat),
        (view.progress_files_scanned, view.progress_folders_scanned, view.progress_permissions_scanned)
            == ({
                let c = progress_counts(*state);
                (c.0, c.1, c.2)
            }),
        view.progress_size_label@ == size_text(progress_counts(*state).3 as nat),
        view.errors == state_errors(*state),
        view.completed_at@ == state_completed(*state, my_drive_summary),
        view.shared_drives_indexed == shared_drives_summary.is_some(),
        view.shared_drives_count == shared_drives_count,
        (view.shared_drives_files_scanned, view.shared_drives_folders_scanned, view.shared_drives_permissions_scanned)
            == ({
                let c = summary_counts(shared_drives_summary);
                (c.0, c.1, c.2)
            }),
        view.shared_drives_size_label@ == size_text(summary_counts(shared_drives_summary).3 as nat),
        view.shared_drives_completed_at@ == summary_completed(shared_drives_summary),
        view.shared_indexed == shared_summary.is_some(),
        (view.shared_files_scanned, view.shared_folders_scanned, view.shared_permissions_scanned)
            == ({
                let c = summary_counts(shared_summary);
                (c.0, c.1, c.2)
            }),
        view.shared_size_label@ == size_text(summary_counts(shared_summary).3 as nat),
        view.shared_completed_at@ == summary_completed(shared_summary),
{
    let my_drive = counts_of(my_drive_summary);
    let shared = counts_of(shared_summary);
    let drives = counts_of(shared_drives_summary);
    let (updating, label, class, phase, headline, headline_completed, progress, errors): (
        bool,
        &str,
        &'static str,
        String,
        (u64, u64, u64, u64),
        String,
        (u64, u64, u64, u64),
        u64,
    ) = match state {
        MetadataState::NotSynchronized => (
            false,
            "Not synchronized",
            "text-bg-warning",
            string_from("No metadata inventory has been created yet."),
            (0, 0, 0, 0),
            String::new(),
            (0, 0, 0, 0),
            0,
        ),
        MetadataState::Updating(p) => (
            true,
            "Updating",
            "text-bg-primary",
            p.phase.clone(),
            (my_drive.0, my_drive.1, my_drive.2, my_drive.3),
            my_drive.4.clone(),
            (p.files_scanned, p.folders_scanned, p.permissions_scanned, p.bytes_discovered),
            p.errors,
        ),
        MetadataState::Synchronized(s) => (
            false,
            "Synchronized",
            "text-bg-success",
            string_from("My Drive inventory is current as of the completed update."),
            (s.files_scanned, s.folders_scanned, s.permissions_scanned, s.bytes_discovered),
            s.completed_at.clone(),
            (s.files_scanned, s.folders_scanned, s.permissions_scanned, s.bytes_discovered),
            0,
        ),
        MetadataState::Error(message) => (
            false,
            "Update failed",
            "text-bg-danger",
            message.clone(),
            (my_drive.0, my_drive.1, my_drive.2, my_drive.3),
            my_drive.4.clone(),
            (0, 0, 0, 0),
            1,
        ),
    };
    MetadataView {
        available,
        poll: updating || poll_for_setup,
        updating,
        state_label: string_from(label),
        state_class: class,
        phase,
        files_scanned: headline.0,
        folders_scanned: headline.1,
        permissions_scanned: headline.2,
        size_label: format_bytes(headline.3),
        progress_files_scanned: progress.0,
        progress_folders_scanned: progress.1,
        progress_permissions_scanned: progress.2,
        progress_size_label: format_bytes(progress.3),
        errors,
        completed_at: headline_completed,
        shared_drives_indexed: shared_drives_summary.is_some(),
        shared_drives_count,
        shared_drives_files_scanned: drives.0,
        shared_drives_folders_scanned: drives.1,
        shared_drives_permissions_scanned: drives.2,
        shared_drives_size_label: format_bytes(drives.3),
        shared_drives_completed_at: drives.4,
        shared_indexed: shared_summary.is_some(),
        shared_files_scanned: shared.0,
        shared_folders_scanned: shared.1,
        shared_permissions_scanned: shared.2,
        shared_size_label: format_bytes(shared.3),
        shared_completed_at: shared.4,
    }
}

/// Progress of one scope of a metadata update, as the dashboard draws it.
pub struct MetadataScopeProgressView {
    pub name: &'static str,
    pub selected: bool,
    pub active: bool,
    pub complete: bool,
    pub status: String,
    pub percent: u8,
    pub elapsed_label: String,
    pub estimate_label: String,
}

/// The scopes of an update, in the order the dashboard lists them.
pub open spec fn scope_name(k: int) -> Seq<char> {
    if k == 0 {
        "Persons"@
    } else if k == 1 {
        "My Drive"@
    } else if k == 2 {
        "Shared with me"@
    } else {
        "Shared Drives"@
    }
}

/// The scan type under which a scope's past updates are timed (none for Persons).
pub open spec fn scope_scan_type(k: int) -> Seq<char> {
    if k == 0 {
        Seq::empty()
    } else if k == 1 {
        "my-drive"@
    } else if k == 2 {
        "shared-with-me"@
    } else {
        "shared-drives"@
    }
}

pub open spec fn scope_selected(selection: MetadataUpdateSelection, k: int) -> bool {
    if k == 0 {
        selection.directory_info
    } else if k == 1 {
        selection.my_drive
    } else if k == 2 {
        selection.shared_with_me
    } else {
        selection.shared_drives
    }
}

pub open spec fn scan_drive_prefix() -> Seq<char> {
    "Scanning Shared Drive "@
}

/// The `current` and `total` of a phase `Scanning Shared Drive current of total: name`,
/// when both parse and the total is positive.
pub open spec fn scan_position(phase: Seq<char>) -> Option<(nat, nat)> {
    let rest = phase.subrange(scan_drive_prefix().len() as int, phase.len() as int);
    match split_once(rest, " of "@) {
        Some((current, tail)) => match (u64_text_value(trim(split_char(tail, ':')[0])), u64_text_value(trim(current))) {
            (Some(total), Some(at)) => if total > 0 {
                Some((at, total))
            } else {
                None
            },
            _ => None,
        },
        None => None,
    }
}

/// A run of digits holds no space.
proof fn lemma_digits_have_no(s: Seq<char>, c: char)
    requires
        all_digits(s),
        !is_ascii_digit(c),
    ensures
        !s.contains(c),
{
    if s.contains(c) {
        let i = choose|i: int| 0 <= i < s.len() && s[i] == c;
        assert(is_ascii_digit(s[i]));
    }
}

/// Where ` of ` first occurs after a run of digits.
proof fn lemma_first_of(d: Seq<char>, rest: Seq<char>)
    requires
        all_digits(d),
    ensures
        first_position(d + " of "@ + rest, " of "@) == Some(d.len() as int),
{
    reveal_strlit(" of ");
    let s = d + " of "@ + rest;
    let p = " of "@;
    assert(s.subrange(d.len() as int, d.len() as int + 4) =~= p);
    assert(occurs_at(s, p, d.len() as int));
    assert forall|j: int| 0 <= j < d.len() implies !occurs_at(s, p, j) by {
        assert(is_ascii_digit(d[j]));
        if occurs_at(s, p, j) {
            assert(s.subrange(j, j + 4)[0] == p[0]);
        }
    }
    assert(first_occurrence(s, p, d.len() as int));
    let k = choose|k: int| first_occurrence(s, p, k);
    lemma_first_occurrence_unique(s, p, k, d.len() as int);
}

/// The number a digit run of a count's decimal text reads back as.
proof fn lemma_count_reads_back(n: nat)
    requires
        n <= u64::MAX,
    ensures
        u64_text_value(trim(decimal(n))) == Some(n),
{
    lemma_decimal_digits(n);
    lemma_trim_digits(decimal(n));
    assert(is_ascii_digit(decimal(n)[0]));
    assert(unsigned_digits(decimal(n)) == decimal(n));
}

/// The progress of the Shared Drives scope read from a scanning phase is
/// the position that phase announces: `Scanning Shared Drive i of n: name`
/// reads back as drive `i` of `n`, whatever the drive is called.
pub proof fn law_scan_phase_round_trip(index: nat, count: nat, name: Seq<char>)
    requires
        index < count,
        count <= u32::MAX,
    ensures
        scan_position(crate::metadata::drive_phase(scan_drive_prefix(), index, count, name)) == Some(
            (index + 1, count),
        ),
        shared_drive_percent(crate::metadata::drive_phase(scan_drive_prefix(), index, count, name)) == if 10 + ((
        index + 1) * 80) as int / (count as int) <= 90 {
            (10 + ((index + 1) * 80) as int / (count as int)) as nat
        } else {
            90nat
        },
{
    reveal_strlit("Scanning Shared Drive ");
    reveal_strlit(" of ");
    reveal_strlit(": ");
    let at = decimal(index + 1);
    let total = decimal(count);
    let phase = crate::metadata::drive_phase(scan_drive_prefix(), index, count, name);
    let rest = phase.subrange(scan_drive_prefix().len() as int, phase.len() as int);
    let tail = total + ": "@ + name;
    assert(rest =~= at + " of "@ + tail);
    lemma_decimal_digits(index + 1);
    lemma_decimal_digits(count);
    lemma_first_of(at, tail);
    assert(rest.subrange(0, at.len() as int) =~= at);
    assert(rest.subrange(at.len() as int + 4, rest.len() as int) =~= tail);
    assert(split_once(rest, " of "@) == Some((at, tail)));
    lemma_digits_have_no(total, ':');
    assert(tail =~= total.push(':') + (seq![' '] + name));
    lemma_split_first_piece(total, ':', seq![' '] + name);
    lemma_count_reads_back(index + 1);
    lemma_count_reads_back(count);
    assert(starts_with(phase, scan_drive_prefix())) by {
        assert(phase.subrange(0, scan_drive_prefix().len() as int) =~= scan_drive_prefix());
    }
    assert((index + 1) * 80 <= u64::MAX) by (nonlinear_arith)
        requires
            index + 1 <= count,
            count <= u32::MAX,
    ;
}

/// How far the Shared Drives scope has come, from the phase text alone.
pub open spec fn shared_drive_percent(phase: Seq<char>) -> nat {
    if starts_with(phase, scan_drive_prefix()) {
        match scan_position(phase) {
            Some((at, total)) => {
                let scaled: int = if at * 80 <= u64::MAX { (at * 80) as int } else { u64::MAX as int };
                if 10 + scaled / (total as int) <= 90 {
                    (10 + scaled / (total as int)) as nat
                } else {
                    90
                }
            },
            None => 45,
        }
    } else {
        20
    }
}

/// Phases that come before any Drive scope is fetched.
pub open spec fn directory_phase(phase: Seq<char>) -> bool {
    phase == "Downloading directory spreadsheet"@ || phase == "Importing directory spreadsheet"@
}

pub open spec fn waiting() -> (bool, bool, nat, Seq<char>) {
    (false, false, 0, "Waiting"@)
}

pub open spec fn done() -> (bool, bool, nat, Seq<char>) {
    (false, true, 100, "Complete"@)
}

/// Active, complete, percent and status of scope `k` during `phase`,
/// before the selection and the timing are taken into account.
pub open spec fn scope_phase_state(k: int, phase: Seq<char>) -> (bool, bool, nat, Seq<char>) {
    if k == 0 {
        if directory_phase(phase) {
            (true, false, if starts_with(phase, "Downloading"@) { 40 } else { 80 }, phase)
        } else if phase == "Connecting"@ {
            waiting()
        } else {
            done()
        }
    } else if k == 1 {
        if phase == "Fetching My Drive metadata"@ {
            (true, false, 40, phase)
        } else if phase == "Indexing My Drive metadata"@ {
            (true, false, 85, phase)
        } else if phase == "Connecting"@ || directory_phase(phase) {
            waiting()
        } else {
            done()
        }
    } else if k == 2 {
        if phase == "Fetching Shared with me metadata"@ {
            (true, false, 45, phase)
        } else if phase == "Indexing Shared with me metadata"@ {
            (true, false, 85, phase)
        } else if phase == "Connecting"@ || directory_phase(phase) || phase
            == "Fetching My Drive metadata"@ || phase == "Indexing My Drive metadata"@ {
            waiting()
        } else {
            done()
        }
    } else {
        if phase == "Discovering Shared Drives"@ || starts_with(phase, "Fetching Shared Drive managers "@)
            || starts_with(phase, scan_drive_prefix()) {
            (true, false, shared_drive_percent(phase), phase)
        } else {
            waiting()
        }
    }
}

/// The share of the average duration already spent, capped at 95.
pub open spec fn time_percent(t: ScanTimingEstimate) -> nat {
    let scaled: int = if t.elapsed_seconds * 100 <= u64::MAX { t.elapsed_seconds * 100 } else { u64::MAX as int };
    let average: int = if t.average_seconds >= 1 { t.average_seconds as int } else { 1 };
    if scaled / average <= 95 {
        (scaled / average) as nat
    } else {
        95
    }
}

pub open spec fn elapsed_text(timing: Option<ScanTimingEstimate>, active: bool) -> Seq<char> {
    match timing {
        Some(t) => duration_text(t.elapsed_seconds as nat) + " elapsed"@,
        None => if active {
            "Timing this update…"@
        } else {
            Seq::empty()
        },
    }
}

pub open spec fn estimate_text(timing: Option<ScanTimingEstimate>) -> Seq<char> {
    match timing {
        Some(t) => "about "@ + duration_text(t.average_seconds as nat) + " average from "@ + decimal(
            t.sample_count as nat,
        ) + " update"@ + if t.sample_count == 1 {
            Seq::empty()
        } else {
            "s"@
        },
        None => Seq::empty(),
    }
}

/// What scope `k` of `progress` shows, given the timing looked up for it.
pub open spec fn scope_view_is(
    view: MetadataScopeProgressView,
    progress: MetadataProgress,
    k: int,
    looked_up: Option<ScanTimingEstimate>,
) -> bool {
    let selected = scope_selected(progress.selection, k);
    let base = scope_phase_state(k, progress.phase@);
    let state = if selected { base } else { (false, false, 0nat, "Not requested"@) };
    let timing = if selected && scope_scan_type(k).len() > 0 { looked_up } else { None };
    let percent = match timing {
        Some(t) => if state.0 && time_percent(t) > state.2 { time_percent(t) } else { state.2 },
        None => state.2,
    };
    &&& view.name@ == scope_name(k)
    &&& view.selected == selected
    &&& view.active == state.0
    &&& view.complete == state.1
    &&& view.percent == percent
    &&& view.status@ == state.3
    &&& view.elapsed_label@ == elapsed_text(timing, state.0)
    &&& view.estimate_label@ == estimate_text(timing)
}

/// The views of every scope of `state`, given the timing looked up for each.
pub open spec fn scope_views_are(
    views: Seq<MetadataScopeProgressView>,
    state: MetadataState,
    timings: Seq<Option<ScanTimingEstimate>>,
) -> bool {
    match state {
        MetadataState::Updating(progress) => views.len() == 4 && forall|k: int|
            0 <= k < 4 ==> #[trigger] scope_view_is(views[k], progress, k, timings[k]),
        _ => views.len() == 0,
    }
}

fn phase_is(phase: &[char], text: &str) -> (result: bool)
    ensures
        result == (phase@ == text@),
{
    equals_str(phase, text)
}

fn shared_drive_progress(phase: &[char]) -> (result: u8)
    ensures
        result == shared_drive_percent(phase@),
{
    if !starts_with_str(phase, "Scanning Shared Drive ") {
        return 20;
    }
    let prefix = chars_of("Scanning Shared Drive ");
    let rest = slice_range(phase, prefix.len(), phase.len());
    match split_once_str(rest.as_slice(), " of ") {
        None => 45,
        Some((current, tail)) => {
            let pieces = split_chars(tail.as_slice(), ':');
            proof {
                lemma_split_nonempty(tail@, ':');
            }
            let total_text = trim_chars(pieces[0].as_slice());
            let at_text = trim_chars(current.as_slice());
            match (parse_u64(total_text.as_slice()), parse_u64(at_text.as_slice())) {
                (Some(total), Some(at)) => {
                    if total == 0 {
                        45
                    } else {
                        let scaled: u64 = match at.checked_mul(80) {
                            Some(x) => x,
                            None => u64::MAX,
                        };
                        let share = scaled / total;
                        if share >= 80 {
                            90
                        } else {
                            (10 + share) as u8
                        }
                    }
                },
                _ => 45,
            }
        },
    }
}

fn scope_state(k: usize, phase: &[char]) -> (result: (bool, bool, u8, String))
    requires
        k < 4,
    ensures
        ({
            let s = scope_phase_state(k as int, phase@);
            result.0 == s.0 && result.1 == s.1 && result.2 as nat == s.2 && result.3@ == s.3
        }),
{
    let downloading = phase_is(phase, "Downloading directory spreadsheet");
    let directory = downloading || phase_is(phase, "Importing directory spreadsheet");
    let connecting = phase_is(phase, "Connecting");
    let current = string_of(phase);
    if k == 0 {
        if directory {
            let percent: u8 = if starts_with_str(phase, "Downloading") { 40 } else { 80 };
            (true, false, percent, current)
        } else if connecting {
            (false, false, 0, string_from("Waiting"))
        } else {
            (false, true, 100, string_from("Complete"))
        }
    } else if k == 1 {
        if phase_is(phase, "Fetching My Drive metadata") {
            (true, false, 40, current)
        } else if phase_is(phase, "Indexing My Drive metadata") {
            (true, false, 85, current)
        } else if connecting || directory {
            (false, false, 0, string_from("Waiting"))
        } else {
            (false, true, 100, string_from("Complete"))
        }
    } else if k == 2 {
        if phase_is(phase, "Fetching Shared with me metadata") {
            (true, false, 45, current)
        } else if phase_is(phase, "Indexing Shared with me metadata") {
            (true, false, 85, current)
        } else if connecting || directory || phase_is(phase, "Fetching My Drive metadata")
            || phase_is(phase, "Indexing My Drive metadata") {
            (false, false, 0, string_from("Waiting"))
        } else {
            (false, true, 100, string_from("Complete"))
        }
    } else {
        if phase_is(phase, "Discovering Shared Drives") || starts_with_str(
            phase,
            "Fetching Shared Drive managers ",
        ) || starts_with_str(phase, "Scanning Shared Drive ") {
            (true, false, shared_drive_progress(phase), current)
        } else {
            (false, false, 0, string_from("Waiting"))
        }
    }
}

fn scope_name_of(k: usize) -> (result: &'static str)
    requires
        k < 4,
    ensures
        result@ == scope_name(k as int),
{
    if k == 0 {
        "Persons"
    } else if k == 1 {
        "My Drive"
    } else if k == 2 {
        "Shared with me"
    } else {
        "Shared Drives"
    }
}

fn scope_scan_type_of(k: usize) -> (result: &'static str)
    requires
        k < 4,
    ensures
        result@ == scope_scan_type(k as int),
{
    if k == 0 {
        proof {
            reveal_strlit("");
        }
        ""
    } else if k == 1 {
        "my-drive"
    } else if k == 2 {
        "shared-with-me"
    } else {
        "shared-drives"
    }
}

fn scope_selected_of(selection: MetadataUpdateSelection, k: usize) -> (result: bool)
    requires
        k < 4,
    ensures
        result == scope_selected(selection, k as int),
{
    if k == 0 {
        selection.directory_info
    } else if k == 1 {
        selection.my_drive
    } else if k == 2 {
        selection.shared_with_me
    } else {
        selection.shared_drives
    }
}

fn timing_percent(t: &ScanTimingEstimate) -> (result: u8)
    ensures
        result as nat == time_percent(*t),
{
    let scaled: u64 = match t.elapsed_seconds.checked_mul(100) {
        Some(x) => x,
        None => u64::MAX,
    };
    let average: u64 = if t.average_seconds >= 1 { t.average_seconds } else { 1 };
    let share = scaled / average;
    if share <= 95 {
        share as u8
    } else {
        95
    }
}

fn elapsed_label(timing: Option<ScanTimingEstimate>, active: bool) -> (result: String)
    ensures
        result@ == elapsed_text(timing, active),
{
    match timing {
        Some(t) => {
            let mut text = chars_of(format_duration(t.elapsed_seconds).as_str());
            push_str(&mut text, " elapsed");
            string_of(text.as_slice())
        },
        None => if active {
            string_from("Timing this update…")
        } else {
            String::new()
        },
    }
}

fn estimate_label(timing: Option<ScanTimingEstimate>) -> (result: String)
    ensures
        result@ == estimate_text(timing),
{
    match timing {
        Some(t) => {
            let mut text = chars_of("about ");
            push_str(&mut text, format_duration(t.average_seconds).as_str());
            push_str(&mut text, " average from ");
            push_decimal(&mut text, t.sample_count);
            push_str(&mut text, " update");
            if t.sample_count != 1 {
                push_str(&mut text, "s");
            }
            proof {
                if t.sample_count == 1 {
                    assert(text@ =~= estimate_text(timing));
                }
            }
            string_of(text.as_slice())
        },
        None => String::new(),
    }
}

/// The progress of each scope of a running update, given the timing that
/// was looked up for each scope (`timings[k]` for the scope listed `k`th).
/// Outside an update there is nothing to show.
pub fn scope_progress_views(state: &MetadataState, timings: &[Option<ScanTimingEstimate>]) -> (views: Vec<
    MetadataScopeProgressView,
>)
    requires
        timings@.len() == 4,
    ensures
        scope_views_are(views@, *state, timings@),
{
    let progress = match state {
        MetadataState::Updating(progress) => progress,
        _ => {
            return Vec::new();
        },
    };
    let phase = chars_of(progress.phase.as_str());
    let mut views: Vec<MetadataScopeProgressView> = Vec::new();
    let mut k: usize = 0;
    while k < 4
        invariant
            k <= 4,
            timings@.len() == 4,
            phase@ == progress.phase@,
            *state == MetadataState::Updating(*progress),
            views@.len() == k,
            forall|j: int| 0 <= j < k ==> #[trigger] scope_view_is(views@[j], *progress, j, timings@[j]),
        decreases 4 - k,
    {
        let selected = scope_selected_of(progress.selection, k);
        let (mut active, mut complete, mut percent, mut status) = scope_state(k, phase.as_slice());
        if !selected {
            active = false;
            complete = false;
            percent = 0;
            status = string_from("Not requested");
        }
        let scan_type = scope_scan_type_of(k);
        let timing: Option<ScanTimingEstimate> = if selected && chars_of(scan_type).len() > 0 {
            timings[k]
        } else {
            None
        };
        if active {
            if let Some(t) = &timing {
                let time_share = timing_percent(t);
                if time_share > percent {
                    percent = time_share;
                }
            }
        }
        let view = MetadataScopeProgressView {
            name: scope_name_of(k),
            selected,
            active,
            complete,
            status,
            percent,
            elapsed_label: elapsed_label(timing, active),
            estimate_label: estimate_label(timing),
        };
        views.push(view);
        k = k + 1;
    }
    views
}

/// The progress of each scope of a running update, with the durations of
/// past updates read from the database where it is available.  Which
/// timings the database holds is not known here: the contract says what
/// holds for whatever it returned.
pub fn metadata_scope_progress_views(database: Option<&Database>, state: &MetadataState) -> (views: Vec<
    MetadataScopeProgressView,
>)
    ensures
        exists|timings: Seq<Option<ScanTimingEstimate>>|
            {
                &&& #[trigger] scope_views_are(views@, *state, timings)
                &&& timings.len() == 4
                &&& (database is None ==> forall|k: int| 0 <= k < 4 ==> #[trigger] timings[k] is None)
            },
{
    let mut timings: Vec<Option<ScanTimingEstimate>> = Vec::new();
    let mut k: usize = 0;
    while k < 4
        invariant
            k <= 4,
            timings@.len() == k,
            database is None ==> forall|j: int| 0 <= j < k ==> #[trigger] timings@[j] is None,
        decreases 4 - k,
    {
        let timing = match database {
            Some(db) => {
                let scan_type = scope_scan_type_of(k);
                if chars_of(scan_type).len() > 0 {
                    match scan_timing_estimate(db, scan_type) {
                        Ok(found) => found,
                        Err(_) => None,
                    }
                } else {
                    None
                }
            },
            None => None,
        };
        timings.push(timing);
        k = k + 1;
    }
    let views = scope_progress_views(state, timings.as_slice());
    assert(timings@.len() == 4);
    views
}

/// Whether a reply to the instance probe comes from a running BOREAL: a
/// `200` status line of HTTP/1.1 or HTTP/1.0, and a body that starts with
/// `BOREAL` right after the blank line.
pub open spec fn is_instance_reply(response: Seq<char>) -> bool {
    (starts_with(response, "HTTP/1.1 200"@) || starts_with(response, "HTTP/1.0 200"@))
        && contains_seq(response, "\r\n\r\nBOREAL"@)
}

/// Recognises the reply of another running BOREAL instance.
pub fn is_boreal_instance_response(response: &str) -> (result: bool)
    ensures
        result == is_instance_reply(response@),
{
    let text = chars_of(response);
    let status_ok = starts_with_str(text.as_slice(), "HTTP/1.1 200") || starts_with_str(
        text.as_slice(),
        "HTTP/1.0 200",
    );
    if !status_ok {
        return false;
    }
    let marker = chars_of("\r\n\r\nBOREAL");
    find_seq(text.as_slice(), marker.as_slice()).is_some()
}

} // verus!
