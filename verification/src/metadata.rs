//! The decisions of a metadata update: who may start one, what it will do,
//! the order of its steps (`metadata_update_step`), how its progress reads
//! (`update_progress`), and what state it leaves behind.  The program around
//! the library runs the update: it does each action the step function names
//! (the Rclone listings and the database writes) and reports the outcome
//! back as the next event.
use vstd::prelude::*;

use crate::database::inventory::InventorySummary;
use crate::database::settings::InventorySettings;
use crate::database::{Database, DatabaseError};
use crate::rclone::remotes::RemoteState;
use crate::rclone::RcloneStatus;
use crate::text::{chars_of, decimal, push_decimal, push_str, string_from, string_of, trim};
use crate::views::{MetadataProgress, MetadataState, MetadataSummary, MetadataUpdateSelection};

verus! {

/// Where the private Rclone stands.
#[derive(Debug, Clone)]
pub enum RcloneState {
    Initializing,
    Ready(RcloneStatus),
    Error(String),
}

/// The Google OAuth client BOREAL was given.
#[derive(Debug, Clone)]
pub struct GoogleClientConfig {
    pub client_id: String,
    pub client_secret: String,
    pub project_id: Option<String>,
}

/// Whether a Google OAuth client is configured.
#[derive(Debug, Clone)]
pub enum GoogleClientState {
    NotConfigured,
    Ready(GoogleClientConfig),
    Error(String),
}

/// Whether the database could be opened at startup.
#[derive(Clone)]
pub enum DatabaseState {
    Ready(Database),
    Error(String),
}

/// The states of the read-write and read-only Google remotes.
#[derive(Debug, Clone)]
pub struct GoogleRemotesState {
    pub rw: RemoteState,
    pub ro: RemoteState,
}

/// The guard that lets one metadata update run at a time.
#[derive(Debug)]
pub struct MetadataJob {
    active: bool,
}

impl MetadataJob {
    pub closed spec fn is_active(&self) -> bool {
        self.active
    }

    /// No update is running.
    pub fn new() -> (job: MetadataJob)
        ensures
            !job.is_active(),
    {
        MetadataJob { active: false }
    }

    pub fn active(&self) -> (result: bool)
        ensures
            result == self.is_active(),
    {
        self.active
    }

    /// Claims the guard: succeeds, and holds it, exactly when no update runs.
    pub fn try_begin(&mut self) -> (started: bool)
        ensures
            started == !old(self).is_active(),
            final(self).is_active(),
    {
        if self.active {
            false
        } else {
            self.active = true;
            true
        }
    }

    /// Releases the guard when an update ends or fails to start.
    pub fn finish(&mut self)
        ensures
            !final(self).is_active(),
    {
        self.active = false;
    }
}

/// Whether any source was selected.
pub open spec fn any_selected(s: MetadataUpdateSelection) -> bool {
    s.my_drive || s.shared_drives || s.shared_with_me || s.directory_info
}

/// What an accepted update will do.
#[derive(Debug, Clone)]
pub struct UpdatePlan {
    pub selection: MetadataUpdateSelection,
    pub rclone_path: String,
    pub directory_sheet_url: Option<String>,
    pub permission_scanning: bool,
}

/// The linked directory sheet an update reads: the trimmed URL, when
/// directory information was asked for, the link is enabled and the URL is
/// not blank.
pub open spec fn sheet_to_read(selection: MetadataUpdateSelection, settings: InventorySettings) -> Option<
    Seq<char>,
> {
    if selection.directory_info && settings.directory_sheet_enabled && trim(settings.directory_sheet_url@).len()
        > 0 {
        Some(trim(settings.directory_sheet_url@))
    } else {
        None
    }
}

/// The reason an update cannot start, checked in this order, if any.
pub open spec fn refusal(
    selection: MetadataUpdateSelection,
    already_running: bool,
    database: Result<(), Seq<char>>,
    rclone: RcloneState,
    settings: Result<InventorySettings, Seq<char>>,
) -> Option<Seq<char>> {
    if !any_selected(selection) {
        Some("Select at least one metadata source"@)
    } else if already_running {
        Some("A metadata update is already running"@)
    } else if database is Err {
        Some(database->Err_0)
    } else if !(rclone is Ready) {
        Some("Rclone is not ready"@)
    } else if settings is Err {
        Some(settings->Err_0)
    } else if selection.directory_info && sheet_to_read(selection, settings->Ok_0) is None {
        Some("Directory Info requires a configured directory spreadsheet URL"@)
    } else {
        None
    }
}

/// Decides whether a metadata update may start, claiming the job guard when
/// it may.  `database` is the database's availability (its error message
/// when it could not be opened) and `settings` the stored settings or the
/// message of the failure to load them.
pub fn plan_metadata_update(
    selection: MetadataUpdateSelection,
    job: &mut MetadataJob,
    database: Result<(), String>,
    rclone: &RcloneState,
    settings: Result<InventorySettings, String>,
    permission_scanning: bool,
) -> (result: Result<UpdatePlan, String>)
    ensures
        ({
            let db = match database {
                Ok(()) => Ok::<(), Seq<char>>(()),
                Err(m) => Err(m@),
            };
            let st = match settings {
                Ok(s) => Ok::<InventorySettings, Seq<char>>(s),
                Err(m) => Err(m@),
            };
            match refusal(selection, old(job).is_active(), db, *rclone, st) {
                Some(message) => result matches Err(m) && m@ == message,
                None => result matches Ok(plan) && plan.selection == selection && plan.permission_scanning
                    == permission_scanning && (*rclone matches RcloneState::Ready(status) && plan.rclone_path@
                    == status.path@) && (match sheet_to_read(selection, st->Ok_0) {
                    Some(url) => plan.directory_sheet_url matches Some(u) && u@ == url,
                    None => plan.directory_sheet_url is None,
                }),
            }
        }),
        !any_selected(selection) || old(job).is_active() ==> final(job).is_active() == old(job).is_active(),
        any_selected(selection) && !old(job).is_active() ==> final(job).is_active() == (result is Ok),
{
    if !(selection.my_drive || selection.shared_drives || selection.shared_with_me || selection.directory_info) {
        return Err(string_from("Select at least one metadata source"));
    }
    if !job.try_begin() {
        return Err(string_from("A metadata update is already running"));
    }
    if let Err(message) = database {
        job.finish();
        return Err(message);
    }
    let rclone_path = match rclone {
        RcloneState::Ready(status) => status.path.clone(),
        _ => {
            job.finish();
            return Err(string_from("Rclone is not ready"));
        },
    };
    let settings = match settings {
        Ok(s) => s,
        Err(message) => {
            job.finish();
            return Err(message);
        },
    };
    let url = crate::text::trim_str(settings.directory_sheet_url.as_str());
    let directory_sheet_url = if selection.directory_info && settings.directory_sheet_enabled && url.len() > 0 {
        Some(string_of(url.as_slice()))
    } else {
        None
    };
    if selection.directory_info && directory_sheet_url.is_none() {
        job.finish();
        return Err(string_from("Directory Info requires a configured directory spreadsheet URL"));
    }
    Ok(UpdatePlan { selection, rclone_path, directory_sheet_url, permission_scanning })
}

/// The scan runs an update opens: one per selected Drive scope, numbered
/// by the database (zero for a scope not selected).
#[derive(Debug, Clone, Copy)]
pub struct ScanRuns {
    pub my_drive: i64,
    pub shared_with_me: i64,
    pub shared_drives: i64,
}

/// Opens the scan runs of the selected scopes, in the order My Drive,
/// Shared with me, Shared Drives.  When one cannot be opened, those opened
/// before it are marked failed with the same error, and the error is
/// returned.
pub fn start_scan_runs(database: &mut Database, selection: MetadataUpdateSelection) -> (result: Result<
    ScanRuns,
    DatabaseError,
>)
    ensures
        result matches Ok(runs) ==> (!selection.my_drive ==> runs.my_drive == 0) && (!selection.shared_with_me
            ==> runs.shared_with_me == 0) && (!selection.shared_drives ==> runs.shared_drives == 0),
        result matches Err(e) ==> e is Storage,
        !selection.my_drive && !selection.shared_with_me && !selection.shared_drives ==> (result matches Ok(
            runs,
        ) && runs.my_drive == 0 && runs.shared_with_me == 0 && runs.shared_drives == 0),
        result is Ok ==> crate::database::sent_after(
            old(database).sent(),
            final(database).sent(),
            scan_types(selection).len() as int,
        ) && forall|k: int|
            0 <= k < scan_types(selection).len() ==> crate::database::scan_started(
                #[trigger] final(database).sent()[old(database).sent().len() + k],
                scan_types(selection)[k],
            ),
{
    let ghost before = database.sent();
    assert(before.subrange(0, before.len() as int) =~= before);
    let my_drive = if selection.my_drive {
        database.start_scan_run("my-drive")?
    } else {
        0
    };
    let ghost first = database.sent();
    let shared_with_me = if selection.shared_with_me {
        match database.start_scan_run("shared-with-me") {
            Ok(id) => id,
            Err(e) => {
                let message = e.message();
                let _ = database.fail_scan_run(my_drive, message.as_str());
                return Err(e);
            },
        }
    } else {
        0
    };
    let ghost second = database.sent();
    let shared_drives = if selection.shared_drives {
        match database.start_scan_run("shared-drives") {
            Ok(id) => id,
            Err(e) => {
                let message = e.message();
                let _ = database.fail_scan_run(my_drive, message.as_str());
                let _ = database.fail_scan_run(shared_with_me, message.as_str());
                return Err(e);
            },
        }
    } else {
        0
    };
    proof {
        let a = if selection.my_drive { 1int } else { 0int };
        let b = if selection.shared_with_me { 1int } else { 0int };
        let c = if selection.shared_drives { 1int } else { 0int };
        let after = database.sent();
        let n = before.len() as int;
        reveal_strlit("my-drive");
        reveal_strlit("shared-with-me");
        reveal_strlit("shared-drives");
        assert(crate::database::sent_after(before, first, a)) by {
            if !selection.my_drive {
                assert(first.subrange(0, n) =~= before);
            }
        }
        assert(crate::database::sent_after(first, second, b)) by {
            if !selection.shared_with_me {
                assert(second.subrange(0, first.len() as int) =~= first);
            }
        }
        assert(crate::database::sent_after(second, after, c)) by {
            if !selection.shared_drives {
                assert(after.subrange(0, second.len() as int) =~= second);
            }
        }
        crate::database::lemma_sent_chain(before, first, second, a, b);
        crate::database::lemma_sent_chain(before, second, after, a + b, c);
        let types = scan_types(selection);
        assert forall|k: int| 0 <= k < types.len() implies crate::database::scan_started(
            #[trigger] after[n + k],
            types[k],
        ) by {
            if k < a {
                assert(after[n + k] == second[n + k]);
                assert(second[n + k] == first[n + k]);
            } else if k < a + b {
                assert(after[n + k] == second[n + k]);
            }
        }
    }
    Ok(ScanRuns { my_drive, shared_with_me, shared_drives })
}

/// The scan types an update opens runs for, in the order it opens them.
pub open spec fn scan_types(selection: MetadataUpdateSelection) -> Seq<Seq<char>> {
    (if selection.my_drive { seq!["my-drive"@] } else { seq![] }) + (if selection.shared_with_me {
        seq!["shared-with-me"@]
    } else {
        seq![]
    }) + (if selection.shared_drives { seq!["shared-drives"@] } else { seq![] })
}

/// The state shown while an update is in a phase.
pub fn progress_state(
    selection: MetadataUpdateSelection,
    phase: String,
    files: u64,
    folders: u64,
    permissions: u64,
    bytes: u64,
    errors: u64,
) -> (state: MetadataState)
    ensures
        state == MetadataState::Updating(
            MetadataProgress {
                selection,
                phase,
                files_scanned: files,
                folders_scanned: folders,
                permissions_scanned: permissions,
                bytes_discovered: bytes,
                errors,
            },
        ),
{
    MetadataState::Updating(
        MetadataProgress {
            selection,
            phase,
            files_scanned: files,
            folders_scanned: folders,
            permissions_scanned: permissions,
            bytes_discovered: bytes,
            errors,
        },
    )
}

/// The phase text of step `index` (counted from zero) of `count` over the
/// Shared Drives, e.g. `Scanning Shared Drive 2 of 5: Research`.
pub open spec fn drive_phase(prefix: Seq<char>, index: nat, count: nat, name: Seq<char>) -> Seq<char> {
    prefix + decimal(index + 1) + " of "@ + decimal(count) + ": "@ + name
}

fn drive_phase_text(prefix: &str, index: u64, count: u64, name: &str) -> (phase: String)
    requires
        index < count,
    ensures
        phase@ == drive_phase(prefix@, index as nat, count as nat, name@),
{
    let mut v = chars_of(prefix);
    push_decimal(&mut v, index + 1);
    push_str(&mut v, " of ");
    push_decimal(&mut v, count);
    push_str(&mut v, ": ");
    push_str(&mut v, name);
    string_of(v.as_slice())
}

/// The phase while fetching the managers of a Shared Drive.
pub fn managers_phase(index: usize, count: usize, name: &str) -> (phase: String)
    requires
        index < count,
    ensures
        phase@ == drive_phase("Fetching Shared Drive managers "@, index as nat, count as nat, name@),
{
    drive_phase_text("Fetching Shared Drive managers ", index as u64, count as u64, name)
}

/// The phase while scanning a Shared Drive.
pub fn scanning_phase(index: usize, count: usize, name: &str) -> (phase: String)
    requires
        index < count,
    ensures
        phase@ == drive_phase(crate::views::scan_drive_prefix(), index as nat, count as nat, name@),
{
    proof {
        reveal_strlit("Scanning Shared Drive ");
    }
    drive_phase_text("Scanning Shared Drive ", index as u64, count as u64, name)
}

/// The Shared Drive totals after one more drive: the counts added, the
/// bytes added without passing the largest count.
pub fn add_drive_summary(total: &InventorySummary, drive: &InventorySummary) -> (sum: InventorySummary)
    ensures
        sum.files_scanned == (if total.files_scanned + drive.files_scanned <= u64::MAX {
            total.files_scanned + drive.files_scanned
        } else {
            u64::MAX as int
        }),
        sum.folders_scanned == (if total.folders_scanned + drive.folders_scanned <= u64::MAX {
            total.folders_scanned + drive.folders_scanned
        } else {
            u64::MAX as int
        }),
        sum.permissions_scanned == (if total.permissions_scanned + drive.permissions_scanned <= u64::MAX {
            total.permissions_scanned + drive.permissions_scanned
        } else {
            u64::MAX as int
        }),
        sum.bytes_discovered == (if total.bytes_discovered + drive.bytes_discovered <= u64::MAX {
            total.bytes_discovered + drive.bytes_discovered
        } else {
            u64::MAX as int
        }),
        sum.deleted_items == (if total.deleted_items + drive.deleted_items <= u64::MAX {
            total.deleted_items + drive.deleted_items
        } else {
            u64::MAX as int
        }),
        sum.completed_at@ == total.completed_at@,
{
    InventorySummary {
        completed_at: total.completed_at.clone(),
        files_scanned: total.files_scanned.saturating_add(drive.files_scanned),
        folders_scanned: total.folders_scanned.saturating_add(drive.folders_scanned),
        permissions_scanned: total.permissions_scanned.saturating_add(drive.permissions_scanned),
        bytes_discovered: total.bytes_discovered.saturating_add(drive.bytes_discovered),
        deleted_items: total.deleted_items.saturating_add(drive.deleted_items),
    }
}

/// The state an update leaves: the My Drive inventory it ended with (not
/// synchronized when none has ever completed), or its failure.
pub open spec fn final_state_is(state: MetadataState, outcome: Result<InventorySummary, String>) -> bool {
    match outcome {
        Ok(s) => if s.completed_at@.len() == 0 {
            state is NotSynchronized
        } else {
            state matches MetadataState::Synchronized(m) && m.completed_at@ == s.completed_at@
                && m.files_scanned == s.files_scanned && m.folders_scanned == s.folders_scanned
                && m.permissions_scanned == s.permissions_scanned && m.bytes_discovered == s.bytes_discovered
        },
        Err(message) => state matches MetadataState::Error(m) && m@ == message@,
    }
}

/// The state an update leaves.
pub fn completion_state(outcome: Result<InventorySummary, String>) -> (state: MetadataState)
    ensures
        final_state_is(state, outcome),
{
    match outcome {
        Ok(summary) => {
            if chars_of(summary.completed_at.as_str()).len() == 0 {
                MetadataState::NotSynchronized
            } else {
                MetadataState::Synchronized(
                    MetadataSummary {
                        completed_at: summary.completed_at,
                        files_scanned: summary.files_scanned,
                        folders_scanned: summary.folders_scanned,
                        permissions_scanned: summary.permissions_scanned,
                        bytes_discovered: summary.bytes_discovered,
                    },
                )
            }
        },
        Err(message) => MetadataState::Error(message),
    }
}

/// The steps of a running metadata update, in the order it takes them.
#[derive(Debug, Clone, Copy, PartialEq, Eq, Structural)]
pub enum UpdateStep {
    Account,
    SaveAccount,
    DownloadDirectory,
    ImportDirectory,
    RecordDirectoryFailure,
    FetchMyDrive,
    DiscoverDrives,
    DriveManagers,
    ScanDrive,
    RecordDriveScan,
    RecordDriveFailure,
    AggregateDrives,
    FetchSharedWithMe,
    SaveMyDrive,
    SaveSharedWithMe,
    Finished,
    Failed,
}

/// Where a running update stands, and what it has gathered.
#[derive(Debug)]
pub struct UpdateStage {
    pub step: UpdateStep,
    /// The Shared Drive being worked on, counted from zero.
    pub drive: u64,
    /// How many Shared Drives were discovered.
    pub drive_count: u64,
    /// Shared Drives whose managers or listing could not be fetched.
    pub drive_errors: u64,
    /// The My Drive listing: files, folders and bytes, each Drive id once.
    pub files: u64,
    pub folders: u64,
    pub bytes: u64,
    /// The Shared Drive listings stored so far (saturating sums).
    pub drive_files: u64,
    pub drive_folders: u64,
    pub drive_permissions: u64,
    pub drive_bytes: u64,
    /// The My Drive inventory the update ends with.
    pub summary: InventorySummary,
    /// Why the update failed.
    pub failure: String,
}

/// What the program is to do next for a running update.
#[derive(Debug)]
pub enum UpdateAction {
    /// Fetch the read-only account's identity.
    CheckAccount,
    /// Store the identity just fetched.
    SaveAccount,
    /// Download the linked directory spreadsheet.
    DownloadDirectory,
    /// Import the spreadsheet just downloaded.
    ImportDirectory,
    /// Record why the spreadsheet could not be read.
    RecordDirectoryFailure(String),
    /// List My Drive.
    FetchMyDrive,
    /// Discover the Shared Drives and reconcile the stored list with them.
    DiscoverDrives,
    /// Fetch and store the managers of the Shared Drive at this index.
    FetchDriveManagers(u64),
    /// List the Shared Drive at this index and store its listing in a scan
    /// run of its own.
    ScanDrive(u64),
    /// Record the stored listing of the Shared Drive at this index.
    RecordDriveScan(u64, InventorySummary),
    /// Mark the scan of the Shared Drive at this index failed, and record
    /// the error on the drive.
    RecordDriveFailure(u64, String),
    /// Total the Shared Drives and complete their scan run.
    AggregateDrives,
    /// List the items shared with the account.
    FetchSharedWithMe,
    /// Store the My Drive listing (`true`), or read the latest My Drive
    /// inventory (`false`).
    SaveMyDrive(bool),
    /// Store the Shared with me listing (`true`), or read its latest
    /// inventory (`false`).
    SaveSharedWithMe(bool),
    /// Mark the update's scan runs failed with this message.
    FailRuns(String),
    /// The update is over.
    Finish,
    /// Nothing to do for this event.
    Wait,
}

/// What the program reports back after doing an action.
#[derive(Debug)]
pub enum UpdateEvent {
    /// The update is to start.
    Begin,
    /// The action was done.
    Done,
    /// An outside source could not be read; the update goes on without it.
    Unavailable(String),
    /// My Drive was listed: its files, folders and bytes, each id once.
    Listed { files: u64, folders: u64, bytes: u64 },
    /// This many Shared Drives were discovered.
    Discovered(u64),
    /// A Shared Drive listing was stored.
    DriveScanned(InventorySummary),
    /// An inventory was stored or read.
    Saved(InventorySummary),
    /// The update cannot go on.
    Fatal(String),
}

/// A stage at the start of an update: the account step, nothing gathered.
pub open spec fn fresh_stage(stage: UpdateStage) -> bool {
    &&& stage.step == UpdateStep::Account
    &&& stage.drive == 0 && stage.drive_count == 0 && stage.drive_errors == 0
    &&& stage.files == 0 && stage.folders == 0 && stage.bytes == 0
    &&& stage.drive_files == 0 && stage.drive_folders == 0 && stage.drive_permissions == 0
        && stage.drive_bytes == 0
    &&& stage.summary.completed_at@.len() == 0 && stage.summary.files_scanned == 0
        && stage.summary.folders_scanned == 0 && stage.summary.permissions_scanned == 0
        && stage.summary.bytes_discovered == 0 && stage.summary.deleted_items == 0
    &&& stage.failure@.len() == 0
}

/// The stage an update starts from.
pub fn update_start() -> (stage: UpdateStage)
    ensures
        fresh_stage(stage),
{
    UpdateStage {
        step: UpdateStep::Account,
        drive: 0,
        drive_count: 0,
        drive_errors: 0,
        files: 0,
        folders: 0,
        bytes: 0,
        drive_files: 0,
        drive_folders: 0,
        drive_permissions: 0,
        drive_bytes: 0,
        summary: InventorySummary {
            completed_at: String::new(),
            files_scanned: 0,
            folders_scanned: 0,
            permissions_scanned: 0,
            bytes_discovered: 0,
            deleted_items: 0,
        },
        failure: String::new(),
    }
}

/// The stage moved to `step`, on the drive at `drive`, all else kept.
pub open spec fn moved(stage: UpdateStage, step: UpdateStep, drive: u64) -> UpdateStage {
    UpdateStage {
        step,
        drive,
        drive_count: stage.drive_count,
        drive_errors: stage.drive_errors,
        files: stage.files,
        folders: stage.folders,
        bytes: stage.bytes,
        drive_files: stage.drive_files,
        drive_folders: stage.drive_folders,
        drive_permissions: stage.drive_permissions,
        drive_bytes: stage.drive_bytes,
        summary: stage.summary,
        failure: stage.failure,
    }
}

pub open spec fn go(stage: UpdateStage, step: UpdateStep, action: UpdateAction) -> (UpdateStage, UpdateAction) {
    (moved(stage, step, stage.drive), action)
}

/// Storing the My Drive listing (or reading the latest one).
pub open spec fn save_my_drive(plan: UpdatePlan, stage: UpdateStage) -> (UpdateStage, UpdateAction) {
    go(stage, UpdateStep::SaveMyDrive, UpdateAction::SaveMyDrive(plan.selection.my_drive))
}

/// After the Shared Drives: the Shared with me listing when selected.
pub open spec fn shared_with_me_start(plan: UpdatePlan, stage: UpdateStage) -> (UpdateStage, UpdateAction) {
    if plan.selection.shared_with_me {
        go(stage, UpdateStep::FetchSharedWithMe, UpdateAction::FetchSharedWithMe)
    } else {
        save_my_drive(plan, stage)
    }
}

/// Scanning the Shared Drives from the one at `index`, then totalling them.
pub open spec fn scans_from(stage: UpdateStage, index: int) -> (UpdateStage, UpdateAction) {
    if index < stage.drive_count {
        (moved(stage, UpdateStep::ScanDrive, index as u64), UpdateAction::ScanDrive(index as u64))
    } else {
        go(stage, UpdateStep::AggregateDrives, UpdateAction::AggregateDrives)
    }
}

/// Fetching the managers of the Shared Drives from the one at `index`, then
/// scanning them.
pub open spec fn managers_from(stage: UpdateStage, index: int) -> (UpdateStage, UpdateAction) {
    if index < stage.drive_count {
        (moved(stage, UpdateStep::DriveManagers, index as u64), UpdateAction::FetchDriveManagers(index as u64))
    } else {
        scans_from(stage, 0)
    }
}

/// After discovery: the managers first when permissions are scanned.
pub open spec fn after_discovery(plan: UpdatePlan, stage: UpdateStage) -> (UpdateStage, UpdateAction) {
    if plan.permission_scanning {
        managers_from(stage, 0)
    } else {
        scans_from(stage, 0)
    }
}

/// The Shared Drives when selected, else what follows them.
pub open spec fn drives_start(plan: UpdatePlan, stage: UpdateStage) -> (UpdateStage, UpdateAction) {
    if plan.selection.shared_drives {
        go(stage, UpdateStep::DiscoverDrives, UpdateAction::DiscoverDrives)
    } else {
        shared_with_me_start(plan, stage)
    }
}

/// The My Drive listing when selected, else what follows it.
pub open spec fn my_drive_start(plan: UpdatePlan, stage: UpdateStage) -> (UpdateStage, UpdateAction) {
    if plan.selection.my_drive {
        go(stage, UpdateStep::FetchMyDrive, UpdateAction::FetchMyDrive)
    } else {
        drives_start(plan, stage)
    }
}

/// After the account: the directory spreadsheet when one is to be read.
pub open spec fn after_account(plan: UpdatePlan, stage: UpdateStage) -> (UpdateStage, UpdateAction) {
    if plan.directory_sheet_url is Some {
        go(stage, UpdateStep::DownloadDirectory, UpdateAction::DownloadDirectory)
    } else {
        my_drive_start(plan, stage)
    }
}

pub open spec fn sat(a: u64, b: u64) -> u64 {
    if a + b <= u64::MAX {
        (a + b) as u64
    } else {
        u64::MAX
    }
}

/// The stage with one more Shared Drive that could not be read.
pub open spec fn with_error(stage: UpdateStage) -> UpdateStage {
    UpdateStage { drive_errors: sat(stage.drive_errors, 1), ..stage }
}

/// How an update moves on an event: the steps in order (account, directory
/// spreadsheet, My Drive listing, Shared Drives with their managers and
/// listings one by one, Shared with me listing, storing the listings); a
/// source that cannot be read is skipped (a Shared Drive counted as an
/// error); a fatal event fails the update; any other event changes nothing.
pub open spec fn update_transition(plan: UpdatePlan, stage: UpdateStage, event: UpdateEvent) -> (
    UpdateStage,
    UpdateAction,
) {
    let step = stage.step;
    let next_drive = stage.drive + 1;
    match event {
        UpdateEvent::Fatal(m) => if step == UpdateStep::Finished || step == UpdateStep::Failed {
            (stage, UpdateAction::Wait)
        } else {
            (UpdateStage { step: UpdateStep::Failed, failure: m, ..stage }, UpdateAction::FailRuns(m))
        },
        UpdateEvent::Begin => if step == UpdateStep::Account {
            (stage, UpdateAction::CheckAccount)
        } else {
            (stage, UpdateAction::Wait)
        },
        UpdateEvent::Done => if step == UpdateStep::Account {
            go(stage, UpdateStep::SaveAccount, UpdateAction::SaveAccount)
        } else if step == UpdateStep::SaveAccount {
            after_account(plan, stage)
        } else if step == UpdateStep::DownloadDirectory {
            go(stage, UpdateStep::ImportDirectory, UpdateAction::ImportDirectory)
        } else if step == UpdateStep::ImportDirectory || step == UpdateStep::RecordDirectoryFailure {
            my_drive_start(plan, stage)
        } else if step == UpdateStep::DriveManagers {
            managers_from(stage, next_drive)
        } else if step == UpdateStep::RecordDriveScan || step == UpdateStep::RecordDriveFailure {
            scans_from(stage, next_drive)
        } else if step == UpdateStep::AggregateDrives {
            shared_with_me_start(plan, stage)
        } else if step == UpdateStep::FetchSharedWithMe {
            save_my_drive(plan, stage)
        } else if step == UpdateStep::SaveSharedWithMe {
            go(stage, UpdateStep::Finished, UpdateAction::Finish)
        } else {
            (stage, UpdateAction::Wait)
        },
        UpdateEvent::Unavailable(m) => if step == UpdateStep::Account {
            after_account(plan, stage)
        } else if step == UpdateStep::DownloadDirectory || step == UpdateStep::ImportDirectory {
            go(stage, UpdateStep::RecordDirectoryFailure, UpdateAction::RecordDirectoryFailure(m))
        } else if step == UpdateStep::DriveManagers {
            managers_from(with_error(stage), next_drive)
        } else if step == UpdateStep::ScanDrive {
            (
                moved(with_error(stage), UpdateStep::RecordDriveFailure, stage.drive),
                UpdateAction::RecordDriveFailure(stage.drive, m),
            )
        } else {
            (stage, UpdateAction::Wait)
        },
        UpdateEvent::Listed { files, folders, bytes } => if step == UpdateStep::FetchMyDrive {
            drives_start(plan, UpdateStage { files, folders, bytes, ..stage })
        } else {
            (stage, UpdateAction::Wait)
        },
        UpdateEvent::Discovered(n) => if step == UpdateStep::DiscoverDrives {
            after_discovery(plan, UpdateStage { drive: 0, drive_count: n, ..stage })
        } else {
            (stage, UpdateAction::Wait)
        },
        UpdateEvent::DriveScanned(s) => if step == UpdateStep::ScanDrive {
            (
                UpdateStage {
                    step: UpdateStep::RecordDriveScan,
                    drive_files: sat(stage.drive_files, s.files_scanned),
                    drive_folders: sat(stage.drive_folders, s.folders_scanned),
                    drive_permissions: sat(stage.drive_permissions, s.permissions_scanned),
                    drive_bytes: sat(stage.drive_bytes, s.bytes_discovered),
                    ..stage
                },
                UpdateAction::RecordDriveScan(stage.drive, s),
            )
        } else {
            (stage, UpdateAction::Wait)
        },
        UpdateEvent::Saved(s) => if step == UpdateStep::SaveMyDrive {
            (
                UpdateStage { step: UpdateStep::SaveSharedWithMe, summary: s, ..stage },
                UpdateAction::SaveSharedWithMe(plan.selection.shared_with_me),
            )
        } else if step == UpdateStep::SaveSharedWithMe {
            go(stage, UpdateStep::Finished, UpdateAction::Finish)
        } else {
            (stage, UpdateAction::Wait)
        },
    }
}

fn go_to(stage: UpdateStage, step: UpdateStep, action: UpdateAction) -> (next: (UpdateStage, UpdateAction))
    ensures
        next == go(stage, step, action),
{
    (UpdateStage { step, ..stage }, action)
}

fn save_my_drive_step(plan: &UpdatePlan, stage: UpdateStage) -> (next: (UpdateStage, UpdateAction))
    ensures
        next == save_my_drive(*plan, stage),
{
    go_to(stage, UpdateStep::SaveMyDrive, UpdateAction::SaveMyDrive(plan.selection.my_drive))
}

fn shared_with_me_step(plan: &UpdatePlan, stage: UpdateStage) -> (next: (UpdateStage, UpdateAction))
    ensures
        next == shared_with_me_start(*plan, stage),
{
    if plan.selection.shared_with_me {
        go_to(stage, UpdateStep::FetchSharedWithMe, UpdateAction::FetchSharedWithMe)
    } else {
        save_my_drive_step(plan, stage)
    }
}

fn scans_step(stage: UpdateStage, index: u64) -> (next: (UpdateStage, UpdateAction))
    ensures
        next == scans_from(stage, index as int),
{
    if index < stage.drive_count {
        (UpdateStage { step: UpdateStep::ScanDrive, drive: index, ..stage }, UpdateAction::ScanDrive(index))
    } else {
        go_to(stage, UpdateStep::AggregateDrives, UpdateAction::AggregateDrives)
    }
}

fn managers_step(stage: UpdateStage, index: u64) -> (next: (UpdateStage, UpdateAction))
    ensures
        next == managers_from(stage, index as int),
{
    if index < stage.drive_count {
        (
            UpdateStage { step: UpdateStep::DriveManagers, drive: index, ..stage },
            UpdateAction::FetchDriveManagers(index),
        )
    } else {
        scans_step(stage, 0)
    }
}

fn drives_step(plan: &UpdatePlan, stage: UpdateStage) -> (next: (UpdateStage, UpdateAction))
    ensures
        next == drives_start(*plan, stage),
{
    if plan.selection.shared_drives {
        go_to(stage, UpdateStep::DiscoverDrives, UpdateAction::DiscoverDrives)
    } else {
        shared_with_me_step(plan, stage)
    }
}

fn my_drive_step(plan: &UpdatePlan, stage: UpdateStage) -> (next: (UpdateStage, UpdateAction))
    ensures
        next == my_drive_start(*plan, stage),
{
    if plan.selection.my_drive {
        go_to(stage, UpdateStep::FetchMyDrive, UpdateAction::FetchMyDrive)
    } else {
        drives_step(plan, stage)
    }
}

fn account_done_step(plan: &UpdatePlan, stage: UpdateStage) -> (next: (UpdateStage, UpdateAction))
    ensures
        next == after_account(*plan, stage),
{
    if plan.directory_sheet_url.is_some() {
        go_to(stage, UpdateStep::DownloadDirectory, UpdateAction::DownloadDirectory)
    } else {
        my_drive_step(plan, stage)
    }
}

fn counted_error(stage: UpdateStage) -> (next: UpdateStage)
    ensures
        next == with_error(stage),
{
    let e = stage.drive_errors.saturating_add(1);
    UpdateStage { drive_errors: e, ..stage }
}

/// The index after the current Shared Drive; past the last one, the count.
fn following_drive(stage: &UpdateStage) -> (index: u64)
    ensures
        (index < stage.drive_count) == (stage.drive + 1 < stage.drive_count),
        index < stage.drive_count ==> index == stage.drive + 1,
{
    if stage.drive < stage.drive_count {
        stage.drive + 1
    } else {
        stage.drive_count
    }
}

/// One step of a metadata update: from where it stands and what the program
/// reports, the next stage and what the program is to do.
pub fn metadata_update_step(plan: &UpdatePlan, stage: UpdateStage, event: UpdateEvent) -> (next: (
    UpdateStage,
    UpdateAction,
))
    ensures
        next == update_transition(*plan, stage, event),
{
    let step = stage.step;
    match event {
        UpdateEvent::Fatal(m) => {
            if step == UpdateStep::Finished || step == UpdateStep::Failed {
                (stage, UpdateAction::Wait)
            } else {
                let shown = m.clone();
                (UpdateStage { step: UpdateStep::Failed, failure: shown, ..stage }, UpdateAction::FailRuns(m))
            }
        },
        UpdateEvent::Begin => {
            if step == UpdateStep::Account {
                (stage, UpdateAction::CheckAccount)
            } else {
                (stage, UpdateAction::Wait)
            }
        },
        UpdateEvent::Done => {
            if step == UpdateStep::Account {
                go_to(stage, UpdateStep::SaveAccount, UpdateAction::SaveAccount)
            } else if step == UpdateStep::SaveAccount {
                account_done_step(plan, stage)
            } else if step == UpdateStep::DownloadDirectory {
                go_to(stage, UpdateStep::ImportDirectory, UpdateAction::ImportDirectory)
            } else if step == UpdateStep::ImportDirectory || step == UpdateStep::RecordDirectoryFailure {
                my_drive_step(plan, stage)
            } else if step == UpdateStep::DriveManagers {
                let index = following_drive(&stage);
                managers_step(stage, index)
            } else if step == UpdateStep::RecordDriveScan || step == UpdateStep::RecordDriveFailure {
                let index = following_drive(&stage);
                scans_step(stage, index)
            } else if step == UpdateStep::AggregateDrives {
                shared_with_me_step(plan, stage)
            } else if step == UpdateStep::FetchSharedWithMe {
                save_my_drive_step(plan, stage)
            } else if step == UpdateStep::SaveSharedWithMe {
                go_to(stage, UpdateStep::Finished, UpdateAction::Finish)
            } else {
                (stage, UpdateAction::Wait)
            }
        },
        UpdateEvent::Unavailable(m) => {
            if step == UpdateStep::Account {
                account_done_step(plan, stage)
            } else if step == UpdateStep::DownloadDirectory || step == UpdateStep::ImportDirectory {
                go_to(stage, UpdateStep::RecordDirectoryFailure, UpdateAction::RecordDirectoryFailure(m))
            } else if step == UpdateStep::DriveManagers {
                let index = following_drive(&stage);
                managers_step(counted_error(stage), index)
            } else if step == UpdateStep::ScanDrive {
                let drive = stage.drive;
                let counted = counted_error(stage);
                (
                    UpdateStage { step: UpdateStep::RecordDriveFailure, drive, ..counted },
                    UpdateAction::RecordDriveFailure(drive, m),
                )
            } else {
                (stage, UpdateAction::Wait)
            }
        },
        UpdateEvent::Listed { files, folders, bytes } => {
            if step == UpdateStep::FetchMyDrive {
                drives_step(plan, UpdateStage { files, folders, bytes, ..stage })
            } else {
                (stage, UpdateAction::Wait)
            }
        },
        UpdateEvent::Discovered(n) => {
            if step == UpdateStep::DiscoverDrives {
                let found = UpdateStage { drive: 0, drive_count: n, ..stage };
                if plan.permission_scanning {
                    managers_step(found, 0)
                } else {
                    scans_step(found, 0)
                }
            } else {
                (stage, UpdateAction::Wait)
            }
        },
        UpdateEvent::DriveScanned(s) => {
            if step == UpdateStep::ScanDrive {
                let drive = stage.drive;
                let files = stage.drive_files.saturating_add(s.files_scanned);
                let folders = stage.drive_folders.saturating_add(s.folders_scanned);
                let permissions = stage.drive_permissions.saturating_add(s.permissions_scanned);
                let bytes = stage.drive_bytes.saturating_add(s.bytes_discovered);
                (
                    UpdateStage {
                        step: UpdateStep::RecordDriveScan,
                        drive_files: files,
                        drive_folders: folders,
                        drive_permissions: permissions,
                        drive_bytes: bytes,
                        ..stage
                    },
                    UpdateAction::RecordDriveScan(drive, s),
                )
            } else {
                (stage, UpdateAction::Wait)
            }
        },
        UpdateEvent::Saved(s) => {
            if step == UpdateStep::SaveMyDrive {
                let shared = plan.selection.shared_with_me;
                (
                    UpdateStage { step: UpdateStep::SaveSharedWithMe, summary: s, ..stage },
                    UpdateAction::SaveSharedWithMe(shared),
                )
            } else if step == UpdateStep::SaveSharedWithMe {
                go_to(stage, UpdateStep::Finished, UpdateAction::Finish)
            } else {
                (stage, UpdateAction::Wait)
            }
        },
    }
}

/// `shown` is the progress of an update in `phase` with these counts.
pub open spec fn updating_with(
    shown: Option<MetadataState>,
    selection: MetadataUpdateSelection,
    phase: Seq<char>,
    files: u64,
    folders: u64,
    permissions: u64,
    bytes: u64,
    errors: u64,
) -> bool {
    shown matches Some(MetadataState::Updating(p)) && p.selection == selection && p.phase@ == phase
        && p.files_scanned == files && p.folders_scanned == folders && p.permissions_scanned == permissions
        && p.bytes_discovered == bytes && p.errors == errors
}

/// What an update shows at a stage (`name` naming the current Shared
/// Drive): the phase and counts of each step the program shows, the
/// finished or failed state, and nothing new while it records or totals.
pub open spec fn progress_shown(plan: UpdatePlan, stage: UpdateStage, name: Seq<char>, shown: Option<MetadataState>) -> bool {
    let sel = plan.selection;
    let step = stage.step;
    if step == UpdateStep::Account || step == UpdateStep::SaveAccount {
        updating_with(shown, sel, "Connecting"@, 0, 0, 0, 0, 0)
    } else if step == UpdateStep::DownloadDirectory {
        updating_with(shown, sel, "Downloading directory spreadsheet"@, 0, 0, 0, 0, 0)
    } else if step == UpdateStep::ImportDirectory {
        updating_with(shown, sel, "Importing directory spreadsheet"@, 0, 0, 0, 0, 0)
    } else if step == UpdateStep::FetchMyDrive {
        updating_with(shown, sel, "Fetching My Drive metadata"@, 0, 0, 0, 0, 0)
    } else if step == UpdateStep::DiscoverDrives {
        updating_with(shown, sel, "Discovering Shared Drives"@, stage.files, stage.folders, 0, stage.bytes, 0)
    } else if step == UpdateStep::DriveManagers && stage.drive < stage.drive_count {
        updating_with(
            shown,
            sel,
            drive_phase("Fetching Shared Drive managers "@, stage.drive as nat, stage.drive_count as nat, name),
            0,
            0,
            0,
            0,
            stage.drive_errors,
        )
    } else if step == UpdateStep::ScanDrive && stage.drive < stage.drive_count {
        updating_with(
            shown,
            sel,
            drive_phase(crate::views::scan_drive_prefix(), stage.drive as nat, stage.drive_count as nat, name),
            stage.drive_files,
            stage.drive_folders,
            stage.drive_permissions,
            stage.drive_bytes,
            stage.drive_errors,
        )
    } else if step == UpdateStep::FetchSharedWithMe {
        updating_with(shown, sel, "Fetching Shared with me metadata"@, stage.files, stage.folders, 0, stage.bytes, 0)
    } else if step == UpdateStep::SaveMyDrive && sel.my_drive {
        updating_with(shown, sel, "Saving My Drive metadata"@, stage.files, stage.folders, 0, stage.bytes, 0)
    } else if step == UpdateStep::SaveSharedWithMe && sel.shared_with_me {
        updating_with(
            shown,
            sel,
            "Saving Shared with me metadata"@,
            stage.summary.files_scanned,
            stage.summary.folders_scanned,
            stage.summary.permissions_scanned,
            stage.summary.bytes_discovered,
            0,
        )
    } else if step == UpdateStep::Finished {
        shown matches Some(state) && final_state_is(state, Ok(stage.summary))
    } else if step == UpdateStep::Failed {
        shown matches Some(MetadataState::Error(m)) && m@ == stage.failure@
    } else {
        shown is None
    }
}

fn copy_summary(s: &InventorySummary) -> (copy: InventorySummary)
    ensures
        copy == *s,
{
    InventorySummary {
        completed_at: s.completed_at.clone(),
        files_scanned: s.files_scanned,
        folders_scanned: s.folders_scanned,
        permissions_scanned: s.permissions_scanned,
        bytes_discovered: s.bytes_discovered,
        deleted_items: s.deleted_items,
    }
}

fn updating(
    selection: MetadataUpdateSelection,
    phase: &str,
    files: u64,
    folders: u64,
    permissions: u64,
    bytes: u64,
    errors: u64,
) -> (shown: Option<MetadataState>)
    ensures
        updating_with(shown, selection, phase@, files, folders, permissions, bytes, errors),
{
    Some(progress_state(selection, string_from(phase), files, folders, permissions, bytes, errors))
}

/// What a running update shows at a stage; `drive_name` names the Shared
/// Drive the stage is on.
pub fn update_progress(plan: &UpdatePlan, stage: &UpdateStage, drive_name: &str) -> (shown: Option<MetadataState>)
    ensures
        progress_shown(*plan, *stage, drive_name@, shown),
{
    let sel = plan.selection;
    let step = stage.step;
    if step == UpdateStep::Account || step == UpdateStep::SaveAccount {
        updating(sel, "Connecting", 0, 0, 0, 0, 0)
    } else if step == UpdateStep::DownloadDirectory {
        updating(sel, "Downloading directory spreadsheet", 0, 0, 0, 0, 0)
    } else if step == UpdateStep::ImportDirectory {
        updating(sel, "Importing directory spreadsheet", 0, 0, 0, 0, 0)
    } else if step == UpdateStep::FetchMyDrive {
        updating(sel, "Fetching My Drive metadata", 0, 0, 0, 0, 0)
    } else if step == UpdateStep::DiscoverDrives {
        updating(sel, "Discovering Shared Drives", stage.files, stage.folders, 0, stage.bytes, 0)
    } else if step == UpdateStep::DriveManagers && stage.drive < stage.drive_count {
        let phase = drive_phase_text("Fetching Shared Drive managers ", stage.drive, stage.drive_count, drive_name);
        Some(progress_state(sel, phase, 0, 0, 0, 0, stage.drive_errors))
    } else if step == UpdateStep::ScanDrive && stage.drive < stage.drive_count {
        proof {
            reveal_strlit("Scanning Shared Drive ");
        }
        let phase = drive_phase_text("Scanning Shared Drive ", stage.drive, stage.drive_count, drive_name);
        Some(
            progress_state(
                sel,
                phase,
                stage.drive_files,
                stage.drive_folders,
                stage.drive_permissions,
                stage.drive_bytes,
                stage.drive_errors,
            ),
        )
    } else if step == UpdateStep::FetchSharedWithMe {
        updating(sel, "Fetching Shared with me metadata", stage.files, stage.folders, 0, stage.bytes, 0)
    } else if step == UpdateStep::SaveMyDrive && sel.my_drive {
        updating(sel, "Saving My Drive metadata", stage.files, stage.folders, 0, stage.bytes, 0)
    } else if step == UpdateStep::SaveSharedWithMe && sel.shared_with_me {
        updating(
            sel,
            "Saving Shared with me metadata",
            stage.summary.files_scanned,
            stage.summary.folders_scanned,
            stage.summary.permissions_scanned,
            stage.summary.bytes_discovered,
            0,
        )
    } else if step == UpdateStep::Finished {
        Some(completion_state(Ok(copy_summary(&stage.summary))))
    } else if step == UpdateStep::Failed {
        Some(MetadataState::Error(stage.failure.clone()))
    } else {
        None
    }
}

} // verus!
