//! Migration and download jobs: their lifecycle, and the queries that move
//! a job through it.
//!
//! The lifecycle is stated once, as guards and transitions over
//! [`JobState`]; the statements below enforce the same guards in their
//! `WHERE` clauses, and the web views offer an action exactly when its guard
//! holds.
use vstd::prelude::*;

use crate::database::sql::{
    SqlParam,
    SqlValue,
};
use crate::database::{
    Database,
    DatabaseError,
    Rejection,
    integer_or_zero,
    query_count,
    query_rows,
    run,
    run_batch,
    send,
    send_batch,
    send_count,
    send_query,
    sent_after,
    statement_is,
    changed_or,
    text_or_empty,
};
use crate::database::inventory::{integer_param, text_param};
use crate::text::{
    chars_of,
    equals_str,
    string_from,
    string_of,
    trim_str,
};

verus! {

#[derive(Debug, Clone)]
pub struct MigrationJob {
    pub id: i64,
    pub source_kind: String,
    pub operation_kind: String,
    pub status: String,
    pub phase: String,
    pub destination_url: String,
    pub destination_kind: String,
    pub destination_path: String,
    pub destination_drive_name: String,
    pub destination_folder_name: String,
    pub destination_drive_id: String,
    pub destination_folder_id: String,
    pub files_total: u64,
    pub folders_total: u64,
    pub bytes_total: u64,
    pub files_copied: u64,
    pub bytes_copied: u64,
    pub exceptions_count: u64,
    pub created_at: String,
    pub started_at: String,
    pub completed_at: String,
    pub copy_completed_at: String,
    pub archived_at: String,
    pub resume_count: u64,
    pub error_message: String,
    pub sources: Vec<MigrationSource>,
}

#[derive(Debug, Clone)]
pub struct MigrationSource {
    pub item_id: String,
    pub name: String,
    pub relative_path: String,
    pub is_directory: bool,
    pub files_total: u64,
    pub folders_total: u64,
    pub bytes_total: u64,
    pub status: String,
    pub error_message: String,
}

// ---------------------------------------------------------------------------
// Lifecycle
// ---------------------------------------------------------------------------

/// The stored status of a job.
#[derive(Debug, Clone, Copy, PartialEq, Eq, Structural)]
pub enum JobStatus {
    Draft,
    Ready,
    Preflight,
    Running,
    Copied,
    Error,
    Interrupted,
    Unknown,
}

/// What the lifecycle reads of a job.
#[derive(Debug, Clone, Copy, PartialEq, Eq, Structural)]
pub struct JobState {
    pub status: JobStatus,
    pub started: bool,
    pub archived: bool,
    pub resume_count: u64,
}

pub open spec fn status_named(text: Seq<char>) -> JobStatus {
    if text == seq!['d', 'r', 'a', 'f', 't'] {
        JobStatus::Draft
    } else if text == seq!['r', 'e', 'a', 'd', 'y'] {
        JobStatus::Ready
    } else if text == seq!['p', 'r', 'e', 'f', 'l', 'i', 'g', 'h', 't'] {
        JobStatus::Preflight
    } else if text == seq!['r', 'u', 'n', 'n', 'i', 'n', 'g'] {
        JobStatus::Running
    } else if text == seq!['c', 'o', 'p', 'i', 'e', 'd'] {
        JobStatus::Copied
    } else if text == seq!['e', 'r', 'r', 'o', 'r'] {
        JobStatus::Error
    } else if text == seq!['i', 'n', 't', 'e', 'r', 'r', 'u', 'p', 't', 'e', 'd'] {
        JobStatus::Interrupted
    } else {
        JobStatus::Unknown
    }
}

/// A job is active while its copy is being prepared or performed.
pub open spec fn is_active(s: JobState) -> bool {
    s.status == JobStatus::Preflight || s.status == JobStatus::Running
}

pub open spec fn can_cancel(s: JobState) -> bool {
    !s.started && (s.status == JobStatus::Draft || s.status == JobStatus::Ready)
}

/// Destinations may be chosen only before the first copy starts.
pub open spec fn can_set_destination(s: JobState) -> bool {
    can_cancel(s)
}

pub open spec fn can_begin(s: JobState) -> bool {
    !s.archived && (s.status == JobStatus::Ready || s.status == JobStatus::Interrupted || s.status
        == JobStatus::Error || s.status == JobStatus::Copied)
}

pub open spec fn can_start(s: JobState) -> bool {
    s.status == JobStatus::Ready && !s.started
}

pub open spec fn can_resume(s: JobState) -> bool {
    !s.archived && (s.status == JobStatus::Interrupted || s.status == JobStatus::Error || s.status
        == JobStatus::Copied)
}

pub open spec fn can_confirm(s: JobState) -> bool {
    s.status == JobStatus::Preflight
}

pub open spec fn can_complete(s: JobState) -> bool {
    s.status == JobStatus::Running
}

pub open spec fn can_archive(s: JobState) -> bool {
    !is_active(s) && !s.archived
}

/// `begin_copy`: back to preflight, counting a resume when the job had
/// started before.
pub open spec fn after_begin(s: JobState) -> JobState {
    JobState {
        status: JobStatus::Preflight,
        resume_count: if s.started { (s.resume_count + 1) as u64 } else { s.resume_count },
        ..s
    }
}

/// `confirm_copy_started`: the copy runs and the job has started.
pub open spec fn after_confirm(s: JobState) -> JobState {
    JobState { status: JobStatus::Running, started: true, ..s }
}

/// `fail_preflight`: a job that never started is ready again.
pub open spec fn after_failed_preflight(s: JobState) -> JobState {
    JobState { status: if s.started { JobStatus::Error } else { JobStatus::Ready }, ..s }
}

pub open spec fn after_failed_copy(s: JobState) -> JobState {
    JobState { status: JobStatus::Error, ..s }
}

pub open spec fn after_complete(s: JobState) -> JobState {
    JobState { status: JobStatus::Copied, ..s }
}

pub open spec fn after_archive(s: JobState) -> JobState {
    JobState { archived: true, ..s }
}

pub open spec fn after_set_destination(s: JobState) -> JobState {
    JobState { status: JobStatus::Ready, ..s }
}

/// Startup recovery: a job left active by a stopped process is interrupted.
pub open spec fn after_recovery(s: JobState) -> JobState {
    if is_active(s) {
        JobState { status: JobStatus::Interrupted, ..s }
    } else {
        s
    }
}

/// Reads a stored status.
pub fn job_status(text: &str) -> (result: JobStatus)
    ensures
        result == status_named(text@),
{
    let c = chars_of(text);
    proof {
        reveal_strlit("draft");
        reveal_strlit("ready");
        reveal_strlit("preflight");
        reveal_strlit("running");
        reveal_strlit("copied");
        reveal_strlit("error");
        reveal_strlit("interrupted");
        assert("draft"@ =~= seq!['d', 'r', 'a', 'f', 't']);
        assert("ready"@ =~= seq!['r', 'e', 'a', 'd', 'y']);
        assert("preflight"@ =~= seq!['p', 'r', 'e', 'f', 'l', 'i', 'g', 'h', 't']);
        assert("running"@ =~= seq!['r', 'u', 'n', 'n', 'i', 'n', 'g']);
        assert("copied"@ =~= seq!['c', 'o', 'p', 'i', 'e', 'd']);
        assert("error"@ =~= seq!['e', 'r', 'r', 'o', 'r']);
        assert("interrupted"@ =~= seq!['i', 'n', 't', 'e', 'r', 'r', 'u', 'p', 't', 'e', 'd']);
    }
    if equals_str(c.as_slice(), "draft") {
        JobStatus::Draft
    } else if equals_str(c.as_slice(), "ready") {
        JobStatus::Ready
    } else if equals_str(c.as_slice(), "preflight") {
        JobStatus::Preflight
    } else if equals_str(c.as_slice(), "running") {
        JobStatus::Running
    } else if equals_str(c.as_slice(), "copied") {
        JobStatus::Copied
    } else if equals_str(c.as_slice(), "error") {
        JobStatus::Error
    } else if equals_str(c.as_slice(), "interrupted") {
        JobStatus::Interrupted
    } else {
        JobStatus::Unknown
    }
}

/// The lifecycle state of a stored job.
pub open spec fn state_of(job: MigrationJob) -> JobState {
    JobState {
        status: status_named(job.status@),
        started: job.started_at@.len() > 0,
        archived: job.archived_at@.len() > 0,
        resume_count: job.resume_count,
    }
}

impl MigrationJob {
    pub fn state(&self) -> (result: JobState)
        ensures
            result == state_of(*self),
    {
        JobState {
            status: job_status(self.status.as_str()),
            started: !crate::text::is_empty_text(self.started_at.as_str()),
            archived: !crate::text::is_empty_text(self.archived_at.as_str()),
            resume_count: self.resume_count,
        }
    }
}

impl JobState {
    pub fn is_active(&self) -> (result: bool)
        ensures
            result == is_active(*self),
    {
        match self.status {
            JobStatus::Preflight | JobStatus::Running => true,
            _ => false,
        }
    }

    pub fn can_cancel(&self) -> (result: bool)
        ensures
            result == can_cancel(*self),
    {
        !self.started && match self.status {
            JobStatus::Draft | JobStatus::Ready => true,
            _ => false,
        }
    }

    pub fn can_start(&self) -> (result: bool)
        ensures
            result == can_start(*self),
    {
        !self.started && match self.status {
            JobStatus::Ready => true,
            _ => false,
        }
    }

    pub fn can_resume(&self) -> (result: bool)
        ensures
            result == can_resume(*self),
    {
        !self.archived && match self.status {
            JobStatus::Interrupted | JobStatus::Error | JobStatus::Copied => true,
            _ => false,
        }
    }

    pub fn can_archive(&self) -> (result: bool)
        ensures
            result == can_archive(*self),
    {
        !self.is_active() && !self.archived
    }
}

/// A job being copied can be neither canceled nor archived.
pub proof fn law_active_jobs_are_protected(s: JobState)
    requires
        is_active(s),
    ensures
        !can_cancel(s),
        !can_archive(s),
        !can_set_destination(s),
        !can_begin(s),
{
}

/// Once a copy has started, the job can never be canceled or re-targeted:
/// no transition forgets that it started.
pub proof fn law_started_is_permanent(s: JobState)
    requires
        s.started,
    ensures
        after_begin(s).started,
        after_confirm(s).started,
        after_failed_preflight(s).started,
        after_failed_copy(s).started,
        after_complete(s).started,
        after_archive(s).started,
        after_set_destination(s).started,
        after_recovery(s).started,
        !can_cancel(s),
        !can_set_destination(s),
{
}

/// Archiving is final: an archived job stays archived and can never be
/// started, resumed or archived again.
pub proof fn law_archive_is_final(s: JobState)
    requires
        s.archived,
    ensures
        !can_begin(s),
        !can_resume(s),
        !can_archive(s),
        after_begin(s).archived,
        after_confirm(s).archived,
        after_failed_preflight(s).archived,
        after_failed_copy(s).archived,
        after_complete(s).archived,
        after_set_destination(s).archived,
        after_recovery(s).archived,
{
}

/// After startup recovery no job is active, and every job that was active
/// can be resumed unless archived.
pub proof fn law_recovery_leaves_nothing_active(jobs: Seq<JobState>)
    ensures
        forall|i: int| 0 <= i < jobs.len() ==> !is_active(#[trigger] after_recovery(jobs[i])),
        forall|i: int|
            0 <= i < jobs.len() && is_active(jobs[i]) && !jobs[i].archived ==> can_resume(
                #[trigger] after_recovery(jobs[i]),
            ),
{
}

/// A copy that begins, is confirmed and completes leaves the job copied and
/// started; it may be resumed (copied again) until archived.
pub proof fn law_copy_lifecycle(s: JobState)
    requires
        can_begin(s),
    ensures
        can_confirm(after_begin(s)),
        can_complete(after_confirm(after_begin(s))),
        after_complete(after_confirm(after_begin(s))).status == JobStatus::Copied,
        after_complete(after_confirm(after_begin(s))).started,
        can_resume(after_complete(after_confirm(after_begin(s)))),
        can_archive(after_complete(after_confirm(after_begin(s)))),
{
}

/// A failed preflight of a job that never started undoes `begin_copy`.
pub proof fn law_failed_first_preflight_undoes_begin(s: JobState)
    requires
        can_start(s),
    ensures
        after_failed_preflight(after_begin(s)) == s,
{
}

/// Starting a job that already ran counts one more resume; a first start
/// counts none.
pub proof fn law_resumes_count_restarts(s: JobState)
    requires
        can_begin(s),
        s.resume_count < u64::MAX,
    ensures
        after_begin(s).resume_count == s.resume_count + if s.started { 1int } else { 0int },
{
}

// ---------------------------------------------------------------------------
// Rows
// ---------------------------------------------------------------------------

/// A count column read as the unsigned number it stores.
fn count_at(row: &Vec<SqlValue>, i: usize) -> (result: u64)
    requires
        i < row.len(),
{
    integer_or_zero(row, i) as u64
}

fn flag_at(row: &Vec<SqlValue>, i: usize) -> (result: bool)
    requires
        i < row.len(),
{
    integer_or_zero(row, i) != 0
}

fn job_from_row(row: &Vec<SqlValue>) -> (result: MigrationJob)
    requires
        row.len() >= 25,
    ensures
        result.sources@.len() == 0,
{
    MigrationJob {
        id: integer_or_zero(row, 0),
        source_kind: text_or_empty(row, 1),
        operation_kind: text_or_empty(row, 2),
        status: text_or_empty(row, 3),
        phase: text_or_empty(row, 4),
        destination_url: text_or_empty(row, 5),
        destination_kind: text_or_empty(row, 6),
        destination_path: text_or_empty(row, 7),
        destination_drive_name: text_or_empty(row, 8),
        destination_folder_name: text_or_empty(row, 9),
        files_total: count_at(row, 10),
        folders_total: count_at(row, 11),
        bytes_total: count_at(row, 12),
        files_copied: count_at(row, 13),
        bytes_copied: count_at(row, 14),
        exceptions_count: count_at(row, 15),
        created_at: text_or_empty(row, 16),
        started_at: text_or_empty(row, 17),
        completed_at: text_or_empty(row, 18),
        error_message: text_or_empty(row, 19),
        archived_at: text_or_empty(row, 20),
        destination_drive_id: text_or_empty(row, 21),
        destination_folder_id: text_or_empty(row, 22),
        copy_completed_at: text_or_empty(row, 23),
        resume_count: count_at(row, 24),
        sources: Vec::new(),
    }
}

fn load_sources(connection: &rusqlite::Connection, id: i64) -> (result: Result<
    Vec<MigrationSource>,
    DatabaseError,
>)
    ensures
        result matches Err(e) ==> e is Storage,
{
    let params = vec![SqlParam::Integer(id)];
    let (columns, rows) = query_rows(
        connection,
        "SELECT item_id, name, relative_path, is_directory, files_total, folders_total, bytes_total,
                status, error_message
         FROM migration_sources WHERE migration_id = ?1 ORDER BY name COLLATE NOCASE",
        params.as_slice(),
    )?;
    let mut sources: Vec<MigrationSource> = Vec::new();
    if columns < 9 {
        return Ok(sources);
    }
    let mut i: usize = 0;
    while i < rows.len()
        invariant
            i <= rows@.len(),
            columns >= 9,
            forall|k: int| 0 <= k < rows@.len() ==> #[trigger] rows@[k].len() == columns,
        decreases rows@.len() - i,
    {
        let row = &rows[i];
        sources.push(
            MigrationSource {
                item_id: text_or_empty(row, 0),
                name: text_or_empty(row, 1),
                relative_path: text_or_empty(row, 2),
                is_directory: flag_at(row, 3),
                files_total: count_at(row, 4),
                folders_total: count_at(row, 5),
                bytes_total: count_at(row, 6),
                status: text_or_empty(row, 7),
                error_message: text_or_empty(row, 8),
            },
        );
        i = i + 1;
    }
    Ok(sources)
}

// ---------------------------------------------------------------------------
// Queries
// ---------------------------------------------------------------------------

pub const ACTIVE_JOBS_SQL: &'static str = "SELECT COUNT(*) FROM migration_jobs WHERE status IN ('preflight', 'running')";

/// How many jobs are being prepared or copied.
pub fn active_count(database: &mut Database) -> (result: Result<usize, DatabaseError>)
    ensures
        result is Ok ==> sent_after(old(database).sent(), final(database).sent(), 1) && statement_is(final(database).sent().last(), ACTIVE_JOBS_SQL@, 0),
        result matches Err(e) ==> e is Storage,
{
    let connection = database.connect()?;
    let none: Vec<SqlParam> = Vec::new();
    let count = send_count(database, &connection, ACTIVE_JOBS_SQL, none.as_slice(),
    )?;
    Ok(count as usize)
}

const JOB_COLUMNS: &'static str = "mj.id, mj.source_kind, mj.operation_kind, mj.status, mj.phase,
    mj.destination_url, mj.destination_kind, mj.destination_path, mj.destination_drive_name,
    mj.destination_folder_name, mj.files_total, mj.folders_total, mj.bytes_total,
    mj.files_copied, mj.bytes_copied, mj.exceptions_count, mj.created_at,
    COALESCE(mj.started_at, ''), COALESCE(mj.completed_at, ''), mj.error_message,
    COALESCE(mj.archived_at, ''), mj.destination_drive_id, mj.destination_folder_id,
    COALESCE(mj.copy_completed_at, ''), mj.resume_count";

/// The job with this id and its sources, if it exists.
pub fn get(database: &Database, id: i64) -> (result: Result<Option<MigrationJob>, DatabaseError>)
    ensures
        result matches Err(e) ==> e is Storage,
{
    let connection = database.connect()?;
    let mut sql: Vec<char> = Vec::new();
    crate::text::push_str(&mut sql, "SELECT ");
    crate::text::push_str(&mut sql, JOB_COLUMNS);
    crate::text::push_str(&mut sql, " FROM migration_jobs mj WHERE mj.id = ?1");
    let sql = string_of(sql.as_slice());
    let params = vec![SqlParam::Integer(id)];
    let (columns, rows) = query_rows(&connection, sql.as_str(), params.as_slice())?;
    if rows.len() == 0 || columns < 25 {
        return Ok(None);
    }
    let mut job = job_from_row(&rows[0]);
    job.sources = load_sources(&connection, id)?;
    Ok(Some(job))
}

/// The `ORDER BY` expression for a sort key of the job list; unknown keys
/// sort by creation time.
/// The `ORDER BY` column of the migration list for a sort key; any other
/// key sorts by creation time.
pub open spec fn migration_order(sort: Seq<char>) -> Seq<char> {
    if sort == "id"@ {
        "mj.id"@
    } else if sort == "source"@ {
        "mj.source_kind"@
    } else if sort == "status"@ {
        "mj.status"@
    } else if sort == "destination"@ {
        "CASE WHEN mj.destination_kind = 'local' THEN mj.destination_path ELSE mj.destination_drive_name END COLLATE NOCASE"@
    } else if sort == "files"@ {
        "mj.files_total"@
    } else if sort == "folders"@ {
        "mj.folders_total"@
    } else if sort == "capacity"@ {
        "mj.bytes_total"@
    } else if sort == "completed"@ {
        "mj.completed_at"@
    } else {
        "mj.created_at"@
    }
}

pub fn order_column(sort: &str) -> (result: &'static str)
    ensures
        result@ == migration_order(sort@),
{
    let c = chars_of(sort);
    if equals_str(c.as_slice(), "id") {
        "mj.id"
    } else if equals_str(c.as_slice(), "source") {
        "mj.source_kind"
    } else if equals_str(c.as_slice(), "status") {
        "mj.status"
    } else if equals_str(c.as_slice(), "destination") {
        "CASE WHEN mj.destination_kind = 'local' THEN mj.destination_path ELSE mj.destination_drive_name END COLLATE NOCASE"
    } else if equals_str(c.as_slice(), "files") {
        "mj.files_total"
    } else if equals_str(c.as_slice(), "folders") {
        "mj.folders_total"
    } else if equals_str(c.as_slice(), "capacity") {
        "mj.bytes_total"
    } else if equals_str(c.as_slice(), "completed") {
        "mj.completed_at"
    } else {
        "mj.created_at"
    }
}

/// Jobs matching a search over their fields and sources, archived ones only
/// when asked for, in the requested order (ties by id in the same
/// direction).
pub fn list(
    database: &Database,
    search: &str,
    include_archived: bool,
    sort: &str,
    descending: bool,
) -> (result: Result<Vec<MigrationJob>, DatabaseError>)
    ensures
        result matches Err(e) ==> e is Storage,
{
    let connection = database.connect()?;
    let direction = if descending { " DESC" } else { " ASC" };
    let mut sql: Vec<char> = Vec::new();
    crate::text::push_str(&mut sql, "SELECT ");
    crate::text::push_str(&mut sql, JOB_COLUMNS);
    crate::text::push_str(
        &mut sql,
        " FROM migration_jobs mj
         WHERE (?1 OR mj.archived_at IS NULL)
           AND (?2 = '' OR CAST(mj.id AS TEXT) LIKE ?3 OR mj.source_kind LIKE ?3
                OR mj.operation_kind LIKE ?3 OR mj.status LIKE ?3 OR mj.phase LIKE ?3
                OR mj.destination_drive_name LIKE ?3 OR mj.destination_folder_name LIKE ?3
                OR mj.destination_path LIKE ?3
                OR mj.created_at LIKE ?3 OR COALESCE(mj.completed_at, '') LIKE ?3
                OR EXISTS (SELECT 1 FROM migration_sources ms
                           WHERE ms.migration_id = mj.id
                             AND (ms.name LIKE ?3 OR ms.relative_path LIKE ?3)))
         ORDER BY ",
    );
    crate::text::push_str(&mut sql, order_column(sort));
    crate::text::push_str(&mut sql, direction);
    crate::text::push_str(&mut sql, ", mj.id");
    crate::text::push_str(&mut sql, direction);
    let sql = string_of(sql.as_slice());
    let term = trim_str(search);
    let mut pattern: Vec<char> = Vec::new();
    pattern.push('%');
    crate::text::push_chars(&mut pattern, term.as_slice());
    pattern.push('%');
    let params = vec![
        SqlParam::Integer(if include_archived { 1 } else { 0 }),
        SqlParam::Text(string_of(term.as_slice())),
        SqlParam::Text(string_of(pattern.as_slice())),
    ];
    let (columns, rows) = query_rows(&connection, sql.as_str(), params.as_slice())?;
    let mut jobs: Vec<MigrationJob> = Vec::new();
    if columns < 25 {
        return Ok(jobs);
    }
    let mut i: usize = 0;
    while i < rows.len()
        invariant
            i <= rows@.len(),
            columns >= 25,
            forall|k: int| 0 <= k < rows@.len() ==> #[trigger] rows@[k].len() == columns,
        decreases rows@.len() - i,
    {
        let mut job = job_from_row(&rows[i]);
        job.sources = load_sources(&connection, job.id)?;
        jobs.push(job);
        i = i + 1;
    }
    Ok(jobs)
}

/// A statement `sql` bound to job `id` and then to the texts `texts`.
pub open spec fn job_texts_statement(
    statement: crate::database::SentStatement,
    sql: Seq<char>,
    id: i64,
    texts: Seq<Seq<char>>,
) -> bool {
    &&& statement_is(statement, sql, texts.len() + 1)
    &&& integer_param(statement.1[0], id as int)
    &&& forall|i: int| 0 <= i < texts.len() ==> #[trigger] text_param(statement.1[i + 1], texts[i])
}

/// One statement was sent since `before`: `sql`, bound to the job `id`.
pub open spec fn job_statement_sent(before: Seq<crate::database::SentStatement>, after: Seq<crate::database::SentStatement>, sql: Seq<char>, id: i64) -> bool {
    &&& sent_after(before, after, 1)
    &&& statement_is(after.last(), sql, 1)
    &&& integer_param(after.last().1[0], id as int)
}

pub const CANCEL_SQL: &'static str = "DELETE FROM migration_jobs
         WHERE id = ?1 AND started_at IS NULL AND status IN ('draft', 'ready')";

/// Removes a job that never started and is still a draft or ready: the
/// deletion is sent, and the job is refused when it removed nothing.
pub fn cancel(database: &mut Database, id: i64) -> (result: Result<(), DatabaseError>)
    ensures
        result matches Err(DatabaseError::Rejected(r)) ==> r is MigrationNotCancelable,
        result matches Err(e) ==> e is Storage || e is Rejected,
        !(result matches Err(DatabaseError::Storage(_))) ==> job_statement_sent(
            old(database).sent(),
            final(database).sent(),
            CANCEL_SQL@,
            id,
        ),
{
    let connection = database.connect()?;
    let params = vec![SqlParam::Integer(id)];
    let changed = send(database, &connection, CANCEL_SQL, params.as_slice())?;
    changed_or(changed, Rejection::MigrationNotCancelable)
}

pub const BEGIN_COPY_SQL: &'static str = "UPDATE migration_jobs
         SET status = 'preflight', phase = 'Validating destination write access',
             updated_at = CURRENT_TIMESTAMP, error_message = '', completed_at = NULL,
             copy_completed_at = NULL, files_copied = 0, bytes_copied = 0,
             resume_count = resume_count + CASE WHEN started_at IS NULL THEN 0 ELSE 1 END
         WHERE id = ?1 AND status IN ('ready', 'interrupted', 'error', 'copied')
           AND archived_at IS NULL";

pub const RESET_SOURCES_SQL: &'static str = "UPDATE migration_sources SET status = 'pending', started_at = NULL,
             completed_at = NULL, error_message = '' WHERE migration_id = ?1";

/// The statements a start of the copy of job `id` sends: in a transaction,
/// the guarded move into preflight, then (when it moved) the reset of the
/// job's sources.
pub open spec fn begin_copy_statements(id: i64, moved: bool) -> Seq<crate::database::SentStatement> {
    if moved {
        seq![
            ("BEGIN"@, Seq::empty()),
            (BEGIN_COPY_SQL@, seq![SqlParam::Integer(id)]),
            (RESET_SOURCES_SQL@, seq![SqlParam::Integer(id)]),
            ("COMMIT"@, Seq::empty()),
        ]
    } else {
        seq![("BEGIN"@, Seq::empty()), (BEGIN_COPY_SQL@, seq![SqlParam::Integer(id)])]
    }
}

/// Moves a ready, interrupted, failed or copied job that is not archived
/// into preflight, resetting its copy progress and its sources; refused
/// when no such job changed.
pub fn begin_copy(database: &mut Database, id: i64) -> (result: Result<(), DatabaseError>)
    ensures
        result matches Err(DatabaseError::Rejected(r)) ==> r is MigrationNotStartable,
        result matches Err(e) ==> e is Storage || e is Rejected,
        result is Ok ==> final(database).sent() == old(database).sent() + begin_copy_statements(id, true),
        result is Err && !(result matches Err(DatabaseError::Storage(_))) ==> final(database).sent() == old(
            database,
        ).sent() + begin_copy_statements(id, false),
{
    let connection = database.connect()?;
    send_batch(database, &connection, "BEGIN")?;
    let params = vec![SqlParam::Integer(id)];
    assert(params@ =~= seq![SqlParam::Integer(id)]);
    let changed = send(database, &connection, BEGIN_COPY_SQL, params.as_slice())?;
    if let Err(e) = changed_or(changed, Rejection::MigrationNotStartable) {
        return Err(e);
    }
    send(database, &connection, RESET_SOURCES_SQL, params.as_slice())?;
    send_batch(database, &connection, "COMMIT")?;
    Ok(())
}

pub const CONFIRM_STARTED_SQL: &'static str = "UPDATE migration_jobs SET status = 'running', phase = 'Copying selected items',
             started_at = COALESCE(started_at, CURRENT_TIMESTAMP), updated_at = CURRENT_TIMESTAMP
         WHERE id = ?1 AND status = 'preflight'";

/// Marks a job in preflight as running and records when it first started;
/// refused when no job in preflight changed.
pub fn confirm_copy_started(database: &mut Database, id: i64) -> (result: Result<(), DatabaseError>)
    ensures
        result matches Err(DatabaseError::Rejected(r)) ==> r is PreflightInactive,
        result matches Err(e) ==> e is Storage || e is Rejected,
        !(result matches Err(DatabaseError::Storage(_))) ==> job_statement_sent(
            old(database).sent(),
            final(database).sent(),
            CONFIRM_STARTED_SQL@,
            id,
        ),
{
    let connection = database.connect()?;
    let params = vec![SqlParam::Integer(id)];
    let changed = send(database, &connection, CONFIRM_STARTED_SQL, params.as_slice())?;
    changed_or(changed, Rejection::PreflightInactive)
}

pub const FAIL_PREFLIGHT_SQL: &'static str = "UPDATE migration_jobs SET status = CASE WHEN started_at IS NULL THEN 'ready' ELSE 'error' END,
             phase = 'Preflight requires attention',
             error_message = ?2, updated_at = CURRENT_TIMESTAMP
         WHERE id = ?1 AND status = 'preflight'";

/// Records a failed preflight: a job that never started is ready again,
/// one that had started is in error.
pub fn fail_preflight(database: &mut Database, id: i64, error: &str) -> (result: Result<
    (),
    DatabaseError,
>)
    ensures
        result matches Err(e) ==> e is Storage,
        result is Ok ==> sent_after(old(database).sent(), final(database).sent(), 1) && job_texts_statement(
            final(database).sent().last(),
            FAIL_PREFLIGHT_SQL@,
            id,
            seq![error@],
        ),
{
    let connection = database.connect()?;
    let params = vec![SqlParam::Integer(id), SqlParam::Text(string_from(error))];
    let ghost texts = seq![error@];
    assert forall|i: int| 0 <= i < texts.len() implies #[trigger] text_param(params@[i + 1], texts[i]) by {}
    send(database, &connection, FAIL_PREFLIGHT_SQL, params.as_slice())?;
    Ok(())
}

pub const START_SOURCE_SQL: &'static str = "UPDATE migration_sources SET status = 'running', started_at = CURRENT_TIMESTAMP,
             error_message = '' WHERE migration_id = ?1 AND item_id = ?2";

/// Marks one source of a job running.
pub fn start_source(database: &mut Database, id: i64, item_id: &str) -> (result: Result<
    (),
    DatabaseError,
>)
    ensures
        result matches Err(e) ==> e is Storage,
        result is Ok ==> sent_after(old(database).sent(), final(database).sent(), 1) && job_texts_statement(
            final(database).sent().last(),
            START_SOURCE_SQL@,
            id,
            seq![item_id@],
        ),
{
    let connection = database.connect()?;
    let params = vec![SqlParam::Integer(id), SqlParam::Text(string_from(item_id))];
    let ghost texts = seq![item_id@];
    assert forall|i: int| 0 <= i < texts.len() implies #[trigger] text_param(params@[i + 1], texts[i]) by {}
    send(database, &connection, START_SOURCE_SQL, params.as_slice())?;
    Ok(())
}

pub const COMPLETE_SOURCE_SQL: &'static str = "UPDATE migration_sources SET status = 'completed', completed_at = CURRENT_TIMESTAMP
         WHERE migration_id = ?1 AND item_id = ?2";

pub const RECOUNT_COPIED_SQL: &'static str = "UPDATE migration_jobs SET
             files_copied = (SELECT COALESCE(SUM(files_total), 0) FROM migration_sources
                             WHERE migration_id = ?1 AND status = 'completed'),
             bytes_copied = (SELECT COALESCE(SUM(bytes_total), 0) FROM migration_sources
                             WHERE migration_id = ?1 AND status = 'completed'),
             updated_at = CURRENT_TIMESTAMP WHERE id = ?1";

/// Marks a source copied and recomputes the job's copied totals from its
/// completed sources.
pub fn complete_source(database: &mut Database, id: i64, item_id: &str) -> (result: Result<
    (),
    DatabaseError,
>)
    ensures
        result matches Err(e) ==> e is Storage,
        result is Ok ==> sent_after(old(database).sent(), final(database).sent(), 2) && job_texts_statement(
            final(database).sent()[old(database).sent().len() as int],
            COMPLETE_SOURCE_SQL@,
            id,
            seq![item_id@],
        ) && final(database).sent().last() == (RECOUNT_COPIED_SQL@, seq![SqlParam::Integer(id)]),
{
    let connection = database.connect()?;
    let params = vec![SqlParam::Integer(id), SqlParam::Text(string_from(item_id))];
    let ghost texts = seq![item_id@];
    assert forall|i: int| 0 <= i < texts.len() implies #[trigger] text_param(params@[i + 1], texts[i]) by {}
    let ghost before = database.sent();
    send(database, &connection, COMPLETE_SOURCE_SQL, params.as_slice())?;
    let ghost middle = database.sent();
    let job = vec![SqlParam::Integer(id)];
    assert(job@ =~= seq![SqlParam::Integer(id)]);
    send(database, &connection, RECOUNT_COPIED_SQL, job.as_slice())?;
    proof {
        crate::database::lemma_sent_chain(before, middle, database.sent(), 1, 1);
        assert(database.sent()[before.len() as int] == middle[before.len() as int]);
    }
    Ok(())
}

pub const FAIL_SOURCE_SQL: &'static str = "UPDATE migration_sources SET status = 'failed', completed_at = CURRENT_TIMESTAMP,
                 error_message = ?3 WHERE migration_id = ?1 AND item_id = ?2";

pub const FAIL_JOB_SQL: &'static str = "UPDATE migration_jobs SET status = 'error', phase = 'Copy failed', error_message = ?2,
             exceptions_count = exceptions_count + 1,
             updated_at = CURRENT_TIMESTAMP WHERE id = ?1";

/// Records a failed copy (of one source, when named): the job is in error
/// and counts one more exception.
pub fn fail_copy(database: &mut Database, id: i64, item_id: Option<&str>, error: &str) -> (result:
    Result<(), DatabaseError>)
    ensures
        result matches Err(e) ==> e is Storage,
        result is Ok ==> match item_id {
            Some(item) => sent_after(old(database).sent(), final(database).sent(), 2) && job_texts_statement(
                final(database).sent()[old(database).sent().len() as int],
                FAIL_SOURCE_SQL@,
                id,
                seq![item@, error@],
            ),
            None => sent_after(old(database).sent(), final(database).sent(), 1),
        },
        result is Ok ==> job_texts_statement(final(database).sent().last(), FAIL_JOB_SQL@, id, seq![error@]),
{
    let connection = database.connect()?;
    let ghost before = database.sent();
    if let Some(item) = item_id {
        let params = vec![
            SqlParam::Integer(id),
            SqlParam::Text(string_from(item)),
            SqlParam::Text(string_from(error)),
        ];
        let ghost texts = seq![item@, error@];
        assert forall|i: int| 0 <= i < texts.len() implies #[trigger] text_param(params@[i + 1], texts[i]) by {}
        send(database, &connection, FAIL_SOURCE_SQL, params.as_slice())?;
    }
    let ghost middle = database.sent();
    let params = vec![SqlParam::Integer(id), SqlParam::Text(string_from(error))];
    let ghost texts = seq![error@];
    assert forall|i: int| 0 <= i < texts.len() implies #[trigger] text_param(params@[i + 1], texts[i]) by {}
    send(database, &connection, FAIL_JOB_SQL, params.as_slice())?;
    proof {
        if item_id is Some {
            crate::database::lemma_sent_chain(before, middle, database.sent(), 1, 1);
            assert(database.sent()[before.len() as int] == middle[before.len() as int]);
        }
    }
    Ok(())
}

pub const COMPLETE_COPY_SQL: &'static str = "UPDATE migration_jobs SET status = 'copied',
             phase = CASE WHEN operation_kind = 'local-download'
                          THEN 'Download complete' ELSE 'Copy complete; verification pending' END,
             files_copied = files_total, bytes_copied = bytes_total,
             copy_completed_at = CURRENT_TIMESTAMP, completed_at = CURRENT_TIMESTAMP,
             updated_at = CURRENT_TIMESTAMP
         WHERE id = ?1 AND status = 'running'";

pub const TAG_MIGRATED_SQL: &'static str = "INSERT OR IGNORE INTO drive_item_tags (remote_name, item_id, tag_id)
         SELECT descendant.remote_name, descendant.item_id, tag.id
         FROM migration_jobs job
         JOIN migration_sources source ON source.migration_id = job.id
         JOIN drive_items selected
           ON selected.remote_name = job.source_scope
          AND selected.item_id = source.item_id
         JOIN drive_items descendant
           ON descendant.remote_name = selected.remote_name
          AND descendant.is_deleted = 0
          AND (
               descendant.item_id = selected.item_id
               OR (selected.is_directory = 1 AND
                   substr(descendant.relative_path, 1, length(selected.relative_path) + 1)
                       = selected.relative_path || '/')
          )
         JOIN tags tag ON tag.slug = 'migrated'
         JOIN tag_scopes scope
           ON scope.tag_id = tag.id
          AND scope.scope = CASE job.source_kind
              WHEN 'my-drive' THEN 'my-drive'
              WHEN 'shared-with-me' THEN 'shared-with-me'
          END
         WHERE job.id = ?1 AND job.operation_kind = 'drive-copy'
           AND source.status = 'completed'";

/// The statements a completion of job `id` sends: in a transaction, the
/// guarded move to copied, then (when it moved) the tagging of what a Drive
/// copy moved.
pub open spec fn complete_copy_statements(id: i64, moved: bool) -> Seq<crate::database::SentStatement> {
    if moved {
        seq![
            ("BEGIN"@, Seq::empty()),
            (COMPLETE_COPY_SQL@, seq![SqlParam::Integer(id)]),
            (TAG_MIGRATED_SQL@, seq![SqlParam::Integer(id)]),
            ("COMMIT"@, Seq::empty()),
        ]
    } else {
        seq![("BEGIN"@, Seq::empty()), (COMPLETE_COPY_SQL@, seq![SqlParam::Integer(id)])]
    }
}

/// Completes the copy of a running job and tags what a Drive copy moved as
/// migrated; refused when no running job changed.
pub fn complete_copy(database: &mut Database, id: i64) -> (result: Result<(), DatabaseError>)
    ensures
        result matches Err(DatabaseError::Rejected(r)) ==> r is MigrationNotRunning,
        result matches Err(e) ==> e is Storage || e is Rejected,
        result is Ok ==> final(database).sent() == old(database).sent() + complete_copy_statements(id, true),
        result is Err && !(result matches Err(DatabaseError::Storage(_))) ==> final(database).sent() == old(
            database,
        ).sent() + complete_copy_statements(id, false),
{
    let connection = database.connect()?;
    send_batch(database, &connection, "BEGIN")?;
    let params = vec![SqlParam::Integer(id)];
    assert(params@ =~= seq![SqlParam::Integer(id)]);
    let changed = send(database, &connection, COMPLETE_COPY_SQL, params.as_slice())?;
    if let Err(e) = changed_or(changed, Rejection::MigrationNotRunning) {
        return Err(e);
    }
    send(database, &connection, TAG_MIGRATED_SQL, params.as_slice())?;
    send_batch(database, &connection, "COMMIT")?;
    Ok(())
}

pub const ARCHIVE_SQL: &'static str = "UPDATE migration_jobs SET archived_at = CURRENT_TIMESTAMP, updated_at = CURRENT_TIMESTAMP
         WHERE id = ?1 AND status NOT IN ('preflight', 'running') AND archived_at IS NULL";

/// Archives a job that is neither active nor already archived: the update
/// is sent, and the job is refused when it changed nothing.
pub fn archive(database: &mut Database, id: i64) -> (result: Result<(), DatabaseError>)
    ensures
        result matches Err(DatabaseError::Rejected(r)) ==> r is MigrationNotArchivable,
        result matches Err(e) ==> e is Storage || e is Rejected,
        !(result matches Err(DatabaseError::Storage(_))) ==> job_statement_sent(
            old(database).sent(),
            final(database).sent(),
            ARCHIVE_SQL@,
            id,
        ),
{
    let connection = database.connect()?;
    let params = vec![SqlParam::Integer(id)];
    let changed = send(database, &connection, ARCHIVE_SQL, params.as_slice())?;
    changed_or(changed, Rejection::MigrationNotArchivable)
}

pub const SET_DESTINATION_SQL: &'static str = "UPDATE migration_jobs SET destination_kind = 'google-drive', destination_path = '',
            operation_kind = 'drive-copy', destination_url = ?2, destination_drive_id = ?3,
            destination_drive_name = ?4, destination_folder_id = ?5,
            destination_folder_name = ?6, status = 'ready', phase = 'Ready for copy authorization',
            updated_at = CURRENT_TIMESTAMP, error_message = ''
         WHERE id = ?1 AND started_at IS NULL AND status IN ('draft', 'ready')";

/// Points a job that has not started at a Google Drive folder; it becomes
/// ready for copy authorization. The update is sent; the job is refused as
/// unknown when it changed nothing.
pub fn set_destination(
    database: &mut Database,
    id: i64,
    url: &str,
    drive_id: &str,
    drive_name: &str,
    folder_id: &str,
    folder_name: &str,
) -> (result: Result<(), DatabaseError>)
    ensures
        result matches Err(DatabaseError::Rejected(r)) ==> r == Rejection::UnknownMigration(id),
        result matches Err(e) ==> e is Storage || e is Rejected,
        !(result matches Err(DatabaseError::Storage(_))) ==> sent_after(old(database).sent(), final(database).sent(), 1)
            && job_texts_statement(
            final(database).sent().last(),
            SET_DESTINATION_SQL@,
            id,
            seq![url@, drive_id@, drive_name@, folder_id@, folder_name@],
        ),
{
    let connection = database.connect()?;
    let params = vec![
        SqlParam::Integer(id),
        SqlParam::Text(string_from(url)),
        SqlParam::Text(string_from(drive_id)),
        SqlParam::Text(string_from(drive_name)),
        SqlParam::Text(string_from(folder_id)),
        SqlParam::Text(string_from(folder_name)),
    ];
    let ghost texts = seq![url@, drive_id@, drive_name@, folder_id@, folder_name@];
    assert forall|i: int| 0 <= i < texts.len() implies #[trigger] text_param(params@[i + 1], texts[i]) by {}
    let changed = send(database, &connection, SET_DESTINATION_SQL, params.as_slice())?;
    changed_or(changed, Rejection::UnknownMigration(id))
}

pub const SET_LOCAL_DESTINATION_SQL: &'static str = "UPDATE migration_jobs SET destination_kind = 'local', operation_kind = 'local-download',
             destination_path = ?2, destination_url = '', destination_drive_id = '',
             destination_drive_name = 'Local folder', destination_folder_id = '',
             destination_folder_name = ?2, status = 'ready', phase = 'Ready to download',
             updated_at = CURRENT_TIMESTAMP, error_message = ''
         WHERE id = ?1 AND started_at IS NULL AND status IN ('draft', 'ready')";

/// Points a job that has not started at a local folder; it becomes ready to
/// download. The update is sent; the job is refused when it changed
/// nothing.
pub fn set_local_destination(database: &mut Database, id: i64, destination_path: &str) -> (result:
    Result<(), DatabaseError>)
    ensures
        result matches Err(DatabaseError::Rejected(r)) ==> r == Rejection::UnknownOrStartedMigration(
            id,
        ),
        result matches Err(e) ==> e is Storage || e is Rejected,
        !(result matches Err(DatabaseError::Storage(_))) ==> sent_after(old(database).sent(), final(database).sent(), 1)
            && job_texts_statement(final(database).sent().last(), SET_LOCAL_DESTINATION_SQL@, id, seq![destination_path@]),
{
    let connection = database.connect()?;
    let params = vec![SqlParam::Integer(id), SqlParam::Text(string_from(destination_path))];
    let ghost texts = seq![destination_path@];
    assert forall|i: int| 0 <= i < texts.len() implies #[trigger] text_param(params@[i + 1], texts[i]) by {}
    let changed = send(database, &connection, SET_LOCAL_DESTINATION_SQL, params.as_slice())?;
    changed_or(changed, Rejection::UnknownOrStartedMigration(id))
}

pub const INTERRUPT_JOBS_SQL: &'static str = "UPDATE migration_jobs SET status = 'interrupted',
             phase = 'Interrupted; safe to resume', updated_at = CURRENT_TIMESTAMP,
             error_message = 'BOREAL stopped before this transfer completed'
         WHERE status IN ('preflight', 'running')";

pub const REQUEUE_SOURCES_SQL: &'static str = "UPDATE migration_sources SET status = 'pending', started_at = NULL,
             completed_at = NULL WHERE status = 'running'";

/// The statements recovery sends: in a transaction, the interruption of the
/// active jobs and the return of their running sources to pending.
pub open spec fn recovery_statements() -> Seq<crate::database::SentStatement> {
    seq![
        ("BEGIN"@, Seq::empty()),
        (INTERRUPT_JOBS_SQL@, Seq::empty()),
        (REQUEUE_SOURCES_SQL@, Seq::empty()),
        ("COMMIT"@, Seq::empty()),
    ]
}

/// Interrupts every job a stopped process left active and returns how many
/// there were (the rows the interruption changed); their running sources go
/// back to pending.
pub fn recover_interrupted(database: &mut Database) -> (result: Result<usize, DatabaseError>)
    ensures
        result matches Err(e) ==> e is Storage,
        result is Ok ==> final(database).sent() == old(database).sent() + recovery_statements(),
{
    let connection = database.connect()?;
    send_batch(database, &connection, "BEGIN")?;
    let none: Vec<SqlParam> = Vec::new();
    let changed = send(database, &connection, INTERRUPT_JOBS_SQL, none.as_slice())?;
    send(database, &connection, REQUEUE_SOURCES_SQL, none.as_slice())?;
    send_batch(database, &connection, "COMMIT")?;
    Ok(changed)
}

pub const DESTINATION_FOLDER_SQL: &'static str = "SELECT sd.drive_id, sd.name, sd.name FROM shared_drives sd WHERE sd.drive_id = ?1
         UNION ALL
         SELECT sd.drive_id, sd.name, di.name FROM drive_items di
         JOIN shared_drives sd ON sd.inventory_scope = di.remote_name
         WHERE di.item_id = ?1 AND di.is_directory = 1 AND di.is_deleted = 0 LIMIT 1";

/// The Shared Drive (id, name) and folder name that a Drive folder id names:
/// the drive itself, or an inventoried folder inside one.
pub fn resolve_destination(database: &mut Database, folder_id: &str) -> (result: Result<
    Option<(String, String, String)>,
    DatabaseError,
>)
    ensures
        result is Ok ==> sent_after(old(database).sent(), final(database).sent(), 1) && statement_is(final(database).sent().last(), DESTINATION_FOLDER_SQL@, 1) && text_param(final(database).sent().last().1[0], folder_id@),
        result matches Err(e) ==> e is Storage,
{
    let connection = database.connect()?;
    let params = vec![SqlParam::Text(string_from(folder_id))];
    let (columns, rows) = send_query(database, &connection, DESTINATION_FOLDER_SQL, params.as_slice(),
    )?;
    if rows.len() == 0 || columns < 3 {
        return Ok(None);
    }
    let row = &rows[0];
    Ok(Some((text_or_empty(row, 0), text_or_empty(row, 1), text_or_empty(row, 2))))
}


/// Whether a new job's source and operation are ones BOREAL can run.
pub open spec fn creatable(source_kind: Seq<char>, operation_kind: Seq<char>, items: nat) -> bool {
    (source_kind == seq!['m', 'y', '-', 'd', 'r', 'i', 'v', 'e'] || source_kind == seq![
        's',
        'h',
        'a',
        'r',
        'e',
        'd',
        '-',
        'w',
        'i',
        't',
        'h',
        '-',
        'm',
        'e',
    ]) && (operation_kind == seq!['d', 'r', 'i', 'v', 'e', '-', 'c', 'o', 'p', 'y'] || operation_kind
        == seq!['l', 'o', 'c', 'a', 'l', '-', 'd', 'o', 'w', 'n', 'l', 'o', 'a', 'd']) && items > 0
}

/// Creates a draft job copying or downloading the selected items of My
/// Drive or Shared with Me, recording each item's totals (a folder's
/// include everything inside it). Returns the job id.
pub fn create(
    database: &Database,
    source_scope: &str,
    source_kind: &str,
    item_ids: &[String],
    operation_kind: &str,
) -> (result: Result<i64, DatabaseError>)
    ensures
        !creatable(source_kind@, operation_kind@, item_ids@.len()) ==> result == Err::<
            i64,
            DatabaseError,
        >(DatabaseError::Rejected(Rejection::MigrationSelection)),
{
    let sk = chars_of(source_kind);
    let ok = chars_of(operation_kind);
    proof {
        reveal_strlit("my-drive");
        reveal_strlit("shared-with-me");
        reveal_strlit("drive-copy");
        reveal_strlit("local-download");
        assert("my-drive"@ =~= seq!['m', 'y', '-', 'd', 'r', 'i', 'v', 'e']);
        assert("shared-with-me"@ =~= seq!['s', 'h', 'a', 'r', 'e', 'd', '-', 'w', 'i', 't', 'h', '-', 'm', 'e']);
        assert("drive-copy"@ =~= seq!['d', 'r', 'i', 'v', 'e', '-', 'c', 'o', 'p', 'y']);
        assert("local-download"@ =~= seq!['l', 'o', 'c', 'a', 'l', '-', 'd', 'o', 'w', 'n', 'l', 'o', 'a', 'd']);
    }
    let source_ok = equals_str(sk.as_slice(), "my-drive") || equals_str(sk.as_slice(), "shared-with-me");
    let operation_ok = equals_str(ok.as_slice(), "drive-copy") || equals_str(ok.as_slice(), "local-download");
    if !source_ok || !operation_ok || item_ids.len() == 0 {
        return Err(DatabaseError::Rejected(Rejection::MigrationSelection));
    }
    let connection = database.connect()?;
    run_batch(&connection, "BEGIN")?;
    run(
        &connection,
        "INSERT INTO migration_jobs (source_scope, source_kind, operation_kind)
         VALUES (?1, ?2, ?3)",
        vec![
            SqlParam::Text(string_from(source_scope)),
            SqlParam::Text(string_from(source_kind)),
            SqlParam::Text(string_from(operation_kind)),
        ].as_slice(),
    )?;
    let migration_id = crate::database::sql::sql_last_insert_rowid(&connection);
    let mut i: usize = 0;
    while i < item_ids.len()
        invariant
            i <= item_ids@.len(),
            creatable(source_kind@, operation_kind@, item_ids@.len()),
        decreases item_ids@.len() - i,
    {
        let item_id = &item_ids[i];
        let (columns, rows) = query_rows(
            &connection,
            "SELECT item_id, name, relative_path, is_directory
             FROM drive_items
             WHERE remote_name = ?1 AND item_id = ?2 AND is_deleted = 0",
            vec![SqlParam::Text(string_from(source_scope)), SqlParam::Text(item_id.clone())].as_slice(),
        )?;
        if rows.len() == 0 || columns < 4 {
            return Err(DatabaseError::Rejected(Rejection::UnknownMigrationSource(item_id.clone())));
        }
        let source_item = text_or_empty(&rows[0], 0);
        let name = text_or_empty(&rows[0], 1);
        let relative_path = text_or_empty(&rows[0], 2);
        let is_directory = integer_or_zero(&rows[0], 3) != 0;
        let mut pattern: Vec<char> = Vec::new();
        crate::text::push_str(&mut pattern, relative_path.as_str());
        crate::text::push_str(&mut pattern, "/%");
        let (tcolumns, totals) = query_rows(
            &connection,
            "SELECT
                SUM(CASE WHEN is_directory = 0 THEN 1 ELSE 0 END),
                SUM(CASE WHEN is_directory = 1 THEN 1 ELSE 0 END),
                COALESCE(SUM(CASE WHEN is_directory = 0 THEN COALESCE(size_bytes, 0) ELSE 0 END), 0)
             FROM drive_items
             WHERE remote_name = ?1 AND is_deleted = 0
               AND (item_id = ?2 OR (?3 = 1 AND relative_path LIKE ?4))",
            vec![
                SqlParam::Text(string_from(source_scope)),
                SqlParam::Text(item_id.clone()),
                SqlParam::Integer(if is_directory { 1 } else { 0 }),
                SqlParam::Text(string_of(pattern.as_slice())),
            ].as_slice(),
        )?;
        let (files, folders, bytes) = if totals.len() > 0 && tcolumns >= 3 {
            (integer_or_zero(&totals[0], 0), integer_or_zero(&totals[0], 1), integer_or_zero(&totals[0], 2))
        } else {
            (0, 0, 0)
        };
        run(
            &connection,
            "INSERT INTO migration_sources
             (migration_id, item_id, name, relative_path, is_directory, files_total, folders_total, bytes_total)
             VALUES (?1, ?2, ?3, ?4, ?5, ?6, ?7, ?8)",
            vec![
                SqlParam::Integer(migration_id),
                SqlParam::Text(source_item),
                SqlParam::Text(name),
                SqlParam::Text(relative_path),
                SqlParam::Integer(if is_directory { 1 } else { 0 }),
                SqlParam::Integer(files),
                SqlParam::Integer(folders),
                SqlParam::Integer(bytes),
            ].as_slice(),
        )?;
        i = i + 1;
    }
    run(
        &connection,
        "UPDATE migration_jobs SET
            files_total = (SELECT COALESCE(SUM(files_total), 0) FROM migration_sources WHERE migration_id = ?1),
            folders_total = (SELECT COALESCE(SUM(folders_total), 0) FROM migration_sources WHERE migration_id = ?1),
            bytes_total = (SELECT COALESCE(SUM(bytes_total), 0) FROM migration_sources WHERE migration_id = ?1)
         WHERE id = ?1",
        vec![SqlParam::Integer(migration_id)].as_slice(),
    )?;
    run_batch(&connection, "COMMIT")?;
    Ok(migration_id)
}

/// Creates a job downloading a whole accessible Shared Drive.
pub fn create_shared_drive_download(database: &mut Database, drive_id: &str) -> (result: Result<
    i64,
    DatabaseError,
>)
    ensures
        result matches Err(DatabaseError::Rejected(r)) ==> (r matches Rejection::UnknownSharedDrive(d) && d@ == drive_id@)
            || r is SharedDriveInaccessible,
{
    let drive = match crate::database::inventory::get_shared_drive(database, drive_id) {
        Ok(Some(d)) => d,
        Ok(None) => return Err(DatabaseError::Rejected(Rejection::UnknownSharedDrive(string_from(drive_id)))),
        Err(DatabaseError::Rejected(_)) => return Err(DatabaseError::Storage(string_from("Unable to read Shared Drives"))),
        Err(e) => return Err(e),
    };
    if !drive.is_accessible {
        return Err(DatabaseError::Rejected(Rejection::SharedDriveInaccessible));
    }
    let connection = match database.connect() {
        Ok(c) => c,
        Err(e) => return Err(e),
    };
    if let Err(e) = run_batch(&connection, "BEGIN") {
        return Err(e);
    }
    if let Err(e) = run(
        &connection,
        "INSERT INTO migration_jobs
         (source_scope, source_kind, operation_kind, files_total, folders_total, bytes_total)
         VALUES (?1, 'shared-drive', 'local-download', ?2, ?3, ?4)",
        vec![
            SqlParam::Text(drive.inventory_scope.clone()),
            SqlParam::Integer(drive.files_scanned as i64),
            SqlParam::Integer(drive.folders_scanned as i64),
            SqlParam::Integer(drive.bytes_discovered as i64),
        ].as_slice(),
    ) {
        return Err(e);
    }
    let id = crate::database::sql::sql_last_insert_rowid(&connection);
    if let Err(e) = run(
        &connection,
        "INSERT INTO migration_sources
         (migration_id, item_id, name, relative_path, is_directory,
          files_total, folders_total, bytes_total)
         VALUES (?1, ?2, ?3, '', 1, ?4, ?5, ?6)",
        vec![
            SqlParam::Integer(id),
            SqlParam::Text(drive.drive_id.clone()),
            SqlParam::Text(drive.name.clone()),
            SqlParam::Integer(drive.files_scanned as i64),
            SqlParam::Integer(drive.folders_scanned as i64),
            SqlParam::Integer(drive.bytes_discovered as i64),
        ].as_slice(),
    ) {
        return Err(e);
    }
    if let Err(e) = run_batch(&connection, "COMMIT") {
        return Err(e);
    }
    Ok(id)
}

} // verus!
