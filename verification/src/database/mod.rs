//! BOREAL's SQLite store: the database handle, its errors, and the
//! row-reading helpers the query modules share.
use vstd::prelude::*;

pub mod directory;
pub mod github;
pub mod inventory;
pub mod keeper;
pub mod local_files;
pub mod migrations;
pub mod migration;
pub mod s3;
pub mod settings;
pub mod sql;

use crate::database::sql::{
    SqlParam,
    SqlValue,
    sql_busy_timeout,
    sql_column_count,
    sql_error_message,
    sql_execute,
    sql_execute_batch,
    sql_last_insert_rowid,
    sql_next_row,
    sql_open,
    sql_prepare,
    sql_query,
};

verus! {

/// Why a request was refused before, or instead of, changing the database.
#[derive(Debug, Clone)]
pub enum Rejection {
    TagNameLength,
    TagColorFormat,
    TagDescriptionTooLong,
    TagLocationRequired,
    TagNameNeedsLetters,
    UnknownTag(String),
    DriveItemsRequired,
    UnknownInventoryScope(String),
    TagNotInExplorer(String),
    SharedDrivesRequired,
    TagNotForSharedDrives(String),
    MigrationSelection,
    UnknownMigrationSource(String),
    UnknownSharedDrive(String),
    SharedDriveInaccessible,
    MigrationNotCancelable,
    MigrationNotStartable,
    PreflightInactive,
    MigrationNotRunning,
    MigrationNotArchivable,
    UnknownMigration(i64),
    UnknownOrStartedMigration(i64),
    InvalidFilter(String),
    /// A directory file that cannot be imported, with the reason.
    InvalidImport(String),
    RepositoriesRequired,
    TagNotForRepositories(String),
    SharedFoldersRequired,
    TagNotForSharedFolders(String),
    LocalItemsRequired,
    TagNotForLocalFiles(String),
}

fn message_with(prefix: &str, detail: &str) -> (result: String)
    ensures
        result@ == prefix@ + detail@,
{
    let mut text: Vec<char> = Vec::new();
    crate::text::push_str(&mut text, prefix);
    crate::text::push_str(&mut text, detail);
    crate::text::string_of(text.as_slice())
}

fn quoted_tag(slug: &String, rest: &str) -> (result: String)
    ensures
        result@ == "Tag '"@ + slug@ + rest@,
{
    let mut text: Vec<char> = Vec::new();
    crate::text::push_str(&mut text, "Tag '");
    crate::text::push_str(&mut text, slug.as_str());
    crate::text::push_str(&mut text, rest);
    crate::text::string_of(text.as_slice())
}

fn message_with_id(prefix: &str, id: i64) -> (result: String)
    ensures
        result@ == prefix@ + crate::text::signed_decimal(id as int),
{
    let mut text: Vec<char> = Vec::new();
    crate::text::push_str(&mut text, prefix);
    crate::text::push_i64(&mut text, id);
    crate::text::string_of(text.as_slice())
}

/// The message shown for a refused request.
pub open spec fn rejection_text(reason: Rejection) -> Seq<char> {
    match reason {
        Rejection::TagNameLength => "Tag name must be between 1 and 40 characters"@,
        Rejection::TagColorFormat => "Tag color must use #RGB or #RRGGBB format"@,
        Rejection::TagDescriptionTooLong => "Tag description must not exceed 500 characters"@,
        Rejection::TagLocationRequired => "Select at least one tag location"@,
        Rejection::TagNameNeedsLetters => "Tag name must contain letters or numbers"@,
        Rejection::UnknownTag(slug) => "Unknown tag: "@ + slug@,
        Rejection::DriveItemsRequired => "Select at least one Drive item"@,
        Rejection::UnknownInventoryScope(scope) => "Unknown inventory scope: "@ + scope@,
        Rejection::TagNotInExplorer(slug) => "Tag '"@ + slug@ + "' is not available in this explorer"@,
        Rejection::SharedDrivesRequired => "Select at least one Shared Drive"@,
        Rejection::TagNotForSharedDrives(slug) => "Tag '"@ + slug@ + "' is not available for Shared Drives"@,
        Rejection::InvalidFilter(message) => message@,
        Rejection::InvalidImport(message) => message@,
        Rejection::MigrationSelection => "Select at least one My Drive or Shared with Me item"@,
        Rejection::UnknownMigrationSource(id) => "Unknown or deleted migration source: "@ + id@,
        Rejection::UnknownSharedDrive(id) => "Unknown Shared Drive: "@ + id@,
        Rejection::SharedDriveInaccessible => "The Shared Drive is not accessible"@,
        Rejection::MigrationNotCancelable => "Only migrations that have not started can be canceled"@,
        Rejection::MigrationNotStartable => "This migration cannot be started or resumed"@,
        Rejection::PreflightInactive => "Migration preflight is no longer active"@,
        Rejection::MigrationNotRunning => "Only a running migration can complete its copy"@,
        Rejection::MigrationNotArchivable => "Only inactive, unarchived migrations can be archived"@,
        Rejection::UnknownMigration(id) => "Unknown migration: "@ + crate::text::signed_decimal(id as int),
        Rejection::UnknownOrStartedMigration(id) => "Unknown or already-started migration: "@
            + crate::text::signed_decimal(id as int),
        Rejection::RepositoriesRequired => "Select at least one GitHub repository"@,
        Rejection::TagNotForRepositories(slug) => "Tag '"@ + slug@ + "' is not available for GitHub repositories"@,
        Rejection::SharedFoldersRequired => "Select at least one Keeper shared folder"@,
        Rejection::TagNotForSharedFolders(slug) => "Tag '"@ + slug@ + "' is not available for Keeper shared folders"@,
        Rejection::LocalItemsRequired => "Select at least one local file or folder"@,
        Rejection::TagNotForLocalFiles(slug) => "Tag '"@ + slug@ + "' is not available for Local Files"@,
    }
}

impl Rejection {
    /// The message shown to the person who made the request.
    pub fn message(&self) -> (result: String)
        ensures
            result@ == rejection_text(*self),
    {
        match self {
            Rejection::TagNameLength => crate::text::string_from(
                "Tag name must be between 1 and 40 characters",
            ),
            Rejection::TagColorFormat => crate::text::string_from(
                "Tag color must use #RGB or #RRGGBB format",
            ),
            Rejection::TagDescriptionTooLong => crate::text::string_from(
                "Tag description must not exceed 500 characters",
            ),
            Rejection::TagLocationRequired => crate::text::string_from(
                "Select at least one tag location",
            ),
            Rejection::TagNameNeedsLetters => crate::text::string_from(
                "Tag name must contain letters or numbers",
            ),
            Rejection::UnknownTag(slug) => message_with("Unknown tag: ", slug.as_str()),
            Rejection::DriveItemsRequired => crate::text::string_from("Select at least one Drive item"),
            Rejection::UnknownInventoryScope(scope) => message_with(
                "Unknown inventory scope: ",
                scope.as_str(),
            ),
            Rejection::TagNotInExplorer(slug) => {
                let mut text: Vec<char> = Vec::new();
                crate::text::push_str(&mut text, "Tag '");
                crate::text::push_str(&mut text, slug.as_str());
                crate::text::push_str(&mut text, "' is not available in this explorer");
                assert(text@ =~= rejection_text(*self));
                crate::text::string_of(text.as_slice())
            },
            Rejection::SharedDrivesRequired => crate::text::string_from(
                "Select at least one Shared Drive",
            ),
            Rejection::TagNotForSharedDrives(slug) => {
                let mut text: Vec<char> = Vec::new();
                crate::text::push_str(&mut text, "Tag '");
                crate::text::push_str(&mut text, slug.as_str());
                crate::text::push_str(&mut text, "' is not available for Shared Drives");
                assert(text@ =~= rejection_text(*self));
                crate::text::string_of(text.as_slice())
            },
            Rejection::InvalidFilter(message) => message.clone(),
            Rejection::InvalidImport(message) => message.clone(),
            Rejection::MigrationSelection => crate::text::string_from(
                "Select at least one My Drive or Shared with Me item",
            ),
            Rejection::UnknownMigrationSource(id) => message_with(
                "Unknown or deleted migration source: ",
                id.as_str(),
            ),
            Rejection::UnknownSharedDrive(id) => message_with("Unknown Shared Drive: ", id.as_str()),
            Rejection::SharedDriveInaccessible => crate::text::string_from(
                "The Shared Drive is not accessible",
            ),
            Rejection::MigrationNotCancelable => crate::text::string_from(
                "Only migrations that have not started can be canceled",
            ),
            Rejection::MigrationNotStartable => crate::text::string_from(
                "This migration cannot be started or resumed",
            ),
            Rejection::PreflightInactive => crate::text::string_from(
                "Migration preflight is no longer active",
            ),
            Rejection::MigrationNotRunning => crate::text::string_from(
                "Only a running migration can complete its copy",
            ),
            Rejection::MigrationNotArchivable => crate::text::string_from(
                "Only inactive, unarchived migrations can be archived",
            ),
            Rejection::UnknownMigration(id) => message_with_id("Unknown migration: ", *id),
            Rejection::UnknownOrStartedMigration(id) => message_with_id(
                "Unknown or already-started migration: ",
                *id,
            ),
            Rejection::RepositoriesRequired => crate::text::string_from("Select at least one GitHub repository"),
            Rejection::TagNotForRepositories(slug) => quoted_tag(slug, "' is not available for GitHub repositories"),
            Rejection::SharedFoldersRequired => crate::text::string_from("Select at least one Keeper shared folder"),
            Rejection::TagNotForSharedFolders(slug) => quoted_tag(
                slug,
                "' is not available for Keeper shared folders",
            ),
            Rejection::LocalItemsRequired => crate::text::string_from("Select at least one local file or folder"),
            Rejection::TagNotForLocalFiles(slug) => quoted_tag(slug, "' is not available for Local Files"),
        }
    }
}

/// A failed database request: SQLite's own error, or a refusal of the input.
#[derive(Debug)]
pub enum DatabaseError {
    Storage(String),
    Rejected(Rejection),
    Settings(crate::database::settings::SettingsError),
}

/// The message shown for a failed database request.
pub open spec fn database_error_text(error: DatabaseError) -> Seq<char> {
    match error {
        DatabaseError::Storage(text) => text@,
        DatabaseError::Rejected(reason) => rejection_text(reason),
        DatabaseError::Settings(e) => crate::database::settings::settings_error_text(e),
    }
}

impl DatabaseError {
    pub fn message(&self) -> (result: String)
        ensures
            result@ == database_error_text(*self),
    {
        match self {
            DatabaseError::Storage(text) => text.clone(),
            DatabaseError::Rejected(reason) => reason.message(),
            DatabaseError::Settings(e) => e.message(),
        }
    }
}

/// A SQLite error, carried as its message.
pub(crate) fn storage(error: rusqlite::Error) -> (result: DatabaseError)
    ensures
        result is Storage,
{
    DatabaseError::Storage(sql_error_message(&error))
}

pub const START_SCAN_SQL: &'static str = "INSERT INTO scan_runs (scan_type, status) VALUES (?1, 'running')";

pub const COMPLETE_SCAN_SQL: &'static str = "UPDATE scan_runs SET status = 'complete', completed_at = CURRENT_TIMESTAMP, error_message = NULL,
                files_scanned = ?2, folders_scanned = ?3, permissions_scanned = ?4,
                bytes_discovered = ?5, deleted_items = ?6
             WHERE id = ?1";

pub const FAIL_SCAN_SQL: &'static str = "UPDATE scan_runs SET status = 'error', completed_at = CURRENT_TIMESTAMP, error_message = ?2 WHERE id = ?1";

/// The start of a running scan of type `scan_type`.
pub open spec fn scan_started(statement: SentStatement, scan_type: Seq<char>) -> bool {
    statement_is(statement, START_SCAN_SQL@, 1) && crate::database::inventory::text_param(statement.1[0], scan_type)
}

/// One statement handed to SQLite: its text and the parameters bound to it.
pub type SentStatement = (Seq<char>, Seq<SqlParam>);

/// Where BOREAL's SQLite file lives. Connections are opened per request, so
/// background work never shares one. The handle keeps, as ghost state, the
/// statements the library has handed to SQLite through it, in order; the
/// contracts say which statements each request sends.
#[derive(Clone)]
pub struct Database {
    path: String,
    sent: Ghost<Seq<SentStatement>>,
}

impl Database {
    pub closed spec fn spec_path(&self) -> Seq<char> {
        self.path@
    }

    /// The statements sent through this handle so far, oldest first.
    pub closed spec fn sent(&self) -> Seq<SentStatement> {
        self.sent@
    }

    /// A handle on the database file at `path`.
    pub fn at(path: String) -> (result: Database)
        ensures
            result.spec_path() == path@,
            result.sent() == Seq::<SentStatement>::empty(),
    {
        Database { path, sent: Ghost(Seq::empty()) }
    }

    /// Notes that `statement` was handed to SQLite.
    pub(crate) fn note_sent(&mut self, statement: Ghost<SentStatement>)
        ensures
            final(self).sent() == old(self).sent().push(statement@),
            final(self).spec_path() == old(self).spec_path(),
    {
        proof {
            self.sent@ = self.sent@.push(statement@);
        }
    }

    pub fn path(&self) -> (result: &str)
        ensures
            result@ == self.spec_path(),
    {
        self.path.as_str()
    }

    /// Opens a connection that waits five seconds on a locked file and
    /// enforces foreign keys.
    pub fn connect(&self) -> (result: Result<rusqlite::Connection, DatabaseError>)
        ensures
            result matches Err(e) ==> e is Storage,
    {
        let connection = match sql_open(self.path.as_str()) {
            Ok(c) => c,
            Err(e) => return Err(storage(e)),
        };
        if let Err(e) = sql_busy_timeout(&connection, 5) {
            return Err(storage(e));
        }
        if let Err(e) = sql_execute_batch(
            &connection,
            "PRAGMA foreign_keys = ON; PRAGMA journal_mode = WAL;",
        ) {
            return Err(storage(e));
        }
        Ok(connection)
    }

    /// Records a new running scan of the given type and returns its id.
    pub fn start_scan_run(&mut self, scan_type: &str) -> (result: Result<i64, DatabaseError>)
        ensures
            result matches Err(e) ==> e is Storage,
            result is Ok ==> sent_after(old(self).sent(), final(self).sent(), 1) && scan_started(
                final(self).sent().last(),
                scan_type@,
            ),
    {
        let connection = self.connect()?;
        let params = vec![SqlParam::Text(crate::text::string_from(scan_type))];
        send(self, &connection, START_SCAN_SQL, params.as_slice())?;
        Ok(sql_last_insert_rowid(&connection))
    }

    /// Marks a scan complete with the counts of its summary.
    pub fn complete_scan_run(&mut self, id: i64, summary: &crate::database::inventory::InventorySummary) -> (result:
        Result<(), DatabaseError>)
        ensures
            result matches Err(e) ==> e is Storage,
            result is Ok ==> sent_after(old(self).sent(), final(self).sent(), 1) && ({
                let st = final(self).sent().last();
                &&& statement_is(st, COMPLETE_SCAN_SQL@, 6)
                &&& crate::database::inventory::integer_param(st.1[0], id as int)
                &&& crate::database::inventory::integer_param(st.1[1], summary.files_scanned as i64 as int)
                &&& crate::database::inventory::integer_param(st.1[2], summary.folders_scanned as i64 as int)
                &&& crate::database::inventory::integer_param(st.1[3], summary.permissions_scanned as i64 as int)
                &&& crate::database::inventory::integer_param(st.1[4], summary.bytes_discovered as i64 as int)
                &&& crate::database::inventory::integer_param(st.1[5], summary.deleted_items as i64 as int)
            }),
    {
        let connection = self.connect()?;
        let params = vec![
            SqlParam::Integer(id),
            SqlParam::Integer(summary.files_scanned as i64),
            SqlParam::Integer(summary.folders_scanned as i64),
            SqlParam::Integer(summary.permissions_scanned as i64),
            SqlParam::Integer(summary.bytes_discovered as i64),
            SqlParam::Integer(summary.deleted_items as i64),
        ];
        send(self, &connection, COMPLETE_SCAN_SQL, params.as_slice())?;
        Ok(())
    }

    /// Marks a scan as failed with the given message.
    pub fn fail_scan_run(&mut self, id: i64, error: &str) -> (result: Result<(), DatabaseError>)
        ensures
            result matches Err(e) ==> e is Storage,
            result is Ok ==> sent_after(old(self).sent(), final(self).sent(), 1) && statement_is(
                final(self).sent().last(),
                FAIL_SCAN_SQL@,
                2,
            ) && crate::database::inventory::integer_param(final(self).sent().last().1[0], id as int)
                && crate::database::inventory::text_param(final(self).sent().last().1[1], error@),
    {
        let connection = self.connect()?;
        let params = vec![SqlParam::Integer(id), SqlParam::Text(crate::text::string_from(error))];
        send(self, &connection, FAIL_SCAN_SQL, params.as_slice())?;
        Ok(())
    }
}

/// Runs one statement and reports how many rows it changed.
pub(crate) fn run(connection: &rusqlite::Connection, sql: &str, params: &[SqlParam]) -> (result:
    Result<usize, DatabaseError>)
    ensures
        result matches Err(e) ==> e is Storage,
{
    match sql_execute(connection, sql, params) {
        Ok(n) => Ok(n),
        Err(e) => Err(storage(e)),
    }
}

/// Runs a batch of statements.
pub(crate) fn run_batch(connection: &rusqlite::Connection, sql: &str) -> (result: Result<
    (),
    DatabaseError,
>)
    ensures
        result matches Err(e) ==> e is Storage,
{
    match sql_execute_batch(connection, sql) {
        Ok(()) => Ok(()),
        Err(e) => Err(storage(e)),
    }
}

/// `after` is `before` followed by `n` more statements.
pub open spec fn sent_after(before: Seq<SentStatement>, after: Seq<SentStatement>, n: int) -> bool {
    &&& after.len() == before.len() + n
    &&& after.subrange(0, before.len() as int) == before
}

proof fn lemma_sent_push(before: Seq<SentStatement>, statement: SentStatement)
    ensures
        sent_after(before, before.push(statement), 1),
{
    assert(before.push(statement).subrange(0, before.len() as int) =~= before);
}

/// Sending `n` statements and then `m` more sends `n + m`, the first `n`
/// unchanged.
pub proof fn lemma_sent_chain(a: Seq<SentStatement>, b: Seq<SentStatement>, c: Seq<SentStatement>, n: int, m: int)
    requires
        sent_after(a, b, n),
        sent_after(b, c, m),
        n >= 0,
        m >= 0,
    ensures
        sent_after(a, c, n + m),
        forall|k: int| 0 <= k < b.len() ==> #[trigger] c[k] == b[k],
{
    assert forall|k: int| 0 <= k < b.len() implies #[trigger] c[k] == b[k] by {
        assert(c.subrange(0, b.len() as int)[k] == c[k]);
    }
    assert(c.subrange(0, a.len() as int) =~= a) by {
        assert forall|k: int| 0 <= k < a.len() implies c.subrange(0, a.len() as int)[k] == a[k] by {
            assert(b.subrange(0, a.len() as int)[k] == b[k]);
        }
    }
}

/// `after` keeps `before` as its beginning.
pub open spec fn extends(before: Seq<SentStatement>, after: Seq<SentStatement>) -> bool {
    before.len() <= after.len() && after.subrange(0, before.len() as int) == before
}

pub proof fn lemma_extends_trans(a: Seq<SentStatement>, b: Seq<SentStatement>, c: Seq<SentStatement>)
    requires
        extends(a, b),
        extends(b, c),
    ensures
        extends(a, c),
        forall|j: int| 0 <= j < b.len() ==> #[trigger] c[j] == b[j],
{
    assert forall|j: int| 0 <= j < b.len() implies #[trigger] c[j] == b[j] by {
        assert(c.subrange(0, b.len() as int)[j] == c[j]);
    }
    assert(c.subrange(0, a.len() as int) =~= a) by {
        assert forall|j: int| 0 <= j < a.len() implies c.subrange(0, a.len() as int)[j] == a[j] by {
            assert(b.subrange(0, a.len() as int)[j] == b[j]);
        }
    }
}

/// The statement `sql` with `n` parameters.
pub open spec fn statement_is(statement: SentStatement, sql: Seq<char>, n: nat) -> bool {
    statement.0 == sql && statement.1.len() == n
}

/// The answer to a statement that changes a row only when its guard holds:
/// success when a row changed, else the refusal.
pub fn changed_or(changed: usize, refusal: Rejection) -> (result: Result<(), DatabaseError>)
    ensures
        result is Ok <==> changed > 0,
        result matches Err(e) ==> e == DatabaseError::Rejected(refusal),
{
    if changed == 0 {
        Err(DatabaseError::Rejected(refusal))
    } else {
        Ok(())
    }
}

/// Runs one statement, noting it as sent, and reports how many rows it
/// changed.
pub(crate) fn send(database: &mut Database, connection: &rusqlite::Connection, sql: &str, params: &[SqlParam]) -> (result:
    Result<usize, DatabaseError>)
    ensures
        final(database).sent() == old(database).sent().push((sql@, params@)),
        sent_after(old(database).sent(), final(database).sent(), 1),
        final(database).sent().last() == (sql@, params@),
        final(database).spec_path() == old(database).spec_path(),
        result matches Err(e) ==> e is Storage,
{
    database.note_sent(Ghost((sql@, params@)));
    proof {
        lemma_sent_push(old(database).sent(), (sql@, params@));
    }
    run(connection, sql, params)
}

/// Runs a statement without parameters (`BEGIN`, `COMMIT`), noting it as
/// sent.
pub(crate) fn send_batch(database: &mut Database, connection: &rusqlite::Connection, sql: &str) -> (result: Result<
    (),
    DatabaseError,
>)
    ensures
        final(database).sent() == old(database).sent().push((sql@, Seq::<SqlParam>::empty())),
        sent_after(old(database).sent(), final(database).sent(), 1),
        final(database).sent().last() == (sql@, Seq::<SqlParam>::empty()),
        final(database).spec_path() == old(database).spec_path(),
        result matches Err(e) ==> e is Storage,
{
    database.note_sent(Ghost((sql@, Seq::<SqlParam>::empty())));
    proof {
        lemma_sent_push(old(database).sent(), (sql@, Seq::<SqlParam>::empty()));
    }
    run_batch(connection, sql)
}

/// Runs a query, noting it as sent, and returns its rows.
pub(crate) fn send_query(
    database: &mut Database,
    connection: &rusqlite::Connection,
    sql: &str,
    params: &[SqlParam],
) -> (result: Result<(usize, Vec<Vec<SqlValue>>), DatabaseError>)
    ensures
        final(database).sent() == old(database).sent().push((sql@, params@)),
        sent_after(old(database).sent(), final(database).sent(), 1),
        final(database).sent().last() == (sql@, params@),
        final(database).spec_path() == old(database).spec_path(),
        result matches Ok((columns, rows)) ==> forall|i: int|
            0 <= i < rows.len() ==> #[trigger] rows[i].len() == columns,
        result matches Err(e) ==> e is Storage,
{
    database.note_sent(Ghost((sql@, params@)));
    proof {
        lemma_sent_push(old(database).sent(), (sql@, params@));
    }
    query_rows(connection, sql, params)
}

/// Runs a query for one integer, noting it as sent: the first cell of its
/// first row, zero when there is none.
pub(crate) fn send_count(database: &mut Database, connection: &rusqlite::Connection, sql: &str, params: &[SqlParam]) -> (result:
    Result<i64, DatabaseError>)
    ensures
        final(database).sent() == old(database).sent().push((sql@, params@)),
        sent_after(old(database).sent(), final(database).sent(), 1),
        final(database).sent().last() == (sql@, params@),
        final(database).spec_path() == old(database).spec_path(),
        result matches Err(e) ==> e is Storage,
{
    let (columns, rows) = send_query(database, connection, sql, params)?;
    if rows.len() > 0 && columns > 0 {
        Ok(integer_or_zero(&rows[0], 0))
    } else {
        Ok(0)
    }
}

/// Every row of a query, each with one cell per result column.
pub(crate) fn query_rows(connection: &rusqlite::Connection, sql: &str, params: &[SqlParam]) -> (result:
    Result<(usize, Vec<Vec<SqlValue>>), DatabaseError>)
    ensures
        result matches Ok((columns, rows)) ==> forall|i: int|
            0 <= i < rows.len() ==> #[trigger] rows[i].len() == columns,
        result matches Err(e) ==> e is Storage,
{
    let mut statement = match sql_prepare(connection, sql) {
        Ok(s) => s,
        Err(e) => return Err(storage(e)),
    };
    let columns = sql_column_count(&statement);
    let mut rows = match sql_query(&mut statement, params) {
        Ok(r) => r,
        Err(e) => return Err(storage(e)),
    };
    let mut out: Vec<Vec<SqlValue>> = Vec::new();
    while out.len() < usize::MAX
        invariant
            forall|i: int| 0 <= i < out.len() ==> #[trigger] out[i].len() == columns,
        decreases usize::MAX - out.len(),
    {
        match sql_next_row(&mut rows, columns) {
            Ok(Some(cells)) => out.push(cells),
            Ok(None) => break,
            Err(e) => return Err(storage(e)),
        }
    }
    Ok((columns, out))
}

/// The integer in a cell; `NULL` and non-integers read as `None`.
pub open spec fn cell_integer(cell: SqlValue) -> Option<i64> {
    match cell {
        SqlValue::Integer(v) => Some(v),
        _ => None,
    }
}

/// The text in a cell; `NULL` and non-text read as `None`.
pub open spec fn cell_text(cell: SqlValue) -> Option<Seq<char>> {
    match cell {
        SqlValue::Text(t) => Some(t@),
        _ => None,
    }
}

pub(crate) fn integer_at(row: &Vec<SqlValue>, i: usize) -> (result: Option<i64>)
    requires
        i < row.len(),
    ensures
        result == cell_integer(row[i as int]),
{
    match &row[i] {
        SqlValue::Integer(v) => Some(*v),
        _ => None,
    }
}

pub(crate) fn integer_or_zero(row: &Vec<SqlValue>, i: usize) -> (result: i64)
    requires
        i < row.len(),
    ensures
        result == match cell_integer(row[i as int]) {
            Some(v) => v,
            None => 0,
        },
{
    match integer_at(row, i) {
        Some(v) => v,
        None => 0,
    }
}

pub(crate) fn text_at(row: &Vec<SqlValue>, i: usize) -> (result: Option<String>)
    requires
        i < row.len(),
    ensures
        result matches Some(t) ==> cell_text(row[i as int]) == Some(t@),
        result is None ==> cell_text(row[i as int]) is None,
{
    match &row[i] {
        SqlValue::Text(t) => Some(t.clone()),
        _ => None,
    }
}

pub(crate) fn text_or_empty(row: &Vec<SqlValue>, i: usize) -> (result: String)
    requires
        i < row.len(),
    ensures
        result@ == match cell_text(row[i as int]) {
            Some(t) => t,
            None => Seq::<char>::empty(),
        },
{
    match text_at(row, i) {
        Some(t) => t,
        None => String::new(),
    }
}

/// The first cell of the first row, read as an integer (0 when absent).
/// Links a tag to, or unlinks it from, each of `ids` in one transaction,
/// once the tag is found by `lookup`; how many links changed, or `None`
/// (and nothing changed) when no such tag is available.
/// Two parameters bind the same value.
pub open spec fn same_param(a: SqlParam, b: SqlParam) -> bool {
    match (a, b) {
        (SqlParam::Null, SqlParam::Null) => true,
        (SqlParam::Integer(x), SqlParam::Integer(y)) => x == y,
        (SqlParam::Text(x), SqlParam::Text(y)) => x@ == y@,
        _ => false,
    }
}

fn copy_param(p: &SqlParam) -> (result: SqlParam)
    ensures
        same_param(result, *p),
{
    match p {
        SqlParam::Null => SqlParam::Null,
        SqlParam::Integer(i) => SqlParam::Integer(*i),
        SqlParam::Text(t) => SqlParam::Text(t.clone()),
    }
}

/// What changing the links of a tag sends after `before`: in a transaction,
/// the lookup of tag `slug`, then for each id the removal (or the insertion)
/// of its link to that tag, all with one tag id.
pub open spec fn tag_links_changed(
    before: Seq<SentStatement>,
    after: Seq<SentStatement>,
    lookup: Seq<char>,
    slug: Seq<char>,
    ids: Seq<SqlParam>,
    delete: Seq<char>,
    insert: Seq<char>,
    remove: bool,
) -> bool {
    let n = before.len() as int;
    &&& sent_after(before, after, ids.len() as int + 3)
    &&& after[n] == ("BEGIN"@, Seq::<SqlParam>::empty())
    &&& statement_is(after[n + 1], lookup, 1) && crate::database::inventory::text_param(after[n + 1].1[0], slug)
    &&& forall|k: int|
        0 <= k < ids.len() ==> {
            let s = #[trigger] after[n + 2 + k];
            &&& statement_is(s, if remove { delete } else { insert }, 2)
            &&& same_param(s.1[0], ids[k])
            &&& s.1[1] == after[n + 2].1[1]
            &&& s.1[1] is Integer
        }
    &&& after.last() == ("COMMIT"@, Seq::<SqlParam>::empty())
}

/// The same links are changed for ids that bind the same values.
pub proof fn lemma_links_same_ids(
    before: Seq<SentStatement>,
    after: Seq<SentStatement>,
    lookup: Seq<char>,
    slug: Seq<char>,
    ids: Seq<SqlParam>,
    others: Seq<SqlParam>,
    delete: Seq<char>,
    insert: Seq<char>,
    remove: bool,
)
    requires
        tag_links_changed(before, after, lookup, slug, ids, delete, insert, remove),
        ids.len() == others.len(),
        forall|k: int| 0 <= k < ids.len() ==> same_param(#[trigger] ids[k], others[k]),
    ensures
        tag_links_changed(before, after, lookup, slug, others, delete, insert, remove),
{
    let n = before.len() as int;
    assert forall|k: int| 0 <= k < others.len() implies {
        let s = #[trigger] after[n + 2 + k];
        &&& statement_is(s, if remove { delete } else { insert }, 2)
        &&& same_param(s.1[0], others[k])
        &&& s.1[1] == after[n + 2].1[1]
        &&& s.1[1] is Integer
    } by {
        assert(same_param(ids[k], others[k]));
    }
}

pub(crate) fn change_tag_links(
    database: &mut Database,
    connection: &rusqlite::Connection,
    lookup: &str,
    slug: &str,
    ids: &[SqlParam],
    delete: &str,
    insert: &str,
    remove: bool,
) -> (result: Result<Option<usize>, DatabaseError>)
    requires
        ids@.len() > 0,
    ensures
        result matches Err(e) ==> e is Storage,
        result matches Ok(Some(_)) ==> tag_links_changed(
            old(database).sent(),
            final(database).sent(),
            lookup@,
            slug@,
            ids@,
            delete@,
            insert@,
            remove,
        ),
{
    let ghost before = database.sent();
    send_batch(database, connection, "BEGIN")?;
    let ghost begun = database.sent();
    let params = vec![SqlParam::Text(crate::text::string_from(slug))];
    let (columns, rows) = send_query(database, connection, lookup, params.as_slice())?;
    proof {
        lemma_sent_chain(before, begun, database.sent(), 1, 1);
    }
    let tag_id = if rows.len() > 0 && columns > 0 {
        integer_at(&rows[0], 0)
    } else {
        None
    };
    let tag_id = match tag_id {
        Some(id) => id,
        None => {
            send_batch(database, connection, "ROLLBACK")?;
            return Ok(None);
        },
    };
    let mut changed: usize = 0;
    let mut i: usize = 0;
    while i < ids.len()
        invariant
            i <= ids@.len(),
            ids@.len() > 0,
            sent_after(before, database.sent(), i + 2),
            database.sent()[before.len() as int] == ("BEGIN"@, Seq::<SqlParam>::empty()),
            statement_is(database.sent()[before.len() as int + 1], lookup@, 1),
            crate::database::inventory::text_param(database.sent()[before.len() as int + 1].1[0], slug@),
            forall|k: int|
                0 <= k < i ==> {
                    let s = #[trigger] database.sent()[before.len() as int + 2 + k];
                    &&& statement_is(s, if remove { delete@ } else { insert@ }, 2)
                    &&& same_param(s.1[0], ids@[k])
                    &&& s.1[1] == SqlParam::Integer(tag_id)
                },
        decreases ids@.len() - i,
    {
        let ghost previous = database.sent();
        let params = vec![copy_param(&ids[i]), SqlParam::Integer(tag_id)];
        let n = if remove {
            send(database, connection, delete, params.as_slice())?
        } else {
            send(database, connection, insert, params.as_slice())?
        };
        proof {
            lemma_sent_chain(before, previous, database.sent(), i + 2, 1);
        }
        changed = changed.saturating_add(n);
        i = i + 1;
    }
    let ghost linked = database.sent();
    send_batch(database, connection, "COMMIT")?;
    proof {
        lemma_sent_chain(before, linked, database.sent(), ids@.len() as int + 2, 1);
        let after = database.sent();
        let n = before.len() as int;
        assert(after[n] == linked[n]);
        assert(after[n + 1] == linked[n + 1]);
        assert(after[n + 2] == linked[n + 2]);
        assert forall|k: int| 0 <= k < ids@.len() implies {
            let s = #[trigger] after[n + 2 + k];
            &&& statement_is(s, if remove { delete@ } else { insert@ }, 2)
            &&& same_param(s.1[0], ids@[k])
            &&& s.1[1] == after[n + 2].1[1]
            &&& s.1[1] is Integer
        } by {
            assert(after[n + 2 + k] == linked[n + 2 + k]);
            assert(linked[n + 2 + 0] == linked[n + 2]);
        }
    }
    Ok(Some(changed))
}

pub(crate) fn query_count(connection: &rusqlite::Connection, sql: &str, params: &[SqlParam]) -> (result:
    Result<i64, DatabaseError>)
    ensures
        result matches Err(e) ==> e is Storage,
{
    let (columns, rows) = query_rows(connection, sql, params)?;
    if rows.len() > 0 && columns > 0 {
        Ok(integer_or_zero(&rows[0], 0))
    } else {
        Ok(0)
    }
}

} // verus!
