//! Inventory settings, stored as text values under dotted keys.
use vstd::prelude::*;

use crate::database::sql::SqlParam;
use crate::database::{
    Database,
    DatabaseError,
    SentStatement,
    query_rows,
    run,
    run_batch,
    send,
    send_batch,
    send_query,
    sent_after,
    statement_is,
    text_at,
};
use crate::database::inventory::{integer_param, text_param};
use crate::local_files::{
    LocalRoot,
    RootError,
    roots_valid,
    validate_roots,
};
use crate::s3::{
    normalized_remote_name,
    valid_remote_name,
    validate_remote_name,
};
use crate::text::{
    chars_of,
    decimal_chars,
    equals_str,
    parse_u32,
    push_str,
    strip_trailing_char,
    string_from,
    string_of,
    trim,
    trim_str,
    u32_text_value,
};

verus! {

#[derive(Debug, Clone)]
pub struct InventorySettings {
    pub google_drive_enabled: bool,
    pub automatic_updates: bool,
    pub refresh_interval_hours: u32,
    pub full_reconciliation_days: u32,
    pub update_when_overdue_at_startup: bool,
    pub directory_sheet_enabled: bool,
    pub directory_sheet_url: String,
    pub github_enabled: bool,
    pub github_login: String,
    pub github_last_sync_at: String,
    pub keeper_enabled: bool,
    pub keeper_command: String,
    pub keeper_last_sync_at: String,
    pub local_files_enabled: bool,
    pub local_file_roots: String,
    pub local_exclude_hidden: bool,
    pub local_exclude_caches: bool,
    pub local_exclude_temporary: bool,
    pub local_exclude_patterns: String,
    pub local_files_last_sync_at: String,
    pub s3_enabled: bool,
    pub s3_remote_name: String,
}

/// Why settings were refused.
#[derive(Debug, Clone)]
pub enum SettingsError {
    RefreshInterval,
    ReconciliationInterval,
    SheetUrlRequired,
    LocalRoots(RootError),
    S3RemoteName,
    InvalidBoolean { key: String, value: String },
    InvalidNumber { key: String, value: String },
}

/// The message shown for refused settings.
pub open spec fn settings_error_text(error: SettingsError) -> Seq<char> {
    match error {
        SettingsError::RefreshInterval => "Refresh interval must be between 1 and 720 hours"@,
        SettingsError::ReconciliationInterval => "Full reconciliation interval must be between 1 and 365 days"@,
        SettingsError::SheetUrlRequired => "A Google Sheets URL is required when linked directory import is enabled"@,
        SettingsError::LocalRoots(e) => crate::local_files::root_error_text(e.problem, e.path@),
        SettingsError::S3RemoteName => "Enter a valid Rclone remote name"@,
        SettingsError::InvalidBoolean { key, value } => "Invalid boolean setting "@ + key@ + ": "@ + value@,
        SettingsError::InvalidNumber { key, value } => "Invalid numeric setting "@ + key@ + ": "@ + value@,
    }
}

impl SettingsError {
    pub fn message(&self) -> (result: String)
        ensures
            result@ == settings_error_text(*self),
    {
        match self {
            SettingsError::RefreshInterval => string_from(
                "Refresh interval must be between 1 and 720 hours",
            ),
            SettingsError::ReconciliationInterval => string_from(
                "Full reconciliation interval must be between 1 and 365 days",
            ),
            SettingsError::SheetUrlRequired => string_from(
                "A Google Sheets URL is required when linked directory import is enabled",
            ),
            SettingsError::LocalRoots(e) => e.message(),
            SettingsError::S3RemoteName => string_from("Enter a valid Rclone remote name"),
            SettingsError::InvalidBoolean { key, value } => {
                let mut text: Vec<char> = Vec::new();
                push_str(&mut text, "Invalid boolean setting ");
                push_str(&mut text, key.as_str());
                push_str(&mut text, ": ");
                push_str(&mut text, value.as_str());
                assert(text@ =~= settings_error_text(*self));
                string_of(text.as_slice())
            },
            SettingsError::InvalidNumber { key, value } => {
                let mut text: Vec<char> = Vec::new();
                push_str(&mut text, "Invalid numeric setting ");
                push_str(&mut text, key.as_str());
                push_str(&mut text, ": ");
                push_str(&mut text, value.as_str());
                assert(text@ =~= settings_error_text(*self));
                string_of(text.as_slice())
            },
        }
    }
}

impl InventorySettings {
    /// Settings of a fresh installation; local inventory starts at `home_dir`.
    pub fn defaults(home_dir: String) -> (result: InventorySettings)
        ensures
            !result.google_drive_enabled,
            !result.automatic_updates,
            result.refresh_interval_hours == 24,
            result.full_reconciliation_days == 7,
            !result.update_when_overdue_at_startup,
            !result.directory_sheet_enabled,
            result.directory_sheet_url@.len() == 0,
            !result.github_enabled,
            result.github_login@.len() == 0,
            result.github_last_sync_at@.len() == 0,
            !result.keeper_enabled,
            result.keeper_command@.len() == 0,
            result.keeper_last_sync_at@.len() == 0,
            !result.local_files_enabled,
            result.local_file_roots@ == home_dir@,
            result.local_exclude_hidden,
            result.local_exclude_caches,
            result.local_exclude_temporary,
            result.local_exclude_patterns@.len() == 0,
            result.local_files_last_sync_at@.len() == 0,
            !result.s3_enabled,
            result.s3_remote_name@.len() == 0,
    {
        InventorySettings {
            google_drive_enabled: false,
            automatic_updates: false,
            refresh_interval_hours: 24,
            full_reconciliation_days: 7,
            update_when_overdue_at_startup: false,
            directory_sheet_enabled: false,
            directory_sheet_url: String::new(),
            github_enabled: false,
            github_login: String::new(),
            github_last_sync_at: String::new(),
            keeper_enabled: false,
            keeper_command: String::new(),
            keeper_last_sync_at: String::new(),
            local_files_enabled: false,
            local_file_roots: home_dir,
            local_exclude_hidden: true,
            local_exclude_caches: true,
            local_exclude_temporary: true,
            local_exclude_patterns: String::new(),
            local_files_last_sync_at: String::new(),
            s3_enabled: false,
            s3_remote_name: String::new(),
        }
    }

    /// Checks the settings in order: refresh interval (1 to 720 hours), full
    /// reconciliation (1 to 365 days), a sheet URL when directory import is
    /// on, the local roots when local inventory is on (`roots` are the
    /// configured folders as found on disk), and the S3 remote name when S3
    /// is on.
    pub fn validate(&self, roots: &[LocalRoot]) -> (result: Result<(), SettingsError>)
        ensures
            !(1 <= self.refresh_interval_hours <= 720) ==> result matches Err(
                SettingsError::RefreshInterval,
            ),
            (1 <= self.refresh_interval_hours <= 720) && !(1 <= self.full_reconciliation_days <= 365)
                ==> result matches Err(SettingsError::ReconciliationInterval),
            (1 <= self.refresh_interval_hours <= 720) && (1 <= self.full_reconciliation_days <= 365)
                ==> {
                if self.directory_sheet_enabled && trim(self.directory_sheet_url@).len() == 0 {
                    result matches Err(SettingsError::SheetUrlRequired)
                } else if self.local_files_enabled && !roots_valid(roots@) {
                    result matches Err(SettingsError::LocalRoots(_))
                } else if self.s3_enabled && !valid_remote_name(
                    normalized_remote_name(self.s3_remote_name@),
                ) {
                    result matches Err(SettingsError::S3RemoteName)
                } else {
                    result is Ok
                }
            },
    {
        if !(1 <= self.refresh_interval_hours && self.refresh_interval_hours <= 720) {
            return Err(SettingsError::RefreshInterval);
        }
        if !(1 <= self.full_reconciliation_days && self.full_reconciliation_days <= 365) {
            return Err(SettingsError::ReconciliationInterval);
        }
        if self.directory_sheet_enabled && trim_str(self.directory_sheet_url.as_str()).len() == 0 {
            return Err(SettingsError::SheetUrlRequired);
        }
        if self.local_files_enabled {
            if let Err(e) = validate_roots(roots) {
                return Err(SettingsError::LocalRoots(e));
            }
        }
        if self.s3_enabled {
            if validate_remote_name(self.s3_remote_name.as_str()).is_err() {
                return Err(SettingsError::S3RemoteName);
            }
        }
        Ok(())
    }
}

/// How a stored boolean setting reads: `true`, `false`, the default when
/// absent, and `None` for any other text.
pub open spec fn stored_bool(value: Option<Seq<char>>, default: bool) -> Option<bool> {
    match value {
        None => Some(default),
        Some(v) => if v == seq!['t', 'r', 'u', 'e'] {
            Some(true)
        } else if v == seq!['f', 'a', 'l', 's', 'e'] {
            Some(false)
        } else {
            None
        },
    }
}

pub open spec fn text_view(value: Option<String>) -> Option<Seq<char>> {
    match value {
        Some(v) => Some(v@),
        None => None,
    }
}

/// The stored text of a boolean.
pub open spec fn bool_text(value: bool) -> Seq<char> {
    if value {
        seq!['t', 'r', 'u', 'e']
    } else {
        seq!['f', 'a', 'l', 's', 'e']
    }
}

pub fn bool_value(value: bool) -> (result: &'static str)
    ensures
        result@ == bool_text(value),
{
    proof {
        reveal_strlit("true");
        reveal_strlit("false");
    }
    if value {
        "true"
    } else {
        "false"
    }
}

/// Reads a stored boolean: `true` or `false`, the default when the key is
/// absent, an error naming the key for anything else.
pub fn parse_bool_setting(key: &str, stored: Option<String>, default: bool) -> (result: Result<
    bool,
    SettingsError,
>)
    ensures
        stored_bool(text_view(stored), default) is Some ==> (result matches Ok(r) && Some(r)
            == stored_bool(text_view(stored), default)),
        stored_bool(text_view(stored), default) is None ==> (result matches Err(
            SettingsError::InvalidBoolean { .. },
        )),
{
    match stored {
        None => {
            assert(text_view(stored) is None);
            assert(stored_bool(text_view(stored), default) == Some(default));
            Ok(default)
        },
        Some(v) => {
            let chars = chars_of(v.as_str());
            proof {
                reveal_strlit("true");
                reveal_strlit("false");
                assert("true"@ =~= seq!['t', 'r', 'u', 'e']);
                assert("false"@ =~= seq!['f', 'a', 'l', 's', 'e']);
            }
            if equals_str(chars.as_slice(), "true") {
                assert(chars@ =~= seq!['t', 'r', 'u', 'e']);
                Ok(true)
            } else if equals_str(chars.as_slice(), "false") {
                assert(chars@ =~= seq!['f', 'a', 'l', 's', 'e']);
                Ok(false)
            } else {
                assert(chars@ != seq!['t', 'r', 'u', 'e']);
                Err(SettingsError::InvalidBoolean { key: string_from(key), value: v })
            }
        },
    }
}

/// Reads a stored number: the default when absent, the value when it is a
/// `u32` as `str::parse` reads one, an error naming the key otherwise.
pub fn parse_u32_setting(key: &str, stored: Option<String>, default: u32) -> (result: Result<
    u32,
    SettingsError,
>)
    ensures
        stored is None ==> (result matches Ok(r) && r == default),
        stored matches Some(v) ==> match u32_text_value(v@) {
            Some(n) => result matches Ok(r) && r == n,
            None => result matches Err(SettingsError::InvalidNumber { .. }),
        },
{
    match stored {
        None => Ok(default),
        Some(v) => {
            let chars = chars_of(v.as_str());
            match parse_u32(chars.as_slice()) {
                Some(n) => Ok(n),
                None => Err(SettingsError::InvalidNumber { key: string_from(key), value: v }),
            }
        },
    }
}

pub const GET_SETTING_SQL: &'static str = "SELECT value FROM settings WHERE key = ?1";

pub const SET_SETTING_SQL: &'static str = "INSERT INTO settings (key, value, updated_at) VALUES (?1, ?2, CURRENT_TIMESTAMP)
         ON CONFLICT(key) DO UPDATE SET value = excluded.value, updated_at = CURRENT_TIMESTAMP";

/// The read of setting `key`.
pub open spec fn setting_read(statement: SentStatement, key: Seq<char>) -> bool {
    statement_is(statement, GET_SETTING_SQL@, 1) && text_param(statement.1[0], key)
}

/// The write of `value` under setting `key`.
pub open spec fn setting_written(statement: SentStatement, key: Seq<char>, value: Seq<char>) -> bool {
    statement_is(statement, SET_SETTING_SQL@, 2) && text_param(statement.1[0], key) && text_param(
        statement.1[1],
        value,
    )
}

/// The stored text of setting `key`, if any, from the rows of its read.
fn stored_text(columns: usize, rows: &Vec<Vec<crate::database::sql::SqlValue>>) -> (result: Option<String>)
    requires
        forall|i: int| 0 <= i < rows.len() ==> #[trigger] rows[i].len() == columns,
{
    if rows.len() > 0 && columns > 0 {
        text_at(&rows[0], 0)
    } else {
        None
    }
}

/// Reads setting `key`, noting the read as sent.
fn read_setting(database: &mut Database, connection: &rusqlite::Connection, key: &str) -> (result: Result<
    Option<String>,
    DatabaseError,
>)
    ensures
        sent_after(old(database).sent(), final(database).sent(), 1),
        setting_read(final(database).sent().last(), key@),
        result matches Err(e) ==> e is Storage,
{
    let params = vec![SqlParam::Text(string_from(key))];
    let (columns, rows) = send_query(database, connection, GET_SETTING_SQL, params.as_slice())?;
    Ok(stored_text(columns, &rows))
}

/// Writes `value` under setting `key`, noting the write as sent.
fn write_setting(database: &mut Database, connection: &rusqlite::Connection, key: &str, value: String) -> (result:
    Result<(), DatabaseError>)
    ensures
        sent_after(old(database).sent(), final(database).sent(), 1),
        setting_written(final(database).sent().last(), key@, value@),
        result matches Err(e) ==> e is Storage,
{
    let params = vec![SqlParam::Text(string_from(key)), SqlParam::Text(value)];
    send(database, connection, SET_SETTING_SQL, params.as_slice())?;
    Ok(())
}

fn get(connection: &rusqlite::Connection, key: &str) -> (result: Result<Option<String>, DatabaseError>)
    ensures
        result matches Err(e) ==> e is Storage,
{
    let params = vec![SqlParam::Text(string_from(key))];
    let (columns, rows) = query_rows(connection, GET_SETTING_SQL, params.as_slice())?;
    if rows.len() > 0 && columns > 0 {
        Ok(text_at(&rows[0], 0))
    } else {
        Ok(None)
    }
}

fn get_or(connection: &rusqlite::Connection, key: &str, default: String) -> (result: Result<
    String,
    DatabaseError,
>)
    ensures
        result matches Err(e) ==> e is Storage,
{
    match get(connection, key)? {
        Some(v) => Ok(v),
        None => Ok(default),
    }
}

fn get_bool(connection: &rusqlite::Connection, key: &str, default: bool) -> (result: Result<
    bool,
    DatabaseError,
>)
    ensures
        result matches Err(e) ==> (e is Storage || e is Settings),
{
    let value = get(connection, key)?;
    match parse_bool_setting(key, value, default) {
        Ok(b) => Ok(b),
        Err(e) => Err(DatabaseError::Settings(e)),
    }
}

fn get_u32(connection: &rusqlite::Connection, key: &str, default: u32) -> (result: Result<
    u32,
    DatabaseError,
>)
    ensures
        result matches Err(e) ==> (e is Storage || e is Settings),
{
    let value = get(connection, key)?;
    match parse_u32_setting(key, value, default) {
        Ok(n) => Ok(n),
        Err(e) => Err(DatabaseError::Settings(e)),
    }
}

pub(crate) fn set(connection: &rusqlite::Connection, key: &str, value: String) -> (result: Result<
    (),
    DatabaseError,
>)
    ensures
        result matches Err(e) ==> e is Storage,
{
    let params = vec![SqlParam::Text(string_from(key)), SqlParam::Text(value)];
    run(connection, SET_SETTING_SQL, params.as_slice())?;
    Ok(())
}

fn set_flag(connection: &rusqlite::Connection, key: &str, value: bool) -> (result: Result<
    (),
    DatabaseError,
>)
    ensures
        result matches Err(e) ==> e is Storage,
{
    set(connection, key, string_from(bool_value(value)))
}

fn trimmed(s: &String) -> (result: String)
    ensures
        result@ == trim(s@),
{
    let t = trim_str(s.as_str());
    string_of(t.as_slice())
}

/// Reads every setting, falling back to the defaults for keys never saved.
pub fn load(database: &Database, home_dir: String) -> (result: Result<InventorySettings, DatabaseError>)
    ensures
        result matches Err(e) ==> (e is Storage || e is Settings),
{
    let connection = database.connect()?;
    let d = InventorySettings::defaults(home_dir);
    Ok(InventorySettings {
        google_drive_enabled: get_bool(&connection, "google_drive.enabled", d.google_drive_enabled)?,
        automatic_updates: get_bool(&connection, "inventory.automatic_updates", d.automatic_updates)?,
        refresh_interval_hours: get_u32(
            &connection,
            "inventory.refresh_interval_hours",
            d.refresh_interval_hours,
        )?,
        full_reconciliation_days: get_u32(
            &connection,
            "inventory.full_reconciliation_days",
            d.full_reconciliation_days,
        )?,
        update_when_overdue_at_startup: get_bool(
            &connection,
            "inventory.update_when_overdue_at_startup",
            d.update_when_overdue_at_startup,
        )?,
        directory_sheet_enabled: get_bool(
            &connection,
            "directory.sheet_enabled",
            d.directory_sheet_enabled,
        )?,
        directory_sheet_url: get_or(&connection, "directory.sheet_url", d.directory_sheet_url)?,
        github_enabled: get_bool(&connection, "github.enabled", d.github_enabled)?,
        github_login: get_or(&connection, "github.login", d.github_login)?,
        github_last_sync_at: get_or(&connection, "github.last_sync_at", d.github_last_sync_at)?,
        keeper_enabled: get_bool(&connection, "keeper.enabled", d.keeper_enabled)?,
        keeper_command: get_or(&connection, "keeper.command", d.keeper_command)?,
        keeper_last_sync_at: get_or(&connection, "keeper.last_sync_at", d.keeper_last_sync_at)?,
        local_files_enabled: get_bool(&connection, "local_files.enabled", d.local_files_enabled)?,
        local_file_roots: get_or(&connection, "local_files.roots", d.local_file_roots)?,
        local_exclude_hidden: get_bool(
            &connection,
            "local_files.exclude_hidden",
            d.local_exclude_hidden,
        )?,
        local_exclude_caches: get_bool(
            &connection,
            "local_files.exclude_caches",
            d.local_exclude_caches,
        )?,
        local_exclude_temporary: get_bool(
            &connection,
            "local_files.exclude_temporary",
            d.local_exclude_temporary,
        )?,
        local_exclude_patterns: get_or(
            &connection,
            "local_files.exclude_patterns",
            d.local_exclude_patterns,
        )?,
        local_files_last_sync_at: get_or(
            &connection,
            "local_files.last_sync_at",
            d.local_files_last_sync_at,
        )?,
        s3_enabled: get_bool(&connection, "s3.enabled", d.s3_enabled)?,
        s3_remote_name: get_or(&connection, "s3.remote_name", d.s3_remote_name)?,
    })
}

/// The settings `save` stores, as (key, text) in the order it writes them:
/// flags as `true`/`false`, numbers in decimal, texts trimmed, and the S3
/// remote name trimmed and without trailing colons.
pub open spec fn setting_entries(s: InventorySettings) -> Seq<(Seq<char>, Seq<char>)> {
    seq![
        ("google_drive.enabled"@, bool_text(s.google_drive_enabled)),
        ("inventory.automatic_updates"@, bool_text(s.automatic_updates)),
        ("inventory.refresh_interval_hours"@, crate::text::decimal(s.refresh_interval_hours as nat)),
        ("inventory.full_reconciliation_days"@, crate::text::decimal(s.full_reconciliation_days as nat)),
        ("inventory.update_when_overdue_at_startup"@, bool_text(s.update_when_overdue_at_startup)),
        ("directory.sheet_enabled"@, bool_text(s.directory_sheet_enabled)),
        ("directory.sheet_url"@, trim(s.directory_sheet_url@)),
        ("github.enabled"@, bool_text(s.github_enabled)),
        ("github.login"@, trim(s.github_login@)),
        ("keeper.enabled"@, bool_text(s.keeper_enabled)),
        ("keeper.command"@, trim(s.keeper_command@)),
        ("local_files.enabled"@, bool_text(s.local_files_enabled)),
        ("local_files.roots"@, trim(s.local_file_roots@)),
        ("local_files.exclude_hidden"@, bool_text(s.local_exclude_hidden)),
        ("local_files.exclude_caches"@, bool_text(s.local_exclude_caches)),
        ("local_files.exclude_temporary"@, bool_text(s.local_exclude_temporary)),
        ("local_files.exclude_patterns"@, trim(s.local_exclude_patterns@)),
        ("s3.enabled"@, bool_text(s.s3_enabled)),
        ("s3.remote_name"@, crate::text::strip_trailing(trim(s.s3_remote_name@), ':')),
    ]
}

fn flag_text(value: bool) -> (result: String)
    ensures
        result@ == bool_text(value),
{
    string_from(bool_value(value))
}

/// The entries of `setting_entries`, built.
fn setting_values(s: &InventorySettings) -> (result: Vec<(&'static str, String)>)
    ensures
        result@.len() == setting_entries(*s).len(),
        forall|i: int|
            0 <= i < result@.len() ==> (#[trigger] result@[i]).0@ == setting_entries(*s)[i].0 && result@[i].1@
                == setting_entries(*s)[i].1,
{
    let remote = trim_str(s.s3_remote_name.as_str());
    let remote = strip_trailing_char(remote.as_slice(), ':');
    let v = vec![
        ("google_drive.enabled", flag_text(s.google_drive_enabled)),
        ("inventory.automatic_updates", flag_text(s.automatic_updates)),
        ("inventory.refresh_interval_hours", string_of(decimal_chars(s.refresh_interval_hours as u64).as_slice())),
        ("inventory.full_reconciliation_days", string_of(decimal_chars(s.full_reconciliation_days as u64).as_slice())),
        ("inventory.update_when_overdue_at_startup", flag_text(s.update_when_overdue_at_startup)),
        ("directory.sheet_enabled", flag_text(s.directory_sheet_enabled)),
        ("directory.sheet_url", trimmed(&s.directory_sheet_url)),
        ("github.enabled", flag_text(s.github_enabled)),
        ("github.login", trimmed(&s.github_login)),
        ("keeper.enabled", flag_text(s.keeper_enabled)),
        ("keeper.command", trimmed(&s.keeper_command)),
        ("local_files.enabled", flag_text(s.local_files_enabled)),
        ("local_files.roots", trimmed(&s.local_file_roots)),
        ("local_files.exclude_hidden", flag_text(s.local_exclude_hidden)),
        ("local_files.exclude_caches", flag_text(s.local_exclude_caches)),
        ("local_files.exclude_temporary", flag_text(s.local_exclude_temporary)),
        ("local_files.exclude_patterns", trimmed(&s.local_exclude_patterns)),
        ("s3.enabled", flag_text(s.s3_enabled)),
        ("s3.remote_name", string_of(remote.as_slice())),
    ];
    v
}

pub const SHEET_SOURCE_SQL: &'static str = "INSERT INTO directory_sources (
            name, source_type, source_location, enabled, refresh_on_metadata_update
         ) VALUES ('Linked Google Sheet directory', 'google_sheet', ?1, ?2, ?2)
         ON CONFLICT(name) DO UPDATE SET
            source_location = excluded.source_location,
            enabled = excluded.enabled,
            refresh_on_metadata_update = excluded.refresh_on_metadata_update,
            updated_at = CURRENT_TIMESTAMP";

/// What a successful `save` sends after `before`: in a transaction, each of
/// `setting_entries` written in order, then the linked sheet's directory
/// source with its trimmed address and whether it is enabled.
pub open spec fn settings_saved(before: Seq<SentStatement>, after: Seq<SentStatement>, s: InventorySettings) -> bool {
    let n = before.len() as int;
    let entries = setting_entries(s);
    &&& sent_after(before, after, entries.len() as int + 3)
    &&& after[n] == ("BEGIN"@, Seq::<SqlParam>::empty())
    &&& forall|k: int|
        0 <= k < entries.len() ==> setting_written(#[trigger] after[n + 1 + k], entries[k].0, entries[k].1)
    &&& statement_is(after[n + 1 + entries.len()], SHEET_SOURCE_SQL@, 2)
    &&& text_param(after[n + 1 + entries.len()].1[0], trim(s.directory_sheet_url@))
    &&& integer_param(after[n + 1 + entries.len()].1[1], if s.directory_sheet_enabled { 1 } else { 0 })
    &&& after.last() == ("COMMIT"@, Seq::<SqlParam>::empty())
}

/// Validates the settings, then stores all of them in one transaction.
/// Refused settings send nothing.
pub fn save(database: &mut Database, settings: &InventorySettings, roots: &[LocalRoot]) -> (result:
    Result<(), DatabaseError>)
    ensures
        settings.validate_result(roots@) is Err <==> result matches Err(DatabaseError::Settings(_)),
        settings.validate_result(roots@) is Err ==> final(database).sent() == old(database).sent(),
        result matches Err(e) ==> e is Storage || e is Settings,
        result is Ok ==> settings_saved(old(database).sent(), final(database).sent(), *settings),
{
    if let Err(e) = settings.validate(roots) {
        return Err(DatabaseError::Settings(e));
    }
    let connection = database.connect()?;
    let ghost before = database.sent();
    send_batch(database, &connection, "BEGIN")?;
    let values = setting_values(settings);
    let ghost entries = setting_entries(*settings);
    let mut i: usize = 0;
    while i < values.len()
        invariant
            i <= values@.len(),
            settings.validate_result(roots@) is Ok,
            values@.len() == entries.len(),
            entries == setting_entries(*settings),
            forall|k: int|
                0 <= k < values@.len() ==> (#[trigger] values@[k]).0@ == entries[k].0 && values@[k].1@
                    == entries[k].1,
            sent_after(before, database.sent(), i + 1),
            database.sent()[before.len() as int] == ("BEGIN"@, Seq::<SqlParam>::empty()),
            forall|k: int|
                0 <= k < i ==> setting_written(
                    #[trigger] database.sent()[before.len() + 1 + k],
                    entries[k].0,
                    entries[k].1,
                ),
        decreases values@.len() - i,
    {
        let ghost previous = database.sent();
        write_setting(database, &connection, values[i].0, values[i].1.clone())?;
        proof {
            crate::database::lemma_sent_chain(before, previous, database.sent(), i + 1, 1);
        }
        i = i + 1;
    }
    let ghost written = database.sent();
    let params = vec![
        SqlParam::Text(trimmed(&settings.directory_sheet_url)),
        SqlParam::Integer(if settings.directory_sheet_enabled { 1 } else { 0 }),
    ];
    send(database, &connection, SHEET_SOURCE_SQL, params.as_slice())?;
    let ghost sourced = database.sent();
    proof {
        crate::database::lemma_sent_chain(before, written, sourced, entries.len() as int + 1, 1);
    }
    send_batch(database, &connection, "COMMIT")?;
    proof {
        crate::database::lemma_sent_chain(before, sourced, database.sent(), entries.len() as int + 2, 1);
        assert forall|k: int| 0 <= k < entries.len() implies setting_written(
            #[trigger] database.sent()[before.len() + 1 + k],
            entries[k].0,
            entries[k].1,
        ) by {
            assert(database.sent()[before.len() + 1 + k] == sourced[before.len() + 1 + k]);
            assert(sourced[before.len() + 1 + k] == written[before.len() + 1 + k]);
        }
    }
    Ok(())
}

impl InventorySettings {
    /// Whether `validate` refuses these settings with these roots.
    pub open spec fn validate_result(&self, roots: Seq<LocalRoot>) -> Result<(), ()> {
        if !(1 <= self.refresh_interval_hours <= 720) || !(1 <= self.full_reconciliation_days
            <= 365) || (self.directory_sheet_enabled && trim(self.directory_sheet_url@).len() == 0)
            || (self.local_files_enabled && !roots_valid(roots)) || (self.s3_enabled
            && !valid_remote_name(normalized_remote_name(self.s3_remote_name@))) {
            Err(())
        } else {
            Ok(())
        }
    }
}

pub const DRIVE_DATA_SQL: &'static str = "SELECT EXISTS(SELECT 1 FROM drive_items LIMIT 1)
             OR EXISTS(SELECT 1 FROM remote_accounts LIMIT 1)";

/// What first start writes for `google_drive.enabled`: nothing when the flag
/// is already stored, else whether a Google client is configured or Drive
/// data already exists.
pub fn google_drive_flag_to_write(stored: bool, has_google_client: bool, has_drive_data: bool) -> (result: Option<
    bool,
>)
    ensures
        result == (if stored {
            None
        } else {
            Some(has_google_client || has_drive_data)
        }),
{
    if stored {
        None
    } else {
        Some(has_google_client || has_drive_data)
    }
}

/// Whether the answer to the Drive data query says some Drive data exists:
/// a first cell holding a non-zero integer.
pub fn drive_data_found(columns: usize, rows: &Vec<Vec<crate::database::sql::SqlValue>>) -> (result: bool)
    requires
        forall|i: int| 0 <= i < rows.len() ==> #[trigger] rows[i].len() == columns,
    ensures
        result == (rows.len() > 0 && columns > 0 && (crate::database::cell_integer(rows[0][0]) matches Some(v)
            && v != 0)),
{
    rows.len() > 0 && columns > 0 && match crate::database::integer_at(&rows[0], 0) {
        Some(v) => v != 0,
        None => false,
    }
}

/// Keeps Google Drive on for installations that predate optional sources:
/// when the flag was never stored, it is set from whether a Google client is
/// configured or any Drive data already exists. The flag is read first;
/// when it is missing, the Drive data query follows and, in a transaction,
/// the value `google_drive_flag_to_write` gives.
pub fn initialize_google_drive_enabled(database: &mut Database, has_google_client: bool) -> (result:
    Result<(), DatabaseError>)
    ensures
        result matches Err(e) ==> e is Storage,
        result is Ok ==> final(database).sent().len() > old(database).sent().len() && setting_read(
            final(database).sent()[old(database).sent().len() as int],
            "google_drive.enabled"@,
        ),
        result is Ok ==> sent_after(old(database).sent(), final(database).sent(), 1) || google_drive_flag_sent(
            old(database).sent(),
            final(database).sent(),
            has_google_client,
        ),
{
    let connection = database.connect()?;
    let ghost before = database.sent();
    let stored = read_setting(database, &connection, "google_drive.enabled")?;
    let ghost read = database.sent();
    let none: Vec<SqlParam> = Vec::new();
    let (columns, rows) = if stored.is_some() {
        (0, Vec::new())
    } else {
        send_query(database, &connection, DRIVE_DATA_SQL, none.as_slice())?
    };
    let has_drive_data = drive_data_found(columns, &rows);
    match google_drive_flag_to_write(stored.is_some(), has_google_client, has_drive_data) {
        None => Ok(()),
        Some(value) => {
            let ghost queried = database.sent();
            send_batch(database, &connection, "BEGIN")?;
            let ghost begun = database.sent();
            write_setting(database, &connection, "google_drive.enabled", string_from(bool_value(value)))?;
            let ghost written = database.sent();
            send_batch(database, &connection, "COMMIT")?;
            proof {
                crate::database::lemma_sent_chain(before, read, queried, 1, 1);
                crate::database::lemma_sent_chain(before, queried, begun, 2, 1);
                crate::database::lemma_sent_chain(before, begun, written, 3, 1);
                crate::database::lemma_sent_chain(before, written, database.sent(), 4, 1);
                assert(google_drive_flag_sent(before, database.sent(), has_google_client));
            }
            Ok(())
        },
    }
}

/// The statements after the read when the flag was missing: the Drive data
/// query, then, in a transaction, the flag written as on when a client is
/// configured and otherwise as the query found.
pub open spec fn google_drive_flag_sent(
    before: Seq<SentStatement>,
    after: Seq<SentStatement>,
    has_google_client: bool,
) -> bool {
    let n = before.len() as int;
    &&& sent_after(before, after, 5)
    &&& after[n + 1] == (DRIVE_DATA_SQL@, Seq::<SqlParam>::empty())
    &&& after[n + 2] == ("BEGIN"@, Seq::<SqlParam>::empty())
    &&& setting_written(after[n + 3], "google_drive.enabled"@, bool_text(true)) || (!has_google_client
        && setting_written(after[n + 3], "google_drive.enabled"@, bool_text(false)))
    &&& after[n + 4] == ("COMMIT"@, Seq::<SqlParam>::empty())
}

/// Reads the boolean setting `key` (`default` when never stored).
fn read_flag(database: &mut Database, key: &str, default: bool) -> (result: Result<bool, DatabaseError>)
    ensures
        result matches Err(e) ==> (e is Storage || e is Settings),
        result is Ok ==> sent_after(old(database).sent(), final(database).sent(), 1) && setting_read(
            final(database).sent().last(),
            key@,
        ),
{
    let connection = database.connect()?;
    let value = read_setting(database, &connection, key)?;
    match parse_bool_setting(key, value, default) {
        Ok(b) => Ok(b),
        Err(e) => Err(DatabaseError::Settings(e)),
    }
}

/// Stores the boolean setting `key`.
fn write_flag(database: &mut Database, key: &str, value: bool) -> (result: Result<(), DatabaseError>)
    ensures
        result matches Err(e) ==> e is Storage,
        result is Ok ==> sent_after(old(database).sent(), final(database).sent(), 1) && setting_written(
            final(database).sent().last(),
            key@,
            bool_text(value),
        ),
{
    let connection = database.connect()?;
    write_setting(database, &connection, key, string_from(bool_value(value)))
}

/// Whether directory setup was skipped (read from `directory.setup_skipped`).
pub fn directory_setup_skipped(database: &mut Database) -> (result: Result<bool, DatabaseError>)
    ensures
        result matches Err(e) ==> (e is Storage || e is Settings),
        result is Ok ==> sent_after(old(database).sent(), final(database).sent(), 1) && setting_read(
            final(database).sent().last(),
            "directory.setup_skipped"@,
        ),
{
    read_flag(database, "directory.setup_skipped", false)
}

/// Records whether directory setup was skipped.
pub fn set_directory_setup_skipped(database: &mut Database, skipped: bool) -> (result: Result<
    (),
    DatabaseError,
>)
    ensures
        result matches Err(e) ==> e is Storage,
        result is Ok ==> sent_after(old(database).sent(), final(database).sent(), 1) && setting_written(
            final(database).sent().last(),
            "directory.setup_skipped"@,
            bool_text(skipped),
        ),
{
    write_flag(database, "directory.setup_skipped", skipped)
}

/// Whether metadata setup was skipped (read from `metadata.setup_skipped`).
pub fn metadata_setup_skipped(database: &mut Database) -> (result: Result<bool, DatabaseError>)
    ensures
        result matches Err(e) ==> (e is Storage || e is Settings),
        result is Ok ==> sent_after(old(database).sent(), final(database).sent(), 1) && setting_read(
            final(database).sent().last(),
            "metadata.setup_skipped"@,
        ),
{
    read_flag(database, "metadata.setup_skipped", false)
}

/// Records whether metadata setup was skipped.
pub fn set_metadata_setup_skipped(database: &mut Database, skipped: bool) -> (result: Result<
    (),
    DatabaseError,
>)
    ensures
        result matches Err(e) ==> e is Storage,
        result is Ok ==> sent_after(old(database).sent(), final(database).sent(), 1) && setting_written(
            final(database).sent().last(),
            "metadata.setup_skipped"@,
            bool_text(skipped),
        ),
{
    write_flag(database, "metadata.setup_skipped", skipped)
}

/// Whether the bookmark reminder was dismissed.
pub fn bookmark_reminder_dismissed(database: &mut Database) -> (result: Result<bool, DatabaseError>)
    ensures
        result matches Err(e) ==> (e is Storage || e is Settings),
        result is Ok ==> sent_after(old(database).sent(), final(database).sent(), 1) && setting_read(
            final(database).sent().last(),
            "ui.bookmark_reminder_dismissed"@,
        ),
{
    read_flag(database, "ui.bookmark_reminder_dismissed", false)
}

/// Records whether the bookmark reminder was dismissed.
pub fn set_bookmark_reminder_dismissed(database: &mut Database, dismissed: bool) -> (result: Result<
    (),
    DatabaseError,
>)
    ensures
        result matches Err(e) ==> e is Storage,
        result is Ok ==> sent_after(old(database).sent(), final(database).sent(), 1) && setting_written(
            final(database).sent().last(),
            "ui.bookmark_reminder_dismissed"@,
            bool_text(dismissed),
        ),
{
    write_flag(database, "ui.bookmark_reminder_dismissed", dismissed)
}

} // verus!
