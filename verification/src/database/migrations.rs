//! Schema migrations: each applied once, in order, in a transaction of its
//! own, and recorded in `schema_migrations`.
use vstd::prelude::*;

use crate::database::sql::SqlParam;
use crate::database::{query_count, run, run_batch, Database, DatabaseError};

verus! {

/// One schema change: its version, its name and the statements it runs.
#[derive(Debug, Clone)]
pub struct Migration {
    pub version: i64,
    pub name: String,
    pub sql: String,
}

/// Applies, in order, each migration not yet recorded, and records it;
/// returns how many were applied.  A failed migration leaves its
/// transaction uncommitted and stops the rest.
pub fn apply(connection: &rusqlite::Connection, migrations: &[Migration]) -> (result: Result<usize, DatabaseError>)
    ensures
        result matches Ok(n) ==> n <= migrations@.len(),
        result matches Err(e) ==> e is Storage,
{
    run_batch(
        connection,
        "CREATE TABLE IF NOT EXISTS schema_migrations (
            version INTEGER PRIMARY KEY,
            name TEXT NOT NULL,
            applied_at TEXT NOT NULL DEFAULT CURRENT_TIMESTAMP
        );",
    )?;
    let mut applied: usize = 0;
    let mut i: usize = 0;
    while i < migrations.len()
        invariant
            i <= migrations@.len(),
            applied <= i,
        decreases migrations@.len() - i,
    {
        let migration = &migrations[i];
        let version = vec![SqlParam::Integer(migration.version)];
        let already = query_count(
            connection,
            "SELECT EXISTS(SELECT 1 FROM schema_migrations WHERE version = ?1)",
            version.as_slice(),
        )?;
        if already == 0 {
            run_batch(connection, "BEGIN")?;
            if let Err(e) = run_batch(connection, migration.sql.as_str()) {
                let _ = run_batch(connection, "ROLLBACK");
                return Err(e);
            }
            let record = vec![SqlParam::Integer(migration.version), SqlParam::Text(migration.name.clone())];
            if let Err(e) = run(
                connection,
                "INSERT INTO schema_migrations (version, name) VALUES (?1, ?2)",
                record.as_slice(),
            ) {
                let _ = run_batch(connection, "ROLLBACK");
                return Err(e);
            }
            run_batch(connection, "COMMIT")?;
            applied = applied + 1;
        }
        i = i + 1;
    }
    Ok(applied)
}

impl Database {
    /// Opens the database file at `path` (its folder must exist) and brings
    /// its schema up to date with `migrations`.
    pub fn initialize(path: String, migrations: &[Migration]) -> (result: Result<Database, DatabaseError>)
        ensures
            result matches Ok(d) ==> d.spec_path() == path@,
            result matches Err(e) ==> e is Storage,
    {
        let database = Database::at(path);
        let connection = database.connect()?;
        apply(&connection, migrations)?;
        Ok(database)
    }
}

} // verus!
