//! S3 objects as last listed.
use vstd::prelude::*;

use crate::database::sql::SqlParam;
use crate::database::inventory::{integer_param, text_param};
use crate::database::{
    send,
    send_batch,
    sent_after,
    statement_is,
    SentStatement,
    Database,
    DatabaseError,
    integer_or_zero,
    query_rows,
    run,
    run_batch,
    text_or_empty,
};
use crate::format::{
    format_bytes,
    size_text,
};
use crate::s3::Object;

verus! {

#[derive(Debug, Clone, Default)]
pub struct Summary {
    pub objects: u64,
    pub prefixes: u64,
    pub bytes: u64,
    pub size_label: String,
    pub completed_at: String,
}

/// Accessible objects and prefixes, their bytes (with a display label) and
/// when the bucket was last listed.
pub fn summary(database: &Database) -> (result: Result<Summary, DatabaseError>)
    ensures
        result matches Err(e) ==> e is Storage,
        result matches Ok(s) ==> s.size_label@ == size_text(s.bytes as nat),
{
    let connection = database.connect()?;
    let none: Vec<SqlParam> = Vec::new();
    let (columns, rows) = query_rows(
        &connection,
        "SELECT COALESCE(SUM(CASE WHEN is_directory=0 THEN 1 ELSE 0 END),0),
                COALESCE(SUM(CASE WHEN is_directory=1 THEN 1 ELSE 0 END),0),
                COALESCE(SUM(CASE WHEN is_directory=0 THEN size_bytes ELSE 0 END),0),
                COALESCE((SELECT value FROM settings WHERE key='s3.last_sync_at'),'')
         FROM s3_objects WHERE is_accessible=1",
        none.as_slice(),
    )?;
    let (objects, prefixes, bytes, completed_at) = if rows.len() > 0 && columns >= 4 {
        (
            integer_or_zero(&rows[0], 0) as u64,
            integer_or_zero(&rows[0], 1) as u64,
            integer_or_zero(&rows[0], 2) as u64,
            text_or_empty(&rows[0], 3),
        )
    } else {
        (0, 0, 0, String::new())
    };
    Ok(Summary { objects, prefixes, bytes, size_label: format_bytes(bytes), completed_at })
}

pub const HIDE_OBJECTS_SQL: &'static str = "UPDATE s3_objects SET is_accessible = 0 WHERE remote_name = ?1";

pub const OBJECT_UPSERT_SQL: &'static str = "INSERT INTO s3_objects
                (remote_name, object_path, name, size_bytes, modified_at, is_directory, mime_type, checksum, is_accessible, last_seen_at)
             VALUES (?1, ?2, ?3, ?4, ?5, ?6, ?7, ?8, 1, CURRENT_TIMESTAMP)
             ON CONFLICT(remote_name, object_path) DO UPDATE SET
                name=excluded.name, size_bytes=excluded.size_bytes,
                modified_at=excluded.modified_at, is_directory=excluded.is_directory,
                mime_type=excluded.mime_type, checksum=excluded.checksum,
                is_accessible=1, last_seen_at=CURRENT_TIMESTAMP";

pub const S3_SYNCED_SQL: &'static str = "INSERT INTO settings(key,value,updated_at) VALUES('s3.last_sync_at',CURRENT_TIMESTAMP,CURRENT_TIMESTAMP)
         ON CONFLICT(key) DO UPDATE SET value=CURRENT_TIMESTAMP,updated_at=CURRENT_TIMESTAMP";

/// The write of one listed object of remote `remote`.
pub open spec fn object_written(statement: SentStatement, remote: Seq<char>, o: Object) -> bool {
    let p = statement.1;
    &&& statement_is(statement, OBJECT_UPSERT_SQL@, 8)
    &&& text_param(p[0], remote)
    &&& text_param(p[1], o.path@)
    &&& text_param(p[2], o.name@)
    &&& integer_param(p[3], (o.size_bytes as i64) as int)
    &&& text_param(p[4], o.modified_at@)
    &&& integer_param(p[5], if o.is_directory { 1 } else { 0 })
    &&& text_param(p[6], o.mime_type@)
    &&& text_param(p[7], o.checksum@)
}

/// What a synchronization of remote `remote` sends after `before`: in a
/// transaction, its objects marked inaccessible, each listed object written
/// and accessible again, and the time of the synchronization recorded.
pub open spec fn objects_synchronized(before: Seq<SentStatement>, after: Seq<SentStatement>, remote: Seq<char>, objects: Seq<Object>) -> bool {
    let n = before.len() as int;
    &&& sent_after(before, after, objects.len() as int + 4)
    &&& after[n] == ("BEGIN"@, Seq::<SqlParam>::empty())
    &&& statement_is(after[n + 1], HIDE_OBJECTS_SQL@, 1) && text_param(after[n + 1].1[0], remote)
    &&& forall|k: int| 0 <= k < objects.len() ==> object_written(#[trigger] after[n + 2 + k], remote, objects[k])
    &&& after[after.len() - 2] == (S3_SYNCED_SQL@, Seq::<SqlParam>::empty())
    &&& after.last() == ("COMMIT"@, Seq::<SqlParam>::empty())
}

/// Records the objects listed under a remote: its stored objects become
/// inaccessible, each listed one is written and accessible again, and the
/// synchronization time is stored.
pub fn synchronize(database: &mut Database, remote_name: &str, objects: &[Object]) -> (result: Result<
    (),
    DatabaseError,
>)
    ensures
        result matches Err(e) ==> e is Storage,
        result is Ok ==> objects_synchronized(old(database).sent(), final(database).sent(), remote_name@, objects@),
{
    let connection = database.connect()?;
    let ghost before = database.sent();
    send_batch(database, &connection, "BEGIN")?;
    let ghost begun = database.sent();
    let remote = crate::text::string_from(remote_name);
    send(database, &connection, HIDE_OBJECTS_SQL, vec![SqlParam::Text(remote.clone())].as_slice())?;
    proof {
        crate::database::lemma_sent_chain(before, begun, database.sent(), 1, 1);
    }
    let mut i: usize = 0;
    while i < objects.len()
        invariant
            i <= objects@.len(),
            remote@ == remote_name@,
            sent_after(before, database.sent(), i + 2),
            database.sent()[before.len() as int] == ("BEGIN"@, Seq::<SqlParam>::empty()),
            statement_is(database.sent()[before.len() as int + 1], HIDE_OBJECTS_SQL@, 1),
            text_param(database.sent()[before.len() as int + 1].1[0], remote_name@),
            forall|k: int| 0 <= k < i ==> object_written(#[trigger] database.sent()[before.len() as int + 2 + k], remote_name@, objects@[k]),
        decreases objects@.len() - i,
    {
        let ghost previous = database.sent();
        let o = &objects[i];
        let params = vec![
            SqlParam::Text(remote.clone()),
            SqlParam::Text(o.path.clone()),
            SqlParam::Text(o.name.clone()),
            SqlParam::Integer(o.size_bytes as i64),
            SqlParam::Text(o.modified_at.clone()),
            SqlParam::Integer(if o.is_directory { 1 } else { 0 }),
            SqlParam::Text(o.mime_type.clone()),
            SqlParam::Text(o.checksum.clone()),
        ];
        send(database, &connection, OBJECT_UPSERT_SQL, params.as_slice())?;
        proof {
            crate::database::lemma_sent_chain(before, previous, database.sent(), i + 2, 1);
        }
        i = i + 1;
    }
    let ghost listed = database.sent();
    let none: Vec<SqlParam> = Vec::new();
    assert(none@ =~= Seq::<SqlParam>::empty());
    send(database, &connection, S3_SYNCED_SQL, none.as_slice())?;
    let ghost synced = database.sent();
    send_batch(database, &connection, "COMMIT")?;
    proof {
        crate::database::lemma_sent_chain(before, listed, synced, objects@.len() as int + 2, 1);
        crate::database::lemma_sent_chain(before, synced, database.sent(), objects@.len() as int + 3, 1);
        let after = database.sent();
        let n = before.len() as int;
        assert(after[n] == listed[n]);
        assert(after[n + 1] == listed[n + 1]);
        assert forall|k: int| 0 <= k < objects@.len() implies object_written(#[trigger] after[n + 2 + k], remote_name@, objects@[k]) by {
            assert(after[n + 2 + k] == listed[n + 2 + k]);
        }
        assert(after[after.len() - 2] == synced[synced.len() - 1]);
    }
    Ok(())
}

} // verus!
