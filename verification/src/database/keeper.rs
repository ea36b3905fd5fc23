//! Keeper shared folders as last reported.
use vstd::prelude::*;

use crate::database::sql::SqlParam;
use crate::database::{
    extends,
    lemma_extends_trans,
    send,
    send_batch,
    statement_is,
    SentStatement,
    Database,
    DatabaseError,
    integer_or_zero,
    query_rows,
    run,
    run_batch,
    text_or_empty,
};
use crate::database::inventory::{tags_of, text_param, Tag, UNTAGGED_TAG_FILTER};
use crate::database::Rejection;
use crate::keeper::SharedFolder;
use crate::text::{chars_of, equals_str, push_str, slice_range, string_from, string_of, trim, trim_chars, trim_str};

verus! {

#[derive(Debug, Clone, Default)]
pub struct Summary {
    pub shared_folders: u64,
    pub shared_with: u64,
    pub managed_folders: u64,
    pub completed_at: String,
}

/// Accessible shared folders, the people and teams they are shared with,
/// the folders someone can manage, and when the report was last read.
pub fn summary(database: &Database) -> (result: Result<Summary, DatabaseError>)
    ensures
        result matches Err(e) ==> e is Storage,
{
    let connection = database.connect()?;
    let none: Vec<SqlParam> = Vec::new();
    let (columns, rows) = query_rows(
        &connection,
        "SELECT COUNT(*),
                COALESCE((SELECT COUNT(DISTINCT shared_to) FROM keeper_shared_folder_access a
                          JOIN keeper_shared_folders af ON af.folder_uid=a.folder_uid
                          WHERE af.is_accessible=1),0),
                COALESCE(SUM(CASE WHEN EXISTS(
                    SELECT 1 FROM keeper_shared_folder_access a
                    WHERE a.folder_uid=f.folder_uid AND a.permissions LIKE '%Manage%'
                ) THEN 1 ELSE 0 END),0),
                COALESCE((SELECT value FROM settings WHERE key='keeper.last_sync_at'),'')
         FROM keeper_shared_folders f WHERE is_accessible=1",
        none.as_slice(),
    )?;
    if rows.len() == 0 || columns < 4 {
        return Ok(Summary { shared_folders: 0, shared_with: 0, managed_folders: 0, completed_at: String::new() });
    }
    let row = &rows[0];
    Ok(
        Summary {
            shared_folders: integer_or_zero(row, 0) as u64,
            shared_with: integer_or_zero(row, 1) as u64,
            managed_folders: integer_or_zero(row, 2) as u64,
            completed_at: text_or_empty(row, 3),
        },
    )
}

pub const HIDE_FOLDERS_SQL: &'static str = "UPDATE keeper_shared_folders SET is_accessible=0";

pub const FOLDER_UPSERT_SQL: &'static str = "INSERT INTO keeper_shared_folders(folder_uid,name,folder_type,folder_path,is_accessible,last_seen_at)
             VALUES(?1,?2,?3,?4,1,CURRENT_TIMESTAMP)
             ON CONFLICT(folder_uid) DO UPDATE SET name=excluded.name,folder_type=excluded.folder_type,
                folder_path=excluded.folder_path,is_accessible=1,last_seen_at=CURRENT_TIMESTAMP";

pub const FOLDER_ACCESS_CLEAR_SQL: &'static str = "DELETE FROM keeper_shared_folder_access WHERE folder_uid=?1";

pub const FOLDER_ACCESS_SQL: &'static str = "INSERT OR IGNORE INTO keeper_shared_folder_access(folder_uid,shared_to,permissions,target_kind)
                 VALUES(?1,?2,?3,?4)";

pub const KEEPER_SYNCED_SQL: &'static str = "INSERT INTO settings (key, value, updated_at) VALUES ('keeper.last_sync_at', CURRENT_TIMESTAMP, CURRENT_TIMESTAMP)
         ON CONFLICT(key) DO UPDATE SET value = CURRENT_TIMESTAMP, updated_at = CURRENT_TIMESTAMP";

/// From position `at` on, `after` writes shared folder `f`: its row, the
/// removal of its old access, and each of its access entries in order.
pub open spec fn folder_written(after: Seq<SentStatement>, at: int, f: crate::keeper::SharedFolder) -> bool {
    &&& 0 <= at && at + 2 + f.access.len() <= after.len()
    &&& statement_is(after[at], FOLDER_UPSERT_SQL@, 4)
    &&& text_param(after[at].1[0], f.folder_uid@)
    &&& text_param(after[at].1[1], f.name@)
    &&& text_param(after[at].1[2], f.folder_type@)
    &&& text_param(after[at].1[3], f.folder_path@)
    &&& statement_is(after[at + 1], FOLDER_ACCESS_CLEAR_SQL@, 1) && text_param(after[at + 1].1[0], f.folder_uid@)
    &&& forall|a: int|
        0 <= a < f.access.len() ==> {
            let s = #[trigger] after[at + 2 + a];
            &&& statement_is(s, FOLDER_ACCESS_SQL@, 4)
            &&& text_param(s.1[0], f.folder_uid@)
            &&& text_param(s.1[1], f.access@[a].shared_to@)
            &&& text_param(s.1[2], f.access@[a].permissions@)
            &&& text_param(s.1[3], f.access@[a].target_kind@)
        }
}

/// What a synchronization sends after `before`: in a transaction, every
/// stored folder marked inaccessible, each listed folder written with its
/// access, and the time of the synchronization recorded.
pub open spec fn folders_synchronized(before: Seq<SentStatement>, after: Seq<SentStatement>, folders: Seq<crate::keeper::SharedFolder>) -> bool {
    let n = before.len() as int;
    &&& after.len() >= n + 4
    &&& after.subrange(0, n) == before
    &&& after[n] == ("BEGIN"@, Seq::<SqlParam>::empty())
    &&& after[n + 1] == (HIDE_FOLDERS_SQL@, Seq::<SqlParam>::empty())
    &&& forall|k: int| 0 <= k < folders.len() ==> folder_recorded(after, n + 2, #[trigger] folders[k])
    &&& after[after.len() - 2] == (KEEPER_SYNCED_SQL@, Seq::<SqlParam>::empty())
    &&& after.last() == ("COMMIT"@, Seq::<SqlParam>::empty())
}

/// Shared folder `f` is written somewhere in `after` from position `start`.
pub open spec fn folder_recorded(after: Seq<SentStatement>, start: int, f: crate::keeper::SharedFolder) -> bool {
    exists|j: int| start <= j && #[trigger] folder_written(after, j, f)
}

proof fn lemma_recorded_kept(a: Seq<SentStatement>, b: Seq<SentStatement>, start: int, f: crate::keeper::SharedFolder)
    requires
        folder_recorded(a, start, f),
        extends(a, b),
    ensures
        folder_recorded(b, start, f),
{
    let j = choose|j: int| start <= j && #[trigger] folder_written(a, j, f);
    lemma_folder_kept(a, b, j, f);
}

proof fn lemma_folder_kept(a: Seq<SentStatement>, b: Seq<SentStatement>, at: int, f: crate::keeper::SharedFolder)
    requires
        folder_written(a, at, f),
        extends(a, b),
    ensures
        folder_written(b, at, f),
{
    assert forall|j: int| 0 <= j < a.len() implies #[trigger] b[j] == a[j] by {
        assert(b.subrange(0, a.len() as int)[j] == b[j]);
    }
}

fn write_folder(database: &mut Database, connection: &rusqlite::Connection, folder: &SharedFolder) -> (result: Result<
    (),
    DatabaseError,
>)
    ensures
        result matches Err(e) ==> e is Storage,
        extends(old(database).sent(), final(database).sent()),
        result is Ok ==> folder_written(final(database).sent(), old(database).sent().len() as int, *folder),
{
    let ghost before = database.sent();
    let row = vec![
        SqlParam::Text(folder.folder_uid.clone()),
        SqlParam::Text(folder.name.clone()),
        SqlParam::Text(folder.folder_type.clone()),
        SqlParam::Text(folder.folder_path.clone()),
    ];
    send(database, connection, FOLDER_UPSERT_SQL, row.as_slice())?;
    let ghost first = database.sent();
    let clear = send(database, connection, FOLDER_ACCESS_CLEAR_SQL, vec![SqlParam::Text(folder.folder_uid.clone())].as_slice());
    proof {
        crate::database::lemma_sent_chain(before, first, database.sent(), 1, 1);
    }
    clear?;
    let ghost second = database.sent();
    assert(second.subrange(0, second.len() as int) =~= second);
    let mut k: usize = 0;
    while k < folder.access.len()
        invariant
            k <= folder.access@.len(),
            second.len() == before.len() + 2,
            before == old(database).sent(),
            extends(before, second),
            extends(before, database.sent()),
            statement_is(second[before.len() as int], FOLDER_UPSERT_SQL@, 4),
            text_param(second[before.len() as int].1[0], folder.folder_uid@),
            text_param(second[before.len() as int].1[1], folder.name@),
            text_param(second[before.len() as int].1[2], folder.folder_type@),
            text_param(second[before.len() as int].1[3], folder.folder_path@),
            statement_is(second[before.len() as int + 1], FOLDER_ACCESS_CLEAR_SQL@, 1),
            text_param(second[before.len() as int + 1].1[0], folder.folder_uid@),
            extends(second, database.sent()),
            database.sent().len() == second.len() + k,
            forall|a: int|
                0 <= a < k ==> {
                    let s = #[trigger] database.sent()[before.len() as int + 2 + a];
                    &&& statement_is(s, FOLDER_ACCESS_SQL@, 4)
                    &&& text_param(s.1[0], folder.folder_uid@)
                    &&& text_param(s.1[1], folder.access@[a].shared_to@)
                    &&& text_param(s.1[2], folder.access@[a].permissions@)
                    &&& text_param(s.1[3], folder.access@[a].target_kind@)
                },
        decreases folder.access@.len() - k,
    {
        let ghost previous = database.sent();
        let access = &folder.access[k];
        let params = vec![
            SqlParam::Text(folder.folder_uid.clone()),
            SqlParam::Text(access.shared_to.clone()),
            SqlParam::Text(access.permissions.clone()),
            SqlParam::Text(access.target_kind.clone()),
        ];
        let sent = send(database, connection, FOLDER_ACCESS_SQL, params.as_slice());
        proof {
            lemma_extends_trans(second, previous, database.sent());
            lemma_extends_trans(before, second, database.sent());
        }
        sent?;
        k = k + 1;
    }
    proof {
        lemma_extends_trans(before, second, database.sent());
        let after = database.sent();
        let m = before.len() as int;
        assert(after[m] == second[m]);
        assert(after[m + 1] == second[m + 1]);
    }
    Ok(())
}

/// Records the shared folders listed: every stored folder becomes
/// inaccessible, each listed one is written with its access and accessible
/// again, and the synchronization time is stored.
pub fn synchronize(database: &mut Database, folders: &[SharedFolder]) -> (result: Result<(), DatabaseError>)
    ensures
        result matches Err(e) ==> e is Storage,
        result is Ok ==> folders_synchronized(old(database).sent(), final(database).sent(), folders@),
{
    let connection = database.connect()?;
    let ghost before = database.sent();
    send_batch(database, &connection, "BEGIN")?;
    let none: Vec<SqlParam> = Vec::new();
    assert(none@ =~= Seq::<SqlParam>::empty());
    send(database, &connection, HIDE_FOLDERS_SQL, none.as_slice())?;
    let ghost start = database.sent();
    assert(start.subrange(0, before.len() as int) =~= before);
    assert(start.subrange(0, start.len() as int) =~= start);
    let mut i: usize = 0;
    while i < folders.len()
        invariant
            i <= folders@.len(),
            start.len() == before.len() + 2,
            extends(before, start),
            start[before.len() as int] == ("BEGIN"@, Seq::<SqlParam>::empty()),
            start[before.len() as int + 1] == (HIDE_FOLDERS_SQL@, Seq::<SqlParam>::empty()),
            extends(start, database.sent()),
            forall|k: int| 0 <= k < i ==> folder_recorded(database.sent(), start.len() as int, #[trigger] folders@[k]),
        decreases folders@.len() - i,
    {
        let ghost previous = database.sent();
        let written = write_folder(database, &connection, &folders[i]);
        proof {
            lemma_extends_trans(start, previous, database.sent());
        }
        written?;
        proof {
            let now = database.sent();
            assert forall|k: int| 0 <= k < i + 1 implies folder_recorded(now, start.len() as int, #[trigger] folders@[k]) by {
                if k < i {
                    lemma_recorded_kept(previous, now, start.len() as int, folders@[k]);
                } else {
                    assert(folder_written(now, previous.len() as int, folders@[k]));
                }
            }
        }
        i = i + 1;
    }
    let ghost listed = database.sent();
    send(database, &connection, KEEPER_SYNCED_SQL, none.as_slice())?;
    send_batch(database, &connection, "COMMIT")?;
    proof {
        let after = database.sent();
        let n = before.len() as int;
        assert(after.len() == listed.len() + 2);
        assert(after.subrange(0, listed.len() as int) =~= listed);
        lemma_extends_trans(before, start, listed);
        lemma_extends_trans(before, listed, after);
        lemma_extends_trans(start, listed, after);
        assert(after[n] == start[n]);
        assert(after[n + 1] == start[n + 1]);
        assert forall|k: int| 0 <= k < folders@.len() implies folder_recorded(after, n + 2, #[trigger] folders@[k]) by {
            lemma_recorded_kept(listed, after, start.len() as int, folders@[k]);
        }
    }
    Ok(())
}

/// A stored shared folder with whom it is shared and its tags.
#[derive(Debug, Clone)]
pub struct SharedFolderRow {
    pub folder_uid: String,
    pub name: String,
    pub folder_type: String,
    pub folder_path: String,
    pub is_accessible: bool,
    pub access: Vec<AccessRow>,
    pub tags: Vec<Tag>,
}

/// Someone a folder is shared with, and how.
#[derive(Debug, Clone)]
pub struct AccessRow {
    pub shared_to: String,
    pub permissions: String,
    pub target_kind: String,
}

/// A tag filter: a leading `!` excludes the tag instead; both sides trimmed.
pub open spec fn tag_filter_parts(tag: Seq<char>) -> (bool, Seq<char>) {
    let t = trim(tag);
    if t.len() > 0 && t[0] == '!' {
        (true, trim(t.drop_first()))
    } else {
        (false, t)
    }
}

pub(crate) fn split_tag_filter(tag: &str) -> (result: (bool, String))
    ensures
        result.0 == tag_filter_parts(tag@).0,
        result.1@ == tag_filter_parts(tag@).1,
{
    let t = trim_str(tag);
    if t.len() > 0 && t[0] == '!' {
        let rest = slice_range(t.as_slice(), 1, t.len());
        assert(rest@ =~= t@.drop_first());
        (true, string_of(trim_chars(rest.as_slice()).as_slice()))
    } else {
        (false, string_of(t.as_slice()))
    }
}

/// The `ORDER BY` expression of the shared-folder list.
pub open spec fn folder_order(sort: Seq<char>) -> Seq<char> {
    if sort == "path"@ {
        "folder_path"@
    } else if sort == "type"@ {
        "folder_type"@
    } else if sort == "shared"@ {
        "(SELECT COUNT(*) FROM keeper_shared_folder_access a WHERE a.folder_uid=f.folder_uid)"@
    } else {
        "name COLLATE NOCASE"@
    }
}

fn folder_order_of(sort: &str) -> (result: &'static str)
    ensures
        result@ == folder_order(sort@),
{
    let s = chars_of(sort);
    if equals_str(s.as_slice(), "path") {
        "folder_path"
    } else if equals_str(s.as_slice(), "type") {
        "folder_type"
    } else if equals_str(s.as_slice(), "shared") {
        "(SELECT COUNT(*) FROM keeper_shared_folder_access a WHERE a.folder_uid=f.folder_uid)"
    } else {
        "name COLLATE NOCASE"
    }
}

/// The stored shared folders matching the filters (each a substring,
/// ignored when blank; the tag filter names a tag, `!` and a tag to exclude
/// it, or the untagged pseudo-tag), sorted as asked, with their access and
/// tags.
pub fn list(
    database: &Database,
    name: &str,
    path: &str,
    shared_to: &str,
    permission: &str,
    tag: &str,
    include_inaccessible: bool,
    sort: &str,
    descending: bool,
) -> (result: Result<Vec<SharedFolderRow>, DatabaseError>)
    ensures
        result matches Err(e) ==> e is Storage,
{
    let (exclude_tag, tag_slug) = split_tag_filter(tag);
    let untagged = equals_str(chars_of(tag_slug.as_str()).as_slice(), UNTAGGED_TAG_FILTER);
    let mut sql: Vec<char> = Vec::new();
    push_str(
        &mut sql,
        "SELECT folder_uid,name,folder_type,folder_path,is_accessible
         FROM keeper_shared_folders f
         WHERE (?1 OR is_accessible=1)
           AND (?2='' OR name LIKE '%'||?2||'%')
           AND (?3='' OR folder_path LIKE '%'||?3||'%')
           AND (?4='' OR EXISTS(SELECT 1 FROM keeper_shared_folder_access a WHERE a.folder_uid=f.folder_uid AND a.shared_to LIKE '%'||?4||'%'))
           AND (?5='' OR EXISTS(SELECT 1 FROM keeper_shared_folder_access a WHERE a.folder_uid=f.folder_uid AND a.permissions LIKE '%'||?5||'%'))
           AND (?6='' OR
                (?8=1 AND ((?7=0 AND NOT EXISTS(SELECT 1 FROM keeper_shared_folder_tags ft WHERE ft.folder_uid=f.folder_uid))
                         OR (?7=1 AND EXISTS(SELECT 1 FROM keeper_shared_folder_tags ft WHERE ft.folder_uid=f.folder_uid))))
                OR (?8=0 AND ((?7=0 AND EXISTS(SELECT 1 FROM keeper_shared_folder_tags ft JOIN tags t ON t.id=ft.tag_id WHERE ft.folder_uid=f.folder_uid AND t.slug=?6))
                           OR (?7=1 AND NOT EXISTS(SELECT 1 FROM keeper_shared_folder_tags ft JOIN tags t ON t.id=ft.tag_id WHERE ft.folder_uid=f.folder_uid AND t.slug=?6)))))
         ORDER BY ",
    );
    let direction = if descending { " DESC" } else { " ASC" };
    push_str(&mut sql, folder_order_of(sort));
    push_str(&mut sql, direction);
    push_str(&mut sql, ", folder_uid");
    push_str(&mut sql, direction);
    let params = vec![
        SqlParam::Integer(if include_inaccessible { 1 } else { 0 }),
        SqlParam::Text(string_of(trim_str(name).as_slice())),
        SqlParam::Text(string_of(trim_str(path).as_slice())),
        SqlParam::Text(string_of(trim_str(shared_to).as_slice())),
        SqlParam::Text(string_of(trim_str(permission).as_slice())),
        SqlParam::Text(tag_slug),
        SqlParam::Integer(if exclude_tag { 1 } else { 0 }),
        SqlParam::Integer(if untagged { 1 } else { 0 }),
    ];
    let connection = database.connect()?;
    let query = string_of(sql.as_slice());
    let (columns, rows) = query_rows(&connection, query.as_str(), params.as_slice())?;
    let mut folders: Vec<SharedFolderRow> = Vec::new();
    if columns < 5 {
        return Ok(folders);
    }
    let mut i: usize = 0;
    while i < rows.len()
        invariant
            i <= rows@.len(),
            columns >= 5,
            forall|k: int| 0 <= k < rows.len() ==> #[trigger] rows[k].len() == columns,
        decreases rows.len() - i,
    {
        let row = &rows[i];
        let uid = text_or_empty(row, 0);
        let (access_columns, access_rows) = query_rows(
            &connection,
            "SELECT shared_to,permissions,target_kind FROM keeper_shared_folder_access WHERE folder_uid=?1 ORDER BY shared_to COLLATE NOCASE",
            vec![SqlParam::Text(uid.clone())].as_slice(),
        )?;
        let mut access: Vec<AccessRow> = Vec::new();
        if access_columns >= 3 {
            let mut k: usize = 0;
            while k < access_rows.len()
                invariant
                    k <= access_rows@.len(),
                    access_columns >= 3,
                    forall|j: int| 0 <= j < access_rows.len() ==> #[trigger] access_rows[j].len() == access_columns,
                decreases access_rows.len() - k,
            {
                let a = &access_rows[k];
                access.push(
                    AccessRow {
                        shared_to: text_or_empty(a, 0),
                        permissions: text_or_empty(a, 1),
                        target_kind: text_or_empty(a, 2),
                    },
                );
                k = k + 1;
            }
        }
        let tags = tags_of(
            &connection,
            "SELECT t.slug,t.name,t.description,t.color
             FROM keeper_shared_folder_tags ft JOIN tags t ON t.id=ft.tag_id
             WHERE ft.folder_uid=?1 ORDER BY t.name COLLATE NOCASE",
            SqlParam::Text(uid.clone()),
        )?;
        folders.push(
            SharedFolderRow {
                folder_uid: uid,
                name: text_or_empty(row, 1),
                folder_type: text_or_empty(row, 2),
                folder_path: text_or_empty(row, 3),
                is_accessible: integer_or_zero(row, 4) != 0,
                access,
                tags,
            },
        );
        i = i + 1;
    }
    Ok(folders)
}

pub const FOLDER_TAG_SQL: &'static str = "SELECT t.id FROM tags t JOIN tag_scopes s ON s.tag_id=t.id WHERE t.slug=?1 AND s.scope='keeper-shared-folders'";

pub const FOLDER_UNTAG_SQL: &'static str = "DELETE FROM keeper_shared_folder_tags WHERE folder_uid=?1 AND tag_id=?2";

pub const FOLDER_TAG_LINK_SQL: &'static str = "INSERT OR IGNORE INTO keeper_shared_folder_tags(folder_uid,tag_id) SELECT folder_uid,?2 FROM keeper_shared_folders WHERE folder_uid=?1";

/// Tags (or untags) the given shared folders with a tag offered for them.
pub fn change_tags(database: &mut Database, folder_uids: &[String], slug: &str, remove: bool) -> (result: Result<
    usize,
    DatabaseError,
>)
    ensures
        folder_uids@.len() == 0 ==> result matches Err(DatabaseError::Rejected(Rejection::SharedFoldersRequired)),
        folder_uids@.len() > 0 ==> (result matches Err(e) ==> (e is Storage || (e matches DatabaseError::Rejected(
            Rejection::TagNotForSharedFolders(s),
        ) && s@ == slug@))),
        result is Ok ==> crate::database::tag_links_changed(
            old(database).sent(),
            final(database).sent(),
            FOLDER_TAG_SQL@,
            slug@,
            folder_uids@.map_values(|u: String| SqlParam::Text(u)),
            FOLDER_UNTAG_SQL@,
            FOLDER_TAG_LINK_SQL@,
            remove,
        ),
{
    if folder_uids.len() == 0 {
        return Err(DatabaseError::Rejected(Rejection::SharedFoldersRequired));
    }
    let connection = database.connect()?;
    let mut ids: Vec<SqlParam> = Vec::new();
    let mut i: usize = 0;
    while i < folder_uids.len()
        invariant
            i <= folder_uids@.len(),
            ids@.len() == i,
            forall|k: int| 0 <= k < i ==> crate::database::same_param(#[trigger] ids@[k], SqlParam::Text(folder_uids@[k])),
        decreases folder_uids.len() - i,
    {
        ids.push(SqlParam::Text(folder_uids[i].clone()));
        i = i + 1;
    }
    match crate::database::change_tag_links(
        database,
        &connection,
        FOLDER_TAG_SQL,
        slug,
        ids.as_slice(),
        FOLDER_UNTAG_SQL,
        FOLDER_TAG_LINK_SQL,
        remove,
    )? {
        Some(changed) => {
            proof {
                let wanted = folder_uids@.map_values(|u: String| SqlParam::Text(u));
                assert forall|k: int| 0 <= k < ids@.len() implies crate::database::same_param(#[trigger] ids@[k], wanted[k]) by {
                    assert(wanted[k] == SqlParam::Text(folder_uids@[k]));
                }
                crate::database::lemma_links_same_ids(
                    old(database).sent(),
                    database.sent(),
                    FOLDER_TAG_SQL@,
                    slug@,
                    ids@,
                    wanted,
                    FOLDER_UNTAG_SQL@,
                    FOLDER_TAG_LINK_SQL@,
                    remove,
                );
            }
            Ok(changed)
        },
        None => Err(DatabaseError::Rejected(Rejection::TagNotForSharedFolders(string_from(slug)))),
    }
}

} // verus!
