//! GitHub repositories as last listed, with their tags.
use vstd::prelude::*;

use crate::database::inventory::{tags_of, Tag, UNTAGGED_TAG_FILTER};
use crate::database::keeper::split_tag_filter;
use crate::database::sql::SqlParam;
use crate::database::{
    integer_or_zero, query_rows, run, run_batch, send, send_batch, sent_after, statement_is,
    text_or_empty, Database, DatabaseError, Rejection, SentStatement, extends, lemma_extends_trans,
};
use crate::database::inventory::{integer_param, text_param};
use crate::github::Repository;
use crate::text::{chars_of, equals_str, push_str, string_from, string_of, trim_str};

verus! {

/// A stored repository as the repositories page lists it.
#[derive(Debug, Clone)]
pub struct RepositoryRow {
    pub repository_id: i64,
    pub name: String,
    pub html_url: String,
    pub description: String,
    pub owner_login: String,
    pub owner_kind: String,
    pub visibility: String,
    pub archived: bool,
    pub fork: bool,
    pub language: String,
    pub size_kb: u64,
    pub effective_permission: String,
    pub pushed_at: String,
    pub tags: Vec<Tag>,
}

/// The visibility stored for a repository: GitHub's own word, or, when it
/// gives none, private or public from its flag.
pub open spec fn stored_visibility(visibility: Seq<char>, private: bool) -> Seq<char> {
    if visibility.len() == 0 {
        if private {
            "private"@
        } else {
            "public"@
        }
    } else {
        visibility
    }
}

fn visibility_of(repository: &Repository) -> (result: String)
    ensures
        result@ == stored_visibility(repository.visibility@, repository.private),
{
    if chars_of(repository.visibility.as_str()).len() == 0 {
        if repository.private {
            string_from("private")
        } else {
            string_from("public")
        }
    } else {
        repository.visibility.clone()
    }
}

/// Whether an owner kind names an organization, in any case.
pub open spec fn is_organization(kind: Seq<char>) -> bool {
    crate::text::lower_seq(kind) == "organization"@
}

fn organization_owner(kind: &String) -> (result: bool)
    ensures
        result == is_organization(kind@),
{
    let lower = crate::text::to_ascii_lower(chars_of(kind.as_str()).as_slice());
    equals_str(lower.as_slice(), "organization")
}

fn joined_topics(topics: &Vec<String>) -> (result: String)
    ensures
        result@ == crate::text::join(topics@.map_values(|t: String| t@), ", "@),
{
    let ghost pieces = topics@.map_values(|t: String| t@);
    let mut v: Vec<char> = Vec::new();
    let mut i: usize = 0;
    while i < topics.len()
        invariant
            i <= topics@.len(),
            pieces == topics@.map_values(|t: String| t@),
            i > 0 ==> v@ == crate::text::join(pieces.subrange(0, i as int), ", "@),
            i == 0 ==> v@ == Seq::<char>::empty(),
        decreases topics.len() - i,
    {
        if i > 0 {
            push_str(&mut v, ", ");
        }
        push_str(&mut v, topics[i].as_str());
        assert(pieces.subrange(0, i + 1).drop_last() =~= pieces.subrange(0, i as int));
        if i == 0 {
            assert(v@ =~= crate::text::join(pieces.subrange(0, 1), ", "@));
        } else {
            assert(v@ =~= crate::text::join(pieces.subrange(0, i + 1), ", "@));
        }
        i = i + 1;
    }
    proof {
        assert(pieces.subrange(0, topics@.len() as int) =~= pieces);
        if topics@.len() == 0 {
            assert(crate::text::join(pieces, ", "@) =~= Seq::<char>::empty());
        }
    }
    string_of(v.as_slice())
}

fn optional_text(value: &Option<String>) -> (result: String)
    ensures
        result@ == match *value {
            Some(v) => v@,
            None => Seq::empty(),
        },
{
    match value {
        Some(v) => v.clone(),
        None => String::new(),
    }
}

pub const HIDE_REPOSITORIES_SQL: &'static str = "UPDATE github_repositories SET is_accessible = 0";

pub const HIDE_ORGANIZATIONS_SQL: &'static str = "UPDATE github_organizations SET is_accessible = 0";

pub const ORGANIZATION_UPSERT_SQL: &'static str = "INSERT INTO github_organizations(organization_id,login,html_url,is_accessible,last_seen_at)
                 VALUES(?1,?2,?3,1,CURRENT_TIMESTAMP)
                 ON CONFLICT(organization_id) DO UPDATE SET login=excluded.login,
                    html_url=excluded.html_url,is_accessible=1,last_seen_at=CURRENT_TIMESTAMP";

pub const REPOSITORY_UPSERT_SQL: &'static str = "INSERT INTO github_repositories
             (repository_id, name, full_name, html_url, description, owner_id, owner_login,
              owner_url, owner_kind, visibility, archived, disabled, fork, is_template,
              default_branch, language, topics, size_kb, open_issues, effective_permission,
              created_at, updated_at, pushed_at, is_accessible, last_seen_at)
             VALUES (?1,?2,?3,?4,?5,?6,?7,?8,?9,?10,?11,?12,?13,?14,?15,?16,?17,
                     ?18,?19,?20,?21,?22,?23,1,CURRENT_TIMESTAMP)
             ON CONFLICT(repository_id) DO UPDATE SET
              name=excluded.name, full_name=excluded.full_name, html_url=excluded.html_url,
              description=excluded.description, owner_id=excluded.owner_id,
              owner_login=excluded.owner_login, owner_url=excluded.owner_url,
              owner_kind=excluded.owner_kind, visibility=excluded.visibility,
              archived=excluded.archived, disabled=excluded.disabled, fork=excluded.fork,
              is_template=excluded.is_template, default_branch=excluded.default_branch,
              language=excluded.language, topics=excluded.topics, size_kb=excluded.size_kb,
              open_issues=excluded.open_issues, effective_permission=excluded.effective_permission,
              created_at=excluded.created_at, updated_at=excluded.updated_at,
              pushed_at=excluded.pushed_at, is_accessible=1, last_seen_at=CURRENT_TIMESTAMP";

pub const GITHUB_SYNCED_SQL: &'static str = "INSERT INTO settings (key, value, updated_at) VALUES ('github.last_sync_at', CURRENT_TIMESTAMP, CURRENT_TIMESTAMP)
         ON CONFLICT(key) DO UPDATE SET value = CURRENT_TIMESTAMP, updated_at = CURRENT_TIMESTAMP";

/// The flag as the database stores it.
pub open spec fn flag_number(flag: bool) -> int {
    if flag {
        1
    } else {
        0
    }
}

/// The write of an organization that owns a listed repository.
pub open spec fn organization_written(statement: SentStatement, owner: crate::github::Owner) -> bool {
    &&& statement_is(statement, ORGANIZATION_UPSERT_SQL@, 3)
    &&& integer_param(statement.1[0], owner.id as int)
    &&& text_param(statement.1[1], owner.login@)
    &&& text_param(statement.1[2], owner.html_url@)
}

/// The write of a listed repository, with each of its fields in its place.
pub open spec fn repository_written(statement: SentStatement, r: Repository) -> bool {
    let p = statement.1;
    &&& statement_is(statement, REPOSITORY_UPSERT_SQL@, 23)
    &&& integer_param(p[0], r.id as int)
    &&& text_param(p[1], r.name@)
    &&& text_param(p[2], r.full_name@)
    &&& text_param(p[3], r.html_url@)
    &&& text_param(p[4], match r.description { Some(d) => d@, None => Seq::empty() })
    &&& integer_param(p[5], r.owner.id as int)
    &&& text_param(p[6], r.owner.login@)
    &&& text_param(p[7], r.owner.html_url@)
    &&& text_param(p[8], r.owner.kind@)
    &&& text_param(p[9], stored_visibility(r.visibility@, r.private))
    &&& integer_param(p[10], flag_number(r.archived))
    &&& integer_param(p[11], flag_number(r.disabled))
    &&& integer_param(p[12], flag_number(r.fork))
    &&& integer_param(p[13], flag_number(r.is_template))
    &&& text_param(p[14], r.default_branch@)
    &&& text_param(p[15], match r.language { Some(l) => l@, None => Seq::empty() })
    &&& text_param(p[16], crate::text::join(r.topics@.map_values(|t: String| t@), ", "@))
    &&& integer_param(p[17], (r.size as i64) as int)
    &&& integer_param(p[18], (r.open_issues_count as i64) as int)
    &&& text_param(p[19], crate::github::permission_name(r.permissions))
    &&& text_param(p[20], r.created_at@)
    &&& text_param(p[21], r.updated_at@)
    &&& text_param(p[22], r.pushed_at@)
}

/// What a synchronization sends after `before`: in a transaction, every
/// repository and organization marked inaccessible, then each listed
/// repository written (after its owner, when an organization owns it), and
/// the time of the synchronization recorded.
pub open spec fn repositories_synchronized(before: Seq<SentStatement>, after: Seq<SentStatement>, repositories: Seq<Repository>) -> bool {
    let n = before.len() as int;
    &&& after.len() >= n + 5
    &&& after.subrange(0, n) == before
    &&& after[n] == ("BEGIN"@, Seq::<SqlParam>::empty())
    &&& after[n + 1] == (HIDE_REPOSITORIES_SQL@, Seq::<SqlParam>::empty())
    &&& after[n + 2] == (HIDE_ORGANIZATIONS_SQL@, Seq::<SqlParam>::empty())
    &&& forall|k: int|
        0 <= k < repositories.len() ==> exists|j: int|
            n + 3 <= j < after.len() && repository_written(#[trigger] after[j], #[trigger] repositories[k])
    &&& forall|k: int|
        0 <= k < repositories.len() && is_organization(repositories[k].owner.kind@) ==> exists|j: int|
            n + 3 <= j < after.len() && organization_written(#[trigger] after[j], #[trigger] repositories[k].owner)
    &&& after[after.len() - 2] == (GITHUB_SYNCED_SQL@, Seq::<SqlParam>::empty())
    &&& after.last() == ("COMMIT"@, Seq::<SqlParam>::empty())
}

/// Writes one listed repository, after its owner when an organization owns
/// it.
fn write_repository(database: &mut Database, connection: &rusqlite::Connection, repository: &Repository) -> (result:
    Result<(), DatabaseError>)
    ensures
        result matches Err(e) ==> e is Storage,
        extends(old(database).sent(), final(database).sent()),
        result is Ok ==> exists|j: int|
            old(database).sent().len() <= j < final(database).sent().len() && repository_written(
                #[trigger] final(database).sent()[j],
                *repository,
            ),
        result is Ok && is_organization(repository.owner.kind@) ==> exists|j: int|
            old(database).sent().len() <= j < final(database).sent().len() && organization_written(
                #[trigger] final(database).sent()[j],
                repository.owner,
            ),
{
    let ghost before = database.sent();
    assert(before.subrange(0, before.len() as int) =~= before);
    if organization_owner(&repository.owner.kind) {
        let owner = vec![
            SqlParam::Integer(repository.owner.id),
            SqlParam::Text(repository.owner.login.clone()),
            SqlParam::Text(repository.owner.html_url.clone()),
        ];
        send(database, connection, ORGANIZATION_UPSERT_SQL, owner.as_slice())?;
        assert(organization_written(database.sent()[before.len() as int], repository.owner));
    }
    let ghost middle = database.sent();
    let params = vec![
        SqlParam::Integer(repository.id),
        SqlParam::Text(repository.name.clone()),
        SqlParam::Text(repository.full_name.clone()),
        SqlParam::Text(repository.html_url.clone()),
        SqlParam::Text(optional_text(&repository.description)),
        SqlParam::Integer(repository.owner.id),
        SqlParam::Text(repository.owner.login.clone()),
        SqlParam::Text(repository.owner.html_url.clone()),
        SqlParam::Text(repository.owner.kind.clone()),
        SqlParam::Text(visibility_of(repository)),
        SqlParam::Integer(if repository.archived { 1 } else { 0 }),
        SqlParam::Integer(if repository.disabled { 1 } else { 0 }),
        SqlParam::Integer(if repository.fork { 1 } else { 0 }),
        SqlParam::Integer(if repository.is_template { 1 } else { 0 }),
        SqlParam::Text(repository.default_branch.clone()),
        SqlParam::Text(optional_text(&repository.language)),
        SqlParam::Text(joined_topics(&repository.topics)),
        SqlParam::Integer(repository.size as i64),
        SqlParam::Integer(repository.open_issues_count as i64),
        SqlParam::Text(string_from(repository.effective_permission())),
        SqlParam::Text(repository.created_at.clone()),
        SqlParam::Text(repository.updated_at.clone()),
        SqlParam::Text(repository.pushed_at.clone()),
    ];
    let sent = send(database, connection, REPOSITORY_UPSERT_SQL, params.as_slice());
    proof {
        lemma_extends_trans(before, middle, database.sent());
    }
    sent?;
    proof {
        assert(repository_written(database.sent()[middle.len() as int], *repository));
        if is_organization(repository.owner.kind@) {
            assert(database.sent()[before.len() as int] == middle[before.len() as int]);
        }
    }
    Ok(())
}

/// Records the repositories listed: every stored repository and
/// organization becomes inaccessible, each listed one is written and
/// accessible again, and the synchronization time is stored.
pub fn synchronize(database: &mut Database, repositories: &[Repository]) -> (result: Result<(), DatabaseError>)
    ensures
        result matches Err(e) ==> e is Storage,
        result is Ok ==> repositories_synchronized(old(database).sent(), final(database).sent(), repositories@),
{
    let connection = database.connect()?;
    let ghost before = database.sent();
    send_batch(database, &connection, "BEGIN")?;
    let none: Vec<SqlParam> = Vec::new();
    assert(none@ =~= Seq::<SqlParam>::empty());
    send(database, &connection, HIDE_REPOSITORIES_SQL, none.as_slice())?;
    send(database, &connection, HIDE_ORGANIZATIONS_SQL, none.as_slice())?;
    let ghost start = database.sent();
    assert(start.subrange(0, before.len() as int) =~= before);
    assert(start.subrange(0, start.len() as int) =~= start);
    let mut i: usize = 0;
    while i < repositories.len()
        invariant
            i <= repositories@.len(),
            start.len() == before.len() + 3,
            extends(before, start),
            start[before.len() as int] == ("BEGIN"@, Seq::<SqlParam>::empty()),
            start[before.len() as int + 1] == (HIDE_REPOSITORIES_SQL@, Seq::<SqlParam>::empty()),
            start[before.len() as int + 2] == (HIDE_ORGANIZATIONS_SQL@, Seq::<SqlParam>::empty()),
            extends(start, database.sent()),
            forall|k: int|
                0 <= k < i ==> exists|j: int|
                    start.len() <= j < database.sent().len() && repository_written(
                        #[trigger] database.sent()[j],
                        #[trigger] repositories@[k],
                    ),
            forall|k: int|
                0 <= k < i && is_organization(repositories@[k].owner.kind@) ==> exists|j: int|
                    start.len() <= j < database.sent().len() && organization_written(
                        #[trigger] database.sent()[j],
                        #[trigger] repositories@[k].owner,
                    ),
        decreases repositories.len() - i,
    {
        let ghost previous = database.sent();
        write_repository(database, &connection, &repositories[i])?;
        proof {
            let now = database.sent();
            lemma_extends_trans(start, previous, now);
            assert forall|k: int| 0 <= k < i + 1 implies exists|j: int|
                start.len() <= j < now.len() && repository_written(#[trigger] now[j], #[trigger] repositories@[k]) by {
                if k < i {
                    let j = choose|j: int|
                        start.len() <= j < previous.len() && repository_written(#[trigger] previous[j], #[trigger] repositories@[k]);
                    assert(now[j] == previous[j]);
                }
            }
            assert forall|k: int| 0 <= k < i + 1 && is_organization(repositories@[k].owner.kind@) implies exists|j: int|
                start.len() <= j < now.len() && organization_written(#[trigger] now[j], #[trigger] repositories@[k].owner) by {
                if k < i {
                    let j = choose|j: int|
                        start.len() <= j < previous.len() && organization_written(#[trigger] previous[j], #[trigger] repositories@[k].owner);
                    assert(now[j] == previous[j]);
                }
            }
        }
        i = i + 1;
    }
    let ghost written = database.sent();
    send(database, &connection, GITHUB_SYNCED_SQL, none.as_slice())?;
    send_batch(database, &connection, "COMMIT")?;
    proof {
        let after = database.sent();
        let n = before.len() as int;
        assert(after.len() == written.len() + 2);
        assert forall|j: int| 0 <= j < written.len() implies #[trigger] after[j] == written[j] by {}
        lemma_extends_trans(before, start, written);
        assert(after.subrange(0, n) =~= before) by {
            assert forall|j: int| 0 <= j < n implies after.subrange(0, n)[j] == before[j] by {
                assert(after[j] == written[j]);
                assert(written[j] == start[j]);
                assert(start.subrange(0, n)[j] == start[j]);
            }
        }
        assert(after[n] == start[n]);
        assert(after[n + 1] == start[n + 1]);
        assert(after[n + 2] == start[n + 2]);
        assert forall|k: int| 0 <= k < repositories@.len() implies exists|j: int|
            n + 3 <= j < after.len() && repository_written(#[trigger] after[j], #[trigger] repositories@[k]) by {
            let j = choose|j: int|
                start.len() <= j < written.len() && repository_written(#[trigger] written[j], #[trigger] repositories@[k]);
            assert(after[j] == written[j]);
        }
        assert forall|k: int| 0 <= k < repositories@.len() && is_organization(repositories@[k].owner.kind@) implies exists|j: int|
            n + 3 <= j < after.len() && organization_written(#[trigger] after[j], #[trigger] repositories@[k].owner) by {
            let j = choose|j: int|
                start.len() <= j < written.len() && organization_written(#[trigger] written[j], #[trigger] repositories@[k].owner);
            assert(after[j] == written[j]);
        }
    }
    Ok(())
}

/// The `ORDER BY` column of the repository list.
pub open spec fn repository_order(sort: Seq<char>) -> Seq<char> {
    if sort == "owner"@ {
        "owner_login"@
    } else if sort == "visibility"@ {
        "visibility"@
    } else if sort == "size"@ {
        "size_kb"@
    } else if sort == "permission"@ {
        "effective_permission"@
    } else if sort == "pushed"@ {
        "pushed_at"@
    } else {
        "full_name"@
    }
}

fn repository_order_of(sort: &str) -> (result: &'static str)
    ensures
        result@ == repository_order(sort@),
{
    let s = chars_of(sort);
    if equals_str(s.as_slice(), "owner") {
        "owner_login"
    } else if equals_str(s.as_slice(), "visibility") {
        "visibility"
    } else if equals_str(s.as_slice(), "size") {
        "size_kb"
    } else if equals_str(s.as_slice(), "permission") {
        "effective_permission"
    } else if equals_str(s.as_slice(), "pushed") {
        "pushed_at"
    } else {
        "full_name"
    }
}

/// The stored repositories matching the filters, sorted as asked, with
/// their tags.
pub fn list(
    database: &Database,
    search: &str,
    owner: &str,
    visibility: &str,
    permission: &str,
    tag: &str,
    include_inaccessible: bool,
    sort: &str,
    descending: bool,
) -> (result: Result<Vec<RepositoryRow>, DatabaseError>)
    ensures
        result matches Err(e) ==> e is Storage,
{
    let (exclude_tag, tag_slug) = split_tag_filter(tag);
    let untagged = equals_str(chars_of(tag_slug.as_str()).as_slice(), UNTAGGED_TAG_FILTER);
    let direction = if descending { " DESC" } else { " ASC" };
    let mut sql: Vec<char> = Vec::new();
    push_str(
        &mut sql,
        "SELECT repository_id,name,full_name,html_url,description,owner_login,owner_kind,
                visibility,archived,fork,language,size_kb,effective_permission,pushed_at
         FROM github_repositories r
         WHERE (?1 OR is_accessible=1)
           AND (?2='' OR full_name LIKE '%'||?2||'%' OR description LIKE '%'||?2||'%' OR topics LIKE '%'||?2||'%')
           AND (?3='' OR owner_login LIKE '%'||?3||'%')
           AND (?4='' OR visibility=?4)
           AND (?5='' OR effective_permission=?5)
           AND (?6='' OR
                (?8=1 AND ((?7=0 AND NOT EXISTS(SELECT 1 FROM github_repository_tags rt WHERE rt.repository_id=r.repository_id))
                         OR (?7=1 AND EXISTS(SELECT 1 FROM github_repository_tags rt WHERE rt.repository_id=r.repository_id))))
                OR (?8=0 AND ((?7=0 AND EXISTS(SELECT 1 FROM github_repository_tags rt JOIN tags t ON t.id=rt.tag_id WHERE rt.repository_id=r.repository_id AND t.slug=?6))
                           OR (?7=1 AND NOT EXISTS(SELECT 1 FROM github_repository_tags rt JOIN tags t ON t.id=rt.tag_id WHERE rt.repository_id=r.repository_id AND t.slug=?6)))))
         ORDER BY ",
    );
    push_str(&mut sql, repository_order_of(sort));
    push_str(&mut sql, direction);
    push_str(&mut sql, ", repository_id");
    push_str(&mut sql, direction);
    let params = vec![
        SqlParam::Integer(if include_inaccessible { 1 } else { 0 }),
        SqlParam::Text(string_of(trim_str(search).as_slice())),
        SqlParam::Text(string_of(trim_str(owner).as_slice())),
        SqlParam::Text(string_from(visibility)),
        SqlParam::Text(string_from(permission)),
        SqlParam::Text(tag_slug),
        SqlParam::Integer(if exclude_tag { 1 } else { 0 }),
        SqlParam::Integer(if untagged { 1 } else { 0 }),
    ];
    let connection = database.connect()?;
    let query = string_of(sql.as_slice());
    let (columns, rows) = query_rows(&connection, query.as_str(), params.as_slice())?;
    let mut repositories: Vec<RepositoryRow> = Vec::new();
    if columns < 14 {
        return Ok(repositories);
    }
    let mut i: usize = 0;
    while i < rows.len()
        invariant
            i <= rows@.len(),
            columns >= 14,
            forall|k: int| 0 <= k < rows.len() ==> #[trigger] rows[k].len() == columns,
        decreases rows.len() - i,
    {
        let row = &rows[i];
        let id = integer_or_zero(row, 0);
        let tags = tags_of(
            &connection,
            "SELECT t.slug,t.name,t.description,t.color FROM github_repository_tags rt JOIN tags t ON t.id=rt.tag_id
             WHERE rt.repository_id=?1 ORDER BY t.name COLLATE NOCASE",
            SqlParam::Integer(id),
        )?;
        repositories.push(
            RepositoryRow {
                repository_id: id,
                name: text_or_empty(row, 1),
                html_url: text_or_empty(row, 3),
                description: text_or_empty(row, 4),
                owner_login: text_or_empty(row, 5),
                owner_kind: text_or_empty(row, 6),
                visibility: text_or_empty(row, 7),
                archived: integer_or_zero(row, 8) != 0,
                fork: integer_or_zero(row, 9) != 0,
                language: text_or_empty(row, 10),
                size_kb: integer_or_zero(row, 11) as u64,
                effective_permission: text_or_empty(row, 12),
                pushed_at: text_or_empty(row, 13),
                tags,
            },
        );
        i = i + 1;
    }
    Ok(repositories)
}

pub const REPOSITORY_TAG_ANY_SQL: &'static str = "SELECT id FROM tags WHERE slug=?1";

pub const REPOSITORY_TAG_SQL: &'static str = "SELECT t.id FROM tags t JOIN tag_scopes s ON s.tag_id=t.id WHERE t.slug=?1 AND s.scope='github-repositories'";

pub const REPOSITORY_UNTAG_SQL: &'static str = "DELETE FROM github_repository_tags WHERE repository_id=?1 AND tag_id=?2";

pub const REPOSITORY_TAG_LINK_SQL: &'static str = "INSERT OR IGNORE INTO github_repository_tags(repository_id,tag_id) SELECT repository_id,?2 FROM github_repositories WHERE repository_id=?1";

/// Tags (or untags) the given repositories; a tag is added only when it is
/// offered for repositories.
pub fn change_tags(database: &mut Database, repository_ids: &[i64], slug: &str, remove: bool) -> (result: Result<
    usize,
    DatabaseError,
>)
    ensures
        repository_ids@.len() == 0 ==> result matches Err(DatabaseError::Rejected(Rejection::RepositoriesRequired)),
        repository_ids@.len() > 0 ==> (result matches Err(e) ==> (e is Storage || (e matches DatabaseError::Rejected(
            Rejection::TagNotForRepositories(s),
        ) && s@ == slug@))),
        result is Ok ==> crate::database::tag_links_changed(
            old(database).sent(),
            final(database).sent(),
            if remove { REPOSITORY_TAG_ANY_SQL@ } else { REPOSITORY_TAG_SQL@ },
            slug@,
            repository_ids@.map_values(|r: i64| SqlParam::Integer(r)),
            REPOSITORY_UNTAG_SQL@,
            REPOSITORY_TAG_LINK_SQL@,
            remove,
        ),
{
    if repository_ids.len() == 0 {
        return Err(DatabaseError::Rejected(Rejection::RepositoriesRequired));
    }
    let connection = database.connect()?;
    let mut ids: Vec<SqlParam> = Vec::new();
    let mut i: usize = 0;
    while i < repository_ids.len()
        invariant
            i <= repository_ids@.len(),
            ids@.len() == i,
            forall|k: int| 0 <= k < i ==> #[trigger] ids@[k] == SqlParam::Integer(repository_ids@[k]),
        decreases repository_ids.len() - i,
    {
        ids.push(SqlParam::Integer(repository_ids[i]));
        i = i + 1;
    }
    let lookup = if remove {
        REPOSITORY_TAG_ANY_SQL
    } else {
        REPOSITORY_TAG_SQL
    };
    match crate::database::change_tag_links(
        database,
        &connection,
        lookup,
        slug,
        ids.as_slice(),
        REPOSITORY_UNTAG_SQL,
        REPOSITORY_TAG_LINK_SQL,
        remove,
    )? {
        Some(changed) => {
            proof {
                let wanted = repository_ids@.map_values(|r: i64| SqlParam::Integer(r));
                assert forall|k: int| 0 <= k < ids@.len() implies crate::database::same_param(#[trigger] ids@[k], wanted[k]) by {}
                crate::database::lemma_links_same_ids(
                    old(database).sent(),
                    database.sent(),
                    lookup@,
                    slug@,
                    ids@,
                    wanted,
                    REPOSITORY_UNTAG_SQL@,
                    REPOSITORY_TAG_LINK_SQL@,
                    remove,
                );
            }
            Ok(changed)
        },
        None => Err(DatabaseError::Rejected(Rejection::TagNotForRepositories(string_from(slug)))),
    }
}

} // verus!
