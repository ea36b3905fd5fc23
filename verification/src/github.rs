//! GitHub repositories a token can see.
use vstd::prelude::*;

verus! {

#[derive(Debug, Clone)]
pub struct Credentials {
    pub token: String,
}

#[derive(Debug, Clone)]
pub struct Account {
    pub id: i64,
    pub login: String,
}

#[derive(Debug, Clone)]
pub struct Owner {
    pub id: i64,
    pub login: String,
    pub html_url: String,
    pub kind: String,
}

#[derive(Debug, Clone, Copy, Default)]
pub struct RepositoryPermissions {
    pub admin: bool,
    pub maintain: bool,
    pub push: bool,
    pub triage: bool,
    pub pull: bool,
}

#[derive(Debug, Clone)]
pub struct Repository {
    pub id: i64,
    pub name: String,
    pub full_name: String,
    pub html_url: String,
    pub description: Option<String>,
    pub owner: Owner,
    pub private: bool,
    pub visibility: String,
    pub archived: bool,
    pub disabled: bool,
    pub fork: bool,
    pub is_template: bool,
    pub default_branch: String,
    pub language: Option<String>,
    pub topics: Vec<String>,
    pub size: u64,
    pub open_issues_count: u64,
    pub created_at: String,
    pub updated_at: String,
    pub pushed_at: String,
    pub permissions: RepositoryPermissions,
}

/// The strongest permission granted, in GitHub's terms.
pub open spec fn permission_name(p: RepositoryPermissions) -> Seq<char> {
    if p.admin {
        seq!['a', 'd', 'm', 'i', 'n']
    } else if p.maintain {
        seq!['m', 'a', 'i', 'n', 't', 'a', 'i', 'n']
    } else if p.push {
        seq!['w', 'r', 'i', 't', 'e']
    } else if p.triage {
        seq!['t', 'r', 'i', 'a', 'g', 'e']
    } else if p.pull {
        seq!['r', 'e', 'a', 'd']
    } else {
        seq!['u', 'n', 'k', 'n', 'o', 'w', 'n']
    }
}

impl Repository {
    pub fn effective_permission(&self) -> (result: &'static str)
        ensures
            result@ == permission_name(self.permissions),
    {
        proof {
            reveal_strlit("admin");
            reveal_strlit("maintain");
            reveal_strlit("write");
            reveal_strlit("triage");
            reveal_strlit("read");
            reveal_strlit("unknown");
        }
        if self.permissions.admin {
            "admin"
        } else if self.permissions.maintain {
            "maintain"
        } else if self.permissions.push {
            "write"
        } else if self.permissions.triage {
            "triage"
        } else if self.permissions.pull {
            "read"
        } else {
            "unknown"
        }
    }
}


/// The token to keep from what was entered: trimmed, and not blank.
pub fn token_to_save(token: &str) -> (result: Result<String, &'static str>)
    ensures
        crate::text::trim(token@).len() == 0 ==> (result matches Err(m) && m@ == "Enter a GitHub access token"@),
        crate::text::trim(token@).len() > 0 ==> (result matches Ok(t) && t@ == crate::text::trim(token@)),
{
    let t = crate::text::trim_str(token);
    if t.len() == 0 {
        return Err("Enter a GitHub access token");
    }
    Ok(crate::text::string_of(t.as_slice()))
}

/// Stored credentials are usable when their token is not blank.
pub fn check_credentials(credentials: Credentials) -> (result: Result<Credentials, &'static str>)
    ensures
        crate::text::trim(credentials.token@).len() == 0 ==> (result matches Err(m) && m@ == "GitHub token is empty"@),
        crate::text::trim(credentials.token@).len() > 0 ==> (result matches Ok(c) && c.token@ == credentials.token@),
{
    if crate::text::trim_str(credentials.token.as_str()).len() == 0 {
        return Err("GitHub token is empty");
    }
    Ok(credentials)
}

/// What listing the account's repositories does after a page arrives.
#[derive(Debug, Clone, Copy, PartialEq, Eq, Structural)]
pub enum ListingStep {
    /// A short page: the listing is complete.
    Complete,
    /// A full page: ask for the next one.
    NextPage(u32),
    /// A hundred full pages: BOREAL stops there.
    TooMany,
}

/// Repositories come a hundred a page, up to a hundred pages.
pub fn after_page(page: u32, batch_len: usize) -> (step: ListingStep)
    ensures
        batch_len < 100 ==> step == ListingStep::Complete,
        batch_len >= 100 && page >= 100 ==> step == ListingStep::TooMany,
        batch_len >= 100 && page < 100 ==> step == ListingStep::NextPage((page + 1) as u32),
{
    if batch_len < 100 {
        ListingStep::Complete
    } else if page >= 100 {
        ListingStep::TooMany
    } else {
        ListingStep::NextPage(page + 1)
    }
}

/// The query of one page of the account's repositories: all visibilities
/// and every affiliation.
pub fn repositories_query(page: u32) -> (query: Vec<(String, String)>)
    ensures
        query@.len() == 4,
        query@[0].0@ == "per_page"@ && query@[0].1@ == "100"@,
        query@[1].0@ == "page"@ && query@[1].1@ == crate::text::decimal(page as nat),
        query@[2].0@ == "visibility"@ && query@[2].1@ == "all"@,
        query@[3].0@ == "affiliation"@ && query@[3].1@ == "owner,collaborator,organization_member"@,
{
    let mut number: Vec<char> = Vec::new();
    crate::text::push_decimal(&mut number, page as u64);
    vec![
        (crate::text::string_from("per_page"), crate::text::string_from("100")),
        (crate::text::string_from("page"), crate::text::string_of(number.as_slice())),
        (crate::text::string_from("visibility"), crate::text::string_from("all")),
        (
            crate::text::string_from("affiliation"),
            crate::text::string_from("owner,collaborator,organization_member"),
        ),
    ]
}

} // verus!
