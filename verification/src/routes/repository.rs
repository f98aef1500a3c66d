//! Repository management requests and responses.

use vstd::prelude::*;
use crate::routes::scim::JsonValue;
use crate::text::{chars_of, eq_str, lowercase, owned, string_from_chars, to_lowercase};

verus! {

/// Request to initialize a repository
#[derive(Debug)]
pub struct InitRepositoryRequest {
    /// Repository name
    pub name: String,
    /// Repository description
    pub description: Option<String>,
    /// Repository metadata
    pub metadata: Option<JsonValue>,
    /// Owner ID (optional, for demo uses a default)
    pub owner_id: Option<String>,
}

/// Request to commit changes
#[derive(Debug)]
pub struct CommitRequest {
    /// Commit message
    pub message: String,
    /// Commit metadata
    pub metadata: Option<JsonValue>,
}

/// Request to clone a repository
#[derive(Debug)]
pub struct CloneRepositoryRequest {
    /// Source repository URL or ID
    pub source: String,
    /// Destination name
    pub name: String,
}

/// Request to push changes
#[derive(Debug)]
pub struct PushRequest {
    /// Target branch
    pub branch: Option<String>,
}

/// Repository response
#[derive(Debug)]
pub struct RepositoryResponse {
    /// Repository ID
    pub id: String,
    /// Repository name
    pub name: String,
    /// Repository description
    pub description: Option<String>,
    /// Repository type
    pub repository_type: String,
    /// Current branch
    pub default_branch: Option<String>,
    /// Owner ID
    pub owner_id: String,
    /// Visibility
    pub visibility: String,
    /// Status
    pub status: String,
    /// Created at
    pub created_at: String,
    /// Updated at
    pub updated_at: String,
    /// Remote URL
    pub remote_url: Option<String>,
}

/// Repository status response
#[derive(Debug)]
pub struct RepositoryStatus {
    /// Repository ID
    pub repository_id: String,
    /// Repository name
    pub name: String,
    /// Current branch
    pub branch: String,
    /// Status
    pub status: String,
    /// Uncommitted changes
    pub uncommitted_changes: usize,
    /// Unpushed commits
    pub unpushed_commits: usize,
    /// Last commit message
    pub last_commit: Option<String>,
}

/// Repository list response
#[derive(Debug)]
pub struct RepositoryListResponse {
    /// List of repositories
    pub repositories: Vec<RepositoryResponse>,
    /// Total count
    pub total: usize,
}

/// A repository accepts pushes only once it is active.
pub fn repository_ready(status: &str) -> (r: Result<(), String>)
    ensures
        status@ == "active"@ ==> r is Ok,
        status@ != "active"@ ==> (r matches Err(e) && e@ == "Repository is not initialized"@),
{
    let s = chars_of(status);
    if eq_str(s.as_slice(), "active") {
        Ok(())
    } else {
        Err(owned("Repository is not initialized"))
    }
}

/// Each space of a text turned into a dash.
pub open spec fn spaces_to_dashes(s: Seq<char>) -> Seq<char> {
    Seq::new(s.len(), |i: int| if s[i] == ' ' { '-' } else { s[i] })
}

/// The slug a new repository gets: its name in lower case, with dashes for
/// spaces.
pub fn repository_slug(name: &str) -> (r: String)
    ensures
        r@ == spaces_to_dashes(lowercase(name@)),
{
    let low = to_lowercase(name);
    let cs = chars_of(low.as_str());
    let mut out: Vec<char> = Vec::new();
    let mut i: usize = 0;
    while i < cs.len()
        invariant
            i <= cs@.len(),
            cs@ == lowercase(name@),
            out@ == spaces_to_dashes(cs@).take(i as int),
        decreases cs@.len() - i,
    {
        let c = cs[i];
        out.push(if c == ' ' { '-' } else { c });
        proof {
            assert(spaces_to_dashes(cs@).take(i as int + 1) =~= spaces_to_dashes(cs@).take(i as int).push(
                spaces_to_dashes(cs@)[i as int],
            ));
        }
        i = i + 1;
    }
    assert(spaces_to_dashes(cs@).take(cs@.len() as int) =~= spaces_to_dashes(cs@));
    string_from_chars(out.as_slice())
}

/// The owner of a new repository: the one the request names, else the
/// default account.
pub fn repository_owner(requested: Option<&str>) -> (r: String)
    ensures
        requested matches Some(o) ==> r@ == o@,
        requested is None ==> r@ == "default_user"@,
{
    match requested {
        Some(o) => owned(o),
        None => owned("default_user"),
    }
}

/// The branch a push goes to: the one the request names, else `main`.
pub fn push_branch(requested: Option<&str>) -> (r: String)
    ensures
        requested matches Some(b) ==> r@ == b@,
        requested is None ==> r@ == "main"@,
{
    match requested {
        Some(b) => owned(b),
        None => owned("main"),
    }
}

} // verus!
