//! Team management requests and responses.

use vstd::prelude::*;
use crate::text::{chars_of, is_alphanumeric, owned, str_len, byte_length, unicode_alphanumeric};

verus! {

#[derive(Debug)]
pub struct CreateTeamRequest {
    pub name: String,
    pub slug: String,
    pub description: Option<String>,
}

#[derive(Debug)]
pub struct UpdateTeamRequest {
    pub name: Option<String>,
    pub slug: Option<String>,
    pub description: Option<String>,
}

#[derive(Debug)]
pub struct AddMemberRequest {
    pub user_id: String,
    pub role_name: String,
}

#[derive(Debug)]
pub struct UpdateMemberRequest {
    pub role_name: String,
}

#[derive(Debug)]
pub struct TeamQuery {
    pub owner_id: Option<String>,
    pub user_id: Option<String>,
}

#[derive(Debug)]
pub struct TeamResponse {
    pub id: String,
    pub name: String,
    pub slug: String,
    pub description: Option<String>,
    pub owner_id: String,
    pub avatar_url: Option<String>,
    pub created_at: String,
    pub updated_at: String,
    pub member_count: Option<i64>,
}

#[derive(Debug)]
pub struct TeamMemberResponse {
    pub id: i64,
    pub team_id: String,
    pub user_id: String,
    pub role_id: i64,
    pub role_name: String,
    pub joined_at: String,
    pub invited_by: Option<String>,
}

/// A character allowed in a team slug.
pub open spec fn slug_char(c: char) -> bool {
    unicode_alphanumeric(c) || c == '-'
}

/// Why a new team is refused: a name of 1 to 100 bytes and a non-empty
/// slug of letters, digits and hyphens are required, checked in that order.
pub open spec fn team_problem(name: Seq<char>, slug: Seq<char>) -> Option<Seq<char>> {
    if name.len() == 0 || byte_length(name) > 100 {
        Some("Team name must be between 1 and 100 characters"@)
    } else if slug.len() == 0 || !(forall|i: int| 0 <= i < slug.len() ==> slug_char(#[trigger] slug[i])) {
        Some("Slug must contain only alphanumeric characters and hyphens"@)
    } else {
        None
    }
}

pub fn validate_team_request(req: &CreateTeamRequest) -> (r: Result<(), String>)
    ensures
        match team_problem(req.name@, req.slug@) {
            None => r is Ok,
            Some(m) => r matches Err(e) && e@ == m,
        },
{
    let name = chars_of(req.name.as_str());
    if name.len() == 0 || str_len(req.name.as_str()) > 100 {
        return Err(owned("Team name must be between 1 and 100 characters"));
    }
    let slug = chars_of(req.slug.as_str());
    if slug.len() == 0 {
        return Err(owned("Slug must contain only alphanumeric characters and hyphens"));
    }
    let mut i: usize = 0;
    while i < slug.len()
        invariant
            i <= slug@.len(),
            slug@ == req.slug@,
            slug@.len() > 0,
            req.name@.len() > 0 && byte_length(req.name@) <= 100,
            forall|j: int| 0 <= j < i ==> slug_char(#[trigger] slug@[j]),
        decreases slug@.len() - i,
    {
        let c = slug[i];
        if !(is_alphanumeric(c) || c == '-') {
            assert(!slug_char(slug@[i as int]));
            return Err(owned("Slug must contain only alphanumeric characters and hyphens"));
        }
        i = i + 1;
    }
    Ok(())
}

/// The fields of a team that an update request can change.
#[derive(Debug)]
pub struct TeamFields {
    pub name: String,
    pub slug: String,
    pub description: Option<String>,
}

/// Applies an update: each field the request gives replaces the team's,
/// the others stay.
pub fn apply_team_update(team: &mut TeamFields, req: UpdateTeamRequest)
    ensures
        final(team).name@ == (match req.name {
            Some(n) => n@,
            None => old(team).name@,
        }),
        final(team).slug@ == (match req.slug {
            Some(s) => s@,
            None => old(team).slug@,
        }),
        final(team).description == (match req.description {
            Some(d) => Some(d),
            None => old(team).description,
        }),
{
    if let Some(name) = req.name {
        team.name = name;
    }
    if let Some(slug) = req.slug {
        team.slug = slug;
    }
    if let Some(description) = req.description {
        team.description = Some(description);
    }
}

/// Which teams a listing shows.
#[derive(Debug, PartialEq, Eq)]
pub enum TeamListing {
    /// The teams this account owns.
    OwnedBy(String),
    /// The teams this account belongs to.
    MemberOf(String),
}

/// A listing filters by owner when one is given, else by member, else it
/// asks for the teams of the empty owner.
pub fn team_listing(query: &TeamQuery) -> (r: TeamListing)
    ensures
        query.owner_id matches Some(o) ==> (r matches TeamListing::OwnedBy(x) && x@ == o@),
        query.owner_id is None ==> (query.user_id matches Some(u) ==> (r matches TeamListing::MemberOf(x)
            && x@ == u@)),
        query.owner_id is None && query.user_id is None ==> (r matches TeamListing::OwnedBy(x) && x@
            == ""@),
{
    match &query.owner_id {
        Some(o) => TeamListing::OwnedBy(owned(o.as_str())),
        None => match &query.user_id {
            Some(u) => TeamListing::MemberOf(owned(u.as_str())),
            None => TeamListing::OwnedBy(owned("")),
        },
    }
}

} // verus!
