//! Space management requests and responses.

use vstd::prelude::*;
use crate::text::{chars_of, owned, trim_chars, trimmed};

verus! {

#[derive(Debug)]
pub struct SpaceResponse {
    pub id: String,
    pub name: String,
    pub slug: String,
    pub description: Option<String>,
    pub icon: String,
    pub color: String,
    pub owner_id: String,
    pub parent_id: Option<String>,
    pub visibility: String,
    pub sort_order: i32,
    pub is_default: bool,
    pub document_count: i64,
    pub created_at: String,
    pub updated_at: String,
}

#[derive(Debug)]
pub struct SpaceMemberResponse {
    pub id: String,
    pub space_id: String,
    pub user_id: String,
    pub role: String,
    pub username: Option<String>,
    pub display_name: Option<String>,
    pub avatar_url: Option<String>,
    pub joined_at: String,
}

#[derive(Debug)]
pub struct CreateSpaceBody {
    pub name: String,
    pub description: Option<String>,
    pub icon: Option<String>,
    pub color: Option<String>,
    pub parent_id: Option<String>,
    pub visibility: Option<String>,
}

#[derive(Debug)]
pub struct UpdateSpaceBody {
    pub name: Option<String>,
    pub description: Option<String>,
    pub icon: Option<String>,
    pub color: Option<String>,
    pub parent_id: Option<Option<String>>,
    pub visibility: Option<String>,
    pub sort_order: Option<i32>,
}

#[derive(Debug)]
pub struct SpaceQuery {
    pub parent_id: Option<String>,
    pub visibility: Option<String>,
    pub owner_id: Option<String>,
    pub limit: Option<i64>,
    pub offset: Option<i64>,
}

#[derive(Debug)]
pub struct AddMemberBody {
    pub user_id: String,
    pub role: Option<String>,
}

#[derive(Debug)]
pub struct UpdateMemberBody {
    pub role: String,
}

#[derive(Debug)]
pub struct MoveDocumentBody {
    pub space_id: Option<String>,
}

#[derive(Debug)]
pub struct ErrorResponse {
    pub code: String,
    pub message: String,
}

/// A space needs a name that is not blank.
pub fn validate_space_name(name: &str) -> (r: Result<(), ErrorResponse>)
    ensures
        trimmed(name@).len() == 0 ==> (r matches Err(e) && e.code@ == "VALIDATION_ERROR"@ && e.message@
            == "Space name is required"@),
        trimmed(name@).len() > 0 ==> r is Ok,
{
    let n = chars_of(name);
    if trim_chars(n.as_slice()).len() == 0 {
        Err(ErrorResponse { code: owned("VALIDATION_ERROR"), message: owned("Space name is required") })
    } else {
        Ok(())
    }
}

/// The owner recorded for spaces created without one.
pub fn placeholder_owner_id() -> (r: &'static str)
    ensures
        r@ == "00000000-0000-0000-0000-000000000000"@,
{
    "00000000-0000-0000-0000-000000000000"
}

/// Listings of child spaces and the default space need the owner's id.
pub fn required_owner(owner_id: Option<&str>) -> (r: Result<String, ErrorResponse>)
    ensures
        owner_id matches Some(o) ==> (r matches Ok(x) && x@ == o@),
        owner_id is None ==> (r matches Err(e) && e.code@ == "OWNER_REQUIRED"@ && e.message@
            == "owner_id query parameter is required"@),
{
    match owner_id {
        Some(o) => Ok(owned(o)),
        None => Err(
            ErrorResponse {
                code: owned("OWNER_REQUIRED"),
                message: owned("owner_id query parameter is required"),
            },
        ),
    }
}

} // verus!
