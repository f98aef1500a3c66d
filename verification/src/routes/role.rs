//! Role management requests and responses.

use vstd::prelude::*;
use crate::text::{byte_length, chars_of, owned, str_len};

verus! {

#[derive(Debug)]
pub struct CreateRoleRequest {
    pub name: String,
    pub description: Option<String>,
    pub permissions: Vec<String>,
}

#[derive(Debug)]
pub struct UpdateRoleRequest {
    pub name: Option<String>,
    pub description: Option<String>,
    pub permissions: Option<Vec<String>>,
}

#[derive(Debug)]
pub struct RoleResponse {
    pub id: i64,
    pub name: String,
    pub description: Option<String>,
    pub permissions: Vec<String>,
    pub is_system: bool,
    pub created_at: String,
    pub updated_at: String,
}

/// A role name must be 1 to 50 bytes long.
pub fn validate_role_name(name: &str) -> (r: Result<(), String>)
    ensures
        (name@.len() == 0 || byte_length(name@) > 50) ==> (r matches Err(e) && e@
            == "Role name must be between 1 and 50 characters"@),
        !(name@.len() == 0 || byte_length(name@) > 50) ==> r is Ok,
{
    if chars_of(name).len() == 0 || str_len(name) > 50 {
        Err(owned("Role name must be between 1 and 50 characters"))
    } else {
        Ok(())
    }
}

/// The fields of a role that an update request reads and changes.
#[derive(Debug)]
pub struct RoleFields {
    pub name: String,
    pub description: Option<String>,
    pub permissions: Vec<String>,
    pub is_system: bool,
}

/// Applies an update to a role: a system role is refused and left as it
/// was; otherwise each field the request gives replaces the role's.
pub fn apply_role_update(role: &mut RoleFields, req: UpdateRoleRequest) -> (r: Result<(), String>)
    ensures
        old(role).is_system ==> (r matches Err(e) && e@ == "Cannot modify system roles"@
            && *final(role) == *old(role)),
        !old(role).is_system ==> (r is Ok && final(role).is_system == old(role).is_system
            && final(role).name@ == (match req.name {
                Some(n) => n@,
                None => old(role).name@,
            }) && final(role).description == (match req.description {
                Some(d) => Some(d),
                None => old(role).description,
            }) && final(role).permissions@ == (match req.permissions {
                Some(p) => p@,
                None => old(role).permissions@,
            })),
{
    if role.is_system {
        return Err(owned("Cannot modify system roles"));
    }
    if let Some(name) = req.name {
        role.name = name;
    }
    if let Some(description) = req.description {
        role.description = Some(description);
    }
    if let Some(permissions) = req.permissions {
        role.permissions = permissions;
    }
    Ok(())
}

} // verus!
