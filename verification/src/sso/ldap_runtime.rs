//! LDAP login requests and responses.

use vstd::prelude::*;
use crate::text::owned;

verus! {

#[derive(Debug)]
pub struct LdapLoginRequest {
    pub username: String,
    pub password: String,
}

#[derive(Debug)]
pub struct LdapLoginResponse {
    pub access_token: String,
    pub token_type: String,
    pub expires_in: u64,
    pub username: String,
    pub display_name: String,
    pub email: Option<String>,
}

#[derive(Debug)]
pub struct LdapSyncResponse {
    pub users_synced: u64,
    pub users_created: u64,
    pub users_updated: u64,
    pub users_deactivated: u64,
    pub errors: Vec<String>,
}

/// The answer to a directory login: the issued token, valid for an hour,
/// for the user name, which also serves as display name; no email is known.
pub fn ldap_login_response(username: String, access_token: String) -> (r: LdapLoginResponse)
    ensures
        r.access_token == access_token,
        r.token_type@ == "Bearer"@,
        r.expires_in == 3600,
        r.username == username,
        r.display_name == username,
        r.email is None,
{
    LdapLoginResponse {
        access_token,
        token_type: owned("Bearer"),
        expires_in: 3600,
        display_name: username.clone(),
        username,
        email: None,
    }
}

/// The report of a directory sync, which is not carried out: nothing is
/// counted and the one error says so.
pub fn ldap_sync_report() -> (r: LdapSyncResponse)
    ensures
        r.users_synced == 0 && r.users_created == 0 && r.users_updated == 0 && r.users_deactivated == 0,
        r.errors@.len() == 1,
        r.errors@[0]@ == "LDAP sync not yet implemented"@,
{
    let mut errors: Vec<String> = Vec::new();
    errors.push(owned("LDAP sync not yet implemented"));
    LdapSyncResponse { users_synced: 0, users_created: 0, users_updated: 0, users_deactivated: 0, errors }
}

} // verus!
