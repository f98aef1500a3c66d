//! User management requests and responses, including token refresh.

use vstd::prelude::*;
use rand::Rng;
use crate::crypto::{hex_encode, hex_lower, lemma_hex_lower_len};
use crate::routes::password_reset::{hash_token, token_hash};
use crate::routes::scim::{role_name, role_text, UserRole};
use crate::text::owned;

verus! {

/// Request to register a new user.
#[derive(Debug)]
pub struct RegisterRequest {
    /// Username (3-50 chars, alphanumeric/underscore/hyphen)
    pub username: String,
    /// Display name (1-100 chars)
    pub display_name: String,
    /// Email address (optional)
    pub email: Option<String>,
    /// Password (8-128 chars)
    pub password: String,
}

/// Request to create a new user (admin-only, can set role).
#[derive(Debug)]
pub struct CreateUserRequest {
    /// Username
    pub username: String,
    /// Display name
    pub display_name: String,
    /// User email
    pub email: Option<String>,
    /// User password
    pub password: String,
    /// User role (admin-only)
    pub role: Option<String>,
}

/// Request to update a user.
#[derive(Debug)]
pub struct UpdateUserRequest {
    /// Display name
    pub display_name: Option<String>,
    /// User email
    pub email: Option<String>,
    /// User role (admin-only)
    pub role: Option<String>,
    /// Active status (admin-only)
    pub is_active: Option<bool>,
}

/// Request to update the current user's own profile.
#[derive(Debug)]
pub struct UpdateProfileRequest {
    /// Display name
    pub display_name: Option<String>,
    /// Email address
    pub email: Option<String>,
}

/// Request to change password.
#[derive(Debug)]
pub struct ChangePasswordRequest {
    /// Current password
    pub current_password: String,
    /// New password
    pub new_password: String,
}

/// Request for user authentication.
#[derive(Debug)]
pub struct AuthenticateRequest {
    /// Username or email
    pub username: String,
    /// User password
    pub password: String,
}

/// Request to refresh an access token.
#[derive(Debug)]
pub struct RefreshRequest {
    /// Refresh token
    pub refresh_token: String,
}

/// Request to logout (revoke refresh token).
#[derive(Debug)]
pub struct LogoutRequest {
    /// Refresh token to revoke
    pub refresh_token: Option<String>,
}

/// Authentication response.
#[derive(Debug)]
pub struct AuthenticateResponse {
    /// Success flag
    pub success: bool,
    /// User ID
    pub user_id: Option<String>,
    /// Access token
    pub access_token: Option<String>,
    /// Refresh token
    pub refresh_token: Option<String>,
    /// Token type
    pub token_type: String,
    /// Token expires in (seconds)
    pub expires_in: u64,
    /// Error message
    pub error: Option<String>,
    /// User info
    pub user: Option<UserResponse>,
    /// Whether MFA is required to complete login
    pub mfa_required: bool,
    /// User ID for MFA completion (set when mfa_required is true)
    pub mfa_user_id: Option<String>,
}

/// User response (never includes password_hash).
#[derive(Debug)]
pub struct UserResponse {
    /// User ID
    pub id: String,
    /// Username
    pub username: String,
    /// Display name
    pub display_name: String,
    /// Email
    pub email: Option<String>,
    /// User type
    pub user_type: String,
    /// Role
    pub role: String,
    /// Is active
    pub is_active: bool,
    /// Created at
    pub created_at: String,
    /// Updated at
    pub updated_at: String,
}

/// User list response.
#[derive(Debug)]
pub struct UserListResponse {
    /// List of users
    pub users: Vec<UserResponse>,
    /// Total count
    pub total: i64,
    /// Page number
    pub page: usize,
    /// Page size
    pub page_size: usize,
}

/// Query parameters for user listing.
#[derive(Debug)]
pub struct UserQuery {
    /// Page number
    pub page: Option<usize>,
    /// Page size
    pub page_size: Option<usize>,
    /// Role filter
    pub role: Option<String>,
}

#[derive(Debug)]
pub struct UserErrorResponse {
    pub code: String,
    pub message: String,
}

/// How long a refresh token stays valid: thirty days, in seconds.
pub const REFRESH_TOKEN_EXPIRATION_SECS: u64 = 2592000;

/// What an access token asserts.
#[derive(Debug)]
pub struct Claims {
    /// Subject (user id)
    pub sub: String,
    /// Issuer
    pub iss: String,
    /// Audience
    pub aud: String,
    /// Expiry, seconds since the epoch
    pub exp: usize,
    /// Issued at, seconds since the epoch
    pub iat: usize,
    /// Role name
    pub role: String,
    /// Granted permissions
    pub permissions: Vec<String>,
    /// Team the token is scoped to
    pub team_id: Option<String>,
}

/// The claims of an access token for a user, issued at `now` and valid for
/// `expiration_secs`; it grants no extra permissions and names no team.
pub fn access_claims(
    user_id: &str,
    role: UserRole,
    now: u64,
    expiration_secs: u64,
    issuer: &str,
    audience: &str,
) -> (r: Claims)
    requires
        now + expiration_secs <= u64::MAX,
    ensures
        r.sub@ == user_id@,
        r.iss@ == issuer@,
        r.aud@ == audience@,
        r.exp == (now + expiration_secs) as usize,
        r.iat == now as usize,
        r.role@ == role_text(role),
        r.permissions@.len() == 0,
        r.team_id is None,
{
    let exp = now + expiration_secs;
    Claims {
        sub: owned(user_id),
        iss: owned(issuer),
        aud: owned(audience),
        exp: exp as usize,
        iat: now as usize,
        role: owned(role_name(role)),
        permissions: Vec::new(),
        team_id: None,
    }
}

/// The secret new tokens are signed with: the first configured one.
pub fn signing_secret(secrets: &[String]) -> (r: Result<String, String>)
    ensures
        secrets@.len() > 0 ==> (r matches Ok(s) && s@ == secrets@[0]@),
        secrets@.len() == 0 ==> (r matches Err(e) && e@ == "JWT secret not configured"@),
{
    if secrets.len() > 0 {
        Ok(owned(secrets[0].as_str()))
    } else {
        Err(owned("JWT secret not configured"))
    }
}

/// The secret a token is checked with last, whose refusal is reported: the
/// first configured one, or the empty secret when none is.
pub fn fallback_secret(secrets: &[String]) -> (r: String)
    ensures
        secrets@.len() > 0 ==> r@ == secrets@[0]@,
        secrets@.len() == 0 ==> r@ == ""@,
{
    if secrets.len() > 0 {
        owned(secrets[0].as_str())
    } else {
        owned("")
    }
}

/// What checking an access token does after `tried` secrets have refused
/// it: try the next configured secret, or, once none is left, report the
/// refusal under the fallback secret (see [`fallback_secret`]).
#[derive(Debug, PartialEq, Eq)]
pub enum SecretStep {
    Try(String),
    Report(String),
}

pub fn next_secret(secrets: &[String], tried: usize) -> (r: SecretStep)
    ensures
        tried < secrets@.len() ==> (r matches SecretStep::Try(s) && s@ == secrets@[tried as int]@),
        tried >= secrets@.len() && secrets@.len() > 0 ==> (r matches SecretStep::Report(s) && s@
            == secrets@[0]@),
        secrets@.len() == 0 ==> (r matches SecretStep::Report(s) && s@ == ""@),
{
    if tried < secrets.len() {
        SecretStep::Try(owned(secrets[tried].as_str()))
    } else {
        SecretStep::Report(fallback_secret(secrets))
    }
}

/// The stored form of a refresh token: the hex SHA-256 of its UTF-8 bytes,
/// as for every other token.
pub fn hash_refresh_token(token: &str) -> (r: String)
    ensures
        r@ == token_hash(token@),
        r@.len() == 64,
{
    hash_token(token)
}

/// Draws 32 bytes with `rand::Rng::gen` on the thread-local generator; any
/// value may come back.
#[verifier::external_body]
fn random_bytes_32() -> (r: [u8; 32]) {
    rand::thread_rng().gen()
}

/// A fresh refresh token: 32 random bytes in lower-case hexadecimal.
pub fn generate_refresh_token() -> (r: String)
    ensures
        r@.len() == 64,
        exists|b: Seq<u8>| b.len() == 32 && r@ == hex_lower(b),
{
    let bytes = random_bytes_32();
    let v: &[u8] = &bytes;
    proof {
        lemma_hex_lower_len(v@);
    }
    hex_encode(v)
}

} // verus!
