//! Decisions of the account handlers: which registrations are refused,
//! and how a login attempt proceeds from the outcomes of the lookups.

use vstd::prelude::*;
use crate::routes::signup::is_conflict_message;
use crate::routes::user::types::{AuthenticateResponse, RegisterRequest, UserErrorResponse, UserResponse};
use crate::validation::user::username_char;
use crate::text::unicode_alphanumeric;
use crate::text::{is_alphanumeric, byte_length, chars_of, contains_char, contains_exec, contains_seq, owned, starts_with, strip_prefix_chars, str_len, string_from_chars};

verus! {

broadcast use vstd::string::group_string_axioms;

/// A refused request: HTTP status and error body.
#[derive(Debug)]
pub struct UserFailure {
    pub status: u16,
    pub body: UserErrorResponse,
}

pub open spec fn user_failure_view(f: UserFailure) -> (u16, Seq<char>, Seq<char>) {
    (f.status, f.body.code@, f.body.message@)
}

fn user_failure(status: u16, code: &str, message: &str) -> (r: UserFailure)
    ensures
        user_failure_view(r) == (status, code@, message@),
{
    UserFailure { status, body: UserErrorResponse { code: owned(code), message: owned(message) } }
}

/// Why a registration is refused before the account is created: the
/// username must have 3 to 50 bytes of letters, digits, `_` and `-`, the
/// display name 1 to 100 bytes, the password 8 to 128 bytes, and an email,
/// if given, an `@` and a `.`; checked in that order.
pub open spec fn registration_problem(
    username: Seq<char>,
    display_name: Seq<char>,
    password: Seq<char>,
    email: Option<Seq<char>>,
) -> Option<(u16, Seq<char>, Seq<char>)> {
    if byte_length(username) < 3 || byte_length(username) > 50 {
        Some((400, "VALIDATION_ERROR"@, "Username must be between 3 and 50 characters"@))
    } else if !(forall|i: int| 0 <= i < username.len() ==> username_char(#[trigger] username[i])) {
        Some((400, "VALIDATION_ERROR"@, "Username can only contain letters, numbers, underscores, and hyphens"@))
    } else if display_name.len() == 0 || byte_length(display_name) > 100 {
        Some((400, "VALIDATION_ERROR"@, "Display name must be between 1 and 100 characters"@))
    } else if byte_length(password) < 8 {
        Some((400, "VALIDATION_ERROR"@, "Password must be at least 8 characters"@))
    } else if byte_length(password) > 128 {
        Some((400, "VALIDATION_ERROR"@, "Password must be at most 128 characters"@))
    } else if email matches Some(e) && (!e.contains('@') || !e.contains('.')) {
        Some((400, "VALIDATION_ERROR"@, "Invalid email format"@))
    } else {
        None
    }
}

/// A registration passes these checks only with a username of 3 to 50
/// bytes made of letters, digits, `_` and `-`, and a password of 8 to 128
/// bytes.
pub proof fn lemma_registered_username_characters(
    username: Seq<char>,
    display_name: Seq<char>,
    password: Seq<char>,
    email: Option<Seq<char>>,
)
    ensures
        registration_problem(username, display_name, password, email) is None ==> {
            &&& 3 <= byte_length(username) <= 50
            &&& 8 <= byte_length(password) <= 128
            &&& forall|i: int|
                0 <= i < username.len() ==> unicode_alphanumeric(#[trigger] username[i]) || username[i] == '_'
                    || username[i] == '-'
        },
{
}

/// Checks a registration request.
pub fn validate_registration(req: &RegisterRequest) -> (r: Result<(), UserFailure>)
    ensures
        r is Ok ==> forall|i: int|
            0 <= i < req.username@.len() ==> unicode_alphanumeric(#[trigger] req.username@[i])
                || req.username@[i] == '_' || req.username@[i] == '-',
        match registration_problem(
            req.username@,
            req.display_name@,
            req.password@,
            match req.email {
                Some(e) => Some(e@),
                None => None,
            },
        ) {
            None => r is Ok,
            Some(p) => r matches Err(f) && user_failure_view(f) == p,
        },
{
    proof {
        lemma_registered_username_characters(
            req.username@,
            req.display_name@,
            req.password@,
            match &req.email {
                Some(e) => Some(e@),
                None => None,
            },
        );
    }
    let ulen = str_len(req.username.as_str());
    if ulen < 3 || ulen > 50 {
        return Err(user_failure(400, "VALIDATION_ERROR", "Username must be between 3 and 50 characters"));
    }
    let uname = chars_of(req.username.as_str());
    let mut i: usize = 0;
    while i < uname.len()
        invariant
            i <= uname@.len(),
            uname@ == req.username@,
            3 <= byte_length(req.username@) <= 50,
            forall|j: int| 0 <= j < i ==> username_char(#[trigger] uname@[j]),
        decreases uname@.len() - i,
    {
        let c = uname[i];
        if !(is_alphanumeric(c) || c == '_' || c == '-') {
            assert(!username_char(uname@[i as int]));
            return Err(
                user_failure(
                    400,
                    "VALIDATION_ERROR",
                    "Username can only contain letters, numbers, underscores, and hyphens",
                ),
            );
        }
        i = i + 1;
    }
    let display = chars_of(req.display_name.as_str());
    if display.len() == 0 || str_len(req.display_name.as_str()) > 100 {
        return Err(
            user_failure(400, "VALIDATION_ERROR", "Display name must be between 1 and 100 characters"),
        );
    }
    if str_len(req.password.as_str()) < 8 {
        return Err(user_failure(400, "VALIDATION_ERROR", "Password must be at least 8 characters"));
    }
    if str_len(req.password.as_str()) > 128 {
        return Err(user_failure(400, "VALIDATION_ERROR", "Password must be at most 128 characters"));
    }
    match &req.email {
        Some(email) => {
            let e = chars_of(email.as_str());
            if !contains_char(e.as_slice(), '@') || !contains_char(e.as_slice(), '.') {
                return Err(user_failure(400, "VALIDATION_ERROR", "Invalid email format"));
            }
        },
        None => {},
    }
    Ok(())
}

/// The refusal for a failed account insert.
pub fn registration_store_failure(store_error: &str) -> (r: UserFailure)
    ensures
        user_failure_view(r) == if is_conflict_message(store_error@) {
            (409u16, "CONFLICT"@, "Username or email already exists"@)
        } else {
            (500u16, "INTERNAL_ERROR"@, "Failed to create user"@)
        },
{
    if crate::routes::signup::conflict_message(store_error) {
        user_failure(409, "CONFLICT", "Username or email already exists")
    } else {
        user_failure(500, "INTERNAL_ERROR", "Failed to create user")
    }
}

/// The refusal when no access token could be issued.
pub fn token_failure() -> (r: UserFailure)
    ensures
        user_failure_view(r) == (500u16, "TOKEN_ERROR"@, "Failed to generate authentication token"@),
{
    user_failure(500, "TOKEN_ERROR", "Failed to generate authentication token")
}

/// What a login attempt does next.
#[derive(Debug, Clone, Copy, PartialEq, Eq, Structural)]
pub enum LoginDecision {
    /// Answer with this failure message.
    Reject(LoginRejection),
    /// The password is right but a second factor is needed.
    RequireMfa,
    /// Issue an access token and a refresh token.
    IssueTokens,
}

/// Why a login fails.  Unknown accounts and wrong passwords get the same
/// message, so that account names cannot be probed.
#[derive(Debug, Clone, Copy, PartialEq, Eq, Structural)]
pub enum LoginRejection {
    EmptyUsername,
    EmptyPassword,
    BadCredentials,
    Disabled,
}

/// The message a rejected login carries.
pub open spec fn rejection_text(r: LoginRejection) -> Seq<char> {
    match r {
        LoginRejection::EmptyUsername => "Username cannot be empty"@,
        LoginRejection::EmptyPassword => "Password cannot be empty"@,
        LoginRejection::BadCredentials => "Invalid username or password"@,
        LoginRejection::Disabled => "Account is disabled"@,
    }
}

impl LoginRejection {
    pub fn message(&self) -> (r: &'static str)
        ensures
            r@ == rejection_text(*self),
    {
        match self {
            LoginRejection::EmptyUsername => "Username cannot be empty",
            LoginRejection::EmptyPassword => "Password cannot be empty",
            LoginRejection::BadCredentials => "Invalid username or password",
            LoginRejection::Disabled => "Account is disabled",
        }
    }
}

/// The decision from the request and from what the lookups found: the
/// account (if any) and its active flag, whether the password verified, and
/// whether the account has TOTP enabled.  Checks run in that order.
pub open spec fn login_decision(
    username_empty: bool,
    password_empty: bool,
    account: Option<Option<bool>>,
    password_verified: bool,
    totp_enabled: bool,
) -> LoginDecision {
    if username_empty {
        LoginDecision::Reject(LoginRejection::EmptyUsername)
    } else if password_empty {
        LoginDecision::Reject(LoginRejection::EmptyPassword)
    } else {
        match account {
            None => LoginDecision::Reject(LoginRejection::BadCredentials),
            Some(active) => if !(match active {
                Some(a) => a,
                None => true,
            }) {
                LoginDecision::Reject(LoginRejection::Disabled)
            } else if !password_verified {
                LoginDecision::Reject(LoginRejection::BadCredentials)
            } else if totp_enabled {
                LoginDecision::RequireMfa
            } else {
                LoginDecision::IssueTokens
            },
        }
    }
}

pub fn decide_login(
    username: &str,
    password: &str,
    account: Option<Option<bool>>,
    password_verified: bool,
    totp_enabled: bool,
) -> (r: LoginDecision)
    ensures
        r == login_decision(
            username@.len() == 0,
            password@.len() == 0,
            account,
            password_verified,
            totp_enabled,
        ),
{
    if chars_of(username).len() == 0 {
        return LoginDecision::Reject(LoginRejection::EmptyUsername);
    }
    if chars_of(password).len() == 0 {
        return LoginDecision::Reject(LoginRejection::EmptyPassword);
    }
    match account {
        None => LoginDecision::Reject(LoginRejection::BadCredentials),
        Some(active) => {
            let is_active = match active {
                Some(a) => a,
                None => true,
            };
            if !is_active {
                LoginDecision::Reject(LoginRejection::Disabled)
            } else if !password_verified {
                LoginDecision::Reject(LoginRejection::BadCredentials)
            } else if totp_enabled {
                LoginDecision::RequireMfa
            } else {
                LoginDecision::IssueTokens
            }
        },
    }
}

/// A failed login answer: no tokens, the message, bearer tokens of the
/// configured lifetime.
pub fn rejected_login(reason: LoginRejection, expires_in: u64) -> (r: AuthenticateResponse)
    ensures
        !r.success,
        r.user_id is None && r.access_token is None && r.refresh_token is None,
        r.token_type@ == "Bearer"@,
        r.expires_in == expires_in,
        r.error matches Some(e) && e@ == rejection_text(reason),
        r.user is None && !r.mfa_required && r.mfa_user_id is None,
{
    AuthenticateResponse {
        success: false,
        user_id: None,
        access_token: None,
        refresh_token: None,
        token_type: owned("Bearer"),
        expires_in,
        error: Some(owned(reason.message())),
        user: None,
        mfa_required: false,
        mfa_user_id: None,
    }
}

/// The answer when a second factor is required: the account is named but
/// no token is issued.
pub fn mfa_challenge(user_id: &str, user: UserResponse, expires_in: u64) -> (r: AuthenticateResponse)
    ensures
        r.success && r.mfa_required,
        r.user_id matches Some(u) && u@ == user_id@,
        r.mfa_user_id matches Some(u) && u@ == user_id@,
        r.access_token is None && r.refresh_token is None && r.error is None,
        r.token_type@ == "Bearer"@,
        r.expires_in == expires_in,
        r.user == Some(user),
{
    AuthenticateResponse {
        success: true,
        user_id: Some(owned(user_id)),
        access_token: None,
        refresh_token: None,
        token_type: owned("Bearer"),
        expires_in,
        error: None,
        user: Some(user),
        mfa_required: true,
        mfa_user_id: Some(owned(user_id)),
    }
}

/// The answer of a successful login or registration.
pub fn issued_tokens(
    user_id: &str,
    access_token: String,
    refresh_token: String,
    user: UserResponse,
    expires_in: u64,
) -> (r: AuthenticateResponse)
    ensures
        r.success && !r.mfa_required,
        r.user_id matches Some(u) && u@ == user_id@,
        r.access_token == Some(access_token),
        r.refresh_token == Some(refresh_token),
        r.error is None && r.mfa_user_id is None,
        r.token_type@ == "Bearer"@,
        r.expires_in == expires_in,
        r.user == Some(user),
{
    AuthenticateResponse {
        success: true,
        user_id: Some(owned(user_id)),
        access_token: Some(access_token),
        refresh_token: Some(refresh_token),
        token_type: owned("Bearer"),
        expires_in,
        error: None,
        user: Some(user),
        mfa_required: false,
        mfa_user_id: None,
    }
}

/// The token of an `Authorization: Bearer <token>` header, or the 401 for a
/// missing or malformed header.
pub fn session_token(header: Option<&str>) -> (r: Result<String, UserFailure>)
    ensures
        match header {
            Some(h) if starts_with(h@, "Bearer "@) => r matches Ok(t) && t@ == h@.skip(
                "Bearer "@.len() as int,
            ),
            _ => r matches Err(f) && user_failure_view(f) == (
                401u16,
                "UNAUTHORIZED"@,
                "Missing or invalid Authorization header"@,
            ),
        },
{
    match header {
        Some(h) => {
            let hv = chars_of(h);
            match strip_prefix_chars(hv.as_slice(), "Bearer ") {
                Some(rest) => Ok(string_from_chars(rest.as_slice())),
                None => Err(user_failure(401, "UNAUTHORIZED", "Missing or invalid Authorization header")),
            }
        },
        None => Err(user_failure(401, "UNAUTHORIZED", "Missing or invalid Authorization header")),
    }
}

/// The refusal for a failed profile update: a conflict when the store
/// reports a uniqueness violation, not found otherwise.
pub fn profile_update_failure(store_error: &str) -> (r: UserFailure)
    ensures
        user_failure_view(r) == if contains_seq(store_error@, "unique"@) || contains_seq(
            store_error@,
            "duplicate"@,
        ) {
            (409u16, "CONFLICT"@, "Email already in use"@)
        } else {
            (404u16, "NOT_FOUND"@, "User not found"@)
        },
{
    let m = chars_of(store_error);
    let u = chars_of("unique");
    let d = chars_of("duplicate");
    if contains_exec(m.as_slice(), u.as_slice()) || contains_exec(m.as_slice(), d.as_slice()) {
        user_failure(409, "CONFLICT", "Email already in use")
    } else {
        user_failure(404, "NOT_FOUND", "User not found")
    }
}

/// Why a token refresh fails.
#[derive(Debug, Clone, Copy, PartialEq, Eq, Structural)]
pub enum RefreshFailure {
    UnknownToken,
    LookupFailed,
    BadUserId,
    UserMissing,
    Disabled,
    AccessTokenFailed,
    RefreshTokenFailed,
}

/// The answer to each refresh failure.
pub open spec fn refresh_failure_view(k: RefreshFailure) -> (u16, Seq<char>, Seq<char>) {
    match k {
        RefreshFailure::UnknownToken => (401, "INVALID_TOKEN"@, "Invalid or expired refresh token"@),
        RefreshFailure::LookupFailed => (500, "INTERNAL_ERROR"@, "Failed to validate refresh token"@),
        RefreshFailure::BadUserId => (500, "INTERNAL_ERROR"@, "Invalid user ID in refresh token"@),
        RefreshFailure::UserMissing => (401, "USER_NOT_FOUND"@, "User not found"@),
        RefreshFailure::Disabled => (401, "ACCOUNT_DISABLED"@, "Account is disabled"@),
        RefreshFailure::AccessTokenFailed => (500, "TOKEN_ERROR"@, "Failed to generate access token"@),
        RefreshFailure::RefreshTokenFailed => (500, "TOKEN_ERROR"@, "Failed to generate refresh token"@),
    }
}

pub fn refresh_failure(kind: RefreshFailure) -> (r: UserFailure)
    ensures
        user_failure_view(r) == refresh_failure_view(kind),
{
    match kind {
        RefreshFailure::UnknownToken => user_failure(401, "INVALID_TOKEN", "Invalid or expired refresh token"),
        RefreshFailure::LookupFailed => user_failure(500, "INTERNAL_ERROR", "Failed to validate refresh token"),
        RefreshFailure::BadUserId => user_failure(500, "INTERNAL_ERROR", "Invalid user ID in refresh token"),
        RefreshFailure::UserMissing => user_failure(401, "USER_NOT_FOUND", "User not found"),
        RefreshFailure::Disabled => user_failure(401, "ACCOUNT_DISABLED", "Account is disabled"),
        RefreshFailure::AccessTokenFailed => user_failure(500, "TOKEN_ERROR", "Failed to generate access token"),
        RefreshFailure::RefreshTokenFailed => user_failure(500, "TOKEN_ERROR", "Failed to generate refresh token"),
    }
}

/// An account counts as active unless it is marked inactive.
pub fn account_active(is_active: Option<bool>) -> (r: bool)
    ensures
        r == match is_active {
            Some(a) => a,
            None => true,
        },
{
    match is_active {
        Some(a) => a,
        None => true,
    }
}

/// The account guests sign in as: the configured one, else the fixed guest id.
pub fn guest_account_id(configured: &str) -> (r: String)
    ensures
        r@ == if configured@.len() == 0 { "00000000-0000-0000-0000-000000000099"@ } else { configured@ },
{
    if chars_of(configured).len() == 0 {
        owned("00000000-0000-0000-0000-000000000099")
    } else {
        owned(configured)
    }
}

/// The refusal of a guest login while guest access is off.
pub fn guest_login_disabled() -> (r: UserFailure)
    ensures
        user_failure_view(r) == (403u16, "GUEST_LOGIN_DISABLED"@, "Guest login is not enabled"@),
{
    user_failure(403, "GUEST_LOGIN_DISABLED", "Guest login is not enabled")
}

} // verus!
