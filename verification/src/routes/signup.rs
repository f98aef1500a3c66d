//! Self-service signup requests and responses.

use vstd::prelude::*;
use crate::text::{
    byte_length, chars_of, contains_char, contains_exec, contains_seq, is_alphanumeric, owned,
    push_str, str_len, unicode_alphanumeric,
};

verus! {

#[derive(Debug)]
pub struct SignupRequest {
    pub username: String,
    pub email: String,
    pub password: String,
    pub display_name: String,
    pub plan: Option<String>,
}

#[derive(Debug)]
pub struct SignupResponse {
    pub success: bool,
    pub user_id: String,
    pub org_id: String,
    pub access_token: Option<String>,
    pub message: String,
}

#[derive(Debug)]
pub struct SignupErrorResponse {
    pub code: String,
    pub message: String,
}


/// Why a signup is refused before anything is stored: the HTTP status,
/// the error code and the message.
pub open spec fn signup_problem(
    username: Seq<char>,
    email: Seq<char>,
    password: Seq<char>,
    display_name: Seq<char>,
) -> Option<(u16, Seq<char>, Seq<char>)> {
    if byte_length(username) < 3 || byte_length(username) > 50 {
        Some((400, "VALIDATION_ERROR"@, "Username must be between 3 and 50 characters"@))
    } else if !email.contains('@') || !email.contains('.') {
        Some((400, "VALIDATION_ERROR"@, "Invalid email format"@))
    } else if byte_length(password) < 8 {
        Some((400, "VALIDATION_ERROR"@, "Password must be at least 8 characters"@))
    } else if display_name.len() == 0 || byte_length(display_name) > 100 {
        Some((400, "VALIDATION_ERROR"@, "Display name must be between 1 and 100 characters"@))
    } else if !(forall|i: int| 0 <= i < username.len() ==> account_name_char(#[trigger] username[i])) {
        Some(
            (
                400,
                "VALIDATION_ERROR"@,
                "Username may only contain alphanumeric characters, underscores, and hyphens"@,
            ),
        )
    } else {
        None
    }
}

/// A character allowed in an account name.
pub open spec fn account_name_char(c: char) -> bool {
    unicode_alphanumeric(c) || c == '_' || c == '-'
}

/// A refusal: status, code and message.
#[derive(Debug)]
pub struct SignupFailure {
    pub status: u16,
    pub body: SignupErrorResponse,
}

pub open spec fn failure_view(f: SignupFailure) -> (u16, Seq<char>, Seq<char>) {
    (f.status, f.body.code@, f.body.message@)
}

fn failure(status: u16, code: &str, message: &str) -> (r: SignupFailure)
    ensures
        failure_view(r) == (status, code@, message@),
{
    SignupFailure {
        status,
        body: SignupErrorResponse { code: owned(code), message: owned(message) },
    }
}

/// Checks a signup request before the account is created.
pub fn validate_signup(req: &SignupRequest) -> (r: Result<(), SignupFailure>)
    ensures
        match signup_problem(req.username@, req.email@, req.password@, req.display_name@) {
            None => r is Ok,
            Some(p) => r matches Err(f) && failure_view(f) == p,
        },
{
    let ulen = str_len(req.username.as_str());
    if ulen < 3 || ulen > 50 {
        return Err(failure(400, "VALIDATION_ERROR", "Username must be between 3 and 50 characters"));
    }
    let email = chars_of(req.email.as_str());
    if !contains_char(email.as_slice(), '@') || !contains_char(email.as_slice(), '.') {
        return Err(failure(400, "VALIDATION_ERROR", "Invalid email format"));
    }
    if str_len(req.password.as_str()) < 8 {
        return Err(failure(400, "VALIDATION_ERROR", "Password must be at least 8 characters"));
    }
    let display = chars_of(req.display_name.as_str());
    if display.len() == 0 || str_len(req.display_name.as_str()) > 100 {
        return Err(
            failure(400, "VALIDATION_ERROR", "Display name must be between 1 and 100 characters"),
        );
    }
    let u = chars_of(req.username.as_str());
    let mut i: usize = 0;
    while i < u.len()
        invariant
            i <= u@.len(),
            u@ == req.username@,
            signup_problem(req.username@, req.email@, req.password@, req.display_name@) == (if forall|j: int| 0 <= j < u@.len() ==> account_name_char(#[trigger] u@[j]) {
                None
            } else {
                Some(
                    (
                        400u16,
                        "VALIDATION_ERROR"@,
                        "Username may only contain alphanumeric characters, underscores, and hyphens"@,
                    ),
                )
            }),
            forall|j: int| 0 <= j < i ==> account_name_char(#[trigger] u@[j]),
        decreases u@.len() - i,
    {
        let c = u[i];
        if !(is_alphanumeric(c) || c == '_' || c == '-') {
            assert(!account_name_char(u@[i as int]));
            return Err(
                failure(
                    400,
                    "VALIDATION_ERROR",
                    "Username may only contain alphanumeric characters, underscores, and hyphens",
                ),
            );
        }
        i = i + 1;
    }
    Ok(())
}

/// The store's error text names a uniqueness violation.
pub open spec fn is_conflict_message(msg: Seq<char>) -> bool {
    contains_seq(msg, "already exists"@) || contains_seq(msg, "duplicate"@) || contains_seq(
        msg,
        "unique"@,
    )
}

pub fn conflict_message(msg: &str) -> (r: bool)
    ensures
        r == is_conflict_message(msg@),
{
    let m = chars_of(msg);
    let a = chars_of("already exists");
    let d = chars_of("duplicate");
    let u = chars_of("unique");
    contains_exec(m.as_slice(), a.as_slice()) || contains_exec(m.as_slice(), d.as_slice())
        || contains_exec(m.as_slice(), u.as_slice())
}

/// What the email lookup before account creation decides: an address that
/// already belongs to an account is refused with a conflict.
pub fn email_availability(already_registered: bool) -> (r: Result<(), SignupFailure>)
    ensures
        already_registered ==> (r matches Err(f) && failure_view(f) == (409u16, "CONFLICT"@,
            "Email already registered"@)),
        !already_registered ==> r is Ok,
{
    if already_registered {
        Err(failure(409, "CONFLICT", "Email already registered"))
    } else {
        Ok(())
    }
}

/// The refusal for a failed account insert: a conflict when the store
/// reports a uniqueness violation, an internal error otherwise.
pub fn create_failure(store_error: &str) -> (r: SignupFailure)
    ensures
        failure_view(r) == if is_conflict_message(store_error@) {
            (409u16, "CONFLICT"@, "Username or email already exists"@)
        } else {
            (500u16, "INTERNAL_ERROR"@, "Failed to create user"@)
        },
{
    if conflict_message(store_error) {
        failure(409, "CONFLICT", "Username or email already exists")
    } else {
        failure(500, "INTERNAL_ERROR", "Failed to create user")
    }
}

/// The name of a new user's personal organization.
pub fn organization_name(display_name: &str) -> (r: String)
    ensures
        r@ == display_name@ + "'s Organization"@,
{
    let mut name = owned(display_name);
    push_str(&mut name, "'s Organization");
    name
}

/// The subscription plan of a signup: the one asked for, `free` otherwise.
pub fn plan_name(plan: Option<&str>) -> (r: String)
    ensures
        r@ == match plan {
            Some(p) => p@,
            None => "free"@,
        },
{
    match plan {
        Some(p) => owned(p),
        None => owned("free"),
    }
}

/// The response to a completed signup.
pub fn signup_success(user_id: String, org_id: String) -> (r: SignupResponse)
    ensures
        r.success,
        r.user_id == user_id,
        r.org_id == org_id,
        r.access_token is None,
        r.message@ == "Account created successfully"@,
{
    SignupResponse {
        success: true,
        user_id,
        org_id,
        access_token: None,
        message: owned("Account created successfully"),
    }
}

} // verus!
