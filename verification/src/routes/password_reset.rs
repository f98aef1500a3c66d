//! Password-reset and email-verification requests and responses, and the
//! token helpers behind them.

use vstd::prelude::*;
use vstd::utf8::encode_utf8;
use crate::crypto::{hex_encode, hex_lower, lemma_hex_lower_len, new_uuid_v4_string, sha256, sha256_of};
use crate::text::{chars_of, eq_str, owned, push_str, starts_with, strip_prefix_chars, string_from_chars};
use crate::validation::common::{is_uuid_dash_position, uuid_shape};

verus! {

#[derive(Debug)]
pub struct PasswordResetRequest {
    pub email: String,
}

#[derive(Debug)]
pub struct PasswordResetConfirm {
    pub token: String,
    pub new_password: String,
}

#[derive(Debug)]
pub struct EmailVerifyRequest {
    pub email: String,
}

#[derive(Debug)]
pub struct EmailVerifyConfirm {
    pub token: String,
}

#[derive(Debug)]
pub struct MessageResponse {
    pub message: String,
}

#[derive(Debug)]
pub struct ErrorResponse {
    pub code: String,
    pub message: String,
}


/// The stored form of a token: the hex SHA-256 of its UTF-8 bytes.
pub open spec fn token_hash(token: Seq<char>) -> Seq<char> {
    hex_lower(sha256_of(encode_utf8(token)))
}

pub fn hash_token(token: &str) -> (r: String)
    ensures
        r@ == token_hash(token@),
        r@.len() == 64,
{
    let digest = sha256(token.as_bytes());
    proof {
        lemma_hex_lower_len(digest@);
    }
    hex_encode(digest.as_slice())
}

/// `s` without the occurrences of `c`.
pub open spec fn without_char(s: Seq<char>, c: char) -> Seq<char>
    decreases s.len(),
{
    if s.len() == 0 {
        s
    } else if s.last() == c {
        without_char(s.drop_last(), c)
    } else {
        without_char(s.drop_last(), c).push(s.last())
    }
}

/// How many hyphen positions of the UUID text form lie before `i`.
pub open spec fn dashes_before(i: int) -> int {
    (if i > 8 { 1int } else { 0int }) + (if i > 13 { 1int } else { 0int }) + (if i > 18 {
        1int
    } else {
        0int
    }) + (if i > 23 { 1int } else { 0int })
}

/// A UUID's hexadecimal digits: the text form without its hyphens.
fn uuid_digits(u: &[char]) -> (r: Vec<char>)
    requires
        uuid_shape(u@),
    ensures
        r@ == without_char(u@, '-'),
        r@.len() == 32,
        !r@.contains('-'),
{
    let mut r: Vec<char> = Vec::new();
    let mut i: usize = 0;
    while i < u.len()
        invariant
            i <= 36,
            uuid_shape(u@),
            r@ == without_char(u@.take(i as int), '-'),
            r@.len() == i - dashes_before(i as int),
            !r@.contains('-'),
        decreases 36 - i,
    {
        let c = u[i];
        assert(u@.take(i as int + 1).drop_last() =~= u@.take(i as int));
        assert(is_uuid_dash_position(i as int) ==> c == '-');
        assert(!is_uuid_dash_position(i as int) ==> c != '-');
        if c != '-' {
            r.push(c);
        }
        i = i + 1;
    }
    assert(u@.take(36) =~= u@);
    r
}

/// A fresh token: a random UUID's 32 hexadecimal digits.
pub fn generate_token() -> (r: String)
    ensures
        r@.len() == 32,
        !r@.contains('-'),
        exists|u: Seq<char>| uuid_shape(u) && r@ == without_char(u, '-'),
{
    let text = new_uuid_v4_string();
    let u = chars_of(text.as_str());
    let digits = uuid_digits(u.as_slice());
    string_from_chars(digits.as_slice())
}

/// An error body with a code and a message.
pub fn error_response(code: &str, message: &str) -> (r: ErrorResponse)
    ensures
        r.code@ == code@,
        r.message@ == message@,
{
    ErrorResponse { code: owned(code), message: owned(message) }
}

/// An error body whose message names what failed and why.
pub fn error_with_detail(code: &str, what: &str, detail: &str) -> (r: ErrorResponse)
    ensures
        r.code@ == code@,
        r.message@ == what@ + ": "@ + detail@,
{
    let mut m = owned(what);
    push_str(&mut m, ": ");
    push_str(&mut m, detail);
    ErrorResponse { code: owned(code), message: m }
}

/// The token of an `Authorization: Bearer <token>` header, or the 401 body
/// for a missing or malformed header.
pub fn bearer_token(header: Option<&str>) -> (r: Result<String, ErrorResponse>)
    ensures
        match header {
            None => r matches Err(e) && e.code@ == "UNAUTHORIZED"@ && e.message@
                == "Authentication required"@,
            Some(h) => if starts_with(h@, "Bearer "@) {
                r matches Ok(t) && t@ == h@.skip("Bearer "@.len() as int)
            } else {
                r matches Err(e) && e.code@ == "UNAUTHORIZED"@ && e.message@
                    == "Invalid authorization header format"@
            },
        },
{
    match header {
        None => Err(error_response("UNAUTHORIZED", "Authentication required")),
        Some(h) => {
            let hv = chars_of(h);
            match strip_prefix_chars(hv.as_slice(), "Bearer ") {
                Some(rest) => Ok(string_from_chars(rest.as_slice())),
                None => Err(error_response("UNAUTHORIZED", "Invalid authorization header format")),
            }
        },
    }
}

/// The base URL used in emailed links when none is configured.
pub open spec fn default_base_url() -> Seq<char> {
    "http://localhost:8080"@
}

/// The configured base URL, or the default.
pub fn base_url_or_default(configured: Option<&str>) -> (r: String)
    ensures
        r@ == match configured {
            Some(b) => b@,
            None => default_base_url(),
        },
{
    match configured {
        Some(b) => owned(b),
        None => owned("http://localhost:8080"),
    }
}

/// The link that resets a password.
pub fn reset_link(base_url: &str, token: &str) -> (r: String)
    ensures
        r@ == base_url@ + "/reset-password?token="@ + token@,
{
    let mut l = owned(base_url);
    push_str(&mut l, "/reset-password?token=");
    push_str(&mut l, token);
    l
}

/// The link that verifies an email address.
pub fn verification_link(base_url: &str, token: &str) -> (r: String)
    ensures
        r@ == base_url@ + "/verify-email?token="@ + token@,
{
    let mut l = owned(base_url);
    push_str(&mut l, "/verify-email?token=");
    push_str(&mut l, token);
    l
}

/// The body of the password-reset email.
pub fn reset_email_body(link: &str) -> (r: String)
    ensures
        r@ == "You requested a password reset. Click the link below to reset your password:\n\n"@
            + link@
            + "\n\nThis link expires in 1 hour. If you did not request this, you can safely ignore this email."@,
{
    let mut b = owned(
        "You requested a password reset. Click the link below to reset your password:\n\n",
    );
    push_str(&mut b, link);
    push_str(
        &mut b,
        "\n\nThis link expires in 1 hour. If you did not request this, you can safely ignore this email.",
    );
    b
}

/// The body of the email-verification email.
pub fn verification_email_body(link: &str) -> (r: String)
    ensures
        r@ == "Please verify your email address by clicking the link below:\n\n"@ + link@
            + "\n\nThis link expires in 24 hours."@,
{
    let mut b = owned("Please verify your email address by clicking the link below:\n\n");
    push_str(&mut b, link);
    push_str(&mut b, "\n\nThis link expires in 24 hours.");
    b
}

/// Email goes out only when a delivery webhook is configured.
pub fn email_delivery_enabled(webhook_url: Option<&str>) -> (r: bool)
    ensures
        r == match webhook_url {
            Some(u) => u@ != "/dev/null"@,
            None => false,
        },
{
    match webhook_url {
        Some(u) => {
            let v = chars_of(u);
            !eq_str(v.as_slice(), "/dev/null")
        },
        None => false,
    }
}

/// The answer to a password-reset request, the same whether or not the
/// address belongs to an account.
pub fn reset_requested() -> (r: MessageResponse)
    ensures
        r.message@ == "If an account with that email exists, a password reset link has been sent."@,
{
    MessageResponse {
        message: owned("If an account with that email exists, a password reset link has been sent."),
    }
}

/// The answer to a verification request, the same whether or not the
/// address belongs to an account.
pub fn verification_requested() -> (r: MessageResponse)
    ensures
        r.message@ == "If an account with that email exists, a verification link has been sent."@,
{
    MessageResponse {
        message: owned("If an account with that email exists, a verification link has been sent."),
    }
}

/// The refusal of an unknown, expired or used token.
pub fn invalid_token() -> (r: ErrorResponse)
    ensures
        r.code@ == "INVALID_TOKEN"@,
        r.message@ == "Token is invalid, expired, or already used."@,
{
    error_response("INVALID_TOKEN", "Token is invalid, expired, or already used.")
}

/// The answer to a completed password reset.
pub fn password_reset_done() -> (r: MessageResponse)
    ensures
        r.message@ == "Password has been reset successfully."@,
{
    MessageResponse { message: owned("Password has been reset successfully.") }
}

/// The answer to a completed email verification.
pub fn email_verified() -> (r: MessageResponse)
    ensures
        r.message@ == "Email verified successfully."@,
{
    MessageResponse { message: owned("Email verified successfully.") }
}

} // verus!
