//! Validation of user names, email addresses, passwords and identifiers.
//!
//! Each validator has a spec function `*_outcome` that states, from the raw
//! input's characters, either the stored value or the error returned.

use vstd::prelude::*;
use crate::text::{
    chars_of, contains_char, is_alphanumeric, is_ascii_alphanumeric, is_lowercase, is_numeric,
    is_one_of, is_uppercase, lowercase, lowercase_chars, one_of, string_from_chars, trim_chars,
    trimmed, unicode_alphanumeric, unicode_lowercase, unicode_numeric, unicode_uppercase,
    ascii_alphanumeric, eq_str, all_ascii, ascii_lowercase,
};
use crate::validation::common::{
    contains_any, email_domain, email_message, email_shape_at, email_valid, forbidden,
    has_markup, html_message, invalid_format, length_error, normalize_whitespace,
    normalized_whitespace, result_view, script_fragments, script_message, uuid_message,
    uuid_shape, validate_email, validate_length, validate_no_html, validate_no_scripts,
    validate_uuid, ValidationError, ValidationErrorView, ValidationResult,
};

verus! {

broadcast use vstd::string::group_string_axioms;

pub const MIN_USERNAME_LENGTH: usize = 3;

pub const MAX_USERNAME_LENGTH: usize = 50;

pub const MIN_DISPLAY_NAME_LENGTH: usize = 1;

pub const MAX_DISPLAY_NAME_LENGTH: usize = 100;

pub const MIN_PASSWORD_LENGTH: usize = 8;

pub const MAX_PASSWORD_LENGTH: usize = 128;

// ---------------------------------------------------------------------------
// Usernames
// ---------------------------------------------------------------------------

pub open spec fn username_charset_message() -> Seq<char> {
    "Username can only contain letters, numbers, underscores, and hyphens"@
}

pub open spec fn username_digit_message() -> Seq<char> {
    "Username cannot start with a number"@
}

pub open spec fn username_reserved_message() -> Seq<char> {
    "This username is reserved"@
}

pub open spec fn username_char(c: char) -> bool {
    unicode_alphanumeric(c) || c == '_' || c == '-'
}

/// Names that no account may take, compared without regard to case.
pub open spec fn reserved_usernames() -> Seq<&'static str> {
    seq![
        "admin",
        "root",
        "system",
        "administrator",
        "moderator",
        "api",
        "www",
        "mail",
        "email",
        "support",
        "help",
        "guest",
        "user",
        "users",
        "tachyon",
        "server",
    ]
}

/// The stored username, or the error, for a raw input.
pub open spec fn username_outcome(raw: Seq<char>) -> Result<Seq<char>, ValidationErrorView> {
    let u = trimmed(raw);
    if u.len() == 0 {
        Err(ValidationErrorView::Required)
    } else if length_error(u, 3, 50) is Some {
        Err(length_error(u, 3, 50).unwrap())
    } else if !(forall|i: int| 0 <= i < u.len() ==> username_char(#[trigger] u[i])) {
        Err(ValidationErrorView::InvalidFormat(username_charset_message()))
    } else if unicode_numeric(u[0]) {
        Err(ValidationErrorView::InvalidFormat(username_digit_message()))
    } else if one_of(lowercase(u), reserved_usernames()) {
        Err(ValidationErrorView::ForbiddenContent(username_reserved_message()))
    } else {
        Ok(u)
    }
}

/// What an accepted username is: the trimmed input, 3 to 50 characters,
/// each a letter or digit, `_` or `-`, the first not a digit.  An input of
/// the right length holding any other character is refused with the
/// charset message.
pub proof fn lemma_username_characters(raw: Seq<char>)
    ensures
        username_outcome(raw) matches Ok(u) ==> {
            &&& u == trimmed(raw)
            &&& 3 <= u.len() <= 50
            &&& forall|i: int|
                0 <= i < u.len() ==> unicode_alphanumeric(#[trigger] u[i]) || u[i] == '_' || u[i] == '-'
            &&& !unicode_numeric(u[0])
        },
        ({
            let t = trimmed(raw);
            &&& 3 <= t.len() <= 50
            &&& exists|i: int|
                0 <= i < t.len() && !unicode_alphanumeric(#[trigger] t[i]) && t[i] != '_' && t[i] != '-'
        }) ==> username_outcome(raw) == Err::<Seq<char>, ValidationErrorView>(
            ValidationErrorView::InvalidFormat(
                "Username can only contain letters, numbers, underscores, and hyphens"@,
            ),
        ),
{
    let t = trimmed(raw);
    if 3 <= t.len() <= 50 && exists|i: int|
        0 <= i < t.len() && !unicode_alphanumeric(#[trigger] t[i]) && t[i] != '_' && t[i] != '-' {
        let i = choose|i: int|
            0 <= i < t.len() && !unicode_alphanumeric(#[trigger] t[i]) && t[i] != '_' && t[i] != '-';
        assert(!username_char(t[i]));
    }
}

/// A trimmed username of 3 to 50 letters, digits, `_` or `-`, not starting
/// with a digit and not reserved.
#[derive(Debug, Clone)]
pub struct ValidatedUsername {
    value: String,
}

impl View for ValidatedUsername {
    type V = Seq<char>;

    closed spec fn view(&self) -> Seq<char> {
        self.value@
    }
}

impl ValidatedUsername {
    pub fn new(username: &str) -> (r: ValidationResult<Self>)
        ensures
            result_view(&r) == username_outcome(username@),
            result_view(&r) matches Ok(u) ==> forall|i: int|
                0 <= i < u.len() ==> unicode_alphanumeric(#[trigger] u[i]) || u[i] == '_' || u[i] == '-',
    {
        proof {
            lemma_username_characters(username@);
        }
        let raw = chars_of(username);
        let u = trim_chars(raw.as_slice());
        if u.len() == 0 {
            return Err(ValidationError::Required);
        }
        match validate_length(u.as_slice(), MIN_USERNAME_LENGTH, MAX_USERNAME_LENGTH) {
            Err(e) => {
                return Err(e);
            },
            Ok(()) => {},
        }
        let mut i: usize = 0;
        while i < u.len()
            invariant
                i <= u@.len(),
                u@ == trimmed(username@),
                u@.len() > 0,
                length_error(u@, 3, 50) is None,
                forall|j: int| 0 <= j < i ==> username_char(#[trigger] u@[j]),
            decreases u@.len() - i,
        {
            let c = u[i];
            if !(is_alphanumeric(c) || c == '_' || c == '-') {
                assert(!username_char(u@[i as int]));
                assert(!(forall|j: int| 0 <= j < u@.len() ==> username_char(#[trigger] u@[j])));
                return Err(
                    invalid_format(
                        "Username can only contain letters, numbers, underscores, and hyphens",
                    ),
                );
            }
            i = i + 1;
        }
        if is_numeric(u[0]) {
            return Err(invalid_format("Username cannot start with a number"));
        }
        let lower = lowercase_chars(u.as_slice());
        let reserved: [&'static str; 16] = [
            "admin",
            "root",
            "system",
            "administrator",
            "moderator",
            "api",
            "www",
            "mail",
            "email",
            "support",
            "help",
            "guest",
            "user",
            "users",
            "tachyon",
            "server",
        ];
        assert(reserved@ =~= reserved_usernames());
        if is_one_of(lower.as_slice(), reserved.as_slice()) {
            return Err(forbidden("This username is reserved"));
        }
        Ok(ValidatedUsername { value: string_from_chars(u.as_slice()) })
    }

    pub fn as_str(&self) -> (r: &str)
        ensures
            r@ == self@,
    {
        self.value.as_str()
    }

    pub fn into_inner(self) -> (r: String)
        ensures
            r@ == self@,
    {
        self.value
    }
}

// ---------------------------------------------------------------------------
// Display names
// ---------------------------------------------------------------------------

/// The stored display name, or the error, for a raw input.
pub open spec fn display_name_outcome(raw: Seq<char>) -> Result<Seq<char>, ValidationErrorView> {
    let n = trimmed(raw);
    if n.len() == 0 {
        Err(ValidationErrorView::Required)
    } else if length_error(n, 1, 100) is Some {
        Err(length_error(n, 1, 100).unwrap())
    } else if has_markup(n) {
        Err(ValidationErrorView::ForbiddenContent(html_message()))
    } else if contains_any(lowercase(n), script_fragments()) {
        Err(ValidationErrorView::ForbiddenContent(script_message()))
    } else {
        Ok(normalized_whitespace(n))
    }
}

/// A display name of 1 to 100 characters without markup or script, with
/// its whitespace normalised.
#[derive(Debug, Clone)]
pub struct ValidatedDisplayName {
    value: String,
}

impl View for ValidatedDisplayName {
    type V = Seq<char>;

    closed spec fn view(&self) -> Seq<char> {
        self.value@
    }
}

impl ValidatedDisplayName {
    pub fn new(name: &str) -> (r: ValidationResult<Self>)
        ensures
            result_view(&r) == display_name_outcome(name@),
    {
        let raw = chars_of(name);
        let n = trim_chars(raw.as_slice());
        if n.len() == 0 {
            return Err(ValidationError::Required);
        }
        match validate_length(n.as_slice(), MIN_DISPLAY_NAME_LENGTH, MAX_DISPLAY_NAME_LENGTH) {
            Err(e) => {
                return Err(e);
            },
            Ok(()) => {},
        }
        match validate_no_html(n.as_slice()) {
            Err(e) => {
                return Err(e);
            },
            Ok(()) => {},
        }
        match validate_no_scripts(n.as_slice()) {
            Err(e) => {
                return Err(e);
            },
            Ok(()) => {},
        }
        let normalized = normalize_whitespace(n.as_slice());
        Ok(ValidatedDisplayName { value: string_from_chars(normalized.as_slice()) })
    }

    pub fn as_str(&self) -> (r: &str)
        ensures
            r@ == self@,
    {
        self.value.as_str()
    }

    pub fn into_inner(self) -> (r: String)
        ensures
            r@ == self@,
    {
        self.value
    }
}

// ---------------------------------------------------------------------------
// Email addresses
// ---------------------------------------------------------------------------

pub open spec fn disposable_message() -> Seq<char> {
    "Disposable email addresses are not allowed"@
}

/// Domains of throw-away mailbox services.
pub open spec fn disposable_domains() -> Seq<&'static str> {
    seq![
        "tempmail.com",
        "throwaway.email",
        "guerrillamail.com",
        "mailinator.com",
        "10minutemail.com",
    ]
}

/// The stored address, or the error, for a raw input.
pub open spec fn email_outcome(raw: Seq<char>) -> Result<Seq<char>, ValidationErrorView> {
    let e = lowercase(trimmed(raw));
    if !email_valid(e) {
        Err(ValidationErrorView::InvalidFormat(email_message()))
    } else if one_of(email_domain(e), disposable_domains()) {
        Err(ValidationErrorView::ForbiddenContent(disposable_message()))
    } else {
        Ok(e)
    }
}

/// A trimmed, lowercased email address of valid shape whose domain is not
/// a disposable-mail service.
#[derive(Debug, Clone)]
pub struct ValidatedEmail {
    value: String,
}

impl View for ValidatedEmail {
    type V = Seq<char>;

    closed spec fn view(&self) -> Seq<char> {
        self.value@
    }
}

impl ValidatedEmail {
    pub fn new(email: &str) -> (r: ValidationResult<Self>)
        ensures
            result_view(&r) == email_outcome(email@),
    {
        let raw = chars_of(email);
        let t = trim_chars(raw.as_slice());
        let e = lowercase_chars(t.as_slice());
        let k = match validate_email(e.as_slice()) {
            Err(err) => {
                return Err(err);
            },
            Ok(k) => k,
        };
        let domain = crate::text::slice_range(e.as_slice(), k + 1, e.len());
        proof {
            let kk = choose|kk: int| email_shape_at(e@, kk);
            assert(email_shape_at(e@, kk));
            assert(kk == k as int);
            assert(domain@ =~= email_domain(e@));
        }
        let disposable: [&'static str; 5] = [
            "tempmail.com",
            "throwaway.email",
            "guerrillamail.com",
            "mailinator.com",
            "10minutemail.com",
        ];
        assert(disposable@ =~= disposable_domains());
        if is_one_of(domain.as_slice(), disposable.as_slice()) {
            return Err(forbidden("Disposable email addresses are not allowed"));
        }
        Ok(ValidatedEmail { value: string_from_chars(e.as_slice()) })
    }

    pub fn as_str(&self) -> (r: &str)
        ensures
            r@ == self@,
    {
        self.value.as_str()
    }

    pub fn into_inner(self) -> (r: String)
        ensures
            r@ == self@,
    {
        self.value
    }
}

// ---------------------------------------------------------------------------
// Passwords
// ---------------------------------------------------------------------------

pub open spec fn password_complexity_message() -> Seq<char> {
    "Password must contain at least 3 of: uppercase, lowercase, numbers, special characters"@
}

pub open spec fn password_common_message() -> Seq<char> {
    "This password is too common"@
}

/// The punctuation that counts as a special character.
pub open spec fn special_chars() -> Seq<char> {
    seq![
        '!', '@', '#', '$', '%', '^', '&', '*', '(', ')', '_', '+', '-', '=', '[', ']', '{', '}',
        '|', ';', ':', ',', '.', '<', '>', '?',
    ]
}

/// Each character counts toward the first class it belongs to, in the order
/// uppercase, lowercase, numeric, special.
pub open spec fn counts_upper(c: char) -> bool {
    unicode_uppercase(c)
}

pub open spec fn counts_lower(c: char) -> bool {
    !unicode_uppercase(c) && unicode_lowercase(c)
}

pub open spec fn counts_digit(c: char) -> bool {
    !unicode_uppercase(c) && !unicode_lowercase(c) && unicode_numeric(c)
}

pub open spec fn counts_special(c: char) -> bool {
    !unicode_uppercase(c) && !unicode_lowercase(c) && !unicode_numeric(c)
        && special_chars().contains(c)
}

pub open spec fn some_char(p: Seq<char>, class: spec_fn(char) -> bool) -> bool {
    exists|i: int| 0 <= i < p.len() && class(#[trigger] p[i])
}

pub open spec fn bit(b: bool) -> nat {
    if b {
        1
    } else {
        0
    }
}

/// How many of the four character classes the password uses.
pub open spec fn password_classes(p: Seq<char>) -> nat {
    bit(some_char(p, |c: char| counts_upper(c))) + bit(some_char(p, |c: char| counts_lower(c)))
        + bit(some_char(p, |c: char| counts_digit(c))) + bit(
        some_char(p, |c: char| counts_special(c)),
    )
}

/// Passwords refused as too common, compared without regard to case.
pub open spec fn common_passwords() -> Seq<&'static str> {
    seq![
        "password",
        "password123",
        "12345678",
        "qwerty123",
        "admin123",
        "letmein",
        "welcome1",
        "password1!",
    ]
}

/// The stored password, or the error, for a raw input.
pub open spec fn password_outcome(p: Seq<char>) -> Result<Seq<char>, ValidationErrorView> {
    if p.len() == 0 {
        Err(ValidationErrorView::Required)
    } else if length_error(p, 8, 128) is Some {
        Err(length_error(p, 8, 128).unwrap())
    } else if password_classes(p) < 3 {
        Err(ValidationErrorView::InvalidFormat(password_complexity_message()))
    } else if one_of(lowercase(p), common_passwords()) {
        Err(ValidationErrorView::ForbiddenContent(password_common_message()))
    } else {
        Ok(p)
    }
}

/// How many of the four classes occur in `p`: an uppercase letter; a
/// lowercase letter; a numeric character (neither upper- nor lowercase); a
/// special character (none of the three before).
pub open spec fn classes_present(p: Seq<char>) -> int {
    (if exists|i: int| 0 <= i < p.len() && unicode_uppercase(#[trigger] p[i]) {
        1int
    } else {
        0int
    }) + (if exists|i: int|
        0 <= i < p.len() && !unicode_uppercase(#[trigger] p[i]) && unicode_lowercase(p[i]) {
        1int
    } else {
        0int
    }) + (if exists|i: int|
        0 <= i < p.len() && !unicode_uppercase(#[trigger] p[i]) && !unicode_lowercase(p[i])
            && unicode_numeric(p[i]) {
        1int
    } else {
        0int
    }) + (if exists|i: int|
        0 <= i < p.len() && !unicode_uppercase(#[trigger] p[i]) && !unicode_lowercase(p[i])
            && !unicode_numeric(p[i]) && special_chars().contains(p[i]) {
        1int
    } else {
        0int
    })
}

/// An accepted password is the input itself, 8 to 128 characters long, and
/// uses at least three of the four character classes; one of the right
/// length that uses fewer is refused with the complexity message.
pub proof fn lemma_password_strength(p: Seq<char>)
    ensures
        password_outcome(p) matches Ok(v) ==> v == p && 8 <= p.len() <= 128 && classes_present(p) >= 3,
        (8 <= p.len() <= 128 && classes_present(p) < 3) ==> password_outcome(p) == Err::<
            Seq<char>,
            ValidationErrorView,
        >(
            ValidationErrorView::InvalidFormat(
                "Password must contain at least 3 of: uppercase, lowercase, numbers, special characters"@,
            ),
        ),
{
    assert(some_char(p, |c: char| counts_upper(c)) == exists|i: int|
        0 <= i < p.len() && unicode_uppercase(#[trigger] p[i])) by {
        if exists|i: int| 0 <= i < p.len() && unicode_uppercase(#[trigger] p[i]) {
            let i = choose|i: int| 0 <= i < p.len() && unicode_uppercase(#[trigger] p[i]);
            assert((|c: char| counts_upper(c))(p[i]));
        }
    }
    assert(some_char(p, |c: char| counts_lower(c)) == exists|i: int|
        0 <= i < p.len() && !unicode_uppercase(#[trigger] p[i]) && unicode_lowercase(p[i])) by {
        if exists|i: int| 0 <= i < p.len() && !unicode_uppercase(#[trigger] p[i]) && unicode_lowercase(p[i]) {
            let i = choose|i: int|
                0 <= i < p.len() && !unicode_uppercase(#[trigger] p[i]) && unicode_lowercase(p[i]);
            assert((|c: char| counts_lower(c))(p[i]));
        }
    }
    assert(some_char(p, |c: char| counts_digit(c)) == exists|i: int|
        0 <= i < p.len() && !unicode_uppercase(#[trigger] p[i]) && !unicode_lowercase(p[i])
            && unicode_numeric(p[i])) by {
        if exists|i: int|
            0 <= i < p.len() && !unicode_uppercase(#[trigger] p[i]) && !unicode_lowercase(p[i])
                && unicode_numeric(p[i]) {
            let i = choose|i: int|
                0 <= i < p.len() && !unicode_uppercase(#[trigger] p[i]) && !unicode_lowercase(p[i])
                    && unicode_numeric(p[i]);
            assert((|c: char| counts_digit(c))(p[i]));
        }
    }
    assert(some_char(p, |c: char| counts_special(c)) == exists|i: int|
        0 <= i < p.len() && !unicode_uppercase(#[trigger] p[i]) && !unicode_lowercase(p[i])
            && !unicode_numeric(p[i]) && special_chars().contains(p[i])) by {
        if exists|i: int|
            0 <= i < p.len() && !unicode_uppercase(#[trigger] p[i]) && !unicode_lowercase(p[i])
                && !unicode_numeric(p[i]) && special_chars().contains(p[i]) {
            let i = choose|i: int|
                0 <= i < p.len() && !unicode_uppercase(#[trigger] p[i]) && !unicode_lowercase(p[i])
                    && !unicode_numeric(p[i]) && special_chars().contains(p[i]);
            assert((|c: char| counts_special(c))(p[i]));
        }
    }
    assert(password_classes(p) == classes_present(p));
}

/// A password of 8 to 128 characters using at least three character
/// classes and not among the common ones.
#[derive(Debug, Clone)]
pub struct ValidatedPassword {
    value: String,
}

impl View for ValidatedPassword {
    type V = Seq<char>;

    closed spec fn view(&self) -> Seq<char> {
        self.value@
    }
}

impl ValidatedPassword {
    pub fn new(password: &str) -> (r: ValidationResult<Self>)
        ensures
            result_view(&r) == password_outcome(password@),
            r is Ok ==> classes_present(password@) >= 3,
    {
        proof {
            lemma_password_strength(password@);
        }
        let p = chars_of(password);
        if p.len() == 0 {
            return Err(ValidationError::Required);
        }
        match validate_length(p.as_slice(), MIN_PASSWORD_LENGTH, MAX_PASSWORD_LENGTH) {
            Err(e) => {
                return Err(e);
            },
            Ok(()) => {},
        }
        let specials: [char; 26] = [
            '!', '@', '#', '$', '%', '^', '&', '*', '(', ')', '_', '+', '-', '=', '[', ']', '{',
            '}', '|', ';', ':', ',', '.', '<', '>', '?',
        ];
        assert(specials@ =~= special_chars());
        let mut has_upper = false;
        let mut has_lower = false;
        let mut has_digit = false;
        let mut has_special = false;
        let mut i: usize = 0;
        while i < p.len()
            invariant
                i <= p@.len(),
                specials@ == special_chars(),
                has_upper == exists|j: int| 0 <= j < i && counts_upper(#[trigger] p@[j]),
                has_lower == exists|j: int| 0 <= j < i && counts_lower(#[trigger] p@[j]),
                has_digit == exists|j: int| 0 <= j < i && counts_digit(#[trigger] p@[j]),
                has_special == exists|j: int| 0 <= j < i && counts_special(#[trigger] p@[j]),
            decreases p@.len() - i,
        {
            let c = p[i];
            if is_uppercase(c) {
                has_upper = true;
            } else if is_lowercase(c) {
                has_lower = true;
            } else if is_numeric(c) {
                has_digit = true;
            } else if contains_char(specials.as_slice(), c) {
                has_special = true;
            }
            assert(p@[i as int] == c);
            i = i + 1;
        }
        let count: usize = (if has_upper { 1usize } else { 0usize }) + (if has_lower {
            1usize
        } else {
            0usize
        }) + (if has_digit { 1usize } else { 0usize }) + (if has_special { 1usize } else { 0usize });
        proof {
            let u = some_char(p@, |c: char| counts_upper(c));
            assert(u == has_upper) by {
                if has_upper {
                    let j = choose|j: int| 0 <= j < p@.len() && counts_upper(#[trigger] p@[j]);
                    assert((|c: char| counts_upper(c))(p@[j]));
                }
            }
            let l = some_char(p@, |c: char| counts_lower(c));
            assert(l == has_lower) by {
                if has_lower {
                    let j = choose|j: int| 0 <= j < p@.len() && counts_lower(#[trigger] p@[j]);
                    assert((|c: char| counts_lower(c))(p@[j]));
                }
            }
            let d = some_char(p@, |c: char| counts_digit(c));
            assert(d == has_digit) by {
                if has_digit {
                    let j = choose|j: int| 0 <= j < p@.len() && counts_digit(#[trigger] p@[j]);
                    assert((|c: char| counts_digit(c))(p@[j]));
                }
            }
            let s = some_char(p@, |c: char| counts_special(c));
            assert(s == has_special) by {
                if has_special {
                    let j = choose|j: int| 0 <= j < p@.len() && counts_special(#[trigger] p@[j]);
                    assert((|c: char| counts_special(c))(p@[j]));
                }
            }
            assert(count == password_classes(p@));
        }
        if count < 3 {
            return Err(
                invalid_format(
                    "Password must contain at least 3 of: uppercase, lowercase, numbers, special characters",
                ),
            );
        }
        let lower = lowercase_chars(p.as_slice());
        let common: [&'static str; 8] = [
            "password",
            "password123",
            "12345678",
            "qwerty123",
            "admin123",
            "letmein",
            "welcome1",
            "password1!",
        ];
        assert(common@ =~= common_passwords());
        if is_one_of(lower.as_slice(), common.as_slice()) {
            return Err(forbidden("This password is too common"));
        }
        Ok(ValidatedPassword { value: crate::text::owned(password) })
    }

    pub fn as_str(&self) -> (r: &str)
        ensures
            r@ == self@,
    {
        self.value.as_str()
    }

    pub fn into_inner(self) -> (r: String)
        ensures
            r@ == self@,
    {
        self.value
    }
}

// ---------------------------------------------------------------------------
// User identifiers
// ---------------------------------------------------------------------------

/// The stored identifier, or the error, for a raw input.
pub open spec fn user_id_outcome(raw: Seq<char>) -> Result<Seq<char>, ValidationErrorView> {
    let id = trimmed(raw);
    if id.len() == 0 {
        Err(ValidationErrorView::Required)
    } else if !uuid_shape(id) {
        Err(ValidationErrorView::InvalidFormat(uuid_message()))
    } else {
        Ok(lowercase(id))
    }
}

/// A user identifier in hyphenated UUID form, lowercased.
#[derive(Debug, Clone)]
pub struct ValidatedUserId {
    value: String,
}

impl View for ValidatedUserId {
    type V = Seq<char>;

    closed spec fn view(&self) -> Seq<char> {
        self.value@
    }
}

impl ValidatedUserId {
    pub fn new(id: &str) -> (r: ValidationResult<Self>)
        ensures
            result_view(&r) == user_id_outcome(id@),
    {
        let raw = chars_of(id);
        let t = trim_chars(raw.as_slice());
        if t.len() == 0 {
            return Err(ValidationError::Required);
        }
        match validate_uuid(t.as_slice()) {
            Err(e) => {
                return Err(e);
            },
            Ok(()) => {},
        }
        let lower = lowercase_chars(t.as_slice());
        Ok(ValidatedUserId { value: string_from_chars(lower.as_slice()) })
    }

    pub fn as_str(&self) -> (r: &str)
        ensures
            r@ == self@,
    {
        self.value.as_str()
    }

    pub fn into_inner(self) -> (r: String)
        ensures
            r@ == self@,
    {
        self.value
    }
}

// ---------------------------------------------------------------------------
// Roles
// ---------------------------------------------------------------------------

/// A role a user may hold.
#[derive(Debug, Clone, Copy, PartialEq, Eq, Structural)]
pub enum UserRoleValue {
    Admin,
    Editor,
    Writer,
    Reader,
}

pub open spec fn role_message() -> Seq<char> {
    "Role must be 'admin', 'editor', 'writer', or 'reader'"@
}

/// The lowercase name of a role.
pub open spec fn role_name(r: UserRoleValue) -> Seq<char> {
    match r {
        UserRoleValue::Admin => "admin"@,
        UserRoleValue::Editor => "editor"@,
        UserRoleValue::Writer => "writer"@,
        UserRoleValue::Reader => "reader"@,
    }
}

/// The role a name denotes, ignoring case, or the error.
pub open spec fn role_outcome(s: Seq<char>) -> Result<UserRoleValue, ValidationErrorView> {
    role_of_lowered(lowercase(s))
}

/// The role a lowered name denotes, or the error.
pub open spec fn role_of_lowered(l: Seq<char>) -> Result<UserRoleValue, ValidationErrorView> {
    if l == "admin"@ {
        Ok(UserRoleValue::Admin)
    } else if l == "editor"@ {
        Ok(UserRoleValue::Editor)
    } else if l == "writer"@ {
        Ok(UserRoleValue::Writer)
    } else if l == "reader"@ {
        Ok(UserRoleValue::Reader)
    } else {
        Err(ValidationErrorView::InvalidFormat(role_message()))
    }
}

impl View for UserRoleValue {
    type V = UserRoleValue;

    open spec fn view(&self) -> UserRoleValue {
        *self
    }
}

impl UserRoleValue {
    pub fn from_str(s: &str) -> (r: ValidationResult<Self>)
        ensures
            result_view(&r) == role_outcome(s@),
            all_ascii(s@) ==> result_view(&r) == role_of_lowered(ascii_lowercase(s@)),
    {
        let raw = chars_of(s);
        let l = lowercase_chars(raw.as_slice());
        if eq_str(l.as_slice(), "admin") {
            Ok(UserRoleValue::Admin)
        } else if eq_str(l.as_slice(), "editor") {
            Ok(UserRoleValue::Editor)
        } else if eq_str(l.as_slice(), "writer") {
            Ok(UserRoleValue::Writer)
        } else if eq_str(l.as_slice(), "reader") {
            Ok(UserRoleValue::Reader)
        } else {
            Err(invalid_format("Role must be 'admin', 'editor', 'writer', or 'reader'"))
        }
    }

    pub fn as_str(&self) -> (r: &'static str)
        ensures
            r@ == role_name(*self),
    {
        match self {
            UserRoleValue::Admin => "admin",
            UserRoleValue::Editor => "editor",
            UserRoleValue::Writer => "writer",
            UserRoleValue::Reader => "reader",
        }
    }
}

/// Each role's name is ASCII and denotes that role again, and no two roles
/// share a name; so `from_str` gives back the role whose `as_str` it reads.
pub proof fn lemma_role_name_round_trip(r: UserRoleValue, q: UserRoleValue)
    ensures
        all_ascii(role_name(r)),
        role_of_lowered(ascii_lowercase(role_name(r))) == Ok::<UserRoleValue, ValidationErrorView>(r),
        role_name(r) == role_name(q) ==> r == q,
{
    reveal_strlit("admin");
    reveal_strlit("editor");
    reveal_strlit("writer");
    reveal_strlit("reader");
    let n = role_name(r);
    assert(ascii_lowercase(n) =~= n);
    assert("admin"@ != "editor"@ && "admin"@ != "writer"@ && "admin"@ != "reader"@) by {
        assert("admin"@.len() != "editor"@.len());
        assert("admin"@.len() != "writer"@.len());
        assert("admin"@.len() != "reader"@.len());
    }
    assert("editor"@ != "writer"@ && "editor"@ != "reader"@ && "writer"@ != "reader"@) by {
        assert("editor"@[0] != "writer"@[0]);
        assert("editor"@[0] != "reader"@[0]);
        assert("writer"@[0] != "reader"@[0]);
    }
}

// ---------------------------------------------------------------------------
// API keys
// ---------------------------------------------------------------------------

pub open spec fn api_key_message() -> Seq<char> {
    "API key contains invalid characters"@
}

pub open spec fn api_key_char(c: char) -> bool {
    ascii_alphanumeric(c) || c == '_' || c == '-'
}

/// The stored key, or the error, for a raw input.
pub open spec fn api_key_outcome(raw: Seq<char>) -> Result<Seq<char>, ValidationErrorView> {
    let k = trimmed(raw);
    if k.len() == 0 {
        Err(ValidationErrorView::Required)
    } else if length_error(k, 20, 100) is Some {
        Err(length_error(k, 20, 100).unwrap())
    } else if !(forall|i: int| 0 <= i < k.len() ==> api_key_char(#[trigger] k[i])) {
        Err(ValidationErrorView::InvalidFormat(api_key_message()))
    } else {
        Ok(k)
    }
}

/// An API key of 20 to 100 ASCII letters, digits, `_` or `-`.
#[derive(Debug, Clone)]
pub struct ValidatedApiKey {
    value: String,
}

impl View for ValidatedApiKey {
    type V = Seq<char>;

    closed spec fn view(&self) -> Seq<char> {
        self.value@
    }
}

impl ValidatedApiKey {
    pub fn new(key: &str) -> (r: ValidationResult<Self>)
        ensures
            result_view(&r) == api_key_outcome(key@),
    {
        let raw = chars_of(key);
        let k = trim_chars(raw.as_slice());
        if k.len() == 0 {
            return Err(ValidationError::Required);
        }
        match validate_length(k.as_slice(), 20, 100) {
            Err(e) => {
                return Err(e);
            },
            Ok(()) => {},
        }
        let mut i: usize = 0;
        while i < k.len()
            invariant
                i <= k@.len(),
                k@ == trimmed(key@),
                k@.len() > 0,
                length_error(k@, 20, 100) is None,
                forall|j: int| 0 <= j < i ==> api_key_char(#[trigger] k@[j]),
            decreases k@.len() - i,
        {
            let c = k[i];
            if !(is_ascii_alphanumeric(c) || c == '_' || c == '-') {
                assert(!api_key_char(k@[i as int]));
                assert(!(forall|j: int| 0 <= j < k@.len() ==> api_key_char(#[trigger] k@[j])));
                return Err(invalid_format("API key contains invalid characters"));
            }
            i = i + 1;
        }
        Ok(ValidatedApiKey { value: string_from_chars(k.as_slice()) })
    }

    pub fn as_str(&self) -> (r: &str)
        ensures
            r@ == self@,
    {
        self.value.as_str()
    }

    pub fn into_inner(self) -> (r: String)
        ensures
            r@ == self@,
    {
        self.value
    }
}

} // verus!
