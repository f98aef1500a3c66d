//! Validation errors and the checks that the typed validators share.

use vstd::prelude::*;
use crate::text::{
    ascii_alphanumeric, ascii_hex_digit, chars_of, contains_char, contains_exec, contains_seq,
    is_ascii_alphanumeric, is_ascii_hex_digit, is_whitespace, lowercase, lowercase_chars, owned,
    slice_range, unicode_whitespace,
};

verus! {

broadcast use vstd::string::group_string_axioms;

/// Why an input was rejected.
#[derive(Debug, Clone)]
pub enum ValidationError {
    Required,
    TooShort { min: usize },
    TooLong { max: usize },
    InvalidFormat { message: String },
    ForbiddenContent { reason: String },
    ContainsControlChars,
}

pub type ValidationResult<T> = Result<T, ValidationError>;

/// A validation result with both sides taken by their views.
pub open spec fn result_view<T: View>(r: &ValidationResult<T>) -> Result<T::V, ValidationErrorView> {
    match r {
        Ok(v) => Ok(v@),
        Err(e) => Err(e@),
    }
}

/// A `ValidationError` with its messages taken as character sequences.
pub enum ValidationErrorView {
    Required,
    TooShort(nat),
    TooLong(nat),
    InvalidFormat(Seq<char>),
    ForbiddenContent(Seq<char>),
    ContainsControlChars,
}

impl View for ValidationError {
    type V = ValidationErrorView;

    open spec fn view(&self) -> ValidationErrorView {
        match self {
            ValidationError::Required => ValidationErrorView::Required,
            ValidationError::TooShort { min } => ValidationErrorView::TooShort(*min as nat),
            ValidationError::TooLong { max } => ValidationErrorView::TooLong(*max as nat),
            ValidationError::InvalidFormat { message } => ValidationErrorView::InvalidFormat(
                message@,
            ),
            ValidationError::ForbiddenContent { reason } => ValidationErrorView::ForbiddenContent(
                reason@,
            ),
            ValidationError::ContainsControlChars => ValidationErrorView::ContainsControlChars,
        }
    }
}

/// An `InvalidFormat` error carrying the given message.
pub fn invalid_format(message: &str) -> (e: ValidationError)
    ensures
        e@ == ValidationErrorView::InvalidFormat(message@),
{
    ValidationError::InvalidFormat { message: owned(message) }
}

/// A `ForbiddenContent` error carrying the given reason.
pub fn forbidden(reason: &str) -> (e: ValidationError)
    ensures
        e@ == ValidationErrorView::ForbiddenContent(reason@),
{
    ValidationError::ForbiddenContent { reason: owned(reason) }
}

// ---------------------------------------------------------------------------
// Length
// ---------------------------------------------------------------------------

/// The error, if any, for a value whose character count must lie in `[min, max]`.
pub open spec fn length_error(s: Seq<char>, min: nat, max: nat) -> Option<ValidationErrorView> {
    if s.len() < min {
        Some(ValidationErrorView::TooShort(min))
    } else if s.len() > max {
        Some(ValidationErrorView::TooLong(max))
    } else {
        None
    }
}

/// Checks that the number of characters lies in `[min, max]`.
pub fn validate_length(s: &[char], min: usize, max: usize) -> (r: ValidationResult<()>)
    ensures
        r is Ok <==> length_error(s@, min as nat, max as nat) is None,
        r matches Err(e) ==> length_error(s@, min as nat, max as nat) == Some(e@),
{
    if s.len() < min {
        Err(ValidationError::TooShort { min })
    } else if s.len() > max {
        Err(ValidationError::TooLong { max })
    } else {
        Ok(())
    }
}

// ---------------------------------------------------------------------------
// Markup and script content
// ---------------------------------------------------------------------------

pub open spec fn html_message() -> Seq<char> {
    "HTML tags are not allowed"@
}

pub open spec fn script_message() -> Seq<char> {
    "Script content is not allowed"@
}

pub open spec fn protocol_message() -> Seq<char> {
    "Script protocols are not allowed"@
}

/// The value contains an angle bracket, so it could carry a markup tag.
pub open spec fn has_markup(s: Seq<char>) -> bool {
    s.contains('<') || s.contains('>')
}

/// Fragments whose presence (case-insensitively) marks embedded script.
pub open spec fn script_fragments() -> Seq<&'static str> {
    seq!["<script", "</script", "onerror=", "onload=", "eval("]
}

/// URL schemes that execute script when followed.
pub open spec fn script_protocols() -> Seq<&'static str> {
    seq!["javascript:", "vbscript:", "data:text/html"]
}

/// Some literal of `options` occurs in `s`.
pub open spec fn contains_any(s: Seq<char>, options: Seq<&'static str>) -> bool {
    exists|i: int| 0 <= i < options.len() && contains_seq(s, options[i]@)
}

/// Whether some literal of `options` occurs in `s`.
pub fn contains_any_exec(s: &[char], options: &[&'static str]) -> (r: bool)
    ensures
        r == contains_any(s@, options@),
{
    let mut i: usize = 0;
    while i < options.len()
        invariant
            i <= options@.len(),
            forall|j: int| 0 <= j < i ==> !contains_seq(s@, options@[j]@),
        decreases options@.len() - i,
    {
        let p = chars_of(options[i]);
        if contains_exec(s, p.as_slice()) {
            return true;
        }
        i = i + 1;
    }
    false
}

/// Rejects values containing markup brackets.
pub fn validate_no_html(s: &[char]) -> (r: ValidationResult<()>)
    ensures
        r is Ok <==> !has_markup(s@),
        r matches Err(e) ==> e@ == ValidationErrorView::ForbiddenContent(html_message()),
{
    if contains_char(s, '<') || contains_char(s, '>') {
        Err(forbidden("HTML tags are not allowed"))
    } else {
        Ok(())
    }
}

/// Rejects values that, ignoring case, contain a script fragment.
pub fn validate_no_scripts(s: &[char]) -> (r: ValidationResult<()>)
    ensures
        r is Ok <==> !contains_any(lowercase(s@), script_fragments()),
        r matches Err(e) ==> e@ == ValidationErrorView::ForbiddenContent(script_message()),
{
    let lower = lowercase_chars(s);
    let fragments: [&'static str; 5] = ["<script", "</script", "onerror=", "onload=", "eval("];
    assert(fragments@ =~= script_fragments());
    if contains_any_exec(lower.as_slice(), fragments.as_slice()) {
        Err(forbidden("Script content is not allowed"))
    } else {
        Ok(())
    }
}

/// Rejects values that, ignoring case, name a script-executing URL scheme.
pub fn validate_no_javascript_protocol(s: &[char]) -> (r: ValidationResult<()>)
    ensures
        r is Ok <==> !contains_any(lowercase(s@), script_protocols()),
        r matches Err(e) ==> e@ == ValidationErrorView::ForbiddenContent(protocol_message()),
{
    let lower = lowercase_chars(s);
    let schemes: [&'static str; 3] = ["javascript:", "vbscript:", "data:text/html"];
    assert(schemes@ =~= script_protocols());
    if contains_any_exec(lower.as_slice(), schemes.as_slice()) {
        Err(forbidden("Script protocols are not allowed"))
    } else {
        Ok(())
    }
}

// ---------------------------------------------------------------------------
// Control and invisible characters
// ---------------------------------------------------------------------------

/// A character of the Unicode general category Cc (control codes).
pub open spec fn is_control(c: char) -> bool {
    c <= '\u{1f}' || ('\u{7f}' <= c && c <= '\u{9f}')
}

/// Whether the value holds a control character.
pub fn contains_control_chars(s: &[char]) -> (r: bool)
    ensures
        r == exists|i: int| 0 <= i < s@.len() && is_control(s@[i]),
{
    let mut i: usize = 0;
    while i < s.len()
        invariant
            i <= s@.len(),
            forall|j: int| 0 <= j < i ==> !is_control(s@[j]),
        decreases s@.len() - i,
    {
        let c = s[i];
        if c <= '\u{1f}' || ('\u{7f}' <= c && c <= '\u{9f}') {
            return true;
        }
        i = i + 1;
    }
    false
}

/// Zero-width characters that render as nothing.
pub open spec fn is_zero_width(c: char) -> bool {
    c == '\u{200b}' || c == '\u{200c}' || c == '\u{200d}' || c == '\u{feff}'
}

/// `s` without its zero-width characters.
pub open spec fn without_zero_width(s: Seq<char>) -> Seq<char>
    decreases s.len(),
{
    if s.len() == 0 {
        s
    } else if is_zero_width(s.last()) {
        without_zero_width(s.drop_last())
    } else {
        without_zero_width(s.drop_last()).push(s.last())
    }
}

/// Removes zero-width characters, which would make visually equal values differ.
pub fn sanitize_string(s: &[char]) -> (r: Vec<char>)
    ensures
        r@ == without_zero_width(s@),
{
    let mut r: Vec<char> = Vec::new();
    let mut i: usize = 0;
    while i < s.len()
        invariant
            i <= s@.len(),
            r@ == without_zero_width(s@.take(i as int)),
        decreases s@.len() - i,
    {
        let c = s[i];
        proof {
            assert(s@.take(i as int + 1).drop_last() =~= s@.take(i as int));
        }
        if !(c == '\u{200b}' || c == '\u{200c}' || c == '\u{200d}' || c == '\u{feff}') {
            r.push(c);
        }
        i = i + 1;
    }
    assert(s@.take(s@.len() as int) =~= s@);
    r
}

// ---------------------------------------------------------------------------
// Whitespace normalisation
// ---------------------------------------------------------------------------

/// Reading `s` left to right: the text kept so far, and whether a whitespace
/// run has been seen since the last kept character.
pub open spec fn normalize_state(s: Seq<char>) -> (Seq<char>, bool)
    decreases s.len(),
{
    if s.len() == 0 {
        (Seq::empty(), false)
    } else {
        let (out, pending) = normalize_state(s.drop_last());
        let c = s.last();
        if unicode_whitespace(c) {
            (out, out.len() > 0)
        } else if pending {
            (out.push(' ').push(c), false)
        } else {
            (out.push(c), false)
        }
    }
}

/// `s` with leading and trailing whitespace dropped and every inner run of
/// whitespace replaced by one space.
pub open spec fn normalized_whitespace(s: Seq<char>) -> Seq<char> {
    normalize_state(s).0
}

/// Collapses whitespace runs to single spaces and trims both ends.
pub fn normalize_whitespace(s: &[char]) -> (r: Vec<char>)
    ensures
        r@ == normalized_whitespace(s@),
{
    let mut r: Vec<char> = Vec::new();
    let mut pending = false;
    let mut i: usize = 0;
    while i < s.len()
        invariant
            i <= s@.len(),
            (r@, pending) == normalize_state(s@.take(i as int)),
        decreases s@.len() - i,
    {
        let c = s[i];
        proof {
            assert(s@.take(i as int + 1).drop_last() =~= s@.take(i as int));
        }
        if is_whitespace(c) {
            pending = r.len() > 0;
        } else {
            if pending {
                r.push(' ');
            }
            r.push(c);
            pending = false;
        }
        i = i + 1;
    }
    assert(s@.take(s@.len() as int) =~= s@);
    r
}

// ---------------------------------------------------------------------------
// Email addresses
// ---------------------------------------------------------------------------

pub open spec fn email_message() -> Seq<char> {
    "Invalid email address"@
}

/// Characters allowed in an email address.
pub open spec fn email_char(c: char) -> bool {
    ascii_alphanumeric(c) || c == '.' || c == '_' || c == '%' || c == '+' || c == '-' || c == '@'
}

/// `e` holds `'@'` at `k` and nowhere else.
pub open spec fn single_at(e: Seq<char>, k: int) -> bool {
    0 <= k < e.len() && e[k] == '@' && forall|j: int| 0 <= j < e.len() && j != k ==> e[j] != '@'
}

/// The shape of an accepted address: at most 254 allowed characters, one
/// `'@'`, a local part of 1 to 64 characters, and a domain that holds a dot
/// but neither starts nor ends with one.
pub open spec fn email_shape_at(e: Seq<char>, k: int) -> bool {
    &&& e.len() <= 254
    &&& forall|j: int| 0 <= j < e.len() ==> email_char(#[trigger] e[j])
    &&& single_at(e, k)
    &&& 1 <= k <= 64
    &&& e.skip(k + 1).len() > 0
    &&& e.skip(k + 1).contains('.')
    &&& e.skip(k + 1)[0] != '.'
    &&& e.skip(k + 1).last() != '.'
}

pub open spec fn email_valid(e: Seq<char>) -> bool {
    exists|k: int| email_shape_at(e, k)
}

/// The part after the `'@'` of an accepted address.
pub open spec fn email_domain(e: Seq<char>) -> Seq<char> {
    e.skip((choose|k: int| email_shape_at(e, k)) + 1)
}

/// Checks the shape of an email address; on success returns the position
/// of its `'@'`.
pub fn validate_email(e: &[char]) -> (r: ValidationResult<usize>)
    ensures
        r is Ok <==> email_valid(e@),
        r matches Ok(k) ==> email_shape_at(e@, k as int),
        r matches Err(err) ==> err@ == ValidationErrorView::InvalidFormat(email_message()),
{
    let n = e.len();
    if n > 254 {
        return Err(invalid_format("Invalid email address"));
    }
    let mut at: Option<usize> = None;
    let mut i: usize = 0;
    while i < n
        invariant
            n == e@.len(),
            i <= n,
            forall|j: int| 0 <= j < i ==> email_char(#[trigger] e@[j]),
            match at {
                Some(k) => k < i && e@[k as int] == '@' && forall|j: int|
                    0 <= j < i && j != k ==> e@[j] != '@',
                None => forall|j: int| 0 <= j < i ==> e@[j] != '@',
            },
        decreases n - i,
    {
        let c = e[i];
        if !(is_ascii_alphanumeric(c) || c == '.' || c == '_' || c == '%' || c == '+' || c == '-'
            || c == '@') {
            assert(!email_char(e@[i as int]));
            return Err(invalid_format("Invalid email address"));
        }
        if c == '@' {
            match at {
                Some(k) => {
                    assert forall|kk: int| !email_shape_at(e@, kk) by {
                        if email_shape_at(e@, kk) {
                            assert(kk == k as int || kk == i as int);
                        }
                    }
                    return Err(invalid_format("Invalid email address"));
                },
                None => {
                    at = Some(i);
                },
            }
        }
        i = i + 1;
    }
    match at {
        None => {
            assert forall|kk: int| !email_shape_at(e@, kk) by {
                if 0 <= kk < e@.len() {
                    assert(e@[kk] != '@');
                }
            }
            Err(invalid_format("Invalid email address"))
        },
        Some(k) => {
            assert forall|kk: int| email_shape_at(e@, kk) implies kk == k as int by {}
            let domain = slice_range(e, k + 1, n);
            assert(domain@ =~= e@.skip(k + 1));
            if k < 1 || k > 64 || domain.len() == 0 || !contains_char(domain.as_slice(), '.')
                || domain[0] == '.' || domain[domain.len() - 1] == '.' {
                assert(!email_shape_at(e@, k as int));
                assert(!email_valid(e@));
                Err(invalid_format("Invalid email address"))
            } else {
                assert(email_shape_at(e@, k as int));
                assert(email_valid(e@));
                Ok(k)
            }
        },
    }
}

// ---------------------------------------------------------------------------
// Identifiers
// ---------------------------------------------------------------------------

pub open spec fn uuid_message() -> Seq<char> {
    "Invalid UUID format"@
}

pub open spec fn is_uuid_dash_position(i: int) -> bool {
    i == 8 || i == 13 || i == 18 || i == 23
}

/// The canonical hyphenated UUID text form: 36 characters, hyphens at
/// positions 8, 13, 18 and 23, hexadecimal digits elsewhere.
pub open spec fn uuid_shape(s: Seq<char>) -> bool {
    s.len() == 36 && forall|i: int|
        0 <= i < 36 ==> if is_uuid_dash_position(i) {
            #[trigger] s[i] == '-'
        } else {
            ascii_hex_digit(s[i])
        }
}

/// Checks that the value is a hyphenated UUID.
pub fn validate_uuid(s: &[char]) -> (r: ValidationResult<()>)
    ensures
        r is Ok <==> uuid_shape(s@),
        r matches Err(e) ==> e@ == ValidationErrorView::InvalidFormat(uuid_message()),
{
    if s.len() != 36 {
        return Err(invalid_format("Invalid UUID format"));
    }
    let mut i: usize = 0;
    while i < 36
        invariant
            s@.len() == 36,
            i <= 36,
            forall|j: int|
                0 <= j < i ==> if is_uuid_dash_position(j) {
                    #[trigger] s@[j] == '-'
                } else {
                    ascii_hex_digit(s@[j])
                },
        decreases 36 - i,
    {
        let c = s[i];
        let ok = if i == 8 || i == 13 || i == 18 || i == 23 {
            c == '-'
        } else {
            is_ascii_hex_digit(c)
        };
        if !ok {
            return Err(invalid_format("Invalid UUID format"));
        }
        i = i + 1;
    }
    Ok(())
}

pub open spec fn identifier_message() -> Seq<char> {
    "Only ASCII letters, digits and underscores are allowed"@
}

/// Every character is an ASCII letter, digit or underscore.
pub open spec fn ascii_identifier(s: Seq<char>) -> bool {
    forall|i: int| 0 <= i < s.len() ==> ascii_alphanumeric(#[trigger] s[i]) || s[i] == '_'
}

/// Checks that the value is made of ASCII letters, digits and underscores.
pub fn validate_ascii_alphanumeric(s: &[char]) -> (r: ValidationResult<()>)
    ensures
        r is Ok <==> ascii_identifier(s@),
        r matches Err(e) ==> e@ == ValidationErrorView::InvalidFormat(identifier_message()),
{
    let mut i: usize = 0;
    while i < s.len()
        invariant
            i <= s@.len(),
            forall|j: int| 0 <= j < i ==> ascii_alphanumeric(#[trigger] s@[j]) || s@[j] == '_',
        decreases s@.len() - i,
    {
        if !(is_ascii_alphanumeric(s[i]) || s[i] == '_') {
            return Err(invalid_format("Only ASCII letters, digits and underscores are allowed"));
        }
        i = i + 1;
    }
    Ok(())
}

} // verus!
