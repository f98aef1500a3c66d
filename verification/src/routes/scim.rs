//! SCIM 2.0 provisioning: resource types, filter parsing and patch logic.

use vstd::prelude::*;
use crate::validation::search::UtcTimestamp;
use crate::text::{
    chars_of, contains_exec, contains_seq, eq_ignore_ascii_case, eq_ignoring_ascii_case, eq_str,
    lowercase, lowercase_chars, owned, push_str, starts_with, string_from_chars,
    strip_char_both, strip_char_both_chars, strip_prefix_chars, trim_chars, trimmed, chars_eq,
    decimal, decimal_text, ascii_lowercase, ascii_to_lower,
};

verus! {

#[derive(Debug, Clone)]
pub struct ScimName {
    pub given_name: Option<String>,
    pub family_name: Option<String>,
}

#[derive(Debug, Clone)]
pub struct ScimEmail {
    pub value: String,
    pub primary: Option<bool>,
}

#[derive(Debug, Clone)]
pub struct ScimPhoneNumber {
    pub value: String,
    pub phone_type: Option<String>,
}

#[derive(Debug, Clone)]
pub struct ScimRole {
    pub value: String,
}

#[derive(Debug, Clone)]
pub struct ScimGroupRef {
    pub value: Option<String>,
    pub ref_url: Option<String>,
    pub display: Option<String>,
}

#[derive(Debug)]
pub struct ScimError {
    pub schemas: Vec<String>,
    pub detail: String,
    pub status: String,
}

#[derive(Debug, Clone)]
pub struct ScimMember {
    pub value: Option<String>,
    pub ref_url: Option<String>,
    pub display: Option<String>,
}

#[derive(Debug)]
pub struct ScimServiceProviderConfig {
    pub schemas: Vec<String>,
    pub patch: ScimPatchSupport,
    pub bulk: ScimBulkSupport,
    pub filter: ScimFilterSupport,
    pub change_password: ScimChangePasswordSupport,
    pub sort: ScimSortSupport,
    pub etag: ScimEtagSupport,
    pub authentication_schemes: Vec<ScimAuthScheme>,
}

#[derive(Debug)]
pub struct ScimPatchSupport {
    pub supported: bool,
}

#[derive(Debug)]
pub struct ScimBulkSupport {
    pub supported: bool,
    pub max_operations: Option<usize>,
    pub max_payload_size: Option<usize>,
}

#[derive(Debug)]
pub struct ScimFilterSupport {
    pub supported: bool,
    pub max_results: Option<usize>,
}

#[derive(Debug)]
pub struct ScimChangePasswordSupport {
    pub supported: bool,
}

#[derive(Debug)]
pub struct ScimSortSupport {
    pub supported: bool,
}

#[derive(Debug)]
pub struct ScimEtagSupport {
    pub supported: bool,
}

#[derive(Debug)]
pub struct ScimAuthScheme {
    pub scheme_type: String,
    pub name: String,
    pub description: Option<String>,
    pub spec_uri: Option<String>,
    pub documentation_uri: Option<String>,
    pub primary: bool,
}

#[derive(Debug)]
pub struct ScimSchema {
    pub schemas: Vec<String>,
    pub id: String,
    pub name: String,
    pub description: String,
    pub attributes: Vec<ScimSchemaAttribute>,
}

#[derive(Debug)]
pub struct ScimSchemaAttribute {
    pub name: String,
    pub attr_type: String,
    pub multi_valued: bool,
    pub description: Option<String>,
    pub required: Option<bool>,
    pub case_exact: Option<bool>,
    pub mutability: Option<String>,
    pub returned: Option<String>,
    pub uniqueness: Option<String>,
}

#[derive(Debug)]
pub struct ScimListParams {
    pub filter: Option<String>,
    pub start_index: Option<usize>,
    pub count: Option<usize>,
}

#[derive(Debug)]
pub struct ScimGroupListParams {
    pub filter: Option<String>,
    pub start_index: Option<usize>,
    pub count: Option<usize>,
}

#[derive(Debug)]
pub struct ScimCreateGroup {
    pub schemas: Vec<String>,
    pub display_name: String,
    pub members: Option<Vec<ScimMember>>,
}


// ---------------------------------------------------------------------------
// Users as provisioning reads and changes them
// ---------------------------------------------------------------------------

/// The role of a user account.
#[derive(Debug, Clone, Copy, PartialEq, Eq, Structural)]
pub enum UserRole {
    Admin,
    Editor,
    Writer,
    Reader,
}

/// The account fields that provisioning reads and changes.
#[derive(Debug, Clone)]
pub struct UserRecord {
    pub username: String,
    pub display_name: String,
    pub email: Option<String>,
    pub is_active: Option<bool>,
    pub role: UserRole,
}

/// A `UserRecord` with its texts taken by their characters.
pub struct UserRecordView {
    pub username: Seq<char>,
    pub display_name: Seq<char>,
    pub email: Option<Seq<char>>,
    pub is_active: Option<bool>,
    pub role: UserRole,
}

pub open spec fn opt_chars(o: Option<String>) -> Option<Seq<char>> {
    match o {
        Some(s) => Some(s@),
        None => None,
    }
}

impl View for UserRecord {
    type V = UserRecordView;

    open spec fn view(&self) -> UserRecordView {
        UserRecordView {
            username: self.username@,
            display_name: self.display_name@,
            email: opt_chars(self.email),
            is_active: self.is_active,
            role: self.role,
        }
    }
}

/// The role a name denotes, ignoring case; unknown names give `Reader`.
pub open spec fn role_named(s: Seq<char>) -> UserRole {
    let l = lowercase(s);
    if l == "admin"@ {
        UserRole::Admin
    } else if l == "editor"@ {
        UserRole::Editor
    } else if l == "writer"@ {
        UserRole::Writer
    } else {
        UserRole::Reader
    }
}

pub fn parse_role(role_str: &str) -> (r: UserRole)
    ensures
        r == role_named(role_str@),
{
    let raw = chars_of(role_str);
    let l = lowercase_chars(raw.as_slice());
    if eq_str(l.as_slice(), "admin") {
        UserRole::Admin
    } else if eq_str(l.as_slice(), "editor") {
        UserRole::Editor
    } else if eq_str(l.as_slice(), "writer") {
        UserRole::Writer
    } else {
        UserRole::Reader
    }
}

// ---------------------------------------------------------------------------
// Filters
// ---------------------------------------------------------------------------

/// The filters provisioning clients may list users by.
#[derive(Debug)]
pub enum ScimFilter {
    UserNameEq(String),
    DisplayNameCo(String),
    ActiveEq(bool),
    EmailEq(String),
}

pub enum ScimFilterView {
    UserNameEq(Seq<char>),
    DisplayNameCo(Seq<char>),
    ActiveEq(bool),
    EmailEq(Seq<char>),
}

impl View for ScimFilter {
    type V = ScimFilterView;

    open spec fn view(&self) -> ScimFilterView {
        match self {
            ScimFilter::UserNameEq(s) => ScimFilterView::UserNameEq(s@),
            ScimFilter::DisplayNameCo(s) => ScimFilterView::DisplayNameCo(s@),
            ScimFilter::ActiveEq(b) => ScimFilterView::ActiveEq(*b),
            ScimFilter::EmailEq(s) => ScimFilterView::EmailEq(s@),
        }
    }
}

/// Whether a user satisfies a filter: user name or email equal ignoring
/// ASCII case, display name containing the text ignoring case, or the
/// active flag (unset counts as active) equal.
pub open spec fn filter_matches(f: ScimFilterView, u: UserRecordView) -> bool {
    match f {
        ScimFilterView::UserNameEq(name) => eq_ignoring_ascii_case(u.username, name),
        ScimFilterView::DisplayNameCo(sub) => contains_seq(lowercase(u.display_name), lowercase(sub)),
        ScimFilterView::ActiveEq(active) => (match u.is_active {
            Some(a) => a,
            None => true,
        }) == active,
        ScimFilterView::EmailEq(email) => match u.email {
            Some(e) => eq_ignoring_ascii_case(e, email),
            None => false,
        },
    }
}

proof fn lemma_ascii_case_equal(a: Seq<char>, b: Seq<char>)
    ensures
        eq_ignoring_ascii_case(a, b) <==> ascii_lowercase(a) == ascii_lowercase(b),
{
    if eq_ignoring_ascii_case(a, b) {
        assert(ascii_lowercase(a) =~= ascii_lowercase(b));
    }
    if ascii_lowercase(a) == ascii_lowercase(b) {
        assert(a.len() == ascii_lowercase(a).len());
        assert forall|i: int| 0 <= i < a.len() implies ascii_to_lower(#[trigger] a[i]) == ascii_to_lower(b[i]) by {
            assert(ascii_lowercase(a)[i] == ascii_lowercase(b)[i]);
        }
    }
}

/// User names and emails are compared ignoring ASCII case: a user matches
/// exactly when its value and the filter's are the same text once `A`..`Z`
/// are lowered to `a`..`z`; a user without an email matches no email
/// filter.
pub proof fn lemma_equality_filters_ignore_ascii_case(v: Seq<char>, u: UserRecordView)
    ensures
        filter_matches(ScimFilterView::EmailEq(v), u) <==> (u.email matches Some(e) && ascii_lowercase(e)
            == ascii_lowercase(v)),
        filter_matches(ScimFilterView::UserNameEq(v), u) <==> ascii_lowercase(u.username)
            == ascii_lowercase(v),
{
    lemma_ascii_case_equal(u.username, v);
    if let Some(e) = u.email {
        lemma_ascii_case_equal(e, v);
    }
}

impl ScimFilter {
    pub fn matches(&self, user: &UserRecord) -> (r: bool)
        ensures
            r == filter_matches(self@, user@),
            self@ matches ScimFilterView::EmailEq(v) ==> (r <==> (user@.email matches Some(e)
                && ascii_lowercase(e) == ascii_lowercase(v))),
    {
        proof {
            if let ScimFilterView::EmailEq(v) = self@ {
                lemma_equality_filters_ignore_ascii_case(v, user@);
            }
        }
        match self {
            ScimFilter::UserNameEq(name) => {
                let u = chars_of(user.username.as_str());
                let n = chars_of(name.as_str());
                eq_ignore_ascii_case(u.as_slice(), n.as_slice())
            },
            ScimFilter::DisplayNameCo(sub) => {
                let d = chars_of(user.display_name.as_str());
                let dl = lowercase_chars(d.as_slice());
                let s = chars_of(sub.as_str());
                let sl = lowercase_chars(s.as_slice());
                contains_exec(dl.as_slice(), sl.as_slice())
            },
            ScimFilter::ActiveEq(active) => {
                let a = match user.is_active {
                    Some(a) => a,
                    None => true,
                };
                a == *active
            },
            ScimFilter::EmailEq(email) => match &user.email {
                Some(e) => {
                    let ev = chars_of(e.as_str());
                    let want = chars_of(email.as_str());
                    eq_ignore_ascii_case(ev.as_slice(), want.as_slice())
                },
                None => false,
            },
        }
    }
}

/// The quoted value after a filter's prefix: trimmed, then stripped of
/// surrounding `"`.
pub open spec fn quoted_value(rest: Seq<char>) -> Seq<char> {
    strip_char_both(trimmed(rest), '"')
}

/// The filter a text denotes, or the error message.
pub open spec fn filter_outcome(raw: Seq<char>) -> Result<ScimFilterView, Seq<char>> {
    let s = trimmed(raw);
    if starts_with(s, "userName eq "@) {
        let v = quoted_value(s.skip("userName eq "@.len() as int));
        if v.len() == 0 {
            Err("userName value cannot be empty"@)
        } else {
            Ok(ScimFilterView::UserNameEq(v))
        }
    } else if starts_with(s, "displayName co "@) {
        let v = quoted_value(s.skip("displayName co "@.len() as int));
        if v.len() == 0 {
            Err("displayName value cannot be empty"@)
        } else {
            Ok(ScimFilterView::DisplayNameCo(v))
        }
    } else if starts_with(s, "active eq "@) {
        let v = trimmed(s.skip("active eq "@.len() as int));
        if v == "true"@ {
            Ok(ScimFilterView::ActiveEq(true))
        } else if v == "false"@ {
            Ok(ScimFilterView::ActiveEq(false))
        } else {
            Err("active must be 'true' or 'false', got: "@ + v)
        }
    } else if starts_with(s, "emails.value eq "@) {
        let v = quoted_value(s.skip("emails.value eq "@.len() as int));
        if v.len() == 0 {
            Err("emails.value cannot be empty"@)
        } else {
            Ok(ScimFilterView::EmailEq(v))
        }
    } else {
        Err("Unsupported SCIM filter: "@ + raw)
    }
}

pub open spec fn filter_result_view(r: &Result<ScimFilter, String>) -> Result<ScimFilterView, Seq<char>> {
    match r {
        Ok(f) => Ok(f@),
        Err(e) => Err(e@),
    }
}

fn quoted_value_exec(rest: &[char]) -> (r: Vec<char>)
    ensures
        r@ == quoted_value(rest@),
{
    let t = trim_chars(rest);
    strip_char_both_chars(t.as_slice(), '"')
}

/// Parses the filter expressions that provisioning supports.
pub fn parse_filter(filter_str: &str) -> (r: Result<ScimFilter, String>)
    ensures
        filter_result_view(&r) == filter_outcome(filter_str@),
{
    let raw = chars_of(filter_str);
    let s = trim_chars(raw.as_slice());
    match strip_prefix_chars(s.as_slice(), "userName eq ") {
        Some(rest) => {
            let v = quoted_value_exec(rest.as_slice());
            if v.len() == 0 {
                return Err(owned("userName value cannot be empty"));
            }
            return Ok(ScimFilter::UserNameEq(string_from_chars(v.as_slice())));
        },
        None => {},
    }
    match strip_prefix_chars(s.as_slice(), "displayName co ") {
        Some(rest) => {
            let v = quoted_value_exec(rest.as_slice());
            if v.len() == 0 {
                return Err(owned("displayName value cannot be empty"));
            }
            return Ok(ScimFilter::DisplayNameCo(string_from_chars(v.as_slice())));
        },
        None => {},
    }
    match strip_prefix_chars(s.as_slice(), "active eq ") {
        Some(rest) => {
            let v = trim_chars(rest.as_slice());
            if eq_str(v.as_slice(), "true") {
                return Ok(ScimFilter::ActiveEq(true));
            } else if eq_str(v.as_slice(), "false") {
                return Ok(ScimFilter::ActiveEq(false));
            } else {
                let mut msg = owned("active must be 'true' or 'false', got: ");
                let vs = string_from_chars(v.as_slice());
                push_str(&mut msg, vs.as_str());
                return Err(msg);
            }
        },
        None => {},
    }
    match strip_prefix_chars(s.as_slice(), "emails.value eq ") {
        Some(rest) => {
            let v = quoted_value_exec(rest.as_slice());
            if v.len() == 0 {
                return Err(owned("emails.value cannot be empty"));
            }
            return Ok(ScimFilter::EmailEq(string_from_chars(v.as_slice())));
        },
        None => {},
    }
    let mut msg = owned("Unsupported SCIM filter: ");
    push_str(&mut msg, filter_str);
    Err(msg)
}

// ---------------------------------------------------------------------------
// Authentication
// ---------------------------------------------------------------------------

/// The outcome of checking the `Authorization` header against the
/// configured token: the header may carry the token after `Bearer `, or
/// bare.
pub open spec fn bearer_outcome(header: Option<Seq<char>>, expected: Seq<char>) -> Result<(), Seq<char>> {
    match header {
        None => Err("Authorization header required"@),
        Some(h) => {
            let token = if starts_with(h, "Bearer "@) {
                h.skip("Bearer "@.len() as int)
            } else {
                h
            };
            if token != expected {
                Err("Invalid bearer token"@)
            } else {
                Ok(())
            }
        },
    }
}

/// Checks the `Authorization` header; the error is the detail of the 401
/// response.
pub fn verify_bearer_token(authorization: Option<&str>, expected_token: &str) -> (r: Result<(), String>)
    ensures
        match r {
            Ok(()) => bearer_outcome(
                match authorization {
                    Some(h) => Some(h@),
                    None => None,
                },
                expected_token@,
            ) == Ok::<(), Seq<char>>(()),
            Err(e) => bearer_outcome(
                match authorization {
                    Some(h) => Some(h@),
                    None => None,
                },
                expected_token@,
            ) == Err::<(), Seq<char>>(e@),
        },
{
    match authorization {
        None => Err(owned("Authorization header required")),
        Some(header) => {
            let h = chars_of(header);
            let token = match strip_prefix_chars(h.as_slice(), "Bearer ") {
                Some(rest) => rest,
                None => h,
            };
            let expected = chars_of(expected_token);
            if !chars_eq(token.as_slice(), expected.as_slice()) {
                Err(owned("Invalid bearer token"))
            } else {
                Ok(())
            }
        },
    }
}

// ---------------------------------------------------------------------------
// Paging
// ---------------------------------------------------------------------------

/// The page size of a listing: the count asked for, 100 when absent, at
/// most 100.
pub open spec fn scim_page_size(count: Option<usize>) -> nat {
    match count {
        Some(c) => if c <= 100 {
            c as nat
        } else {
            100
        },
        None => 100,
    }
}

/// The page holding the 1-based `start_index` (1 when absent or 0).
pub open spec fn scim_page(start_index: Option<usize>, page_size: nat) -> nat {
    let start: nat = match start_index {
        Some(s) => if s >= 1 {
            s as nat
        } else {
            1
        },
        None => 1,
    };
    ((start - 1) / page_size as int + 1) as nat
}

/// The page of a listing holds the requested first user: with pages of
/// `size` users (the count asked for, at most 100, 100 when absent), page
/// `page` covers the 1-based positions `(page - 1) * size + 1 ..= page *
/// size`, and the start (at least 1) lies among them.
pub proof fn lemma_scim_page_holds_start(start_index: Option<usize>, count: Option<usize>)
    requires
        count != Some(0usize),
    ensures
        ({
            let size = scim_page_size(count);
            let start: int = match start_index {
                Some(s) => if s >= 1 { s as int } else { 1 },
                None => 1,
            };
            let page = scim_page(start_index, size);
            &&& 1 <= size <= 100
            &&& (count matches Some(c) ==> (c <= 100 ==> size == c))
            &&& (count matches Some(c) ==> (c > 100 ==> size == 100))
            &&& (count is None ==> size == 100)
            &&& page >= 1
            &&& (page - 1) * size < start <= page * size
        }),
{
    let size = scim_page_size(count);
    let start: int = match start_index {
        Some(s) => if s >= 1 { s as int } else { 1 },
        None => 1,
    };
    let q = (start - 1) / (size as int);
    let rem = (start - 1) % (size as int);
    assert(start - 1 == q * size + rem && 0 <= rem < size) by {
        vstd::arithmetic::div_mod::lemma_fundamental_div_mod(start - 1, size as int);
    }
    assert(q >= 0) by {
        vstd::arithmetic::div_mod::lemma_div_pos_is_pos(start - 1, size as int);
    }
    assert(scim_page(start_index, size) == q + 1);
    assert((q + 1) * size == q * size + size) by (nonlinear_arith);
}

/// The page number and page size of a listing request.
pub fn scim_paging(start_index: Option<usize>, count: Option<usize>) -> (r: (usize, usize))
    requires
        count != Some(0usize),
    ensures
        r.1 == scim_page_size(count),
        r.0 == scim_page(start_index, r.1 as nat),
        ({
            let start: int = match start_index {
                Some(s) => if s >= 1 { s as int } else { 1 },
                None => 1,
            };
            (r.0 - 1) * r.1 < start <= r.0 * r.1
        }),
{
    proof {
        lemma_scim_page_holds_start(start_index, count);
    }
    let page_size = match count {
        Some(c) => if c <= 100 {
            c
        } else {
            100
        },
        None => 100,
    };
    let start = match start_index {
        Some(s) => if s >= 1 {
            s
        } else {
            1
        },
        None => 1,
    };
    let page = (start - 1) / page_size + 1;
    (page, page_size)
}

// ---------------------------------------------------------------------------
// Patch operations
// ---------------------------------------------------------------------------

/// A JSON value; a number is kept as its decimal text.
#[derive(Debug)]
pub enum JsonValue {
    Null,
    Bool(bool),
    Number(String),
    String(String),
    Array(Vec<JsonValue>),
    Object(Vec<(String, JsonValue)>),
}

/// The text of a JSON string.
pub open spec fn json_str(v: JsonValue) -> Option<Seq<char>> {
    match v {
        JsonValue::String(s) => Some(s@),
        _ => None,
    }
}

/// The first entry of an object's fields under `key`.
pub open spec fn field_of(fields: Seq<(String, JsonValue)>, key: Seq<char>) -> Option<JsonValue>
    decreases fields.len(),
{
    if fields.len() == 0 {
        None
    } else if fields[0].0@ == key {
        Some(fields[0].1)
    } else {
        field_of(fields.drop_first(), key)
    }
}

/// The member `key` of a JSON object.
pub open spec fn json_get(v: JsonValue, key: Seq<char>) -> Option<JsonValue> {
    match v {
        JsonValue::Object(fields) => field_of(fields@, key),
        _ => None,
    }
}

/// The first element of a JSON array.
pub open spec fn json_first(v: JsonValue) -> Option<JsonValue> {
    match v {
        JsonValue::Array(items) => if items@.len() > 0 {
            Some(items@[0])
        } else {
            None
        },
        _ => None,
    }
}

fn json_first_exec(v: &JsonValue) -> (r: Option<&JsonValue>)
    ensures
        match r {
            Some(x) => json_first(*v) == Some(*x),
            None => json_first(*v) is None,
        },
{
    match v {
        JsonValue::Array(items) => if items.len() > 0 {
            Some(&items[0])
        } else {
            None
        },
        _ => None,
    }
}

fn json_get_exec<'a>(v: &'a JsonValue, key: &str) -> (r: Option<&'a JsonValue>)
    ensures
        match r {
            Some(x) => json_get(*v, key@) == Some(*x),
            None => json_get(*v, key@) is None,
        },
{
    match v {
        JsonValue::Object(fields) => {
            let k = chars_of(key);
            let mut i: usize = 0;
            assert(fields@.skip(0) =~= fields@);
            while i < fields.len()
                invariant
                    i <= fields@.len(),
                    k@ == key@,
                    json_get(*v, key@) == field_of(fields@, key@),
                    field_of(fields@, key@) == field_of(fields@.skip(i as int), key@),
                decreases fields@.len() - i,
            {
                assert(fields@.skip(i as int).drop_first() =~= fields@.skip(i as int + 1));
                let name = chars_of(fields[i].0.as_str());
                assert(fields@.skip(i as int)[0] == fields@[i as int]);
                if chars_eq(name.as_slice(), k.as_slice()) {
                    return Some(&fields[i].1);
                }
                i = i + 1;
            }
            None
        },
        _ => None,
    }
}

impl JsonValue {
    /// The member `key` of an object; `None` for a missing key or a value
    /// that is not an object.
    pub fn get(&self, key: &str) -> (r: Option<&JsonValue>)
        ensures
            match r {
                Some(x) => json_get(*self, key@) == Some(*x),
                None => json_get(*self, key@) is None,
            },
    {
        json_get_exec(self, key)
    }

    /// The text of a string value.
    pub fn as_str(&self) -> (r: Option<&str>)
        ensures
            match r {
                Some(s) => json_str(*self) == Some(s@),
                None => json_str(*self) is None,
            },
    {
        match self {
            JsonValue::String(s) => Some(s.as_str()),
            _ => None,
        }
    }
}

fn json_str_exec(v: &JsonValue) -> (r: Option<&String>)
    ensures
        match r {
            Some(s) => json_str(*v) == Some(s@),
            None => json_str(*v) is None,
        },
{
    match v {
        JsonValue::String(s) => Some(s),
        _ => None,
    }
}

/// The position of the first space of a text.
pub open spec fn first_space(s: Seq<char>) -> Option<int> {
    if s.contains(' ') {
        Some(choose|i: int| 0 <= i < s.len() && s[i] == ' ' && forall|j: int| 0 <= j < i ==> s[j] != ' ')
    } else {
        None
    }
}

/// What follows the first space (empty when there is none).
pub open spec fn family_part(s: Seq<char>) -> Seq<char> {
    match first_space(s) {
        Some(i) => s.skip(i + 1),
        None => Seq::empty(),
    }
}

/// What precedes the first space (empty when there is none).
pub open spec fn given_part(s: Seq<char>) -> Seq<char> {
    match first_space(s) {
        Some(i) => s.take(i),
        None => Seq::empty(),
    }
}

/// Joins two name parts with a space, or gives the first alone when the
/// second is empty.
pub open spec fn join_name(a: Seq<char>, b: Seq<char>) -> Seq<char> {
    if b.len() == 0 {
        a
    } else {
        a + " "@ + b
    }
}

/// The role named in the first entry of a roles array: its `value` member
/// when that is a string, else the entry itself when it is a string, else
/// `reader`.
pub open spec fn patched_role_name(first: JsonValue) -> Seq<char> {
    match json_get(first, "value"@) {
        Some(v) if json_str(v) is Some => json_str(v).unwrap(),
        _ => match json_str(first) {
            Some(s) => s,
            None => "reader"@,
        },
    }
}

/// The user after a `replace` or `add` operation on `path` with `value`.
/// Unknown paths and values of the wrong kind change nothing.
pub open spec fn patched(u: UserRecordView, path: Seq<char>, value: Option<JsonValue>) -> UserRecordView {
    match value {
        None => u,
        Some(v) => if path == "active"@ {
            match v {
                JsonValue::Bool(b) => UserRecordView { is_active: Some(b), ..u },
                _ => u,
            }
        } else if path == "name.givenName"@ || path == "name.given"@ {
            match json_str(v) {
                Some(s) => UserRecordView { display_name: join_name(s, family_part(u.display_name)), ..u },
                None => u,
            }
        } else if path == "name.familyName"@ || path == "name.family"@ {
            match json_str(v) {
                Some(s) => UserRecordView {
                    display_name: if given_part(u.display_name).len() == 0 {
                        s
                    } else {
                        given_part(u.display_name) + " "@ + s
                    },
                    ..u
                },
                None => u,
            }
        } else if path == "displayName"@ {
            match json_str(v) {
                Some(s) => UserRecordView { display_name: s, ..u },
                None => u,
            }
        } else if path == "emails[value]"@ || path == "emails"@ {
            match v {
                JsonValue::Array(_) => match json_first(v) {
                    Some(first) => match json_get(first, "value"@) {
                        Some(ev) if json_str(ev) is Some => UserRecordView { email: json_str(ev), ..u },
                        _ => match json_str(first) {
                            Some(s) => UserRecordView { email: Some(s), ..u },
                            None => u,
                        },
                    },
                    None => u,
                },
                _ => u,
            }
        } else if path == "emails.value"@ {
            match json_str(v) {
                Some(s) => UserRecordView { email: Some(s), ..u },
                None => u,
            }
        } else if path == "userName"@ {
            match json_str(v) {
                Some(s) => UserRecordView { username: s, ..u },
                None => u,
            }
        } else if path == "roles"@ {
            match json_first(v) {
                Some(first) => UserRecordView { role: role_named(patched_role_name(first)), ..u },
                None => u,
            }
        } else {
            u
        },
    }
}

fn first_space_exec(s: &[char]) -> (r: Option<usize>)
    ensures
        match r {
            Some(i) => first_space(s@) == Some(i as int) && i < s@.len(),
            None => first_space(s@) is None,
        },
{
    let mut i: usize = 0;
    while i < s.len()
        invariant
            i <= s@.len(),
            forall|j: int| 0 <= j < i ==> s@[j] != ' ',
        decreases s@.len() - i,
    {
        if s[i] == ' ' {
            proof {
                let c = choose|c: int| 0 <= c < s@.len() && s@[c] == ' ' && forall|j: int| 0 <= j < c ==> s@[j] != ' ';
                assert(s@[i as int] == ' ');
                if c < i {
                } else if c > i {
                    assert(s@[i as int] != ' ');
                }
            }
            return Some(i);
        }
        i = i + 1;
    }
    None
}

/// Applies a `replace` or `add` operation.
pub fn apply_patch_op(user: &mut UserRecord, path: &str, value: &Option<JsonValue>)
    ensures
        final(user)@ == patched(old(user)@, path@, *value),
{
    let v = match value {
        Some(v) => v,
        None => {
            return;
        },
    };
    let p = chars_of(path);
    if eq_str(p.as_slice(), "active") {
        match v {
            JsonValue::Bool(b) => {
                user.is_active = Some(*b);
            },
            _ => {},
        }
    } else if eq_str(p.as_slice(), "name.givenName") || eq_str(p.as_slice(), "name.given") {
        match json_str_exec(v) {
            Some(s) => {
                let d = chars_of(user.display_name.as_str());
                let family: Vec<char> = match first_space_exec(d.as_slice()) {
                    Some(i) => crate::text::slice_range(d.as_slice(), i + 1, d.len()),
                    None => Vec::new(),
                };
                assert(family@ =~= family_part(d@));
                let mut name = s.clone();
                if family.len() > 0 {
                    push_str(&mut name, " ");
                    let f = string_from_chars(family.as_slice());
                    push_str(&mut name, f.as_str());
                }
                user.display_name = name;
            },
            None => {},
        }
    } else if eq_str(p.as_slice(), "name.familyName") || eq_str(p.as_slice(), "name.family") {
        match json_str_exec(v) {
            Some(s) => {
                let d = chars_of(user.display_name.as_str());
                let given: Vec<char> = match first_space_exec(d.as_slice()) {
                    Some(i) => crate::text::slice_range(d.as_slice(), 0, i),
                    None => Vec::new(),
                };
                assert(given@ =~= given_part(d@));
                if given.len() == 0 {
                    user.display_name = s.clone();
                } else {
                    let mut name = string_from_chars(given.as_slice());
                    push_str(&mut name, " ");
                    push_str(&mut name, s.as_str());
                    user.display_name = name;
                }
            },
            None => {},
        }
    } else if eq_str(p.as_slice(), "displayName") {
        match json_str_exec(v) {
            Some(s) => {
                user.display_name = s.clone();
            },
            None => {},
        }
    } else if eq_str(p.as_slice(), "emails[value]") || eq_str(p.as_slice(), "emails") {
        match v {
            JsonValue::Array(_) => match json_first_exec(v) {
                Some(first) => {
                    let from_field: Option<&String> = match json_get_exec(first, "value") {
                        Some(ev) => json_str_exec(ev),
                        None => None,
                    };
                    match from_field {
                        Some(e) => {
                            user.email = Some(e.clone());
                        },
                        None => match json_str_exec(first) {
                            Some(e) => {
                                user.email = Some(e.clone());
                            },
                            None => {},
                        },
                    }
                },
                None => {},
            },
            _ => {},
        }
    } else if eq_str(p.as_slice(), "emails.value") {
        match json_str_exec(v) {
            Some(s) => {
                user.email = Some(s.clone());
            },
            None => {},
        }
    } else if eq_str(p.as_slice(), "userName") {
        match json_str_exec(v) {
            Some(s) => {
                user.username = s.clone();
            },
            None => {},
        }
    } else if eq_str(p.as_slice(), "roles") {
        match json_first_exec(v) {
            Some(first) => {
                let from_field: Option<&String> = match json_get_exec(first, "value") {
                    Some(rv) => json_str_exec(rv),
                    None => None,
                };
                let role = match from_field {
                    Some(r) => parse_role(r.as_str()),
                    None => match json_str_exec(first) {
                        Some(r) => parse_role(r.as_str()),
                        None => parse_role("reader"),
                    },
                };
                user.role = role;
            },
            None => {},
        }
    }
}

/// The user after a `remove` operation on `path`.
pub open spec fn removed(u: UserRecordView, path: Seq<char>) -> UserRecordView {
    if path == "emails"@ {
        UserRecordView { email: None, ..u }
    } else if path == "active"@ {
        UserRecordView { is_active: Some(false), ..u }
    } else if path == "roles"@ {
        UserRecordView { role: UserRole::Reader, ..u }
    } else {
        u
    }
}

/// Applies a `remove` operation.
pub fn apply_remove_op(user: &mut UserRecord, path: &str)
    ensures
        final(user)@ == removed(old(user)@, path@),
{
    let p = chars_of(path);
    if eq_str(p.as_slice(), "emails") {
        user.email = None;
    } else if eq_str(p.as_slice(), "active") {
        user.is_active = Some(false);
    } else if eq_str(p.as_slice(), "roles") {
        user.role = UserRole::Reader;
    }
}

/// One operation of a patch request.
#[derive(Debug)]
pub struct ScimPatchOperation {
    pub op: String,
    pub path: String,
    pub value: Option<JsonValue>,
}

/// The user after the operations, applied in order, or the message for the
/// first operation that is not `replace`, `add` or `remove`.
pub open spec fn patch_outcome(u: UserRecordView, ops: Seq<ScimPatchOperation>) -> Result<UserRecordView, Seq<char>>
    decreases ops.len(),
{
    if ops.len() == 0 {
        Ok(u)
    } else {
        let o = ops[0];
        if o.op@ == "replace"@ || o.op@ == "add"@ {
            patch_outcome(patched(u, o.path@, o.value), ops.drop_first())
        } else if o.op@ == "remove"@ {
            patch_outcome(removed(u, o.path@), ops.drop_first())
        } else {
            Err("Unsupported patch operation: "@ + o.op@)
        }
    }
}

/// Applies the operations of a patch request in order; on an unsupported
/// operation the message is returned (the caller discards the user).
pub fn apply_patch_operations(user: &mut UserRecord, ops: &[ScimPatchOperation]) -> (r: Result<(), String>)
    ensures
        match patch_outcome(old(user)@, ops@) {
            Ok(u) => r is Ok && final(user)@ == u,
            Err(m) => r matches Err(e) && e@ == m,
        },
{
    let mut i: usize = 0;
    assert(ops@.skip(0) =~= ops@);
    while i < ops.len()
        invariant
            i <= ops@.len(),
            patch_outcome(old(user)@, ops@) == patch_outcome(user@, ops@.skip(i as int)),
        decreases ops@.len() - i,
    {
        assert(ops@.skip(i as int).drop_first() =~= ops@.skip(i as int + 1));
        let op = &ops[i];
        let name = chars_of(op.op.as_str());
        if eq_str(name.as_slice(), "replace") || eq_str(name.as_slice(), "add") {
            apply_patch_op(user, op.path.as_str(), &op.value);
        } else if eq_str(name.as_slice(), "remove") {
            apply_remove_op(user, op.path.as_str());
        } else {
            let mut msg = owned("Unsupported patch operation: ");
            push_str(&mut msg, op.op.as_str());
            return Err(msg);
        }
        i = i + 1;
    }
    assert(ops@.skip(ops@.len() as int) =~= Seq::<ScimPatchOperation>::empty());
    Ok(())
}

// ---------------------------------------------------------------------------
// Initial passwords
// ---------------------------------------------------------------------------

/// Draws a number in `[0, bound)` with `rand::Rng::gen_range` on the
/// thread-local generator.
#[verifier::external_body]
fn random_below(bound: usize) -> (r: usize)
    requires
        bound > 0,
    ensures
        r < bound,
{
    rand::Rng::gen_range(&mut rand::thread_rng(), 0..bound)
}

/// The alphabet of generated passwords: lowercase, uppercase, digits.
pub open spec fn password_alphabet() -> Seq<char> {
    seq![
        'a', 'b', 'c', 'd', 'e', 'f', 'g', 'h', 'i', 'j', 'k', 'l', 'm', 'n', 'o', 'p', 'q', 'r',
        's', 't', 'u', 'v', 'w', 'x', 'y', 'z', 'A', 'B', 'C', 'D', 'E', 'F', 'G', 'H', 'I', 'J',
        'K', 'L', 'M', 'N', 'O', 'P', 'Q', 'R', 'S', 'T', 'U', 'V', 'W', 'X', 'Y', 'Z', '0', '1',
        '2', '3', '4', '5', '6', '7', '8', '9',
    ]
}

/// A random 32-character password of ASCII letters and digits, set on
/// provisioned accounts that sign in through the identity provider.
pub fn generate_random_password() -> (r: String)
    ensures
        r@.len() == 32,
        forall|i: int| 0 <= i < 32 ==> password_alphabet().contains(#[trigger] r@[i]),
{
    let alphabet: [char; 62] = [
        'a', 'b', 'c', 'd', 'e', 'f', 'g', 'h', 'i', 'j', 'k', 'l', 'm', 'n', 'o', 'p', 'q', 'r',
        's', 't', 'u', 'v', 'w', 'x', 'y', 'z', 'A', 'B', 'C', 'D', 'E', 'F', 'G', 'H', 'I', 'J',
        'K', 'L', 'M', 'N', 'O', 'P', 'Q', 'R', 'S', 'T', 'U', 'V', 'W', 'X', 'Y', 'Z', '0', '1',
        '2', '3', '4', '5', '6', '7', '8', '9',
    ];
    assert(alphabet@ =~= password_alphabet());
    let mut out: Vec<char> = Vec::new();
    while out.len() < 32
        invariant
            out@.len() <= 32,
            alphabet@ == password_alphabet(),
            forall|i: int| 0 <= i < out@.len() ==> password_alphabet().contains(#[trigger] out@[i]),
        decreases 32 - out@.len(),
    {
        let idx = random_below(62);
        let c = alphabet[idx];
        assert(password_alphabet()[idx as int] == c);
        out.push(c);
    }
    string_from_chars(out.as_slice())
}

// ---------------------------------------------------------------------------
// Users to and from their provisioning form
// ---------------------------------------------------------------------------

/// The structured name of a display name: the text before the first space
/// and the rest; a name without a space is all given name; none when empty.
pub open spec fn name_of_display(d: Seq<char>) -> Option<(Seq<char>, Option<Seq<char>>)> {
    match first_space(d) {
        Some(i) => Some((d.take(i), Some(d.skip(i + 1)))),
        None => if d.len() > 0 {
            Some((d, None))
        } else {
            None
        },
    }
}

pub open spec fn scim_name_view(n: ScimName) -> (Option<Seq<char>>, Option<Seq<char>>) {
    (opt_chars(n.given_name), opt_chars(n.family_name))
}

pub fn scim_name_of(display_name: &str) -> (r: Option<ScimName>)
    ensures
        match name_of_display(display_name@) {
            Some((g, f)) => r matches Some(n) && scim_name_view(n) == (Some(g), f),
            None => r is None,
        },
{
    let d = chars_of(display_name);
    match first_space_exec(d.as_slice()) {
        Some(i) => {
            assert(i < d@.len());
            assert(d@.len() == d.len());
            assert(i + 1 <= d.len());
            let g = crate::text::slice_range(d.as_slice(), 0, i);
            let f = crate::text::slice_range(d.as_slice(), i + 1, d.len());
            assert(g@ =~= d@.take(i as int));
            assert(f@ =~= d@.skip(i as int + 1));
            Some(ScimName { given_name: Some(string_from_chars(g.as_slice())), family_name: Some(string_from_chars(f.as_slice())) })
        },
        None => if d.len() > 0 {
            Some(ScimName { given_name: Some(owned(display_name)), family_name: None })
        } else {
            None
        },
    }
}

/// The provisioning display name: none when empty.
pub fn scim_display_name(display_name: &str) -> (r: Option<String>)
    ensures
        display_name@.len() == 0 ==> r is None,
        display_name@.len() > 0 ==> (r matches Some(s) && s@ == display_name@),
{
    if chars_of(display_name).len() == 0 {
        None
    } else {
        Some(owned(display_name))
    }
}

/// The provisioning emails of an account: its address as the primary one.
pub fn scim_emails(email: Option<&str>) -> (r: Vec<ScimEmail>)
    ensures
        email is None ==> r@.len() == 0,
        email matches Some(e) ==> r@.len() == 1 && r@[0].value@ == e@ && r@[0].primary == Some(true),
{
    let mut v: Vec<ScimEmail> = Vec::new();
    match email {
        Some(e) => v.push(ScimEmail { value: owned(e), primary: Some(true) }),
        None => {},
    }
    v
}

/// Where a provisioned user can be read back, when the base URL is known.
pub fn scim_user_location(base_url: Option<&str>, user_id: &str) -> (r: Option<String>)
    ensures
        base_url is None ==> r is None,
        base_url matches Some(b) ==> (r matches Some(l) && l@ == b@ + "/api/v1/scim/v2/Users/"@ + user_id@),
{
    match base_url {
        Some(b) => {
            let mut l = owned(b);
            push_str(&mut l, "/api/v1/scim/v2/Users/");
            push_str(&mut l, user_id);
            Some(l)
        },
        None => None,
    }
}

/// The address of the first email marked primary.
pub open spec fn first_primary_email(e: Seq<ScimEmail>) -> Option<Seq<char>>
    decreases e.len(),
{
    if e.len() == 0 {
        None
    } else if e[0].primary == Some(true) {
        Some(e[0].value@)
    } else {
        first_primary_email(e.drop_first())
    }
}

/// The address a provisioned account gets: the first primary one, else
/// the first, else none.
pub open spec fn chosen_email(e: Seq<ScimEmail>) -> Option<Seq<char>> {
    match first_primary_email(e) {
        Some(v) => Some(v),
        None => if e.len() > 0 {
            Some(e[0].value@)
        } else {
            None
        },
    }
}

pub fn primary_email(emails: &[ScimEmail]) -> (r: Option<String>)
    ensures
        opt_chars(r) == chosen_email(emails@),
{
    let mut i: usize = 0;
    assert(emails@.skip(0) =~= emails@);
    while i < emails.len()
        invariant
            i <= emails@.len(),
            first_primary_email(emails@) == first_primary_email(emails@.skip(i as int)),
        decreases emails@.len() - i,
    {
        assert(emails@.skip(i as int).drop_first() =~= emails@.skip(i as int + 1));
        assert(emails@.skip(i as int)[0] == emails@[i as int]);
        if emails[i].primary == Some(true) {
            return Some(emails[i].value.clone());
        }
        i = i + 1;
    }
    assert(emails@.skip(i as int) =~= Seq::<ScimEmail>::empty());
    if emails.len() > 0 {
        Some(emails[0].value.clone())
    } else {
        None
    }
}

/// The parts of a structured name that are present, given name first.
pub open spec fn name_parts(n: ScimName) -> Seq<Seq<char>> {
    let g: Seq<Seq<char>> = match n.given_name {
        Some(x) => seq![x@],
        None => Seq::empty(),
    };
    let f: Seq<Seq<char>> = match n.family_name {
        Some(x) => seq![x@],
        None => Seq::empty(),
    };
    g + f
}

/// The present parts joined by a space.
pub open spec fn joined_parts(n: ScimName) -> Seq<char> {
    let p = name_parts(n);
    if p.len() == 0 {
        Seq::empty()
    } else if p.len() == 1 {
        p[0]
    } else {
        p[0] + " "@ + p[1]
    }
}

fn join_parts(n: &ScimName) -> (r: String)
    ensures
        r@ == joined_parts(*n),
{
    match (&n.given_name, &n.family_name) {
        (Some(g), Some(f)) => {
            let mut s = g.clone();
            push_str(&mut s, " ");
            push_str(&mut s, f.as_str());
            s
        },
        (Some(g), None) => g.clone(),
        (None, Some(f)) => f.clone(),
        (None, None) => String::new(),
    }
}

/// The role of the first listed role, if any.
pub open spec fn first_role(roles: Option<Seq<ScimRole>>) -> Option<UserRole> {
    match roles {
        Some(rs) => if rs.len() > 0 {
            Some(role_named(rs[0].value@))
        } else {
            None
        },
        None => None,
    }
}

fn first_role_exec(roles: Option<&Vec<ScimRole>>) -> (r: Option<UserRole>)
    ensures
        r == first_role(
            match roles {
                Some(v) => Some(v@),
                None => None,
            },
        ),
{
    match roles {
        Some(rs) => if rs.len() > 0 {
            Some(parse_role(rs[0].value.as_str()))
        } else {
            None
        },
        None => None,
    }
}

/// The account a provisioning request creates: its user name; the display
/// name given, else the joined name parts, else the user name; the chosen
/// email; active unless said otherwise; the first role, else `Reader`.
/// Refused without a user name.
pub fn scim_new_user(
    user_name: &str,
    display_name: Option<&str>,
    name: Option<&ScimName>,
    emails: &[ScimEmail],
    roles: Option<&Vec<ScimRole>>,
    active: Option<bool>,
) -> (r: Result<UserRecord, String>)
    ensures
        user_name@.len() == 0 ==> (r matches Err(m) && m@ == "userName is required"@),
        user_name@.len() > 0 ==> (r matches Ok(u) && u@ == (UserRecordView {
            username: user_name@,
            display_name: match display_name {
                Some(d) => d@,
                None => match name {
                    Some(n) => joined_parts(*n),
                    None => user_name@,
                },
            },
            email: chosen_email(emails@),
            is_active: Some(
                match active {
                    Some(a) => a,
                    None => true,
                },
            ),
            role: match first_role(
                match roles {
                    Some(v) => Some(v@),
                    None => None,
                },
            ) {
                Some(x) => x,
                None => UserRole::Reader,
            },
        })),
{
    if chars_of(user_name).len() == 0 {
        return Err(owned("userName is required"));
    }
    let display = match display_name {
        Some(d) => owned(d),
        None => match name {
            Some(n) => join_parts(n),
            None => owned(user_name),
        },
    };
    let role = match first_role_exec(roles) {
        Some(x) => x,
        None => UserRole::Reader,
    };
    let is_active = match active {
        Some(a) => a,
        None => true,
    };
    Ok(UserRecord {
        username: owned(user_name),
        display_name: display,
        email: primary_email(emails),
        is_active: Some(is_active),
        role,
    })
}

/// The account after a provisioning update: a name with parts sets the
/// display name to them, a display name overrides that, a non-empty email
/// list sets the chosen email, `active` and the first role are taken when
/// given; everything else stays.
pub open spec fn scim_updated(
    u: UserRecordView,
    name: Option<ScimName>,
    display_name: Option<Seq<char>>,
    emails: Seq<ScimEmail>,
    active: Option<bool>,
    roles: Option<Seq<ScimRole>>,
) -> UserRecordView {
    let d1 = match name {
        Some(n) => if name_parts(n).len() > 0 {
            joined_parts(n)
        } else {
            u.display_name
        },
        None => u.display_name,
    };
    UserRecordView {
        display_name: match display_name {
            Some(d) => d,
            None => d1,
        },
        email: if emails.len() > 0 {
            chosen_email(emails)
        } else {
            u.email
        },
        is_active: match active {
            Some(a) => Some(a),
            None => u.is_active,
        },
        role: match first_role(roles) {
            Some(x) => x,
            None => u.role,
        },
        ..u
    }
}

pub fn scim_update_user(
    user: &mut UserRecord,
    name: Option<&ScimName>,
    display_name: Option<&str>,
    emails: &[ScimEmail],
    active: Option<bool>,
    roles: Option<&Vec<ScimRole>>,
)
    ensures
        final(user)@ == scim_updated(
            old(user)@,
            match name {
                Some(n) => Some(*n),
                None => None,
            },
            match display_name {
                Some(d) => Some(d@),
                None => None,
            },
            emails@,
            active,
            match roles {
                Some(v) => Some(v@),
                None => None,
            },
        ),
{
    match name {
        Some(n) => {
            if n.given_name.is_some() || n.family_name.is_some() {
                user.display_name = join_parts(n);
            }
        },
        None => {},
    }
    match display_name {
        Some(d) => {
            user.display_name = owned(d);
        },
        None => {},
    }
    if emails.len() > 0 {
        user.email = primary_email(emails);
    }
    match active {
        Some(a) => {
            user.is_active = Some(a);
        },
        None => {},
    }
    match first_role_exec(roles) {
        Some(x) => {
            user.role = x;
        },
        None => {},
    }
}

// ---------------------------------------------------------------------------
// Provisioning resources
// ---------------------------------------------------------------------------

/// The schema of a provisioned user.
pub open spec fn user_schema() -> Seq<char> {
    "urn:ietf:params:scim:schemas:core:2.0:User"@
}

/// The schema of a provisioned group.
pub open spec fn group_schema() -> Seq<char> {
    "urn:ietf:params:scim:schemas:core:2.0:Group"@
}

/// Resource metadata.
#[derive(Debug, Clone)]
pub struct ScimMeta {
    pub resource_type: String,
    pub created: UtcTimestamp,
    pub last_modified: Option<UtcTimestamp>,
    pub version: Option<String>,
    pub location: Option<String>,
}

/// A user as provisioning clients see it.
#[derive(Debug)]
pub struct ScimUser {
    pub schemas: Vec<String>,
    pub id: String,
    pub external_id: Option<String>,
    pub user_name: String,
    pub name: Option<ScimName>,
    pub display_name: Option<String>,
    pub emails: Vec<ScimEmail>,
    pub phone_numbers: Option<Vec<ScimPhoneNumber>>,
    pub roles: Option<Vec<ScimRole>>,
    pub active: Option<bool>,
    pub groups: Vec<ScimGroupRef>,
    pub meta: Option<ScimMeta>,
}

/// A group as provisioning clients see it.
#[derive(Debug)]
pub struct ScimGroup {
    pub schemas: Vec<String>,
    pub id: String,
    pub external_id: Option<String>,
    pub display_name: String,
    pub members: Option<Vec<ScimMember>>,
    pub meta: Option<ScimMeta>,
}

/// A page of provisioning resources.
#[derive(Debug)]
pub struct ScimListResponse<T> {
    pub schemas: Vec<String>,
    pub total_results: usize,
    pub start_index: Option<usize>,
    pub items_per_page: Option<usize>,
    pub resources: Vec<T>,
}

/// One operation of a patch request.
#[derive(Debug)]
pub struct ScimPatchOp {
    pub op: String,
    pub path: String,
    pub value: Option<JsonValue>,
}

/// A patch request.
#[derive(Debug)]
pub struct ScimPatchRequest {
    pub schemas: Vec<String>,
    pub operations: Vec<ScimPatchOp>,
}

/// The roles of a provisioning form, as a sequence when present.
pub open spec fn roles_view(r: Option<Vec<ScimRole>>) -> Option<Seq<ScimRole>> {
    match r {
        Some(v) => Some(v@),
        None => None,
    }
}

/// The name of a role.
pub open spec fn role_text(r: UserRole) -> Seq<char> {
    match r {
        UserRole::Admin => "admin"@,
        UserRole::Editor => "editor"@,
        UserRole::Writer => "writer"@,
        UserRole::Reader => "reader"@,
    }
}

pub fn role_name(r: UserRole) -> (s: &'static str)
    ensures
        s@ == role_text(r),
{
    match r {
        UserRole::Admin => "admin",
        UserRole::Editor => "editor",
        UserRole::Writer => "writer",
        UserRole::Reader => "reader",
    }
}

/// A copy of an account record.
pub fn copy_record(u: &UserRecord) -> (r: UserRecord)
    ensures
        r@ == u@,
{
    UserRecord {
        username: u.username.clone(),
        display_name: u.display_name.clone(),
        email: match &u.email {
            Some(e) => Some(e.clone()),
            None => None,
        },
        is_active: u.is_active,
        role: u.role,
    }
}

fn copy_emails(v: &Vec<ScimEmail>) -> (r: Vec<ScimEmail>)
    ensures
        r@.len() == v@.len(),
        forall|i: int| 0 <= i < v@.len() ==> #[trigger] r@[i].value@ == v@[i].value@ && r@[i].primary == v@[i].primary,
{
    let mut out: Vec<ScimEmail> = Vec::new();
    let mut i: usize = 0;
    while i < v.len()
        invariant
            i <= v@.len(),
            out@.len() == i,
            forall|j: int| 0 <= j < i ==> #[trigger] out@[j].value@ == v@[j].value@ && out@[j].primary == v@[j].primary,
        decreases v@.len() - i,
    {
        out.push(ScimEmail { value: v[i].value.clone(), primary: v[i].primary });
        i = i + 1;
    }
    out
}

impl ScimUser {
    /// The provisioning form of an account.
    pub fn from_user(
        user: &UserRecord,
        id: &str,
        created: UtcTimestamp,
        updated: UtcTimestamp,
        base_url: Option<&str>,
    ) -> (r: ScimUser)
        ensures
            r.schemas@.len() == 1 && r.schemas@[0]@ == user_schema(),
            r.id@ == id@,
            r.external_id is None,
            r.user_name@ == user.username@,
            match name_of_display(user.display_name@) {
                Some((g, f)) => r.name matches Some(n) && scim_name_view(n) == (Some(g), f),
                None => r.name is None,
            },
            user.display_name@.len() == 0 ==> r.display_name is None,
            user.display_name@.len() > 0 ==> (r.display_name matches Some(d) && d@ == user.display_name@),
            user.email is None ==> r.emails@.len() == 0,
            user.email matches Some(e) ==> (r.emails@.len() == 1 && r.emails@[0].value@ == e@
                && r.emails@[0].primary == Some(true)),
            r.phone_numbers is None,
            r.roles matches Some(rs) && rs@.len() == 1 && rs@[0].value@ == role_text(user.role),
            r.active == user.is_active,
            r.groups@.len() == 0,
            r.meta matches Some(m) && m.resource_type@ == "User"@ && m.created == created
                && m.last_modified == Some(updated) && m.version is None && (match base_url {
                Some(b) => m.location matches Some(l) && l@ == b@ + "/api/v1/scim/v2/Users/"@ + id@,
                None => m.location is None,
            }),
    {
        let mut schemas: Vec<String> = Vec::new();
        schemas.push(owned("urn:ietf:params:scim:schemas:core:2.0:User"));
        let email = match &user.email {
            Some(e) => Some(e.as_str()),
            None => None,
        };
        let mut roles: Vec<ScimRole> = Vec::new();
        roles.push(ScimRole { value: owned(role_name(user.role)) });
        ScimUser {
            schemas,
            id: owned(id),
            external_id: None,
            user_name: user.username.clone(),
            name: scim_name_of(user.display_name.as_str()),
            display_name: scim_display_name(user.display_name.as_str()),
            emails: scim_emails(email),
            phone_numbers: None,
            roles: Some(roles),
            active: user.is_active,
            groups: Vec::new(),
            meta: Some(
                ScimMeta {
                    resource_type: owned("User"),
                    created,
                    last_modified: Some(updated),
                    version: None,
                    location: scim_user_location(base_url, id),
                },
            ),
        }
    }

    /// The account a provisioning request creates (see [`scim_new_user`]).
    pub fn to_user_create(&self) -> (r: Result<UserRecord, String>)
        ensures
            self.user_name@.len() == 0 ==> (r matches Err(m) && m@ == "userName is required"@),
            self.user_name@.len() > 0 ==> (r matches Ok(u) && u@ == (UserRecordView {
                username: self.user_name@,
                display_name: match self.display_name {
                    Some(d) => d@,
                    None => match self.name {
                        Some(n) => joined_parts(n),
                        None => self.user_name@,
                    },
                },
                email: chosen_email(self.emails@),
                is_active: Some(
                    match self.active {
                        Some(a) => a,
                        None => true,
                    },
                ),
                role: match first_role(roles_view(self.roles)) {
                    Some(x) => x,
                    None => UserRole::Reader,
                },
            })),
    {
        let d = match &self.display_name {
            Some(d) => Some(d.as_str()),
            None => None,
        };
        let n = match &self.name {
            Some(n) => Some(n),
            None => None,
        };
        let roles = match &self.roles {
            Some(r) => Some(r),
            None => None,
        };
        let r = scim_new_user(self.user_name.as_str(), d, n, self.emails.as_slice(), roles, self.active);
        r
    }

    /// An existing account after this provisioning update (see
    /// [`scim_updated`]).
    pub fn to_user_update(&self, existing: &UserRecord) -> (r: UserRecord)
        ensures
            r@ == scim_updated(
                existing@,
                self.name,
                match self.display_name {
                    Some(d) => Some(d@),
                    None => None,
                },
                self.emails@,
                self.active,
                roles_view(self.roles),
            ),
    {
        let mut u = copy_record(existing);
        let d = match &self.display_name {
            Some(d) => Some(d.as_str()),
            None => None,
        };
        let n = match &self.name {
            Some(n) => Some(n),
            None => None,
        };
        let roles = match &self.roles {
            Some(r) => Some(r),
            None => None,
        };
        scim_update_user(&mut u, n, d, self.emails.as_slice(), self.active, roles);
        u
    }
}

/// A group member entry names the user by id, has no display name, and refers
/// to the user resource exactly when the base URL is known.
pub open spec fn member_entry(m: ScimMember, user_id: Seq<char>, base_url: Option<&str>) -> bool {
    &&& m.value matches Some(v) && v@ == user_id
    &&& m.display is None
    &&& match base_url {
        Some(b) => m.ref_url matches Some(u) && u@ == b@ + "/api/v1/scim/v2/Users/"@ + user_id,
        None => m.ref_url is None,
    }
}

impl ScimGroup {
    /// The provisioning form of a team.
    pub fn from_team(
        team_id: &str,
        team_name: &str,
        created: UtcTimestamp,
        updated: UtcTimestamp,
        base_url: Option<&str>,
    ) -> (r: ScimGroup)
        ensures
            r.schemas@.len() == 1 && r.schemas@[0]@ == group_schema(),
            r.id@ == team_id@,
            r.external_id is None,
            r.display_name@ == team_name@,
            r.members is None,
            r.meta matches Some(m) && m.resource_type@ == "Group"@ && m.created == created
                && m.last_modified == Some(updated) && m.version is None && (match base_url {
                Some(b) => m.location matches Some(l) && l@ == b@ + "/api/v1/scim/v2/Groups/"@ + team_id@,
                None => m.location is None,
            }),
    {
        let mut schemas: Vec<String> = Vec::new();
        schemas.push(owned("urn:ietf:params:scim:schemas:core:2.0:Group"));
        let location = match base_url {
            Some(b) => {
                let mut l = owned(b);
                push_str(&mut l, "/api/v1/scim/v2/Groups/");
                push_str(&mut l, team_id);
                Some(l)
            },
            None => None,
        };
        ScimGroup {
            schemas,
            id: owned(team_id),
            external_id: None,
            display_name: owned(team_name),
            members: None,
            meta: Some(
                ScimMeta {
                    resource_type: owned("Group"),
                    created,
                    last_modified: Some(updated),
                    version: None,
                    location,
                },
            ),
        }
    }

    /// The provisioning form of a team with its members, each referring to
    /// its user resource when the base URL is known.
    pub fn from_team_with_members(
        team_id: &str,
        team_name: &str,
        created: UtcTimestamp,
        updated: UtcTimestamp,
        member_ids: &[String],
        base_url: Option<&str>,
    ) -> (r: ScimGroup)
        ensures
            r.schemas@.len() == 1 && r.schemas@[0]@ == group_schema(),
            r.id@ == team_id@,
            r.display_name@ == team_name@,
            r.members matches Some(ms) && ms@.len() == member_ids@.len() && (forall|i: int|
                0 <= i < ms@.len() ==> member_entry(#[trigger] ms@[i], member_ids@[i]@, base_url)),
            r.meta matches Some(m) && m.resource_type@ == "Group"@ && m.created == created
                && m.last_modified == Some(updated) && (match base_url {
                Some(b) => m.location matches Some(l) && l@ == b@ + "/api/v1/scim/v2/Groups/"@ + team_id@,
                None => m.location is None,
            }),
    {
        let mut group = Self::from_team(team_id, team_name, created, updated, base_url);
        let mut members: Vec<ScimMember> = Vec::new();
        let mut i: usize = 0;
        while i < member_ids.len()
            invariant
                i <= member_ids@.len(),
                members@.len() == i,
                forall|j: int|
                    0 <= j < i ==> member_entry(#[trigger] members@[j], member_ids@[j]@, base_url),
            decreases member_ids@.len() - i,
        {
            members.push(
                ScimMember {
                    value: Some(member_ids[i].clone()),
                    ref_url: scim_user_location(base_url, member_ids[i].as_str()),
                    display: None,
                },
            );
            i = i + 1;
        }
        group.members = Some(members);
        group
    }
}

// ---------------------------------------------------------------------------
// Listings, errors and the service description
// ---------------------------------------------------------------------------

/// How a group listing is narrowed.
#[derive(Debug, PartialEq, Eq)]
pub enum GroupFilter {
    /// The display name equals this, ignoring ASCII case.
    NameEquals(String),
    /// The lowercased display name contains this, lowercased.
    NameContains(String),
}

pub enum GroupFilterView {
    NameEquals(Seq<char>),
    NameContains(Seq<char>),
}

impl View for GroupFilter {
    type V = GroupFilterView;

    open spec fn view(&self) -> GroupFilterView {
        match self {
            GroupFilter::NameEquals(v) => GroupFilterView::NameEquals(v@),
            GroupFilter::NameContains(v) => GroupFilterView::NameContains(v@),
        }
    }
}

/// The group filter a text denotes, or the error message.
pub open spec fn group_filter_outcome(raw: Seq<char>) -> Result<GroupFilterView, Seq<char>> {
    let s = trimmed(raw);
    if starts_with(s, "displayName eq "@) {
        Ok(GroupFilterView::NameEquals(quoted_value(s.skip("displayName eq "@.len() as int))))
    } else if starts_with(s, "displayName co "@) {
        Ok(GroupFilterView::NameContains(quoted_value(s.skip("displayName co "@.len() as int))))
    } else {
        Err("Unsupported SCIM filter: "@ + raw)
    }
}

/// Parses a group listing's filter: equality or containment on the display
/// name.
pub fn parse_group_filter(filter_str: &str) -> (r: Result<GroupFilter, String>)
    ensures
        match r {
            Ok(f) => group_filter_outcome(filter_str@) == Ok::<GroupFilterView, Seq<char>>(f@),
            Err(e) => group_filter_outcome(filter_str@) == Err::<GroupFilterView, Seq<char>>(e@),
        },
{
    let raw = chars_of(filter_str);
    let s = trim_chars(raw.as_slice());
    match strip_prefix_chars(s.as_slice(), "displayName eq ") {
        Some(rest) => {
            let v = quoted_value_exec(rest.as_slice());
            return Ok(GroupFilter::NameEquals(string_from_chars(v.as_slice())));
        },
        None => {},
    }
    match strip_prefix_chars(s.as_slice(), "displayName co ") {
        Some(rest) => {
            let v = quoted_value_exec(rest.as_slice());
            return Ok(GroupFilter::NameContains(string_from_chars(v.as_slice())));
        },
        None => {},
    }
    let mut msg = owned("Unsupported SCIM filter: ");
    push_str(&mut msg, filter_str);
    Err(msg)
}

/// Whether a group with this display name passes the filter.
pub fn group_matches(filter: &GroupFilter, display_name: &str) -> (r: bool)
    ensures
        r == match filter@ {
            GroupFilterView::NameEquals(v) => eq_ignoring_ascii_case(display_name@, v),
            GroupFilterView::NameContains(v) => contains_seq(lowercase(display_name@), lowercase(v)),
        },
{
    let d = chars_of(display_name);
    match filter {
        GroupFilter::NameEquals(v) => {
            let w = chars_of(v.as_str());
            eq_ignore_ascii_case(d.as_slice(), w.as_slice())
        },
        GroupFilter::NameContains(v) => {
            let dl = lowercase_chars(d.as_slice());
            let w = chars_of(v.as_str());
            let wl = lowercase_chars(w.as_slice());
            contains_exec(dl.as_slice(), wl.as_slice())
        },
    }
}

/// The size of a page of groups: the requested count, at most 100.
pub open spec fn group_page_size(count: Option<usize>) -> nat {
    match count {
        Some(c) => if c <= 100 { c as nat } else { 100 },
        None => 100,
    }
}

/// The first position of a page of groups, counting from 1.
pub open spec fn group_page_start(start_index: Option<usize>) -> nat {
    match start_index {
        Some(s) => if s >= 1 { s as nat } else { 1 },
        None => 1,
    }
}

/// The page of groups a listing shows: from the start position, as many as
/// the page holds; nothing when the start lies beyond the groups.
pub open spec fn groups_page_of<T>(groups: Seq<T>, start_index: Option<usize>, count: Option<usize>) -> Seq<T> {
    let start = group_page_start(start_index);
    let end = if start - 1 + group_page_size(count) < groups.len() {
        (start - 1 + group_page_size(count)) as int
    } else {
        groups.len() as int
    };
    if start <= groups.len() {
        groups.subrange(start - 1, end)
    } else {
        Seq::empty()
    }
}

/// Takes the page a group listing asks for.
pub fn groups_page<T>(groups: Vec<T>, start_index: Option<usize>, count: Option<usize>) -> (r: Vec<T>)
    requires
        group_page_start(start_index) - 1 + group_page_size(count) <= usize::MAX,
    ensures
        r@ == groups_page_of(groups@, start_index, count),
{
    let page_size: usize = match count {
        Some(c) => if c <= 100 {
            c
        } else {
            100
        },
        None => 100,
    };
    let start: usize = match start_index {
        Some(s) => if s >= 1 {
            s
        } else {
            1
        },
        None => 1,
    };
    let stop = start - 1 + page_size;
    let end = if stop < groups.len() {
        stop
    } else {
        groups.len()
    };
    if start <= groups.len() {
        let mut rest = groups;
        let mut tail = rest.split_off(start - 1);
        tail.truncate(end - (start - 1));
        assert(tail@ =~= groups_page_of(groups@, start_index, count));
        tail
    } else {
        Vec::new()
    }
}

/// A listing response: the list schema, the total the listing reports, the
/// requested start, and the number of resources it carries.
pub fn scim_list<T>(resources: Vec<T>, total_results: usize, start_index: Option<usize>) -> (r:
    ScimListResponse<T>)
    ensures
        r.schemas@.len() == 1,
        r.schemas@[0]@ == "urn:ietf:params:scim:api:messages:2.0:ListResponse"@,
        r.total_results == total_results,
        r.start_index == start_index,
        r.items_per_page == Some(resources@.len() as usize),
        r.resources@ == resources@,
{
    let n = resources.len();
    let mut schemas: Vec<String> = Vec::new();
    schemas.push(owned("urn:ietf:params:scim:api:messages:2.0:ListResponse"));
    ScimListResponse { schemas, total_results, start_index, items_per_page: Some(n), resources }
}

/// An error response body: the error schema, the detail, and the HTTP
/// status as decimal text.
pub fn scim_error(status: u16, detail: &str) -> (r: ScimError)
    ensures
        r.schemas@.len() == 1,
        r.schemas@[0]@ == "urn:ietf:params:scim:api:messages:2.0:Error"@,
        r.detail@ == detail@,
        r.status@ == decimal(status as nat),
{
    let mut schemas: Vec<String> = Vec::new();
    schemas.push(owned("urn:ietf:params:scim:api:messages:2.0:Error"));
    ScimError { schemas, detail: owned(detail), status: decimal_text(status as u64) }
}

/// What the service supports: patching and filtering (at most 100
/// results), bearer-token authentication, and no bulk requests, password
/// changes, sorting or entity tags.
pub fn service_provider_config() -> (r: ScimServiceProviderConfig)
    ensures
        r.schemas@.len() == 1,
        r.schemas@[0]@ == "urn:ietf:params:scim:schemas:core:2.0:ServiceProviderConfig"@,
        r.patch.supported,
        !r.bulk.supported && r.bulk.max_operations is None && r.bulk.max_payload_size is None,
        r.filter.supported && r.filter.max_results == Some(100usize),
        !r.change_password.supported,
        !r.sort.supported,
        !r.etag.supported,
        r.authentication_schemes@.len() == 1,
        r.authentication_schemes@[0].scheme_type@ == "oauthbearertoken"@,
        r.authentication_schemes@[0].name@ == "OAuth Bearer Token"@,
        r.authentication_schemes@[0].description matches Some(d) && d@
            == "Authentication scheme using Bearer tokens"@,
        r.authentication_schemes@[0].spec_uri matches Some(u) && u@ == "https://tools.ietf.org/html/rfc6750"@,
        r.authentication_schemes@[0].documentation_uri is None,
        r.authentication_schemes@[0].primary,
{
    let mut schemas: Vec<String> = Vec::new();
    schemas.push(owned("urn:ietf:params:scim:schemas:core:2.0:ServiceProviderConfig"));
    let mut schemes: Vec<ScimAuthScheme> = Vec::new();
    schemes.push(
        ScimAuthScheme {
            scheme_type: owned("oauthbearertoken"),
            name: owned("OAuth Bearer Token"),
            description: Some(owned("Authentication scheme using Bearer tokens")),
            spec_uri: Some(owned("https://tools.ietf.org/html/rfc6750")),
            documentation_uri: None,
            primary: true,
        },
    );
    ScimServiceProviderConfig {
        schemas,
        patch: ScimPatchSupport { supported: true },
        bulk: ScimBulkSupport { supported: false, max_operations: None, max_payload_size: None },
        filter: ScimFilterSupport { supported: true, max_results: Some(100) },
        change_password: ScimChangePasswordSupport { supported: false },
        sort: ScimSortSupport { supported: false },
        etag: ScimEtagSupport { supported: false },
        authentication_schemes: schemes,
    }
}

} // verus!
