//! Version 2 API requests, response envelopes, query defaults and document
//! visibility.

use vstd::prelude::*;
use crate::routes::scim::{field_of, json_get, json_str, JsonValue};
use crate::routes::search::SearchQuery;
use crate::text::{chars_of, chars_eq, eq_str, owned};

verus! {

#[derive(Debug)]
pub struct V2LoginRequest {
    pub username: String,
    pub password: String,
}

#[derive(Debug)]
pub struct V2RegisterRequest {
    pub username: String,
    pub display_name: String,
    pub email: Option<String>,
    pub password: String,
}

#[derive(Debug)]
pub struct V2RefreshRequest {
    pub refresh_token: String,
}

#[derive(Debug)]
pub struct V2UpdateProfileRequest {
    pub display_name: Option<String>,
    pub email: Option<String>,
}

#[derive(Debug)]
pub struct V2DocumentQuery {
    pub page: Option<usize>,
    pub per_page: Option<usize>,
    pub author_id: Option<String>,
    pub project_id: Option<String>,
}

#[derive(Debug)]
pub struct V2CreateDocumentRequest {
    pub title: String,
    pub content: Option<String>,
    pub project_id: Option<String>,
    pub tags: Option<Vec<String>>,
    pub visibility: Option<String>,
}

#[derive(Debug)]
pub struct V2SearchQuery {
    pub q: String,
    pub page: Option<i64>,
    pub page_size: Option<i64>,
    pub content_type: Option<String>,
    pub status: Option<String>,
    pub visibility: Option<String>,
    pub project_id: Option<String>,
    pub author_id: Option<String>,
    pub tags: Option<String>,
}


// ---------------------------------------------------------------------------
// Visibility
// ---------------------------------------------------------------------------

/// A document is visible when it is public, to administrators, and to its
/// author.
pub open spec fn document_visible(
    visibility: Seq<char>,
    author_id: Seq<char>,
    caller_id: Option<Seq<char>>,
    is_admin: bool,
) -> bool {
    visibility == "public"@ || is_admin || caller_id == Some(author_id)
}

pub fn visible_to_caller(visibility: &str, author_id: &str, caller_id: Option<&str>, is_admin: bool) -> (r:
    bool)
    ensures
        r == document_visible(
            visibility@,
            author_id@,
            match caller_id {
                Some(c) => Some(c@),
                None => None,
            },
            is_admin,
        ),
{
    let v = chars_of(visibility);
    if eq_str(v.as_slice(), "public") || is_admin {
        return true;
    }
    match caller_id {
        Some(c) => {
            let cv = chars_of(c);
            let a = chars_of(author_id);
            chars_eq(cv.as_slice(), a.as_slice())
        },
        None => false,
    }
}

// ---------------------------------------------------------------------------
// Paging of the document listing
// ---------------------------------------------------------------------------

/// The listing page asked for: 1 when absent, never below 1.
pub open spec fn listing_page(page: Option<usize>) -> nat {
    match page {
        Some(p) => if p >= 1 {
            p as nat
        } else {
            1
        },
        None => 1,
    }
}

/// The listing page size asked for: 20 when absent, at most 100.
pub open spec fn listing_per_page(per_page: Option<usize>) -> nat {
    match per_page {
        Some(n) => if n <= 100 {
            n as nat
        } else {
            100
        },
        None => 20,
    }
}

/// Where a page of the document listing starts.
#[derive(Debug, Clone, Copy, PartialEq, Eq, Structural)]
pub struct V2ListingWindow {
    pub page: usize,
    pub per_page: usize,
    pub offset: usize,
}

/// The page, page size and offset of a listing request.
pub fn listing_window(query: &V2DocumentQuery) -> (r: V2ListingWindow)
    requires
        (listing_page(query.page) - 1) * listing_per_page(query.per_page) <= usize::MAX,
    ensures
        r.page == listing_page(query.page),
        r.per_page == listing_per_page(query.per_page),
        r.offset == (r.page - 1) * r.per_page,
{
    let page = match query.page {
        Some(p) => if p >= 1 {
            p
        } else {
            1
        },
        None => 1,
    };
    let per_page = match query.per_page {
        Some(n) => if n <= 100 {
            n
        } else {
            100
        },
        None => 20,
    };
    V2ListingWindow { page, per_page, offset: (page - 1) * per_page }
}

/// The pagination block of a listing response.
#[derive(Debug, Clone, Copy, PartialEq, Eq, Structural)]
pub struct V2Pagination {
    pub page: usize,
    pub per_page: usize,
    pub total_items: usize,
    pub total_pages: usize,
    pub has_next: bool,
    pub has_prev: bool,
}

/// The number of pages needed for `total` items, `per_page` to a page.
pub open spec fn pages_for(total: nat, per_page: nat) -> nat {
    if per_page == 0 {
        0
    } else {
        ((total + per_page - 1) / per_page as int) as nat
    }
}

/// The pagination block for a page of a listing with `total` visible items.
pub fn listing_pagination(page: usize, per_page: usize, total: usize) -> (r: V2Pagination)
    requires
        per_page > 0,
    ensures
        r == (V2Pagination {
            page,
            per_page,
            total_items: total,
            total_pages: pages_for(total as nat, per_page as nat) as usize,
            has_next: page < pages_for(total as nat, per_page as nat),
            has_prev: page > 1,
        }),
{
    let whole = total / per_page;
    let total_pages = if total % per_page == 0 {
        whole
    } else {
        assert(whole < total) by (nonlinear_arith)
            requires
                per_page > 0,
                whole == total / per_page,
                total % per_page != 0,
        {
            if per_page == 1 {
                assert(total % per_page == 0);
            }
            assert(per_page >= 2);
            assert(whole * per_page <= total);
        }
        whole + 1
    };
    assert(total_pages == pages_for(total as nat, per_page as nat)) by (nonlinear_arith)
        requires
            per_page > 0,
            whole == total / per_page,
            total_pages == (if total % per_page == 0 { whole as int } else { whole + 1 }),
    {}
    V2Pagination {
        page,
        per_page,
        total_items: total,
        total_pages,
        has_next: page < total_pages,
        has_prev: page > 1,
    }
}

/// The search request that a version 2 search query stands for: page 1 and
/// 20 results when not given, and no date bounds.
pub fn search_request(query: V2SearchQuery) -> (r: SearchQuery)
    ensures
        r.q@ == query.q@,
        r.page == match query.page {
            Some(p) => p,
            None => 1,
        },
        r.page_size == match query.page_size {
            Some(p) => p,
            None => 20,
        },
        r.content_type == query.content_type,
        r.status == query.status,
        r.visibility == query.visibility,
        r.project_id == query.project_id,
        r.author_id == query.author_id,
        r.tags == query.tags,
        r.date_from is None,
        r.date_to is None,
{
    SearchQuery {
        q: query.q,
        page: match query.page {
            Some(p) => p,
            None => 1,
        },
        page_size: match query.page_size {
            Some(p) => p,
            None => 20,
        },
        content_type: query.content_type,
        status: query.status,
        visibility: query.visibility,
        project_id: query.project_id,
        author_id: query.author_id,
        tags: query.tags,
        date_from: None,
        date_to: None,
    }
}

/// A JSON string member `key` of `v` holds exactly `text`.
pub open spec fn has_text(v: JsonValue, key: Seq<char>, text: Seq<char>) -> bool {
    &&& json_get(v, key) is Some
    &&& json_str(json_get(v, key)->0) == Some(text)
}

/// The success envelope: an object of two members, `data` and `meta`,
/// where `meta` holds the API version `2.0` and the response time.
pub open spec fn ok_envelope(r: JsonValue, data: JsonValue, timestamp: Seq<char>) -> bool {
    &&& r is Object
    &&& r->Object_0@.len() == 2
    &&& r->Object_0@[0].0@ == "data"@
    &&& r->Object_0@[0].1 == data
    &&& r->Object_0@[1].0@ == "meta"@
    &&& r->Object_0@[1].1 is Object
    &&& r->Object_0@[1].1->Object_0@.len() == 2
    &&& has_text(r->Object_0@[1].1, "version"@, "2.0"@)
    &&& has_text(r->Object_0@[1].1, "timestamp"@, timestamp)
}

/// The error envelope: an object whose one member `error` holds the code
/// and the message.
pub open spec fn error_envelope(r: JsonValue, code: Seq<char>, message: Seq<char>) -> bool {
    &&& r is Object
    &&& r->Object_0@.len() == 1
    &&& r->Object_0@[0].0@ == "error"@
    &&& r->Object_0@[0].1 is Object
    &&& r->Object_0@[0].1->Object_0@.len() == 2
    &&& has_text(r->Object_0@[0].1, "code"@, code)
    &&& has_text(r->Object_0@[0].1, "message"@, message)
}

/// Wraps a response's data with the API version and the time of the
/// response (RFC 3339 text).
pub fn v2_ok(data: JsonValue, timestamp: String) -> (r: JsonValue)
    ensures
        ok_envelope(r, data, timestamp@),
{
    let ghost d = data;
    let mut meta: Vec<(String, JsonValue)> = Vec::new();
    meta.push((owned("version"), JsonValue::String(owned("2.0"))));
    meta.push((owned("timestamp"), JsonValue::String(timestamp)));
    let mut fields: Vec<(String, JsonValue)> = Vec::new();
    fields.push((owned("data"), data));
    fields.push((owned("meta"), JsonValue::Object(meta)));
    let r = JsonValue::Object(fields);
    proof {
        reveal_strlit("version");
        reveal_strlit("timestamp");
        let m = r->Object_0@[1].1->Object_0@;
        assert(m[0].0@ == "version"@);
        assert(m[1].0@ == "timestamp"@);
        assert(m.drop_first()[0] == m[1]);
        reveal_with_fuel(crate::routes::scim::field_of, 3);
        assert(json_get(r->Object_0@[1].1, "version"@) == Some(m[0].1));
        assert(json_get(r->Object_0@[1].1, "timestamp"@) == Some(m[1].1));
    }
    r
}

/// An error response: the HTTP status and the envelope with the code and
/// the message.
pub fn v2_error(code: &str, message: &str, status: u16) -> (r: (u16, JsonValue))
    ensures
        r.0 == status,
        error_envelope(r.1, code@, message@),
{
    let mut inner: Vec<(String, JsonValue)> = Vec::new();
    inner.push((owned("code"), JsonValue::String(owned(code))));
    inner.push((owned("message"), JsonValue::String(owned(message))));
    let mut fields: Vec<(String, JsonValue)> = Vec::new();
    fields.push((owned("error"), JsonValue::Object(inner)));
    let r = JsonValue::Object(fields);
    proof {
        reveal_strlit("code");
        reveal_strlit("message");
        let m = r->Object_0@[0].1->Object_0@;
        assert(m[0].0@ == "code"@);
        assert(m[1].0@ == "message"@);
        assert(m.drop_first()[0] == m[1]);
        reveal_with_fuel(crate::routes::scim::field_of, 3);
        assert(json_get(r->Object_0@[0].1, "code"@) == Some(m[0].1));
        assert(json_get(r->Object_0@[0].1, "message"@) == Some(m[1].1));
    }
    (status, r)
}

/// The health report of the v2 API: status `ok`, version `2.0.0` and the
/// API's name, in the success envelope.
pub fn v2_health(timestamp: String) -> (r: JsonValue)
    ensures
        r is Object && r->Object_0@.len() == 2 && ok_envelope(r, r->Object_0@[0].1, timestamp@),
        ({
            let d = r->Object_0@[0].1;
            &&& d is Object
            &&& d->Object_0@.len() == 3
            &&& has_text(d, "status"@, "ok"@)
            &&& has_text(d, "version"@, "2.0.0"@)
            &&& has_text(d, "message"@, "Tachyon API v2"@)
        }),
{
    let mut fields: Vec<(String, JsonValue)> = Vec::new();
    fields.push((owned("status"), JsonValue::String(owned("ok"))));
    fields.push((owned("version"), JsonValue::String(owned("2.0.0"))));
    fields.push((owned("message"), JsonValue::String(owned("Tachyon API v2"))));
    let data = JsonValue::Object(fields);
    proof {
        reveal_strlit("status");
        reveal_strlit("version");
        reveal_strlit("message");
        let m = data->Object_0@;
        assert(m[0].0@ == "status"@);
        assert(m[1].0@ == "version"@);
        assert(m[2].0@ == "message"@);
        assert(m.drop_first()[0] == m[1]);
        assert(m.drop_first().drop_first()[0] == m[2]);
        reveal_with_fuel(crate::routes::scim::field_of, 4);
        assert(json_get(data, "status"@) == Some(m[0].1));
        assert(json_get(data, "version"@) == Some(m[1].1));
        assert("status"@.len() != "message"@.len() && "status"@.len() != "version"@.len());
        assert("version"@[0] != "message"@[0]);
        assert(field_of(m.drop_first().drop_first(), "message"@) == Some(m[2].1));
        assert(field_of(m.drop_first(), "message"@) == Some(m[2].1));
        assert(json_get(data, "message"@) == Some(m[2].1));
    }
    v2_ok(data, timestamp)
}

} // verus!
