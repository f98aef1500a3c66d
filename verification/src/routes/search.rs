//! Search requests and responses.

use crate::text::{chars_of, string_from_chars, trim_chars, trimmed};
use crate::validation::search::{parse_rfc3339, rfc3339_instant, split_pieces, strings_view, UtcTimestamp};
use vstd::prelude::*;

verus! {

#[derive(Debug)]
pub struct SearchQuery {
    pub q: String,
    pub page: i64,
    pub page_size: i64,
    pub content_type: Option<String>,
    pub status: Option<String>,
    pub visibility: Option<String>,
    pub project_id: Option<String>,
    pub author_id: Option<String>,
    pub tags: Option<String>,
    pub date_from: Option<String>,
    pub date_to: Option<String>,
}

#[derive(Debug)]
pub struct SearchFacetsResponse {
    pub content_types: Vec<FacetItem>,
    pub statuses: Vec<FacetItem>,
    pub visibilities: Vec<FacetItem>,
    pub tags: Vec<FacetItem>,
}

#[derive(Debug)]
pub struct FacetItem {
    pub value: String,
    pub count: i64,
}

#[derive(Debug)]
pub struct ErrorResponse {
    pub code: String,
    pub message: String,
}

#[derive(Debug)]
pub struct SuggestResponse {
    pub query: String,
    pub suggestions: Vec<String>,
}

#[derive(Debug)]
pub struct SuggestQuery {
    pub q: String,
    pub limit: usize,
}

/// The page used when a search request gives none.
pub fn default_page() -> (r: i64)
    ensures
        r == 1,
{
    1
}

/// The page size used when a search request gives none.
pub fn default_page_size() -> (r: i64)
    ensures
        r == 20,
{
    20
}

/// The number of suggestions returned when a request gives no limit.
pub fn default_suggest_limit() -> (r: usize)
    ensures
        r == 10,
{
    10
}

/// How a search request is served: the page shown, its size, and how many
/// hits are fetched from each engine before the lists are merged.
#[derive(Debug, Clone, Copy, PartialEq, Eq, Structural)]
pub struct SearchWindow {
    pub page: i64,
    pub page_size: i64,
    pub fetch_limit: i64,
}

/// The page, at least 1.
pub open spec fn window_page(page: i64) -> i64 {
    if page < 1 { 1 } else { page }
}

/// The page size, between 1 and 100.
pub open spec fn window_page_size(page_size: i64) -> i64 {
    if page_size > 100 { 100 } else if page_size < 1 { 1 } else { page_size }
}

/// Three pages' worth of hits, at most 300.
pub open spec fn window_fetch_limit(page_size: i64) -> i64 {
    let n = 3 * window_page_size(page_size);
    if n > 300 { 300 } else { n as i64 }
}

pub fn search_window(page: i64, page_size: i64) -> (r: SearchWindow)
    ensures
        r.page == window_page(page),
        r.page_size == window_page_size(page_size),
        r.fetch_limit == window_fetch_limit(page_size),
        1 <= r.page_size <= 100,
        3 <= r.fetch_limit <= 300,
{
    let p = if page < 1 { 1 } else { page };
    let size = if page_size > 100 { 100 } else if page_size < 1 { 1 } else { page_size };
    let n = size * 3;
    let fetch = if n > 300 { 300 } else { n };
    SearchWindow { page: p, page_size: size, fetch_limit: fetch }
}

/// Where the shown page starts in the merged list.
pub open spec fn window_start(page: i64, page_size: i64) -> int {
    (page - 1) * page_size
}

/// The items of `items` on the given page: `page_size` of them after
/// skipping the earlier pages, fewer at the end of the list.
pub open spec fn page_of<T>(items: Seq<T>, page: i64, page_size: i64) -> Seq<T> {
    let start = window_start(page, page_size);
    let lo = if start < items.len() { start } else { items.len() as int };
    let hi = if lo + page_size < items.len() { lo + page_size } else { items.len() as int };
    items.subrange(lo, hi)
}

/// The page of merged results shown to the caller.
pub fn results_page<T>(items: Vec<T>, page: i64, page_size: i64) -> (r: Vec<T>)
    requires
        page >= 1,
        page_size >= 1,
        window_start(page, page_size) <= i64::MAX,
    ensures
        r@ == page_of(items@, page, page_size),
{
    assert(0 <= (page - 1) * page_size) by (nonlinear_arith)
        requires
            page >= 1,
            page_size >= 1,
    ;
    let start: i64 = (page - 1) * page_size;
    let mut rest = items;
    let len = rest.len();
    if (len as u64) <= (start as u64) {
        let empty: Vec<T> = Vec::new();
        assert(empty@ =~= page_of(items@, page, page_size));
        return empty;
    }
    let mut tail = rest.split_off(start as usize);
    if (page_size as u64) < (tail.len() as u64) {
        tail.truncate(page_size as usize);
    }
    assert(tail@ =~= page_of(items@, page, page_size));
    tail
}

/// The pieces of a comma-separated list, each trimmed, empty ones kept.
pub open spec fn comma_pieces(s: Seq<char>) -> Seq<Seq<char>> {
    split_pieces(s, ',').map_values(|p: Seq<char>| trimmed(p))
}

/// The tag filter of a search request: the comma-separated pieces, trimmed.
pub fn split_tag_list(tags: &str) -> (r: Vec<String>)
    ensures
        strings_view(r@) == comma_pieces(tags@),
{
    let s = chars_of(tags);
    let mut out: Vec<String> = Vec::new();
    let mut cur: Vec<char> = Vec::new();
    let ghost mut done: Seq<Seq<char>> = Seq::empty();
    let mut i: usize = 0;
    assert(s@.take(0) =~= Seq::<char>::empty());
    assert(split_pieces(Seq::<char>::empty(), ',') =~= done.push(cur@));
    while i < s.len()
        invariant
            i <= s@.len(),
            split_pieces(s@.take(i as int), ',') == done.push(cur@),
            strings_view(out@) == done.map_values(|p: Seq<char>| trimmed(p)),
        decreases s@.len() - i,
    {
        let c = s[i];
        assert(s@.take(i as int + 1).drop_last() =~= s@.take(i as int));
        assert(s@.take(i as int + 1).last() == c);
        if c == ',' {
            let t = trim_chars(cur.as_slice());
            let ghost before = out@;
            out.push(string_from_chars(t.as_slice()));
            proof {
                assert(strings_view(out@) =~= strings_view(before).push(t@));
                assert(done.push(cur@).map_values(|p: Seq<char>| trimmed(p)) =~= done.map_values(
                    |p: Seq<char>| trimmed(p),
                ).push(trimmed(cur@)));
                done = done.push(cur@);
            }
            cur = Vec::new();
            assert(split_pieces(s@.take(i as int + 1), ',') =~= done.push(cur@));
        } else {
            let ghost old_cur = cur@;
            cur.push(c);
            assert(split_pieces(s@.take(i as int + 1), ',') =~= done.push(cur@)) by {
                assert(done.push(old_cur).update(done.len() as int, old_cur.push(c)) =~= done.push(
                    cur@,
                ));
            }
        }
        i = i + 1;
    }
    assert(s@.take(s@.len() as int) =~= s@);
    let t = trim_chars(cur.as_slice());
    let ghost before = out@;
    out.push(string_from_chars(t.as_slice()));
    proof {
        assert(strings_view(out@) =~= strings_view(before).push(t@));
        assert(done.push(cur@).map_values(|p: Seq<char>| trimmed(p)) =~= done.map_values(
            |p: Seq<char>| trimmed(p),
        ).push(trimmed(cur@)));
    }
    out
}

/// The filters a search runs with, taken from its request.
#[derive(Debug)]
pub struct SearchFilterPlan {
    pub content_type: Option<String>,
    pub status: Option<String>,
    pub visibility: Option<String>,
    pub project_id: Option<String>,
    pub author_id: Option<String>,
    pub tags: Option<Vec<String>>,
    pub date_from: Option<UtcTimestamp>,
    pub date_to: Option<UtcTimestamp>,
}

/// A date bound of a search: the instant its text names, or no bound when
/// the text is missing or not an RFC 3339 date.
pub open spec fn date_bound(date: Option<Seq<char>>) -> Option<UtcTimestamp> {
    match date {
        Some(d) => match rfc3339_instant(d) {
            Some((secs, nanos)) => Some(UtcTimestamp { seconds: secs, nanos }),
            None => None,
        },
        None => None,
    }
}

pub fn search_date_bound(date: Option<&str>) -> (r: Option<UtcTimestamp>)
    ensures
        r == date_bound(
            match date {
                Some(d) => Some(d@),
                None => None,
            },
        ),
{
    match date {
        Some(d) => match parse_rfc3339(d) {
            Some((secs, nanos)) => Some(UtcTimestamp { seconds: secs, nanos }),
            None => None,
        },
        None => None,
    }
}

fn opt_ref(o: &Option<String>) -> (r: Option<&str>)
    ensures
        match o {
            Some(s) => r matches Some(x) && x@ == s@,
            None => r is None,
        },
{
    match o {
        Some(s) => Some(s.as_str()),
        None => None,
    }
}

/// The filters of a search request: the text filters as given, the tag
/// list split on commas and trimmed, the dates read as RFC 3339 instants.
pub fn search_filters(query: SearchQuery) -> (r: SearchFilterPlan)
    ensures
        r.content_type == query.content_type,
        r.status == query.status,
        r.visibility == query.visibility,
        r.project_id == query.project_id,
        r.author_id == query.author_id,
        match query.tags {
            Some(t) => r.tags matches Some(v) && strings_view(v@) == comma_pieces(t@),
            None => r.tags is None,
        },
        r.date_from == date_bound(
            match query.date_from {
                Some(d) => Some(d@),
                None => None,
            },
        ),
        r.date_to == date_bound(
            match query.date_to {
                Some(d) => Some(d@),
                None => None,
            },
        ),
{
    let tags = match &query.tags {
        Some(t) => Some(split_tag_list(t.as_str())),
        None => None,
    };
    let date_from = search_date_bound(opt_ref(&query.date_from));
    let date_to = search_date_bound(opt_ref(&query.date_to));
    SearchFilterPlan {
        content_type: query.content_type,
        status: query.status,
        visibility: query.visibility,
        project_id: query.project_id,
        author_id: query.author_id,
        tags,
        date_from,
        date_to,
    }
}

/// The answer to a failed search.
pub fn search_failure(detail: &str) -> (r: ErrorResponse)
    ensures
        r.code@ == "SEARCH_ERROR"@,
        r.message@ == "Search failed: "@ + detail@,
{
    let mut m = crate::text::owned("Search failed: ");
    crate::text::push_str(&mut m, detail);
    ErrorResponse { code: crate::text::owned("SEARCH_ERROR"), message: m }
}

} // verus!
