//! Validation of search queries, filters and pagination parameters.

use vstd::prelude::*;
use crate::text::{
    ascii_alphanumeric, chars_of, is_one_of, lowercase, lowercase_chars, one_of, owned,
    string_from_chars, trim_chars, trimmed,
};
use crate::validation::common::{
    ascii_identifier, contains_any, contains_any_exec, contains_control_chars, forbidden,
    has_markup, html_message, identifier_message, invalid_format, is_control, length_error,
    protocol_message, result_view, sanitize_string, script_fragments, script_message,
    script_protocols, validate_ascii_alphanumeric, validate_length, validate_no_html,
    validate_no_javascript_protocol, validate_no_scripts, without_zero_width, ValidationError,
    ValidationErrorView, ValidationResult,
};

verus! {

broadcast use vstd::string::group_string_axioms;

pub const MAX_QUERY_LENGTH: usize = 500;

pub const MAX_PAGE_SIZE: usize = 100;

pub const DEFAULT_PAGE_SIZE: usize = 20;

pub const MIN_PAGE: usize = 1;

/// An optional string argument taken by its characters.
pub open spec fn opt_str(o: Option<&str>) -> Option<Seq<char>> {
    match o {
        Some(s) => Some(s@),
        None => None,
    }
}

/// A validation result carrying an optional value, both sides by their views.
pub open spec fn optional_result_view<T: View>(r: &ValidationResult<Option<T>>) -> Result<
    Option<T::V>,
    ValidationErrorView,
> {
    match r {
        Ok(Some(v)) => Ok(Some(v@)),
        Ok(None) => Ok(None),
        Err(e) => Err(e@),
    }
}

/// The input is present and holds something besides whitespace.
pub open spec fn present(o: Option<Seq<char>>) -> bool {
    o matches Some(s) && trimmed(s).len() > 0
}

// ---------------------------------------------------------------------------
// Query text
// ---------------------------------------------------------------------------

pub open spec fn dangerous_message() -> Seq<char> {
    "Query contains potentially dangerous patterns"@
}

/// Fragments of SQL that a search query may not hold, in lowercase.
pub open spec fn dangerous_patterns() -> Seq<&'static str> {
    seq![
        "--",
        ";--",
        "/*",
        "*/",
        "@@",
        "char(",
        "nchar(",
        "varchar(",
        "nvarchar(",
        "alter(",
        "begin(",
        "cast(",
        "create(",
        "cursor(",
        "declare(",
        "delete(",
        "drop(",
        "exec(",
        "execute(",
        "fetch(",
        "insert(",
        "kill(",
        "open(",
        "select(",
        "sys(",
        "sysobjects(",
        "syscolumns(",
        "table(",
        "update(",
        "union(",
        "or 1=1",
        "and 1=1",
        "or '",
        "and '",
        "or \"",
        "and \"",
        "'='",
        "' or",
        "' and",
    ]
}

/// The stored query, or the error, for a raw input.
pub open spec fn search_query_outcome(raw: Seq<char>) -> Result<Seq<char>, ValidationErrorView> {
    let q = trimmed(raw);
    if q.len() == 0 {
        Err(ValidationErrorView::Required)
    } else if length_error(q, 1, 500) is Some {
        Err(length_error(q, 1, 500).unwrap())
    } else if has_markup(q) {
        Err(ValidationErrorView::ForbiddenContent(html_message()))
    } else if contains_any(lowercase(q), script_fragments()) {
        Err(ValidationErrorView::ForbiddenContent(script_message()))
    } else if contains_any(lowercase(q), script_protocols()) {
        Err(ValidationErrorView::ForbiddenContent(protocol_message()))
    } else if exists|i: int| 0 <= i < q.len() && is_control(#[trigger] q[i]) {
        Err(ValidationErrorView::ContainsControlChars)
    } else if contains_any(lowercase(without_zero_width(q)), dangerous_patterns()) {
        Err(ValidationErrorView::ForbiddenContent(dangerous_message()))
    } else {
        Ok(without_zero_width(q))
    }
}

/// A query and its trimmed form are validated alike: the same error, or
/// the same stored query.
pub proof fn lemma_query_ignores_surrounding_space(raw: Seq<char>)
    ensures
        search_query_outcome(trimmed(raw)) == search_query_outcome(raw),
{
    crate::text::lemma_trimmed_idempotent(raw);
}

/// A trimmed search query of at most 500 characters with no markup, script,
/// control characters or SQL fragments, and zero-width characters removed.
#[derive(Debug, Clone)]
pub struct ValidatedSearchQuery {
    query: String,
}

impl View for ValidatedSearchQuery {
    type V = Seq<char>;

    closed spec fn view(&self) -> Seq<char> {
        self.query@
    }
}

impl ValidatedSearchQuery {
    pub fn new(query: &str) -> (r: ValidationResult<Self>)
        ensures
            result_view(&r) == search_query_outcome(query@),
    {
        let raw = chars_of(query);
        let q = trim_chars(raw.as_slice());
        if q.len() == 0 {
            return Err(ValidationError::Required);
        }
        match validate_length(q.as_slice(), 1, MAX_QUERY_LENGTH) {
            Err(e) => {
                return Err(e);
            },
            Ok(()) => {},
        }
        match validate_no_html(q.as_slice()) {
            Err(e) => {
                return Err(e);
            },
            Ok(()) => {},
        }
        match validate_no_scripts(q.as_slice()) {
            Err(e) => {
                return Err(e);
            },
            Ok(()) => {},
        }
        match validate_no_javascript_protocol(q.as_slice()) {
            Err(e) => {
                return Err(e);
            },
            Ok(()) => {},
        }
        if contains_control_chars(q.as_slice()) {
            return Err(ValidationError::ContainsControlChars);
        }
        let sanitized = sanitize_string(q.as_slice());
        let lower = lowercase_chars(sanitized.as_slice());
        let patterns: [&'static str; 39] = [
            "--",
            ";--",
            "/*",
            "*/",
            "@@",
            "char(",
            "nchar(",
            "varchar(",
            "nvarchar(",
            "alter(",
            "begin(",
            "cast(",
            "create(",
            "cursor(",
            "declare(",
            "delete(",
            "drop(",
            "exec(",
            "execute(",
            "fetch(",
            "insert(",
            "kill(",
            "open(",
            "select(",
            "sys(",
            "sysobjects(",
            "syscolumns(",
            "table(",
            "update(",
            "union(",
            "or 1=1",
            "and 1=1",
            "or '",
            "and '",
            "or \"",
            "and \"",
            "'='",
            "' or",
            "' and",
        ];
        assert(patterns@ =~= dangerous_patterns());
        if contains_any_exec(lower.as_slice(), patterns.as_slice()) {
            return Err(forbidden("Query contains potentially dangerous patterns"));
        }
        Ok(ValidatedSearchQuery { query: string_from_chars(sanitized.as_slice()) })
    }

    /// Validates a query that may be absent; absent or blank input gives `None`.
    pub fn new_optional(query: Option<&str>) -> (r: ValidationResult<Option<Self>>)
        ensures
            optional_result_view(&r) == (if present(opt_str(query)) {
                match search_query_outcome(opt_str(query).unwrap()) {
                    Ok(v) => Ok(Some(v)),
                    Err(e) => Err(e),
                }
            } else {
                Ok(None)
            }),
    {
        match query {
            Some(q) => {
                let raw = chars_of(q);
                let t = trim_chars(raw.as_slice());
                if t.len() == 0 {
                    Ok(None)
                } else {
                    match Self::new(q) {
                        Ok(v) => Ok(Some(v)),
                        Err(e) => Err(e),
                    }
                }
            },
            None => Ok(None),
        }
    }

    pub fn as_str(&self) -> (r: &str)
        ensures
            r@ == self@,
    {
        self.query.as_str()
    }

    pub fn into_inner(self) -> (r: String)
        ensures
            r@ == self@,
    {
        self.query
    }
}

// ---------------------------------------------------------------------------
// Pagination
// ---------------------------------------------------------------------------

/// A page number of at least 1.
#[derive(Debug, Clone)]
pub struct ValidatedPage {
    value: usize,
}

impl View for ValidatedPage {
    type V = nat;

    closed spec fn view(&self) -> nat {
        self.value as nat
    }
}

/// The page number for an optional request value: 1 when absent, and never
/// below 1.
pub open spec fn page_value(page: Option<usize>) -> nat {
    match page {
        Some(p) => if p >= 1 {
            p as nat
        } else {
            1
        },
        None => 1,
    }
}

/// The number of items before the first one of `page`.
pub open spec fn page_offset(page: nat, page_size: nat) -> int {
    if page == 0 {
        0
    } else {
        (page - 1) * page_size
    }
}

impl ValidatedPage {
    pub fn new(page: Option<usize>) -> (r: Self)
        ensures
            r@ == page_value(page),
    {
        let p = match page {
            Some(p) => p,
            None => 1,
        };
        ValidatedPage { value: if p >= MIN_PAGE { p } else { MIN_PAGE } }
    }

    pub fn value(&self) -> (r: usize)
        ensures
            r == self@,
    {
        self.value
    }

    pub fn offset(&self, page_size: usize) -> (r: usize)
        requires
            page_offset(self@, page_size as nat) <= usize::MAX,
        ensures
            r == page_offset(self@, page_size as nat),
    {
        let before = self.value.saturating_sub(1);
        assert(before * page_size == page_offset(self@, page_size as nat)) by (nonlinear_arith)
            requires
                before == (if self.value == 0 { 0 } else { self.value - 1 }),
        {}
        before * page_size
    }
}

/// A page size between 1 and 100.
#[derive(Debug)]
pub struct ValidatedPageSize {
    value: usize,
}

impl View for ValidatedPageSize {
    type V = nat;

    closed spec fn view(&self) -> nat {
        self.value as nat
    }
}

/// The page size for an optional request value: 20 when absent, clamped to
/// `[1, 100]`.
pub open spec fn page_size_value(size: Option<usize>) -> nat {
    let s: int = match size {
        Some(s) => s as int,
        None => 20,
    };
    if s > 100 {
        100
    } else if s < 1 {
        1
    } else {
        s as nat
    }
}

impl Clone for ValidatedPageSize {
    fn clone(&self) -> (r: Self)
        ensures
            r@ == self@,
    {
        proof {
            use_type_invariant(self);
        }
        ValidatedPageSize { value: self.value }
    }
}

impl ValidatedPageSize {
    #[verifier::type_invariant]
    spec fn in_range(self) -> bool {
        1 <= self.value <= 100
    }

    pub fn new(page_size: Option<usize>) -> (r: Self)
        ensures
            r@ == page_size_value(page_size),
    {
        let s = match page_size {
            Some(s) => s,
            None => DEFAULT_PAGE_SIZE,
        };
        let capped = if s > MAX_PAGE_SIZE { MAX_PAGE_SIZE } else { s };
        ValidatedPageSize { value: if capped < 1 { 1 } else { capped } }
    }

    pub fn value(&self) -> (r: usize)
        ensures
            r == self@,
    {
        self.value
    }
}

/// A page number and a page size, both validated.
#[derive(Debug, Clone)]
pub struct ValidatedPagination {
    page: ValidatedPage,
    page_size: ValidatedPageSize,
}

impl View for ValidatedPagination {
    type V = (nat, nat);

    closed spec fn view(&self) -> (nat, nat) {
        (self.page@, self.page_size@)
    }
}

impl ValidatedPagination {
    pub fn new(page: Option<usize>, page_size: Option<usize>) -> (r: Self)
        ensures
            r@ == (page_value(page), page_size_value(page_size)),
    {
        ValidatedPagination {
            page: ValidatedPage::new(page),
            page_size: ValidatedPageSize::new(page_size),
        }
    }

    pub fn page(&self) -> (r: usize)
        ensures
            r == self@.0,
    {
        self.page.value()
    }

    pub fn page_size(&self) -> (r: usize)
        ensures
            r == self@.1,
            1 <= r <= MAX_PAGE_SIZE,
    {
        proof {
            use_type_invariant(&self.page_size);
        }
        self.page_size.value()
    }

    pub fn offset(&self) -> (r: usize)
        requires
            page_offset(self@.0, self@.1) <= usize::MAX,
        ensures
            r == page_offset(self@.0, self@.1),
    {
        self.page.offset(self.page_size.value())
    }

    pub fn limit(&self) -> (r: i64)
        ensures
            r == self@.1,
            1 <= r <= MAX_PAGE_SIZE,
    {
        proof {
            use_type_invariant(&self.page_size);
        }
        self.page_size.value() as i64
    }
}

// ---------------------------------------------------------------------------
// Tags
// ---------------------------------------------------------------------------

/// The pieces of `s` between occurrences of `sep`, as `str::split` gives them.
pub open spec fn split_pieces(s: Seq<char>, sep: char) -> Seq<Seq<char>>
    decreases s.len(),
{
    if s.len() == 0 {
        seq![Seq::empty()]
    } else {
        let prev = split_pieces(s.drop_last(), sep);
        if s.last() == sep {
            prev.push(Seq::empty())
        } else {
            prev.update(prev.len() - 1, prev.last().push(s.last()))
        }
    }
}

/// The pieces trimmed, with the empty ones dropped.
pub open spec fn nonblank_trimmed(pieces: Seq<Seq<char>>) -> Seq<Seq<char>>
    decreases pieces.len(),
{
    if pieces.len() == 0 {
        Seq::empty()
    } else {
        let prev = nonblank_trimmed(pieces.drop_last());
        let t = trimmed(pieces.last());
        if t.len() > 0 {
            prev.push(t)
        } else {
            prev
        }
    }
}

/// The tags named by a comma-separated list.
pub open spec fn tag_list(s: Seq<char>) -> Seq<Seq<char>> {
    nonblank_trimmed(split_pieces(s, ','))
}

/// The error of the first tag that is too long or holds markup.
pub open spec fn first_tag_error(tags: Seq<Seq<char>>) -> Option<ValidationErrorView>
    decreases tags.len(),
{
    if tags.len() == 0 {
        None
    } else if length_error(tags[0], 1, 100) is Some {
        length_error(tags[0], 1, 100)
    } else if has_markup(tags[0]) {
        Some(ValidationErrorView::ForbiddenContent(html_message()))
    } else {
        first_tag_error(tags.drop_first())
    }
}

/// The stored tags, or the error, for an optional comma-separated list.
pub open spec fn tag_filter_outcome(input: Option<Seq<char>>) -> Result<
    Seq<Seq<char>>,
    ValidationErrorView,
> {
    if !present(input) {
        Ok(Seq::empty())
    } else {
        let tags = tag_list(input.unwrap());
        if tags.len() > 20 {
            Err(ValidationErrorView::TooLong(20))
        } else if first_tag_error(tags) is Some {
            Err(first_tag_error(tags).unwrap())
        } else {
            Ok(tags)
        }
    }
}

/// The characters of each string.
pub open spec fn strings_view(v: Seq<String>) -> Seq<Seq<char>> {
    v.map_values(|s: String| s@)
}

/// At most 20 tags of 1 to 100 characters each, without markup.
#[derive(Debug, Clone)]
pub struct ValidatedTagFilter {
    tags: Vec<String>,
}

impl View for ValidatedTagFilter {
    type V = Seq<Seq<char>>;

    closed spec fn view(&self) -> Seq<Seq<char>> {
        strings_view(self.tags@)
    }
}

/// The trimmed, non-blank pieces of a comma-separated list.
fn parse_tags(s: &[char]) -> (r: Vec<String>)
    ensures
        strings_view(r@) == tag_list(s@),
{
    let mut out: Vec<String> = Vec::new();
    let mut cur: Vec<char> = Vec::new();
    let ghost mut done: Seq<Seq<char>> = Seq::empty();
    let mut i: usize = 0;
    assert(s@.take(0) =~= Seq::<char>::empty());
    assert(split_pieces(Seq::<char>::empty(), ',') =~= done.push(cur@));
    while i < s.len()
        invariant
            i <= s@.len(),
            split_pieces(s@.take(i as int), ',') == done.push(cur@),
            strings_view(out@) == nonblank_trimmed(done),
        decreases s@.len() - i,
    {
        let c = s[i];
        assert(s@.take(i as int + 1).drop_last() =~= s@.take(i as int));
        assert(s@.take(i as int + 1).last() == c);
        if c == ',' {
            let t = trim_chars(cur.as_slice());
            proof {
                assert(done.push(cur@).drop_last() =~= done);
            }
            if t.len() > 0 {
                let ghost before = out@;
                out.push(string_from_chars(t.as_slice()));
                assert(strings_view(out@) =~= strings_view(before).push(t@));
            }
            proof {
                done = done.push(cur@);
            }
            cur = Vec::new();
            assert(split_pieces(s@.take(i as int + 1), ',') =~= done.push(cur@));
        } else {
            let ghost old_cur = cur@;
            cur.push(c);
            assert(split_pieces(s@.take(i as int + 1), ',') =~= done.push(cur@)) by {
                assert(done.push(old_cur).update(done.len() as int, old_cur.push(c)) =~= done.push(
                    cur@,
                ));
            }
        }
        i = i + 1;
    }
    assert(s@.take(s@.len() as int) =~= s@);
    let t = trim_chars(cur.as_slice());
    proof {
        assert(done.push(cur@).drop_last() =~= done);
    }
    if t.len() > 0 {
        let ghost before = out@;
        out.push(string_from_chars(t.as_slice()));
        assert(strings_view(out@) =~= strings_view(before).push(t@));
    }
    out
}

impl ValidatedTagFilter {
    pub fn new(tags: Option<&str>) -> (r: ValidationResult<Self>)
        ensures
            result_view(&r) == tag_filter_outcome(opt_str(tags)),
    {
        let text = match tags {
            Some(t) => t,
            None => {
                let r = ValidatedTagFilter { tags: Vec::new() };
                assert(r@ =~= Seq::<Seq<char>>::empty());
                return Ok(r);
            },
        };
        let raw = chars_of(text);
        let t = trim_chars(raw.as_slice());
        if t.len() == 0 {
            let r = ValidatedTagFilter { tags: Vec::new() };
            assert(r@ =~= Seq::<Seq<char>>::empty());
            return Ok(r);
        }
        let parsed = parse_tags(raw.as_slice());
        if parsed.len() > 20 {
            return Err(ValidationError::TooLong { max: 20 });
        }
        let ghost all = strings_view(parsed@);
        let mut i: usize = 0;
        assert(all.skip(0) =~= all);
        while i < parsed.len()
            invariant
                i <= parsed@.len(),
                all == strings_view(parsed@),
                all == tag_list(raw@),
                raw@ == text@,
                tags == Some(text),
                present(opt_str(tags)),
                all.len() <= 20,
                first_tag_error(all) == first_tag_error(all.skip(i as int)),
            decreases parsed@.len() - i,
        {
            let tag = chars_of(parsed[i].as_str());
            assert(tag@ == all[i as int]);
            assert(all.skip(i as int).drop_first() =~= all.skip(i as int + 1));
            match validate_length(tag.as_slice(), 1, 100) {
                Err(e) => {
                    return Err(e);
                },
                Ok(()) => {},
            }
            match validate_no_html(tag.as_slice()) {
                Err(e) => {
                    return Err(e);
                },
                Ok(()) => {},
            }
            i = i + 1;
        }
        assert(all.skip(parsed@.len() as int) =~= Seq::<Seq<char>>::empty());
        Ok(ValidatedTagFilter { tags: parsed })
    }

    pub fn tags(&self) -> (r: &[String])
        ensures
            strings_view(r@) == self@,
    {
        self.tags.as_slice()
    }

    pub fn is_empty(&self) -> (r: bool)
        ensures
            r == (self@.len() == 0),
    {
        self.tags.len() == 0
    }
}

// ---------------------------------------------------------------------------
// Dates
// ---------------------------------------------------------------------------

/// An instant in UTC: whole seconds since the Unix epoch and the
/// nanoseconds past that second.
#[derive(Debug, Clone, Copy, PartialEq, Eq, Structural)]
pub struct UtcTimestamp {
    pub seconds: i64,
    pub nanos: u32,
}

/// The instant that `chrono::DateTime::parse_from_rfc3339` reads from a
/// text, as (seconds since the epoch, sub-second nanoseconds), or `None`
/// where it refuses the text.
pub uninterp spec fn rfc3339_instant(s: Seq<char>) -> Option<(i64, u32)>;

/// Calls `chrono::DateTime::parse_from_rfc3339` and reads the instant back
/// with `timestamp` and `timestamp_subsec_nanos`; the contract only names
/// the result, a function of the text alone.
#[verifier::external_body]
pub(crate) fn parse_rfc3339(s: &str) -> (r: Option<(i64, u32)>)
    ensures
        r == rfc3339_instant(s@),
{
    match chrono::DateTime::parse_from_rfc3339(s) {
        Ok(d) => Some((d.timestamp(), d.timestamp_subsec_nanos())),
        Err(_) => None,
    }
}

pub open spec fn date_message() -> Seq<char> {
    "Invalid date format. Use ISO 8601 (RFC 3339)"@
}

/// The stored instant, or the error, for what the RFC 3339 parser gave.
pub open spec fn instant_outcome(parsed: Option<(i64, u32)>) -> Result<
    UtcTimestamp,
    ValidationErrorView,
> {
    match parsed {
        Some((seconds, nanos)) => Ok(UtcTimestamp { seconds, nanos }),
        None => Err(ValidationErrorView::InvalidFormat(date_message())),
    }
}

/// The stored instant, if any, or the error, for an optional date text.
pub open spec fn date_outcome(input: Option<Seq<char>>) -> Result<
    Option<UtcTimestamp>,
    ValidationErrorView,
> {
    if !present(input) {
        Ok(None)
    } else {
        match instant_outcome(rfc3339_instant(input.unwrap())) {
            Ok(t) => Ok(Some(t)),
            Err(e) => Err(e),
        }
    }
}

impl View for UtcTimestamp {
    type V = UtcTimestamp;

    open spec fn view(&self) -> UtcTimestamp {
        *self
    }
}

/// A date bound given in RFC 3339 form.
#[derive(Debug, Clone)]
pub struct ValidatedDateFilter {
    date: UtcTimestamp,
}

impl View for ValidatedDateFilter {
    type V = UtcTimestamp;

    closed spec fn view(&self) -> UtcTimestamp {
        self.date
    }
}

impl ValidatedDateFilter {
    pub fn new(date: Option<&str>) -> (r: ValidationResult<Option<Self>>)
        ensures
            optional_result_view(&r) == date_outcome(opt_str(date)),
    {
        match date {
            Some(d) => {
                let raw = chars_of(d);
                let t = trim_chars(raw.as_slice());
                if t.len() == 0 {
                    return Ok(None);
                }
                match Self::from_instant(parse_rfc3339(d)) {
                    Ok(f) => Ok(Some(f)),
                    Err(e) => Err(e),
                }
            },
            None => Ok(None),
        }
    }

    /// The filter for what the RFC 3339 parser gave.
    pub fn from_instant(parsed: Option<(i64, u32)>) -> (r: ValidationResult<Self>)
        ensures
            result_view(&r) == instant_outcome(parsed),
    {
        match parsed {
            Some((seconds, nanos)) => Ok(ValidatedDateFilter { date: UtcTimestamp { seconds, nanos } }),
            None => Err(invalid_format("Invalid date format. Use ISO 8601 (RFC 3339)")),
        }
    }

    pub fn date(&self) -> (r: UtcTimestamp)
        ensures
            r == self@,
    {
        self.date
    }
}

// ---------------------------------------------------------------------------
// Content type and sort order
// ---------------------------------------------------------------------------

pub open spec fn content_type_message() -> Seq<char> {
    "Content type must be one of: markdown, text, html"@
}

pub open spec fn content_types() -> Seq<&'static str> {
    seq!["markdown", "text", "html"]
}

/// The stored content type, if any, or the error, for an optional input.
pub open spec fn content_type_outcome(input: Option<Seq<char>>) -> Result<
    Option<Seq<char>>,
    ValidationErrorView,
> {
    if !present(input) {
        Ok(None)
    } else {
        let ct = lowercase(trimmed(input.unwrap()));
        if !one_of(ct, content_types()) {
            Err(ValidationErrorView::InvalidFormat(content_type_message()))
        } else {
            Ok(Some(ct))
        }
    }
}

/// A content type among `markdown`, `text` and `html`.
#[derive(Debug, Clone)]
pub struct ValidatedContentType {
    content_type: String,
}

impl View for ValidatedContentType {
    type V = Seq<char>;

    closed spec fn view(&self) -> Seq<char> {
        self.content_type@
    }
}

impl ValidatedContentType {
    pub fn new(content_type: Option<&str>) -> (r: ValidationResult<Option<Self>>)
        ensures
            optional_result_view(&r) == content_type_outcome(opt_str(content_type)),
    {
        let text = match content_type {
            Some(t) => t,
            None => {
                return Ok(None);
            },
        };
        let raw = chars_of(text);
        let t = trim_chars(raw.as_slice());
        if t.len() == 0 {
            return Ok(None);
        }
        let ct = lowercase_chars(t.as_slice());
        let valid: [&'static str; 3] = ["markdown", "text", "html"];
        assert(valid@ =~= content_types());
        if !is_one_of(ct.as_slice(), valid.as_slice()) {
            return Err(invalid_format("Content type must be one of: markdown, text, html"));
        }
        Ok(Some(ValidatedContentType { content_type: string_from_chars(ct.as_slice()) }))
    }

    pub fn as_str(&self) -> (r: &str)
        ensures
            r@ == self@,
    {
        self.content_type.as_str()
    }
}

pub open spec fn sort_field_message() -> Seq<char> {
    "Sort field must be one of: title, created_at, updated_at, published_at, word_count, status, visibility, author_id"@
}

pub open spec fn sort_fields() -> Seq<&'static str> {
    seq![
        "title",
        "created_at",
        "updated_at",
        "published_at",
        "word_count",
        "status",
        "visibility",
        "author_id",
    ]
}

/// The stored field and direction, if any, or the error, for an optional input.
pub open spec fn sort_field_outcome(input: Option<Seq<char>>, descending: bool) -> Result<
    Option<(Seq<char>, bool)>,
    ValidationErrorView,
> {
    if !present(input) {
        Ok(None)
    } else {
        let f = lowercase(trimmed(input.unwrap()));
        if !one_of(f, sort_fields()) {
            Err(ValidationErrorView::InvalidFormat(sort_field_message()))
        } else if !ascii_identifier(f) {
            Err(ValidationErrorView::InvalidFormat(identifier_message()))
        } else {
            Ok(Some((f, descending)))
        }
    }
}

/// A sortable field and a direction.
#[derive(Debug, Clone)]
pub struct ValidatedSortField {
    field: String,
    descending: bool,
}

impl View for ValidatedSortField {
    type V = (Seq<char>, bool);

    closed spec fn view(&self) -> (Seq<char>, bool) {
        (self.field@, self.descending)
    }
}

impl ValidatedSortField {
    pub fn new(field: Option<&str>, descending: bool) -> (r: ValidationResult<Option<Self>>)
        ensures
            optional_result_view(&r) == sort_field_outcome(opt_str(field), descending),
    {
        let text = match field {
            Some(t) => t,
            None => {
                return Ok(None);
            },
        };
        let raw = chars_of(text);
        let t = trim_chars(raw.as_slice());
        if t.len() == 0 {
            return Ok(None);
        }
        let f = lowercase_chars(t.as_slice());
        let valid: [&'static str; 8] = [
            "title",
            "created_at",
            "updated_at",
            "published_at",
            "word_count",
            "status",
            "visibility",
            "author_id",
        ];
        assert(valid@ =~= sort_fields());
        if !is_one_of(f.as_slice(), valid.as_slice()) {
            return Err(
                invalid_format(
                    "Sort field must be one of: title, created_at, updated_at, published_at, word_count, status, visibility, author_id",
                ),
            );
        }
        match validate_ascii_alphanumeric(f.as_slice()) {
            Err(e) => {
                return Err(e);
            },
            Ok(()) => {},
        }
        Ok(Some(ValidatedSortField { field: string_from_chars(f.as_slice()), descending }))
    }

    pub fn field(&self) -> (r: &str)
        ensures
            r@ == self@.0,
    {
        self.field.as_str()
    }

    pub fn is_descending(&self) -> (r: bool)
        ensures
            r == self@.1,
    {
        self.descending
    }
}

// ---------------------------------------------------------------------------
// All search filters together
// ---------------------------------------------------------------------------

pub open spec fn status_message() -> Seq<char> {
    "Status must be one of: draft, published, archived, deleted"@
}

pub open spec fn statuses() -> Seq<&'static str> {
    seq!["draft", "published", "archived", "deleted"]
}

pub open spec fn visibility_message() -> Seq<char> {
    "Visibility must be one of: public, private, restricted"@
}

pub open spec fn visibilities() -> Seq<&'static str> {
    seq!["public", "private", "restricted"]
}

/// A choice among fixed words: absent stays absent; otherwise the trimmed,
/// lowercased text, which must be blank or one of the words.
pub open spec fn choice_outcome(
    input: Option<Seq<char>>,
    options: Seq<&'static str>,
    message: Seq<char>,
) -> Result<Option<Seq<char>>, ValidationErrorView> {
    match input {
        None => Ok(None),
        Some(s) => {
            let l = lowercase(trimmed(s));
            if l.len() > 0 && !one_of(l, options) {
                Err(ValidationErrorView::InvalidFormat(message))
            } else {
                Ok(Some(l))
            }
        },
    }
}

fn validate_choice(input: Option<&str>, options: &[&'static str], message: &str) -> (r:
    ValidationResult<Option<String>>)
    ensures
        optional_result_view(&r) == choice_outcome(opt_str(input), options@, message@),
{
    match input {
        None => Ok(None),
        Some(s) => {
            let raw = chars_of(s);
            let t = trim_chars(raw.as_slice());
            let l = lowercase_chars(t.as_slice());
            if l.len() > 0 && !is_one_of(l.as_slice(), options) {
                Err(invalid_format(message))
            } else {
                Ok(Some(string_from_chars(l.as_slice())))
            }
        },
    }
}

/// The trimmed text, unless absent or blank.
pub open spec fn nonblank(input: Option<Seq<char>>) -> Option<Seq<char>> {
    if present(input) {
        Some(trimmed(input.unwrap()))
    } else {
        None
    }
}

fn trimmed_nonblank(input: Option<&str>) -> (r: Option<String>)
    ensures
        optional_strings(&r) == nonblank(opt_str(input)),
{
    match input {
        None => None,
        Some(s) => {
            let raw = chars_of(s);
            let t = trim_chars(raw.as_slice());
            if t.len() == 0 {
                None
            } else {
                Some(string_from_chars(t.as_slice()))
            }
        },
    }
}

pub open spec fn optional_strings(o: &Option<String>) -> Option<Seq<char>> {
    match o {
        Some(s) => Some(s@),
        None => None,
    }
}

pub open spec fn optional_view<T: View>(o: &Option<T>) -> Option<T::V> {
    match o {
        Some(v) => Some(v@),
        None => None,
    }
}

/// The error of a result, if it is one.
pub open spec fn error_of<T>(r: Result<T, ValidationErrorView>) -> Option<ValidationErrorView> {
    match r {
        Ok(_) => None,
        Err(e) => Some(e),
    }
}

/// The query as `new_optional` treats it.
pub open spec fn optional_query_outcome(input: Option<Seq<char>>) -> Result<
    Option<Seq<char>>,
    ValidationErrorView,
> {
    if present(input) {
        match search_query_outcome(input.unwrap()) {
            Ok(v) => Ok(Some(v)),
            Err(e) => Err(e),
        }
    } else {
        Ok(None)
    }
}

/// The first error among the filters, checked in the order query, status,
/// visibility, content type, tags, start date, end date, sort field.
pub open spec fn filters_error(
    query: Option<Seq<char>>,
    content_type: Option<Seq<char>>,
    status: Option<Seq<char>>,
    visibility: Option<Seq<char>>,
    tags: Option<Seq<char>>,
    date_from: Option<Seq<char>>,
    date_to: Option<Seq<char>>,
    sort_field: Option<Seq<char>>,
    sort_desc: bool,
) -> Option<ValidationErrorView> {
    if error_of(optional_query_outcome(query)) is Some {
        error_of(optional_query_outcome(query))
    } else if error_of(choice_outcome(status, statuses(), status_message())) is Some {
        error_of(choice_outcome(status, statuses(), status_message()))
    } else if error_of(choice_outcome(visibility, visibilities(), visibility_message())) is Some {
        error_of(choice_outcome(visibility, visibilities(), visibility_message()))
    } else if error_of(content_type_outcome(content_type)) is Some {
        error_of(content_type_outcome(content_type))
    } else if error_of(tag_filter_outcome(tags)) is Some {
        error_of(tag_filter_outcome(tags))
    } else if error_of(date_outcome(date_from)) is Some {
        error_of(date_outcome(date_from))
    } else if error_of(date_outcome(date_to)) is Some {
        error_of(date_outcome(date_to))
    } else {
        error_of(sort_field_outcome(sort_field, sort_desc))
    }
}

/// Every search parameter, validated.
#[derive(Debug, Clone)]
pub struct ValidatedSearchFilters {
    pub query: Option<ValidatedSearchQuery>,
    pub pagination: ValidatedPagination,
    pub content_type: Option<ValidatedContentType>,
    pub status: Option<String>,
    pub visibility: Option<String>,
    pub project_id: Option<String>,
    pub author_id: Option<String>,
    pub tags: ValidatedTagFilter,
    pub date_from: Option<ValidatedDateFilter>,
    pub date_to: Option<ValidatedDateFilter>,
    pub sort: Option<ValidatedSortField>,
}

impl ValidatedSearchFilters {
    pub fn validate(
        query: Option<&str>,
        page: Option<usize>,
        page_size: Option<usize>,
        content_type: Option<&str>,
        status: Option<&str>,
        visibility: Option<&str>,
        project_id: Option<&str>,
        author_id: Option<&str>,
        tags: Option<&str>,
        date_from: Option<&str>,
        date_to: Option<&str>,
        sort_field: Option<&str>,
        sort_desc: bool,
    ) -> (r: ValidationResult<Self>)
        ensures
            ({
                let err = filters_error(
                    opt_str(query),
                    opt_str(content_type),
                    opt_str(status),
                    opt_str(visibility),
                    opt_str(tags),
                    opt_str(date_from),
                    opt_str(date_to),
                    opt_str(sort_field),
                    sort_desc,
                );
                match r {
                    Err(e) => err == Some(e@),
                    Ok(f) => {
                        &&& err is None
                        &&& Ok::<_, ValidationErrorView>(optional_view(&f.query)) == optional_query_outcome(opt_str(query))
                        &&& f.pagination@ == (page_value(page), page_size_value(page_size))
                        &&& Ok::<_, ValidationErrorView>(optional_view(&f.content_type)) == content_type_outcome(
                            opt_str(content_type),
                        )
                        &&& Ok::<_, ValidationErrorView>(optional_strings(&f.status)) == choice_outcome(
                            opt_str(status),
                            statuses(),
                            status_message(),
                        )
                        &&& Ok::<_, ValidationErrorView>(optional_strings(&f.visibility)) == choice_outcome(
                            opt_str(visibility),
                            visibilities(),
                            visibility_message(),
                        )
                        &&& optional_strings(&f.project_id) == nonblank(opt_str(project_id))
                        &&& optional_strings(&f.author_id) == nonblank(opt_str(author_id))
                        &&& Ok::<_, ValidationErrorView>(f.tags@) == tag_filter_outcome(opt_str(tags))
                        &&& Ok::<_, ValidationErrorView>(optional_view(&f.date_from)) == date_outcome(opt_str(date_from))
                        &&& Ok::<_, ValidationErrorView>(optional_view(&f.date_to)) == date_outcome(opt_str(date_to))
                        &&& Ok::<_, ValidationErrorView>(optional_view(&f.sort)) == sort_field_outcome(
                            opt_str(sort_field),
                            sort_desc,
                        )
                    },
                }
            }),
    {
        let validated_query = match ValidatedSearchQuery::new_optional(query) {
            Ok(q) => q,
            Err(e) => {
                return Err(e);
            },
        };
        let statuses_list: [&'static str; 4] = ["draft", "published", "archived", "deleted"];
        assert(statuses_list@ =~= statuses());
        let validated_status = match validate_choice(
            status,
            statuses_list.as_slice(),
            "Status must be one of: draft, published, archived, deleted",
        ) {
            Ok(s) => s,
            Err(e) => {
                return Err(e);
            },
        };
        let visibility_list: [&'static str; 3] = ["public", "private", "restricted"];
        assert(visibility_list@ =~= visibilities());
        let validated_visibility = match validate_choice(
            visibility,
            visibility_list.as_slice(),
            "Visibility must be one of: public, private, restricted",
        ) {
            Ok(v) => v,
            Err(e) => {
                return Err(e);
            },
        };
        let pagination = ValidatedPagination::new(page, page_size);
        let validated_content_type = match ValidatedContentType::new(content_type) {
            Ok(c) => c,
            Err(e) => {
                return Err(e);
            },
        };
        let project = trimmed_nonblank(project_id);
        let author = trimmed_nonblank(author_id);
        let validated_tags = match ValidatedTagFilter::new(tags) {
            Ok(t) => t,
            Err(e) => {
                return Err(e);
            },
        };
        let from = match ValidatedDateFilter::new(date_from) {
            Ok(d) => d,
            Err(e) => {
                return Err(e);
            },
        };
        let to = match ValidatedDateFilter::new(date_to) {
            Ok(d) => d,
            Err(e) => {
                return Err(e);
            },
        };
        let sort = match ValidatedSortField::new(sort_field, sort_desc) {
            Ok(s) => s,
            Err(e) => {
                return Err(e);
            },
        };
        Ok(
            ValidatedSearchFilters {
                query: validated_query,
                pagination,
                content_type: validated_content_type,
                status: validated_status,
                visibility: validated_visibility,
                project_id: project,
                author_id: author,
                tags: validated_tags,
                date_from: from,
                date_to: to,
                sort,
            },
        )
    }
}

} // verus!
