//! Static-site build requests and responses.

use vstd::prelude::*;
use crate::routes::scim::{json_str, JsonValue};
use crate::text::{decimal, decimal_text, owned, push_str};

verus! {

broadcast use vstd::string::group_string_axioms;

/// SSG site configuration request
#[derive(Debug)]
pub struct SsgBuildRequest {
    pub title: Option<String>,
    pub description: Option<String>,
    pub base_url: Option<String>,
    pub theme: Option<String>,
    pub custom_css: Option<String>,
    pub nav_links: Option<Vec<SsgNavLink>>,
    pub group_by_tag: Option<bool>,
    pub project_id: Option<String>,
    pub limit: Option<usize>,
}

/// SSG configuration response
#[derive(Debug)]
pub struct SsgConfigResponse {
    pub site_title: String,
    pub site_description: String,
    pub base_url: String,
    pub theme: String,
    pub nav_links: Vec<SsgNavLink>,
}

/// Navigation link in SSG config
#[derive(Debug, Clone)]
pub struct SsgNavLink {
    pub label: String,
    pub href: String,
}

/// SSG build response
#[derive(Debug)]
pub struct SsgBuildResponse {
    pub success: bool,
    pub result: SsgBuildResultWrapper,
}

/// Wrapper for BuildResult to use in JSON
#[derive(Debug)]
pub struct SsgBuildResultWrapper {
    pub pages: usize,
    pub category_pages: usize,
    pub total_files: usize,
    pub build_time_ms: u64,
    pub output_size_bytes: u64,
    pub generated_pages: Vec<String>,
}

/// Error response
#[derive(Debug)]
pub struct SsgErrorResponse {
    pub code: String,
    pub message: String,
}

/// The site settings served when none are stored.
pub fn get_ssg_config() -> (r: SsgConfigResponse)
    ensures
        r.site_title@ == "Tachyon"@,
        r.site_description@ == "A deterministic, high-performance knowledge management system"@,
        r.base_url@ == "http://localhost:8080"@,
        r.theme@ == "auto"@,
        r.nav_links@.len() == 0,
{
    SsgConfigResponse {
        site_title: owned("Tachyon"),
        site_description: owned("A deterministic, high-performance knowledge management system"),
        base_url: owned("http://localhost:8080"),
        theme: owned("auto"),
        nav_links: Vec::new(),
    }
}

/// The settings a site is generated with.
#[derive(Debug)]
pub struct SiteSettings {
    pub title: String,
    pub description: String,
    pub base_url: String,
    pub theme: String,
    pub custom_css: Option<String>,
    pub nav_links: Vec<SsgNavLink>,
    pub group_by_tag: bool,
}

pub open spec fn or_default(o: Option<String>, d: Seq<char>) -> Seq<char> {
    match o {
        Some(s) => s@,
        None => d,
    }
}

fn text_or(o: Option<String>, d: &str) -> (r: String)
    ensures
        r@ == or_default(o, d@),
{
    match o {
        Some(s) => s,
        None => owned(d),
    }
}

/// The build request's settings, with the documented defaults for those it
/// leaves out.
pub fn site_settings(req: SsgBuildRequest) -> (r: SiteSettings)
    ensures
        r.title@ == or_default(req.title, "Tachyon Docs"@),
        r.description@ == or_default(req.description, "A knowledge base built with Tachyon"@),
        r.base_url@ == or_default(req.base_url, "https://docs.example.com"@),
        r.theme@ == or_default(req.theme, "auto"@),
        r.custom_css == req.custom_css,
        r.nav_links@ == match req.nav_links {
            Some(l) => l@,
            None => Seq::<SsgNavLink>::empty(),
        },
        r.group_by_tag == match req.group_by_tag {
            Some(g) => g,
            None => false,
        },
{
    let ghost old_req = req;
    SiteSettings {
        title: text_or(req.title, "Tachyon Docs"),
        description: text_or(req.description, "A knowledge base built with Tachyon"),
        base_url: text_or(req.base_url, "https://docs.example.com"),
        theme: text_or(req.theme, "auto"),
        custom_css: req.custom_css,
        nav_links: match req.nav_links {
            Some(l) => l,
            None => Vec::new(),
        },
        group_by_tag: match req.group_by_tag {
            Some(g) => g,
            None => false,
        },
    }
}

/// The number of documents a build reads: the requested limit, or ten
/// thousand when none (or zero) is given.
pub fn document_limit(limit: Option<usize>) -> (r: u64)
    ensures
        r == match limit {
            Some(l) => if l > 0 { l as u64 } else { 10000u64 },
            None => 10000u64,
        },
{
    match limit {
        Some(l) => if l > 0 { l as u64 } else { 10000 },
        None => 10000,
    }
}

/// The query for the published documents of a build, newest first,
/// optionally of one project.
pub fn documents_query(project_id: Option<&str>, limit: u64) -> (r: String)
    ensures
        r@ == "SELECT id::text, title, slug, content, description, tags, created_at, updated_at FROM documents WHERE status = 'published' "@
            + match project_id {
                Some(p) => "AND project_id = '"@ + p@ + "'::uuid "@,
                None => Seq::<char>::empty(),
            } + "ORDER BY updated_at DESC LIMIT "@ + decimal(limit as nat),
{
    let mut q = owned(
        "SELECT id::text, title, slug, content, description, tags, created_at, updated_at FROM documents WHERE status = 'published' ",
    );
    let ghost head = q@;
    match project_id {
        Some(p) => {
            push_str(&mut q, "AND project_id = '");
            push_str(&mut q, p);
            push_str(&mut q, "'::uuid ");
        },
        None => {
            assert(head + Seq::<char>::empty() =~= head);
        },
    }
    push_str(&mut q, "ORDER BY updated_at DESC LIMIT ");
    push_str(&mut q, decimal_text(limit).as_str());
    q
}

/// The strings of a JSON array of tags, in order; anything else gives none.
pub open spec fn string_tags(tags: Option<JsonValue>) -> Seq<Seq<char>> {
    match tags {
        Some(JsonValue::Array(items)) => items@.filter(|v: JsonValue| json_str(v) is Some).map_values(
            |v: JsonValue| json_str(v).unwrap(),
        ),
        _ => Seq::empty(),
    }
}

pub fn document_tags(tags: &Option<JsonValue>) -> (r: Vec<String>)
    ensures
        r@.map_values(|s: String| s@) == string_tags(*tags),
{
    let mut out: Vec<String> = Vec::new();
    match tags {
        Some(JsonValue::Array(items)) => {
            let ghost pred = |v: JsonValue| json_str(v) is Some;
            let ghost f = |v: JsonValue| json_str(v).unwrap();
            let mut i: usize = 0;
            while i < items.len()
                invariant
                    i <= items@.len(),
                    pred == (|v: JsonValue| json_str(v) is Some),
                    f == (|v: JsonValue| json_str(v).unwrap()),
                    out@.map_values(|s: String| s@) == items@.take(i as int).filter(pred).map_values(f),
                decreases items@.len() - i,
            {
                proof {
                    assert(items@.take(i as int + 1) =~= items@.take(i as int).push(items@[i as int]));
                    items@.take(i as int).lemma_filter_push(items@[i as int], pred);
                }
                match &items[i] {
                    JsonValue::String(s) => {
                        let ghost before = out@;
                        out.push(s.clone());
                        assert(out@.map_values(|s: String| s@) =~= before.map_values(|s: String| s@).push(
                            s@,
                        ));
                        assert(items@.take(i as int).filter(pred).push(items@[i as int]).map_values(f)
                            =~= items@.take(i as int).filter(pred).map_values(f).push(s@));
                    },
                    _ => {},
                }
                i = i + 1;
            }
            assert(items@.take(items@.len() as int) =~= items@);
        },
        _ => {
            assert(out@.map_values(|s: String| s@) =~= Seq::<Seq<char>>::empty());
        },
    }
    out
}

/// The refusal of a build with nothing to publish.
pub fn no_documents() -> (r: SsgErrorResponse)
    ensures
        r.code@ == "NO_DOCUMENTS"@,
        r.message@ == "No documents found to generate site"@,
{
    SsgErrorResponse { code: owned("NO_DOCUMENTS"), message: owned("No documents found to generate site") }
}

/// The download's `Content-Disposition` header.
pub fn download_disposition() -> (r: &'static str)
    ensures
        r@ == "attachment; filename=\"tachyon-site.zip\""@,
{
    "attachment; filename=\"tachyon-site.zip\""
}

} // verus!
