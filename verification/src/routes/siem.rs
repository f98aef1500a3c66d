//! Audit-log export queries, the CEF and LEEF line formats, and the paging
//! of the audit list.

use crate::routes::scim::JsonValue;
use crate::routes::search::{page_of, results_page};
use crate::text::{chars_eq, chars_of, eq_str, owned, push_str, to_lowercase, lowercase};
use vstd::prelude::*;

verus! {

broadcast use vstd::string::group_string_axioms;

#[derive(Debug)]
pub struct ExportQuery {
    pub format: Option<String>,
    pub from: Option<String>,
    pub to: Option<String>,
    pub severity: Option<String>,
    pub event_type: Option<String>,
}

#[derive(Debug)]
pub struct AuditListQuery {
    pub page: Option<u32>,
    pub page_size: Option<u32>,
    pub action: Option<String>,
    pub actor_id: Option<String>,
}

/// One audit event as it is exported.
#[derive(Debug)]
pub struct AuditEventExport {
    pub id: String,
    pub timestamp: String,
    pub event_type: String,
    pub severity: String,
    pub user_id: Option<String>,
    pub ip_address: Option<String>,
    pub description: String,
    pub metadata: JsonValue,
}

/// The CEF severity number of a severity name; unknown names rank lowest.
pub open spec fn cef_severity(severity: Seq<char>) -> Seq<char> {
    if severity == "critical"@ {
        "10"@
    } else if severity == "high"@ {
        "8"@
    } else if severity == "medium"@ {
        "5"@
    } else if severity == "low"@ {
        "3"@
    } else {
        "1"@
    }
}

/// The text of an optional field, `-` when it is absent.
pub open spec fn or_dash(o: Option<String>) -> Seq<char> {
    match o {
        Some(s) => s@,
        None => "-"@,
    }
}

/// The CEF line of an event.
pub open spec fn cef_line(e: AuditEventExport) -> Seq<char> {
    "CEF:0|Tachyon|Audit|1.0|"@ + e.event_type@ + "|"@ + e.description@ + "|"@ + cef_severity(
        e.severity@,
    ) + "|src="@ + or_dash(e.ip_address) + " dst=Tachyon"@
}

/// The LEEF line of an event.
pub open spec fn leef_line(e: AuditEventExport) -> Seq<char> {
    "LEEF:2.0|Tachyon|Audit|1.0|"@ + e.event_type@ + "|sev="@ + e.severity@ + " src="@ + or_dash(
        e.ip_address,
    ) + " usrName="@ + or_dash(e.user_id) + " msg="@ + e.description@
}

fn cef_severity_text(severity: &str) -> (r: &'static str)
    ensures
        r@ == cef_severity(severity@),
{
    let s = chars_of(severity);
    if eq_str(s.as_slice(), "critical") {
        "10"
    } else if eq_str(s.as_slice(), "high") {
        "8"
    } else if eq_str(s.as_slice(), "medium") {
        "5"
    } else if eq_str(s.as_slice(), "low") {
        "3"
    } else {
        "1"
    }
}

fn text_or_dash(o: &Option<String>) -> (r: &str)
    ensures
        r@ == or_dash(*o),
{
    match o {
        Some(s) => s.as_str(),
        None => "-",
    }
}

/// The event in Common Event Format.
pub fn to_cef(event: &AuditEventExport) -> (r: String)
    ensures
        r@ == cef_line(*event),
{
    let mut out = owned("CEF:0|Tachyon|Audit|1.0|");
    push_str(&mut out, event.event_type.as_str());
    push_str(&mut out, "|");
    push_str(&mut out, event.description.as_str());
    push_str(&mut out, "|");
    push_str(&mut out, cef_severity_text(event.severity.as_str()));
    push_str(&mut out, "|src=");
    push_str(&mut out, text_or_dash(&event.ip_address));
    push_str(&mut out, " dst=Tachyon");
    out
}

/// The event in Log Event Extended Format.
pub fn to_leef(event: &AuditEventExport) -> (r: String)
    ensures
        r@ == leef_line(*event),
{
    let mut out = owned("LEEF:2.0|Tachyon|Audit|1.0|");
    push_str(&mut out, event.event_type.as_str());
    push_str(&mut out, "|sev=");
    push_str(&mut out, event.severity.as_str());
    push_str(&mut out, " src=");
    push_str(&mut out, text_or_dash(&event.ip_address));
    push_str(&mut out, " usrName=");
    push_str(&mut out, text_or_dash(&event.user_id));
    push_str(&mut out, " msg=");
    push_str(&mut out, event.description.as_str());
    out
}

/// The formats an export can be written in.
#[derive(Debug, Clone, Copy, PartialEq, Eq, Structural)]
pub enum ExportFormat {
    Cef,
    Leef,
    Json,
}

/// The format an export request asks for: its `format` lowercased, JSON
/// when absent or unknown.
pub open spec fn export_format_of(format: Option<Seq<char>>) -> ExportFormat {
    let f = match format {
        Some(s) => lowercase(s),
        None => lowercase("json"@),
    };
    if f == "cef"@ {
        ExportFormat::Cef
    } else if f == "leef"@ {
        ExportFormat::Leef
    } else {
        ExportFormat::Json
    }
}

pub fn export_format(format: Option<&str>) -> (r: ExportFormat)
    ensures
        r == export_format_of(
            match format {
                Some(s) => Some(s@),
                None => None,
            },
        ),
{
    let lowered = match format {
        Some(s) => to_lowercase(s),
        None => to_lowercase("json"),
    };
    let f = chars_of(lowered.as_str());
    if eq_str(f.as_slice(), "cef") {
        ExportFormat::Cef
    } else if eq_str(f.as_slice(), "leef") {
        ExportFormat::Leef
    } else {
        ExportFormat::Json
    }
}

/// The lines joined by newlines, as `join("\n")` gives them.
pub open spec fn joined_lines(lines: Seq<Seq<char>>) -> Seq<char>
    decreases lines.len(),
{
    if lines.len() == 0 {
        Seq::empty()
    } else if lines.len() == 1 {
        lines[0]
    } else {
        joined_lines(lines.drop_last()) + "\n"@ + lines.last()
    }
}

/// The text body of a CEF or LEEF export: one line per event.
pub open spec fn export_lines(events: Seq<AuditEventExport>, format: ExportFormat) -> Seq<Seq<char>> {
    events.map_values(
        |e: AuditEventExport|
            if format == ExportFormat::Cef {
                cef_line(e)
            } else {
                leef_line(e)
            },
    )
}

pub fn export_text(events: &[AuditEventExport], format: ExportFormat) -> (r: String)
    requires
        format != ExportFormat::Json,
    ensures
        r@ == joined_lines(export_lines(events@, format)),
{
    let mut out = String::new();
    let mut i: usize = 0;
    assert(export_lines(events@.take(0), format) =~= Seq::<Seq<char>>::empty());
    while i < events.len()
        invariant
            i <= events@.len(),
            out@ == joined_lines(export_lines(events@.take(i as int), format)),
        decreases events@.len() - i,
    {
        let line = if format == ExportFormat::Cef {
            to_cef(&events[i])
        } else {
            to_leef(&events[i])
        };
        let ghost prev = export_lines(events@.take(i as int), format);
        assert(export_lines(events@.take(i as int + 1), format) =~= prev.push(line@));
        assert(export_lines(events@.take(i as int + 1), format).drop_last() =~= prev);
        if i > 0 {
            push_str(&mut out, "\n");
        } else {
            assert(out@ =~= Seq::<char>::empty());
        }
        push_str(&mut out, line.as_str());
        proof {
            if i == 0 {
                assert(out@ =~= line@);
            }
        }
        i = i + 1;
    }
    assert(events@.take(events@.len() as int) =~= events@);
    out
}

/// The page and page size of an audit list request: page at least 1,
/// page size between 1 and 100, defaults 1 and 20.
#[derive(Debug, Clone, Copy, PartialEq, Eq, Structural)]
pub struct AuditWindow {
    pub page: u32,
    pub page_size: u32,
}

pub open spec fn audit_page(page: Option<u32>) -> u32 {
    match page {
        Some(p) => if p < 1 { 1 } else { p },
        None => 1,
    }
}

pub open spec fn audit_page_size(page_size: Option<u32>) -> u32 {
    match page_size {
        Some(s) => if s < 1 { 1 } else if s > 100 { 100 } else { s },
        None => 20,
    }
}

pub fn audit_window(query: &AuditListQuery) -> (r: AuditWindow)
    ensures
        r.page == audit_page(query.page),
        r.page_size == audit_page_size(query.page_size),
{
    let page = match query.page {
        Some(p) => if p < 1 { 1 } else { p },
        None => 1,
    };
    let page_size = match query.page_size {
        Some(s) => if s < 1 { 1 } else if s > 100 { 100 } else { s },
        None => 20,
    };
    AuditWindow { page, page_size }
}

/// Whether an audit entry passes the list filters: its action equals the
/// requested one, and its actor the requested actor, where they are given.
pub open spec fn audit_entry_matches(
    action: Seq<char>,
    actor_id: Option<Seq<char>>,
    want_action: Option<Seq<char>>,
    want_actor: Option<Seq<char>>,
) -> bool {
    &&& (want_action matches Some(a) ==> action == a)
    &&& (want_actor matches Some(w) ==> actor_id == Some(w))
}

pub fn audit_entry_passes(
    action: &str,
    actor_id: Option<&str>,
    want_action: Option<&str>,
    want_actor: Option<&str>,
) -> (r: bool)
    ensures
        r == audit_entry_matches(
            action@,
            match actor_id {
                Some(s) => Some(s@),
                None => None,
            },
            match want_action {
                Some(s) => Some(s@),
                None => None,
            },
            match want_actor {
                Some(s) => Some(s@),
                None => None,
            },
        ),
{
    if let Some(a) = want_action {
        let x = chars_of(action);
        let y = chars_of(a);
        if !chars_eq(x.as_slice(), y.as_slice()) {
            return false;
        }
    }
    if let Some(w) = want_actor {
        match actor_id {
            None => {
                return false;
            },
            Some(id) => {
                let x = chars_of(id);
                let y = chars_of(w);
                if !chars_eq(x.as_slice(), y.as_slice()) {
                    return false;
                }
            },
        }
    }
    true
}

/// The entries on the requested page of the filtered audit list.
pub fn audit_entries_page<T>(entries: Vec<T>, window: AuditWindow) -> (r: Vec<T>)
    requires
        window.page >= 1,
        window.page_size >= 1,
        (window.page - 1) * window.page_size <= u32::MAX,
    ensures
        r@ == page_of(entries@, window.page as i64, window.page_size as i64),
{
    results_page(entries, window.page as i64, window.page_size as i64)
}

} // verus!
