//! Document review requests and responses.

use crate::text::{chars_of, eq_str, owned, push_str};
use vstd::prelude::*;

verus! {

broadcast use vstd::string::group_string_axioms;

#[derive(Debug)]
pub struct ReviewResponse {
    pub id: String,
    pub document_id: String,
    pub version_number: i32,
    pub status: String,
    pub reviewer_id: String,
    pub summary: Option<String>,
    pub created_at: String,
    pub resolved_at: Option<String>,
}

#[derive(Debug)]
pub struct CommentResponse {
    pub id: String,
    pub review_id: String,
    pub author_id: String,
    pub content: String,
    pub created_at: String,
    pub line_number: Option<i32>,
    pub section: Option<String>,
}

#[derive(Debug)]
pub struct CreateReviewBody {
    pub version_number: Option<i32>,
    pub reviewer_id: String,
    pub summary: Option<String>,
}

#[derive(Debug)]
pub struct UpdateReviewBody {
    pub status: String,
    pub summary: Option<String>,
}

#[derive(Debug)]
pub struct CreateCommentBody {
    pub author_id: String,
    pub content: String,
    pub line_number: Option<i32>,
    pub section: Option<String>,
}

#[derive(Debug)]
pub struct ReviewStatusResponse {
    pub pending_count: i64,
    pub latest_status: Option<String>,
    pub approval_threshold: Option<i32>,
    pub approved_count: Option<i64>,
    pub is_fully_approved: Option<bool>,
}

/// The states a review can be moved to.
#[derive(Debug, Clone, Copy, PartialEq, Eq, Structural)]
pub enum ReviewStatusChange {
    Approved,
    Rejected,
    ChangesRequested,
    Cancelled,
}

/// The state a review update names, if it is one a review can be moved to.
pub open spec fn review_status_of(s: Seq<char>) -> Option<ReviewStatusChange> {
    if s == "approved"@ {
        Some(ReviewStatusChange::Approved)
    } else if s == "rejected"@ {
        Some(ReviewStatusChange::Rejected)
    } else if s == "changes_requested"@ {
        Some(ReviewStatusChange::ChangesRequested)
    } else if s == "cancelled"@ {
        Some(ReviewStatusChange::Cancelled)
    } else {
        None
    }
}

/// The new state of a review update, or the bad-request message naming the
/// unknown state.
pub fn parse_review_status(status: &str) -> (r: Result<ReviewStatusChange, String>)
    ensures
        match review_status_of(status@) {
            Some(c) => r == Ok::<ReviewStatusChange, String>(c),
            None => r matches Err(m) && m@ == "Invalid review status: "@ + status@,
        },
{
    let s = chars_of(status);
    if eq_str(s.as_slice(), "approved") {
        Ok(ReviewStatusChange::Approved)
    } else if eq_str(s.as_slice(), "rejected") {
        Ok(ReviewStatusChange::Rejected)
    } else if eq_str(s.as_slice(), "changes_requested") {
        Ok(ReviewStatusChange::ChangesRequested)
    } else if eq_str(s.as_slice(), "cancelled") {
        Ok(ReviewStatusChange::Cancelled)
    } else {
        let mut m = owned("Invalid review status: ");
        push_str(&mut m, status);
        Err(m)
    }
}

/// The event and notification kind sent when a review is updated.
pub open spec fn review_update_event(status: Seq<char>) -> Seq<char> {
    if status == "approved"@ {
        "review_approved"@
    } else if status == "rejected"@ {
        "review_rejected"@
    } else {
        "review_updated"@
    }
}

pub fn review_update_event_type(status: &str) -> (r: &'static str)
    ensures
        r@ == review_update_event(status@),
{
    let s = chars_of(status);
    if eq_str(s.as_slice(), "approved") {
        "review_approved"
    } else if eq_str(s.as_slice(), "rejected") {
        "review_rejected"
    } else {
        "review_updated"
    }
}

/// The version a new review is for: the one given, else the first.
pub fn review_version(version_number: Option<i32>) -> (r: i32)
    ensures
        r == match version_number {
            Some(v) => v,
            None => 1,
        },
{
    match version_number {
        Some(v) => v,
        None => 1,
    }
}

/// The number of approvals after which a document counts as fully approved.
pub fn approval_threshold() -> (r: i32)
    ensures
        r == 2,
{
    2
}

/// The title of the notification sent to the person asked to approve.
pub fn review_request_title(document_id: &str) -> (r: String)
    ensures
        r@ == "Review requested on "@ + document_id@,
{
    let mut t = owned("Review requested on ");
    push_str(&mut t, document_id);
    t
}

/// The link in the notification sent to the person asked to approve.
pub fn review_request_link(document_id: &str, review_id: &str) -> (r: String)
    ensures
        r@ == "/documents/"@ + document_id@ + "/reviews/"@ + review_id@,
{
    let mut t = owned("/documents/");
    push_str(&mut t, document_id);
    push_str(&mut t, "/reviews/");
    push_str(&mut t, review_id);
    t
}

/// The title of the notification sent when a review changes state.
pub fn review_update_title(status: &str) -> (r: String)
    ensures
        r@ == "Review "@ + status@ + " for document"@,
{
    let mut t = owned("Review ");
    push_str(&mut t, status);
    push_str(&mut t, " for document");
    t
}

/// The link in the notification sent when a review changes state.
pub fn review_update_link(review_id: &str) -> (r: String)
    ensures
        r@ == "/reviews/"@ + review_id@,
{
    let mut t = owned("/reviews/");
    push_str(&mut t, review_id);
    t
}

} // verus!
