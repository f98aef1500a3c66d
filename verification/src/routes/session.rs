//! Session responses.

use vstd::prelude::*;
use crate::routes::scim::JsonValue;

verus! {

#[derive(Debug)]
pub struct CreateSessionRequest {
    pub user_id: String,
    pub metadata: Option<JsonValue>,
}

#[derive(Debug)]
pub struct SessionResponse {
    pub id: String,
    pub user_id: String,
    pub metadata: Option<JsonValue>,
    pub created_at: String,
}

#[derive(Debug)]
pub struct SessionListResponse {
    pub sessions: Vec<SessionResponse>,
    pub total: usize,
}

#[derive(Debug)]
pub struct SessionErrorResponse {
    pub code: String,
    pub message: String,
}

} // verus!
