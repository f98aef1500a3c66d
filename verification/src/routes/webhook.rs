//! Webhook registration requests and responses.

use vstd::prelude::*;
use crate::text::owned;

verus! {

#[derive(Debug)]
pub struct WebhookResponse {
    pub id: String,
    pub url: String,
    pub events: Vec<String>,
    pub active: bool,
    pub created_at: String,
    pub last_triggered_at: Option<String>,
}

#[derive(Debug)]
pub struct CreateWebhookBody {
    pub url: String,
    pub events: Vec<String>,
    pub secret: Option<String>,
}

#[derive(Debug)]
pub struct ErrorResponse {
    pub code: String,
    pub message: String,
}

/// A webhook must subscribe to at least one event.
pub fn validate_webhook_body(body: &CreateWebhookBody) -> (r: Result<(), ErrorResponse>)
    ensures
        body.events@.len() == 0 ==> (r matches Err(e) && e.code@ == "VALIDATION_ERROR"@ && e.message@
            == "At least one event must be specified"@),
        body.events@.len() > 0 ==> r is Ok,
{
    if body.events.len() == 0 {
        Err(ErrorResponse {
            code: owned("VALIDATION_ERROR"),
            message: owned("At least one event must be specified"),
        })
    } else {
        Ok(())
    }
}

} // verus!
