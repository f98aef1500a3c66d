//! Tachyon server logic: input validation, collaborative editing state,
//! authentication helpers, identity-provider plumbing and request types.

pub mod crypto;
pub mod filters;
pub mod routes;
pub mod storage;
pub mod sso;
pub mod sync;
pub mod table;
pub mod text;
pub mod totp;
pub mod truelayer;
pub mod validation;
pub mod webhook_delivery;
pub mod websocket;

use vstd::prelude::*;

verus! {

} // verus!
