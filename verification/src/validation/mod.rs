//! Input validation: every value that reaches the server from a user passes
//! through one of the validated wrappers defined here.

pub mod common;
pub mod search;
pub mod user;
