//! HTTP route types and the decisions behind the handlers.

pub mod password_reset;
pub mod plugin;
pub mod repository;
pub mod review;
pub mod role;
pub mod scim;
pub mod search;
pub mod session;
pub mod siem;
pub mod signup;
pub mod space;
pub mod ssg;
pub mod tags;
pub mod team;
pub mod user;
pub mod v2;
pub mod webhook;
