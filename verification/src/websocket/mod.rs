//! Real-time collaboration: edit transforms, document state, message types
//! and the decisions of the connection managers.

pub mod crdt_handler;
pub mod handler;
pub mod operational_transform;
pub mod redis_relay;
pub mod types;
