//! Message and presence types exchanged over the collaboration socket.

use vstd::prelude::*;

verus! {

/// The kind of a collaboration message.
#[derive(Debug, Clone, Copy, PartialEq, Eq, Structural)]
pub enum MessageType {
    Edit,
    Activity,
    Presence,
    Join,
    Leave,
    Notification,
}

/// An edit sent by a client, against the document version it last saw.
#[derive(Debug, Clone)]
pub struct DocumentEdit {
    pub operation_id: String,
    pub operation: EditOperation,
    pub version: u64,
}

/// An edit as clients send it; a replacement is a deletion followed by an
/// insertion at the same position.
#[derive(Debug, Clone)]
pub enum EditOperation {
    Insert { position: usize, text: String },
    Delete { position: usize, length: usize },
    Replace { position: usize, length: usize, text: String },
}

/// Who is looking at a document.
#[derive(Debug, Clone)]
pub struct PresenceUpdate {
    pub document_id: String,
    pub users: Vec<PresenceUser>,
}

#[derive(Debug, Clone)]
pub struct PresenceUser {
    pub user_id: String,
    pub user_name: String,
    pub cursor_position: usize,
    pub selection: Option<SelectionRange>,
    pub color: Option<String>,
}

#[derive(Debug, Clone, Copy, PartialEq, Eq, Structural)]
pub struct SelectionRange {
    pub start: usize,
    pub end: usize,
}

/// Presence information for a document.
#[derive(Debug, Clone)]
pub struct PresenceInfo {
    pub user_id: String,
    pub username: String,
    pub status: PresenceStatus,
    pub cursor_pos: Option<(usize, usize)>,
    pub last_seen: u64,
}

#[derive(Debug, Clone, Copy, PartialEq, Eq, Structural)]
pub enum PresenceStatus {
    Active,
    Idle,
    Away,
}

/// The presence status of a client idle for `idle_secs` seconds: active
/// under half a minute, idle under five minutes, away after that.
pub open spec fn status_for_idle(idle_secs: u64) -> PresenceStatus {
    if idle_secs < 30 {
        PresenceStatus::Active
    } else if idle_secs < 300 {
        PresenceStatus::Idle
    } else {
        PresenceStatus::Away
    }
}

impl PresenceStatus {
    /// The status of a client idle for `idle_secs` seconds.
    pub fn from_idle_secs(idle_secs: u64) -> (r: Self)
        ensures
            r == status_for_idle(idle_secs),
    {
        if idle_secs < 30 {
            PresenceStatus::Active
        } else if idle_secs < 300 {
            PresenceStatus::Idle
        } else {
            PresenceStatus::Away
        }
    }
}

/// How often the server pings a client and how long it waits for the pong.
#[derive(Debug, Clone, PartialEq, Eq, Structural)]
pub struct HeartbeatConfig {
    pub interval_secs: u64,
    pub timeout_secs: u64,
    pub enabled: bool,
}

impl Default for HeartbeatConfig {
    fn default() -> (r: Self)
        ensures
            r == (HeartbeatConfig { interval_secs: 30, timeout_secs: 10, enabled: true }),
    {
        HeartbeatConfig { interval_secs: 30, timeout_secs: 10, enabled: true }
    }
}

/// Heartbeat frames.
#[derive(Debug, Clone, Copy, PartialEq, Eq, Structural)]
pub enum HeartbeatMessage {
    Ping { timestamp: u64 },
    Pong { timestamp: u64 },
}

} // verus!
