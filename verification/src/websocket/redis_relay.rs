//! Names of the pub/sub channels that relay room traffic between server
//! instances.

use vstd::prelude::*;
use crate::text::{owned, push_str};

verus! {

broadcast use vstd::string::group_string_axioms;

/// Prefix of every room channel.
pub const CHANNEL_PREFIX: &'static str = "tachyon:room:";

/// A message relayed between instances for a room.
#[derive(Debug, Clone)]
pub struct RelayMessage {
    pub room: String,
    pub data: Vec<u8>,
    pub origin_instance: String,
}

/// The channel that carries a room's traffic: the prefix followed by the
/// room name.
pub fn room_channel(room: &str) -> (r: String)
    ensures
        r@ == CHANNEL_PREFIX@ + room@,
{
    let mut channel = owned(CHANNEL_PREFIX);
    push_str(&mut channel, room);
    channel
}

} // verus!
