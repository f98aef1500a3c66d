//! The binary relay for y-websocket collaboration: message framing and the
//! decisions taken for each frame a client sends or the relay delivers.
//!
//! Byte 0 of a frame is its type: 0 sync, 1 awareness, 2 selection,
//! 3 delta-sync request; the rest is the payload.

use vstd::prelude::*;
use crate::text::{chars_eq, chars_of, owned};
use crate::table::Table;
use crate::validation::search::strings_view;
use crate::filters::{lemma_filter_agree, lemma_filter_all, lemma_filter_twice};
use crate::websocket::types::{PresenceInfo, PresenceStatus, status_for_idle};

verus! {

/// Header of a sync step 1 frame (full state).
pub open spec fn sync_step1_header() -> Seq<u8> {
    seq![0u8, 1u8]
}

/// Header of a sync step 2 frame (diff response).
pub open spec fn sync_step2_header() -> Seq<u8> {
    seq![0u8, 2u8]
}

fn framed(header: u8, payload: &[u8]) -> (r: Vec<u8>)
    ensures
        r@ == seq![0u8, header] + payload@,
{
    let mut msg: Vec<u8> = Vec::new();
    msg.push(0);
    msg.push(header);
    let mut i: usize = 0;
    while i < payload.len()
        invariant
            i <= payload@.len(),
            msg@ == seq![0u8, header] + payload@.take(i as int),
        decreases payload@.len() - i,
    {
        msg.push(payload[i]);
        assert(payload@.take(i as int + 1) == payload@.take(i as int).push(payload@[i as int]));
        i = i + 1;
    }
    assert(payload@.take(payload@.len() as int) =~= payload@);
    msg
}

/// The frame that sends a newly connected client the whole document state.
pub fn encode_sync_step1(update: &[u8]) -> (r: Vec<u8>)
    ensures
        r@ == sync_step1_header() + update@,
{
    framed(1, update)
}

/// The frame that answers a delta-sync request with the diff.
pub fn encode_delta_sync_response(diff: &[u8]) -> (r: Vec<u8>)
    ensures
        r@ == sync_step2_header() + diff@,
{
    framed(2, diff)
}

/// A selection as carried by a selection frame.
#[derive(Debug, Clone, Copy, PartialEq, Eq, Structural)]
pub struct SelectionRange {
    pub start: u32,
    pub end: u32,
}

/// The little-endian number in four bytes.
pub open spec fn le_u32(b0: u8, b1: u8, b2: u8, b3: u8) -> int {
    b0 + 256 * b1 + 65536 * b2 + 16777216 * b3
}

fn read_le_u32(data: &[u8], at: usize) -> (r: u32)
    requires
        at + 4 <= data@.len(),
    ensures
        r == le_u32(data@[at as int], data@[at + 1], data@[at + 2], data@[at + 3]),
{
    let b0 = data[at] as u32;
    let b1 = data[at + 1] as u32;
    let b2 = data[at + 2] as u32;
    let b3 = data[at + 3] as u32;
    b0 + 256 * b1 + 65536 * b2 + 16777216 * b3
}

/// The selection in a frame: bytes 1 to 4 hold its start and bytes 5 to 8
/// its end, little-endian; frames shorter than 9 bytes hold none.
pub open spec fn selection_of(data: Seq<u8>) -> Option<SelectionRange> {
    if data.len() < 9 {
        None
    } else {
        Some(
            SelectionRange {
                start: le_u32(data[1], data[2], data[3], data[4]) as u32,
                end: le_u32(data[5], data[6], data[7], data[8]) as u32,
            },
        )
    }
}

pub fn parse_selection_update(data: &[u8]) -> (r: Option<SelectionRange>)
    ensures
        r == selection_of(data@),
{
    if data.len() < 9 {
        return None;
    }
    let start = read_le_u32(data, 1);
    let end = read_le_u32(data, 5);
    Some(SelectionRange { start, end })
}

/// What the relay does with a binary frame received from a client.
#[derive(Debug, Clone, PartialEq, Eq, Structural)]
pub enum FrameAction {
    /// Empty frames are skipped.
    Skip,
    /// Frames above the size limit are dropped.
    DropOversized,
    /// A sync frame: apply the payload to the server document when there is
    /// one, and relay the frame to the room.
    Sync { apply_update: bool },
    /// Relay the frame to the room unchanged.
    Relay,
    /// A well-formed selection frame: relay it to the room.
    RelaySelection { selection: SelectionRange },
    /// A selection frame too short to hold a selection.
    RejectSelection,
    /// A delta-sync request carrying the client's state vector.
    DeltaSyncRequest,
}

/// The action for a frame of the given bytes under the size limit.
pub open spec fn frame_action(data: Seq<u8>, max_message_size: nat) -> FrameAction {
    if data.len() == 0 {
        FrameAction::Skip
    } else if data.len() > max_message_size {
        FrameAction::DropOversized
    } else if data[0] == 0 {
        FrameAction::Sync { apply_update: data.len() > 1 }
    } else if data[0] == 1 {
        FrameAction::Relay
    } else if data[0] == 2 {
        match selection_of(data) {
            Some(selection) => FrameAction::RelaySelection { selection },
            None => FrameAction::RejectSelection,
        }
    } else if data[0] == 3 {
        if data.len() > 1 {
            FrameAction::DeltaSyncRequest
        } else {
            FrameAction::Skip
        }
    } else {
        FrameAction::Relay
    }
}

/// Decides what to do with a binary frame from a client.
pub fn classify_frame(data: &[u8], max_message_size: usize) -> (r: FrameAction)
    ensures
        r == frame_action(data@, max_message_size as nat),
{
    if data.len() == 0 {
        return FrameAction::Skip;
    }
    if data.len() > max_message_size {
        return FrameAction::DropOversized;
    }
    let msg_type = data[0];
    if msg_type == 0 {
        FrameAction::Sync { apply_update: data.len() > 1 }
    } else if msg_type == 1 {
        FrameAction::Relay
    } else if msg_type == 2 {
        match parse_selection_update(data) {
            Some(selection) => FrameAction::RelaySelection { selection },
            None => FrameAction::RejectSelection,
        }
    } else if msg_type == 3 {
        if data.len() > 1 {
            FrameAction::DeltaSyncRequest
        } else {
            FrameAction::Skip
        }
    } else {
        FrameAction::Relay
    }
}

/// The answer to a delta-sync request, given the diff the document store
/// computed (`None` when the client is already up to date, answered with an
/// empty diff so that it knows the sync is complete).
pub fn delta_sync_reply(diff: Option<&[u8]>) -> (r: Vec<u8>)
    ensures
        r@ == sync_step2_header() + match diff {
            Some(d) => d@,
            None => Seq::<u8>::empty(),
        },
{
    match diff {
        Some(d) => encode_delta_sync_response(d),
        None => {
            let empty: [u8; 0] = [];
            let r = encode_delta_sync_response(empty.as_slice());
            assert(empty@ =~= Seq::<u8>::empty());
            r
        },
    }
}

/// An event on the relay's broadcast channel, as a connection sees it.
#[derive(Debug)]
pub enum RelayEventKind {
    /// A frame, or a selection frame, sent by a client of a room.
    Frame,
    /// A client joined or left a room.
    Membership,
    /// The presence list of a room.
    Presence,
    /// A delta-sync answer addressed to one client.
    DeltaSync,
}

/// Whether a connection forwards a relay event to its client: frames from
/// other clients of its room, presence lists of its room, and delta-sync
/// answers addressed to it; membership events are only logged.
pub open spec fn forwards(
    kind: RelayEventKind,
    event_room: Seq<char>,
    origin: Seq<char>,
    my_room: Seq<char>,
    my_id: Seq<char>,
) -> bool {
    match kind {
        RelayEventKind::Frame => event_room == my_room && origin != my_id,
        RelayEventKind::Membership => false,
        RelayEventKind::Presence => event_room == my_room,
        RelayEventKind::DeltaSync => origin == my_id,
    }
}

/// Decides whether a connection forwards an event.  `origin` is the sender
/// of a frame or the target of a delta-sync answer.
pub fn should_forward(
    kind: RelayEventKind,
    event_room: &[char],
    origin: &[char],
    my_room: &[char],
    my_id: &[char],
) -> (r: bool)
    ensures
        r == forwards(kind, event_room@, origin@, my_room@, my_id@),
{
    match kind {
        RelayEventKind::Frame => chars_eq(event_room, my_room) && !chars_eq(origin, my_id),
        RelayEventKind::Membership => false,
        RelayEventKind::Presence => chars_eq(event_room, my_room),
        RelayEventKind::DeltaSync => chars_eq(origin, my_id),
    }
}

/// A sync frame carrying a full update, as clients send it: the same bytes
/// as a sync step 1 frame.
pub fn encode_sync_message(update: &[u8]) -> (r: Vec<u8>)
    ensures
        r@ == sync_step1_header() + update@,
{
    framed(1, update)
}

/// The four little-endian bytes of a number.
pub open spec fn le_bytes(n: u32) -> Seq<u8> {
    seq![
        (n % 256) as u8,
        ((n / 256) % 256) as u8,
        ((n / 65536) % 256) as u8,
        ((n / 16777216) % 256) as u8,
    ]
}

proof fn lemma_le_round_trip(n: u32)
    ensures
        le_u32(le_bytes(n)[0], le_bytes(n)[1], le_bytes(n)[2], le_bytes(n)[3]) == n,
{
    let b0 = n % 256;
    let b1 = (n / 256) % 256;
    let b2 = (n / 65536) % 256;
    let b3 = (n / 16777216) % 256;
    assert(b0 + 256 * b1 + 65536 * b2 + 16777216 * b3 == n) by (nonlinear_arith)
        requires
            b0 == n % 256,
            b1 == (n / 256) % 256,
            b2 == (n / 65536) % 256,
            b3 == (n / 16777216) % 256,
            n < 4294967296,
    {
        assert(n / 16777216 < 256);
        assert(b3 == n / 16777216);
        assert(n == 256 * (n / 256) + b0);
        assert(n / 256 == 256 * (n / 65536) + b1);
        assert(n / 65536 == 256 * (n / 16777216) + b2);
    }
}

fn push_le_u32(msg: &mut Vec<u8>, n: u32)
    ensures
        final(msg)@ == old(msg)@ + le_bytes(n),
{
    msg.push((n % 256) as u8);
    msg.push(((n / 256) % 256) as u8);
    msg.push(((n / 65536) % 256) as u8);
    msg.push(((n / 16777216) % 256) as u8);
}

/// The selection frame for a selection: type 2, then start and end as
/// little-endian 32-bit numbers.
pub fn encode_selection_update(start: u32, end: u32) -> (r: Vec<u8>)
    ensures
        r@ == seq![2u8] + le_bytes(start) + le_bytes(end),
{
    let mut msg: Vec<u8> = Vec::new();
    msg.push(2);
    push_le_u32(&mut msg, start);
    push_le_u32(&mut msg, end);
    msg
}

/// Reading a selection frame back gives the selection that was written.
pub proof fn lemma_selection_round_trip(start: u32, end: u32)
    ensures
        selection_of(seq![2u8] + le_bytes(start) + le_bytes(end)) == Some(
            SelectionRange { start, end },
        ),
        frame_action(seq![2u8] + le_bytes(start) + le_bytes(end), 9) == (FrameAction::RelaySelection {
            selection: SelectionRange { start, end },
        }),
{
    let f = seq![2u8] + le_bytes(start) + le_bytes(end);
    lemma_le_round_trip(start);
    lemma_le_round_trip(end);
    assert(f.len() == 9);
    assert(f[1] == le_bytes(start)[0] && f[2] == le_bytes(start)[1] && f[3] == le_bytes(start)[2]
        && f[4] == le_bytes(start)[3]);
    assert(f[5] == le_bytes(end)[0] && f[6] == le_bytes(end)[1] && f[7] == le_bytes(end)[2] && f[8]
        == le_bytes(end)[3]);
}

// ---------------------------------------------------------------------------
// The relay's rooms
// ---------------------------------------------------------------------------

/// A client of the relay: its room and when it was last heard from.
#[derive(Debug)]
struct RelayClient {
    room: String,
    last_seen_ms: u64,
}

/// The relay as its contracts see it: each client's room and last activity,
/// each room's member list, each document's persisted update log, the
/// relay sequence counter and the limits.
pub struct RelayView {
    pub clients: Map<Seq<char>, (Seq<char>, u64)>,
    pub rooms: Map<Seq<char>, Seq<Seq<char>>>,
    pub logs: Map<Seq<char>, Seq<u8>>,
    pub seq: u64,
    pub max_connections: usize,
    pub heartbeat_interval_secs: u64,
    pub max_message_size: usize,
}

/// Tracks which relay clients are in which room.
pub struct CrdtConnectionManager {
    clients: Table<RelayClient>,
    room_clients: Table<Vec<String>>,
    documents: Table<Vec<u8>>,
    seq_counter: u64,
    max_connections: usize,
    heartbeat_interval_secs: u64,
    max_message_size: usize,
}

/// What the relay reports of a room.
#[derive(Debug, Clone, PartialEq, Eq)]
pub struct CollaborationInfo {
    pub document_id: String,
    pub connection_count: usize,
}

impl View for CrdtConnectionManager {
    type V = RelayView;

    closed spec fn view(&self) -> RelayView {
        RelayView {
            clients: self.clients@.map_values(|c: RelayClient| (c.room@, c.last_seen_ms)),
            rooms: self.room_clients@.map_values(|m: Vec<String>| strings_view(m@)),
            logs: self.documents@.map_values(|l: Vec<u8>| l@),
            seq: self.seq_counter,
            max_connections: self.max_connections,
            heartbeat_interval_secs: self.heartbeat_interval_secs,
            max_message_size: self.max_message_size,
        }
    }
}

/// The members of a relay room, none if it does not exist.
pub open spec fn relay_members(v: RelayView, room: Seq<char>) -> Seq<Seq<char>> {
    if v.rooms.contains_key(room) {
        v.rooms[room]
    } else {
        Seq::empty()
    }
}

/// A relay client has not been heard from for longer than the timeout.
pub open spec fn relay_stale(last_seen_ms: u64, now_ms: u64, timeout_secs: u64) -> bool {
    now_ms > last_seen_ms && now_ms - last_seen_ms > timeout_secs * 1000
}

/// Whether member `m` of `room` is dropped with the clients `gone`: it is one
/// of them and that is its room.
pub open spec fn relay_leaves(v: RelayView, gone: Set<Seq<char>>, m: Seq<char>, room: Seq<char>) -> bool {
    gone.contains(m) && v.clients.contains_key(m) && v.clients[m].0 == room
}

/// A room one of the clients `gone` is in.
pub open spec fn relay_touched(v: RelayView, gone: Set<Seq<char>>, room: Seq<char>) -> bool {
    exists|c: Seq<char>| gone.contains(c) && v.clients.contains_key(c) && #[trigger] v.clients[c].0 == room
}

/// The members of a room that stay when the clients `gone` are dropped.
pub open spec fn relay_kept(v: RelayView, gone: Set<Seq<char>>, room: Seq<char>) -> Seq<Seq<char>> {
    v.rooms[room].filter(|m: Seq<char>| !relay_leaves(v, gone, m, room))
}

/// The rooms after the clients `gone` are dropped: they leave their rooms,
/// and a room of theirs left without members goes; other rooms stay as
/// they are, even empty ones.
pub open spec fn relay_rooms_without(v: RelayView, gone: Set<Seq<char>>) -> Map<Seq<char>, Seq<Seq<char>>> {
    Map::new(
        |r: Seq<char>|
            v.rooms.contains_key(r) && !(relay_touched(v, gone, r) && relay_kept(v, gone, r).len() == 0),
        |r: Seq<char>| relay_kept(v, gone, r),
    )
}

/// The relay after a cleanup: the stale clients are forgotten and leave
/// their rooms.
pub open spec fn relay_after_cleanup(v: RelayView, now_ms: u64, timeout_secs: u64) -> RelayView {
    let gone = Set::new(
        |id: Seq<char>| v.clients.contains_key(id) && relay_stale(v.clients[id].1, now_ms, timeout_secs),
    );
    RelayView { clients: v.clients.remove_keys(gone), rooms: relay_rooms_without(v, gone), ..v }
}

/// The presence entries of a room's connected members, in member order:
/// each named by its client id, with the status of its idle time.
pub open spec fn relay_users(
    members: Seq<Seq<char>>,
    clients: Map<Seq<char>, (Seq<char>, u64)>,
    now_ms: u64,
) -> Seq<(Seq<char>, PresenceStatus)>
    decreases members.len(),
{
    if members.len() == 0 {
        Seq::empty()
    } else {
        let rest = relay_users(members.drop_last(), clients, now_ms);
        let m = members.last();
        if clients.contains_key(m) {
            let idle = if now_ms > clients[m].1 { ((now_ms - clients[m].1) / 1000) as u64 } else { 0 };
            rest.push((m, status_for_idle(idle)))
        } else {
            rest
        }
    }
}

/// The relay lets a new connection in while it is below its limit.
pub fn admits_connection(active: usize, max_connections: usize) -> (r: bool)
    ensures
        r == (active < max_connections),
{
    active < max_connections
}

impl CrdtConnectionManager {
    pub fn new() -> (r: Self)
        ensures
            r@.clients.is_empty() && r@.rooms.is_empty() && r@.logs.is_empty(),
            r@.seq == 0,
            r@.max_connections == 1000,
            r@.heartbeat_interval_secs == 30,
            r@.max_message_size == 10 * 1024 * 1024,
    {
        Self::with_config(1000, 30)
    }

    pub fn with_config(max_connections: usize, heartbeat_interval_secs: u64) -> (r: Self)
        ensures
            r@.clients.is_empty() && r@.rooms.is_empty() && r@.logs.is_empty(),
            r@.seq == 0,
            r@.max_connections == max_connections,
            r@.heartbeat_interval_secs == heartbeat_interval_secs,
            r@.max_message_size == 10 * 1024 * 1024,
    {
        let r = CrdtConnectionManager {
            clients: Table::new(),
            room_clients: Table::new(),
            documents: Table::new(),
            seq_counter: 0,
            max_connections,
            heartbeat_interval_secs,
            max_message_size: 10 * 1024 * 1024,
        };
        assert(r@.clients =~= Map::empty());
        assert(r@.rooms =~= Map::empty());
        assert(r@.logs =~= Map::empty());
        r
    }

    pub fn max_connections(&self) -> (r: usize)
        ensures
            r == self@.max_connections,
    {
        self.max_connections
    }

    pub fn heartbeat_interval_secs(&self) -> (r: u64)
        ensures
            r == self@.heartbeat_interval_secs,
    {
        self.heartbeat_interval_secs
    }

    pub fn max_message_size(&self) -> (r: usize)
        ensures
            r == self@.max_message_size,
    {
        self.max_message_size
    }

    /// The number of connected clients.
    pub fn client_count(&self) -> (r: usize)
        ensures
            r == self@.clients.dom().len(),
    {
        let n = self.clients.len();
        assert(self@.clients.dom() =~= self.clients@.dom());
        n
    }

    /// The number of connected clients.
    pub fn active_connection_count(&self) -> (r: usize)
        ensures
            r == self@.clients.dom().len(),
    {
        self.client_count()
    }

    /// The sequence number of the next relayed frame; the counter wraps.
    pub fn next_seq(&mut self) -> (r: u64)
        ensures
            r == old(self)@.seq,
            final(self)@ == (RelayView {
                seq: if old(self)@.seq == u64::MAX { 0 } else { (old(self)@.seq + 1) as u64 },
                ..old(self)@
            }),
    {
        let r = self.seq_counter;
        self.seq_counter = self.seq_counter.wrapping_add(1);
        r
    }

    /// Records a newly connected client in its room, seen now.
    pub fn connect(&mut self, client_id: String, room: &str, now_ms: u64)
        ensures
            final(self)@ == (RelayView {
                clients: old(self)@.clients.insert(client_id@, (room@, now_ms)),
                rooms: old(self)@.rooms.insert(room@, relay_members(old(self)@, room@).push(client_id@)),
                ..old(self)@
            }),
    {
        let ghost id = client_id@;
        let c = RelayClient { room: owned(room), last_seen_ms: now_ms };
        self.clients.insert(owned(client_id.as_str()), c);
        assert(self@.clients =~= old(self)@.clients.insert(id, (room@, now_ms)));
        self.join_room(client_id.as_str(), room);
    }

    /// Adds a client to a room's members.
    pub fn join_room(&mut self, client_id: &str, room: &str)
        ensures
            final(self)@ == (RelayView {
                rooms: old(self)@.rooms.insert(room@, relay_members(old(self)@, room@).push(client_id@)),
                ..old(self)@
            }),
    {
        let mut members = match self.room_clients.remove(room) {
            Some(m) => m,
            None => Vec::new(),
        };
        let ghost m0 = members@;
        members.push(owned(client_id));
        assert(strings_view(members@) =~= relay_members(old(self)@, room@).push(client_id@));
        self.room_clients.insert(owned(room), members);
        assert(self@.rooms =~= old(self)@.rooms.insert(
            room@,
            relay_members(old(self)@, room@).push(client_id@),
        ));
    }

    /// Forgets a client and takes it out of its room's members (the room
    /// stays, even empty); returns the room, if the client was connected.
    pub fn leave_room(&mut self, client_id: &str) -> (r: Option<String>)
        ensures
            old(self)@.clients.contains_key(client_id@) ==> (r matches Some(s) && s@ == old(
                self,
            )@.clients[client_id@].0),
            old(self)@.clients.contains_key(client_id@) ==> final(self)@ == relay_after_leave(
                old(self)@,
                client_id@,
            ),
            !old(self)@.clients.contains_key(client_id@) ==> r is None && final(self)@ == old(self)@,
    {
        let c = match self.clients.remove(client_id) {
            Some(c) => c,
            None => {
                assert(self@.clients =~= old(self)@.clients);
                return None;
            },
        };
        let ghost room = c.room@;
        match self.room_clients.remove(c.room.as_str()) {
            Some(m) => {
                let kept = crate::websocket::handler::strings_without(&m, client_id);
                self.room_clients.insert(owned(c.room.as_str()), kept);
                assert(self@.rooms =~= old(self)@.rooms.insert(
                    room,
                    old(self)@.rooms[room].filter(|m: Seq<char>| m != client_id@),
                ));
            },
            None => {
                assert(self@.rooms =~= old(self)@.rooms);
            },
        }
        assert(self@.clients =~= old(self)@.clients.remove(client_id@));
        Some(c.room)
    }

    /// Marks a client as heard from now.
    pub fn touch_client(&mut self, client_id: &str, now_ms: u64)
        ensures
            final(self)@ == (RelayView {
                clients: if old(self)@.clients.contains_key(client_id@) {
                    old(self)@.clients.insert(client_id@, (old(self)@.clients[client_id@].0, now_ms))
                } else {
                    old(self)@.clients
                },
                ..old(self)@
            }),
    {
        match self.clients.remove(client_id) {
            Some(c) => {
                let c2 = RelayClient { last_seen_ms: now_ms, ..c };
                self.clients.insert(owned(client_id), c2);
                assert(self@.clients =~= old(self)@.clients.insert(
                    client_id@,
                    (old(self)@.clients[client_id@].0, now_ms),
                ));
            },
            None => {
                assert(self@.clients =~= old(self)@.clients);
            },
        }
    }

    /// What the relay reports of a room: its number of member entries, if
    /// the room exists.
    pub fn get_collaboration_info(&self, document_id: &str) -> (r: Option<CollaborationInfo>)
        ensures
            self@.rooms.contains_key(document_id@) ==> (r matches Some(i) && i.document_id@
                == document_id@ && i.connection_count == self@.rooms[document_id@].len()),
            !self@.rooms.contains_key(document_id@) ==> r is None,
    {
        match self.room_clients.get(document_id) {
            Some(m) => Some(CollaborationInfo { document_id: owned(document_id), connection_count: m.len() }),
            None => None,
        }
    }

    /// Stores the persisted update log of a document, replacing any earlier.
    pub fn init_document_from_persisted(&mut self, document_id: &str, update_log: Vec<u8>)
        ensures
            final(self)@ == (RelayView {
                logs: old(self)@.logs.insert(document_id@, update_log@),
                ..old(self)@
            }),
    {
        let ghost log = update_log@;
        self.documents.insert(owned(document_id), update_log);
        assert(self@.logs =~= old(self)@.logs.insert(document_id@, log));
    }

    /// The stored update log of a document.
    pub fn get_document_update_log(&self, document_id: &str) -> (r: Option<Vec<u8>>)
        ensures
            self@.logs.contains_key(document_id@) ==> (r matches Some(l) && l@ == self@.logs[document_id@]),
            !self@.logs.contains_key(document_id@) ==> r is None,
    {
        match self.documents.get(document_id) {
            Some(l) => Some(l.clone()),
            None => None,
        }
    }

    /// The presence of a room's connected members, in member order: each
    /// named by its client id, with the status of its idle time (seconds
    /// since `now_ms`), no cursor, and `now_secs` as last seen.
    pub fn get_active_users(&self, room: &str, now_ms: u64, now_secs: u64) -> (r: Vec<PresenceInfo>)
        ensures
            r@.map_values(|p: PresenceInfo| (p.user_id@, p.status)) == relay_users(
                relay_members(self@, room@),
                self@.clients,
                now_ms,
            ),
            forall|i: int|
                0 <= i < r@.len() ==> (#[trigger] r@[i]).username@ == r@[i].user_id@ && r@[i].cursor_pos
                    is None && r@[i].last_seen == now_secs,
    {
        let mut out: Vec<PresenceInfo> = Vec::new();
        match self.room_clients.get(room) {
            Some(members) => {
                let ghost ms = strings_view(members@);
                let mut i: usize = 0;
                while i < members.len()
                    invariant
                        i <= members@.len(),
                        ms == strings_view(members@),
                        ms == relay_members(self@, room@),
                        out@.map_values(|p: PresenceInfo| (p.user_id@, p.status)) == relay_users(
                            ms.take(i as int),
                            self@.clients,
                            now_ms,
                        ),
                        forall|j: int|
                            0 <= j < out@.len() ==> (#[trigger] out@[j]).username@ == out@[j].user_id@
                                && out@[j].cursor_pos is None && out@[j].last_seen == now_secs,
                    decreases members@.len() - i,
                {
                    proof {
                        assert(ms.take(i as int + 1).drop_last() =~= ms.take(i as int));
                        assert(ms.take(i as int + 1).last() == members@[i as int]@);
                    }
                    match self.clients.get(members[i].as_str()) {
                        Some(c) => {
                            let idle_ms = if now_ms > c.last_seen_ms { now_ms - c.last_seen_ms } else { 0 };
                            let status = PresenceStatus::from_idle_secs(idle_ms / 1000);
                            let ghost before = out@;
                            out.push(
                                PresenceInfo {
                                    user_id: members[i].clone(),
                                    username: members[i].clone(),
                                    status,
                                    cursor_pos: None,
                                    last_seen: now_secs,
                                },
                            );
                            assert(out@.map_values(|p: PresenceInfo| (p.user_id@, p.status)) =~= before.map_values(
                                |p: PresenceInfo| (p.user_id@, p.status),
                            ).push((members@[i as int]@, status)));
                        },
                        None => {},
                    }
                    i = i + 1;
                }
                assert(ms.take(members@.len() as int) =~= ms);
            },
            None => {
                assert(out@.map_values(|p: PresenceInfo| (p.user_id@, p.status)) =~= Seq::<
                    (Seq<char>, PresenceStatus),
                >::empty());
            },
        }
        out
    }
}

/// The relay after a connected client leaves: it is forgotten and leaves
/// its room's members; the room stays, even empty.
pub open spec fn relay_after_leave(v: RelayView, client: Seq<char>) -> RelayView {
    let room = v.clients[client].0;
    RelayView {
        clients: v.clients.remove(client),
        rooms: if v.rooms.contains_key(room) {
            v.rooms.insert(room, v.rooms[room].filter(|m: Seq<char>| m != client))
        } else {
            v.rooms
        },
        ..v
    }
}

/// A client that leaves the relay is forgotten and is no longer a member
/// of its room.
pub proof fn lemma_relay_leave_clears(v: RelayView, client: Seq<char>)
    requires
        v.clients.contains_key(client),
    ensures
        !relay_after_leave(v, client).clients.contains_key(client),
        !relay_members(relay_after_leave(v, client), v.clients[client].0).contains(client),
{
    broadcast use vstd::seq_lib::group_filter_ensures;

    let room = v.clients[client].0;
    if v.rooms.contains_key(room) {
        let kept = v.rooms[room].filter(|m: Seq<char>| m != client);
        if kept.contains(client) {
            let j = choose|j: int| 0 <= j < kept.len() && kept[j] == client;
            assert((|m: Seq<char>| m != client)(kept[j]));
        }
    }
}

/// After a cleanup exactly the fresh clients remain, unchanged, and no
/// stale client is a member of the room it was in.
pub proof fn lemma_relay_cleanup(v: RelayView, now_ms: u64, timeout_secs: u64)
    ensures
        forall|id: Seq<char>| #[trigger]
            relay_after_cleanup(v, now_ms, timeout_secs).clients.contains_key(id) <==> (
            v.clients.contains_key(id) && !relay_stale(v.clients[id].1, now_ms, timeout_secs)),
        forall|id: Seq<char>| #[trigger]
            relay_after_cleanup(v, now_ms, timeout_secs).clients.contains_key(id) ==> relay_after_cleanup(
                v,
                now_ms,
                timeout_secs,
            ).clients[id] == v.clients[id],
        forall|id: Seq<char>|
            v.clients.contains_key(id) && relay_stale(v.clients[id].1, now_ms, timeout_secs) ==> !(
            #[trigger] relay_members(relay_after_cleanup(v, now_ms, timeout_secs), v.clients[id].0)).contains(
                id,
            ),
{
    broadcast use vstd::seq_lib::group_filter_ensures;

    let gone = Set::new(
        |id: Seq<char>| v.clients.contains_key(id) && relay_stale(v.clients[id].1, now_ms, timeout_secs),
    );
    assert forall|id: Seq<char>|
        v.clients.contains_key(id) && relay_stale(v.clients[id].1, now_ms, timeout_secs) implies !(
        #[trigger] relay_members(relay_after_cleanup(v, now_ms, timeout_secs), v.clients[id].0)).contains(
            id,
        ) by {
        let r = v.clients[id].0;
        let w = relay_after_cleanup(v, now_ms, timeout_secs);
        if w.rooms.contains_key(r) {
            let kept = relay_kept(v, gone, r);
            if kept.contains(id) {
                let j = choose|j: int| 0 <= j < kept.len() && kept[j] == id;
                assert((|m: Seq<char>| !relay_leaves(v, gone, m, r))(kept[j]));
                assert(gone.contains(id));
            }
        }
    }
}

proof fn lemma_relay_none(v: RelayView)
    ensures
        relay_rooms_without(v, Set::empty()) == v.rooms,
{
    assert forall|r: Seq<char>| #[trigger] v.rooms.contains_key(r) implies relay_kept(v, Set::empty(), r)
        == v.rooms[r] by {
        lemma_filter_all(v.rooms[r], |m: Seq<char>| !relay_leaves(v, Set::empty(), m, r));
    }
    assert(relay_rooms_without(v, Set::empty()) =~= v.rooms);
}

/// Dropping one more client, in its room only, gives the rooms without all
/// of them.
proof fn lemma_relay_step(v: RelayView, gone: Set<Seq<char>>, c: Seq<char>, p: spec_fn(Seq<char>) -> bool)
    requires
        v.clients.contains_key(c),
        forall|m: Seq<char>| #[trigger] p(m) == (m != c),
    ensures
        ({
            let y = relay_rooms_without(v, gone);
            let rc = v.clients[c].0;
            if y.contains_key(rc) {
                let f = y[rc].filter(p);
                if f.len() == 0 {
                    y.remove(rc)
                } else {
                    y.insert(rc, f)
                }
            } else {
                y
            }
        }) == relay_rooms_without(v, gone.insert(c)),
{
    let g2 = gone.insert(c);
    let y = relay_rooms_without(v, gone);
    let z = relay_rooms_without(v, g2);
    let rc = v.clients[c].0;
    assert forall|q: Seq<char>| q != rc && #[trigger] v.rooms.contains_key(q) implies relay_kept(v, g2, q)
        == relay_kept(v, gone, q) && relay_touched(v, g2, q) == relay_touched(v, gone, q) by {
        lemma_filter_agree(
            v.rooms[q],
            |m: Seq<char>| !relay_leaves(v, g2, m, q),
            |m: Seq<char>| !relay_leaves(v, gone, m, q),
        );
        if relay_touched(v, g2, q) {
            let w = choose|w: Seq<char>| g2.contains(w) && v.clients.contains_key(w) && #[trigger] v.clients[w].0 == q;
            assert(w != c);
            assert(gone.contains(w));
        }
    }
    if v.rooms.contains_key(rc) {
        lemma_filter_twice(v.rooms[rc], |m: Seq<char>| !relay_leaves(v, gone, m, rc), p);
        lemma_filter_agree(
            v.rooms[rc],
            |m: Seq<char>| (|m: Seq<char>| !relay_leaves(v, gone, m, rc))(m) && p(m),
            |m: Seq<char>| !relay_leaves(v, g2, m, rc),
        );
        assert(relay_touched(v, g2, rc)) by {
            assert(v.clients[c].0 == rc);
        }
        if !y.contains_key(rc) {
            relay_kept(v, gone, rc).lemma_filter_len(p);
        }
    }
    let step = if y.contains_key(rc) {
        let f = y[rc].filter(p);
        if f.len() == 0 {
            y.remove(rc)
        } else {
            y.insert(rc, f)
        }
    } else {
        y
    };
    assert(step =~= z);
}

impl CrdtConnectionManager {
    /// Forgets the clients not heard from for longer than `timeout_secs`
    /// (the clock reading `now_ms` in milliseconds); each leaves its room,
    /// and a room it leaves empty goes.
    pub fn cleanup_stale_clients(&mut self, now_ms: u64, timeout_secs: u64)
        ensures
            final(self)@ == relay_after_cleanup(old(self)@, now_ms, timeout_secs),
    {
        let ghost v0 = self@;
        let ghost cl = v0.clients;
        let n = self.clients.len();
        let ghost ko = self.clients.key_order();
        let mut stale: Vec<(String, String)> = Vec::new();
        let ghost mut ids: Seq<Seq<char>> = Seq::empty();
        let mut i: usize = 0;
        while i < n
            invariant
                i <= n,
                n == ko.len(),
                self@ == v0,
                cl == v0.clients,
                ko == self.clients.key_order(),
                forall|a: int| 0 <= a < ko.len() ==> self.clients@.contains_key(#[trigger] ko[a]),
                forall|k: Seq<char>| #[trigger] self.clients@.contains_key(k) ==> ko.contains(k),
                forall|a: int, b: int| 0 <= a < b < ko.len() ==> #[trigger] ko[a] != #[trigger] ko[b],
                stale@.len() == ids.len(),
                forall|j: int|
                    0 <= j < ids.len() ==> (#[trigger] stale@[j]).0@ == ids[j] && cl.contains_key(ids[j])
                        && stale@[j].1@ == cl[ids[j]].0,
                forall|x: Seq<char>| #[trigger]
                    ids.contains(x) <==> (ko.take(i as int).contains(x) && cl.contains_key(x)
                        && relay_stale(cl[x].1, now_ms, timeout_secs)),
                forall|a: int, b: int| 0 <= a < b < ids.len() ==> #[trigger] ids[a] != #[trigger] ids[b],
            decreases n - i,
        {
            let key = self.clients.key_at(i);
            let rec = self.clients.value_at(i);
            let ghost k = ko[i as int];
            assert(self.clients@.contains_key(k));
            assert(ko.take(i as int + 1) =~= ko.take(i as int).push(k));
            assert forall|x: Seq<char>| #[trigger] ko.take(i as int + 1).contains(x) == (ko.take(
                i as int,
            ).contains(x) || x == k) by {
                if ko.take(i as int + 1).contains(x) {
                    let j = choose|j: int| 0 <= j < i + 1 && #[trigger] ko.take(i as int + 1)[j] == x;
                    if j < i {
                        assert(ko.take(i as int)[j] == x);
                    }
                }
                if ko.take(i as int).contains(x) {
                    let j = choose|j: int| 0 <= j < i && #[trigger] ko.take(i as int)[j] == x;
                    assert(ko.take(i as int + 1)[j] == x);
                }
                if x == k {
                    assert(ko.take(i as int + 1)[i as int] == x);
                }
            }
            let is_old = now_ms > rec.last_seen_ms && ((now_ms - rec.last_seen_ms) as u128) > (
            timeout_secs as u128) * 1000;
            if is_old {
                stale.push((owned(key), rec.room.clone()));
                proof {
                    assert(!ids.contains(k)) by {
                        if ids.contains(k) {
                            let j = choose|j: int| 0 <= j < i && #[trigger] ko.take(i as int)[j] == k;
                            assert(ko[j] == k);
                        }
                    }
                    let old_ids = ids;
                    ids = ids.push(k);
                    assert forall|x: Seq<char>| #[trigger] ids.contains(x) == (old_ids.contains(x) || x == k) by {
                        if ids.contains(x) {
                            let j = choose|j: int| 0 <= j < ids.len() && #[trigger] ids[j] == x;
                            if j < old_ids.len() {
                                assert(old_ids[j] == x);
                            }
                        }
                        if old_ids.contains(x) {
                            let j = choose|j: int| 0 <= j < old_ids.len() && #[trigger] old_ids[j] == x;
                            assert(ids[j] == x);
                        }
                        if x == k {
                            assert(ids[old_ids.len() as int] == x);
                        }
                    }
                    assert forall|a: int, b: int| 0 <= a < b < ids.len() implies #[trigger] ids[a]
                        != #[trigger] ids[b] by {
                        if b == old_ids.len() {
                            assert(old_ids.contains(ids[a]));
                        }
                    }
                }
            }
            i = i + 1;
        }
        proof {
            assert(ko.take(n as int) =~= ko);
            lemma_relay_none(v0);
            assert(cl.remove_keys(Set::empty()) =~= cl);
        }
        let ghost mut gone: Set<Seq<char>> = Set::empty();
        let mut j: usize = 0;
        while j < stale.len()
            invariant
                j <= stale@.len(),
                stale@.len() == ids.len(),
                cl == v0.clients,
                forall|a: int|
                    0 <= a < ids.len() ==> (#[trigger] stale@[a]).0@ == ids[a] && cl.contains_key(ids[a])
                        && stale@[a].1@ == cl[ids[a]].0,
                forall|a: int, b: int| 0 <= a < b < ids.len() ==> #[trigger] ids[a] != #[trigger] ids[b],
                forall|x: Seq<char>| #[trigger] gone.contains(x) <==> ids.take(j as int).contains(x),
                self@ == (RelayView {
                    clients: cl.remove_keys(gone),
                    rooms: relay_rooms_without(v0, gone),
                    ..v0
                }),
            decreases stale@.len() - j,
        {
            let ghost c = ids[j as int];
            let ghost y = self@;
            let id = stale[j].0.as_str();
            let room = stale[j].1.as_str();
            assert(stale@[j as int].0@ == c && stale@[j as int].1@ == cl[c].0);
            assert(id@ == c && room@ == cl[c].0);
            let _ = self.clients.remove(id);
            proof {
                lemma_relay_step(v0, gone, id@, |m: Seq<char>| m != id@);
                assert(y.rooms == relay_rooms_without(v0, gone));
            }
            match self.room_clients.remove(room) {
                Some(m) => {
                    let kept = crate::websocket::handler::strings_without(&m, id);
                    if kept.len() > 0 {
                        self.room_clients.insert(owned(room), kept);
                        assert(self@.rooms =~= y.rooms.insert(
                            room@,
                            y.rooms[room@].filter(|m: Seq<char>| m != id@),
                        ));
                        assert(y.rooms.contains_key(room@));
                        assert(self@.rooms == relay_rooms_without(v0, gone.insert(id@)));
                    } else {
                        assert(self@.rooms =~= y.rooms.remove(room@));
                        assert(self@.rooms == relay_rooms_without(v0, gone.insert(id@)));
                    }
                },
                None => {
                    assert(self@.rooms =~= y.rooms);
                    assert(self@.rooms == relay_rooms_without(v0, gone.insert(id@)));
                },
            }
            proof {
                assert(self@.rooms == relay_rooms_without(v0, gone.insert(c)));
                assert(self@.logs == v0.logs && self@.seq == v0.seq);
                assert(self@.clients =~= y.clients.remove(c));
                assert(self@.clients =~= cl.remove_keys(gone.insert(c)));
                assert(ids.take(j as int + 1) =~= ids.take(j as int).push(c));
                assert forall|x: Seq<char>| #[trigger] gone.insert(c).contains(x) <==> ids.take(j as int + 1).contains(x) by {
                    if ids.take(j as int + 1).contains(x) {
                        let a = choose|a: int| 0 <= a < j + 1 && #[trigger] ids.take(j as int + 1)[a] == x;
                        if a < j {
                            assert(ids.take(j as int)[a] == x);
                        }
                    }
                    if ids.take(j as int).contains(x) {
                        let a = choose|a: int| 0 <= a < j && #[trigger] ids.take(j as int)[a] == x;
                        assert(ids.take(j as int + 1)[a] == x);
                    }
                    if x == c {
                        assert(ids.take(j as int + 1)[j as int] == x);
                    }
                }
                gone = gone.insert(c);
            }
            j = j + 1;
        }
        proof {
            assert(ids.take(ids.len() as int) =~= ids);
            let s = Set::new(
                |id: Seq<char>| cl.contains_key(id) && relay_stale(cl[id].1, now_ms, timeout_secs),
            );
            assert(gone =~= s) by {
                assert forall|x: Seq<char>| gone.contains(x) == s.contains(x) by {
                    if cl.contains_key(x) {
                        assert(v0.clients.contains_key(x));
                    }
                }
            }
        }
    }
}

} // verus!
