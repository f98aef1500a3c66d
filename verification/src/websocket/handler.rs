//! Decisions of the collaboration socket handler: how client edits become
//! operations, which room a document lives in, and upgrade errors.

use vstd::prelude::*;
use crate::text::{owned, push_str, starts_with, starts_with_exec, chars_of, slice_range};
use crate::websocket::operational_transform::{OpView, Operation};
use crate::websocket::types::{DocumentEdit, EditOperation, HeartbeatConfig, MessageType};
use crate::websocket::operational_transform::{
    DocumentState, applicable, apply_bytes, byte_len, history_ok, keep_last, rebase, rebase_fits,
};
use vstd::utf8::encode_utf8;
use crate::table::Table;
use crate::validation::search::strings_view;
use crate::text::{chars_eq, string_from_chars};
use crate::filters::{drop_entries, lemma_drop_agree, lemma_drop_none, lemma_drop_nonempty, lemma_drop_one, lemma_drop_twice, lists_nonempty};

verus! {

broadcast use vstd::string::group_string_axioms;

/// Why a socket upgrade failed.
#[derive(Debug)]
pub enum WebSocketUpgradeError {
    InvalidUpgrade,
    ConnectionError(String),
    InternalError(String),
}

impl WebSocketUpgradeError {
    /// The human-readable message for the error.
    pub fn message(&self) -> (r: String)
        ensures
            r@ == match self {
                WebSocketUpgradeError::InvalidUpgrade => "Invalid WebSocket upgrade request"@,
                WebSocketUpgradeError::ConnectionError(m) => "Connection error: "@ + m@,
                WebSocketUpgradeError::InternalError(m) => "Internal error: "@ + m@,
            },
    {
        match self {
            WebSocketUpgradeError::InvalidUpgrade => owned("Invalid WebSocket upgrade request"),
            WebSocketUpgradeError::ConnectionError(m) => {
                let mut r = owned("Connection error: ");
                push_str(&mut r, m.as_str());
                r
            },
            WebSocketUpgradeError::InternalError(m) => {
                let mut r = owned("Internal error: ");
                push_str(&mut r, m.as_str());
                r
            },
        }
    }
}

/// A client's presence in a document.
#[derive(Debug, Clone)]
pub struct PresenceInfo {
    pub client_id: String,
    pub user_id: String,
    pub user_name: String,
    pub cursor_position: usize,
}

/// The operations that carry out a client edit, in order: a replacement is
/// a deletion followed by an insertion at the same position.
pub open spec fn edit_ops(edit: EditOperation) -> Seq<OpView> {
    match edit {
        EditOperation::Insert { position, text } => seq![
            OpView::Insert { position: position as nat, text: text@ },
        ],
        EditOperation::Delete { position, length } => seq![
            OpView::Delete { position: position as nat, length: length as nat },
        ],
        EditOperation::Replace { position, length, text } => seq![
            OpView::Delete { position: position as nat, length: length as nat },
            OpView::Insert { position: position as nat, text: text@ },
        ],
    }
}

pub fn expand_edit(edit: EditOperation) -> (r: Vec<Operation>)
    ensures
        r@.map_values(|o: Operation| o@) == edit_ops(edit),
{
    let ghost e = edit;
    let r = match edit {
        EditOperation::Insert { position, text } => {
            let mut v: Vec<Operation> = Vec::new();
            v.push(Operation::insert(position, text));
            v
        },
        EditOperation::Delete { position, length } => {
            let mut v: Vec<Operation> = Vec::new();
            v.push(Operation::delete(position, length));
            v
        },
        EditOperation::Replace { position, length, text } => {
            let mut v: Vec<Operation> = Vec::new();
            v.push(Operation::delete(position, length));
            v.push(Operation::insert(position, text));
            v
        },
    };
    assert(r@.map_values(|o: Operation| o@) =~= edit_ops(e));
    r
}

/// The room of a document's collaborators.
pub open spec fn document_room_name(document_id: Seq<char>) -> Seq<char> {
    "doc:"@ + document_id
}

pub fn document_room(document_id: &str) -> (r: String)
    ensures
        r@ == document_room_name(document_id@),
{
    let mut r = owned("doc:");
    push_str(&mut r, document_id);
    r
}

/// What a connection does with a message from its client.
#[derive(Debug)]
pub enum ClientMessageAction {
    /// Record the user as a collaborator on the document, announce the join
    /// and the others' presence in `room`.
    JoinDocument { document_id: String, user_id: String, user_name: String, room: String },
    /// Drop the client from the document and announce the leave in `room`.
    LeaveDocument { document_id: String, user_id: String, room: String },
    /// Read the edit out of the message's data, apply it, and announce the
    /// new version in `room`.
    ApplyEdit { document_id: String, room: String },
    /// Pass the message on to `room` unchanged.
    Relay { room: String },
    /// Nothing to do.
    Ignore,
}

pub enum ClientMessageActionView {
    JoinDocument { document_id: Seq<char>, user_id: Seq<char>, user_name: Seq<char>, room: Seq<char> },
    LeaveDocument { document_id: Seq<char>, user_id: Seq<char>, room: Seq<char> },
    ApplyEdit { document_id: Seq<char>, room: Seq<char> },
    Relay { room: Seq<char> },
    Ignore,
}

impl View for ClientMessageAction {
    type V = ClientMessageActionView;

    open spec fn view(&self) -> ClientMessageActionView {
        match self {
            ClientMessageAction::JoinDocument { document_id, user_id, user_name, room } =>
                ClientMessageActionView::JoinDocument {
                    document_id: document_id@,
                    user_id: user_id@,
                    user_name: user_name@,
                    room: room@,
                },
            ClientMessageAction::LeaveDocument { document_id, user_id, room } =>
                ClientMessageActionView::LeaveDocument {
                    document_id: document_id@,
                    user_id: user_id@,
                    room: room@,
                },
            ClientMessageAction::ApplyEdit { document_id, room } =>
                ClientMessageActionView::ApplyEdit { document_id: document_id@, room: room@ },
            ClientMessageAction::Relay { room } => ClientMessageActionView::Relay { room: room@ },
            ClientMessageAction::Ignore => ClientMessageActionView::Ignore,
        }
    }
}

pub open spec fn opt_chars(o: Option<&str>) -> Option<Seq<char>> {
    match o {
        Some(s) => Some(s@),
        None => None,
    }
}

/// The action for a client message of kind `kind`, from the fields it
/// carries: a join or leave needs a document and a user (a join without a
/// user name is by `Unknown`), an edit needs a document and data, activity
/// and presence messages are relayed to the document's room, and
/// notifications from clients are dropped.
pub open spec fn client_message_decision(
    kind: MessageType,
    document_id: Option<Seq<char>>,
    user_id: Option<Seq<char>>,
    user_name: Option<Seq<char>>,
    has_data: bool,
) -> ClientMessageActionView {
    match (kind, document_id, user_id) {
        (MessageType::Join, Some(d), Some(u)) => ClientMessageActionView::JoinDocument {
            document_id: d,
            user_id: u,
            user_name: match user_name {
                Some(n) => n,
                None => "Unknown"@,
            },
            room: document_room_name(d),
        },
        (MessageType::Leave, Some(d), Some(u)) => ClientMessageActionView::LeaveDocument {
            document_id: d,
            user_id: u,
            room: document_room_name(d),
        },
        (MessageType::Edit, Some(d), _) => if has_data {
            ClientMessageActionView::ApplyEdit { document_id: d, room: document_room_name(d) }
        } else {
            ClientMessageActionView::Ignore
        },
        (MessageType::Activity, Some(d), _) => ClientMessageActionView::Relay {
            room: document_room_name(d),
        },
        (MessageType::Presence, Some(d), _) => ClientMessageActionView::Relay {
            room: document_room_name(d),
        },
        _ => ClientMessageActionView::Ignore,
    }
}

/// Decides what a connection does with a client message.
pub fn client_message_action(
    kind: MessageType,
    document_id: Option<&str>,
    user_id: Option<&str>,
    user_name: Option<&str>,
    has_data: bool,
) -> (r: ClientMessageAction)
    ensures
        r@ == client_message_decision(
            kind,
            opt_chars(document_id),
            opt_chars(user_id),
            opt_chars(user_name),
            has_data,
        ),
{
    match kind {
        MessageType::Join => match (document_id, user_id) {
            (Some(d), Some(u)) => ClientMessageAction::JoinDocument {
                document_id: owned(d),
                user_id: owned(u),
                user_name: match user_name {
                    Some(n) => owned(n),
                    None => owned("Unknown"),
                },
                room: document_room(d),
            },
            _ => ClientMessageAction::Ignore,
        },
        MessageType::Leave => match (document_id, user_id) {
            (Some(d), Some(u)) => ClientMessageAction::LeaveDocument {
                document_id: owned(d),
                user_id: owned(u),
                room: document_room(d),
            },
            _ => ClientMessageAction::Ignore,
        },
        MessageType::Edit => match document_id {
            Some(d) => if has_data {
                ClientMessageAction::ApplyEdit { document_id: owned(d), room: document_room(d) }
            } else {
                ClientMessageAction::Ignore
            },
            None => ClientMessageAction::Ignore,
        },
        MessageType::Activity | MessageType::Presence => match document_id {
            Some(d) => ClientMessageAction::Relay { room: document_room(d) },
            None => ClientMessageAction::Ignore,
        },
        MessageType::Notification => ClientMessageAction::Ignore,
    }
}

/// The document whose room this is, if it is a document room.
pub fn room_document(room_id: &str) -> (r: Option<Vec<char>>)
    ensures
        match r {
            Some(d) => room_id@ == document_room_name(d@),
            None => !starts_with(room_id@, "doc:"@),
        },
{
    let room = chars_of(room_id);
    let prefix = chars_of("doc:");
    if starts_with_exec(room.as_slice(), prefix.as_slice()) {
        let d = slice_range(room.as_slice(), prefix.len(), room.len());
        assert(room@ =~= prefix@ + d@);
        Some(d)
    } else {
        None
    }
}

// ---------------------------------------------------------------------------
// The connection registry
// ---------------------------------------------------------------------------

/// What the registry knows of one connected client.
#[derive(Debug)]
struct ClientRecord {
    user_id: Option<String>,
    user_name: Option<String>,
    rooms: Vec<String>,
    last_seen_ms: u64,
}

/// A client as the registry's contracts see it.
pub struct ClientView {
    pub user_id: Option<Seq<char>>,
    pub user_name: Option<Seq<char>>,
    pub rooms: Seq<Seq<char>>,
    pub last_seen_ms: u64,
}

/// A presence entry as the registry's contracts see it.
pub struct PresenceView {
    pub client_id: Seq<char>,
    pub user_id: Seq<char>,
    pub user_name: Seq<char>,
    pub cursor_position: usize,
}

/// The whole registry: clients by id, room members by room, presence by
/// document, document states by document, the broadcast sequence counter
/// and the configuration.
pub struct ManagerView {
    pub clients: Map<Seq<char>, ClientView>,
    pub rooms: Map<Seq<char>, Seq<Seq<char>>>,
    pub presence: Map<Seq<char>, Seq<PresenceView>>,
    pub documents: Map<Seq<char>, (Seq<char>, u64, Seq<(u64, OpView)>)>,
    pub seq: u64,
    pub max_connections: usize,
    pub heartbeat: HeartbeatConfig,
}

pub open spec fn opt_view(o: Option<String>) -> Option<Seq<char>> {
    match o {
        Some(s) => Some(s@),
        None => None,
    }
}

pub open spec fn presence_view(p: PresenceInfo) -> PresenceView {
    PresenceView {
        client_id: p.client_id@,
        user_id: p.user_id@,
        user_name: p.user_name@,
        cursor_position: p.cursor_position,
    }
}

pub open spec fn presence_list_view(v: Seq<PresenceInfo>) -> Seq<PresenceView> {
    v.map_values(|p: PresenceInfo| presence_view(p))
}

spec fn client_view(c: ClientRecord) -> ClientView {
    ClientView {
        user_id: opt_view(c.user_id),
        user_name: opt_view(c.user_name),
        rooms: strings_view(c.rooms@),
        last_seen_ms: c.last_seen_ms,
    }
}

/// The members of a room, none if it does not exist.
pub open spec fn room_members(v: ManagerView, room: Seq<char>) -> Seq<Seq<char>> {
    if v.rooms.contains_key(room) {
        v.rooms[room]
    } else {
        Seq::empty()
    }
}

/// The presence entries of a document, none if it has none.
pub open spec fn document_presence(v: ManagerView, document_id: Seq<char>) -> Seq<PresenceView> {
    if v.presence.contains_key(document_id) {
        v.presence[document_id]
    } else {
        Seq::empty()
    }
}

/// Rooms and presence lists are never kept empty.
pub open spec fn registry_ok(v: ManagerView) -> bool {
    &&& forall|r: Seq<char>| #[trigger] v.rooms.contains_key(r) ==> v.rooms[r].len() > 0
    &&& forall|d: Seq<char>| #[trigger] v.presence.contains_key(d) ==> v.presence[d].len() > 0
}

/// The registry after a client joins a room: it is added to the room's
/// members (a second time if it already was one) and the room to the
/// client's rooms if it is connected and did not list it yet.
pub open spec fn join_room_view(v: ManagerView, client: Seq<char>, room: Seq<char>) -> ManagerView {
    ManagerView {
        rooms: v.rooms.insert(room, room_members(v, room).push(client)),
        clients: if v.clients.contains_key(client) && !v.clients[client].rooms.contains(room) {
            v.clients.insert(client, ClientView { rooms: v.clients[client].rooms.push(room), ..v.clients[client] })
        } else {
            v.clients
        },
        ..v
    }
}

/// The registry after a client leaves a room: every occurrence of it leaves
/// the members, an emptied room is dropped, and the room leaves the
/// client's rooms.
pub open spec fn leave_room_view(v: ManagerView, client: Seq<char>, room: Seq<char>) -> ManagerView {
    ManagerView {
        rooms: if v.rooms.contains_key(room) {
            let kept = v.rooms[room].filter(|m: Seq<char>| m != client);
            if kept.len() == 0 {
                v.rooms.remove(room)
            } else {
                v.rooms.insert(room, kept)
            }
        } else {
            v.rooms
        },
        clients: if v.clients.contains_key(client) {
            v.clients.insert(
                client,
                ClientView { rooms: v.clients[client].rooms.filter(|r: Seq<char>| r != room), ..v.clients[client] },
            )
        } else {
            v.clients
        },
        ..v
    }
}

proof fn lemma_join_room_ok(v: ManagerView, client: Seq<char>, room: Seq<char>)
    requires
        registry_ok(v),
    ensures
        registry_ok(join_room_view(v, client, room)),
{
    let w = join_room_view(v, client, room);
    assert forall|r: Seq<char>| #[trigger] w.rooms.contains_key(r) implies w.rooms[r].len() > 0 by {
        if r != room {
            assert(v.rooms.contains_key(r));
        }
    }
}

proof fn lemma_leave_room_ok(v: ManagerView, client: Seq<char>, room: Seq<char>)
    requires
        registry_ok(v),
    ensures
        registry_ok(leave_room_view(v, client, room)),
{
    let w = leave_room_view(v, client, room);
    assert forall|r: Seq<char>| #[trigger] w.rooms.contains_key(r) implies w.rooms[r].len() > 0 by {
        if r != room {
            assert(v.rooms.contains_key(r));
        }
    }
}

/// The registry after a client joins a document: it joins the document's
/// room and gets a presence entry with its cursor at the start.
pub open spec fn join_document_view(
    v: ManagerView,
    client: Seq<char>,
    document_id: Seq<char>,
    user_id: Seq<char>,
    user_name: Seq<char>,
) -> ManagerView {
    let w = join_room_view(v, client, document_room_name(document_id));
    ManagerView {
        presence: w.presence.insert(
            document_id,
            document_presence(w, document_id).push(
                PresenceView { client_id: client, user_id, user_name, cursor_position: 0 },
            ),
        ),
        ..w
    }
}

/// The registry after a client leaves a document: it leaves the room, its
/// presence entries go, and an emptied presence list is dropped.
pub open spec fn leave_document_view(v: ManagerView, client: Seq<char>, document_id: Seq<char>) -> ManagerView {
    let w = leave_room_view(v, client, document_room_name(document_id));
    ManagerView {
        presence: if w.presence.contains_key(document_id) {
            let kept = w.presence[document_id].filter(|p: PresenceView| p.client_id != client);
            if kept.len() == 0 {
                w.presence.remove(document_id)
            } else {
                w.presence.insert(document_id, kept)
            }
        } else {
            w.presence
        },
        ..w
    }
}

/// The presence list with the cursor of the client's first entry moved.
pub open spec fn with_cursor(l: Seq<PresenceView>, client: Seq<char>, position: usize) -> Seq<PresenceView>
    decreases l.len(),
{
    if l.len() == 0 {
        l
    } else if l[0].client_id == client {
        l.update(0, PresenceView { cursor_position: position, ..l[0] })
    } else {
        seq![l[0]] + with_cursor(l.drop_first(), client, position)
    }
}

/// The account names of a room's members, in member order, for members
/// that are connected and signed in.
pub open spec fn users_of(members: Seq<Seq<char>>, clients: Map<Seq<char>, ClientView>) -> Seq<(Seq<char>, Seq<char>)>
    decreases members.len(),
{
    if members.len() == 0 {
        Seq::empty()
    } else {
        let rest = users_of(members.drop_last(), clients);
        let m = members.last();
        if clients.contains_key(m) && clients[m].user_id is Some && clients[m].user_name is Some {
            rest.push((clients[m].user_id.unwrap(), clients[m].user_name.unwrap()))
        } else {
            rest
        }
    }
}

/// A document's state after an edit: the edit rebased over the history
/// newer than the client's version, applied, and recorded under the next
/// version, keeping the last hundred edits.
pub open spec fn document_after_edit(
    before: (Seq<char>, u64, Seq<(u64, OpView)>),
    after: (Seq<char>, u64, Seq<(u64, OpView)>),
    op: OpView,
    client_version: u64,
) -> bool {
    let rebased = rebase(op, before.2, client_version);
    &&& after.1 == before.1 + 1
    &&& encode_utf8(after.0) == apply_bytes(rebased, encode_utf8(before.0))
    &&& after.2 == keep_last(before.2.push((after.1, rebased)), 100)
    &&& history_ok(after.1, after.2)
}

/// What a client edit came to.
#[derive(Debug, Clone, Copy, PartialEq, Eq, Structural)]
pub enum ClientEditOutcome {
    /// Its operations were applied; the document's new version, `None` if
    /// the document is not open.
    Applied(Option<u64>),
    /// One of its operations does not apply to the document.
    Refused,
}

/// A document state with one entry replaced.
pub open spec fn with_document(v: ManagerView, doc: Seq<char>, d: (Seq<char>, u64, Seq<(u64, OpView)>)) -> ManagerView {
    ManagerView { documents: v.documents.insert(doc, d), ..v }
}

/// The outcome of a client edit of one or two operations: the first is
/// made against the client's version, the second against the version the
/// first produced.  An operation that does not apply stops the edit (the
/// operations before it stay applied); on a document that is not open,
/// nothing happens.
pub open spec fn client_edit_done(
    before: ManagerView,
    after: ManagerView,
    doc: Seq<char>,
    ops: Seq<OpView>,
    version: u64,
    r: ClientEditOutcome,
) -> bool {
    if !before.documents.contains_key(doc) {
        r == ClientEditOutcome::Applied(None) && after == before
    } else if !edit_applies(before.documents[doc], ops[0], version) {
        r == ClientEditOutcome::Refused && after == before
    } else {
        exists|d1: (Seq<char>, u64, Seq<(u64, OpView)>)|
            #[trigger] document_after_edit(before.documents[doc], d1, ops[0], version) && if ops.len() == 1 {
                r == ClientEditOutcome::Applied(Some(d1.1)) && after == with_document(before, doc, d1)
            } else if !edit_applies(d1, ops[1], d1.1) {
                r == ClientEditOutcome::Refused && after == with_document(before, doc, d1)
            } else {
                exists|d2: (Seq<char>, u64, Seq<(u64, OpView)>)|
                    #[trigger] document_after_edit(d1, d2, ops[1], d1.1) && r == ClientEditOutcome::Applied(
                        Some(d2.1),
                    ) && after == with_document(before, doc, d2)
            }
    }
}

/// An edit can be applied to a document state: it rebases without
/// overflow and lands on character boundaries.
pub open spec fn edit_applies(d: (Seq<char>, u64, Seq<(u64, OpView)>), op: OpView, client_version: u64) -> bool {
    &&& d.1 < u64::MAX
    &&& rebase_fits(op, d.2, client_version)
    &&& applicable(rebase(op, d.2, client_version), encode_utf8(d.0))
}

proof fn lemma_join_document_ok(
    v: ManagerView,
    client: Seq<char>,
    document_id: Seq<char>,
    user_id: Seq<char>,
    user_name: Seq<char>,
)
    requires
        registry_ok(v),
    ensures
        registry_ok(join_document_view(v, client, document_id, user_id, user_name)),
{
    lemma_join_room_ok(v, client, document_room_name(document_id));
    let w = join_document_view(v, client, document_id, user_id, user_name);
    assert forall|d: Seq<char>| #[trigger] w.presence.contains_key(d) implies w.presence[d].len() > 0 by {
        if d != document_id {
            assert(v.presence.contains_key(d));
        }
    }
}

proof fn lemma_leave_document_ok(v: ManagerView, client: Seq<char>, document_id: Seq<char>)
    requires
        registry_ok(v),
    ensures
        registry_ok(leave_document_view(v, client, document_id)),
{
    lemma_leave_room_ok(v, client, document_room_name(document_id));
    let w = leave_document_view(v, client, document_id);
    assert forall|d: Seq<char>| #[trigger] w.presence.contains_key(d) implies w.presence[d].len() > 0 by {
        if d != document_id {
            assert(v.presence.contains_key(d));
        }
    }
}

proof fn lemma_with_cursor_len(l: Seq<PresenceView>, client: Seq<char>, position: usize)
    ensures
        with_cursor(l, client, position).len() == l.len(),
    decreases l.len(),
{
    if l.len() > 0 && l[0].client_id != client {
        lemma_with_cursor_len(l.drop_first(), client, position);
    }
}

/// Whether member `m` of `room` goes when the clients `gone` disconnect: it
/// is one of them and lists the room among its rooms.
pub open spec fn leaves_with(
    clients: Map<Seq<char>, ClientView>,
    gone: Set<Seq<char>>,
    m: Seq<char>,
    room: Seq<char>,
) -> bool {
    gone.contains(m) && clients.contains_key(m) && clients[m].rooms.contains(room)
}

/// The registry after the clients `gone` disconnect: they are forgotten,
/// they leave every room they listed (rooms left empty are dropped), and
/// their presence in the documents of those rooms goes (emptied presence
/// lists are dropped).  Document states stay.
pub open spec fn without_clients(v: ManagerView, gone: Set<Seq<char>>) -> ManagerView {
    ManagerView {
        clients: v.clients.remove_keys(gone),
        rooms: drop_entries(v.rooms, |r: Seq<char>, m: Seq<char>| !leaves_with(v.clients, gone, m, r)),
        presence: drop_entries(
            v.presence,
            |d: Seq<char>, p: PresenceView|
                !leaves_with(v.clients, gone, p.client_id, document_room_name(d)),
        ),
        ..v
    }
}

/// The documents of the document rooms in a room list, in order.
pub open spec fn document_rooms(rooms: Seq<Seq<char>>) -> Seq<Seq<char>>
    decreases rooms.len(),
{
    if rooms.len() == 0 {
        Seq::empty()
    } else {
        let rest = document_rooms(rooms.drop_last());
        let r = rooms.last();
        if starts_with(r, "doc:"@) {
            rest.push(r.skip("doc:"@.len() as int))
        } else {
            rest
        }
    }
}

/// The "left" notices owed when a client disconnects: one per document
/// room it was in, naming the document and the client's user, if it was
/// signed in.
pub open spec fn leave_notices(c: ClientView) -> Seq<(Seq<char>, Seq<char>)> {
    match c.user_id {
        Some(u) => document_rooms(c.rooms).map_values(|d: Seq<char>| (d, u)),
        None => Seq::empty(),
    }
}

/// Keeps the members of a room other than `c`, where the room is listed.
pub open spec fn room_keep(c: Seq<char>, listed: Seq<Seq<char>>) -> spec_fn(Seq<char>, Seq<char>) -> bool {
    |r: Seq<char>, m: Seq<char>| !(m == c && listed.contains(r))
}

/// Keeps the presence entries other than `c`'s, where the document's room
/// is listed.
pub open spec fn presence_keep(c: Seq<char>, listed: Seq<Seq<char>>) -> spec_fn(Seq<char>, PresenceView) -> bool {
    |d: Seq<char>, p: PresenceView| !(p.client_id == c && listed.contains(document_room_name(d)))
}

proof fn lemma_doc_room_injective(a: Seq<char>, b: Seq<char>)
    requires
        document_room_name(a) == document_room_name(b),
    ensures
        a == b,
{
    let p = "doc:"@;
    assert((p + a).skip(p.len() as int) =~= a);
    assert((p + b).skip(p.len() as int) =~= b);
}

proof fn lemma_doc_room_prefix(a: Seq<char>)
    ensures
        starts_with(document_room_name(a), "doc:"@),
{
    let p = "doc:"@;
    assert((p + a).subrange(0, p.len() as int) =~= p);
}

/// A client has not been seen for longer than the timeout.
pub open spec fn is_stale(c: ClientView, now_ms: u64, timeout_secs: u64) -> bool {
    now_ms > c.last_seen_ms && now_ms - c.last_seen_ms > timeout_secs * 1000
}

/// The connected clients that have not been seen for longer than the timeout.
pub open spec fn stale_clients(v: ManagerView, now_ms: u64, timeout_secs: u64) -> Set<Seq<char>> {
    Set::new(|id: Seq<char>| v.clients.contains_key(id) && is_stale(v.clients[id], now_ms, timeout_secs))
}

/// One of the clients `gone` was in the document's room.
pub open spec fn touches_document(v: ManagerView, gone: Set<Seq<char>>, d: Seq<char>) -> bool {
    exists|c: Seq<char>|
        gone.contains(c) && v.clients.contains_key(c) && #[trigger] v.clients[c].rooms.contains(
            document_room_name(d),
        )
}

/// The registry after the stale clients are dropped: as if each had
/// disconnected, and the state of every document whose room they were in
/// and which is now without members is dropped too.
pub open spec fn after_cleanup(v: ManagerView, now_ms: u64, timeout_secs: u64) -> ManagerView {
    let gone = stale_clients(v, now_ms, timeout_secs);
    let w = without_clients(v, gone);
    ManagerView {
        documents: v.documents.remove_keys(
            Set::new(
                |d: Seq<char>|
                    touches_document(v, gone, d) && !w.rooms.contains_key(document_room_name(d)),
            ),
        ),
        ..w
    }
}

proof fn lemma_document_rooms_contains(rs: Seq<Seq<char>>, d: Seq<char>)
    ensures
        document_rooms(rs).contains(d) == rs.contains(document_room_name(d)),
    decreases rs.len(),
{
    if rs.len() > 0 {
        let dl = rs.drop_last();
        lemma_document_rooms_contains(dl, d);
        let r = rs.last();
        assert(rs =~= dl.push(r));
        assert(rs.contains(document_room_name(d)) == (dl.contains(document_room_name(d)) || r
            == document_room_name(d))) by {
            if rs.contains(document_room_name(d)) {
                let j = choose|j: int| 0 <= j < rs.len() && #[trigger] rs[j] == document_room_name(d);
                if j < rs.len() - 1 {
                    assert(dl[j] == rs[j]);
                }
            }
            if dl.contains(document_room_name(d)) {
                let j = choose|j: int| 0 <= j < dl.len() && #[trigger] dl[j] == document_room_name(d);
                assert(rs[j] == dl[j]);
            }
        }
        let rest = document_rooms(dl);
        if starts_with(r, "doc:"@) {
            let e = r.skip("doc:"@.len() as int);
            assert(r =~= document_room_name(e));
            if r == document_room_name(d) {
                lemma_doc_room_injective(e, d);
            }
            assert(rest.push(e).contains(d) == (rest.contains(d) || e == d)) by {
                if rest.push(e).contains(d) {
                    let j = choose|j: int| 0 <= j < rest.len() + 1 && #[trigger] rest.push(e)[j] == d;
                    if j < rest.len() {
                        assert(rest[j] == d);
                    }
                }
                if rest.contains(d) {
                    let j = choose|j: int| 0 <= j < rest.len() && #[trigger] rest[j] == d;
                    assert(rest.push(e)[j] == d);
                }
                if e == d {
                    assert(rest.push(e)[rest.len() as int] == d);
                }
            }
        } else {
            if r == document_room_name(d) {
                lemma_doc_room_prefix(d);
            }
        }
    }
}

/// A connected client that joins a room lists the room and is one of its
/// members.
pub proof fn lemma_join_room_lists(v: ManagerView, client: Seq<char>, room: Seq<char>)
    requires
        v.clients.contains_key(client),
    ensures
        join_room_view(v, client, room).clients[client].rooms.contains(room),
        room_members(join_room_view(v, client, room), room).contains(client),
{
    let w = join_room_view(v, client, room);
    let m = room_members(v, room).push(client);
    assert(m[m.len() - 1] == client);
    if !v.clients[client].rooms.contains(room) {
        let rs = v.clients[client].rooms.push(room);
        assert(rs[rs.len() - 1] == room);
    }
}

/// A client that leaves a room is no longer among its members nor lists it.
pub proof fn lemma_leave_room_clears(v: ManagerView, client: Seq<char>, room: Seq<char>)
    ensures
        !room_members(leave_room_view(v, client, room), room).contains(client),
        leave_room_view(v, client, room).clients.contains_key(client) ==> !leave_room_view(
            v,
            client,
            room,
        ).clients[client].rooms.contains(room),
{
    broadcast use vstd::seq_lib::group_filter_ensures;

    let w = leave_room_view(v, client, room);
    if v.rooms.contains_key(room) {
        let kept = v.rooms[room].filter(|m: Seq<char>| m != client);
        if kept.contains(client) {
            let j = choose|j: int| 0 <= j < kept.len() && kept[j] == client;
            assert((|m: Seq<char>| m != client)(kept[j]));
        }
    }
    if v.clients.contains_key(client) {
        let rs = v.clients[client].rooms.filter(|r: Seq<char>| r != room);
        if rs.contains(room) {
            let j = choose|j: int| 0 <= j < rs.len() && rs[j] == room;
            assert((|r: Seq<char>| r != room)(rs[j]));
        }
    }
}

/// A client that leaves a document has no presence entry left there.
pub proof fn lemma_leave_document_clears(v: ManagerView, client: Seq<char>, document_id: Seq<char>)
    ensures
        forall|i: int|
            0 <= i < document_presence(leave_document_view(v, client, document_id), document_id).len()
                ==> (#[trigger] document_presence(leave_document_view(v, client, document_id), document_id)[i]).client_id
                != client,
{
    broadcast use vstd::seq_lib::group_filter_ensures;

    let w = leave_room_view(v, client, document_room_name(document_id));
    if w.presence.contains_key(document_id) {
        let kept = w.presence[document_id].filter(|p: PresenceView| p.client_id != client);
        assert forall|i: int| 0 <= i < kept.len() implies (#[trigger] kept[i]).client_id != client by {
            assert((|p: PresenceView| p.client_id != client)(kept[i]));
        }
    }
}

/// A disconnected client is forgotten, is a member of none of the rooms it
/// had joined, and has no presence entry in their documents; the registry
/// stays consistent.
pub proof fn lemma_removed_client_is_gone(v: ManagerView, client: Seq<char>)
    requires
        v.clients.contains_key(client),
    ensures
        !without_clients(v, set![client]).clients.contains_key(client),
        registry_ok(without_clients(v, set![client])),
        forall|r: Seq<char>|
            #[trigger] v.clients[client].rooms.contains(r) ==> !room_members(without_clients(v, set![client]), r).contains(
                client,
            ),
        forall|d: Seq<char>, i: int|
            v.clients[client].rooms.contains(document_room_name(d)) && 0 <= i < document_presence(
                without_clients(v, set![client]),
                d,
            ).len() ==> (#[trigger] document_presence(without_clients(v, set![client]), d)[i]).client_id != client,
{
    broadcast use vstd::seq_lib::group_filter_ensures;

    let w = without_clients(v, set![client]);
    let kr = |r: Seq<char>, m: Seq<char>| !leaves_with(v.clients, set![client], m, r);
    let kp = |d: Seq<char>, p: PresenceView| !leaves_with(v.clients, set![client], p.client_id, document_room_name(d));
    lemma_drop_nonempty(v.rooms, kr);
    lemma_drop_nonempty(v.presence, kp);
    assert forall|r: Seq<char>| #[trigger] v.clients[client].rooms.contains(r) implies !room_members(w, r).contains(
        client,
    ) by {
        if w.rooms.contains_key(r) {
            let kept = v.rooms[r].filter(|m: Seq<char>| kr(r, m));
            if kept.contains(client) {
                let j = choose|j: int| 0 <= j < kept.len() && kept[j] == client;
                assert((|m: Seq<char>| kr(r, m))(kept[j]));
            }
        }
    }
    assert forall|d: Seq<char>, i: int|
        v.clients[client].rooms.contains(document_room_name(d)) && 0 <= i < document_presence(w, d).len()
            implies (#[trigger] document_presence(w, d)[i]).client_id != client by {
        let kept = v.presence[d].filter(|p: PresenceView| kp(d, p));
        assert((|p: PresenceView| kp(d, p))(kept[i]));
    }
}

/// After a cleanup no stale client is left, every fresh client is kept as
/// it was, and the registry stays consistent.
pub proof fn lemma_cleanup_keeps_fresh(v: ManagerView, now_ms: u64, timeout_secs: u64)
    ensures
        forall|id: Seq<char>| #[trigger]
            after_cleanup(v, now_ms, timeout_secs).clients.contains_key(id) <==> (v.clients.contains_key(id)
                && !is_stale(v.clients[id], now_ms, timeout_secs)),
        forall|id: Seq<char>| #[trigger]
            after_cleanup(v, now_ms, timeout_secs).clients.contains_key(id) ==> after_cleanup(
                v,
                now_ms,
                timeout_secs,
            ).clients[id] == v.clients[id],
        registry_ok(after_cleanup(v, now_ms, timeout_secs)),
{
    let gone = stale_clients(v, now_ms, timeout_secs);
    lemma_drop_nonempty(v.rooms, |r: Seq<char>, m: Seq<char>| !leaves_with(v.clients, gone, m, r));
    lemma_drop_nonempty(
        v.presence,
        |d: Seq<char>, p: PresenceView| !leaves_with(v.clients, gone, p.client_id, document_room_name(d)),
    );
}

/// Tracks connected clients, the rooms they are in, who is present in
/// which document, and the state of each open document.
pub struct ConnectionManager {
    clients: Table<ClientRecord>,
    rooms: Table<Vec<String>>,
    document_states: Table<DocumentState>,
    document_presence: Table<Vec<PresenceInfo>>,
    seq_counter: u64,
    max_connections: usize,
    heartbeat_config: HeartbeatConfig,
}

impl View for ConnectionManager {
    type V = ManagerView;

    closed spec fn view(&self) -> ManagerView {
        ManagerView {
            clients: self.clients@.map_values(|c: ClientRecord| client_view(c)),
            rooms: self.rooms@.map_values(|m: Vec<String>| strings_view(m@)),
            presence: self.document_presence@.map_values(|l: Vec<PresenceInfo>| presence_list_view(l@)),
            documents: self.document_states@.map_values(|d: DocumentState| d@),
            seq: self.seq_counter,
            max_connections: self.max_connections,
            heartbeat: self.heartbeat_config,
        }
    }
}

/// Copies the strings of a list.
fn copy_strings(v: &Vec<String>) -> (r: Vec<String>)
    ensures
        strings_view(r@) == strings_view(v@),
{
    let mut out: Vec<String> = Vec::new();
    let mut i: usize = 0;
    while i < v.len()
        invariant
            i <= v@.len(),
            strings_view(out@) == strings_view(v@.take(i as int)),
        decreases v@.len() - i,
    {
        let ghost before = out@;
        out.push(v[i].clone());
        assert(strings_view(out@) =~= strings_view(before).push(v@[i as int]@));
        assert(v@.take(i as int + 1) =~= v@.take(i as int).push(v@[i as int]));
        assert(strings_view(v@.take(i as int + 1)) =~= strings_view(v@.take(i as int)).push(
            v@[i as int]@,
        ));
        i = i + 1;
    }
    assert(v@.take(v@.len() as int) =~= v@);
    out
}

/// The strings of `v` other than `x`.
pub(crate) fn strings_without(v: &Vec<String>, x: &str) -> (r: Vec<String>)
    ensures
        strings_view(r@) == strings_view(v@).filter(|m: Seq<char>| m != x@),
{
    let xs = crate::text::chars_of(x);
    let mut out: Vec<String> = Vec::new();
    let mut i: usize = 0;
    let ghost pred = |m: Seq<char>| m != x@;
    while i < v.len()
        invariant
            i <= v@.len(),
            xs@ == x@,
            pred == (|m: Seq<char>| m != x@),
            strings_view(out@) == strings_view(v@.take(i as int)).filter(pred),
        decreases v@.len() - i,
    {
        let e = crate::text::chars_of(v[i].as_str());
        proof {
            assert(strings_view(v@.take(i as int + 1)) =~= strings_view(v@.take(i as int)).push(v@[i as int]@));
            strings_view(v@.take(i as int)).lemma_filter_push(v@[i as int]@, pred);
        }
        if !chars_eq(e.as_slice(), xs.as_slice()) {
            let ghost before = out@;
            out.push(v[i].clone());
            assert(strings_view(out@) =~= strings_view(before).push(v@[i as int]@));
        }
        i = i + 1;
    }
    assert(v@.take(v@.len() as int) =~= v@);
    out
}

/// A copy of a presence entry.
fn copy_presence(p: &PresenceInfo) -> (r: PresenceInfo)
    ensures
        presence_view(r) == presence_view(*p),
{
    PresenceInfo {
        client_id: p.client_id.clone(),
        user_id: p.user_id.clone(),
        user_name: p.user_name.clone(),
        cursor_position: p.cursor_position,
    }
}

/// A copy of a presence list.
fn copy_presence_list(v: &Vec<PresenceInfo>) -> (r: Vec<PresenceInfo>)
    ensures
        presence_list_view(r@) == presence_list_view(v@),
{
    let mut out: Vec<PresenceInfo> = Vec::new();
    let mut i: usize = 0;
    while i < v.len()
        invariant
            i <= v@.len(),
            presence_list_view(out@) == presence_list_view(v@.take(i as int)),
        decreases v@.len() - i,
    {
        let ghost before = out@;
        out.push(copy_presence(&v[i]));
        assert(presence_list_view(out@) =~= presence_list_view(before).push(presence_view(v@[i as int])));
        assert(v@.take(i as int + 1) =~= v@.take(i as int).push(v@[i as int]));
        assert(presence_list_view(v@.take(i as int + 1)) =~= presence_list_view(v@.take(i as int)).push(
            presence_view(v@[i as int]),
        ));
        i = i + 1;
    }
    assert(v@.take(v@.len() as int) =~= v@);
    out
}

/// The presence entries of `v` that are not the client's.
fn presence_without_client(v: &Vec<PresenceInfo>, client: &str) -> (r: Vec<PresenceInfo>)
    ensures
        presence_list_view(r@) == presence_list_view(v@).filter(|p: PresenceView| p.client_id != client@),
{
    let xs = crate::text::chars_of(client);
    let mut out: Vec<PresenceInfo> = Vec::new();
    let mut i: usize = 0;
    let ghost pred = |p: PresenceView| p.client_id != client@;
    while i < v.len()
        invariant
            i <= v@.len(),
            xs@ == client@,
            pred == (|p: PresenceView| p.client_id != client@),
            presence_list_view(out@) == presence_list_view(v@.take(i as int)).filter(pred),
        decreases v@.len() - i,
    {
        let e = crate::text::chars_of(v[i].client_id.as_str());
        proof {
            assert(presence_list_view(v@.take(i as int + 1)) =~= presence_list_view(v@.take(i as int)).push(
                presence_view(v@[i as int]),
            ));
            presence_list_view(v@.take(i as int)).lemma_filter_push(presence_view(v@[i as int]), pred);
        }
        if !chars_eq(e.as_slice(), xs.as_slice()) {
            let ghost before = out@;
            out.push(copy_presence(&v[i]));
            assert(presence_list_view(out@) =~= presence_list_view(before).push(presence_view(v@[i as int])));
        }
        i = i + 1;
    }
    assert(v@.take(v@.len() as int) =~= v@);
    out
}

/// Whether `v` holds `x`.
fn strings_contain(v: &Vec<String>, x: &str) -> (r: bool)
    ensures
        r == strings_view(v@).contains(x@),
{
    let xs = crate::text::chars_of(x);
    let mut i: usize = 0;
    while i < v.len()
        invariant
            i <= v@.len(),
            xs@ == x@,
            forall|j: int| 0 <= j < i ==> (#[trigger] v@[j])@ != x@,
        decreases v@.len() - i,
    {
        let e = crate::text::chars_of(v[i].as_str());
        if chars_eq(e.as_slice(), xs.as_slice()) {
            assert(strings_view(v@)[i as int] == x@);
            return true;
        }
        i = i + 1;
    }
    proof {
        if strings_view(v@).contains(x@) {
            let j = choose|j: int| 0 <= j < strings_view(v@).len() && strings_view(v@)[j] == x@;
            assert(v@[j]@ == x@);
        }
    }
    false
}

impl ConnectionManager {
    /// The registry is consistent: no room and no presence list is empty.
    pub closed spec fn well_formed(&self) -> bool {
        registry_ok(self@)
    }

    pub fn new() -> (r: Self)
        ensures
            r.well_formed(),
            r@.clients.is_empty() && r@.rooms.is_empty() && r@.presence.is_empty()
                && r@.documents.is_empty(),
            r@.seq == 0,
            r@.max_connections == 1000,
            r@.heartbeat == (HeartbeatConfig { interval_secs: 30, timeout_secs: 10, enabled: true }),
    {
        Self::with_config(1000, 30)
    }

    pub fn with_config(max_connections: usize, heartbeat_interval_secs: u64) -> (r: Self)
        ensures
            r.well_formed(),
            r@.clients.is_empty() && r@.rooms.is_empty() && r@.presence.is_empty()
                && r@.documents.is_empty(),
            r@.seq == 0,
            r@.max_connections == max_connections,
            r@.heartbeat == (HeartbeatConfig {
                interval_secs: heartbeat_interval_secs,
                timeout_secs: 10,
                enabled: true,
            }),
    {
        let d = HeartbeatConfig::default();
        let r = ConnectionManager {
            clients: Table::new(),
            rooms: Table::new(),
            document_states: Table::new(),
            document_presence: Table::new(),
            seq_counter: 0,
            max_connections,
            heartbeat_config: HeartbeatConfig { interval_secs: heartbeat_interval_secs, ..d },
        };
        assert(r@.clients =~= Map::empty());
        assert(r@.rooms =~= Map::empty());
        assert(r@.presence =~= Map::empty());
        assert(r@.documents =~= Map::empty());
        r
    }

    pub fn max_connections(&self) -> (r: usize)
        ensures
            r == self@.max_connections,
    {
        self.max_connections
    }

    pub fn heartbeat_config(&self) -> (r: &HeartbeatConfig)
        ensures
            *r == self@.heartbeat,
    {
        &self.heartbeat_config
    }

    /// The number of connected clients.
    pub fn client_count(&self) -> (r: usize)
        ensures
            r == self@.clients.dom().len(),
    {
        let n = self.clients.len();
        assert(self@.clients.dom() =~= self.clients@.dom());
        n
    }

    /// The number of connected clients.
    pub fn active_connection_count(&self) -> (r: usize)
        ensures
            r == self@.clients.dom().len(),
    {
        self.client_count()
    }

    /// The number of member entries of a room.
    pub fn room_count(&self, room_id: &str) -> (r: usize)
        ensures
            r == room_members(self@, room_id@).len(),
    {
        match self.rooms.get(room_id) {
            Some(m) => m.len(),
            None => 0,
        }
    }

    /// Registers a client, seen now; a client of the same id is replaced.
    pub fn add_client(&mut self, client_id: String, now_ms: u64)
        ensures
            final(self)@ == (ManagerView {
                clients: old(self)@.clients.insert(
                    client_id@,
                    ClientView {
                        user_id: None,
                        user_name: None,
                        rooms: Seq::empty(),
                        last_seen_ms: now_ms,
                    },
                ),
                ..old(self)@
            }),
    {
        let rec = ClientRecord { user_id: None, user_name: None, rooms: Vec::new(), last_seen_ms: now_ms };
        assert(strings_view(rec.rooms@) =~= Seq::<Seq<char>>::empty());
        self.clients.insert(client_id, rec);
        assert(self@.clients =~= old(self)@.clients.insert(
            client_id@,
            ClientView { user_id: None, user_name: None, rooms: Seq::empty(), last_seen_ms: now_ms },
        ));
    }
    /// Records the account behind a connected client.
    pub fn set_user_info(&mut self, client_id: &str, user_id: String, user_name: String)
        ensures
            final(self)@ == (ManagerView {
                clients: if old(self)@.clients.contains_key(client_id@) {
                    old(self)@.clients.insert(
                        client_id@,
                        ClientView {
                            user_id: Some(user_id@),
                            user_name: Some(user_name@),
                            ..old(self)@.clients[client_id@]
                        },
                    )
                } else {
                    old(self)@.clients
                },
                ..old(self)@
            }),
    {
        match self.clients.remove(client_id) {
            Some(c) => {
                let ghost before = c;
                let c2 = ClientRecord { user_id: Some(user_id), user_name: Some(user_name), ..c };
                self.clients.insert(owned(client_id), c2);
                assert(self@.clients =~= old(self)@.clients.insert(
                    client_id@,
                    ClientView {
                        user_id: Some(user_id@),
                        user_name: Some(user_name@),
                        ..old(self)@.clients[client_id@]
                    },
                ));
            },
            None => {
                assert(self@.clients =~= old(self)@.clients);
            },
        }
    }

    /// Marks a client as seen now.
    pub fn touch_client(&mut self, client_id: &str, now_ms: u64)
        ensures
            final(self)@ == (ManagerView {
                clients: if old(self)@.clients.contains_key(client_id@) {
                    old(self)@.clients.insert(
                        client_id@,
                        ClientView { last_seen_ms: now_ms, ..old(self)@.clients[client_id@] },
                    )
                } else {
                    old(self)@.clients
                },
                ..old(self)@
            }),
    {
        match self.clients.remove(client_id) {
            Some(c) => {
                let c2 = ClientRecord { last_seen_ms: now_ms, ..c };
                self.clients.insert(owned(client_id), c2);
                assert(self@.clients =~= old(self)@.clients.insert(
                    client_id@,
                    ClientView { last_seen_ms: now_ms, ..old(self)@.clients[client_id@] },
                ));
            },
            None => {
                assert(self@.clients =~= old(self)@.clients);
            },
        }
    }

    /// Adds a client to a room.
    pub fn join_room(&mut self, client_id: &str, room_id: &str)
        requires
            old(self).well_formed(),
        ensures
            final(self).well_formed(),
            final(self)@ == join_room_view(old(self)@, client_id@, room_id@),
    {
        let mut members = match self.rooms.remove(room_id) {
            Some(m) => m,
            None => Vec::new(),
        };
        let ghost m0 = members@;
        members.push(owned(client_id));
        assert(strings_view(members@) =~= room_members(old(self)@, room_id@).push(client_id@));
        self.rooms.insert(owned(room_id), members);
        match self.clients.remove(client_id) {
            Some(c) => {
                if strings_contain(&c.rooms, room_id) {
                    self.clients.insert(owned(client_id), c);
                    assert(self@.clients =~= old(self)@.clients);
                } else {
                    let mut rooms = c.rooms;
                    let ghost r0 = rooms@;
                    rooms.push(owned(room_id));
                    assert(strings_view(rooms@) =~= strings_view(r0).push(room_id@));
                    let c2 = ClientRecord { rooms, ..c };
                    self.clients.insert(owned(client_id), c2);
                    assert(self@.clients =~= old(self)@.clients.insert(
                        client_id@,
                        ClientView {
                            rooms: old(self)@.clients[client_id@].rooms.push(room_id@),
                            ..old(self)@.clients[client_id@]
                        },
                    ));
                }
            },
            None => {
                assert(self@.clients =~= old(self)@.clients);
            },
        }
        assert(self@.rooms =~= old(self)@.rooms.insert(
            room_id@,
            room_members(old(self)@, room_id@).push(client_id@),
        ));
        proof {
            lemma_join_room_ok(old(self)@, client_id@, room_id@);
        }
    }

    /// Removes a client from a room.
    pub fn leave_room(&mut self, client_id: &str, room_id: &str)
        requires
            old(self).well_formed(),
        ensures
            final(self).well_formed(),
            final(self)@ == leave_room_view(old(self)@, client_id@, room_id@),
    {
        match self.rooms.remove(room_id) {
            Some(m) => {
                let kept = strings_without(&m, client_id);
                if kept.len() > 0 {
                    self.rooms.insert(owned(room_id), kept);
                    assert(self@.rooms =~= old(self)@.rooms.insert(
                        room_id@,
                        old(self)@.rooms[room_id@].filter(|m: Seq<char>| m != client_id@),
                    ));
                } else {
                    assert(self@.rooms =~= old(self)@.rooms.remove(room_id@));
                }
            },
            None => {
                assert(self@.rooms =~= old(self)@.rooms);
            },
        }
        match self.clients.remove(client_id) {
            Some(c) => {
                let rooms = strings_without(&c.rooms, room_id);
                let c2 = ClientRecord { rooms, ..c };
                self.clients.insert(owned(client_id), c2);
                assert(self@.clients =~= old(self)@.clients.insert(
                    client_id@,
                    ClientView {
                        rooms: old(self)@.clients[client_id@].rooms.filter(|r: Seq<char>| r != room_id@),
                        ..old(self)@.clients[client_id@]
                    },
                ));
            },
            None => {
                assert(self@.clients =~= old(self)@.clients);
            },
        }
        proof {
            lemma_leave_room_ok(old(self)@, client_id@, room_id@);
        }
    }

    /// Whether a connected client lists the room among its rooms.
    pub fn is_client_in_room(&self, client_id: &str, room_id: &str) -> (r: bool)
        ensures
            r == (self@.clients.contains_key(client_id@) && self@.clients[client_id@].rooms.contains(
                room_id@,
            )),
    {
        match self.clients.get(client_id) {
            Some(c) => strings_contain(&c.rooms, room_id),
            None => false,
        }
    }

    /// The sequence number for the next broadcast; the counter wraps.
    pub fn broadcast(&mut self) -> (r: u64)
        ensures
            r == old(self)@.seq,
            final(self)@ == (ManagerView {
                seq: if old(self)@.seq == u64::MAX { 0 } else { (old(self)@.seq + 1) as u64 },
                ..old(self)@
            }),
    {
        let r = self.seq_counter;
        self.seq_counter = self.seq_counter.wrapping_add(1);
        r
    }

    /// The sequence number for a broadcast to a room, if the room exists;
    /// a message to a room without members is not sent and takes no number.
    pub fn broadcast_to_room(&mut self, room_id: &str) -> (r: Option<u64>)
        ensures
            old(self)@.rooms.contains_key(room_id@) ==> r == Some(old(self)@.seq) && final(self)@
                == (ManagerView {
                seq: if old(self)@.seq == u64::MAX { 0 } else { (old(self)@.seq + 1) as u64 },
                ..old(self)@
            }),
            !old(self)@.rooms.contains_key(room_id@) ==> r is None && final(self)@ == old(self)@,
    {
        if self.rooms.contains_key(room_id) {
            Some(self.broadcast())
        } else {
            None
        }
    }
    /// Adds a client to a document's room and records its presence there.
    pub fn join_document(&mut self, client_id: &str, document_id: &str, user_id: &str, user_name: &str)
        requires
            old(self).well_formed(),
        ensures
            final(self).well_formed(),
            final(self)@ == join_document_view(old(self)@, client_id@, document_id@, user_id@, user_name@),
    {
        let room = document_room(document_id);
        self.join_room(client_id, room.as_str());
        let ghost mid = self@;
        let presence = PresenceInfo {
            client_id: owned(client_id),
            user_id: owned(user_id),
            user_name: owned(user_name),
            cursor_position: 0,
        };
        let mut list = match self.document_presence.remove(document_id) {
            Some(l) => l,
            None => Vec::new(),
        };
        let ghost l0 = list@;
        list.push(presence);
        assert(presence_list_view(list@) =~= presence_list_view(l0).push(presence_view(presence)));
        assert(presence_list_view(list@) =~= document_presence(mid, document_id@).push(
            PresenceView {
                client_id: client_id@,
                user_id: user_id@,
                user_name: user_name@,
                cursor_position: 0,
            },
        ));
        self.document_presence.insert(owned(document_id), list);
        assert(self@.presence =~= mid.presence.insert(
            document_id@,
            document_presence(mid, document_id@).push(
                PresenceView {
                    client_id: client_id@,
                    user_id: user_id@,
                    user_name: user_name@,
                    cursor_position: 0,
                },
            ),
        ));
        proof {
            lemma_join_document_ok(old(self)@, client_id@, document_id@, user_id@, user_name@);
        }
    }

    /// Removes a client from a document's room and its presence there.
    pub fn leave_document(&mut self, client_id: &str, document_id: &str)
        requires
            old(self).well_formed(),
        ensures
            final(self).well_formed(),
            final(self)@ == leave_document_view(old(self)@, client_id@, document_id@),
    {
        let room = document_room(document_id);
        self.leave_room(client_id, room.as_str());
        let ghost mid = self@;
        match self.document_presence.remove(document_id) {
            Some(l) => {
                let kept = presence_without_client(&l, client_id);
                if kept.len() > 0 {
                    self.document_presence.insert(owned(document_id), kept);
                    assert(self@.presence =~= mid.presence.insert(
                        document_id@,
                        mid.presence[document_id@].filter(|p: PresenceView| p.client_id != client_id@),
                    ));
                } else {
                    assert(self@.presence =~= mid.presence.remove(document_id@));
                }
            },
            None => {
                assert(self@.presence =~= mid.presence);
            },
        }
        proof {
            lemma_leave_document_ok(old(self)@, client_id@, document_id@);
        }
    }

    /// The presence entries of a document.
    pub fn get_document_presence(&self, document_id: &str) -> (r: Vec<PresenceInfo>)
        ensures
            presence_list_view(r@) == document_presence(self@, document_id@),
    {
        match self.document_presence.get(document_id) {
            Some(l) => copy_presence_list(l),
            None => {
                let r: Vec<PresenceInfo> = Vec::new();
                assert(presence_list_view(r@) =~= Seq::<PresenceView>::empty());
                r
            },
        }
    }

    /// Moves the cursor of the client's first presence entry in a document.
    pub fn update_cursor(&mut self, client_id: &str, document_id: &str, cursor_position: usize)
        requires
            old(self).well_formed(),
        ensures
            final(self).well_formed(),
            final(self)@ == (ManagerView {
                presence: if old(self)@.presence.contains_key(document_id@) {
                    old(self)@.presence.insert(
                        document_id@,
                        with_cursor(old(self)@.presence[document_id@], client_id@, cursor_position),
                    )
                } else {
                    old(self)@.presence
                },
                ..old(self)@
            }),
    {
        match self.document_presence.remove(document_id) {
            Some(l) => {
                let mut list = l;
                let xs = crate::text::chars_of(client_id);
                let ghost whole = presence_list_view(list@);
                let mut i: usize = 0;
                assert(whole.take(0) + whole.skip(0) =~= whole);
                while i < list.len()
                    invariant
                        i <= list@.len(),
                        xs@ == client_id@,
                        whole == presence_list_view(list@),
                        with_cursor(whole, client_id@, cursor_position) == whole.take(i as int)
                            + with_cursor(whole.skip(i as int), client_id@, cursor_position),
                    ensures
                        i <= list@.len(),
                        whole == presence_list_view(list@),
                        with_cursor(whole, client_id@, cursor_position) == whole.take(i as int)
                            + with_cursor(whole.skip(i as int), client_id@, cursor_position),
                        i < list@.len() ==> whole[i as int].client_id == client_id@,
                    decreases list@.len() - i,
                {
                    let e = crate::text::chars_of(list[i].client_id.as_str());
                    if chars_eq(e.as_slice(), xs.as_slice()) {
                        break;
                    }
                    proof {
                        let rest = whole.skip(i as int);
                        assert(rest[0] == whole[i as int]);
                        assert(rest.drop_first() =~= whole.skip(i as int + 1));
                        assert(whole.take(i as int + 1) =~= whole.take(i as int) + seq![whole[i as int]]);
                    }
                    i = i + 1;
                }
                let ghost target = with_cursor(whole, client_id@, cursor_position);
                if i < list.len() {
                    let ghost rest = whole.skip(i as int);
                    assert(rest[0] == whole[i as int]);
                    let p = copy_presence(&list[i]);
                    let moved = PresenceInfo { cursor_position, ..p };
                    list.set(i, moved);
                    assert(with_cursor(rest, client_id@, cursor_position) == rest.update(
                        0,
                        PresenceView { cursor_position, ..rest[0] },
                    ));
                    assert(presence_list_view(list@) =~= target);
                } else {
                    assert(whole.skip(i as int) =~= Seq::<PresenceView>::empty());
                    assert(whole.take(i as int) =~= whole);
                }
                self.document_presence.insert(owned(document_id), list);
                assert(self@.presence =~= old(self)@.presence.insert(document_id@, target));
                proof {
                    lemma_with_cursor_len(whole, client_id@, cursor_position);
                    assert forall|d: Seq<char>| #[trigger] self@.presence.contains_key(d) implies self@.presence[d].len() > 0 by {
                        if d != document_id@ {
                            assert(old(self)@.presence.contains_key(d));
                        }
                    }
                    assert(self@.rooms == old(self)@.rooms);
                    assert(registry_ok(self@));
                }
            },
            None => {
                assert(self@.presence =~= old(self)@.presence);
            },
        }
    }

    /// The (user id, user name) of each signed-in member of a room, in
    /// member order.
    pub fn get_room_users(&self, room_id: &str) -> (r: Vec<(String, String)>)
        ensures
            r@.map_values(|u: (String, String)| (u.0@, u.1@)) == users_of(
                room_members(self@, room_id@),
                self@.clients,
            ),
    {
        let mut out: Vec<(String, String)> = Vec::new();
        match self.rooms.get(room_id) {
            Some(members) => {
                let ghost ms = strings_view(members@);
                let mut i: usize = 0;
                while i < members.len()
                    invariant
                        i <= members@.len(),
                        ms == strings_view(members@),
                        ms == room_members(self@, room_id@),
                        out@.map_values(|u: (String, String)| (u.0@, u.1@)) == users_of(
                            ms.take(i as int),
                            self@.clients,
                        ),
                    decreases members@.len() - i,
                {
                    proof {
                        assert(ms.take(i as int + 1).drop_last() =~= ms.take(i as int));
                        assert(ms.take(i as int + 1).last() == members@[i as int]@);
                    }
                    match self.clients.get(members[i].as_str()) {
                        Some(c) => {
                            match (&c.user_id, &c.user_name) {
                                (Some(u), Some(n)) => {
                                    let ghost before = out@;
                                    out.push((u.clone(), n.clone()));
                                    assert(out@.map_values(|u: (String, String)| (u.0@, u.1@)) =~= before.map_values(
                                        |u: (String, String)| (u.0@, u.1@),
                                    ).push((u@, n@)));
                                },
                                _ => {},
                            }
                        },
                        None => {},
                    }
                    i = i + 1;
                }
                assert(ms.take(members@.len() as int) =~= ms);
            },
            None => {
                assert(out@.map_values(|u: (String, String)| (u.0@, u.1@)) =~= Seq::<(Seq<char>, Seq<char>)>::empty());
            },
        }
        out
    }
    /// Opens a document with the given content, unless it is open already.
    pub fn init_document_state(&mut self, document_id: &str, content: String)
        requires
            old(self).well_formed(),
        ensures
            final(self).well_formed(),
            final(self)@ == (ManagerView {
                documents: if old(self)@.documents.contains_key(document_id@) {
                    old(self)@.documents
                } else {
                    old(self)@.documents.insert(
                        document_id@,
                        (content@, 0u64, Seq::<(u64, OpView)>::empty()),
                    )
                },
                ..old(self)@
            }),
    {
        if !self.document_states.contains_key(document_id) {
            let d = DocumentState::new(content);
            self.document_states.insert(owned(document_id), d);
            assert(self@.documents =~= old(self)@.documents.insert(
                document_id@,
                (content@, 0u64, Seq::<(u64, OpView)>::empty()),
            ));
        }
        assert(self@.rooms == old(self)@.rooms && self@.presence == old(self)@.presence);
        assert(registry_ok(self@));
    }

    /// The state of an open document.
    pub fn get_document_state(&self, document_id: &str) -> (r: Option<&DocumentState>)
        ensures
            match r {
                Some(d) => self@.documents.contains_key(document_id@) && self@.documents[document_id@]
                    == d@,
                None => !self@.documents.contains_key(document_id@),
            },
    {
        self.document_states.get(document_id)
    }

    /// Applies a client edit: its operations in turn, the first against
    /// the client's version, the others against the version the first
    /// produced, each only if it applies.
    pub fn apply_client_edit(&mut self, document_id: &str, edit: DocumentEdit) -> (r: ClientEditOutcome)
        requires
            old(self).well_formed(),
        ensures
            final(self).well_formed(),
            client_edit_done(old(self)@, final(self)@, document_id@, edit_ops(edit.operation), edit.version, r),
    {
        let ghost v0 = self@;
        let ghost ops_v = edit_ops(edit.operation);
        let version = edit.version;
        let mut ops = expand_edit(edit.operation);
        proof {
            assert(ops@.map_values(|o: Operation| o@).len() == ops@.len());
            assert(ops_v.len() == 1 || ops_v.len() == 2);
            assert(ops@[0]@ == ops@.map_values(|o: Operation| o@)[0]);
        }
        let ghost all = ops@;
        let first = ops.remove(0);
        assert(first@ == ops_v[0]);
        if !self.accepts_edit(document_id, &first, version) {
            return ClientEditOutcome::Refused;
        }
        let v1 = self.apply_edit(document_id, first, version);
        let ghost mid = self@;
        if ops.len() == 0 {
            proof {
                if v0.documents.contains_key(document_id@) {
                    assert(document_after_edit(v0.documents[document_id@], mid.documents[document_id@], ops_v[0], version));
                    assert(mid == with_document(v0, document_id@, mid.documents[document_id@]));
                }
            }
            return ClientEditOutcome::Applied(v1);
        }
        proof {
            assert(ops@[0] == all[1]);
            assert(all[1]@ == all.map_values(|o: Operation| o@)[1]);
        }
        let next_v = match v1 {
            Some(v) => v,
            None => version,
        };
        let second = ops.remove(0);
        assert(second@ == ops_v[1]);
        if !self.accepts_edit(document_id, &second, next_v) {
            proof {
                assert(document_after_edit(v0.documents[document_id@], mid.documents[document_id@], ops_v[0], version));
                assert(self@ == with_document(v0, document_id@, mid.documents[document_id@]));
            }
            return ClientEditOutcome::Refused;
        }
        let r = self.apply_edit(document_id, second, next_v);
        proof {
            if v0.documents.contains_key(document_id@) {
                let d1 = mid.documents[document_id@];
                assert(document_after_edit(v0.documents[document_id@], d1, ops_v[0], version));
                assert(document_after_edit(d1, self@.documents[document_id@], ops_v[1], d1.1));
                assert(self@.documents =~= v0.documents.insert(document_id@, self@.documents[document_id@]));
                assert(self@ == with_document(v0, document_id@, self@.documents[document_id@]));
            }
        }
        ClientEditOutcome::Applied(r)
    }

    /// Whether [`ConnectionManager::apply_edit`] takes this edit: always
    /// for a document that is not open, else when the document accepts it.
    pub fn accepts_edit(&self, document_id: &str, operation: &Operation, client_version: u64) -> (r: bool)
        ensures
            r == (self@.documents.contains_key(document_id@) ==> edit_applies(
                self@.documents[document_id@],
                operation@,
                client_version,
            )),
    {
        match self.document_states.get(document_id) {
            Some(d) => d.accepts(operation, client_version),
            None => true,
        }
    }

    /// Applies an edit made against `client_version` to an open document
    /// and returns the document's new version; `None` if the document is
    /// not open.
    pub fn apply_edit(&mut self, document_id: &str, operation: Operation, client_version: u64) -> (r:
        Option<u64>)
        requires
            old(self).well_formed(),
            old(self)@.documents.contains_key(document_id@) ==> edit_applies(
                old(self)@.documents[document_id@],
                operation@,
                client_version,
            ),
        ensures
            final(self).well_formed(),
            old(self)@.documents.contains_key(document_id@) ==> {
                &&& final(self)@.documents.contains_key(document_id@)
                &&& document_after_edit(
                    old(self)@.documents[document_id@],
                    final(self)@.documents[document_id@],
                    operation@,
                    client_version,
                )
                &&& r == Some(final(self)@.documents[document_id@].1)
                &&& final(self)@ == (ManagerView {
                    documents: old(self)@.documents.insert(
                        document_id@,
                        final(self)@.documents[document_id@],
                    ),
                    ..old(self)@
                })
            },
            !old(self)@.documents.contains_key(document_id@) ==> r is None && final(self)@ == old(
                self,
            )@,
    {
        match self.document_states.remove(document_id) {
            Some(d) => {
                let mut state = d;
                let r = state.apply(operation, client_version);
                let v = match r {
                    Ok(v) => v,
                    Err(_) => state.version(),
                };
                let ghost after = state@;
                self.document_states.insert(owned(document_id), state);
                assert(self@.documents =~= old(self)@.documents.insert(document_id@, after));
                assert(self@.rooms == old(self)@.rooms && self@.presence == old(self)@.presence);
                assert(registry_ok(self@));
                Some(v)
            },
            None => {
                assert(self@.documents =~= old(self)@.documents);
                assert(self@.rooms == old(self)@.rooms && self@.presence == old(self)@.presence);
                assert(registry_ok(self@));
                None
            },
        }
    }
    /// Takes `client` out of the rooms in `rooms_of`, and its presence out
    /// of the documents of those rooms; returns those documents.
    fn drop_memberships(
        &mut self,
        client_id: &str,
        rooms_of: &Vec<String>,
        Ghost(owners): Ghost<Map<Seq<char>, ClientView>>,
    ) -> (docs: Vec<String>)
        requires
            registry_ok(old(self)@),
            owners.contains_key(client_id@),
            owners[client_id@].rooms == strings_view(rooms_of@),
        ensures
            final(self)@ == (ManagerView {
                rooms: drop_entries(
                    old(self)@.rooms,
                    |r: Seq<char>, m: Seq<char>| !leaves_with(owners, set![client_id@], m, r),
                ),
                presence: drop_entries(
                    old(self)@.presence,
                    |d: Seq<char>, p: PresenceView|
                        !leaves_with(owners, set![client_id@], p.client_id, document_room_name(d)),
                ),
                ..old(self)@
            }),
            strings_view(docs@) == document_rooms(strings_view(rooms_of@)),
    {
        let ghost c = client_id@;
        let ghost rs = strings_view(rooms_of@);
        let ghost x = old(self)@.rooms;
        let ghost z = old(self)@.presence;
        let mut docs: Vec<String> = Vec::new();
        let mut i: usize = 0;
        proof {
            lemma_drop_none(x, room_keep(c, rs.take(0)));
            lemma_drop_none(
                z,
                presence_keep(c, rs.take(0)),
            );
            assert(document_rooms(rs.take(0)) =~= Seq::<Seq<char>>::empty());
            assert(strings_view(docs@) =~= Seq::<Seq<char>>::empty());
        }
        while i < rooms_of.len()
            invariant
                i <= rooms_of@.len(),
                c == client_id@,
                rs == strings_view(rooms_of@),
                x == old(self)@.rooms,
                z == old(self)@.presence,
                lists_nonempty(x),
                lists_nonempty(z),
                self@ == (ManagerView {
                    rooms: drop_entries(x, room_keep(c, rs.take(i as int))),
                    presence: drop_entries(z, presence_keep(c, rs.take(i as int))),
                    ..old(self)@
                }),
                strings_view(docs@) == document_rooms(rs.take(i as int)),
            decreases rooms_of@.len() - i,
        {
            let room = rooms_of[i].as_str();
            let ghost ri = rs[i as int];
            let ghost keep_i = room_keep(c, rs.take(i as int));
            let ghost keep_n = room_keep(c, rs.take(i as int + 1));
            let ghost pk_i = presence_keep(c, rs.take(i as int));
            let ghost pk_n = presence_keep(c, rs.take(i as int + 1));
            let ghost y = self@.rooms;
            let ghost w = self@.presence;
            assert(rs.take(i as int + 1) =~= rs.take(i as int).push(ri));
            assert(room@ == ri);
            proof {
                assert forall|k: Seq<char>| #[trigger] rs.take(i as int + 1).contains(k) == (rs.take(
                    i as int,
                ).contains(k) || k == ri) by {
                    if rs.take(i as int + 1).contains(k) {
                        let j = choose|j: int| 0 <= j < i + 1 && #[trigger] rs.take(i as int + 1)[j] == k;
                        if j < i {
                            assert(rs.take(i as int)[j] == k);
                        }
                    }
                    if rs.take(i as int).contains(k) {
                        let j = choose|j: int| 0 <= j < i && #[trigger] rs.take(i as int)[j] == k;
                        assert(rs.take(i as int + 1)[j] == k);
                    }
                    if k == ri {
                        assert(rs.take(i as int + 1)[i as int] == k);
                    }
                }
            }
            // the room
            match self.rooms.remove(room) {
                Some(m) => {
                    let kept = strings_without(&m, client_id);
                    if kept.len() > 0 {
                        self.rooms.insert(owned(room), kept);
                        assert(self@.rooms =~= y.insert(ri, y[ri].filter(|m: Seq<char>| m != client_id@)));
                    } else {
                        assert(self@.rooms =~= y.remove(ri));
                    }
                },
                None => {
                    assert(self@.rooms =~= y);
                },
            }
            proof {
                let k1 = |k: Seq<char>, a: Seq<char>| k == ri ==> a != client_id@;
                lemma_drop_nonempty(x, keep_i);
                lemma_drop_one(y, ri, |m: Seq<char>| m != client_id@, k1);
                lemma_drop_twice(x, keep_i, k1);
                assert forall|k: Seq<char>, a: Seq<char>| (keep_i(k, a) && k1(k, a)) == #[trigger] keep_n(
                    k,
                    a,
                ) by {
                    assert(rs.take(i as int + 1).contains(k) == (rs.take(i as int).contains(k) || k == ri));
                }
                lemma_drop_agree(x, |k: Seq<char>, a: Seq<char>| keep_i(k, a) && k1(k, a), keep_n);
            }
            // the presence in its document
            match room_document(room) {
                Some(dchars) => {
                    let ghost dd = dchars@;
                    let d = string_from_chars(dchars.as_slice());
                    match self.document_presence.remove(d.as_str()) {
                        Some(l) => {
                            let kept = presence_without_client(&l, client_id);
                            if kept.len() > 0 {
                                self.document_presence.insert(string_from_chars(dchars.as_slice()), kept);
                                assert(self@.presence =~= w.insert(
                                    dd,
                                    w[dd].filter(|p: PresenceView| p.client_id != client_id@),
                                ));
                            } else {
                                assert(self@.presence =~= w.remove(dd));
                            }
                        },
                        None => {
                            assert(self@.presence =~= w);
                        },
                    }
                    proof {
                        let k1 = |k: Seq<char>, p: PresenceView| k == dd ==> p.client_id != client_id@;
                        lemma_drop_nonempty(z, pk_i);
                        lemma_drop_one(w, dd, |p: PresenceView| p.client_id != client_id@, k1);
                        lemma_drop_twice(z, pk_i, k1);
                        assert forall|k: Seq<char>, p: PresenceView| (pk_i(k, p) && k1(k, p)) == #[trigger] pk_n(
                            k,
                            p,
                        ) by {
                            assert(rs.take(i as int + 1).contains(document_room_name(k)) == (rs.take(
                                i as int,
                            ).contains(document_room_name(k)) || document_room_name(k) == ri));
                            if document_room_name(k) == ri {
                                lemma_doc_room_injective(k, dd);
                            }
                        }
                        lemma_drop_agree(z, |k: Seq<char>, p: PresenceView| pk_i(k, p) && k1(k, p), pk_n);
                        assert(ri.skip("doc:"@.len() as int) =~= dd);
                        lemma_doc_room_prefix(dd);
                    }
                    let ghost before = docs@;
                    docs.push(d);
                    assert(strings_view(docs@) =~= strings_view(before).push(dd));
                },
                None => {
                    proof {
                        assert forall|k: Seq<char>, p: PresenceView| pk_i(k, p) == #[trigger] pk_n(k, p) by {
                            assert(rs.take(i as int + 1).contains(document_room_name(k)) == (rs.take(
                                i as int,
                            ).contains(document_room_name(k)) || document_room_name(k) == ri));
                            lemma_doc_room_prefix(k);
                        }
                        lemma_drop_agree(z, pk_i, pk_n);
                    }
                },
            }
            assert(rs.take(i as int + 1).drop_last() =~= rs.take(i as int));
            assert(rs.take(i as int + 1).last() == ri);
            assert(self@.rooms == drop_entries(x, keep_n));
            assert(self@.presence == drop_entries(z, pk_n));
            assert(self@.clients == old(self)@.clients);
            assert(self@.documents == old(self)@.documents);
            assert(strings_view(docs@) == document_rooms(rs.take(i as int + 1)));
            i = i + 1;
        }
        proof {
            assert(rs.take(rooms_of@.len() as int) =~= rs);
            lemma_drop_agree(
                x,
                room_keep(c, rs),
                |r: Seq<char>, m: Seq<char>| !leaves_with(owners, set![client_id@], m, r),
            );
            lemma_drop_agree(
                z,
                presence_keep(c, rs),
                |d: Seq<char>, p: PresenceView|
                    !leaves_with(owners, set![client_id@], p.client_id, document_room_name(d)),
            );
        }
        docs
    }
    /// Forgets a client: it leaves its rooms and the presence lists of its
    /// documents.  Returns the (document, user) "left" notices owed to the
    /// document rooms it was in, if it was signed in; each is sent to its
    /// room through `broadcast_to_room`, which skips rooms left empty.
    pub fn remove_client(&mut self, client_id: &str) -> (notices: Vec<(String, String)>)
        requires
            old(self).well_formed(),
        ensures
            final(self).well_formed(),
            old(self)@.clients.contains_key(client_id@) ==> final(self)@ == without_clients(
                old(self)@,
                set![client_id@],
            ) && notices@.map_values(|n: (String, String)| (n.0@, n.1@)) == leave_notices(
                old(self)@.clients[client_id@],
            ),
            !old(self)@.clients.contains_key(client_id@) ==> final(self)@ == old(self)@
                && notices@.len() == 0,
    {
        let rec = match self.clients.remove(client_id) {
            Some(r) => r,
            None => {
                assert(self@.clients =~= old(self)@.clients);
                return Vec::new();
            },
        };
        let ghost owners = old(self)@.clients;
        assert(owners[client_id@] == client_view(rec));
        assert(self@.rooms == old(self)@.rooms && self@.presence == old(self)@.presence);
        assert(registry_ok(self@));
        let docs = self.drop_memberships(client_id, &rec.rooms, Ghost(owners));
        proof {
            assert(self@.clients =~= old(self)@.clients.remove_keys(set![client_id@]));
            lemma_drop_nonempty(
                old(self)@.rooms,
                |r: Seq<char>, m: Seq<char>| !leaves_with(owners, set![client_id@], m, r),
            );
            lemma_drop_nonempty(
                old(self)@.presence,
                |d: Seq<char>, p: PresenceView|
                    !leaves_with(owners, set![client_id@], p.client_id, document_room_name(d)),
            );
        }
        let mut notices: Vec<(String, String)> = Vec::new();
        match &rec.user_id {
            Some(u) => {
                let ghost ds = strings_view(docs@);
                let mut i: usize = 0;
                while i < docs.len()
                    invariant
                        i <= docs@.len(),
                        ds == strings_view(docs@),
                        notices@.map_values(|n: (String, String)| (n.0@, n.1@)) == ds.take(
                            i as int,
                        ).map_values(|d: Seq<char>| (d, u@)),
                    decreases docs@.len() - i,
                {
                    let ghost before = notices@;
                    notices.push((docs[i].clone(), u.clone()));
                    assert(notices@.map_values(|n: (String, String)| (n.0@, n.1@)) =~= before.map_values(
                        |n: (String, String)| (n.0@, n.1@),
                    ).push((ds[i as int], u@)));
                    assert(ds.take(i as int + 1).map_values(|d: Seq<char>| (d, u@)) =~= ds.take(
                        i as int,
                    ).map_values(|d: Seq<char>| (d, u@)).push((ds[i as int], u@)));
                    i = i + 1;
                }
                assert(ds.take(docs@.len() as int) =~= ds);
            },
            None => {
                assert(notices@.map_values(|n: (String, String)| (n.0@, n.1@)) =~= Seq::<
                    (Seq<char>, Seq<char>),
                >::empty());
            },
        }
        notices
    }

    /// Forgets a client whose heartbeat timed out.
    pub fn handle_heartbeat_timeout(&mut self, client_id: &str) -> (notices: Vec<(String, String)>)
        requires
            old(self).well_formed(),
        ensures
            final(self).well_formed(),
            old(self)@.clients.contains_key(client_id@) ==> final(self)@ == without_clients(
                old(self)@,
                set![client_id@],
            ) && notices@.map_values(|n: (String, String)| (n.0@, n.1@)) == leave_notices(
                old(self)@.clients[client_id@],
            ),
            !old(self)@.clients.contains_key(client_id@) ==> final(self)@ == old(self)@
                && notices@.len() == 0,
    {
        self.remove_client(client_id)
    }
    /// Drops the clients not seen for longer than `timeout_secs` (the clock
    /// reading `now_ms` in milliseconds), as if each had disconnected, and
    /// the state of each document whose room they left without members.
    pub fn cleanup_stale_clients(&mut self, now_ms: u64, timeout_secs: u64)
        requires
            old(self).well_formed(),
        ensures
            final(self).well_formed(),
            final(self)@ == after_cleanup(old(self)@, now_ms, timeout_secs),
    {
        let ghost v0 = self@;
        let ghost cl = v0.clients;
        // The stale clients and their rooms.
        let n = self.clients.len();
        let ghost ko = self.clients.key_order();
        let mut stale: Vec<(String, Vec<String>)> = Vec::new();
        let ghost mut ids: Seq<Seq<char>> = Seq::empty();
        let mut i: usize = 0;
        while i < n
            invariant
                i <= n,
                n == ko.len(),
                self@ == v0,
                cl == v0.clients,
                ko == self.clients.key_order(),
                forall|a: int| 0 <= a < ko.len() ==> self.clients@.contains_key(#[trigger] ko[a]),
                forall|k: Seq<char>| #[trigger] self.clients@.contains_key(k) ==> ko.contains(k),
                forall|a: int, b: int| 0 <= a < b < ko.len() ==> #[trigger] ko[a] != #[trigger] ko[b],
                stale@.len() == ids.len(),
                forall|j: int|
                    0 <= j < ids.len() ==> (#[trigger] stale@[j]).0@ == ids[j] && cl.contains_key(ids[j])
                        && strings_view(stale@[j].1@) == cl[ids[j]].rooms,
                forall|x: Seq<char>| #[trigger]
                    ids.contains(x) <==> (ko.take(i as int).contains(x) && cl.contains_key(x)
                        && is_stale(cl[x], now_ms, timeout_secs)),
                forall|a: int, b: int| 0 <= a < b < ids.len() ==> #[trigger] ids[a] != #[trigger] ids[b],
            decreases n - i,
        {
            let key = self.clients.key_at(i);
            let rec = self.clients.value_at(i);
            let ghost k = ko[i as int];
            assert(self.clients@.contains_key(k));
            assert(cl[k] == client_view(*rec));
            assert(ko.take(i as int + 1) =~= ko.take(i as int).push(k));
            assert forall|x: Seq<char>| #[trigger] ko.take(i as int + 1).contains(x) == (ko.take(
                i as int,
            ).contains(x) || x == k) by {
                if ko.take(i as int + 1).contains(x) {
                    let j = choose|j: int| 0 <= j < i + 1 && #[trigger] ko.take(i as int + 1)[j] == x;
                    if j < i {
                        assert(ko.take(i as int)[j] == x);
                    }
                }
                if ko.take(i as int).contains(x) {
                    let j = choose|j: int| 0 <= j < i && #[trigger] ko.take(i as int)[j] == x;
                    assert(ko.take(i as int + 1)[j] == x);
                }
                if x == k {
                    assert(ko.take(i as int + 1)[i as int] == x);
                }
            }
            let is_old = now_ms > rec.last_seen_ms && ((now_ms - rec.last_seen_ms) as u128) > (
            timeout_secs as u128) * 1000;
            if is_old {
                let entry = (owned(key), copy_strings(&rec.rooms));
                stale.push(entry);
                proof {
                    assert(!ids.contains(k)) by {
                        if ids.contains(k) {
                            let j = choose|j: int| 0 <= j < i && #[trigger] ko.take(i as int)[j] == k;
                            assert(ko[j] == k);
                        }
                    }
                    let old_ids = ids;
                    ids = ids.push(k);
                    assert forall|x: Seq<char>| #[trigger] ids.contains(x) == (old_ids.contains(x) || x == k) by {
                        if ids.contains(x) {
                            let j = choose|j: int| 0 <= j < ids.len() && #[trigger] ids[j] == x;
                            if j < old_ids.len() {
                                assert(old_ids[j] == x);
                            }
                        }
                        if old_ids.contains(x) {
                            let j = choose|j: int| 0 <= j < old_ids.len() && #[trigger] old_ids[j] == x;
                            assert(ids[j] == x);
                        }
                        if x == k {
                            assert(ids[old_ids.len() as int] == x);
                        }
                    }
                    assert forall|a: int, b: int| 0 <= a < b < ids.len() implies #[trigger] ids[a]
                        != #[trigger] ids[b] by {
                        if b == old_ids.len() {
                            assert(old_ids.contains(ids[a]));
                        }
                    }
                }
            }
            i = i + 1;
        }
        proof {
            assert(ko.take(n as int) =~= ko);
        }
        // Drop them one by one.
        let ghost x0 = v0.rooms;
        let ghost z0 = v0.presence;
        let ghost mut gone: Set<Seq<char>> = Set::empty();
        let mut touched: Vec<String> = Vec::new();
        let mut j: usize = 0;
        proof {
            lemma_drop_none(x0, |r: Seq<char>, m: Seq<char>| !leaves_with(cl, gone, m, r));
            lemma_drop_none(
                z0,
                |d: Seq<char>, p: PresenceView| !leaves_with(cl, gone, p.client_id, document_room_name(d)),
            );
            assert(cl.remove_keys(gone) =~= cl);
        }
        while j < stale.len()
            invariant
                j <= stale@.len(),
                stale@.len() == ids.len(),
                cl == v0.clients,
                x0 == v0.rooms,
                z0 == v0.presence,
                registry_ok(v0),
                forall|a: int|
                    0 <= a < ids.len() ==> (#[trigger] stale@[a]).0@ == ids[a] && cl.contains_key(ids[a])
                        && strings_view(stale@[a].1@) == cl[ids[a]].rooms,
                forall|a: int, b: int| 0 <= a < b < ids.len() ==> #[trigger] ids[a] != #[trigger] ids[b],
                forall|x: Seq<char>| #[trigger] gone.contains(x) <==> ids.take(j as int).contains(x),
                self@ == (ManagerView {
                    clients: cl.remove_keys(gone),
                    rooms: drop_entries(x0, |r: Seq<char>, m: Seq<char>| !leaves_with(cl, gone, m, r)),
                    presence: drop_entries(
                        z0,
                        |d: Seq<char>, p: PresenceView|
                            !leaves_with(cl, gone, p.client_id, document_room_name(d)),
                    ),
                    ..v0
                }),
                forall|d: Seq<char>| #[trigger]
                    strings_view(touched@).contains(d) <==> touches_document(v0, gone, d),
            decreases stale@.len() - j,
        {
            let ghost c = ids[j as int];
            let ghost y = self@;
            proof {
                lemma_drop_nonempty(x0, |r: Seq<char>, m: Seq<char>| !leaves_with(cl, gone, m, r));
                lemma_drop_nonempty(
                    z0,
                    |d: Seq<char>, p: PresenceView| !leaves_with(cl, gone, p.client_id, document_room_name(d)),
                );
                assert(!gone.contains(c)) by {
                    if gone.contains(c) {
                        let a = choose|a: int| 0 <= a < j && #[trigger] ids.take(j as int)[a] == c;
                        assert(ids[a] == c);
                    }
                }
            }
            let id = stale[j].0.as_str();
            let _ = self.clients.remove(id);
            assert(self@.rooms == y.rooms && self@.presence == y.presence);
            let mut docs = self.drop_memberships(id, &stale[j].1, Ghost(cl));
            let ghost tv = strings_view(touched@);
            let ghost dv = strings_view(docs@);
            touched.append(&mut docs);
            proof {
                let g2 = gone.insert(c);
                let k_g = |r: Seq<char>, m: Seq<char>| !leaves_with(cl, gone, m, r);
                let k_c = |r: Seq<char>, m: Seq<char>| !leaves_with(cl, set![c], m, r);
                let k_g2 = |r: Seq<char>, m: Seq<char>| !leaves_with(cl, g2, m, r);
                lemma_drop_twice(x0, k_g, k_c);
                assert forall|r: Seq<char>, m: Seq<char>| (k_g(r, m) && k_c(r, m)) == #[trigger] k_g2(r, m) by {}
                lemma_drop_agree(x0, |r: Seq<char>, m: Seq<char>| k_g(r, m) && k_c(r, m), k_g2);
                let p_g = |d: Seq<char>, p: PresenceView| !leaves_with(cl, gone, p.client_id, document_room_name(d));
                let p_c = |d: Seq<char>, p: PresenceView| !leaves_with(cl, set![c], p.client_id, document_room_name(d));
                let p_g2 = |d: Seq<char>, p: PresenceView| !leaves_with(cl, g2, p.client_id, document_room_name(d));
                lemma_drop_twice(z0, p_g, p_c);
                assert forall|d: Seq<char>, p: PresenceView| (p_g(d, p) && p_c(d, p)) == #[trigger] p_g2(d, p) by {}
                lemma_drop_agree(z0, |d: Seq<char>, p: PresenceView| p_g(d, p) && p_c(d, p), p_g2);
                assert(y.clients == cl.remove_keys(gone));
                assert(self@.clients =~= y.clients.remove(c));
                assert(self@.clients =~= cl.remove_keys(g2));
                assert(strings_view(touched@) =~= tv + dv);
                assert forall|d: Seq<char>| #[trigger] strings_view(touched@).contains(d) <==> touches_document(
                    v0,
                    g2,
                    d,
                ) by {
                    lemma_document_rooms_contains(cl[c].rooms, d);
                    if (tv + dv).contains(d) {
                        let a = choose|a: int| 0 <= a < (tv + dv).len() && #[trigger] (tv + dv)[a] == d;
                        if a < tv.len() {
                            assert(tv[a] == d);
                        } else {
                            assert(dv[a - tv.len()] == d);
                        }
                    }
                    if tv.contains(d) {
                        let a = choose|a: int| 0 <= a < tv.len() && #[trigger] tv[a] == d;
                        assert((tv + dv)[a] == d);
                    }
                    if dv.contains(d) {
                        let a = choose|a: int| 0 <= a < dv.len() && #[trigger] dv[a] == d;
                        assert((tv + dv)[a + tv.len()] == d);
                    }
                    if touches_document(v0, g2, d) && !touches_document(v0, gone, d) {
                        let w = choose|w: Seq<char>|
                            g2.contains(w) && cl.contains_key(w) && #[trigger] cl[w].rooms.contains(
                                document_room_name(d),
                            );
                        assert(w == c);
                    }
                }
                assert(ids.take(j as int + 1) =~= ids.take(j as int).push(c));
                assert forall|x: Seq<char>| #[trigger] g2.contains(x) <==> ids.take(j as int + 1).contains(x) by {
                    if ids.take(j as int + 1).contains(x) {
                        let a = choose|a: int| 0 <= a < j + 1 && #[trigger] ids.take(j as int + 1)[a] == x;
                        if a < j {
                            assert(ids.take(j as int)[a] == x);
                        }
                    }
                    if ids.take(j as int).contains(x) {
                        let a = choose|a: int| 0 <= a < j && #[trigger] ids.take(j as int)[a] == x;
                        assert(ids.take(j as int + 1)[a] == x);
                    }
                    if x == c {
                        assert(ids.take(j as int + 1)[j as int] == x);
                    }
                }
                gone = g2;
            }
            j = j + 1;
        }
        proof {
            assert(ids.take(ids.len() as int) =~= ids);
            assert(gone =~= stale_clients(v0, now_ms, timeout_secs)) by {
                assert forall|x: Seq<char>| gone.contains(x) == stale_clients(v0, now_ms, timeout_secs).contains(x) by {
                    if cl.contains_key(x) {
                        assert(ko.contains(x));
                    }
                }
            }
            lemma_drop_nonempty(x0, |r: Seq<char>, m: Seq<char>| !leaves_with(cl, gone, m, r));
            lemma_drop_nonempty(
                z0,
                |d: Seq<char>, p: PresenceView| !leaves_with(cl, gone, p.client_id, document_room_name(d)),
            );
        }
        let ghost w = self@;
        assert(w == without_clients(v0, gone));
        // Drop the state of documents left without members.
        let ghost tv = strings_view(touched@);
        let mut k: usize = 0;
        proof {
            assert(v0.documents.remove_keys(
                Set::new(|d: Seq<char>| tv.take(0).contains(d) && !w.rooms.contains_key(document_room_name(d))),
            ) =~= v0.documents);
        }
        while k < touched.len()
            invariant
                k <= touched@.len(),
                tv == strings_view(touched@),
                self@ == (ManagerView {
                    documents: v0.documents.remove_keys(
                        Set::new(
                            |d: Seq<char>|
                                tv.take(k as int).contains(d) && !w.rooms.contains_key(document_room_name(d)),
                        ),
                    ),
                    ..w
                }),
            decreases touched@.len() - k,
        {
            let d = touched[k].as_str();
            let room = document_room(d);
            let ghost before = self@.documents;
            assert(tv[k as int] == d@);
            assert(self@.rooms == w.rooms);
            if !self.rooms.contains_key(room.as_str()) {
                let _ = self.document_states.remove(d);
                assert(self@.documents =~= before.remove(d@));
            } else {
                assert(self@.documents =~= before);
            }
            proof {
                assert(tv.take(k as int + 1) =~= tv.take(k as int).push(tv[k as int]));
                assert forall|e: Seq<char>| #[trigger] tv.take(k as int + 1).contains(e) == (tv.take(
                    k as int,
                ).contains(e) || e == tv[k as int]) by {
                    if tv.take(k as int + 1).contains(e) {
                        let a = choose|a: int| 0 <= a < k + 1 && #[trigger] tv.take(k as int + 1)[a] == e;
                        if a < k {
                            assert(tv.take(k as int)[a] == e);
                        }
                    }
                    if tv.take(k as int).contains(e) {
                        let a = choose|a: int| 0 <= a < k && #[trigger] tv.take(k as int)[a] == e;
                        assert(tv.take(k as int + 1)[a] == e);
                    }
                    if e == tv[k as int] {
                        assert(tv.take(k as int + 1)[k as int] == e);
                    }
                }
                assert(self@.documents =~= v0.documents.remove_keys(
                    Set::new(
                        |e: Seq<char>|
                            tv.take(k as int + 1).contains(e) && !w.rooms.contains_key(document_room_name(e)),
                    ),
                ));
            }
            k = k + 1;
        }
        proof {
            assert(tv.take(touched@.len() as int) =~= tv);
            assert(Set::new(|d: Seq<char>| tv.contains(d) && !w.rooms.contains_key(document_room_name(d)))
                =~= Set::new(
                |d: Seq<char>|
                    touches_document(v0, gone, d) && !w.rooms.contains_key(document_room_name(d)),
            ));
            assert(self@.documents =~= after_cleanup(v0, now_ms, timeout_secs).documents);
            assert(self@.rooms == w.rooms && self@.presence == w.presence);
        }
    }
    /// Whether a broadcast reaches a client: messages without a room reach
    /// everyone, those of a room the clients that list it.
    pub fn delivers_to(&self, client_id: &str, room_id: Option<&str>) -> (r: bool)
        ensures
            r == match room_id {
                None => true,
                Some(room) => self@.clients.contains_key(client_id@) && self@.clients[client_id@].rooms.contains(
                    room@,
                ),
            },
    {
        match room_id {
            None => true,
            Some(room) => self.is_client_in_room(client_id, room),
        }
    }

    /// The presence entries of a document other than the client's own, as
    /// sent to a client that joins.
    pub fn presence_except(&self, document_id: &str, client_id: &str) -> (r: Vec<PresenceInfo>)
        ensures
            presence_list_view(r@) == document_presence(self@, document_id@).filter(
                |p: PresenceView| p.client_id != client_id@,
            ),
    {
        match self.document_presence.get(document_id) {
            Some(l) => presence_without_client(l, client_id),
            None => {
                let r: Vec<PresenceInfo> = Vec::new();
                proof {
                    reveal(Seq::filter);
                }
                assert(presence_list_view(r@) =~= Seq::<PresenceView>::empty().filter(
                    |p: PresenceView| p.client_id != client_id@,
                ));
                r
            },
        }
    }
}

/// What happens next in a connection's heartbeat.
#[derive(Debug, Clone, Copy, PartialEq, Eq, Structural)]
pub enum HeartbeatEvent {
    /// The ping interval elapsed.
    Tick,
    /// The ping could not be queued: the connection is closing.
    PingNotSent,
    /// A pong arrived in time.
    Pong,
    /// No pong arrived in time, or the pong channel closed.
    NoPong,
}

/// What the heartbeat does in answer.
#[derive(Debug, Clone, Copy, PartialEq, Eq, Structural)]
pub enum HeartbeatAction {
    /// Send a ping, then wait this long for the pong.
    SendPing { wait_secs: u64 },
    /// Wait for the next interval.
    AwaitTick,
    /// Stop; `true` when the client timed out.
    Stop { timed_out: bool },
}

/// The heartbeat's answer to an event.
pub open spec fn heartbeat_answer(config: HeartbeatConfig, event: HeartbeatEvent) -> HeartbeatAction {
    match event {
        HeartbeatEvent::Tick => HeartbeatAction::SendPing { wait_secs: config.timeout_secs },
        HeartbeatEvent::PingNotSent => HeartbeatAction::Stop { timed_out: false },
        HeartbeatEvent::Pong => HeartbeatAction::AwaitTick,
        HeartbeatEvent::NoPong => HeartbeatAction::Stop { timed_out: true },
    }
}

pub fn heartbeat_step(config: &HeartbeatConfig, event: HeartbeatEvent) -> (r: HeartbeatAction)
    ensures
        r == heartbeat_answer(*config, event),
{
    match event {
        HeartbeatEvent::Tick => HeartbeatAction::SendPing { wait_secs: config.timeout_secs },
        HeartbeatEvent::PingNotSent => HeartbeatAction::Stop { timed_out: false },
        HeartbeatEvent::Pong => HeartbeatAction::AwaitTick,
        HeartbeatEvent::NoPong => HeartbeatAction::Stop { timed_out: true },
    }
}

} // verus!
