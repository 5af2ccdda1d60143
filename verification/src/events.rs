//! Live event streaming over WebSocket: which events a client's permissions
//! let it see, who may open a stream, and the keep-alive protocol of a
//! stream (ping every thirty seconds, a client that stays silent is dropped).
//!
//! The socket and the event channel are the caller's; the decisions are here.
use vstd::prelude::*;
use std::sync::atomic::AtomicU64;
use dashmap::DashMap;
use tokio::sync::broadcast::{Receiver, Sender};
use crate::text::{chars_of, vec_eq};
use crate::models::{WafApiKey, texts};

verus! {

/// The kinds of firewall events.
#[derive(Debug, Clone, Copy, PartialEq, Eq, Structural)]
pub enum WafEventKind {
    Detection,
    Block,
    Unblock,
    ThreatScoreUpdate,
    Cluster,
    ConfigChange,
}

impl WafEventKind {
    /// Detections, blocks, unblocks and threat-score updates feed the statistics.
    pub open spec fn stats_related(self) -> bool {
        self == WafEventKind::Detection || self == WafEventKind::Block || self == WafEventKind::Unblock
            || self == WafEventKind::ThreatScoreUpdate
    }

    /// Whether the event feeds the statistics.
    pub fn is_stats_related(&self) -> (b: bool)
        ensures
            b == self.stats_related(),
    {
        match self {
            WafEventKind::Detection | WafEventKind::Block | WafEventKind::Unblock | WafEventKind::ThreatScoreUpdate => true,
            _ => false,
        }
    }

    /// Whether the event concerns the cluster.
    pub fn is_cluster_related(&self) -> (b: bool)
        ensures
            b == (*self == WafEventKind::Cluster),
    {
        match self {
            WafEventKind::Cluster => true,
            _ => false,
        }
    }
}

/// A connected stream client and its permissions.
#[derive(Debug, Clone)]
pub struct WsClient {
    pub api_key: String,
    pub permissions: Vec<String>,
}

/// The query of a stream request: an API key instead of the header.
#[derive(Debug, Clone)]
pub struct WebSocketQuery {
    pub api_key: Option<String>,
}

/// Whether the permissions list `p` or `*`.
pub open spec fn grants(perms: Seq<Seq<char>>, p: Seq<char>) -> bool {
    perms.contains(p) || perms.contains("*"@)
}

fn has_grant(permissions: &Vec<String>, p: &str) -> (b: bool)
    ensures
        b == grants(texts(permissions@), p@),
{
    let wanted = chars_of(p);
    let star = chars_of("*");
    let ghost t = texts(permissions@);
    let mut i: usize = 0;
    while i < permissions.len()
        invariant
            i <= permissions@.len(),
            t == texts(permissions@),
            wanted@ == p@,
            star@ == "*"@,
            forall|j: int| 0 <= j < i ==> t[j] != p@ && t[j] != "*"@,
        decreases permissions.len() - i,
    {
        let x = chars_of(permissions[i].as_str());
        if vec_eq(&x, &wanted) || vec_eq(&x, &star) {
            assert(t[i as int] == x@);
            return true;
        }
        i = i + 1;
    }
    false
}

/// Which events a client sees: all with `read`; statistics events with
/// `stats`; statistics and cluster events with `events` (`*` grants each).
pub open spec fn receives(perms: Seq<Seq<char>>, kind: WafEventKind) -> bool {
    grants(perms, "read"@)
        || (grants(perms, "stats"@) && kind.stats_related())
        || (grants(perms, "events"@) && (kind.stats_related() || kind == WafEventKind::Cluster))
}

/// Whether a client with these permissions is sent an event of this kind.
pub fn should_receive_event(permissions: &Vec<String>, kind: WafEventKind) -> (b: bool)
    ensures
        b == receives(texts(permissions@), kind),
{
    let has_read = has_grant(permissions, "read");
    let has_stats = has_grant(permissions, "stats");
    let has_events = has_grant(permissions, "events");
    if has_read {
        return true;
    }
    if has_stats && kind.is_stats_related() {
        return true;
    }
    if has_events {
        if kind.is_stats_related() || kind.is_cluster_related() {
            return true;
        }
    }
    false
}

/// Why a stream was refused.
#[derive(Debug, Clone, Copy, PartialEq, Eq, Structural)]
pub enum StreamRefusal {
    /// No key in the query or the header (401).
    MissingKey,
    /// The key is not configured (403).
    InvalidKey,
    /// The key is switched off (403).
    InactiveKey,
}

/// The first configured key equal to `key`.
pub open spec fn first_key(keys: Seq<WafApiKey>, key: Seq<char>) -> Option<int>
    decreases keys.len(),
{
    if keys.len() == 0 {
        None
    } else if keys[0].key@ == key {
        Some(0)
    } else {
        match first_key(keys.drop_first(), key) {
            Some(i) => Some(i + 1),
            None => None,
        }
    }
}

proof fn lemma_first_key(keys: Seq<WafApiKey>, key: Seq<char>)
    ensures
        match first_key(keys, key) {
            Some(i) => 0 <= i < keys.len() && keys[i].key@ == key
                && forall|j: int| 0 <= j < i ==> keys[j].key@ != key,
            None => forall|j: int| 0 <= j < keys.len() ==> keys[j].key@ != key,
        },
    decreases keys.len(),
{
    if keys.len() > 0 {
        lemma_first_key(keys.drop_first(), key);
        assert forall|j: int| 0 < j < keys.len() implies #[trigger] keys[j] == keys.drop_first()[j - 1] by {}
    }
}

/// The key a stream request presents: the query's, else the header's, else empty.
pub open spec fn presented_key(query: Option<Seq<char>>, header: Option<Seq<char>>) -> Seq<char> {
    match query {
        Some(k) => k,
        None => match header {
            Some(h) => h,
            None => Seq::empty(),
        },
    }
}

/// Who may open a stream: a non-empty key (from the query, else the
/// header) that is configured and active; the stream gets that key's
/// permissions.
pub fn admit_stream(query_key: Option<&str>, header_key: Option<&str>, keys: &Vec<WafApiKey>) -> (r: Result<Vec<String>, StreamRefusal>)
    ensures
        ({
            let k = presented_key(
                match query_key { Some(q) => Some(q@), None => None },
                match header_key { Some(h) => Some(h@), None => None },
            );
            if k.len() == 0 {
                r == Err::<Vec<String>, StreamRefusal>(StreamRefusal::MissingKey)
            } else {
                match first_key(keys@, k) {
                    None => r == Err::<Vec<String>, StreamRefusal>(StreamRefusal::InvalidKey),
                    Some(i) => if keys@[i].is_active {
                        r matches Ok(p) && texts(p@) == texts(keys@[i].permissions@)
                    } else {
                        r == Err::<Vec<String>, StreamRefusal>(StreamRefusal::InactiveKey)
                    },
                }
            }
        }),
{
    let key: Vec<char> = match query_key {
        Some(q) => chars_of(q),
        None => match header_key {
            Some(h) => chars_of(h),
            None => Vec::new(),
        },
    };
    if key.len() == 0 {
        return Err(StreamRefusal::MissingKey);
    }
    proof {
        lemma_first_key(keys@, key@);
    }
    let ghost presented = presented_key(
        match query_key { Some(q) => Some(q@), None => None },
        match header_key { Some(h) => Some(h@), None => None },
    );
    assert(key@ == presented);
    let mut i: usize = 0;
    while i < keys.len()
        invariant
            i <= keys@.len(),
            key@ == presented,
            presented == presented_key(
                match query_key { Some(q) => Some(q@), None => None },
                match header_key { Some(h) => Some(h@), None => None },
            ),
            key@.len() > 0,
            forall|j: int| 0 <= j < i ==> keys@[j].key@ != key@,
            match first_key(keys@, key@) {
                Some(k) => 0 <= k < keys@.len() && keys@[k].key@ == key@
                    && forall|j: int| 0 <= j < k ==> keys@[j].key@ != key@,
                None => forall|j: int| 0 <= j < keys@.len() ==> keys@[j].key@ != key@,
            },
        decreases keys.len() - i,
    {
        let stored = chars_of(keys[i].key.as_str());
        if vec_eq(&stored, &key) {
            if !keys[i].is_active {
                return Err(StreamRefusal::InactiveKey);
            }
            let mut perms: Vec<String> = Vec::new();
            let mut j: usize = 0;
            while j < keys[i].permissions.len()
                invariant
                    i < keys@.len(),
                    j <= keys@[i as int].permissions@.len(),
                    texts(perms@) == texts(keys@[i as int].permissions@.take(j as int)),
                decreases keys@[i as int].permissions@.len() - j,
            {
                let ghost before = texts(perms@);
                perms.push(keys[i].permissions[j].clone());
                assert(texts(keys@[i as int].permissions@.take(j + 1)) =~= before.push(keys@[i as int].permissions@[j as int]@));
                assert(texts(perms@) =~= before.push(keys@[i as int].permissions@[j as int]@));
                j = j + 1;
            }
            assert(keys@[i as int].permissions@.take(j as int) =~= keys@[i as int].permissions@);
            return Ok(perms);
        }
        i = i + 1;
    }
    Err(StreamRefusal::InvalidKey)
}

/// The keep-alive state of a stream.
#[derive(Debug, Clone, Copy, PartialEq, Eq, Structural)]
pub struct StreamState {
    /// A ping was sent and not answered yet.
    pub expecting_pong: bool,
}

/// What happened on a stream.
#[derive(Debug, Clone, Copy, PartialEq, Eq, Structural)]
pub enum StreamInput {
    /// The thirty-second ping timer fired.
    PingTick,
    /// Ten seconds passed since the last ping without an answer.
    PongTimeout,
    /// An event arrived on the channel.
    Event(WafEventKind),
    /// The channel dropped events because the client was slow.
    Lagged,
    /// The channel closed.
    ChannelClosed,
    /// The client sent a text message; whether it is a JSON `{"type": "ping"}`.
    ClientText { is_ping: bool },
    /// The client sent a ping frame.
    ClientPing,
    /// The client answered a ping with a pong frame.
    ClientPong,
    /// The client closed the stream.
    ClientClose,
    /// Reading from the client failed or the stream ended.
    ClientGone,
    /// Any other frame from the client.
    ClientOther,
}

/// What the stream does next.
#[derive(Debug, Clone, Copy, PartialEq, Eq, Structural)]
pub enum StreamAction {
    /// Send a ping frame.
    SendPing,
    /// Send a close frame and end the stream.
    CloseAndStop,
    /// End the stream.
    Stop,
    /// Send the event to the client.
    SendEvent,
    /// Send a JSON `pong` message.
    SendPongMessage,
    /// Send a pong frame.
    SendPongFrame,
    /// Nothing to do.
    Nothing,
}

/// The keep-alive protocol: the next state and action for an input, given
/// the client's permissions.
pub open spec fn stream_step_spec(s: StreamState, input: StreamInput, perms: Seq<Seq<char>>) -> (StreamState, StreamAction) {
    match input {
        StreamInput::PingTick => if s.expecting_pong {
            (s, StreamAction::CloseAndStop)
        } else {
            (StreamState { expecting_pong: true }, StreamAction::SendPing)
        },
        StreamInput::PongTimeout => if s.expecting_pong {
            (s, StreamAction::Stop)
        } else {
            (s, StreamAction::Nothing)
        },
        StreamInput::Event(kind) => if receives(perms, kind) {
            (s, StreamAction::SendEvent)
        } else {
            (s, StreamAction::Nothing)
        },
        StreamInput::Lagged => (s, StreamAction::Nothing),
        StreamInput::ChannelClosed => (s, StreamAction::Stop),
        StreamInput::ClientText { is_ping } => if is_ping {
            (s, StreamAction::SendPongMessage)
        } else {
            (s, StreamAction::Nothing)
        },
        StreamInput::ClientPing => (StreamState { expecting_pong: false }, StreamAction::SendPongFrame),
        StreamInput::ClientPong => (StreamState { expecting_pong: false }, StreamAction::Nothing),
        StreamInput::ClientClose => (s, StreamAction::Stop),
        StreamInput::ClientGone => (s, StreamAction::Stop),
        StreamInput::ClientOther => (s, StreamAction::Nothing),
    }
}

impl StreamState {
    /// A fresh stream: no ping outstanding.
    pub fn new() -> (s: Self)
        ensures
            !s.expecting_pong,
    {
        StreamState { expecting_pong: false }
    }

    /// Takes in what happened and says what to do next.
    pub fn step(&mut self, input: StreamInput, permissions: &Vec<String>) -> (a: StreamAction)
        ensures
            (*final(self), a) == stream_step_spec(*old(self), input, texts(permissions@)),
    {
        match input {
            StreamInput::PingTick => {
                if self.expecting_pong {
                    StreamAction::CloseAndStop
                } else {
                    self.expecting_pong = true;
                    StreamAction::SendPing
                }
            },
            StreamInput::PongTimeout => {
                if self.expecting_pong {
                    StreamAction::Stop
                } else {
                    StreamAction::Nothing
                }
            },
            StreamInput::Event(kind) => {
                if should_receive_event(permissions, kind) {
                    StreamAction::SendEvent
                } else {
                    StreamAction::Nothing
                }
            },
            StreamInput::Lagged => StreamAction::Nothing,
            StreamInput::ChannelClosed => StreamAction::Stop,
            StreamInput::ClientText { is_ping } => {
                if is_ping {
                    StreamAction::SendPongMessage
                } else {
                    StreamAction::Nothing
                }
            },
            StreamInput::ClientPing => {
                self.expecting_pong = false;
                StreamAction::SendPongFrame
            },
            StreamInput::ClientPong => {
                self.expecting_pong = false;
                StreamAction::Nothing
            },
            StreamInput::ClientClose => StreamAction::Stop,
            StreamInput::ClientGone => StreamAction::Stop,
            StreamInput::ClientOther => StreamAction::Nothing,
        }
    }
}

/// A client that does not answer a ping is dropped at the next ping tick,
/// and one that answers (with a pong frame, or with a ping of its own) is
/// pinged again.
pub proof fn law_silent_client_dropped(perms: Seq<Seq<char>>)
    ensures
        ({
            let (s1, a1) = stream_step_spec(StreamState { expecting_pong: false }, StreamInput::PingTick, perms);
            let (s2, a2) = stream_step_spec(s1, StreamInput::PingTick, perms);
            &&& a1 == StreamAction::SendPing
            &&& a2 == StreamAction::CloseAndStop
        }),
        ({
            let (s1, _a1) = stream_step_spec(StreamState { expecting_pong: false }, StreamInput::PingTick, perms);
            let (s2, _a2) = stream_step_spec(s1, StreamInput::ClientPing, perms);
            stream_step_spec(s2, StreamInput::PingTick, perms).1 == StreamAction::SendPing
        }),
        ({
            let (s1, _a1) = stream_step_spec(StreamState { expecting_pong: false }, StreamInput::PingTick, perms);
            let (s2, a2) = stream_step_spec(s1, StreamInput::ClientPong, perms);
            &&& a2 == StreamAction::Nothing
            &&& stream_step_spec(s2, StreamInput::PingTick, perms).1 == StreamAction::SendPing
            &&& stream_step_spec(s2, StreamInput::PongTimeout, perms).1 == StreamAction::Nothing
        }),
{
}

/// An event reaches a client only if the client's permissions cover it:
/// without `read`, `stats`, `events` or `*`, nothing is sent, and a
/// configuration change needs `read`.
pub proof fn law_events_follow_permissions(s: StreamState, kind: WafEventKind, perms: Seq<Seq<char>>)
    ensures
        stream_step_spec(s, StreamInput::Event(kind), perms).1 == StreamAction::SendEvent <==> receives(perms, kind),
        kind == WafEventKind::ConfigChange ==> (receives(perms, kind) <==> grants(perms, "read"@)),
{
}

/// `tokio::sync::broadcast::Sender`, the sending half of the event channel.
#[verifier::external_type_specification]
#[verifier::external_body]
#[verifier::reject_recursive_types(T)]
pub struct ExBroadcastSender<T>(tokio::sync::broadcast::Sender<T>);

/// `tokio::sync::broadcast::Receiver`, one subscriber's half of the channel.
#[verifier::external_type_specification]
#[verifier::external_body]
#[verifier::reject_recursive_types(T)]
pub struct ExBroadcastReceiver<T>(tokio::sync::broadcast::Receiver<T>);

/// The concurrent map of connected clients by id.
pub type ClientTable = DashMap<u64, WsClient>;

/// The clients a map holds, by id: API key and permissions.
pub uninterp spec fn client_table(m: ClientTable) -> Map<u64, (Seq<char>, Seq<Seq<char>>)>;

/// A client as plain values.
pub open spec fn client_view(c: WsClient) -> (Seq<char>, Seq<Seq<char>>) {
    (c.api_key@, texts(c.permissions@))
}

/// An empty client map (`DashMap::new`).
#[verifier::external_body]
fn clients_new() -> (fresh: ClientTable)
    ensures
        client_table(fresh).dom() == Set::<u64>::empty(),
{
    DashMap::new()
}

/// Records a client under an id, replacing any (`DashMap::insert`).
#[verifier::external_body]
fn clients_insert(m: &mut ClientTable, id: u64, c: WsClient)
    ensures
        client_table(*final(m)) == client_table(*old(m)).insert(id, client_view(c)),
{
    m.insert(id, c);
}

/// Drops a client (`DashMap::remove`).
#[verifier::external_body]
fn clients_remove(m: &mut ClientTable, id: u64)
    ensures
        client_table(*final(m)) == client_table(*old(m)).remove(id),
{
    m.remove(&id);
}

/// The number of clients (`DashMap::len`).
#[verifier::external_body]
fn clients_len(m: &ClientTable) -> (n: usize)
    ensures
        n == client_table(*m).dom().len(),
{
    m.len()
}

/// A channel holding up to `capacity` events (`broadcast::channel`), which
/// panics on a capacity of zero or over half of `usize::MAX`; its first
/// receiver is dropped.
#[verifier::external_body]
fn event_channel<E: Clone>(capacity: usize) -> (tx: Sender<E>)
    requires
        0 < capacity <= usize::MAX / 2,
{
    tokio::sync::broadcast::channel(capacity).0
}

/// A new subscriber to the channel (`Sender::subscribe`).
#[verifier::external_body]
fn subscribe_to<E>(tx: &Sender<E>) -> Receiver<E> {
    tx.subscribe()
}

/// Sends an event to every current subscriber (`Sender::send`); with none,
/// the event is dropped.
#[verifier::external_body]
fn send_event<E>(tx: &Sender<E>, e: E) {
    let _ = tx.send(e);
}

/// Events in flight to the stream clients, and the clients connected.
#[verifier::reject_recursive_types(E)]
pub struct EventBroadcaster<E> {
    sender: Sender<E>,
    clients: ClientTable,
    next_client_id: AtomicU64,
}

impl<E: Clone> EventBroadcaster<E> {
    /// The connected clients by id.
    pub closed spec fn clients(&self) -> Map<u64, (Seq<char>, Seq<Seq<char>>)> {
        client_table(self.clients)
    }

    /// A broadcaster holding up to a thousand undelivered events, with no
    /// client.
    pub fn new() -> (b: Self)
        ensures
            b.clients().dom() == Set::<u64>::empty(),
    {
        EventBroadcaster { sender: event_channel(1000), clients: clients_new(), next_client_id: AtomicU64::new(0) }
    }

    /// Sends an event to every subscribed client.
    pub fn broadcast(&self, event: E) {
        send_event(&self.sender, event);
    }

    /// Takes the next client id.
    fn next_id(&self) -> u64 {
        self.next_client_id.fetch_add(1, std::sync::atomic::Ordering::SeqCst)
    }

    /// Connects a client: it is recorded under a new id, which is returned
    /// with the client's subscription to the events.
    pub fn add_client(&mut self, api_key: String, permissions: Vec<String>) -> (r: (u64, Receiver<E>))
        ensures
            final(self).clients() == old(self).clients().insert(r.0, (api_key@, texts(permissions@))),
    {
        let id = self.next_id();
        clients_insert(&mut self.clients, id, WsClient { api_key, permissions });
        (id, subscribe_to(&self.sender))
    }

    /// Disconnects a client.
    pub fn remove_client(&mut self, client_id: u64)
        ensures
            final(self).clients() == old(self).clients().remove(client_id),
    {
        clients_remove(&mut self.clients, client_id);
    }

    /// The number of connected clients.
    pub fn client_count(&self) -> (n: usize)
        ensures
            n == self.clients().dom().len(),
    {
        clients_len(&self.clients)
    }
}

/// A stream that connects a client under a new id and removes it when it
/// ends leaves the broadcaster's clients as they were.
pub proof fn law_connection_leaves_clients(m: Map<u64, (Seq<char>, Seq<Seq<char>>)>, id: u64, c: (Seq<char>, Seq<Seq<char>>))
    requires
        !m.dom().contains(id),
    ensures
        m.insert(id, c).remove(id) == m,
        m.dom().finite() ==> m.insert(id, c).remove(id).dom().len() == m.dom().len(),
{
    assert(m.insert(id, c).remove(id) =~= m);
}

} // verus!
