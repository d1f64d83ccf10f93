//! The supernode's peer directory: which peers are announced here, how each
//! connection's requests change the directory, where signals are routed, and
//! which peers are dropped for missing heartbeats.

use vstd::prelude::*;
use vstd::string::*;

use dashmap::DashMap;
use tokio::sync::mpsc::UnboundedSender;

use crate::auth::{authorize, spec_unauthorized};
use crate::error::{is_protocol_error, AppError};
use crate::config::{decimal, format_host_port, host_port, push_decimal, NetworkConfig};
use crate::protocol::{
    ack, error_reply, PeerEndpoint, PeerEndpointView, Request, Response, ResponseView,
};

verus! {

/// How long, in nanoseconds, a peer may go without a heartbeat before the
/// supernode forgets it: 90 seconds.
pub const HEARTBEAT_TIMEOUT_NS: u64 = 90_000_000_000;

/// How often, in nanoseconds, the supernode sweeps stale peers: every 30
/// seconds.
pub const SWEEP_INTERVAL_NS: u64 = 30_000_000_000;

/// A directory entry: the peer's endpoint and when it was last heard from,
/// in nanoseconds on the supernode's monotonic clock.
pub struct PeerState {
    pub endpoint: PeerEndpoint,
    pub last_heartbeat: u64,
}

/// What a [`PeerState`] says.
pub struct PeerStateView {
    pub endpoint: PeerEndpointView,
    pub last_heartbeat: u64,
}

impl View for PeerState {
    type V = PeerStateView;

    open spec fn view(&self) -> PeerStateView {
        PeerStateView { endpoint: self.endpoint@, last_heartbeat: self.last_heartbeat }
    }
}

impl PeerState {
    /// A copy of this entry.
    pub fn duplicate(&self) -> (r: PeerState)
        ensures
            r@ == self@,
    {
        PeerState { endpoint: self.endpoint.duplicate(), last_heartbeat: self.last_heartbeat }
    }
}

/// The entries of a directory map, keyed by user name.
pub uninterp spec fn peer_table(m: DashMap<String, PeerState>) -> Map<Seq<char>, PeerStateView>;

/// The sender handles of a channel map, keyed by user name.
pub uninterp spec fn channel_table(m: DashMap<String, UnboundedSender<Response>>) -> Map<
    Seq<char>,
    UnboundedSender<Response>,
>;

/// The addresses held in a map of known supernodes.
pub uninterp spec fn supernode_set(m: DashMap<String, ()>) -> Set<Seq<char>>;

/// `DashMap::new` for the directory: a map with no entries.
#[verifier::external_body]
fn peers_new() -> (m: DashMap<String, PeerState>)
    ensures
        peer_table(m) =~= Map::empty(),
{
    DashMap::new()
}

/// `DashMap::insert` on the directory: the entry for `key` becomes `value`,
/// whatever it was before. The replaced value is dropped.
/// It does not unwind: the map's shard locks do not poison, and only a
/// capacity overflow (a machine limit) could panic inside the hash table.
#[verifier::external_body]
fn peers_insert(m: &mut DashMap<String, PeerState>, key: String, value: PeerState)
    ensures
        peer_table(*final(m)) == peer_table(*old(m)).insert(key@, value@),
    no_unwind
{
    m.insert(key, value);
}

/// `DashMap::get` on the directory, handing out a copy of the entry made by
/// [`PeerState::duplicate`].
#[verifier::external_body]
fn peers_get(m: &DashMap<String, PeerState>, key: &str) -> (r: Option<PeerState>)
    ensures
        r is Some <==> peer_table(*m).dom().contains(key@),
        r matches Some(p) ==> p@ == peer_table(*m)[key@],
{
    m.get(key).map(|entry| entry.value().duplicate())
}

/// `DashMap::contains_key` on the directory.
#[verifier::external_body]
fn peers_contains(m: &DashMap<String, PeerState>, key: &str) -> (r: bool)
    ensures
        r == peer_table(*m).dom().contains(key@),
{
    m.contains_key(key)
}

/// `DashMap::len` on the directory: the number of entries.
#[verifier::external_body]
fn peers_len(m: &DashMap<String, PeerState>) -> (r: usize)
    ensures
        r == peer_table(*m).len(),
{
    m.len()
}

/// `DashMap::remove` on the directory: the entry for `key`, if any, is gone.
/// It does not unwind: the map's shard locks do not poison, and only a
/// capacity overflow (a machine limit) could panic inside the hash table.
#[verifier::external_body]
fn peers_remove(m: &mut DashMap<String, PeerState>, key: &str)
    ensures
        peer_table(*final(m)) == peer_table(*old(m)).remove(key@),
    no_unwind
{
    m.remove(key);
}

/// `DashMap::iter` on the directory, handing out each entry's user name and
/// last heartbeat. Every entry is listed; the order is the map's own.
#[verifier::external_body]
fn peers_heartbeats(m: &DashMap<String, PeerState>) -> (entries: Vec<(String, u64)>)
    ensures
        forall|i: int|
            0 <= i < entries@.len() ==> peer_table(*m).dom().contains(#[trigger] entries@[i].0@)
                && entries@[i].1 == peer_table(*m)[entries@[i].0@].last_heartbeat,
        forall|k: Seq<char>|
            #[trigger] peer_table(*m).dom().contains(k) ==> exists|i: int|
                0 <= i < entries@.len() && #[trigger] entries@[i].0@ == k,
{
    m.iter().map(|entry| (entry.key().clone(), entry.value().last_heartbeat)).collect()
}

/// `DashMap::new` for the channel map: a map with no entries.
#[verifier::external_body]
fn channels_new() -> (m: DashMap<String, UnboundedSender<Response>>)
    ensures
        channel_table(m) =~= Map::empty(),
{
    DashMap::new()
}

/// `DashMap::insert` on the channel map.
/// It does not unwind: the map's shard locks do not poison, and only a
/// capacity overflow (a machine limit) could panic inside the hash table.
#[verifier::external_body]
fn channels_insert(
    m: &mut DashMap<String, UnboundedSender<Response>>,
    key: String,
    tx: UnboundedSender<Response>,
)
    ensures
        channel_table(*final(m)) == channel_table(*old(m)).insert(key@, tx),
    no_unwind
{
    m.insert(key, tx);
}

/// `DashMap::get` on the channel map, handing out a clone of the stored
/// sender. A clone of an `UnboundedSender` is a handle to the same channel;
/// the contract writes that as equality with the stored handle.
#[verifier::external_body]
fn channels_get(m: &DashMap<String, UnboundedSender<Response>>, key: &str) -> (r: Option<
    UnboundedSender<Response>,
>)
    ensures
        r is Some <==> channel_table(*m).dom().contains(key@),
        r matches Some(tx) ==> tx == channel_table(*m)[key@],
{
    m.get(key).map(|entry| entry.value().clone())
}

/// `DashMap::remove` on the channel map.
/// It does not unwind: the map's shard locks do not poison, and only a
/// capacity overflow (a machine limit) could panic inside the hash table.
#[verifier::external_body]
fn channels_remove(m: &mut DashMap<String, UnboundedSender<Response>>, key: &str)
    ensures
        channel_table(*final(m)) == channel_table(*old(m)).remove(key@),
    no_unwind
{
    m.remove(key);
}

/// `DashMap::new` for the set of known supernodes.
#[verifier::external_body]
fn supernodes_new() -> (m: DashMap<String, ()>)
    ensures
        supernode_set(m) =~= Set::empty(),
{
    DashMap::new()
}

/// `DashMap::insert` on the set of known supernodes.
#[verifier::external_body]
fn supernodes_insert(m: &mut DashMap<String, ()>, addr: String)
    ensures
        supernode_set(*final(m)) == supernode_set(*old(m)).insert(addr@),
{
    m.insert(addr, ());
}

/// `DashMap::len` on the set of known supernodes.
#[verifier::external_body]
fn supernodes_len(m: &DashMap<String, ()>) -> (r: usize)
    ensures
        r == supernode_set(*m).len(),
{
    m.len()
}

/// `UnboundedSender::clone`: a second handle to the same channel, which the
/// contract writes as equality.
#[verifier::external_body]
fn sender_clone(tx: &UnboundedSender<Response>) -> (r: UnboundedSender<Response>)
    ensures
        r == *tx,
{
    tx.clone()
}

/// `UnboundedSender::send`, telling whether the message was accepted. That
/// depends on the receiving connection still being open, which nothing here
/// can know, so nothing is stated.
#[verifier::external_body]
fn sender_send(tx: &UnboundedSender<Response>, message: Response) -> bool {
    tx.send(message).is_ok()
}

/// The supernode's state as the contracts see it.
pub struct SupernodeModel {
    pub peers: Map<Seq<char>, PeerStateView>,
    pub channels: Map<Seq<char>, UnboundedSender<Response>>,
    pub known_supernodes: Set<Seq<char>>,
    pub cluster_limit: usize,
    pub self_addr: Seq<char>,
}

/// The invariant of the supernode's state: the maps are finite, each
/// directory entry is filed under its own user name, and only announced peers
/// have a channel.
pub open spec fn model_wf(m: SupernodeModel) -> bool {
    &&& m.peers.dom().finite()
    &&& m.channels.dom().finite()
    &&& m.known_supernodes.finite()
    &&& forall|k: Seq<char>| #[trigger]
        m.peers.dom().contains(k) ==> m.peers[k].endpoint.username == k
    &&& forall|k: Seq<char>| #[trigger] m.channels.dom().contains(k) ==> m.peers.dom().contains(k)
}

/// Whether a peer last heard from at `p.last_heartbeat` is stale at `now`:
/// more than the timeout has passed. A clock reading earlier than the
/// heartbeat counts as no time passed.
pub open spec fn is_stale(p: PeerStateView, now: u64) -> bool {
    now > p.last_heartbeat && now - p.last_heartbeat > HEARTBEAT_TIMEOUT_NS
}

/// The directory after merging `list` in order, each endpoint stamped with
/// `now` and filed under its user name.
pub open spec fn merge_directory(
    peers: Map<Seq<char>, PeerStateView>,
    list: Seq<PeerEndpointView>,
    now: u64,
) -> Map<Seq<char>, PeerStateView>
    decreases list.len(),
{
    if list.len() == 0 {
        peers
    } else {
        merge_directory(peers, list.drop_last(), now).insert(
            list.last().username,
            PeerStateView { endpoint: list.last(), last_heartbeat: now },
        )
    }
}

/// What one request does to the supernode: the new state, the user bound to
/// the connection afterwards, the reply, and the signal to hand to another
/// connection, if any.
pub struct StepResult {
    pub model: SupernodeModel,
    pub bound: Option<Seq<char>>,
    pub reply: ResponseView,
    pub delivery: Option<(UnboundedSender<Response>, ResponseView)>,
}

/// A step that changes nothing and answers `reply`.
pub open spec fn unchanged(
    m: SupernodeModel,
    bound: Option<Seq<char>>,
    reply: ResponseView,
) -> StepResult {
    StepResult { model: m, bound, reply, delivery: None }
}

/// The state `m` with the directory `peers`.
pub open spec fn with_peers(m: SupernodeModel, peers: Map<Seq<char>, PeerStateView>) -> SupernodeModel {
    SupernodeModel {
        peers,
        channels: m.channels,
        known_supernodes: m.known_supernodes,
        cluster_limit: m.cluster_limit,
        self_addr: m.self_addr,
    }
}

/// The reply to a lookup of `target`.
pub open spec fn lookup_reply(m: SupernodeModel, target: Seq<char>, relay_addr: Seq<char>) -> ResponseView {
    if m.peers.dom().contains(target) {
        if m.peers[target].endpoint.relay_required {
            ResponseView::RelayRequired { relay_addr }
        } else {
            ResponseView::PeerFound { endpoint: m.peers[target].endpoint }
        }
    } else {
        ResponseView::Error { message: "peer not present in this cluster"@ }
    }
}

/// The text of the reply to a directory push.
pub open spec fn merged_message(known: nat) -> Seq<char> {
    "directory merged, known supernodes: "@ + decimal(known)
}

/// Whether announcing `username` is refused because the cluster is full.
pub open spec fn cluster_full(m: SupernodeModel, username: Seq<char>) -> bool {
    m.peers.len() >= m.cluster_limit && !m.peers.dom().contains(username)
}

/// What one authorized request does on a connection whose sender is `tx` and
/// whose bound user is `bound`, at time `now`.
pub open spec fn spec_step(
    m: SupernodeModel,
    bound: Option<Seq<char>>,
    tx: UnboundedSender<Response>,
    req: Request,
    now: u64,
    relay_addr: Seq<char>,
) -> StepResult {
    match req {
        Request::Heartbeat { username, token } => {
            let u = username@;
            if m.peers.dom().contains(u) {
                StepResult {
                    model: with_peers(
                        m,
                        m.peers.insert(
                            u,
                            PeerStateView { endpoint: m.peers[u].endpoint, last_heartbeat: now },
                        ),
                    ),
                    bound,
                    reply: ResponseView::Ack { message: "heartbeat accepted"@ },
                    delivery: None,
                }
            } else {
                unchanged(m, bound, ResponseView::Error { message: "peer not announced"@ })
            }
        },
        Request::AnnouncePeer { username, token, tcp_addr, udp_addr, relay_required, status } => {
            let u = username@;
            if cluster_full(m, u) {
                unchanged(m, bound, ResponseView::Error { message: "supernode cluster full"@ })
            } else {
                let endpoint = PeerEndpointView {
                    username: u,
                    tcp_addr: tcp_addr@,
                    udp_addr: udp_addr@,
                    supernode_addr: m.self_addr,
                    relay_required,
                    status: status@,
                };
                StepResult {
                    model: SupernodeModel {
                        peers: m.peers.insert(u, PeerStateView { endpoint, last_heartbeat: now }),
                        channels: m.channels.insert(u, tx),
                        known_supernodes: m.known_supernodes,
                        cluster_limit: m.cluster_limit,
                        self_addr: m.self_addr,
                    },
                    bound: Some(u),
                    reply: ResponseView::Ack { message: "peer announced"@ },
                    delivery: None,
                }
            }
        },
        Request::PresenceUpdate { username, token, status } => {
            let u = username@;
            if m.peers.dom().contains(u) {
                let e = m.peers[u].endpoint;
                let endpoint = PeerEndpointView {
                    username: e.username,
                    tcp_addr: e.tcp_addr,
                    udp_addr: e.udp_addr,
                    supernode_addr: e.supernode_addr,
                    relay_required: e.relay_required,
                    status: status@,
                };
                StepResult {
                    model: with_peers(
                        m,
                        m.peers.insert(u, PeerStateView { endpoint, last_heartbeat: now }),
                    ),
                    bound,
                    reply: ResponseView::Ack { message: "presence updated"@ },
                    delivery: None,
                }
            } else {
                unchanged(m, bound, ResponseView::Error { message: "peer not announced"@ })
            }
        },
        Request::PeerLookup { username, token, target_user } => unchanged(
            m,
            bound,
            lookup_reply(m, target_user@, relay_addr),
        ),
        Request::ConnectRequest { username, token, target_user } => unchanged(
            m,
            bound,
            lookup_reply(m, target_user@, relay_addr),
        ),
        Request::SignalForward { username, token, target_user, payload } => {
            let t = target_user@;
            if m.channels.dom().contains(t) {
                StepResult {
                    model: m,
                    bound,
                    reply: ResponseView::SignalDelivered,
                    delivery: Some(
                        (
                            m.channels[t],
                            ResponseView::IncomingSignal { from_user: username@, payload },
                        ),
                    ),
                }
            } else {
                unchanged(m, bound, ResponseView::Error { message: "target unavailable"@ })
            }
        },
        Request::SupernodeDirectoryPush { peers } => StepResult {
            model: with_peers(
                m,
                merge_directory(m.peers, peers@.map_values(|p: PeerEndpoint| p@), now),
            ),
            bound,
            reply: ResponseView::Ack { message: merged_message(m.known_supernodes.len()) },
            delivery: None,
        },
        _ => unchanged(m, bound, ResponseView::Error { message: "unsupported request on supernode"@ }),
    }
}

/// The state `m` with the peers that are stale at `now`, and their channels,
/// removed.
pub open spec fn swept(m: SupernodeModel, now: u64) -> SupernodeModel {
    let keep = |k: Seq<char>| m.peers.dom().contains(k) && !is_stale(m.peers[k], now);
    SupernodeModel {
        peers: m.peers.restrict(Set::new(keep)),
        channels: m.channels.restrict(Set::new(keep)),
        known_supernodes: m.known_supernodes,
        cluster_limit: m.cluster_limit,
        self_addr: m.self_addr,
    }
}

/// Whether one of the first `n` listed entries names `k` and that peer was
/// stale at `now` in `m`.
pub open spec fn swept_before(
    entries: Seq<(String, u64)>,
    n: int,
    k: Seq<char>,
    m: SupernodeModel,
    now: u64,
) -> bool {
    exists|j: int| 0 <= j < n && #[trigger] entries[j].0@ == k && is_stale(m.peers[k], now)
}

/// The supernode's known-supernode cache built from a configuration: the
/// first `supernode_cache_size` configured addresses.
pub open spec fn initial_supernodes(cfg: NetworkConfig) -> Set<Seq<char>> {
    let n = if cfg.supernode_cache_size < cfg.known_supernodes@.len() {
        cfg.supernode_cache_size as int
    } else {
        cfg.known_supernodes@.len() as int
    };
    Set::new(|a: Seq<char>| exists|i: int| 0 <= i < n && #[trigger] cfg.known_supernodes@[i]@ == a)
}

/// Shared in-memory supernode state.
pub struct SupernodeState {
    peers: DashMap<String, PeerState>,
    channels: DashMap<String, UnboundedSender<Response>>,
    known_supernodes: DashMap<String, ()>,
    cluster_limit: usize,
    self_addr: String,
}

impl View for SupernodeState {
    type V = SupernodeModel;

    closed spec fn view(&self) -> SupernodeModel {
        SupernodeModel {
            peers: peer_table(self.peers),
            channels: channel_table(self.channels),
            known_supernodes: supernode_set(self.known_supernodes),
            cluster_limit: self.cluster_limit,
            self_addr: self.self_addr@,
        }
    }
}

/// One client connection's part of the state: the sender through which
/// signals reach it and the user it announced, if any.
pub struct Connection {
    tx: UnboundedSender<Response>,
    bound_user: Option<String>,
}

impl Connection {
    /// The sender through which messages reach this connection.
    pub closed spec fn sender(&self) -> UnboundedSender<Response> {
        self.tx
    }

    /// The user this connection announced, if any.
    pub closed spec fn bound(&self) -> Option<Seq<char>> {
        match self.bound_user {
            Some(u) => Some(u@),
            None => None,
        }
    }

    /// A connection that has announced no one yet.
    pub fn new(tx: UnboundedSender<Response>) -> (c: Connection)
        ensures
            c.sender() == tx,
            c.bound() is None,
    {
        Connection { tx, bound_user: None }
    }
}

/// A signal to hand to another connection.
pub struct Delivery {
    pub to: UnboundedSender<Response>,
    pub message: Response,
}

/// The reply to a request and the signal it routes, if any.
pub struct Outcome {
    pub reply: Response,
    pub delivery: Option<Delivery>,
}

impl Outcome {
    /// The routed signal as the contracts see it.
    pub open spec fn delivery_view(&self) -> Option<(UnboundedSender<Response>, ResponseView)> {
        match self.delivery {
            Some(d) => Some((d.to, d.message@)),
            None => None,
        }
    }
}

/// The reply to a line that is not a valid request, given the description of
/// what went wrong.
pub fn invalid_request_reply(description: &str) -> (r: Response)
    ensures
        r@ == (ResponseView::Error { message: "invalid request: "@ + description@ }),
{
    let mut message = String::from_str("invalid request: ");
    message.append(description);
    Response::Error { message }
}

/// Hands a routed signal to its connection. A connection that has closed
/// meanwhile just misses it, so whether it was accepted is ignored.
pub fn dispatch(d: Delivery) {
    let _accepted = sender_send(&d.to, d.message);
}

/// The user and session token a request must be authorized with before it is
/// handled, if it needs any.
pub open spec fn spec_session_of(req: Request) -> Option<(Seq<char>, Seq<char>)> {
    match req {
        Request::Heartbeat { username, token } => Some((username@, token@)),
        Request::AnnouncePeer { username, token, .. } => Some((username@, token@)),
        Request::PresenceUpdate { username, token, .. } => Some((username@, token@)),
        Request::PeerLookup { username, token, .. } => Some((username@, token@)),
        Request::ConnectRequest { username, token, .. } => Some((username@, token@)),
        Request::SignalForward { username, token, .. } => Some((username@, token@)),
        _ => None,
    }
}

/// Whether a request may be handled when its session token belongs to
/// `owner` (none if the token names no session): a request that needs a
/// session needs one owned by its own user; the others always may.
pub open spec fn spec_authorized(req: Request, owner: Option<Seq<char>>) -> bool {
    match spec_session_of(req) {
        Some((u, t)) => owner == Some(u),
        None => true,
    }
}

/// An optional string as an optional character sequence.
pub open spec fn opt_view(s: Option<String>) -> Option<Seq<char>> {
    match s {
        Some(v) => Some(v@),
        None => None,
    }
}

/// The user name and session token that a request must be authorized with,
/// if it needs any.
pub fn session_of(req: &Request) -> (r: Option<(String, String)>)
    ensures
        match r {
            Some((u, t)) => spec_session_of(*req) == Some((u@, t@)),
            None => spec_session_of(*req) is None,
        },
{
    match req {
        Request::Heartbeat { username, token } => Some((username.clone(), token.clone())),
        Request::AnnouncePeer { username, token, .. } => Some((username.clone(), token.clone())),
        Request::PresenceUpdate { username, token, .. } => Some((username.clone(), token.clone())),
        Request::PeerLookup { username, token, .. } => Some((username.clone(), token.clone())),
        Request::ConnectRequest { username, token, .. } => Some((username.clone(), token.clone())),
        Request::SignalForward { username, token, .. } => Some((username.clone(), token.clone())),
        _ => None,
    }
}

impl SupernodeState {
    /// The state's invariant, kept by every operation: see [`model_wf`].
    #[verifier::type_invariant]
    spec fn well_formed(&self) -> bool {
        model_wf(self@)
    }

    /// The state of a fresh supernode built from its configuration.
    pub fn new(cfg: &NetworkConfig) -> (s: SupernodeState)
        ensures
            model_wf(s@),
            s@.peers.is_empty(),
            s@.channels.is_empty(),
            s@.known_supernodes == initial_supernodes(*cfg),
            s@.cluster_limit == cfg.peer_cluster_limit,
            s@.self_addr == host_port(cfg.supernode_host@, cfg.supernode_port),
    {
        let mut known = supernodes_new();
        let n = if cfg.supernode_cache_size < cfg.known_supernodes.len() {
            cfg.supernode_cache_size
        } else {
            cfg.known_supernodes.len()
        };
        let mut i: usize = 0;
        while i < n
            invariant
                0 <= i <= n,
                n <= cfg.known_supernodes@.len(),
                n == (if cfg.supernode_cache_size < cfg.known_supernodes@.len() {
                    cfg.supernode_cache_size as int
                } else {
                    cfg.known_supernodes@.len() as int
                }),
                supernode_set(known).finite(),
                supernode_set(known) == Set::new(
                    |a: Seq<char>| exists|j: int| 0 <= j < i && #[trigger] cfg.known_supernodes@[j]@ == a,
                ),
            decreases n - i,
        {
            let ghost before = supernode_set(known);
            supernodes_insert(&mut known, cfg.known_supernodes[i].clone());
            proof {
                let a_new = cfg.known_supernodes@[i as int]@;
                assert(supernode_set(known) =~= Set::new(
                    |a: Seq<char>| exists|j: int| 0 <= j < i + 1 && #[trigger] cfg.known_supernodes@[j]@ == a,
                )) by {
                    assert forall|a: Seq<char>| supernode_set(known).contains(a) implies exists|j: int|
                        0 <= j < i + 1 && #[trigger] cfg.known_supernodes@[j]@ == a by {
                        if a != a_new {
                            assert(before.contains(a));
                        }
                    }
                }
            }
            i = i + 1;
        }
        proof {
            let s = Set::new(
                |a: Seq<char>| exists|j: int| 0 <= j < n && #[trigger] cfg.known_supernodes@[j]@ == a,
            );
            assert(s =~= initial_supernodes(*cfg));
        }
        let s = SupernodeState {
            peers: peers_new(),
            channels: channels_new(),
            known_supernodes: known,
            cluster_limit: cfg.peer_cluster_limit,
            self_addr: format_host_port(cfg.supernode_host.as_str(), cfg.supernode_port),
        };
        s
    }

    /// The reply to a lookup of `target`.
    fn lookup(&self, target: &str, relay_addr: &str) -> (r: Response)
        ensures
            r@ == lookup_reply(self@, target@, relay_addr@),
    {
        match peers_get(&self.peers, target) {
            Some(p) => {
                if p.endpoint.relay_required {
                    Response::RelayRequired { relay_addr: relay_addr.to_owned() }
                } else {
                    Response::PeerFound { endpoint: p.endpoint }
                }
            },
            None => error_reply("peer not present in this cluster"),
        }
    }

    /// Files each pushed endpoint under its user name, in order, stamped `now`.
    fn merge(&mut self, list: Vec<PeerEndpoint>, now: u64)
        requires
            model_wf(old(self)@),
        ensures
            model_wf(final(self)@),
            final(self)@ == with_peers(
                old(self)@,
                merge_directory(old(self)@.peers, list@.map_values(|p: PeerEndpoint| p@), now),
            ),
    {
        let ghost views = list@.map_values(|p: PeerEndpoint| p@);
        let mut i: usize = 0;
        while i < list.len()
            invariant
                0 <= i <= list@.len(),
                views == list@.map_values(|p: PeerEndpoint| p@),
                model_wf(self@),
                self@ == with_peers(
                    old(self)@,
                    merge_directory(old(self)@.peers, views.take(i as int), now),
                ),
            decreases list@.len() - i,
        {
            let endpoint = list[i].duplicate();
            let key = endpoint.username.clone();
            peers_insert(&mut self.peers, key, PeerState { endpoint, last_heartbeat: now });
            proof {
                assert(views.take(i + 1).drop_last() =~= views.take(i as int));
                assert(views.take(i + 1).last() == views[i as int]);
            }
            i = i + 1;
        }
        proof {
            assert(views.take(list@.len() as int) =~= views);
        }
    }

    /// Handles one authorized request from `conn` at time `now`, as
    /// [`spec_step`] says; `relay_addr` is handed to peers that must relay.
    pub fn handle_request(
        &mut self,
        conn: &mut Connection,
        req: Request,
        now: u64,
        relay_addr: &str,
    ) -> (out: Outcome)
        ensures
            model_wf(final(self)@),
            ({
                let r = spec_step(old(self)@, old(conn).bound(), old(conn).sender(), req, now, relay_addr@);
                &&& final(self)@ == r.model
                &&& final(conn).bound() == r.bound
                &&& out.reply@ == r.reply
                &&& out.delivery_view() == r.delivery
            }),
            final(conn).sender() == old(conn).sender(),
    {
        proof {
            use_type_invariant(&*self);
        }
        match req {
            Request::Heartbeat { username, token: _ } => {
                match peers_get(&self.peers, username.as_str()) {
                    Some(p) => {
                        let updated = PeerState { endpoint: p.endpoint, last_heartbeat: now };
                        peers_insert(&mut self.peers, username, updated);
                        Outcome { reply: ack("heartbeat accepted"), delivery: None }
                    },
                    None => Outcome { reply: error_reply("peer not announced"), delivery: None },
                }
            },
            Request::AnnouncePeer { username, token: _, tcp_addr, udp_addr, relay_required, status } => {
                let count = peers_len(&self.peers);
                let present = peers_contains(&self.peers, username.as_str());
                if count >= self.cluster_limit && !present {
                    Outcome { reply: error_reply("supernode cluster full"), delivery: None }
                } else {
                    let endpoint = PeerEndpoint {
                        username: username.clone(),
                        tcp_addr,
                        udp_addr,
                        supernode_addr: self.self_addr.clone(),
                        relay_required,
                        status,
                    };
                    peers_insert(
                        &mut self.peers,
                        username.clone(),
                        PeerState { endpoint, last_heartbeat: now },
                    );
                    let tx = sender_clone(&conn.tx);
                    channels_insert(&mut self.channels, username.clone(), tx);
                    conn.bound_user = Some(username);
                    Outcome { reply: ack("peer announced"), delivery: None }
                }
            },
            Request::PresenceUpdate { username, token: _, status } => {
                match peers_get(&self.peers, username.as_str()) {
                    Some(p) => {
                        let endpoint = PeerEndpoint { status, ..p.endpoint };
                        peers_insert(
                            &mut self.peers,
                            username,
                            PeerState { endpoint, last_heartbeat: now },
                        );
                        Outcome { reply: ack("presence updated"), delivery: None }
                    },
                    None => Outcome { reply: error_reply("peer not announced"), delivery: None },
                }
            },
            Request::PeerLookup { username: _, token: _, target_user } => {
                Outcome { reply: self.lookup(target_user.as_str(), relay_addr), delivery: None }
            },
            Request::ConnectRequest { username: _, token: _, target_user } => {
                Outcome { reply: self.lookup(target_user.as_str(), relay_addr), delivery: None }
            },
            Request::SignalForward { username, token: _, target_user, payload } => {
                match channels_get(&self.channels, target_user.as_str()) {
                    Some(to) => {
                        let message = Response::IncomingSignal { from_user: username, payload };
                        Outcome {
                            reply: Response::SignalDelivered,
                            delivery: Some(Delivery { to, message }),
                        }
                    },
                    None => Outcome { reply: error_reply("target unavailable"), delivery: None },
                }
            },
            Request::SupernodeDirectoryPush { peers } => {
                self.merge(peers, now);
                let known = supernodes_len(&self.known_supernodes);
                let mut message = String::from_str("directory merged, known supernodes: ");
                push_decimal(&mut message, known as u64);
                Outcome { reply: Response::Ack { message }, delivery: None }
            },
            _ => Outcome { reply: error_reply("unsupported request on supernode"), delivery: None },
        }
    }

    /// Takes one request from `conn` whose session token, if it carries one,
    /// belongs to `owner`: a request whose session is not its user's is
    /// refused with the unauthorized-session error and changes nothing, so
    /// the connection ends; any other is handled as [`spec_step`] says.
    pub fn on_request(
        &mut self,
        conn: &mut Connection,
        req: Request,
        owner: Option<String>,
        now: u64,
        relay_addr: &str,
    ) -> (r: Result<Outcome, AppError>)
        ensures
            model_wf(final(self)@),
            final(conn).sender() == old(conn).sender(),
            spec_authorized(req, opt_view(owner)) ==> (r matches Ok(out) && ({
                let s = spec_step(old(self)@, old(conn).bound(), old(conn).sender(), req, now, relay_addr@);
                &&& final(self)@ == s.model
                &&& final(conn).bound() == s.bound
                &&& out.reply@ == s.reply
                &&& out.delivery_view() == s.delivery
            })),
            !spec_authorized(req, opt_view(owner)) ==> (r matches Err(e) && is_protocol_error(
                e,
                spec_unauthorized(),
            ) && final(self)@ == old(self)@ && final(conn).bound() == old(conn).bound()),
    {
        proof {
            use_type_invariant(&*self);
        }
        match session_of(&req) {
            Some((username, _token)) => {
                match authorize(owner, username.as_str()) {
                    Ok(()) => {},
                    Err(e) => return Err(e),
                }
            },
            None => {},
        }
        Ok(self.handle_request(conn, req, now, relay_addr))
    }

    /// Forgets every peer that is stale at `now`, with its channel.
    pub fn sweep_stale(&mut self, now: u64)
        ensures
            model_wf(final(self)@),
            final(self)@ == swept(old(self)@, now),
    {
        proof {
            use_type_invariant(&*self);
        }
        let entries = peers_heartbeats(&self.peers);
        let ghost m0 = self@;
        let mut i: usize = 0;
        while i < entries.len()
            invariant
                0 <= i <= entries@.len(),
                model_wf(m0),
                model_wf(self@),
                forall|j: int|
                    0 <= j < entries@.len() ==> m0.peers.dom().contains(#[trigger] entries@[j].0@)
                        && entries@[j].1 == m0.peers[entries@[j].0@].last_heartbeat,
                forall|k: Seq<char>|
                    #[trigger] m0.peers.dom().contains(k) ==> exists|j: int|
                        0 <= j < entries@.len() && #[trigger] entries@[j].0@ == k,
                self@.known_supernodes == m0.known_supernodes,
                self@.cluster_limit == m0.cluster_limit,
                self@.self_addr == m0.self_addr,
                forall|k: Seq<char>|
                    #[trigger] self@.peers.dom().contains(k) == (m0.peers.dom().contains(k)
                        && !swept_before(entries@, i as int, k, m0, now)),
                forall|k: Seq<char>|
                    #[trigger] self@.peers.dom().contains(k) ==> self@.peers[k] == m0.peers[k],
                forall|k: Seq<char>|
                    #[trigger] self@.channels.dom().contains(k) == (m0.channels.dom().contains(k)
                        && !swept_before(entries@, i as int, k, m0, now)),
                forall|k: Seq<char>|
                    #[trigger] self@.channels.dom().contains(k) ==> self@.channels[k] == m0.channels[k],
            decreases entries@.len() - i,
        {
            let ghost before = self@;
            let last = entries[i].1;
            let stale = now > last && now - last > HEARTBEAT_TIMEOUT_NS;
            if stale {
                let name = entries[i].0.as_str();
                channels_remove(&mut self.channels, name);
                peers_remove(&mut self.peers, name);
            }
            proof {
                let ki = entries@[i as int].0@;
                assert(m0.peers.dom().contains(ki));
                assert(stale == is_stale(m0.peers[ki], now));
                assert forall|k: Seq<char>|
                    swept_before(entries@, i + 1, k, m0, now) == (swept_before(entries@, i as int, k, m0, now)
                        || (k == ki && is_stale(m0.peers[k], now))) by {
                    if swept_before(entries@, i + 1, k, m0, now) {
                        let j = choose|j: int| 0 <= j < i + 1 && #[trigger] entries@[j].0@ == k
                            && is_stale(m0.peers[k], now);
                        if j < i {
                            assert(swept_before(entries@, i as int, k, m0, now));
                        }
                    }
                    if swept_before(entries@, i as int, k, m0, now) {
                        let j = choose|j: int| 0 <= j < i && #[trigger] entries@[j].0@ == k
                            && is_stale(m0.peers[k], now);
                        assert(0 <= j < i + 1 && entries@[j].0@ == k);
                    }
                    if k == ki && is_stale(m0.peers[k], now) {
                        assert(entries@[i as int].0@ == k);
                    }
                }
            }
            i = i + 1;
        }
        proof {
            let target = swept(m0, now);
            assert forall|k: Seq<char>| m0.peers.dom().contains(k) implies (swept_before(
                entries@,
                entries@.len() as int,
                k,
                m0,
                now,
            ) <==> is_stale(m0.peers[k], now)) by {
                let j = choose|j: int| 0 <= j < entries@.len() && #[trigger] entries@[j].0@ == k;
                assert(entries@[j].0@ == k);
            }
            assert(self@.peers =~= target.peers);
            assert(self@.channels =~= target.channels);
        }
    }

    /// Ends a connection that closed normally: the channel of the user it
    /// announced, if any, is dropped.
    pub fn close_connection(&mut self, conn: Connection)
        ensures
            model_wf(final(self)@),
            final(self)@ == (match conn.bound() {
                Some(u) => SupernodeModel {
                    peers: old(self)@.peers,
                    channels: old(self)@.channels.remove(u),
                    known_supernodes: old(self)@.known_supernodes,
                    cluster_limit: old(self)@.cluster_limit,
                    self_addr: old(self)@.self_addr,
                },
                None => old(self)@,
            }),
    {
        proof {
            use_type_invariant(&*self);
        }
        if let Some(user) = conn.bound_user {
            channels_remove(&mut self.channels, user.as_str());
        }
    }
}

/// A lookup right after a peer's accepted announcement finds that peer: the
/// endpoint it announced, at this supernode, or the relay if the peer asked
/// to be relayed.
pub proof fn lemma_lookup_after_announce(
    m: SupernodeModel,
    bound: Option<Seq<char>>,
    tx: UnboundedSender<Response>,
    announce: Request,
    now: u64,
    relay_addr: Seq<char>,
    bound2: Option<Seq<char>>,
    tx2: UnboundedSender<Response>,
    lookup: Request,
    now2: u64,
    relay_addr2: Seq<char>,
)
    requires
        model_wf(m),
        announce is AnnouncePeer,
        !cluster_full(m, announce->AnnouncePeer_username@),
        lookup is PeerLookup || lookup is ConnectRequest,
        lookup is PeerLookup ==> lookup->PeerLookup_target_user@ == announce->AnnouncePeer_username@,
        lookup is ConnectRequest ==> lookup->ConnectRequest_target_user@
            == announce->AnnouncePeer_username@,
    ensures
        ({
            let m1 = spec_step(m, bound, tx, announce, now, relay_addr).model;
            let reply = spec_step(m1, bound2, tx2, lookup, now2, relay_addr2).reply;
            if announce->AnnouncePeer_relay_required {
                reply == ResponseView::RelayRequired { relay_addr: relay_addr2 }
            } else {
                reply == ResponseView::PeerFound {
                    endpoint: PeerEndpointView {
                        username: announce->AnnouncePeer_username@,
                        tcp_addr: announce->AnnouncePeer_tcp_addr@,
                        udp_addr: announce->AnnouncePeer_udp_addr@,
                        supernode_addr: m.self_addr,
                        relay_required: false,
                        status: announce->AnnouncePeer_status@,
                    },
                }
            }
        }),
{
}

/// A signal forwarded right after a peer's accepted announcement is handed,
/// as an incoming signal from its sender, to the connection that announced.
pub proof fn lemma_signal_reaches_announcer(
    m: SupernodeModel,
    bound: Option<Seq<char>>,
    tx: UnboundedSender<Response>,
    announce: Request,
    now: u64,
    relay_addr: Seq<char>,
    bound2: Option<Seq<char>>,
    tx2: UnboundedSender<Response>,
    forward: Request,
    now2: u64,
    relay_addr2: Seq<char>,
)
    requires
        model_wf(m),
        announce is AnnouncePeer,
        !cluster_full(m, announce->AnnouncePeer_username@),
        forward is SignalForward,
        forward->SignalForward_target_user@ == announce->AnnouncePeer_username@,
    ensures
        ({
            let m1 = spec_step(m, bound, tx, announce, now, relay_addr).model;
            let r = spec_step(m1, bound2, tx2, forward, now2, relay_addr2);
            &&& r.reply == ResponseView::SignalDelivered
            &&& r.delivery == Some(
                (
                    tx,
                    ResponseView::IncomingSignal {
                        from_user: forward->SignalForward_username@,
                        payload: forward->SignalForward_payload,
                    },
                ),
            )
        }),
{
}

/// No request but a directory push takes the directory past the cluster
/// limit: an announcement of a new peer is refused once the limit is reached.
pub proof fn lemma_cluster_limit_kept(
    m: SupernodeModel,
    bound: Option<Seq<char>>,
    tx: UnboundedSender<Response>,
    req: Request,
    now: u64,
    relay_addr: Seq<char>,
)
    requires
        model_wf(m),
        m.peers.len() <= m.cluster_limit,
        !(req is SupernodeDirectoryPush),
    ensures
        spec_step(m, bound, tx, req, now, relay_addr).model.peers.len() <= m.cluster_limit,
{
    match req {
        Request::Heartbeat { username, .. } => {
            if m.peers.dom().contains(username@) {
                assert(m.peers.insert(username@, m.peers[username@]).dom() =~= m.peers.dom().insert(username@));
                assert(m.peers.dom().insert(username@) =~= m.peers.dom());
                let nv = PeerStateView { endpoint: m.peers[username@].endpoint, last_heartbeat: now };
                assert(m.peers.insert(username@, nv).dom() =~= m.peers.dom());
            }
        },
        Request::PresenceUpdate { username, .. } => {
            if m.peers.dom().contains(username@) {
                let r = spec_step(m, bound, tx, req, now, relay_addr).model.peers;
                assert(r.dom() =~= m.peers.dom());
            }
        },
        Request::AnnouncePeer { username, .. } => {
            if !cluster_full(m, username@) {
                let r = spec_step(m, bound, tx, req, now, relay_addr).model.peers;
                assert(r.dom() =~= m.peers.dom().insert(username@));
            }
        },
        _ => {},
    }
}

/// A peer that sent a heartbeat survives every sweep up to the timeout after
/// it, with the channel its connection registered.
pub proof fn lemma_heartbeat_keeps_peer(
    m: SupernodeModel,
    bound: Option<Seq<char>>,
    tx: UnboundedSender<Response>,
    heartbeat: Request,
    now: u64,
    relay_addr: Seq<char>,
    later: u64,
)
    requires
        model_wf(m),
        heartbeat is Heartbeat,
        m.peers.dom().contains(heartbeat->Heartbeat_username@),
        later <= now + HEARTBEAT_TIMEOUT_NS,
    ensures
        ({
            let u = heartbeat->Heartbeat_username@;
            let m1 = spec_step(m, bound, tx, heartbeat, now, relay_addr).model;
            let m2 = swept(m1, later);
            &&& m2.peers.dom().contains(u)
            &&& m2.peers[u] == m1.peers[u]
            &&& m.channels.dom().contains(u) ==> m2.channels.dom().contains(u)
        }),
{
}

/// A peer that falls silent is gone after the first sweep past the timeout,
/// and sweeps come every interval, so within the timeout and one interval:
/// a sweep at any time in that window forgets the peer and its channel.
pub proof fn lemma_silent_peer_gone_within_interval(m: SupernodeModel, now: u64, k: Seq<char>)
    requires
        model_wf(m),
        m.peers.dom().contains(k),
        m.peers[k].last_heartbeat + HEARTBEAT_TIMEOUT_NS < now,
        now <= m.peers[k].last_heartbeat + HEARTBEAT_TIMEOUT_NS + SWEEP_INTERVAL_NS,
    ensures
        !swept(m, now).peers.dom().contains(k),
        !swept(m, now).channels.dom().contains(k),
{
}

/// A sweep forgets exactly the stale peers: none that remains is stale, every
/// fresh peer remains unchanged, and a forgotten peer's channel is gone.
pub proof fn lemma_sweep_forgets_exactly_stale(m: SupernodeModel, now: u64, k: Seq<char>)
    requires
        model_wf(m),
    ensures
        swept(m, now).peers.dom().contains(k) ==> !is_stale(swept(m, now).peers[k], now),
        m.peers.dom().contains(k) && !is_stale(m.peers[k], now) ==> swept(m, now).peers.dom().contains(k)
            && swept(m, now).peers[k] == m.peers[k],
        m.peers.dom().contains(k) && is_stale(m.peers[k], now) ==> !swept(m, now).peers.dom().contains(k)
            && !swept(m, now).channels.dom().contains(k),
        model_wf(swept(m, now)),
{
    let s = swept(m, now);
    assert(s.peers.dom() =~= m.peers.dom().filter(|k: Seq<char>| !is_stale(m.peers[k], now)));
    assert(s.channels.dom() =~= m.channels.dom().filter(|k: Seq<char>| m.peers.dom().contains(k) && !is_stale(m.peers[k], now)));
}

/// Every step keeps the state's invariant.
pub proof fn lemma_step_keeps_invariant(
    m: SupernodeModel,
    bound: Option<Seq<char>>,
    tx: UnboundedSender<Response>,
    req: Request,
    now: u64,
    relay_addr: Seq<char>,
)
    requires
        model_wf(m),
    ensures
        model_wf(spec_step(m, bound, tx, req, now, relay_addr).model),
{
    match req {
        Request::SupernodeDirectoryPush { peers } => {
            lemma_merge_keeps_invariant(m, peers@.map_values(|p: PeerEndpoint| p@), now);
        },
        _ => {},
    }
}

/// Merging a pushed directory keeps the state's invariant.
proof fn lemma_merge_keeps_invariant(m: SupernodeModel, list: Seq<PeerEndpointView>, now: u64)
    requires
        model_wf(m),
    ensures
        model_wf(with_peers(m, merge_directory(m.peers, list, now))),
        m.peers.dom().subset_of(merge_directory(m.peers, list, now).dom()),
    decreases list.len(),
{
    if list.len() > 0 {
        lemma_merge_keeps_invariant(m, list.drop_last(), now);
    }
}

/// A sweep at `now` forgets, with its channel, every peer last heard from
/// more than 90 seconds before `now`, however long ago that was, and keeps
/// every other peer exactly as it was.
pub proof fn lemma_sweep_by_silence(m: SupernodeModel, now: u64, k: Seq<char>)
    requires
        model_wf(m),
        m.peers.dom().contains(k),
    ensures
        now - m.peers[k].last_heartbeat > 90_000_000_000 ==> !swept(m, now).peers.dom().contains(k)
            && !swept(m, now).channels.dom().contains(k),
        now - m.peers[k].last_heartbeat <= 90_000_000_000 ==> swept(m, now).peers.dom().contains(k)
            && swept(m, now).peers[k] == m.peers[k] && (m.channels.dom().contains(k)
            ==> swept(m, now).channels.dom().contains(k) && swept(m, now).channels[k]
            == m.channels[k]),
{
}

/// A heartbeat from an announced peer changes only that peer's last
/// heartbeat, which becomes `now`: its endpoint (addresses, relay flag,
/// supernode, status) and every other entry and channel stay as they were.
pub proof fn lemma_heartbeat_refreshes_only_time(
    m: SupernodeModel,
    bound: Option<Seq<char>>,
    tx: UnboundedSender<Response>,
    heartbeat: Request,
    now: u64,
    relay_addr: Seq<char>,
    k: Seq<char>,
)
    requires
        model_wf(m),
        heartbeat is Heartbeat,
        m.peers.dom().contains(heartbeat->Heartbeat_username@),
    ensures
        ({
            let u = heartbeat->Heartbeat_username@;
            let m1 = spec_step(m, bound, tx, heartbeat, now, relay_addr).model;
            &&& m1.peers.dom() == m.peers.dom()
            &&& m1.peers[u].endpoint == m.peers[u].endpoint
            &&& m1.peers[u].last_heartbeat == now
            &&& (k != u && m.peers.dom().contains(k) ==> m1.peers[k] == m.peers[k])
            &&& m1.channels == m.channels
        }),
{
    let u = heartbeat->Heartbeat_username@;
    let m1 = spec_step(m, bound, tx, heartbeat, now, relay_addr).model;
    assert(m1.peers.dom() =~= m.peers.dom());
}

/// A presence update from an announced peer sets that peer's status to the
/// new one and its last heartbeat to `now`, keeps its addresses, relay flag
/// and supernode, and leaves every other entry and channel alone; so the
/// peer survives every sweep up to 90 seconds after the update.
pub proof fn lemma_presence_sets_status_and_time(
    m: SupernodeModel,
    bound: Option<Seq<char>>,
    tx: UnboundedSender<Response>,
    update: Request,
    now: u64,
    relay_addr: Seq<char>,
    k: Seq<char>,
    later: u64,
)
    requires
        model_wf(m),
        update is PresenceUpdate,
        m.peers.dom().contains(update->PresenceUpdate_username@),
    ensures
        ({
            let u = update->PresenceUpdate_username@;
            let m1 = spec_step(m, bound, tx, update, now, relay_addr).model;
            let e0 = m.peers[u].endpoint;
            let e1 = m1.peers[u].endpoint;
            &&& m1.peers.dom() == m.peers.dom()
            &&& e1.status == update->PresenceUpdate_status@
            &&& e1.username == e0.username
            &&& e1.tcp_addr == e0.tcp_addr
            &&& e1.udp_addr == e0.udp_addr
            &&& e1.supernode_addr == e0.supernode_addr
            &&& e1.relay_required == e0.relay_required
            &&& m1.peers[u].last_heartbeat == now
            &&& (k != u && m.peers.dom().contains(k) ==> m1.peers[k] == m.peers[k])
            &&& m1.channels == m.channels
            &&& (now <= later && later - now <= 90_000_000_000 ==> swept(m1, later).peers.dom().contains(u))
        }),
{
    let u = update->PresenceUpdate_username@;
    let m1 = spec_step(m, bound, tx, update, now, relay_addr).model;
    assert(m1.peers.dom() =~= m.peers.dom());
}

/// Merging a pushed list that does not hold the name `k` leaves the
/// directory's entry for `k`, or its absence, as it was.
proof fn lemma_merge_absent(peers: Map<Seq<char>, PeerStateView>, list: Seq<PeerEndpointView>, now: u64, k: Seq<char>)
    requires
        forall|i: int| 0 <= i < list.len() ==> list[i].username != k,
    ensures
        merge_directory(peers, list, now).dom().contains(k) == peers.dom().contains(k),
        peers.dom().contains(k) ==> merge_directory(peers, list, now)[k] == peers[k],
    decreases list.len(),
{
    if list.len() > 0 {
        let init = list.drop_last();
        assert(list.last().username != k);
        assert forall|i: int| 0 <= i < init.len() implies init[i].username != k by {
            assert(init[i] == list[i]);
        }
        lemma_merge_absent(peers, init, now, k);
    }
}

/// Merging a pushed list leaves for the name `k` the last pushed endpoint
/// with that name, at index `j`, stamped `now`.
proof fn lemma_merge_last(
    peers: Map<Seq<char>, PeerStateView>,
    list: Seq<PeerEndpointView>,
    now: u64,
    k: Seq<char>,
    j: int,
)
    requires
        0 <= j < list.len(),
        list[j].username == k,
        forall|i: int| j < i < list.len() ==> list[i].username != k,
    ensures
        merge_directory(peers, list, now).dom().contains(k),
        merge_directory(peers, list, now)[k] == (PeerStateView { endpoint: list[j], last_heartbeat: now }),
    decreases list.len(),
{
    let init = list.drop_last();
    if j < list.len() - 1 {
        assert(list.last().username != k);
        assert(init[j] == list[j]);
        assert forall|i: int| j < i < init.len() implies init[i].username != k by {
            assert(init[i] == list[i]);
        }
        lemma_merge_last(peers, init, now, k, j);
    }
}

/// A directory push overwrites: for every user name it holds, the directory
/// afterwards has the last pushed endpoint with that name, stamped `now`,
/// whatever it held before; every other entry, and every channel, is
/// unchanged.
pub proof fn lemma_push_overwrites(
    m: SupernodeModel,
    bound: Option<Seq<char>>,
    tx: UnboundedSender<Response>,
    push: Request,
    now: u64,
    relay_addr: Seq<char>,
    k: Seq<char>,
)
    requires
        model_wf(m),
        push is SupernodeDirectoryPush,
    ensures
        ({
            let list = push->SupernodeDirectoryPush_peers@;
            let m1 = spec_step(m, bound, tx, push, now, relay_addr).model;
            &&& forall|j: int|
                0 <= j < list.len() && list[j].username@ == k && (forall|i: int|
                    j < i < list.len() ==> list[i].username@ != k) ==> m1.peers.dom().contains(k)
                    && m1.peers[k] == (PeerStateView { endpoint: list[j]@, last_heartbeat: now })
            &&& (forall|i: int| 0 <= i < list.len() ==> list[i].username@ != k) ==> (m1.peers.dom().contains(k)
                == m.peers.dom().contains(k) && (m.peers.dom().contains(k) ==> m1.peers[k] == m.peers[k]))
            &&& m1.channels == m.channels
        }),
{
    let list = push->SupernodeDirectoryPush_peers@;
    let views = list.map_values(|p: PeerEndpoint| p@);
    let m1 = spec_step(m, bound, tx, push, now, relay_addr).model;
    assert(m1.peers == merge_directory(m.peers, views, now));
    assert forall|j: int|
        0 <= j < list.len() && list[j].username@ == k && (forall|i: int|
            j < i < list.len() ==> list[i].username@ != k) implies m1.peers.dom().contains(k)
            && m1.peers[k] == (PeerStateView { endpoint: list[j]@, last_heartbeat: now }) by {
        assert forall|i: int| j < i < views.len() implies views[i].username != k by {
            assert(views[i] == list[i]@);
        }
        assert(views[j] == list[j]@);
        lemma_merge_last(m.peers, views, now, k, j);
    }
    if forall|i: int| 0 <= i < list.len() ==> list[i].username@ != k {
        assert forall|i: int| 0 <= i < views.len() implies views[i].username != k by {
            assert(views[i] == list[i]@);
        }
        lemma_merge_absent(m.peers, views, now, k);
    }
}

/// An announcement is refused exactly when the directory already holds the
/// cluster limit's number of peers and the announcing user is not one of
/// them; an accepted one files the endpoint, stamped `now`, under the user,
/// registers the connection's sender as its channel and binds the user to
/// the connection, leaving every other entry and channel alone.
pub proof fn lemma_announce_accepts_below_limit(
    m: SupernodeModel,
    bound: Option<Seq<char>>,
    tx: UnboundedSender<Response>,
    announce: Request,
    now: u64,
    relay_addr: Seq<char>,
    k: Seq<char>,
)
    requires
        model_wf(m),
        announce is AnnouncePeer,
    ensures
        ({
            let u = announce->AnnouncePeer_username@;
            let r = spec_step(m, bound, tx, announce, now, relay_addr);
            let refused = m.peers.dom().len() >= m.cluster_limit && !m.peers.dom().contains(u);
            &&& refused ==> r.model == m && r.bound == bound && r.reply == (ResponseView::Error {
                message: "supernode cluster full"@,
            })
            &&& !refused ==> {
                &&& r.reply == (ResponseView::Ack { message: "peer announced"@ })
                &&& r.bound == Some(u)
                &&& r.model.peers.dom().contains(u)
                &&& r.model.peers[u].last_heartbeat == now
                &&& r.model.peers[u].endpoint.username == u
                &&& r.model.peers[u].endpoint.tcp_addr == announce->AnnouncePeer_tcp_addr@
                &&& r.model.peers[u].endpoint.udp_addr == announce->AnnouncePeer_udp_addr@
                &&& r.model.peers[u].endpoint.supernode_addr == m.self_addr
                &&& r.model.peers[u].endpoint.relay_required == announce->AnnouncePeer_relay_required
                &&& r.model.peers[u].endpoint.status == announce->AnnouncePeer_status@
                &&& r.model.channels.dom().contains(u) && r.model.channels[u] == tx
                &&& (k != u ==> r.model.peers.dom().contains(k) == m.peers.dom().contains(k))
                &&& (k != u && m.peers.dom().contains(k) ==> r.model.peers[k] == m.peers[k])
                &&& (k != u ==> r.model.channels.dom().contains(k) == m.channels.dom().contains(k))
                &&& (k != u && m.channels.dom().contains(k) ==> r.model.channels[k] == m.channels[k])
            }
        }),
{
}

/// A lookup or connect request changes nothing and answers from the
/// directory: the target's endpoint, or the relay when the target asked to
/// be relayed, or an error when the target is not here.
pub proof fn lemma_lookup_answers_from_directory(
    m: SupernodeModel,
    bound: Option<Seq<char>>,
    tx: UnboundedSender<Response>,
    lookup: Request,
    now: u64,
    relay_addr: Seq<char>,
    target: Seq<char>,
)
    requires
        model_wf(m),
        lookup is PeerLookup || lookup is ConnectRequest,
        lookup is PeerLookup ==> lookup->PeerLookup_target_user@ == target,
        lookup is ConnectRequest ==> lookup->ConnectRequest_target_user@ == target,
    ensures
        ({
            let r = spec_step(m, bound, tx, lookup, now, relay_addr);
            &&& r.model == m
            &&& r.bound == bound
            &&& r.delivery is None
            &&& !m.peers.dom().contains(target) ==> r.reply == (ResponseView::Error {
                message: "peer not present in this cluster"@,
            })
            &&& m.peers.dom().contains(target) && m.peers[target].endpoint.relay_required ==> r.reply
                == (ResponseView::RelayRequired { relay_addr })
            &&& m.peers.dom().contains(target) && !m.peers[target].endpoint.relay_required ==> r.reply
                == (ResponseView::PeerFound { endpoint: m.peers[target].endpoint })
        }),
{
}

/// A signal forward changes nothing; it is handed, as an incoming signal
/// from its sender with its payload, to the target's registered channel, and
/// refused with no delivery when the target has none.
pub proof fn lemma_signal_follows_channels(
    m: SupernodeModel,
    bound: Option<Seq<char>>,
    tx: UnboundedSender<Response>,
    forward: Request,
    now: u64,
    relay_addr: Seq<char>,
)
    requires
        model_wf(m),
        forward is SignalForward,
    ensures
        ({
            let t = forward->SignalForward_target_user@;
            let r = spec_step(m, bound, tx, forward, now, relay_addr);
            &&& r.model == m
            &&& r.bound == bound
            &&& m.channels.dom().contains(t) ==> r.reply == ResponseView::SignalDelivered
                && r.delivery == Some(
                (
                    m.channels[t],
                    ResponseView::IncomingSignal {
                        from_user: forward->SignalForward_username@,
                        payload: forward->SignalForward_payload,
                    },
                ),
            )
            &&& !m.channels.dom().contains(t) ==> r.reply == (ResponseView::Error {
                message: "target unavailable"@,
            }) && r.delivery is None
        }),
{
}

} // verus!
