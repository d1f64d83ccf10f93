//! Protocol messages exchanged between peers and services.

use vstd::prelude::*;
use vstd::string::*;

verus! {

/// A peer endpoint advertised by supernodes.
#[derive(Clone, Debug)]
pub struct PeerEndpoint {
    pub username: String,
    pub tcp_addr: String,
    pub udp_addr: String,
    pub supernode_addr: String,
    pub relay_required: bool,
    pub status: String,
}

/// What a [`PeerEndpoint`] says, with its strings taken as character sequences.
pub struct PeerEndpointView {
    pub username: Seq<char>,
    pub tcp_addr: Seq<char>,
    pub udp_addr: Seq<char>,
    pub supernode_addr: Seq<char>,
    pub relay_required: bool,
    pub status: Seq<char>,
}

impl View for PeerEndpoint {
    type V = PeerEndpointView;

    open spec fn view(&self) -> PeerEndpointView {
        PeerEndpointView {
            username: self.username@,
            tcp_addr: self.tcp_addr@,
            udp_addr: self.udp_addr@,
            supernode_addr: self.supernode_addr@,
            relay_required: self.relay_required,
            status: self.status@,
        }
    }
}

impl PeerEndpoint {
    /// A copy of this endpoint.
    pub fn duplicate(&self) -> (r: PeerEndpoint)
        ensures
            r@ == self@,
    {
        PeerEndpoint {
            username: self.username.clone(),
            tcp_addr: self.tcp_addr.clone(),
            udp_addr: self.udp_addr.clone(),
            supernode_addr: self.supernode_addr.clone(),
            relay_required: self.relay_required,
            status: self.status.clone(),
        }
    }
}

/// Peer/login request variants.
#[derive(Debug)]
pub enum Request {
    Login { username: String, password: String },
    Register { username: String, password: String },
    Heartbeat { username: String, token: String },
    PresenceUpdate { username: String, token: String, status: String },
    AnnouncePeer {
        username: String,
        token: String,
        tcp_addr: String,
        udp_addr: String,
        relay_required: bool,
        status: String,
    },
    ConnectRequest { username: String, token: String, target_user: String },
    PeerLookup { username: String, token: String, target_user: String },
    SignalForward {
        username: String,
        token: String,
        target_user: String,
        payload: serde_json::Value,
    },
    SupernodeDirectoryPush { peers: Vec<PeerEndpoint> },
}

/// Generic service response payload.
#[derive(Debug)]
pub enum Response {
    LoginOk { token: u128, assigned_supernode: String },
    RegisterOk,
    Ack { message: String },
    PeerFound { endpoint: PeerEndpoint },
    RelayRequired { relay_addr: String },
    IncomingSignal { from_user: String, payload: serde_json::Value },
    SignalDelivered,
    Error { message: String },
}

/// What a [`Response`] says, with its strings taken as character sequences.
pub enum ResponseView {
    LoginOk { token: u128, assigned_supernode: Seq<char> },
    RegisterOk,
    Ack { message: Seq<char> },
    PeerFound { endpoint: PeerEndpointView },
    RelayRequired { relay_addr: Seq<char> },
    IncomingSignal { from_user: Seq<char>, payload: serde_json::Value },
    SignalDelivered,
    Error { message: Seq<char> },
}

impl View for Response {
    type V = ResponseView;

    open spec fn view(&self) -> ResponseView {
        match self {
            Response::LoginOk { token, assigned_supernode } => ResponseView::LoginOk {
                token: *token,
                assigned_supernode: assigned_supernode@,
            },
            Response::RegisterOk => ResponseView::RegisterOk,
            Response::Ack { message } => ResponseView::Ack { message: message@ },
            Response::PeerFound { endpoint } => ResponseView::PeerFound { endpoint: endpoint@ },
            Response::RelayRequired { relay_addr } => ResponseView::RelayRequired {
                relay_addr: relay_addr@,
            },
            Response::IncomingSignal { from_user, payload } => ResponseView::IncomingSignal {
                from_user: from_user@,
                payload: *payload,
            },
            Response::SignalDelivered => ResponseView::SignalDelivered,
            Response::Error { message } => ResponseView::Error { message: message@ },
        }
    }
}

/// An `Ack` whose message is `text`.
pub fn ack(text: &str) -> (r: Response)
    ensures
        r@ == (ResponseView::Ack { message: text@ }),
{
    Response::Ack { message: text.to_owned() }
}

/// An `Error` response whose message is `text`.
pub fn error_reply(text: &str) -> (r: Response)
    ensures
        r@ == (ResponseView::Error { message: text@ }),
{
    Response::Error { message: text.to_owned() }
}

} // verus!
