use skype_rs::config::NetworkConfig;
use skype_rs::protocol::{PeerEndpoint, Request, Response};
use skype_rs::supernode::{
    dispatch, invalid_request_reply, session_of, Connection, SupernodeState,
};
use tokio::sync::mpsc::{unbounded_channel, UnboundedReceiver};

fn config(limit: usize) -> NetworkConfig {
    NetworkConfig {
        login_host: "127.0.0.1".to_string(),
        login_port: 7000,
        supernode_host: "10.0.0.5".to_string(),
        supernode_port: 7100,
        relay_host: "relay.example".to_string(),
        relay_port: 7200,
        supernode_cache_size: 2,
        peer_cluster_limit: limit,
        database_url: "sqlite::memory:".to_string(),
        known_supernodes: vec!["a:1".to_string(), "b:2".to_string(), "c:3".to_string()],
    }
}

fn connection() -> (Connection, UnboundedReceiver<Response>) {
    let (tx, rx) = unbounded_channel();
    (Connection::new(tx), rx)
}

fn announce(user: &str, relay_required: bool) -> Request {
    Request::AnnouncePeer {
        username: user.to_string(),
        token: "t".to_string(),
        tcp_addr: format!("{user}:1"),
        udp_addr: format!("{user}:2"),
        relay_required,
        status: "online".to_string(),
    }
}

fn lookup(user: &str, target: &str) -> Request {
    Request::PeerLookup { username: user.to_string(), token: "t".to_string(), target_user: target.to_string() }
}

fn ack_text(r: &Response) -> String {
    match r {
        Response::Ack { message } => message.clone(),
        _ => panic!("expected an ack"),
    }
}

fn error_text(r: &Response) -> String {
    match r {
        Response::Error { message } => message.clone(),
        _ => panic!("expected an error"),
    }
}

#[test]
fn announce_then_lookup_finds_peer() {
    let mut state = SupernodeState::new(&config(10));
    let (mut alice, _rx) = connection();
    let out = state.handle_request(&mut alice, announce("alice", false), 1_000_000_000, "relay.example:7200");
    assert_eq!(ack_text(&out.reply), "peer announced");
    let (mut bob, _rx2) = connection();
    let out = state.handle_request(&mut bob, lookup("bob", "alice"), 2_000_000_000, "relay.example:7200");
    match out.reply {
        Response::PeerFound { endpoint } => {
            assert_eq!(endpoint.username, "alice");
            assert_eq!(endpoint.tcp_addr, "alice:1");
            assert_eq!(endpoint.udp_addr, "alice:2");
            assert_eq!(endpoint.supernode_addr, "10.0.0.5:7100");
            assert!(!endpoint.relay_required);
            assert_eq!(endpoint.status, "online");
        }
        _ => panic!("expected the peer"),
    }
}

#[test]
fn relay_required_peer_gets_relay_address() {
    let mut state = SupernodeState::new(&config(10));
    let (mut carol, _rx) = connection();
    state.handle_request(&mut carol, announce("carol", true), 0, "relay.example:7200");
    let out = state.handle_request(
        &mut carol,
        Request::ConnectRequest { username: "carol".into(), token: "t".into(), target_user: "carol".into() },
        0,
        "relay.example:7200",
    );
    match out.reply {
        Response::RelayRequired { relay_addr } => assert_eq!(relay_addr, "relay.example:7200"),
        _ => panic!("expected relay"),
    }
}

#[test]
fn lookup_of_unknown_peer_fails() {
    let mut state = SupernodeState::new(&config(10));
    let (mut c, _rx) = connection();
    let out = state.handle_request(&mut c, lookup("a", "nobody"), 0, "r");
    assert_eq!(error_text(&out.reply), "peer not present in this cluster");
}

#[test]
fn cluster_limit_refuses_new_peers() {
    let mut state = SupernodeState::new(&config(1));
    let (mut a, _ra) = connection();
    let (mut b, _rb) = connection();
    state.handle_request(&mut a, announce("a", false), 0, "r");
    let out = state.handle_request(&mut b, announce("b", false), 0, "r");
    assert_eq!(error_text(&out.reply), "supernode cluster full");
    let out = state.handle_request(&mut a, announce("a", true), 0, "r");
    assert_eq!(ack_text(&out.reply), "peer announced");
}

#[test]
fn heartbeat_and_presence_need_announcement() {
    let mut state = SupernodeState::new(&config(10));
    let (mut a, _ra) = connection();
    let hb = Request::Heartbeat { username: "a".into(), token: "t".into() };
    let out = state.handle_request(&mut a, hb, 0, "r");
    assert_eq!(error_text(&out.reply), "peer not announced");
    let pu = Request::PresenceUpdate { username: "a".into(), token: "t".into(), status: "away".into() };
    let out = state.handle_request(&mut a, pu, 0, "r");
    assert_eq!(error_text(&out.reply), "peer not announced");
    state.handle_request(&mut a, announce("a", false), 0, "r");
    let out = state.handle_request(&mut a, Request::Heartbeat { username: "a".into(), token: "t".into() }, 5, "r");
    assert_eq!(ack_text(&out.reply), "heartbeat accepted");
    let pu = Request::PresenceUpdate { username: "a".into(), token: "t".into(), status: "away".into() };
    let out = state.handle_request(&mut a, pu, 6, "r");
    assert_eq!(ack_text(&out.reply), "presence updated");
    match state.handle_request(&mut a, lookup("a", "a"), 7, "r").reply {
        Response::PeerFound { endpoint } => assert_eq!(endpoint.status, "away"),
        _ => panic!("expected the peer"),
    }
}

#[test]
fn signal_is_routed_to_announcing_connection() {
    let mut state = SupernodeState::new(&config(10));
    let (mut alice, mut alice_rx) = connection();
    let (mut bob, _bob_rx) = connection();
    state.handle_request(&mut alice, announce("alice", false), 0, "r");
    let fwd = Request::SignalForward {
        username: "bob".into(),
        token: "t".into(),
        target_user: "alice".into(),
        payload: serde_json::Value::String("offer".into()),
    };
    let out = state.handle_request(&mut bob, fwd, 0, "r");
    assert!(matches!(out.reply, Response::SignalDelivered));
    dispatch(out.delivery.expect("a delivery"));
    match alice_rx.try_recv().expect("signal received") {
        Response::IncomingSignal { from_user, payload } => {
            assert_eq!(from_user, "bob");
            assert_eq!(payload, serde_json::Value::String("offer".into()));
        }
        _ => panic!("expected an incoming signal"),
    }
}

#[test]
fn signal_to_unknown_target_fails() {
    let mut state = SupernodeState::new(&config(10));
    let (mut bob, _rx) = connection();
    let fwd = Request::SignalForward {
        username: "bob".into(),
        token: "t".into(),
        target_user: "alice".into(),
        payload: serde_json::Value::Null,
    };
    let out = state.handle_request(&mut bob, fwd, 0, "r");
    assert_eq!(error_text(&out.reply), "target unavailable");
    assert!(out.delivery.is_none());
}

#[test]
fn closed_connection_stops_signals() {
    let mut state = SupernodeState::new(&config(10));
    let (mut alice, _rx) = connection();
    let (mut bob, _rx2) = connection();
    state.handle_request(&mut alice, announce("alice", false), 0, "r");
    state.close_connection(alice);
    let fwd = Request::SignalForward {
        username: "bob".into(),
        token: "t".into(),
        target_user: "alice".into(),
        payload: serde_json::Value::Null,
    };
    let out = state.handle_request(&mut bob, fwd, 0, "r");
    assert_eq!(error_text(&out.reply), "target unavailable");
    assert!(matches!(state.handle_request(&mut bob, lookup("bob", "alice"), 0, "r").reply, Response::PeerFound { .. }));
}

#[test]
fn directory_push_merges_and_counts_cache() {
    let mut state = SupernodeState::new(&config(1));
    let (mut c, _rx) = connection();
    let peers = vec![
        PeerEndpoint {
            username: "x".into(),
            tcp_addr: "x:1".into(),
            udp_addr: "x:2".into(),
            supernode_addr: "other:1".into(),
            relay_required: false,
            status: "online".into(),
        },
        PeerEndpoint {
            username: "y".into(),
            tcp_addr: "y:1".into(),
            udp_addr: "y:2".into(),
            supernode_addr: "other:1".into(),
            relay_required: true,
            status: "busy".into(),
        },
    ];
    let out = state.handle_request(&mut c, Request::SupernodeDirectoryPush { peers }, 0, "r");
    assert_eq!(ack_text(&out.reply), "directory merged, known supernodes: 2");
    match state.handle_request(&mut c, lookup("z", "x"), 0, "r").reply {
        Response::PeerFound { endpoint } => assert_eq!(endpoint.supernode_addr, "other:1"),
        _ => panic!("expected the pushed peer"),
    }
}

#[test]
fn stale_peers_are_swept() {
    let mut state = SupernodeState::new(&config(10));
    let (mut a, _ra) = connection();
    let (mut b, _rb) = connection();
    state.handle_request(&mut a, announce("a", false), 0, "r");
    state.handle_request(&mut b, announce("b", false), 50_000_000_000, "r");
    state.sweep_stale(90_000_000_000);
    assert!(matches!(state.handle_request(&mut b, lookup("b", "a"), 0, "r").reply, Response::PeerFound { .. }));
    state.sweep_stale(90_000_000_001);
    assert_eq!(error_text(&state.handle_request(&mut b, lookup("b", "a"), 0, "r").reply), "peer not present in this cluster");
    assert!(matches!(state.handle_request(&mut b, lookup("b", "b"), 0, "r").reply, Response::PeerFound { .. }));
}

#[test]
fn login_requests_are_unsupported_on_supernode() {
    let mut state = SupernodeState::new(&config(10));
    let (mut c, _rx) = connection();
    let out = state.handle_request(&mut c, Request::Login { username: "a".into(), password: "p".into() }, 0, "r");
    assert_eq!(error_text(&out.reply), "unsupported request on supernode");
}

#[test]
fn session_requirements() {
    assert_eq!(session_of(&lookup("u", "v")), Some(("u".to_string(), "t".to_string())));
    assert_eq!(session_of(&Request::SupernodeDirectoryPush { peers: vec![] }), None);
    assert_eq!(session_of(&Request::Register { username: "u".into(), password: "p".into() }), None);
}

#[test]
fn invalid_request_reply_text() {
    assert_eq!(error_text(&invalid_request_reply("json error: eof")), "invalid request: json error: eof");
}

#[test]
fn heartbeat_keeps_peer_through_timeout() {
    let mut state = SupernodeState::new(&config(10));
    let (mut a, _ra) = connection();
    state.handle_request(&mut a, announce("a", false), 0, "r");
    let hb = Request::Heartbeat { username: "a".into(), token: "t".into() };
    state.handle_request(&mut a, hb, 80_000_000_000, "r");
    state.sweep_stale(170_000_000_000);
    assert!(matches!(state.handle_request(&mut a, lookup("a", "a"), 0, "r").reply, Response::PeerFound { .. }));
    state.sweep_stale(170_000_000_001);
    assert_eq!(error_text(&state.handle_request(&mut a, lookup("a", "a"), 0, "r").reply), "peer not present in this cluster");
}

#[test]
fn unauthorized_request_changes_nothing() {
    let mut state = SupernodeState::new(&config(10));
    let (mut a, _ra) = connection();
    let r = state.on_request(&mut a, announce("a", false), Some("mallory".to_string()), 0, "r");
    match r {
        Err(skype_rs::error::AppError::Protocol(m)) => assert_eq!(m, "unauthorized session"),
        _ => panic!("expected unauthorized"),
    }
    let r = state.on_request(&mut a, announce("a", false), None, 0, "r");
    assert!(r.is_err());
    let (mut b, _rb) = connection();
    let out = state.on_request(&mut b, lookup("b", "a"), Some("b".to_string()), 0, "r").expect("authorized");
    assert_eq!(error_text(&out.reply), "peer not present in this cluster");
}

#[test]
fn authorized_and_sessionless_requests_are_handled() {
    let mut state = SupernodeState::new(&config(10));
    let (mut a, _ra) = connection();
    let out = state.on_request(&mut a, announce("a", false), Some("a".to_string()), 0, "r").expect("authorized");
    assert_eq!(ack_text(&out.reply), "peer announced");
    let out = state
        .on_request(&mut a, Request::SupernodeDirectoryPush { peers: vec![] }, None, 0, "r")
        .expect("no session needed");
    assert_eq!(ack_text(&out.reply), "directory merged, known supernodes: 2");
}
