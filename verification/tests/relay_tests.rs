use skype_rs::relay::{PeerAddress, RelayPacket, RelayTable};

fn packet(from: &str, to: &str) -> RelayPacket {
    RelayPacket { from_user: from.to_string(), to_user: to.to_string(), payload: vec![1, 2, 3] }
}

#[test]
fn relay_learns_and_forwards() {
    let mut table = RelayTable::new();
    let a = PeerAddress::V4 { ip: 0x7f000001, port: 4000 };
    let b = PeerAddress::V6 { ip: 1, port: 5000, flowinfo: 0, scope_id: 0 };
    assert_eq!(table.route(&packet("alice", "bob"), a), None);
    assert_eq!(table.route(&packet("bob", "alice"), b), Some(a));
    let a2 = PeerAddress::V4 { ip: 0x7f000001, port: 4001 };
    assert_eq!(table.route(&packet("alice", "bob"), a2), Some(b));
    assert_eq!(table.route(&packet("bob", "alice"), b), Some(a2));
}

#[test]
fn relay_to_self_returns_source() {
    let mut table = RelayTable::new();
    let a = PeerAddress::V4 { ip: 1, port: 1 };
    assert_eq!(table.route(&packet("alice", "alice"), a), Some(a));
}
