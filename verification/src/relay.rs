//! The UDP relay's routing table: each user's last seen address, and where a
//! packet goes.

use vstd::prelude::*;

use dashmap::DashMap;

verus! {

/// A UDP socket address held as plain numbers.
#[derive(Clone, Copy, Debug, PartialEq, Eq, Structural)]
#[allow(inconsistent_fields)]
pub enum PeerAddress {
    V4 { ip: u32, port: u16 },
    V6 { ip: u128, port: u16, flowinfo: u32, scope_id: u32 },
}

/// A packet relayed between two users.
pub struct RelayPacket {
    pub from_user: String,
    pub to_user: String,
    pub payload: Vec<u8>,
}

/// The addresses held in a relay map, keyed by user name.
pub uninterp spec fn address_table(m: DashMap<String, PeerAddress>) -> Map<Seq<char>, PeerAddress>;

/// `DashMap::new` for the relay map: a map with no entries.
#[verifier::external_body]
fn addresses_new() -> (m: DashMap<String, PeerAddress>)
    ensures
        address_table(m) =~= Map::empty(),
{
    DashMap::new()
}

/// `DashMap::insert` on the relay map: the address for `key` becomes `addr`.
#[verifier::external_body]
fn addresses_insert(m: &mut DashMap<String, PeerAddress>, key: String, addr: PeerAddress)
    ensures
        address_table(*final(m)) == address_table(*old(m)).insert(key@, addr),
{
    m.insert(key, addr);
}

/// `DashMap::get` on the relay map, handing out a copy of the address.
#[verifier::external_body]
fn addresses_get(m: &DashMap<String, PeerAddress>, key: &str) -> (r: Option<PeerAddress>)
    ensures
        r is Some <==> address_table(*m).dom().contains(key@),
        r matches Some(a) ==> a == address_table(*m)[key@],
{
    m.get(key).map(|entry| *entry.value())
}

/// Where a packet from `from` to `to`, received from `src`, goes with the
/// table `t`: the table learns that `from` is at `src`, and the packet goes
/// to `to`'s address in the updated table, if it has one.
pub open spec fn spec_route(
    t: Map<Seq<char>, PeerAddress>,
    from: Seq<char>,
    to: Seq<char>,
    src: PeerAddress,
) -> (Map<Seq<char>, PeerAddress>, Option<PeerAddress>) {
    let t2 = t.insert(from, src);
    (t2, if t2.dom().contains(to) { Some(t2[to]) } else { None })
}

/// The relay's table of the address each user last sent from.
pub struct RelayTable {
    peer_addrs: DashMap<String, PeerAddress>,
}

impl View for RelayTable {
    type V = Map<Seq<char>, PeerAddress>;

    closed spec fn view(&self) -> Map<Seq<char>, PeerAddress> {
        address_table(self.peer_addrs)
    }
}

impl RelayTable {
    /// A table that knows no one.
    pub fn new() -> (t: RelayTable)
        ensures
            t@ == Map::<Seq<char>, PeerAddress>::empty(),
    {
        RelayTable { peer_addrs: addresses_new() }
    }

    /// Records that the packet's sender is at `src` and returns the address
    /// to forward the packet to, if its recipient is known.
    pub fn route(&mut self, packet: &RelayPacket, src: PeerAddress) -> (target: Option<PeerAddress>)
        ensures
            (final(self)@, target) == spec_route(old(self)@, packet.from_user@, packet.to_user@, src),
    {
        addresses_insert(&mut self.peer_addrs, packet.from_user.clone(), src);
        addresses_get(&self.peer_addrs, packet.to_user.as_str())
    }
}

/// A packet goes to the address its recipient last sent from: after the
/// recipient's own packet from `a`, a packet to it from someone else is
/// forwarded to `a`.
pub proof fn lemma_reply_reaches_last_sender(
    t: Map<Seq<char>, PeerAddress>,
    alice: Seq<char>,
    bob: Seq<char>,
    to1: Seq<char>,
    a: PeerAddress,
    b: PeerAddress,
)
    requires
        alice != bob,
    ensures
        spec_route(spec_route(t, alice, to1, a).0, bob, alice, b).1 == Some(a),
{
}

/// A packet to a user the relay has never heard from is dropped.
pub proof fn lemma_unknown_recipient_dropped(
    t: Map<Seq<char>, PeerAddress>,
    from: Seq<char>,
    to: Seq<char>,
    src: PeerAddress,
)
    requires
        !t.dom().contains(to),
        from != to,
    ensures
        spec_route(t, from, to, src).1 is None,
{
}

/// Routing learns only the sender: the table afterwards is the table before
/// with the sender filed at `src`, nothing else added or changed; and the
/// packet goes to the sender's new address if it is sent to itself, to the
/// recipient's known address otherwise, and nowhere if the recipient is
/// unknown.
pub proof fn lemma_route_learns_only_sender(
    t: Map<Seq<char>, PeerAddress>,
    from: Seq<char>,
    to: Seq<char>,
    src: PeerAddress,
)
    ensures
        spec_route(t, from, to, src).0 == t.insert(from, src),
        spec_route(t, from, to, src).1 == (if to == from {
            Some(src)
        } else if t.dom().contains(to) {
            Some(t[to])
        } else {
            None
        }),
{
}

} // verus!
