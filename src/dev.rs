//! The data-plane device: its peers, indexed by position, name and inner
//! address, and the decisions taken on each packet from the TUN device or
//! from the network. The caller owns the TUN device, the sockets and the
//! readiness multiplexor, and carries out the returned `Transmit`.
use vstd::prelude::*;

use crate::allowed_ip::{lemma_longest_prefix_found, lookup, valid_key, AllowedIps, PrefixMap};
use crate::ipv4::{ipv4_addrs, ipv4_destination, ipv4_header_ok, SockAddr};
use crate::packet::{decode, encode, Message, PackeParseError, Packet, HANDSHAKE_INIT_SIZE, HANDSHAKE_RESPONSE_SIZE};
use crate::peer::{
    encapsulated, endpoint_after, incoming_outcome, next_state, Action, Endpoint, HandshakeState,
    Outcome, Peer, PeerName, PeerView, PEER_NAME_MAX_LEN,
};
use crate::poll::{SockID, Token};

verus! {

/// Size of each scratch buffer: one datagram and its framing.
pub const BUF_SIZE: usize = 1504;

/// The largest number of peers: each index must also be a non-negative
/// socket id in a `Token`.
pub const MAX_PEERS: usize = 0x7fff_ffff;

/// How a device is set up.
pub struct DeviceConfig<'a> {
    pub name: PeerName,
    pub use_connected_peer: bool,
    pub listen_port: u16,
    pub tun_name: &'a str,
    pub fwmark: Option<u32>,
}

/// What the caller is to write, and where.
#[derive(Debug)]
pub enum Transmit<'a> {
    /// Write to the TUN device.
    Tun(&'a [u8]),
    /// Send on the connected socket of the peer with this index.
    Conn(u32, &'a [u8]),
    /// Send on the unconnected socket to this address.
    Udp(SockAddr, &'a [u8]),
    Nothing,
}

/// The content of a `Transmit`.
pub ghost enum Delivery {
    Tun(Seq<u8>),
    Conn(u32, Seq<u8>),
    Udp(SockAddr, Seq<u8>),
    Nothing,
}

impl<'a> View for Transmit<'a> {
    type V = Delivery;

    open spec fn view(&self) -> Delivery {
        match self {
            Transmit::Tun(d) => Delivery::Tun(d@),
            Transmit::Conn(i, d) => Delivery::Conn(*i, d@),
            Transmit::Udp(a, d) => Delivery::Udp(*a, d@),
            Transmit::Nothing => Delivery::Nothing,
        }
    }
}

/// Where a readiness event sends the caller.
#[derive(Debug, Copy, Clone, PartialEq, Eq, Structural)]
pub enum EventSource {
    /// Drain the TUN device.
    Tun,
    /// Drain the unconnected socket.
    Unconnected,
    /// Drain the connected socket of the peer with this index.
    ConnectedPeer(u32),
    /// Nothing to drain.
    Ignore,
}

/// A datagram from the network that names a peer. The caller drops
/// `taken_conn` (after removing it from the multiplexor) and, where `connect`
/// holds, connects a new socket to the peer before delivering `packet`.
#[derive(Debug)]
pub struct Arrival<'a, C> {
    pub peer: u32,
    pub packet: Packet<'a>,
    pub endpoint_changed: bool,
    pub taken_conn: Option<C>,
    pub connect: bool,
}

/// The peers of a device and its settings.
pub struct Device<C> {
    name: PeerName,
    peers_by_name: Vec<PeerName>,
    peers_by_index: Vec<Peer<C>>,
    peers_by_ip: AllowedIps,
    use_connected_peer: bool,
    listen_port: u16,
    fwmark: Option<u32>,
}

/// What a device holds: `names[i]` is the name of `peers[i]`.
pub ghost struct DeviceView<C> {
    pub name: Seq<u8>,
    pub names: Seq<Seq<u8>>,
    pub peers: Seq<PeerView<C>>,
    pub peers_by_ip: PrefixMap,
    pub use_connected_peer: bool,
    pub listen_port: u16,
    pub fwmark: Option<u32>,
}

impl<C> DeviceView<C> {
    /// The device name is full width, each peer knows its index, each name
    /// belongs to one peer, and the routing table names peers only.
    pub open spec fn wf(self) -> bool {
        &&& self.name.len() == PEER_NAME_MAX_LEN
        &&& self.names.len() == self.peers.len()
        &&& self.peers.len() <= MAX_PEERS
        &&& forall|i: int| 0 <= i < self.peers.len() ==> #[trigger] self.peers[i].local_idx == i
        &&& forall|k: (u32, u8)|
            #[trigger] self.peers_by_ip.contains_key(k) ==> self.peers_by_ip[k] < self.peers.len()
    }
}

/// The routing table after a peer with index `idx` and allowed prefixes
/// `allowed` joins: its prefixes now lead to it.
pub open spec fn with_prefixes(m: PrefixMap, allowed: PrefixMap, idx: u32) -> PrefixMap {
    Map::new(
        |k: (u32, u8)| m.contains_key(k) || allowed.contains_key(k),
        |k: (u32, u8)|
            if allowed.contains_key(k) {
                idx
            } else {
                m[k]
            },
    )
}

/// The last of the first `n` names that equals `name`.
pub open spec fn last_index_of(names: Seq<Seq<u8>>, name: Seq<u8>, n: nat) -> Option<int>
    decreases n,
{
    if n == 0 {
        None
    } else if names[n - 1] == name {
        Some(n - 1)
    } else {
        last_index_of(names, name, (n - 1) as nat)
    }
}

/// A name found among the first `n` is at an index below `n`.
pub proof fn lemma_last_index_in_range(names: Seq<Seq<u8>>, name: Seq<u8>, n: nat)
    ensures
        last_index_of(names, name, n) matches Some(i) ==> 0 <= i < n,
    decreases n,
{
    if n > 0 {
        lemma_last_index_in_range(names, name, (n - 1) as nat);
    }
}

/// The peer that a received message concerns: an init by the sender's name
/// (the peer registered last under it), the others by the index they carry.
pub open spec fn route<C>(d: DeviceView<C>, m: Message) -> Option<int> {
    match m {
        Message::HandshakeInit { sender_name, .. } => last_index_of(d.names, sender_name, d.names.len()),
        Message::HandshakeResponse { sender_idx, .. } => if sender_idx < d.peers.len() {
            Some(sender_idx as int)
        } else {
            None
        },
        Message::Data { sender_idx, .. } => if sender_idx < d.peers.len() {
            Some(sender_idx as int)
        } else {
            None
        },
        Message::Empty => None,
    }
}

/// Where the outcome `o` of the peer `p` (with index `idx`) goes: an inner
/// packet to TUN only if the peer may send from its source address, bytes for
/// the network over the peer's connected socket if it has one, else to its
/// endpoint address if known.
pub open spec fn delivery<C>(p: PeerView<C>, idx: u32, o: Outcome) -> Delivery {
    match o {
        Outcome::Tun(d, src) => if lookup(p.allowed_ips, src) is Some {
            Delivery::Tun(d)
        } else {
            Delivery::Nothing
        },
        Outcome::Network(d) => match p.endpoint.conn {
            Some(_) => Delivery::Conn(idx, d),
            None => match p.endpoint.addr {
                Some(a) => Delivery::Udp(a, d),
                None => Delivery::Nothing,
            },
        },
        Outcome::Nothing => Delivery::Nothing,
    }
}

/// What an IPv4 packet `pkt` read from TUN becomes: nothing unless its
/// header parses and a peer's prefix covers its destination; then what that
/// peer makes of it.
pub open spec fn tun_delivery<C>(d: DeviceView<C>, pkt: Seq<u8>) -> Delivery {
    if !ipv4_header_ok(pkt) {
        Delivery::Nothing
    } else {
        match lookup(d.peers_by_ip, ipv4_destination(pkt)) {
            Some(i) => delivery(d.peers[i as int], i, encapsulated(d.peers[i as int].state, pkt)),
            None => Delivery::Nothing,
        }
    }
}

/// The peer that the datagram `b` concerns, if it parses and names one.
pub open spec fn arrival_peer<C>(d: DeviceView<C>, b: Seq<u8>) -> Option<int> {
    match decode(b) {
        Ok(m) => route(d, m),
        Err(_) => None,
    }
}

/// The device `d` with the peer at `i` replaced by `p`.
pub open spec fn with_peer<C>(d: DeviceView<C>, i: int, p: PeerView<C>) -> DeviceView<C> {
    DeviceView { peers: d.peers.update(i, p), ..d }
}

/// An inner packet from a peer whose source address lies outside the peer's
/// allowed prefixes is never written to TUN.
pub proof fn lemma_disallowed_source_dropped<C>(p: PeerView<C>, idx: u32, m: Message)
    requires
        m is Data,
        lookup(p.allowed_ips, crate::ipv4::ipv4_source(m->Data_data)) is None,
    ensures
        !(delivery(p, idx, incoming_outcome(p.state, m, p.local_idx)) is Tun),
{
}

impl<C> View for Device<C> {
    type V = DeviceView<C>;

    closed spec fn view(&self) -> DeviceView<C> {
        DeviceView {
            name: self.name@,
            names: self.peers_by_name@.map_values(|n: PeerName| n@),
            peers: self.peers_by_index@.map_values(|p: Peer<C>| p@),
            peers_by_ip: self.peers_by_ip@,
            use_connected_peer: self.use_connected_peer,
            listen_port: self.listen_port,
            fwmark: self.fwmark,
        }
    }
}

impl<C> Device<C> {
    /// A device with no peers, set up from `config`.
    pub fn new(config: DeviceConfig) -> (r: Self)
        ensures
            r@.name.len() == PEER_NAME_MAX_LEN,
            r@.wf(),
            r@.name == config.name@,
            r@.names.len() == 0,
            r@.peers.len() == 0,
            r@.peers_by_ip == PrefixMap::empty(),
            r@.use_connected_peer == config.use_connected_peer,
            r@.listen_port == config.listen_port,
            r@.fwmark == config.fwmark,
    {
        proof {
            use_type_invariant(&config.name);
            config.name.lemma_inv_len();
        }
        let r = Device {
            name: config.name,
            peers_by_name: Vec::new(),
            peers_by_index: Vec::new(),
            peers_by_ip: AllowedIps::new(),
            use_connected_peer: config.use_connected_peer,
            listen_port: config.listen_port,
            fwmark: config.fwmark,
        };
        assert(r@.names =~= Seq::empty());
        assert(r@.peers =~= Seq::empty());
        r
    }

    pub fn num_peers(&self) -> (r: usize)
        ensures
            r == self@.peers.len(),
    {
        self.peers_by_index.len()
    }

    pub fn peer(&self, idx: u32) -> (r: &Peer<C>)
        requires
            idx < self@.peers.len(),
        ensures
            r@ == self@.peers[idx as int],
    {
        &self.peers_by_index[idx as usize]
    }

    pub fn use_connected_peer(&self) -> (r: bool)
        ensures
            r == self@.use_connected_peer,
    {
        self.use_connected_peer
    }

    pub fn listen_port(&self) -> (r: u16)
        ensures
            r == self@.listen_port,
    {
        self.listen_port
    }

    pub fn fwmark(&self) -> (r: Option<u32>)
        ensures
            r == self@.fwmark,
    {
        self.fwmark
    }

    /// Installs `conn`, a socket connected to the endpoint of peer `idx`.
    pub fn connect_peer(&mut self, idx: u32, conn: C)
        requires
            old(self)@.wf(),
            idx < old(self)@.peers.len(),
            old(self)@.peers[idx as int].endpoint.addr is Some,
            old(self)@.peers[idx as int].endpoint.conn is None,
        ensures
            final(self)@.wf(),
            final(self)@ == with_peer(
                old(self)@,
                idx as int,
                PeerView {
                    endpoint: Endpoint { addr: old(self)@.peers[idx as int].endpoint.addr, conn: Some(conn) },
                    ..old(self)@.peers[idx as int]
                },
            ),
    {
        self.peers_by_index[idx as usize].connect_endpoint(conn);
        assert(self@.peers =~= with_peer(old(self)@, idx as int, self@.peers[idx as int]).peers);
    }
}

impl<C> Device<C> {
    /// Registers `peer` under `name` with the next index; its allowed
    /// prefixes now route to it.
    pub fn add_peer(&mut self, name: PeerName, peer: Peer<C>)
        requires
            old(self)@.wf(),
            old(self)@.peers.len() < MAX_PEERS,
        ensures
            final(self)@.wf(),
            final(self)@ == (DeviceView {
                names: old(self)@.names.push(name@),
                peers: old(self)@.peers.push(
                    PeerView { local_idx: old(self)@.peers.len() as u32, ..peer@ },
                ),
                peers_by_ip: with_prefixes(
                    old(self)@.peers_by_ip,
                    peer@.allowed_ips,
                    old(self)@.peers.len() as u32,
                ),
                ..old(self)@
            }),
    {
        let idx = self.peers_by_index.len() as u32;
        let mut peer = peer;
        peer.set_local_idx(idx);
        let it = peer.allowed_ips().iter();
        let ghost allowed = peer@.allowed_ips;
        let ghost start = self.peers_by_ip@;
        let mut i: usize = 0;
        while i < it.items.len()
            invariant
                i <= it.items@.len(),
                idx == old(self)@.peers.len(),
                self@ == (DeviceView { peers_by_ip: self@.peers_by_ip, ..old(self)@ }),
                start == old(self)@.peers_by_ip,
                forall|j: int| 0 <= j < it.items@.len() ==> valid_key((#[trigger] it.items@[j].1, it.items@[j].2)),
                forall|k: (u32, u8)|
                    #[trigger] self@.peers_by_ip.contains_key(k) == (start.contains_key(k) || exists|j: int|
                        #![trigger it.items@[j]]
                        0 <= j < i && it.items@[j].1 == k.0 && it.items@[j].2 == k.1),
                forall|k: (u32, u8)|
                    #[trigger] self@.peers_by_ip.contains_key(k) ==> self@.peers_by_ip[k] == (if exists|j: int|
                        #![trigger it.items@[j]]
                        0 <= j < i && it.items@[j].1 == k.0 && it.items@[j].2 == k.1 {
                        idx
                    } else {
                        start[k]
                    }),
            decreases it.items@.len() - i,
        {
            let (_, net, cidr) = it.items[i];
            assert(valid_key((it.items@[i as int].1, it.items@[i as int].2)));
            self.peers_by_ip.insert(net, cidr, idx);
            assert forall|k: (u32, u8)|
                #[trigger] self@.peers_by_ip.contains_key(k) == (start.contains_key(k) || exists|j: int|
                    #![trigger it.items@[j]]
                    0 <= j < i + 1 && it.items@[j].1 == k.0 && it.items@[j].2 == k.1) by {
                if k == (net, cidr) {
                    assert(it.items@[i as int].1 == k.0 && it.items@[i as int].2 == k.1);
                }
            }
            assert forall|k: (u32, u8)|
                #[trigger] self@.peers_by_ip.contains_key(k) implies self@.peers_by_ip[k] == (if exists|j: int|
                    #![trigger it.items@[j]]
                    0 <= j < i + 1 && it.items@[j].1 == k.0 && it.items@[j].2 == k.1 {
                    idx
                } else {
                    start[k]
                }) by {
                if k == (net, cidr) {
                    assert(it.items@[i as int].1 == k.0 && it.items@[i as int].2 == k.1);
                }
            }
            i = i + 1;
        }
        let ghost target = with_prefixes(start, allowed, idx);
        assert forall|k: (u32, u8)| #[trigger] allowed.contains_key(k) == (exists|j: int|
            #![trigger it.items@[j]]
            0 <= j < it.items@.len() && it.items@[j].1 == k.0 && it.items@[j].2 == k.1) by {
            if exists|j: int|
                #![trigger it.items@[j]]
                0 <= j < it.items@.len() && it.items@[j].1 == k.0 && it.items@[j].2 == k.1 {
                let j = choose|j: int|
                    #![trigger it.items@[j]]
                    0 <= j < it.items@.len() && it.items@[j].1 == k.0 && it.items@[j].2 == k.1;
                assert(allowed.contains_key((it.items@[j].1, it.items@[j].2)));
            }
        }
        assert(self.peers_by_ip@ =~= target);
        self.peers_by_name.push(name);
        self.peers_by_index.push(peer);
        assert(self@.names =~= old(self)@.names.push(name@));
        assert(self@.peers =~= old(self)@.peers.push(PeerView { local_idx: idx, ..peer@ }));
    }

    /// The index of the peer registered last under the name `name`.
    pub fn peer_index_by_name(&self, name: &[u8]) -> (r: Option<u32>)
        requires
            self@.wf(),
        ensures
            match r {
                Some(i) => last_index_of(self@.names, name@, self@.names.len()) == Some(i as int),
                None => last_index_of(self@.names, name@, self@.names.len()) is None,
            },
    {
        let mut i: usize = self.peers_by_name.len();
        while i > 0
            invariant
                i <= self@.names.len(),
                self@.wf(),
                last_index_of(self@.names, name@, self@.names.len()) == last_index_of(
                    self@.names,
                    name@,
                    i as nat,
                ),
            decreases i,
        {
            if self.peers_by_name[i - 1].equals(name) {
                return Some((i - 1) as u32);
            }
            i = i - 1;
        }
        None
    }

    /// Where bytes for peer `idx` go: its connected socket, else its
    /// endpoint address through the unconnected socket, else nowhere.
    fn send_over_udp<'a>(&self, idx: u32, data: &'a [u8]) -> (r: Transmit<'a>)
        requires
            self@.wf(),
            idx < self@.peers.len(),
        ensures
            r@ == delivery(self@.peers[idx as int], idx, Outcome::Network(data@)),
    {
        let endpoint = self.peers_by_index[idx as usize].endpoint();
        match &endpoint.conn {
            Some(_) => Transmit::Conn(idx, data),
            None => match endpoint.addr {
                Some(addr) => Transmit::Udp(addr, data),
                None => Transmit::Nothing,
            },
        }
    }

    /// Turns what peer `idx` asked for into a write: an inner packet only if
    /// the peer may send from its source address.
    pub fn take_action<'a>(&self, idx: u32, action: Action<'a>) -> (r: Transmit<'a>)
        requires
            self@.wf(),
            idx < self@.peers.len(),
        ensures
            r@ == delivery(self@.peers[idx as int], idx, action@),
    {
        match action {
            Action::WriteToTunn(data, src) => {
                if self.peers_by_index[idx as usize].is_allowed_ip(src) {
                    Transmit::Tun(data)
                } else {
                    Transmit::Nothing
                }
            },
            Action::WriteToNetwork(data) => self.send_over_udp(idx, data),
            Action::Nothing => Transmit::Nothing,
        }
    }

    /// Routes the IPv4 packet `pkt` read from TUN to the peer whose prefix
    /// covers its destination, framed in `dst`.
    pub fn handle_tun<'a>(&self, pkt: &'a [u8], dst: &'a mut [u8]) -> (r: Transmit<'a>)
        requires
            self@.wf(),
            old(dst)@.len() >= 5 + pkt@.len(),
        ensures
            (match lookup(self@.peers_by_ip, ipv4_destination(pkt@)) {
                Some(i) => !ipv4_header_ok(pkt@) || !(self@.peers[i as int].state is Connected),
                None => true,
            }) ==> final(dst)@ == old(dst)@,
            r@ == tun_delivery(self@, pkt@),
    {
        match ipv4_addrs(pkt) {
            None => Transmit::Nothing,
            Some((_src, dst_addr)) => match self.peers_by_ip.get(dst_addr) {
                None => Transmit::Nothing,
                Some(i) => {
                    proof {
                        lemma_longest_prefix_found(self@.peers_by_ip, dst_addr, 32);
                    }
                    let action = self.peers_by_index[i as usize].encapsulate(pkt, dst);
                    self.take_action(i, action)
                },
            },
        }
    }
}

impl<C> Device<C> {
    /// Takes in a datagram from `from` on the unconnected socket: parses it,
    /// finds the peer it concerns and records `from` as that peer's endpoint.
    /// Datagrams that do not parse, are empty or name no peer give `None`
    /// and change nothing.
    pub fn receive<'a>(&mut self, from: SockAddr, pkt: &'a [u8]) -> (r: Option<Arrival<'a, C>>)
        requires
            old(self)@.wf(),
        ensures
            final(self)@.wf(),
            match r {
                Some(a) => {
                    &&& arrival_peer(old(self)@, pkt@) == Some(a.peer as int)
                    &&& decode(pkt@) == Ok::<Message, PackeParseError>(a.packet@)
                    &&& endpoint_after(old(self)@.peers[a.peer as int].endpoint, from) == (
                        final(self)@.peers[a.peer as int].endpoint,
                        (a.endpoint_changed, a.taken_conn),
                    )
                    &&& final(self)@ == with_peer(
                        old(self)@,
                        a.peer as int,
                        PeerView {
                            endpoint: final(self)@.peers[a.peer as int].endpoint,
                            ..old(self)@.peers[a.peer as int]
                        },
                    )
                    &&& a.connect == (a.endpoint_changed && old(self)@.use_connected_peer)
                },
                None => arrival_peer(old(self)@, pkt@) is None && final(self)@ == old(self)@,
            },
    {
        let packet = match Packet::parse_from(pkt) {
            Ok(p) => p,
            Err(_) => {
                return None;
            },
        };
        let found = match &packet {
            Packet::Empty => None,
            Packet::HandshakeInit(msg) => {
                proof {
                    lemma_last_index_in_range(self@.names, msg.sender_name@, self@.names.len());
                }
                self.peer_index_by_name(msg.sender_name.as_slice())
            },
            Packet::HandshakeResponse(msg) => {
                if (msg.sender_idx as usize) < self.peers_by_index.len() {
                    Some(msg.sender_idx)
                } else {
                    None
                }
            },
            Packet::Data(msg) => {
                if (msg.sender_idx as usize) < self.peers_by_index.len() {
                    Some(msg.sender_idx)
                } else {
                    None
                }
            },
        };
        let idx = match found {
            Some(i) => i,
            None => {
                return None;
            },
        };
        let (endpoint_changed, taken_conn) = self.peers_by_index[idx as usize].set_endpoint(from);
        proof {
            assert(self@.peers =~= with_peer(
                old(self)@,
                idx as int,
                PeerView { endpoint: self@.peers[idx as int].endpoint, ..old(self)@.peers[idx as int] },
            ).peers);
        }
        let connect = endpoint_changed && self.use_connected_peer;
        Some(Arrival { peer: idx, packet, endpoint_changed, taken_conn, connect })
    }

    /// Hands `packet`, received from peer `idx`, to that peer's session and
    /// says what to write.
    pub fn deliver<'a>(&mut self, idx: u32, packet: Packet<'a>, dst: &'a mut [u8]) -> (r: Transmit<'a>)
        requires
            old(self)@.wf(),
            idx < old(self)@.peers.len(),
            old(dst)@.len() >= HANDSHAKE_RESPONSE_SIZE,
        ensures
            incoming_outcome(old(self)@.peers[idx as int].state, packet@, idx) == Outcome::Nothing
                ==> final(dst)@ == old(dst)@,
            final(self)@.wf(),
            final(self)@ == with_peer(
                old(self)@,
                idx as int,
                PeerView {
                    state: next_state(old(self)@.peers[idx as int].state, packet@),
                    ..old(self)@.peers[idx as int]
                },
            ),
            r@ == delivery(
                old(self)@.peers[idx as int],
                idx,
                incoming_outcome(old(self)@.peers[idx as int].state, packet@, idx),
            ),
    {
        let action = self.peers_by_index[idx as usize].handle_incoming_packet(packet, dst);
        proof {
            assert(self@.peers =~= with_peer(
                old(self)@,
                idx as int,
                PeerView {
                    state: next_state(old(self)@.peers[idx as int].state, packet@),
                    ..old(self)@.peers[idx as int]
                },
            ).peers);
        }
        self.take_action(idx, action)
    }

    /// Takes in a datagram on the connected socket of peer `idx`: one that
    /// does not parse is dropped; any other goes to the peer's session.
    pub fn receive_connected<'a>(&mut self, idx: u32, pkt: &'a [u8], dst: &'a mut [u8]) -> (r: Transmit<'a>)
        requires
            old(self)@.wf(),
            idx < old(self)@.peers.len(),
            old(dst)@.len() >= HANDSHAKE_RESPONSE_SIZE,
        ensures
            (match decode(pkt@) {
                Ok(m) => incoming_outcome(old(self)@.peers[idx as int].state, m, idx) == Outcome::Nothing,
                Err(_) => true,
            }) ==> final(dst)@ == old(dst)@,
            final(self)@.wf(),
            match decode(pkt@) {
                Ok(m) => {
                    &&& final(self)@ == with_peer(
                        old(self)@,
                        idx as int,
                        PeerView {
                            state: next_state(old(self)@.peers[idx as int].state, m),
                            ..old(self)@.peers[idx as int]
                        },
                    )
                    &&& r@ == delivery(
                        old(self)@.peers[idx as int],
                        idx,
                        incoming_outcome(old(self)@.peers[idx as int].state, m, idx),
                    )
                },
                Err(_) => final(self)@ == old(self)@ && r@ == Delivery::Nothing,
            },
    {
        match Packet::parse_from(pkt) {
            Ok(packet) => self.deliver(idx, packet, dst),
            Err(_) => Transmit::Nothing,
        }
    }

    /// Opens the session with peer `idx` if it has none and its endpoint is
    /// known, with an init that carries this device's name.
    pub fn start_peer<'a>(&mut self, idx: u32, dst: &'a mut [u8]) -> (r: Transmit<'a>)
        requires
            old(self)@.wf(),
            idx < old(self)@.peers.len(),
            old(dst)@.len() >= HANDSHAKE_INIT_SIZE,
        ensures
            !(old(self)@.peers[idx as int].state == HandshakeState::Idle
                && old(self)@.peers[idx as int].endpoint.addr is Some) ==> final(dst)@ == old(dst)@,
            final(self)@.wf(),
            ({
                let p = old(self)@.peers[idx as int];
                if p.state == HandshakeState::Idle && p.endpoint.addr is Some {
                    &&& final(self)@ == with_peer(
                        old(self)@,
                        idx as int,
                        PeerView { state: HandshakeState::HandshakeSent, ..p },
                    )
                    &&& r@ == delivery(
                        p,
                        idx,
                        Outcome::Network(
                            encode(Message::HandshakeInit { assigned_idx: idx, sender_name: old(self)@.name }),
                        ),
                    )
                } else {
                    final(self)@ == old(self)@ && r@ == Delivery::Nothing
                }
            }),
    {
        let name = self.name.as_ref();
        let action = self.peers_by_index[idx as usize].send_handshake(name, dst);
        proof {
            assert(self@.peers =~= with_peer(
                old(self)@,
                idx as int,
                self@.peers[idx as int],
            ).peers);
            assert(old(self)@.peers[idx as int].local_idx == idx);
        }
        let r = self.take_action(idx, action);
        proof {
            let p = old(self)@.peers[idx as int];
            assert(self@.peers[idx as int].endpoint == p.endpoint);
            assert(self@.peers[idx as int].allowed_ips == p.allowed_ips);
            if p.state == HandshakeState::Idle && p.endpoint.addr is Some {
                assert(action@ == Outcome::Network(
                    encode(Message::HandshakeInit { assigned_idx: idx, sender_name: old(self)@.name }),
                ));
            } else {
                assert(self@.peers =~= old(self)@.peers);
            }
        }
        r
    }

    /// Which source a readiness event tagged `token` asks to drain: a peer's
    /// connected socket only while that peer exists and holds one.
    pub fn event_source(&self, token: Token) -> (r: EventSource)
        ensures
            r == (match token {
                Token::Tun => EventSource::Tun,
                Token::Sock(id) => if id == -1 {
                    EventSource::Unconnected
                } else if (id as u32) < self@.peers.len() && self@.peers[id as u32 as int].endpoint.conn is Some {
                    EventSource::ConnectedPeer(id as u32)
                } else {
                    EventSource::Ignore
                },
            }),
    {
        match token {
            Token::Tun => EventSource::Tun,
            Token::Sock(id) => match SockID::from(id) {
                SockID::Disconnected => EventSource::Unconnected,
                SockID::ConnectedPeer(i) => {
                    if (i as usize) < self.peers_by_index.len()
                        && self.peers_by_index[i as usize].endpoint().conn.is_some() {
                        EventSource::ConnectedPeer(i)
                    } else {
                        EventSource::Ignore
                    }
                },
            },
        }
    }
}

} // verus!
