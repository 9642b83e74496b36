//! Peer names and the per-peer session.
use vstd::prelude::*;
use vstd::string::StringSliceAdditionalSpecFns;

use crate::allowed_ip::{lookup, prefix_of, AllowedIps, PrefixMap};
use crate::ipv4::{ipv4_addrs, ipv4_header_ok, ipv4_source, SockAddr};
use crate::packet::{
    encode, HandshakeInit, HandshakeResponse, Message, Packet, PacketData,
    HANDSHAKE_INIT_SIZE, HANDSHAKE_RESPONSE_SIZE,
};

verus! {

/// Width in bytes of a peer name on the wire.
pub const PEER_NAME_MAX_LEN: usize = 100;

/// The fixed-width form of a textual name: its bytes, right-padded with NUL
/// to `PEER_NAME_MAX_LEN`.
pub open spec fn padded_name(text: Seq<u8>) -> Seq<u8>
    recommends
        text.len() <= PEER_NAME_MAX_LEN,
{
    text + Seq::new((PEER_NAME_MAX_LEN - text.len()) as nat, |i: int| 0u8)
}

/// An owned peer identifier of exactly `PEER_NAME_MAX_LEN` bytes.
#[derive(Debug, Hash)]
pub struct PeerName {
    bytes: Vec<u8>,
}

/// A borrowed peer identifier of exactly `PEER_NAME_MAX_LEN` bytes, as read
/// off the wire.
#[derive(Debug, Clone, Copy)]
pub struct PeerNameRef<'a> {
    bytes: &'a [u8],
}

/// A name that does not fit in `PEER_NAME_MAX_LEN` bytes; holds the name.
#[derive(Debug)]
pub struct PeerNameTooLong(pub String);

impl View for PeerName {
    type V = Seq<u8>;

    closed spec fn view(&self) -> Seq<u8> {
        self.bytes@
    }
}

impl<'a> View for PeerNameRef<'a> {
    type V = Seq<u8>;

    closed spec fn view(&self) -> Seq<u8> {
        self.bytes@
    }
}

impl PeerName {
    /// A name is always exactly `PEER_NAME_MAX_LEN` bytes.
    #[verifier::type_invariant]
    pub closed spec fn inv(&self) -> bool {
        self.bytes@.len() == PEER_NAME_MAX_LEN
    }

    /// The invariant fixes the width of the name.
    pub proof fn lemma_inv_len(&self)
        requires
            self.inv(),
        ensures
            self@.len() == PEER_NAME_MAX_LEN,
    {
    }

    pub fn max_len() -> (r: usize)
        ensures
            r == PEER_NAME_MAX_LEN,
    {
        PEER_NAME_MAX_LEN
    }

    /// The name `name` padded with NUL bytes; fails when it is longer than
    /// `PEER_NAME_MAX_LEN` bytes.
    pub fn new(name: &str) -> (r: Result<Self, PeerNameTooLong>)
        ensures
            name.spec_bytes().len() <= PEER_NAME_MAX_LEN <==> r is Ok,
            r matches Ok(n) ==> n@ == padded_name(name.spec_bytes()),
            r matches Err(e) ==> e.0@ == name@,
    {
        let name_bytes = name.as_bytes();
        let len = name_bytes.len();
        if len > PEER_NAME_MAX_LEN {
            return Err(PeerNameTooLong(name.to_owned()));
        }
        let mut bytes: Vec<u8> = Vec::with_capacity(PEER_NAME_MAX_LEN);
        let mut i: usize = 0;
        while i < PEER_NAME_MAX_LEN
            invariant
                len == name_bytes@.len() <= PEER_NAME_MAX_LEN,
                i <= PEER_NAME_MAX_LEN,
                bytes@ =~= padded_name(name_bytes@).subrange(0, i as int),
            decreases PEER_NAME_MAX_LEN - i,
        {
            if i < len {
                bytes.push(name_bytes[i]);
            } else {
                bytes.push(0u8);
            }
            i = i + 1;
        }
        assert(bytes@ =~= padded_name(name_bytes@));
        Ok(PeerName { bytes })
    }

    pub fn as_slice(&self) -> (r: &[u8])
        ensures
            r@ == self@,
            r@.len() == PEER_NAME_MAX_LEN,
    {
        proof {
            use_type_invariant(self);
        }
        self.bytes.as_slice()
    }

    /// The borrowed form of this name.
    pub fn as_ref(&self) -> (r: PeerNameRef<'_>)
        ensures
            r@ == self@,
    {
        proof {
            use_type_invariant(self);
        }
        PeerNameRef { bytes: self.bytes.as_slice() }
    }

    /// Whether `self` holds the same bytes as `other`.
    pub fn equals(&self, other: &[u8]) -> (r: bool)
        ensures
            r == (self@ == other@),
    {
        proof {
            use_type_invariant(self);
        }
        if other.len() != PEER_NAME_MAX_LEN {
            return false;
        }
        let mut i: usize = 0;
        while i < PEER_NAME_MAX_LEN
            invariant
                self.bytes@.len() == other@.len() == PEER_NAME_MAX_LEN,
                i <= PEER_NAME_MAX_LEN,
                forall|j: int| 0 <= j < i ==> self.bytes@[j] == other@[j],
            decreases PEER_NAME_MAX_LEN - i,
        {
            if self.bytes[i] != other[i] {
                return false;
            }
            i = i + 1;
        }
        assert(self.bytes@ =~= other@);
        true
    }
}

impl Clone for PeerName {
    fn clone(&self) -> (r: Self)
        ensures
            r@ == self@,
    {
        proof {
            use_type_invariant(self);
        }
        PeerName { bytes: self.bytes.clone() }
    }
}

impl PartialEq for PeerName {
    fn eq(&self, other: &PeerName) -> (r: bool) {
        self.equals(other.as_slice())
    }
}

impl vstd::std_specs::cmp::PartialEqSpecImpl for PeerName {
    open spec fn obeys_eq_spec() -> bool {
        true
    }

    open spec fn eq_spec(&self, other: &PeerName) -> bool {
        self@ == other@
    }
}

impl Eq for PeerName {
}

impl<'a> PeerNameRef<'a> {
    #[verifier::type_invariant]
    spec fn inv(&self) -> bool {
        self.bytes@.len() == PEER_NAME_MAX_LEN
    }

    /// Borrows exactly `PEER_NAME_MAX_LEN` bytes as a name.
    pub fn from_slice(bytes: &'a [u8]) -> (r: Self)
        requires
            bytes@.len() == PEER_NAME_MAX_LEN,
        ensures
            r@ == bytes@,
    {
        PeerNameRef { bytes }
    }

    pub fn as_slice(&self) -> (r: &'a [u8])
        ensures
            r@ == self@,
            r@.len() == PEER_NAME_MAX_LEN,
    {
        proof {
            use_type_invariant(self);
        }
        self.bytes
    }
}

/// The session with one peer.
#[derive(Debug, Copy, Clone, PartialEq, Eq, Structural)]
pub enum HandshakeState {
    /// No exchange yet.
    Idle,
    /// We sent an init and wait for the response.
    HandshakeSent,
    /// We answered the peer's init; its index is known.
    HandshakeReceived { remote_idx: u32 },
    /// Data may flow, tagged with the peer's index.
    Connected { remote_idx: u32 },
}

/// Where a peer is reached: the last address seen or configured, and a UDP
/// socket connected to that address, if one was made.
#[derive(Debug)]
pub struct Endpoint<C> {
    pub addr: Option<SockAddr>,
    pub conn: Option<C>,
}

impl<C> Endpoint<C> {
    pub fn new() -> (r: Self)
        ensures
            r.addr is None,
            r.conn is None,
    {
        Endpoint { addr: None, conn: None }
    }
}

impl<C> Default for Endpoint<C> {
    fn default() -> (r: Self)
        ensures
            r.addr is None,
            r.conn is None,
    {
        Endpoint::new()
    }
}

/// What the caller is to do after a peer handled something: write an inner
/// packet (with its source address) to the TUN device, send bytes to the
/// peer, or nothing.
#[derive(Debug)]
pub enum Action<'a> {
    WriteToTunn(&'a [u8], u32),
    WriteToNetwork(&'a [u8]),
    Nothing,
}

/// The content of an `Action`.
pub ghost enum Outcome {
    Tun(Seq<u8>, u32),
    Network(Seq<u8>),
    Nothing,
}

impl<'a> View for Action<'a> {
    type V = Outcome;

    open spec fn view(&self) -> Outcome {
        match self {
            Action::WriteToTunn(d, src) => Outcome::Tun(d@, *src),
            Action::WriteToNetwork(d) => Outcome::Network(d@),
            Action::Nothing => Outcome::Nothing,
        }
    }
}

/// The state after a peer in state `s` receives `m`.
pub open spec fn next_state(s: HandshakeState, m: Message) -> HandshakeState {
    match m {
        Message::HandshakeInit { assigned_idx, .. } => match s {
            HandshakeState::Idle | HandshakeState::Connected { .. } => HandshakeState::HandshakeReceived {
                remote_idx: assigned_idx,
            },
            _ => s,
        },
        Message::HandshakeResponse { assigned_idx, .. } => match s {
            HandshakeState::HandshakeSent => HandshakeState::Connected { remote_idx: assigned_idx },
            _ => s,
        },
        Message::Data { .. } => match s {
            HandshakeState::HandshakeReceived { remote_idx } => HandshakeState::Connected { remote_idx },
            _ => s,
        },
        Message::Empty => s,
    }
}

/// The message a peer with index `local_idx` in state `s` sends back on
/// receiving `m`: a response to an init, and an empty data packet on
/// completing its own handshake.
pub open spec fn reply(s: HandshakeState, m: Message, local_idx: u32) -> Option<Message> {
    match m {
        Message::HandshakeInit { assigned_idx, .. } => match s {
            HandshakeState::Idle | HandshakeState::Connected { .. } => Some(
                Message::HandshakeResponse { assigned_idx: local_idx, sender_idx: assigned_idx },
            ),
            _ => None,
        },
        Message::HandshakeResponse { assigned_idx, .. } => match s {
            HandshakeState::HandshakeSent => Some(
                Message::Data { sender_idx: assigned_idx, data: Seq::empty() },
            ),
            _ => None,
        },
        _ => None,
    }
}

/// Whether a peer in state `s` accepts data packets.
pub open spec fn accepts_data(s: HandshakeState) -> bool {
    s is Connected || s is HandshakeReceived
}

/// What a peer in state `s` with index `local_idx` asks for on receiving `m`.
pub open spec fn incoming_outcome(s: HandshakeState, m: Message, local_idx: u32) -> Outcome {
    match m {
        Message::Data { data, .. } => if accepts_data(s) && ipv4_header_ok(data) {
            Outcome::Tun(data, ipv4_source(data))
        } else {
            Outcome::Nothing
        },
        _ => match reply(s, m, local_idx) {
            Some(r) => Outcome::Network(encode(r)),
            None => Outcome::Nothing,
        },
    }
}

/// What a peer in state `s` asks for to carry the inner packet `src`: a data
/// packet tagged with the peer's index once connected, else nothing.
pub open spec fn encapsulated(s: HandshakeState, src: Seq<u8>) -> Outcome {
    match s {
        HandshakeState::Connected { remote_idx } => Outcome::Network(
            encode(Message::Data { sender_idx: remote_idx, data: src }),
        ),
        _ => Outcome::Nothing,
    }
}

/// Setting the endpoint address to `addr`: `(changed, taken socket)` and the
/// new endpoint.
pub open spec fn endpoint_after<C>(e: Endpoint<C>, addr: SockAddr) -> (Endpoint<C>, (bool, Option<C>)) {
    if e.addr == Some(addr) {
        (e, (false, None))
    } else {
        (Endpoint { addr: Some(addr), conn: None }, (true, e.conn))
    }
}

/// The first `n` bytes of a buffer, handed out for as long as the buffer was
/// lent.
fn frame<'a>(dst: &'a mut [u8], n: usize) -> (r: &'a [u8])
    requires
        n <= old(dst)@.len(),
    ensures
        r@ == old(dst)@.subrange(0, n as int),
{
    let whole: &'a [u8] = dst;
    &whole[0..n]
}

/// A remote peer: its index, the inner source prefixes it may send from, its
/// session state and its endpoint. `C` is the connected-socket handle.
pub struct Peer<C> {
    local_idx: u32,
    handshake_state: HandshakeState,
    endpoint: Endpoint<C>,
    allowed_ips: AllowedIps,
}

/// What a peer holds.
pub ghost struct PeerView<C> {
    pub local_idx: u32,
    pub state: HandshakeState,
    pub endpoint: Endpoint<C>,
    pub allowed_ips: PrefixMap,
}

impl<C> View for Peer<C> {
    type V = PeerView<C>;

    closed spec fn view(&self) -> PeerView<C> {
        PeerView {
            local_idx: self.local_idx,
            state: self.handshake_state,
            endpoint: self.endpoint,
            allowed_ips: self.allowed_ips@,
        }
    }
}

impl<C> Peer<C> {
    /// A peer with index 0, no session, no endpoint and no allowed prefix.
    pub fn new() -> (r: Self)
        ensures
            r@.local_idx == 0,
            r@.state == HandshakeState::Idle,
            r@.endpoint.addr is None,
            r@.endpoint.conn is None,
            r@.allowed_ips == PrefixMap::empty(),
    {
        Peer {
            local_idx: 0,
            handshake_state: HandshakeState::Idle,
            endpoint: Endpoint::new(),
            allowed_ips: AllowedIps::new(),
        }
    }

    /// The inner source prefixes this peer may send from.
    pub fn allowed_ips(&self) -> (r: &AllowedIps)
        ensures
            r@ == self@.allowed_ips,
    {
        &self.allowed_ips
    }

    /// Lets the peer send from the prefix of length `cidr` covering `addr`.
    pub fn add_allowed_ip(&mut self, addr: u32, cidr: u8)
        requires
            cidr <= 32,
        ensures
            final(self)@ == (PeerView {
                allowed_ips: old(self)@.allowed_ips.insert((prefix_of(addr, cidr), cidr), 0),
                ..old(self)@
            }),
    {
        self.allowed_ips.insert(addr, cidr, 0);
    }

    /// Whether some allowed prefix covers `addr`.
    pub fn is_allowed_ip(&self, addr: u32) -> (r: bool)
        ensures
            r == lookup(self@.allowed_ips, addr) is Some,
    {
        self.allowed_ips.get(addr).is_some()
    }

    pub fn local_idx(&self) -> (r: u32)
        ensures
            r == self@.local_idx,
    {
        self.local_idx
    }

    pub fn set_local_idx(&mut self, idx: u32)
        ensures
            final(self)@ == (PeerView { local_idx: idx, ..old(self)@ }),
    {
        self.local_idx = idx;
    }

    pub fn handshake_state(&self) -> (r: HandshakeState)
        ensures
            r == self@.state,
    {
        self.handshake_state
    }

    pub fn endpoint(&self) -> (r: &Endpoint<C>)
        ensures
            *r == self@.endpoint,
    {
        &self.endpoint
    }

    /// Records `addr` as the endpoint. Unchanged, it returns `(false, None)`;
    /// otherwise it also takes the connected socket, which no longer matches,
    /// and returns `(true, that socket)`.
    pub fn set_endpoint(&mut self, addr: SockAddr) -> (r: (bool, Option<C>))
        ensures
            (final(self)@.endpoint, r) == endpoint_after(old(self)@.endpoint, addr),
            final(self)@.local_idx == old(self)@.local_idx,
            final(self)@.state == old(self)@.state,
            final(self)@.allowed_ips == old(self)@.allowed_ips,
    {
        match self.endpoint.addr {
            Some(a) => {
                if a == addr {
                    return (false, None);
                }
            },
            None => {},
        }
        self.endpoint.addr = Some(addr);
        (true, self.endpoint.conn.take())
    }

    /// Installs `conn`, a socket connected to the endpoint address.
    pub fn connect_endpoint(&mut self, conn: C)
        requires
            old(self)@.endpoint.addr is Some,
            old(self)@.endpoint.conn is None,
        ensures
            final(self)@ == (PeerView {
                endpoint: Endpoint { addr: old(self)@.endpoint.addr, conn: Some(conn) },
                ..old(self)@
            }),
    {
        self.endpoint.conn = Some(conn);
    }

    /// Opens a session if none was started and the endpoint is known: moves
    /// to `HandshakeSent` and asks to send an init carrying `sender_name` and
    /// this peer's index.
    pub fn send_handshake<'a>(&mut self, sender_name: PeerNameRef, dst: &'a mut [u8]) -> (r: Action<'a>)
        requires
            old(dst)@.len() >= HANDSHAKE_INIT_SIZE,
        ensures
            r@ == Outcome::Nothing ==> final(dst)@ == old(dst)@,
            if old(self)@.state == HandshakeState::Idle && old(self)@.endpoint.addr is Some {
                &&& final(self)@ == (PeerView { state: HandshakeState::HandshakeSent, ..old(self)@ })
                &&& r@ == Outcome::Network(
                    encode(
                        Message::HandshakeInit {
                            assigned_idx: old(self)@.local_idx,
                            sender_name: sender_name@,
                        },
                    ),
                )
            } else {
                final(self)@ == old(self)@ && r@ == Outcome::Nothing
            },
    {
        if self.handshake_state == HandshakeState::Idle && self.endpoint.addr.is_some() {
            let packet = HandshakeInit { sender_name, assigned_idx: self.local_idx };
            let n = packet.format(dst);
            self.handshake_state = HandshakeState::HandshakeSent;
            Action::WriteToNetwork(frame(dst, n))
        } else {
            Action::Nothing
        }
    }

    /// Frames the inner packet `src` for the peer once the session is up.
    pub fn encapsulate<'a>(&self, src: &'a [u8], dst: &'a mut [u8]) -> (r: Action<'a>)
        requires
            old(dst)@.len() >= 5 + src@.len(),
        ensures
            r@ == Outcome::Nothing ==> final(dst)@ == old(dst)@,
            r@ == encapsulated(self@.state, src@),
    {
        match self.handshake_state {
            HandshakeState::Connected { remote_idx } => {
                let data = PacketData { sender_idx: remote_idx, data: src };
                let n = data.format(dst);
                Action::WriteToNetwork(frame(dst, n))
            },
            _ => Action::Nothing,
        }
    }

    /// Runs the session on one received packet.
    pub fn handle_incoming_packet<'a>(&mut self, packet: Packet<'a>, dst: &'a mut [u8]) -> (r: Action<'a>)
        requires
            old(dst)@.len() >= HANDSHAKE_RESPONSE_SIZE,
        ensures
            r@ == Outcome::Nothing ==> final(dst)@ == old(dst)@,
            final(self)@ == (PeerView { state: next_state(old(self)@.state, packet@), ..old(self)@ }),
            r@ == incoming_outcome(old(self)@.state, packet@, old(self)@.local_idx),
    {
        match packet {
            Packet::Empty => Action::Nothing,
            Packet::HandshakeInit(msg) => self.handle_handshake_init(msg, dst),
            Packet::HandshakeResponse(msg) => self.handle_handshake_response(msg, dst),
            Packet::Data(msg) => self.handle_packet_data(msg),
        }
    }

    fn handle_handshake_init<'a>(&mut self, msg: HandshakeInit<'a>, dst: &'a mut [u8]) -> (r: Action<'a>)
        requires
            old(dst)@.len() >= HANDSHAKE_RESPONSE_SIZE,
        ensures
            r@ == Outcome::Nothing ==> final(dst)@ == old(dst)@,
            final(self)@ == (PeerView { state: next_state(old(self)@.state, msg@), ..old(self)@ }),
            r@ == incoming_outcome(old(self)@.state, msg@, old(self)@.local_idx),
    {
        match self.handshake_state {
            HandshakeState::Idle | HandshakeState::Connected { .. } => {
                self.handshake_state = HandshakeState::HandshakeReceived { remote_idx: msg.assigned_idx };
                let response = HandshakeResponse {
                    assigned_idx: self.local_idx,
                    sender_idx: msg.assigned_idx,
                };
                let n = response.format(dst);
                Action::WriteToNetwork(frame(dst, n))
            },
            _ => Action::Nothing,
        }
    }

    fn handle_handshake_response<'a>(&mut self, msg: HandshakeResponse, dst: &'a mut [u8]) -> (r: Action<'a>)
        requires
            old(dst)@.len() >= HANDSHAKE_RESPONSE_SIZE,
        ensures
            r@ == Outcome::Nothing ==> final(dst)@ == old(dst)@,
            final(self)@ == (PeerView { state: next_state(old(self)@.state, msg@), ..old(self)@ }),
            r@ == incoming_outcome(old(self)@.state, msg@, old(self)@.local_idx),
    {
        match self.handshake_state {
            HandshakeState::HandshakeSent => {
                self.handshake_state = HandshakeState::Connected { remote_idx: msg.assigned_idx };
                let r = self.encapsulate(&[], dst);
                proof {
                    assert(Seq::<u8>::empty() =~= seq![]);
                }
                r
            },
            _ => Action::Nothing,
        }
    }

    fn handle_packet_data<'a>(&mut self, msg: PacketData<'a>) -> (r: Action<'a>)
        ensures
            final(self)@ == (PeerView { state: next_state(old(self)@.state, msg@), ..old(self)@ }),
            r@ == incoming_outcome(old(self)@.state, msg@, old(self)@.local_idx),
    {
        match self.handshake_state {
            HandshakeState::Connected { .. } => {},
            HandshakeState::HandshakeReceived { remote_idx } => {
                self.handshake_state = HandshakeState::Connected { remote_idx };
            },
            _ => {
                return Action::Nothing;
            },
        }
        match ipv4_addrs(msg.data) {
            Some((src, _dst)) => Action::WriteToTunn(msg.data, src),
            None => Action::Nothing,
        }
    }
}

impl<C> Default for Peer<C> {
    fn default() -> (r: Self)
        ensures
            r@.local_idx == 0,
            r@.state == HandshakeState::Idle,
            r@.endpoint.addr is None,
            r@.endpoint.conn is None,
            r@.allowed_ips == PrefixMap::empty(),
    {
        Peer::new()
    }
}

/// Setting the same endpoint address twice: the first call reports a change
/// exactly when the address was new; the second changes nothing and takes
/// nothing.
pub proof fn lemma_set_endpoint_twice<C>(e: Endpoint<C>, addr: SockAddr)
    ensures
        endpoint_after(e, addr).1.0 == (e.addr != Some(addr)),
        !endpoint_after(endpoint_after(e, addr).0, addr).1.0,
        (endpoint_after(endpoint_after(e, addr).0, addr).1.1 is None),
        endpoint_after(endpoint_after(e, addr).0, addr).0 == endpoint_after(e, addr).0,
{
}

/// Whether `r` is a data packet.
pub open spec fn is_data_reply(r: Option<Message>) -> bool {
    match r {
        Some(Message::Data { .. }) => true,
        _ => false,
    }
}

/// A connected peer that receives an init moves to `HandshakeReceived` with
/// the new index and answers with a response; no peer that is not connected
/// frames data, and the one reply that is a data packet comes with the move
/// into `Connected`.
pub proof fn lemma_rehandshake(
    remote_idx: u32,
    assigned_idx: u32,
    sender_name: Seq<u8>,
    local_idx: u32,
)
    ensures
        (next_state(
            HandshakeState::Connected { remote_idx },
            Message::HandshakeInit { assigned_idx, sender_name },
        ) == HandshakeState::HandshakeReceived { remote_idx: assigned_idx }),
        (incoming_outcome(
            HandshakeState::Connected { remote_idx },
            Message::HandshakeInit { assigned_idx, sender_name },
            local_idx,
        ) == Outcome::Network(
            encode(Message::HandshakeResponse { assigned_idx: local_idx, sender_idx: assigned_idx }),
        )),
        forall|s: HandshakeState, src: Seq<u8>|
            !(s is Connected) ==> #[trigger] encapsulated(s, src) == Outcome::Nothing,
        forall|s: HandshakeState, m: Message|
            is_data_reply(#[trigger] reply(s, m, local_idx)) ==> (next_state(s, m) is Connected),
{
}

} // verus!
