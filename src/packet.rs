//! Framing of the three wire messages.
use vstd::prelude::*;

use crate::bytes::{le_bytes, le_u32, lemma_le_round_trip, read_le_u32, write_le_u32};
use crate::peer::{PeerNameRef, PEER_NAME_MAX_LEN};

verus! {

pub const HANDSHAKE_INIT: u8 = 1;
pub const HANDSHAKE_RESPONSE: u8 = 2;
pub const PACKET_DATA: u8 = 3;

pub const HANDSHAKE_INIT_SIZE: usize = 105;
pub const HANDSHAKE_RESPONSE_SIZE: usize = 9;
pub const DATA_MIN_SIZE: usize = 5;

/// A parsed datagram; the name and the payload borrow from the datagram.
#[derive(Debug)]
pub enum Packet<'a> {
    HandshakeInit(HandshakeInit<'a>),
    HandshakeResponse(HandshakeResponse),
    Data(PacketData<'a>),
    Empty,
}

/// Opens a session: the sender's own index and its name.
#[derive(Debug)]
pub struct HandshakeInit<'a> {
    pub sender_name: PeerNameRef<'a>,
    pub assigned_idx: u32,
}

/// Answers an init: the responder's own index and the initiator's index.
#[derive(Debug, Clone, Copy)]
pub struct HandshakeResponse {
    pub assigned_idx: u32,
    pub sender_idx: u32,
}

/// Carries an inner IPv4 packet, tagged with the receiver's index.
#[derive(Debug)]
pub struct PacketData<'a> {
    pub sender_idx: u32,
    pub data: &'a [u8],
}

#[derive(Debug, Copy, Clone, PartialEq, Eq, Structural)]
pub enum PackeParseError {
    InvalidPeerName,
    ProtocolErr,
}

/// What a message says, apart from where its bytes live.
pub ghost enum Message {
    HandshakeInit { assigned_idx: u32, sender_name: Seq<u8> },
    HandshakeResponse { assigned_idx: u32, sender_idx: u32 },
    Data { sender_idx: u32, data: Seq<u8> },
    Empty,
}

impl<'a> View for HandshakeInit<'a> {
    type V = Message;

    open spec fn view(&self) -> Message {
        Message::HandshakeInit { assigned_idx: self.assigned_idx, sender_name: self.sender_name@ }
    }
}

impl View for HandshakeResponse {
    type V = Message;

    open spec fn view(&self) -> Message {
        Message::HandshakeResponse { assigned_idx: self.assigned_idx, sender_idx: self.sender_idx }
    }
}

impl<'a> View for PacketData<'a> {
    type V = Message;

    open spec fn view(&self) -> Message {
        Message::Data { sender_idx: self.sender_idx, data: self.data@ }
    }
}

impl<'a> View for Packet<'a> {
    type V = Message;

    open spec fn view(&self) -> Message {
        match self {
            Packet::HandshakeInit(m) => m@,
            Packet::HandshakeResponse(m) => m@,
            Packet::Data(m) => m@,
            Packet::Empty => Message::Empty,
        }
    }
}

/// A message that can be framed: a name is exactly `PEER_NAME_MAX_LEN` bytes.
pub open spec fn valid_message(m: Message) -> bool {
    match m {
        Message::HandshakeInit { sender_name, .. } => sender_name.len() == PEER_NAME_MAX_LEN,
        _ => true,
    }
}

/// The bytes on the wire for `m`.
pub open spec fn encode(m: Message) -> Seq<u8> {
    match m {
        Message::HandshakeInit { assigned_idx, sender_name } => seq![HANDSHAKE_INIT] + le_bytes(
            assigned_idx,
        ) + sender_name,
        Message::HandshakeResponse { assigned_idx, sender_idx } => seq![HANDSHAKE_RESPONSE]
            + le_bytes(assigned_idx) + le_bytes(sender_idx),
        Message::Data { sender_idx, data } => seq![PACKET_DATA] + le_bytes(sender_idx) + data,
        Message::Empty => Seq::empty(),
    }
}

/// What `b` reads as: empty input is `Empty`; otherwise the tag and the
/// length must agree (exact for the handshakes, at least 5 for data).
pub open spec fn decode(b: Seq<u8>) -> Result<Message, PackeParseError> {
    if b.len() == 0 {
        Ok(Message::Empty)
    } else if b[0] == HANDSHAKE_INIT && b.len() == HANDSHAKE_INIT_SIZE {
        Ok(
            Message::HandshakeInit {
                assigned_idx: le_u32(b.subrange(1, 5)),
                sender_name: b.subrange(5, 105),
            },
        )
    } else if b[0] == HANDSHAKE_RESPONSE && b.len() == HANDSHAKE_RESPONSE_SIZE {
        Ok(
            Message::HandshakeResponse {
                assigned_idx: le_u32(b.subrange(1, 5)),
                sender_idx: le_u32(b.subrange(5, 9)),
            },
        )
    } else if b[0] == PACKET_DATA && b.len() >= DATA_MIN_SIZE {
        Ok(Message::Data { sender_idx: le_u32(b.subrange(1, 5)), data: b.subrange(5, b.len() as int) })
    } else {
        Err(PackeParseError::ProtocolErr)
    }
}

/// Parsing the framing of any valid message gives the message back.
pub proof fn lemma_decode_encode(m: Message)
    requires
        valid_message(m),
    ensures
        decode(encode(m)) == Ok::<Message, PackeParseError>(m),
{
    let b = encode(m);
    match m {
        Message::HandshakeInit { assigned_idx, sender_name } => {
            lemma_le_round_trip(assigned_idx);
            assert(b.subrange(1, 5) =~= le_bytes(assigned_idx));
            assert(b.subrange(5, 105) =~= sender_name);
        },
        Message::HandshakeResponse { assigned_idx, sender_idx } => {
            lemma_le_round_trip(assigned_idx);
            lemma_le_round_trip(sender_idx);
            assert(b.subrange(1, 5) =~= le_bytes(assigned_idx));
            assert(b.subrange(5, 9) =~= le_bytes(sender_idx));
        },
        Message::Data { sender_idx, data } => {
            lemma_le_round_trip(sender_idx);
            assert(b.subrange(1, 5) =~= le_bytes(sender_idx));
            assert(b.subrange(5, b.len() as int) =~= data);
        },
        Message::Empty => {},
    }
}

/// `dst` after framing `m` into it: the frame first, the rest untouched.
pub open spec fn framed_into(before: Seq<u8>, after: Seq<u8>, m: Message, n: usize) -> bool {
    &&& n == encode(m).len()
    &&& after.len() == before.len()
    &&& after.subrange(0, n as int) == encode(m)
    &&& after.subrange(n as int, after.len() as int) == before.subrange(n as int, before.len() as int)
}

impl<'a> Packet<'a> {
    /// Parses one datagram; see `decode`.
    pub fn parse_from(src: &'a [u8]) -> (r: Result<Self, PackeParseError>)
        ensures
            match r {
                Ok(p) => decode(src@) == Ok::<Message, PackeParseError>(p@),
                Err(e) => decode(src@) == Err::<Message, PackeParseError>(e),
            },
    {
        let len = src.len();
        if len == 0 {
            return Ok(Packet::Empty);
        }
        let tag = src[0];
        if tag == HANDSHAKE_INIT && len == HANDSHAKE_INIT_SIZE {
            let assigned_idx = read_le_u32(src, 1);
            let sender_name = PeerNameRef::from_slice(&src[5..105]);
            Ok(Packet::HandshakeInit(HandshakeInit { sender_name, assigned_idx }))
        } else if tag == HANDSHAKE_RESPONSE && len == HANDSHAKE_RESPONSE_SIZE {
            let assigned_idx = read_le_u32(src, 1);
            let sender_idx = read_le_u32(src, 5);
            Ok(Packet::HandshakeResponse(HandshakeResponse { assigned_idx, sender_idx }))
        } else if tag == PACKET_DATA && len >= DATA_MIN_SIZE {
            let sender_idx = read_le_u32(src, 1);
            Ok(Packet::Data(PacketData { sender_idx, data: &src[5..len] }))
        } else {
            Err(PackeParseError::ProtocolErr)
        }
    }
}

impl<'a> HandshakeInit<'a> {
    /// Writes the 105-byte frame at the start of `dst`; returns its length.
    pub fn format(&self, dst: &mut [u8]) -> (n: usize)
        requires
            old(dst)@.len() >= HANDSHAKE_INIT_SIZE,
        ensures
            n == HANDSHAKE_INIT_SIZE,
            framed_into(old(dst)@, final(dst)@, self@, n),
    {
        let name = self.sender_name.as_slice();
        dst[0] = HANDSHAKE_INIT;
        write_le_u32(dst, 1, self.assigned_idx);
        assert(forall|j: int| 1 <= j < 5 ==> dst@[j] == dst@.subrange(1, 5)[j - 1]);
        let mut i: usize = 0;
        while i < PEER_NAME_MAX_LEN
            invariant
                name@.len() == PEER_NAME_MAX_LEN,
                i <= PEER_NAME_MAX_LEN,
                dst@.len() == old(dst)@.len(),
                old(dst)@.len() >= HANDSHAKE_INIT_SIZE,
                dst@[0] == HANDSHAKE_INIT,
                forall|j: int| 1 <= j < 5 ==> dst@[j] == le_bytes(self.assigned_idx)[j - 1],
                forall|j: int| 0 <= j < i ==> dst@[5 + j] == name@[j],
                forall|j: int| 105 <= j < dst@.len() ==> dst@[j] == old(dst)@[j],
            decreases PEER_NAME_MAX_LEN - i,
        {
            dst[5 + i] = name[i];
            i = i + 1;
        }
        assert(dst@.subrange(0, 105) =~= encode(self@));
        assert(dst@.subrange(105, dst@.len() as int) =~= old(dst)@.subrange(105, old(dst)@.len() as int));
        HANDSHAKE_INIT_SIZE
    }
}

impl HandshakeResponse {
    /// Writes the 9-byte frame at the start of `dst`; returns its length.
    pub fn format(&self, dst: &mut [u8]) -> (n: usize)
        requires
            old(dst)@.len() >= HANDSHAKE_RESPONSE_SIZE,
        ensures
            n == HANDSHAKE_RESPONSE_SIZE,
            framed_into(old(dst)@, final(dst)@, self@, n),
    {
        dst[0] = HANDSHAKE_RESPONSE;
        write_le_u32(dst, 1, self.assigned_idx);
        let ghost mid = dst@;
        write_le_u32(dst, 5, self.sender_idx);
        assert(dst@.subrange(1, 5) =~= mid.subrange(1, 5));
        assert(dst@.subrange(0, 9) =~= encode(self@));
        assert(dst@.subrange(9, dst@.len() as int) =~= old(dst)@.subrange(9, old(dst)@.len() as int));
        HANDSHAKE_RESPONSE_SIZE
    }
}

impl<'a> PacketData<'a> {
    /// Writes the frame (5 bytes and the payload) at the start of `dst`;
    /// returns its length.
    pub fn format(&self, dst: &mut [u8]) -> (n: usize)
        requires
            DATA_MIN_SIZE + self.data@.len() <= old(dst)@.len(),
        ensures
            n == DATA_MIN_SIZE + self.data@.len(),
            framed_into(old(dst)@, final(dst)@, self@, n),
    {
        let len = self.data.len();
        let dst_len = dst.len();
        dst[0] = PACKET_DATA;
        write_le_u32(dst, 1, self.sender_idx);
        assert(forall|j: int| 1 <= j < 5 ==> dst@[j] == dst@.subrange(1, 5)[j - 1]);
        let mut i: usize = 0;
        while i < len
            invariant
                len == self.data@.len(),
                dst_len == dst@.len(),
                i <= len,
                dst@.len() == old(dst)@.len(),
                DATA_MIN_SIZE + len <= old(dst)@.len(),
                dst@[0] == PACKET_DATA,
                forall|j: int| 1 <= j < 5 ==> dst@[j] == le_bytes(self.sender_idx)[j - 1],
                forall|j: int| 0 <= j < i ==> dst@[5 + j] == self.data@[j],
                forall|j: int| 5 + len <= j < dst@.len() ==> dst@[j] == old(dst)@[j],
            decreases len - i,
        {
            dst[5 + i] = self.data[i];
            i = i + 1;
        }
        let n = DATA_MIN_SIZE + len;
        assert(dst@.subrange(0, n as int) =~= encode(self@));
        assert(dst@.subrange(n as int, dst@.len() as int) =~= old(dst)@.subrange(n as int, old(dst)@.len() as int));
        n
    }
}

} // verus!
