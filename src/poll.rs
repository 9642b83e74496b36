//! Tokens that tag readiness events: which descriptor became readable.
use vstd::prelude::*;

verus! {

/// The source of a readiness event: the TUN device or a UDP socket.
#[derive(Debug, Copy, Clone, PartialEq, Eq, Structural)]
pub enum Token {
    Tun,
    Sock(i32),
}

/// A 64-bit event tag that no token encodes to.
#[derive(Debug, Copy, Clone, PartialEq, Eq, Structural)]
pub struct UnknownToken;

/// `Tun` is `1 << 32`; `Sock(id)` is `2 << 32` with the 32 bits of `id` below.
pub open spec fn token_bits(t: Token) -> u64 {
    match t {
        Token::Tun => 0x1_0000_0000u64,
        Token::Sock(id) => 0x2_0000_0000u64 | (id as u32 as u64),
    }
}

/// Reads a tag: the upper half names the kind, the lower half the socket id.
pub open spec fn token_of_bits(v: u64) -> Result<Token, UnknownToken> {
    if v >> 32u64 == 1 {
        Ok(Token::Tun)
    } else if v >> 32u64 == 2 {
        Ok(Token::Sock(v as i32))
    } else {
        Err(UnknownToken)
    }
}

/// Encoding a token and reading it back gives the token.
pub proof fn lemma_token_round_trip(t: Token)
    ensures
        token_of_bits(token_bits(t)) == Ok::<Token, UnknownToken>(t),
{
    match t {
        Token::Tun => {
            assert(0x1_0000_0000u64 >> 32u64 == 1) by (bit_vector);
        },
        Token::Sock(id) => {
            let v = 0x2_0000_0000u64 | (id as u32 as u64);
            assert(v >> 32u64 == 2 && v as i32 == id) by (bit_vector)
                requires
                    v == 0x2_0000_0000u64 | (id as u32 as u64),
            ;
        },
    }
}

impl From<Token> for u64 {
    fn from(t: Token) -> (r: u64)
        ensures
            r == token_bits(t),
    {
        match t {
            Token::Tun => 0x1_0000_0000u64,
            Token::Sock(id) => 0x2_0000_0000u64 | (id as u32 as u64),
        }
    }
}

impl vstd::std_specs::convert::FromSpecImpl<Token> for u64 {
    open spec fn obeys_from_spec() -> bool {
        true
    }

    open spec fn from_spec(t: Token) -> u64 {
        token_bits(t)
    }
}

impl TryFrom<u64> for Token {
    type Error = UnknownToken;

    fn try_from(v: u64) -> (r: Result<Token, UnknownToken>)
        ensures
            r == token_of_bits(v),
    {
        let tag = v >> 32u64;
        if tag == 1 {
            Ok(Token::Tun)
        } else if tag == 2 {
            Ok(Token::Sock(v as i32))
        } else {
            Err(UnknownToken)
        }
    }
}

impl vstd::std_specs::convert::TryFromSpecImpl<u64> for Token {
    open spec fn obeys_try_from_spec() -> bool {
        true
    }

    open spec fn try_from_spec(v: u64) -> Result<Token, UnknownToken> {
        token_of_bits(v)
    }
}

/// Which UDP socket a `Token::Sock` id names: `-1` the unconnected socket,
/// any other id the connected socket of the peer with that index.
#[derive(Debug, Copy, Clone, PartialEq, Eq, Structural)]
pub enum SockID {
    Disconnected,
    ConnectedPeer(u32),
}

impl From<i32> for SockID {
    fn from(value: i32) -> (r: SockID)
        ensures
            r == (if value == -1 { SockID::Disconnected } else { SockID::ConnectedPeer(value as u32) }),
    {
        if value == -1 {
            SockID::Disconnected
        } else {
            SockID::ConnectedPeer(value as u32)
        }
    }
}

impl vstd::std_specs::convert::FromSpecImpl<i32> for SockID {
    open spec fn obeys_from_spec() -> bool {
        true
    }

    open spec fn from_spec(value: i32) -> SockID {
        if value == -1 {
            SockID::Disconnected
        } else {
            SockID::ConnectedPeer(value as u32)
        }
    }
}

impl From<SockID> for i32 {
    fn from(value: SockID) -> (r: i32)
        ensures
            r == (match value {
                SockID::Disconnected => -1i32,
                SockID::ConnectedPeer(i) => i as i32,
            }),
    {
        match value {
            SockID::Disconnected => -1,
            SockID::ConnectedPeer(i) => i as i32,
        }
    }
}

impl vstd::std_specs::convert::FromSpecImpl<SockID> for i32 {
    open spec fn obeys_from_spec() -> bool {
        true
    }

    open spec fn from_spec(value: SockID) -> i32 {
        match value {
            SockID::Disconnected => -1i32,
            SockID::ConnectedPeer(i) => i as i32,
        }
    }
}

} // verus!
