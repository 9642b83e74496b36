//! IPv4 socket addresses and the addresses in an IPv4 header.
use vstd::prelude::*;

use etherparse::Ipv4HeaderSlice;

verus! {

/// An IPv4 socket address: a 32-bit address (most significant byte first)
/// and a port.
#[derive(Debug, Copy, Clone, PartialEq, Eq, Structural, Hash)]
pub struct SockAddr {
    pub ip: u32,
    pub port: u16,
}

/// The big-endian integer at `b[i..i + 4]`.
pub open spec fn be_u32(b: Seq<u8>, i: int) -> u32 {
    (b[i] as int * 0x100_0000 + b[i + 1] as int * 0x1_0000 + b[i + 2] as int * 0x100 + b[i + 3] as int) as u32
}

/// Whether `b` starts with an IPv4 header: at least 20 bytes, version 4, and
/// a header length (in 32-bit words) of at least 5 that fits in `b`.
pub open spec fn ipv4_header_ok(b: Seq<u8>) -> bool {
    &&& b.len() >= 20
    &&& b[0] / 16 == 4
    &&& b[0] % 16 >= 5
    &&& b.len() >= (b[0] % 16) * 4
}

/// The source address of the IPv4 header at the start of `b`.
pub open spec fn ipv4_source(b: Seq<u8>) -> u32 {
    be_u32(b, 12)
}

/// The destination address of the IPv4 header at the start of `b`.
pub open spec fn ipv4_destination(b: Seq<u8>) -> u32 {
    be_u32(b, 16)
}

/// Relies on `Ipv4HeaderSlice::from_slice` (accepts exactly the slices that
/// `ipv4_header_ok` describes) and its `source` and `destination` (bytes 12
/// to 16 and 16 to 20); returns (source, destination).
#[verifier::external_body]
pub(crate) fn ipv4_addrs(b: &[u8]) -> (r: Option<(u32, u32)>)
    ensures
        r == (if ipv4_header_ok(b@) {
            Some((ipv4_source(b@), ipv4_destination(b@)))
        } else {
            None
        }),
{
    match Ipv4HeaderSlice::from_slice(b) {
        Ok(h) => Some((u32::from_be_bytes(h.source()), u32::from_be_bytes(h.destination()))),
        Err(_) => None,
    }
}

} // verus!
