//! Little-endian encoding of 32-bit integers.
use vstd::prelude::*;

verus! {

/// The integer that four little-endian bytes stand for.
pub open spec fn le_u32(b: Seq<u8>) -> u32
    recommends
        b.len() == 4,
{
    (b[0] as int + b[1] as int * 0x100 + b[2] as int * 0x1_0000 + b[3] as int * 0x100_0000) as u32
}

/// The four little-endian bytes of `x`.
pub open spec fn le_bytes(x: u32) -> Seq<u8> {
    seq![
        (x % 0x100) as u8,
        ((x / 0x100) % 0x100) as u8,
        ((x / 0x1_0000) % 0x100) as u8,
        (x / 0x100_0000) as u8,
    ]
}

/// Decoding the encoding of `x` gives `x` back.
pub proof fn lemma_le_round_trip(x: u32)
    ensures
        le_bytes(x).len() == 4,
        le_u32(le_bytes(x)) == x,
{
    let b = le_bytes(x);
    assert(b[0] as int == x % 0x100);
    assert(b[1] as int == (x / 0x100) % 0x100);
    assert(b[2] as int == (x / 0x1_0000) % 0x100);
    assert(b[3] as int == x / 0x100_0000);
    assert(x as int == x % 0x100 + ((x / 0x100) % 0x100) * 0x100 + ((x / 0x1_0000) % 0x100)
        * 0x1_0000 + (x / 0x100_0000) * 0x100_0000) by (nonlinear_arith);
}

/// Reads the little-endian integer at `b[i..i + 4]`.
pub fn read_le_u32(b: &[u8], i: usize) -> (r: u32)
    requires
        i + 4 <= b@.len(),
    ensures
        r == le_u32(b@.subrange(i as int, i + 4)),
{
    let b0 = b[i] as u32;
    let b1 = b[i + 1] as u32;
    let b2 = b[i + 2] as u32;
    let b3 = b[i + 3] as u32;
    b0 + b1 * 0x100 + b2 * 0x1_0000 + b3 * 0x100_0000
}

/// Writes the little-endian bytes of `x` at `dst[i..i + 4]`, leaving the rest.
pub fn write_le_u32(dst: &mut [u8], i: usize, x: u32)
    requires
        i + 4 <= old(dst)@.len(),
    ensures
        final(dst)@.len() == old(dst)@.len(),
        final(dst)@.subrange(i as int, i + 4) == le_bytes(x),
        forall|j: int|
            0 <= j < old(dst)@.len() && !(i <= j < i + 4) ==> final(dst)@[j] == old(dst)@[j],
{
    dst[i] = (x % 0x100) as u8;
    dst[i + 1] = ((x / 0x100) % 0x100) as u8;
    dst[i + 2] = ((x / 0x1_0000) % 0x100) as u8;
    dst[i + 3] = (x / 0x100_0000) as u8;
    assert(dst@.subrange(i as int, i + 4) =~= le_bytes(x));
}

} // verus!
