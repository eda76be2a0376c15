//! Big-endian layout of the integers that frames carry.
use vstd::prelude::*;

verus! {

/// The four bytes of `n`, most significant first.
pub open spec fn u32_be_bytes(n: u32) -> Seq<u8> {
    seq![(n >> 24u32) as u8, (n >> 16u32) as u8, (n >> 8u32) as u8, n as u8]
}

/// The integer whose big-endian layout is the first four bytes of `b`.
pub open spec fn u32_from_be(b: Seq<u8>) -> u32
    recommends
        b.len() >= 4,
{
    ((b[0] as u32) << 24u32) | ((b[1] as u32) << 16u32) | ((b[2] as u32) << 8u32) | (b[3] as u32)
}

/// The two bytes of `n`, most significant first.
pub open spec fn u16_be_bytes(n: u16) -> Seq<u8> {
    seq![(n >> 8u16) as u8, n as u8]
}

/// The integer whose big-endian layout is the first two bytes of `b`.
pub open spec fn u16_from_be(b: Seq<u8>) -> u16
    recommends
        b.len() >= 2,
{
    ((b[0] as u16) << 8u16) | (b[1] as u16)
}

/// Reading back the layout of a 32-bit integer gives the integer.
pub proof fn lemma_u32_be_round_trip(n: u32)
    ensures
        u32_from_be(u32_be_bytes(n)) == n,
{
    let b = u32_be_bytes(n);
    let (b0, b1, b2, b3) = (b[0], b[1], b[2], b[3]);
    assert(b0 == (n >> 24u32) as u8 && b1 == (n >> 16u32) as u8 && b2 == (n >> 8u32) as u8
        && b3 == n as u8);
    assert(b0 == (n >> 24u32) as u8 && b1 == (n >> 16u32) as u8 && b2 == (n >> 8u32) as u8
        && b3 == n as u8 ==> ((b0 as u32) << 24u32) | ((b1 as u32) << 16u32) | ((b2 as u32)
        << 8u32) | (b3 as u32) == n) by (bit_vector);
}

/// Reading back the layout of a 16-bit integer gives the integer.
pub proof fn lemma_u16_be_round_trip(n: u16)
    ensures
        u16_from_be(u16_be_bytes(n)) == n,
{
    let b = u16_be_bytes(n);
    let (b0, b1) = (b[0], b[1]);
    assert(b0 == (n >> 8u16) as u8 && b1 == n as u8);
    assert(b0 == (n >> 8u16) as u8 && b1 == n as u8 ==> ((b0 as u16) << 8u16) | (b1 as u16) == n)
        by (bit_vector);
}

/// Appends the big-endian layout of `n`.
pub(crate) fn push_u32_be(v: &mut Vec<u8>, n: u32)
    ensures
        final(v)@ == old(v)@ + u32_be_bytes(n),
{
    v.push((n >> 24u32) as u8);
    v.push((n >> 16u32) as u8);
    v.push((n >> 8u32) as u8);
    v.push(n as u8);
    assert(v@ =~= old(v)@ + u32_be_bytes(n));
}

/// Appends the big-endian layout of `n`.
pub(crate) fn push_u16_be(v: &mut Vec<u8>, n: u16)
    ensures
        final(v)@ == old(v)@ + u16_be_bytes(n),
{
    v.push((n >> 8u16) as u8);
    v.push(n as u8);
    assert(v@ =~= old(v)@ + u16_be_bytes(n));
}

} // verus!
