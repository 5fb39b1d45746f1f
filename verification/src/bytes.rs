//! Big-endian (network byte order) encoding and decoding of 32- and 64-bit
//! integers, as the NBD wire format uses for every header field.

use vstd::prelude::*;

verus! {

/// The 32-bit value held by four bytes in big-endian order.
pub open spec fn be32(b0: u8, b1: u8, b2: u8, b3: u8) -> u32 {
    ((b0 as u32) << 24) | ((b1 as u32) << 16) | ((b2 as u32) << 8) | (b3 as u32)
}

/// The 32-bit value read in big-endian order at position `i` of `s`.
pub open spec fn be32_at(s: Seq<u8>, i: int) -> u32
    recommends
        0 <= i,
        i + 4 <= s.len(),
{
    be32(s[i], s[i + 1], s[i + 2], s[i + 3])
}

/// The 64-bit value held by eight bytes in big-endian order.
pub open spec fn be64(b0: u8, b1: u8, b2: u8, b3: u8, b4: u8, b5: u8, b6: u8, b7: u8) -> u64 {
    ((b0 as u64) << 56) | ((b1 as u64) << 48) | ((b2 as u64) << 40) | ((b3 as u64) << 32)
        | ((b4 as u64) << 24) | ((b5 as u64) << 16) | ((b6 as u64) << 8) | (b7 as u64)
}

/// The 64-bit value read in big-endian order at position `i` of `s`.
pub open spec fn be64_at(s: Seq<u8>, i: int) -> u64
    recommends
        0 <= i,
        i + 8 <= s.len(),
{
    be64(s[i], s[i + 1], s[i + 2], s[i + 3], s[i + 4], s[i + 5], s[i + 6], s[i + 7])
}

/// The four big-endian bytes of a 32-bit value.
pub open spec fn u32_to_be(x: u32) -> Seq<u8> {
    seq![
        ((x >> 24) & 0xff) as u8,
        ((x >> 16) & 0xff) as u8,
        ((x >> 8) & 0xff) as u8,
        (x & 0xff) as u8,
    ]
}

/// The eight big-endian bytes of a 64-bit value.
pub open spec fn u64_to_be(x: u64) -> Seq<u8> {
    seq![
        ((x >> 56) & 0xff) as u8,
        ((x >> 48) & 0xff) as u8,
        ((x >> 40) & 0xff) as u8,
        ((x >> 32) & 0xff) as u8,
        ((x >> 24) & 0xff) as u8,
        ((x >> 16) & 0xff) as u8,
        ((x >> 8) & 0xff) as u8,
        (x & 0xff) as u8,
    ]
}

/// Encoding a 32-bit value and reading it back yields the value.
pub proof fn lemma_be32_round_trip(x: u32)
    ensures
        be32_at(u32_to_be(x), 0) == x,
{
    let b0 = ((x >> 24) & 0xff) as u8;
    let b1 = ((x >> 16) & 0xff) as u8;
    let b2 = ((x >> 8) & 0xff) as u8;
    let b3 = (x & 0xff) as u8;
    assert(((b0 as u32) << 24) | ((b1 as u32) << 16) | ((b2 as u32) << 8) | (b3 as u32) == x)
        by (bit_vector)
        requires
            b0 == ((x >> 24) & 0xff) as u8 && b1 == ((x >> 16) & 0xff) as u8 && b2 == ((x >> 8)
                & 0xff) as u8 && b3 == (x & 0xff) as u8,
    ;
}

/// Encoding a 64-bit value and reading it back yields the value.
pub proof fn lemma_be64_round_trip(x: u64)
    ensures
        be64_at(u64_to_be(x), 0) == x,
{
    let b0 = ((x >> 56) & 0xff) as u8;
    let b1 = ((x >> 48) & 0xff) as u8;
    let b2 = ((x >> 40) & 0xff) as u8;
    let b3 = ((x >> 32) & 0xff) as u8;
    let b4 = ((x >> 24) & 0xff) as u8;
    let b5 = ((x >> 16) & 0xff) as u8;
    let b6 = ((x >> 8) & 0xff) as u8;
    let b7 = (x & 0xff) as u8;
    assert(((b0 as u64) << 56) | ((b1 as u64) << 48) | ((b2 as u64) << 40) | ((b3 as u64) << 32)
        | ((b4 as u64) << 24) | ((b5 as u64) << 16) | ((b6 as u64) << 8) | (b7 as u64) == x)
        by (bit_vector)
        requires
            b0 == ((x >> 56) & 0xff) as u8 && b1 == ((x >> 48) & 0xff) as u8 && b2 == ((x >> 40)
                & 0xff) as u8 && b3 == ((x >> 32) & 0xff) as u8 && b4 == ((x >> 24) & 0xff) as u8
                && b5 == ((x >> 16) & 0xff) as u8 && b6 == ((x >> 8) & 0xff) as u8 && b7 == (x
                & 0xff) as u8,
    ;
}

/// Reads the 32-bit big-endian value at position `i` of `d`.
pub fn read_u32_be(d: &[u8], i: usize) -> (x: u32)
    requires
        i + 4 <= d@.len(),
    ensures
        x == be32_at(d@, i as int),
{
    let b0 = d[i];
    let b1 = d[i + 1];
    let b2 = d[i + 2];
    let b3 = d[i + 3];
    ((b0 as u32) << 24) | ((b1 as u32) << 16) | ((b2 as u32) << 8) | (b3 as u32)
}

/// Reads the 64-bit big-endian value at position `i` of `d`.
pub fn read_u64_be(d: &[u8], i: usize) -> (x: u64)
    requires
        i + 8 <= d@.len(),
    ensures
        x == be64_at(d@, i as int),
{
    let b0 = d[i];
    let b1 = d[i + 1];
    let b2 = d[i + 2];
    let b3 = d[i + 3];
    let b4 = d[i + 4];
    let b5 = d[i + 5];
    let b6 = d[i + 6];
    let b7 = d[i + 7];
    ((b0 as u64) << 56) | ((b1 as u64) << 48) | ((b2 as u64) << 40) | ((b3 as u64) << 32) | ((
    b4 as u64) << 24) | ((b5 as u64) << 16) | ((b6 as u64) << 8) | (b7 as u64)
}

/// Appends the four big-endian bytes of `x` to `buf`.
pub fn put_u32_be(buf: &mut Vec<u8>, x: u32)
    ensures
        final(buf)@ == old(buf)@ + u32_to_be(x),
{
    buf.push(((x >> 24) & 0xff) as u8);
    buf.push(((x >> 16) & 0xff) as u8);
    buf.push(((x >> 8) & 0xff) as u8);
    buf.push((x & 0xff) as u8);
    proof {
        assert(buf@ =~= old(buf)@ + u32_to_be(x));
    }
}

/// Appends the eight big-endian bytes of `x` to `buf`.
pub fn put_u64_be(buf: &mut Vec<u8>, x: u64)
    ensures
        final(buf)@ == old(buf)@ + u64_to_be(x),
{
    buf.push(((x >> 56) & 0xff) as u8);
    buf.push(((x >> 48) & 0xff) as u8);
    buf.push(((x >> 40) & 0xff) as u8);
    buf.push(((x >> 32) & 0xff) as u8);
    buf.push(((x >> 24) & 0xff) as u8);
    buf.push(((x >> 16) & 0xff) as u8);
    buf.push(((x >> 8) & 0xff) as u8);
    buf.push((x & 0xff) as u8);
    proof {
        assert(buf@ =~= old(buf)@ + u64_to_be(x));
    }
}

} // verus!
