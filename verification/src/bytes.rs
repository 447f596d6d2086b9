//! Byte-buffer helpers shared by the stream decoders.

use vstd::prelude::*;

verus! {

/// Removes the first `n` bytes of `buf` and returns them.
pub fn split_to(buf: &mut Vec<u8>, n: usize) -> (head: Vec<u8>)
    requires
        n <= old(buf)@.len(),
    ensures
        head@ == old(buf)@.take(n as int),
        final(buf)@ == old(buf)@.skip(n as int),
{
    let mut tail = buf.split_off(n);
    std::mem::swap(buf, &mut tail);
    tail
}

/// The big-endian value of four bytes.
pub open spec fn be_u32(b0: u8, b1: u8, b2: u8, b3: u8) -> u32 {
    ((b0 as u32) << 24u32) | ((b1 as u32) << 16u32) | ((b2 as u32) << 8u32) | (b3 as u32)
}

/// The four big-endian bytes of `n`.
pub open spec fn be_bytes(n: u32) -> Seq<u8> {
    seq![(n >> 24u32) as u8, (n >> 16u32) as u8, (n >> 8u32) as u8, n as u8]
}

/// Reads a big-endian `u32`.
pub fn read_be_u32(b0: u8, b1: u8, b2: u8, b3: u8) -> (res: u32)
    ensures
        res == be_u32(b0, b1, b2, b3),
{
    ((b0 as u32) << 24u32) | ((b1 as u32) << 16u32) | ((b2 as u32) << 8u32) | (b3 as u32)
}

/// Reading back the big-endian bytes of `n` gives `n`.
pub proof fn lemma_be_roundtrip(n: u32)
    ensures
        be_u32(be_bytes(n)[0], be_bytes(n)[1], be_bytes(n)[2], be_bytes(n)[3]) == n,
{
    assert(((((n >> 24u32) as u8) as u32) << 24u32) | ((((n >> 16u32) as u8) as u32) << 16u32)
        | ((((n >> 8u32) as u8) as u32) << 8u32) | ((n as u8) as u32) == n) by (bit_vector);
}

} // verus!
