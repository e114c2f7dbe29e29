//! Big-endian encoding and decoding of 32-bit unsigned integers, the fixed
//! four-byte number format of the chunk wire layout.

use vstd::prelude::*;

verus! {

/// The value of four bytes read as a big-endian 32-bit unsigned integer.
pub open spec fn be32_value(b: Seq<u8>) -> u32
    recommends
        b.len() == 4,
{
    (b[0] * 0x1000000 + b[1] * 0x10000 + b[2] * 0x100 + b[3]) as u32
}

/// The four-byte big-endian encoding of a 32-bit unsigned integer.
pub open spec fn be32_bytes(x: u32) -> Seq<u8> {
    seq![
        (x / 0x1000000) as u8,
        ((x / 0x10000) % 0x100) as u8,
        ((x / 0x100) % 0x100) as u8,
        (x % 0x100) as u8,
    ]
}

proof fn lemma_be32_decompose(x: u32)
    by (bit_vector)
    ensures
        ((x / 0x1000000) as u8) * 0x1000000 + (((x / 0x10000) % 0x100) as u8) * 0x10000 + (((x
            / 0x100) % 0x100) as u8) * 0x100 + ((x % 0x100) as u8) == x,
{
}

proof fn lemma_be32_compose(b0: u8, b1: u8, b2: u8, b3: u8)
    by (bit_vector)
    ensures
        ((b0 * 0x1000000 + b1 * 0x10000 + b2 * 0x100 + b3) as u32) / 0x1000000 == b0,
        (((b0 * 0x1000000 + b1 * 0x10000 + b2 * 0x100 + b3) as u32) / 0x10000) % 0x100 == b1,
        (((b0 * 0x1000000 + b1 * 0x10000 + b2 * 0x100 + b3) as u32) / 0x100) % 0x100 == b2,
        ((b0 * 0x1000000 + b1 * 0x10000 + b2 * 0x100 + b3) as u32) % 0x100 == b3,
{
}

/// Encoding a value and reading it back yields the value.
pub proof fn lemma_be32_encode_decode(x: u32)
    ensures
        be32_value(be32_bytes(x)) == x,
{
    lemma_be32_decompose(x);
}

/// Reading four bytes as a value and encoding that value yields the bytes:
/// the encoding is a bijection between values and four-byte sequences.
pub proof fn lemma_be32_decode_encode(b: Seq<u8>)
    requires
        b.len() == 4,
    ensures
        be32_bytes(be32_value(b)) == b,
{
    lemma_be32_compose(b[0], b[1], b[2], b[3]);
    assert(be32_bytes(be32_value(b)) =~= b);
}

/// Splits a 32-bit unsigned integer into its four big-endian bytes.
pub fn u32_to_be_bytes(x: u32) -> (r: [u8; 4])
    ensures
        r@ == be32_bytes(x),
{
    let b0 = (x >> 24) as u8;
    let b1 = ((x >> 16) & 0xff) as u8;
    let b2 = ((x >> 8) & 0xff) as u8;
    let b3 = (x & 0xff) as u8;
    proof {
        assert((x >> 24) as u8 == (x / 0x1000000) as u8) by (bit_vector);
        assert(((x >> 16) & 0xff) as u8 == ((x / 0x10000) % 0x100) as u8) by (bit_vector);
        assert(((x >> 8) & 0xff) as u8 == ((x / 0x100) % 0x100) as u8) by (bit_vector);
        assert((x & 0xff) as u8 == (x % 0x100) as u8) by (bit_vector);
    }
    let r = [b0, b1, b2, b3];
    proof {
        assert(r@ =~= be32_bytes(x));
    }
    r
}

/// Reads four bytes, most significant first, as a 32-bit unsigned integer.
pub fn u32_from_be_bytes(b0: u8, b1: u8, b2: u8, b3: u8) -> (r: u32)
    ensures
        r == be32_value(seq![b0, b1, b2, b3]),
{
    let r = ((b0 as u32) << 24) | ((b1 as u32) << 16) | ((b2 as u32) << 8) | (b3 as u32);
    proof {
        assert(((b0 as u32) << 24) | ((b1 as u32) << 16) | ((b2 as u32) << 8) | (b3 as u32) == (b0
            * 0x1000000 + b1 * 0x10000 + b2 * 0x100 + b3) as u32) by (bit_vector);
        assert(seq![b0, b1, b2, b3][0] == b0);
        assert(seq![b0, b1, b2, b3][1] == b1);
        assert(seq![b0, b1, b2, b3][2] == b2);
        assert(seq![b0, b1, b2, b3][3] == b3);
    }
    r
}

} // verus!
