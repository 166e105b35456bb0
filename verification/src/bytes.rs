//! Byte-level vocabulary of the netlink attribute format: the two byte
//! orders a host may use, fixed-width integer encodings and 4-byte alignment.
use vstd::prelude::*;

verus! {

/// The byte order in which a host lays out its integers.
///
/// Netlink writes the attribute header and most integer payloads in the
/// host's own order, [`host_order`].
#[derive(Debug, Clone, Copy, PartialEq, Eq)]
pub enum ByteOrder {
    Little,
    Big,
}

/// The byte order of the machine that runs the code, which stays the same
/// for the whole run.
pub open spec fn host_order() -> ByteOrder {
    match vstd::endian::endianness() {
        vstd::endian::Endian::Little => ByteOrder::Little,
        vstd::endian::Endian::Big => ByteOrder::Big,
    }
}

/// The two bytes of `v` in byte order `order`.
pub open spec fn u16_bytes(order: ByteOrder, v: u16) -> Seq<u8> {
    let low = (v & 0xff) as u8;
    let high = ((v >> 8) & 0xff) as u8;
    match order {
        ByteOrder::Little => seq![low, high],
        ByteOrder::Big => seq![high, low],
    }
}

/// The integer that the first two bytes of `b` encode in byte order `order`.
pub open spec fn u16_value(order: ByteOrder, b: Seq<u8>) -> u16 {
    match order {
        ByteOrder::Little => ((b[0] as u16) | ((b[1] as u16) << 8)) as u16,
        ByteOrder::Big => (((b[0] as u16) << 8) | (b[1] as u16)) as u16,
    }
}

/// The four bytes of `v` in byte order `order`.
pub open spec fn u32_bytes(order: ByteOrder, v: u32) -> Seq<u8> {
    let b0 = (v & 0xff) as u8;
    let b1 = ((v >> 8) & 0xff) as u8;
    let b2 = ((v >> 16) & 0xff) as u8;
    let b3 = ((v >> 24) & 0xff) as u8;
    match order {
        ByteOrder::Little => seq![b0, b1, b2, b3],
        ByteOrder::Big => seq![b3, b2, b1, b0],
    }
}

/// The integer that the first four bytes of `b` encode in byte order `order`.
pub open spec fn u32_value(order: ByteOrder, b: Seq<u8>) -> u32 {
    match order {
        ByteOrder::Little => u32_from_parts(b[0], b[1], b[2], b[3]),
        ByteOrder::Big => u32_from_parts(b[3], b[2], b[1], b[0]),
    }
}

/// The integer whose bytes, from least to most significant, are `b0..b3`.
pub open spec fn u32_from_parts(b0: u8, b1: u8, b2: u8, b3: u8) -> u32 {
    ((b0 as u32) | ((b1 as u32) << 8) | ((b2 as u32) << 16) | ((b3 as u32) << 24)) as u32
}

/// `n` rounded up to the next multiple of four (netlink attribute alignment).
pub open spec fn align4(n: nat) -> nat {
    if n % 4 == 0 {
        n
    } else {
        (n + 4 - n % 4) as nat
    }
}

/// A run of `n` zero bytes.
pub open spec fn zeros(n: nat) -> Seq<u8> {
    Seq::new(n, |i: int| 0u8)
}

/// Decoding the encoding of a 16-bit integer gives the integer back.
pub proof fn lemma_u16_roundtrip(order: ByteOrder, v: u16)
    ensures
        u16_bytes(order, v).len() == 2,
        u16_value(order, u16_bytes(order, v)) == v,
{
    let low = (v & 0xff) as u8;
    let high = ((v >> 8) & 0xff) as u8;
    assert((((v & 0xff) as u8) as u16) | ((((v >> 8) & 0xff) as u8) as u16) << 8 == v)
        by (bit_vector);
    assert(((((v >> 8) & 0xff) as u8) as u16) << 8 | (((v & 0xff) as u8) as u16) == v)
        by (bit_vector);
    assert(u16_bytes(order, v)[0] == match order {
        ByteOrder::Little => low,
        ByteOrder::Big => high,
    });
}

/// Decoding the encoding of a 32-bit integer gives the integer back.
pub proof fn lemma_u32_roundtrip(order: ByteOrder, v: u32)
    ensures
        u32_bytes(order, v).len() == 4,
        u32_value(order, u32_bytes(order, v)) == v,
{
    assert(u32_from_parts(
        (v & 0xff) as u8,
        ((v >> 8) & 0xff) as u8,
        ((v >> 16) & 0xff) as u8,
        ((v >> 24) & 0xff) as u8,
    ) == v) by (bit_vector);
}

/// Encoding the integer that four bytes decode to gives the bytes back.
pub proof fn lemma_u32_bytes_of_value(order: ByteOrder, b: Seq<u8>)
    requires
        b.len() == 4,
    ensures
        u32_bytes(order, u32_value(order, b)) == b,
{
    let (b0, b1, b2, b3) = (b[0], b[1], b[2], b[3]);
    let v = u32_from_parts(b0, b1, b2, b3);
    assert((v & 0xff) as u8 == b0 && ((v >> 8) & 0xff) as u8 == b1 && ((v >> 16) & 0xff) as u8
        == b2 && ((v >> 24) & 0xff) as u8 == b3) by (bit_vector)
        requires
            v == u32_from_parts(b0, b1, b2, b3),
    ;
    let w = u32_from_parts(b3, b2, b1, b0);
    assert((w & 0xff) as u8 == b3 && ((w >> 8) & 0xff) as u8 == b2 && ((w >> 16) & 0xff) as u8
        == b1 && ((w >> 24) & 0xff) as u8 == b0) by (bit_vector)
        requires
            w == u32_from_parts(b3, b2, b1, b0),
    ;
    assert(u32_bytes(order, u32_value(order, b)) =~= b);
}

/// Rounding up to a multiple of four adds fewer than four and keeps multiples.
pub proof fn lemma_align4(n: nat)
    ensures
        n <= align4(n) < n + 4,
        align4(n) % 4 == 0,
        align4(n + 4) == align4(n) + 4,
{
}

} // verus!
