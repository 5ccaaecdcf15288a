//! Little-endian integer fields, as every EtherNet/IP field is laid out.
use vstd::prelude::*;
use byteorder::{ByteOrder, LittleEndian, WriteBytesExt};

verus! {

/// The two bytes of `n`, low byte first.
pub open spec fn u16_le(n: u16) -> Seq<u8> {
    seq![(n & 0xff) as u8, (n >> 8u16) as u8]
}

/// The four bytes of `n`, low byte first.
pub open spec fn u32_le(n: u32) -> Seq<u8> {
    seq![
        (n & 0xff) as u8,
        ((n >> 8u32) & 0xff) as u8,
        ((n >> 16u32) & 0xff) as u8,
        (n >> 24u32) as u8,
    ]
}

/// The eight bytes of `n`, low byte first.
pub open spec fn u64_le(n: u64) -> Seq<u8> {
    u32_le((n & 0xffff_ffff) as u32) + u32_le((n >> 32u64) as u32)
}

/// The value of two bytes read low byte first.
pub open spec fn le_u16_value(b: Seq<u8>) -> u16
    recommends
        b.len() >= 2,
{
    ((b[0] as u16) | ((b[1] as u16) << 8u16)) as u16
}

/// The value of four bytes read low byte first.
pub open spec fn le_u32_value(b: Seq<u8>) -> u32
    recommends
        b.len() >= 4,
{
    ((b[0] as u32) | ((b[1] as u32) << 8u32) | ((b[2] as u32) << 16u32) | ((b[3] as u32)
        << 24u32)) as u32
}

/// Reading back the bytes of a 32-bit field gives the field.
pub proof fn lemma_u32_le_round_trip(n: u32)
    ensures
        le_u32_value(u32_le(n)) == n,
        u32_le(n).len() == 4,
{
    let b0: u32 = n & 0xff;
    let b1: u32 = (n >> 8u32) & 0xff;
    let b2: u32 = (n >> 16u32) & 0xff;
    let b3: u32 = n >> 24u32;
    assert(b0 < 256 && b1 < 256 && b2 < 256 && b3 < 256) by (bit_vector)
        requires
            b0 == n & 0xff,
            b1 == (n >> 8u32) & 0xff,
            b2 == (n >> 16u32) & 0xff,
            b3 == n >> 24u32,
    ;
    assert(b0 | (b1 << 8u32) | (b2 << 16u32) | (b3 << 24u32) == n) by (bit_vector)
        requires
            b0 == n & 0xff,
            b1 == (n >> 8u32) & 0xff,
            b2 == (n >> 16u32) & 0xff,
            b3 == n >> 24u32,
    ;
}

/// Relies on byteorder's `WriteBytesExt::write_u16` with `LittleEndian`:
/// it appends the two bytes of `n`, low byte first; writing into a `Vec`
/// does not fail.
#[verifier::external_body]
pub(crate) fn push_u16_le(out: &mut Vec<u8>, n: u16)
    ensures
        final(out)@ == old(out)@ + u16_le(n),
{
    out.write_u16::<LittleEndian>(n).unwrap()
}

/// Relies on byteorder's `WriteBytesExt::write_u32` with `LittleEndian`:
/// it appends the four bytes of `n`, low byte first; writing into a `Vec`
/// does not fail.
#[verifier::external_body]
pub(crate) fn push_u32_le(out: &mut Vec<u8>, n: u32)
    ensures
        final(out)@ == old(out)@ + u32_le(n),
{
    out.write_u32::<LittleEndian>(n).unwrap()
}

/// Relies on byteorder's `WriteBytesExt::write_u64` with `LittleEndian`:
/// it appends the eight bytes of `n`, low byte first; writing into a `Vec`
/// does not fail.
#[verifier::external_body]
pub(crate) fn push_u64_le(out: &mut Vec<u8>, n: u64)
    ensures
        final(out)@ == old(out)@ + u64_le(n),
{
    out.write_u64::<LittleEndian>(n).unwrap()
}

/// Relies on byteorder's `LittleEndian::read_u16`: the value of the first
/// two bytes of the slice, low byte first; it panics on a shorter slice.
#[verifier::external_body]
pub(crate) fn read_u16_le(buf: &[u8], offset: usize) -> (r: u16)
    requires
        offset + 2 <= buf@.len(),
    ensures
        r == le_u16_value(buf@.subrange(offset as int, offset + 2)),
{
    LittleEndian::read_u16(&buf[offset..])
}

/// Relies on byteorder's `LittleEndian::read_u32`: the value of the first
/// four bytes of the slice, low byte first; it panics on a shorter slice.
#[verifier::external_body]
pub(crate) fn read_u32_le(buf: &[u8], offset: usize) -> (r: u32)
    requires
        offset + 4 <= buf@.len(),
    ensures
        r == le_u32_value(buf@.subrange(offset as int, offset + 4)),
{
    LittleEndian::read_u32(&buf[offset..])
}

} // verus!
