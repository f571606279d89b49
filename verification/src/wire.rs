//! Fixed-width integer encodings used on the wire.
//!
//! Every integer of the format is little-endian, except the lengths of the
//! name table, which are big-endian 16-bit values. The conversions themselves
//! are done by the `byteorder` crate; the spec functions below say what each
//! of them computes.

use byteorder::ByteOrder;
use vstd::prelude::*;

verus! {

/// The value of two bytes read least significant byte first.
#[verifier::opaque]
pub open spec fn u16_from_le(b: Seq<u8>) -> u16
    recommends
        b.len() == 2,
{
    (b[0] as int + 0x100 * (b[1] as int)) as u16
}

/// The two bytes of a value, least significant byte first.
#[verifier::opaque]
pub open spec fn u16_to_le(v: u16) -> Seq<u8> {
    seq![(v % 0x100) as u8, (v / 0x100) as u8]
}

/// The value of two bytes read most significant byte first.
#[verifier::opaque]
pub open spec fn u16_from_be(b: Seq<u8>) -> u16
    recommends
        b.len() == 2,
{
    (0x100 * (b[0] as int) + b[1] as int) as u16
}

/// The two bytes of a value, most significant byte first.
#[verifier::opaque]
pub open spec fn u16_to_be(v: u16) -> Seq<u8> {
    seq![(v / 0x100) as u8, (v % 0x100) as u8]
}

/// The value of four bytes read least significant byte first.
#[verifier::opaque]
pub open spec fn u32_from_le(b: Seq<u8>) -> u32
    recommends
        b.len() == 4,
{
    (b[0] as int + 0x100 * (b[1] as int) + 0x1_0000 * (b[2] as int) + 0x100_0000 * (
    b[3] as int)) as u32
}

/// The four bytes of a value, least significant byte first.
#[verifier::opaque]
pub open spec fn u32_to_le(v: u32) -> Seq<u8> {
    seq![
        (v % 0x100) as u8,
        (v / 0x100 % 0x100) as u8,
        (v / 0x1_0000 % 0x100) as u8,
        (v / 0x100_0000) as u8,
    ]
}

/// The value of eight bytes read least significant byte first.
#[verifier::opaque]
pub open spec fn u64_from_le(b: Seq<u8>) -> u64
    recommends
        b.len() == 8,
{
    (u32_from_le(b.subrange(0, 4)) as int + 0x1_0000_0000 * (u32_from_le(b.subrange(4, 8)) as int))
        as u64
}

/// The eight bytes of a value, least significant byte first.
#[verifier::opaque]
pub open spec fn u64_to_le(v: u64) -> Seq<u8> {
    u32_to_le((v % 0x1_0000_0000) as u32) + u32_to_le((v / 0x1_0000_0000) as u32)
}

/// The low 32 bits of a number: what a count or an index keeps when it is put
/// into a 32-bit word.
#[verifier::opaque]
pub open spec fn low32(n: int) -> u32 {
    (n % 0x1_0000_0000) as u32
}

/// The low 16 bits of a number.
#[verifier::opaque]
pub open spec fn low16(n: int) -> u16 {
    (n % 0x1_0000) as u16
}

/// The low 32 bits of a length or an index.
pub fn low32_of(n: usize) -> (w: u32)
    ensures
        w == low32(n as int),
{
    reveal(low32);
    (n as u64 % 0x1_0000_0000) as u32
}

/// The low 16 bits of a length.
pub fn low16_of(n: usize) -> (w: u16)
    ensures
        w == low16(n as int),
{
    reveal(low16);
    (n as u64 % 0x1_0000) as u16
}

/// A number that fits into 32 bits is its own low 32 bits.
pub proof fn lemma_low32_small(n: int)
    requires
        0 <= n <= u32::MAX,
    ensures
        low32(n) == n,
{
    reveal(low32);
}

/// A number that fits into 16 bits is its own low 16 bits.
pub proof fn lemma_low16_small(n: int)
    requires
        0 <= n <= u16::MAX,
    ensures
        low16(n) == n,
{
    reveal(low16);
}

/// `byteorder::LittleEndian::read_u16`: the first two bytes of `buf` taken as
/// a little-endian number. The outside function panics on a shorter buffer.
#[verifier::external_body]
pub(crate) fn le_u16(buf: &[u8]) -> (v: u16)
    requires
        buf@.len() >= 2,
    ensures
        v == u16_from_le(buf@.subrange(0, 2)),
{
    byteorder::LittleEndian::read_u16(buf)
}

/// `byteorder::BigEndian::read_u16`: the first two bytes of `buf` taken as a
/// big-endian number. The outside function panics on a shorter buffer.
#[verifier::external_body]
pub(crate) fn be_u16(buf: &[u8]) -> (v: u16)
    requires
        buf@.len() >= 2,
    ensures
        v == u16_from_be(buf@.subrange(0, 2)),
{
    byteorder::BigEndian::read_u16(buf)
}

/// `byteorder::LittleEndian::read_u32`: the first four bytes of `buf` taken as
/// a little-endian number. The outside function panics on a shorter buffer.
#[verifier::external_body]
pub(crate) fn le_u32(buf: &[u8]) -> (v: u32)
    requires
        buf@.len() >= 4,
    ensures
        v == u32_from_le(buf@.subrange(0, 4)),
{
    byteorder::LittleEndian::read_u32(buf)
}

/// `byteorder::LittleEndian::read_u64`: the first eight bytes of `buf` taken
/// as a little-endian number. The outside function panics on a shorter buffer.
#[verifier::external_body]
pub(crate) fn le_u64(buf: &[u8]) -> (v: u64)
    requires
        buf@.len() >= 8,
    ensures
        v == u64_from_le(buf@.subrange(0, 8)),
{
    byteorder::LittleEndian::read_u64(buf)
}

/// `byteorder::LittleEndian::write_u16`, on a buffer of exactly two bytes: the
/// bytes of `v`, least significant first.
#[verifier::external_body]
pub(crate) fn le_u16_bytes(v: u16) -> (out: [u8; 2])
    ensures
        out@ == u16_to_le(v),
{
    let mut out = [0u8; 2];
    byteorder::LittleEndian::write_u16(&mut out, v);
    out
}

/// `byteorder::BigEndian::write_u16`, on a buffer of exactly two bytes: the
/// bytes of `v`, most significant first.
#[verifier::external_body]
pub(crate) fn be_u16_bytes(v: u16) -> (out: [u8; 2])
    ensures
        out@ == u16_to_be(v),
{
    let mut out = [0u8; 2];
    byteorder::BigEndian::write_u16(&mut out, v);
    out
}

/// `byteorder::LittleEndian::write_u32`, on a buffer of exactly four bytes:
/// the bytes of `v`, least significant first.
#[verifier::external_body]
pub(crate) fn le_u32_bytes(v: u32) -> (out: [u8; 4])
    ensures
        out@ == u32_to_le(v),
{
    let mut out = [0u8; 4];
    byteorder::LittleEndian::write_u32(&mut out, v);
    out
}

/// `byteorder::LittleEndian::write_u64`, on a buffer of exactly eight bytes:
/// the bytes of `v`, least significant first.
#[verifier::external_body]
pub(crate) fn le_u64_bytes(v: u64) -> (out: [u8; 8])
    ensures
        out@ == u64_to_le(v),
{
    let mut out = [0u8; 8];
    byteorder::LittleEndian::write_u64(&mut out, v);
    out
}

/// Reading back the little-endian bytes of a 16-bit value gives the value.
pub proof fn lemma_u16_le_inverse(v: u16)
    ensures
        u16_to_le(v).len() == 2,
        u16_from_le(u16_to_le(v)) == v,
{
    reveal(u16_from_le);
    reveal(u16_to_le);
}

/// Reading back the big-endian bytes of a 16-bit value gives the value.
pub proof fn lemma_u16_be_inverse(v: u16)
    ensures
        u16_to_be(v).len() == 2,
        u16_from_be(u16_to_be(v)) == v,
{
    reveal(u16_from_be);
    reveal(u16_to_be);
}

/// Reading back the little-endian bytes of a 32-bit value gives the value.
pub proof fn lemma_u32_le_inverse(v: u32)
    ensures
        u32_to_le(v).len() == 4,
        u32_from_le(u32_to_le(v)) == v,
{
    reveal(u32_from_le);
    reveal(u32_to_le);
}

/// Reading back the little-endian bytes of a 64-bit value gives the value.
pub proof fn lemma_u64_le_inverse(v: u64)
    ensures
        u64_to_le(v).len() == 8,
        u64_from_le(u64_to_le(v)) == v,
{
    reveal(u64_from_le);
    reveal(u64_to_le);
    let lo = (v % 0x1_0000_0000) as u32;
    let hi = (v / 0x1_0000_0000) as u32;
    let b = u64_to_le(v);
    lemma_u32_le_inverse(lo);
    lemma_u32_le_inverse(hi);
    assert(b.subrange(0, 4) =~= u32_to_le(lo));
    assert(b.subrange(4, 8) =~= u32_to_le(hi));
}

} // verus!
