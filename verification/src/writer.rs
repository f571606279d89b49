//! Appending encoded values to an output buffer.

use crate::wire::{
    be_u16_bytes, le_u16_bytes, le_u32_bytes, le_u64_bytes, u16_to_be, u16_to_le, u32_to_le,
    u64_to_le,
};
use vstd::prelude::*;

verus! {

/// Appends raw bytes.
pub fn put_bytes(out: &mut Vec<u8>, bytes: &[u8])
    ensures
        final(out)@ == old(out)@ + bytes@,
{
    out.extend_from_slice(bytes);
    assert(out@ =~= old(out)@ + bytes@);
}

/// Appends one byte.
pub fn put_u8(out: &mut Vec<u8>, v: u8)
    ensures
        final(out)@ == old(out)@ + seq![v],
{
    out.push(v);
    assert(out@ =~= old(out)@ + seq![v]);
}

/// Appends a 16-bit value, least significant byte first.
pub fn put_u16_le(out: &mut Vec<u8>, v: u16)
    ensures
        final(out)@ == old(out)@ + u16_to_le(v),
{
    let b = le_u16_bytes(v);
    put_bytes(out, b.as_slice());
}

/// Appends a 16-bit value, most significant byte first.
pub fn put_u16_be(out: &mut Vec<u8>, v: u16)
    ensures
        final(out)@ == old(out)@ + u16_to_be(v),
{
    let b = be_u16_bytes(v);
    put_bytes(out, b.as_slice());
}

/// Appends a 32-bit value, least significant byte first.
pub fn put_u32_le(out: &mut Vec<u8>, v: u32)
    ensures
        final(out)@ == old(out)@ + u32_to_le(v),
{
    let b = le_u32_bytes(v);
    put_bytes(out, b.as_slice());
}

/// Appends a 64-bit value, least significant byte first.
pub fn put_u64_le(out: &mut Vec<u8>, v: u64)
    ensures
        final(out)@ == old(out)@ + u64_to_le(v),
{
    let b = le_u64_bytes(v);
    put_bytes(out, b.as_slice());
}

} // verus!
