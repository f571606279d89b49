//! References into the name table.

use crate::codec::{Format, Readable, Sound, Writable};
use crate::error::DecodeError;
use crate::reader::{lemma_take_u32_le, take_u32_le, Parsed, Reader};
use crate::wire::{lemma_low32_small, low32, low32_of, u32_to_le};
use crate::writer::put_u32_le;
use vstd::prelude::*;

verus! {

/// The bit of a flagged index's word that announces an associated word.
pub const FLAG_BIT: u32 = 0x8000_0000;

/// The word of a flagged index that has an associated word: its low 31 bits
/// with the top bit set.
pub open spec fn flagged_word(n: usize) -> u32 {
    (n as int % 0x8000_0000 + 0x8000_0000) as u32
}

/// Setting the top bit of an index word keeps its low 31 bits.
proof fn lemma_flagged_word(n: usize)
    ensures
        low32(n as int) | FLAG_BIT == flagged_word(n),
{
    reveal(low32);
    let w = low32(n as int);
    let m = n as u64;
    assert(w | 0x8000_0000 == w % 0x8000_0000 + 0x8000_0000) by (bit_vector);
    assert((m % 0x1_0000_0000) % 0x8000_0000 == m % 0x8000_0000) by (bit_vector);
}

/// A reference into the name table: one little-endian 32-bit word.
#[derive(Debug, Clone, Copy, PartialEq, Eq, Structural)]
pub struct NameIndex(pub usize);

impl View for NameIndex {
    type V = NameIndex;

    open spec fn view(&self) -> NameIndex {
        *self
    }
}

impl Readable for NameIndex {
    open spec fn parse(input: Seq<u8>) -> Parsed<NameIndex> {
        match take_u32_le(input) {
            Ok((w, rest)) => Ok((NameIndex(w as usize), rest)),
            Err(e) => Err(e),
        }
    }

    fn read(reader: &mut Reader<'_>) -> (res: Result<Self, DecodeError>) {
        let w = reader.read_u32_le()?;
        Ok(NameIndex(w as usize))
    }
}

impl Writable for NameIndex {
    open spec fn encoding(v: NameIndex) -> Seq<u8> {
        u32_to_le(low32(v.0 as int))
    }

    fn write(&self, writer: &mut Vec<u8>) {
        put_u32_le(writer, low32_of(self.0));
    }
}

impl Format for NameIndex {
    /// An index fits when it can be said in 32 bits.
    open spec fn fits(v: NameIndex) -> bool {
        v.0 <= u32::MAX
    }

    proof fn lemma_round_trip(v: NameIndex, rest: Seq<u8>) {
        lemma_low32_small(v.0 as int);
        lemma_take_u32_le(low32(v.0 as int), rest);
    }
}

impl Sound for NameIndex {
    proof fn lemma_parsed_fits(input: Seq<u8>) {
    }
}

/// A reference into the name table that may carry one associated 32-bit
/// word. On the wire the top bit of the index word says whether that word
/// follows; it is no part of the index, which has 31 bits.
#[derive(Debug, Clone, Copy, PartialEq, Eq, Structural)]
pub struct NameIndexFlagged(pub usize, pub Option<u32>);

impl View for NameIndexFlagged {
    type V = NameIndexFlagged;

    open spec fn view(&self) -> NameIndexFlagged {
        *self
    }
}

impl Readable for NameIndexFlagged {
    open spec fn parse(input: Seq<u8>) -> Parsed<NameIndexFlagged> {
        match take_u32_le(input) {
            Err(e) => Err(e),
            Ok((w, rest)) => if w >= FLAG_BIT {
                match take_u32_le(rest) {
                    Err(e) => Err(e),
                    Ok((extra, rest2)) => Ok(
                        (NameIndexFlagged((w - FLAG_BIT) as usize, Some(extra)), rest2),
                    ),
                }
            } else {
                Ok((NameIndexFlagged(w as usize, None), rest))
            },
        }
    }

    fn read(reader: &mut Reader<'_>) -> (res: Result<Self, DecodeError>) {
        let n = reader.read_u32_le()?;
        assert((n & 0x8000_0000 != 0) <==> n >= 0x8000_0000) by (bit_vector);
        if n & FLAG_BIT != 0 {
            let extra = reader.read_u32_le()?;
            assert(n >= 0x8000_0000 ==> (n << 1u32) >> 1u32 == n - 0x8000_0000) by (bit_vector);
            Ok(NameIndexFlagged(((n << 1) >> 1) as usize, Some(extra)))
        } else {
            Ok(NameIndexFlagged(n as usize, None))
        }
    }
}

impl Writable for NameIndexFlagged {
    open spec fn encoding(v: NameIndexFlagged) -> Seq<u8> {
        match v.1 {
            Some(extra) => u32_to_le(flagged_word(v.0)) + u32_to_le(extra),
            None => u32_to_le(low32(v.0 as int)),
        }
    }

    fn write(&self, writer: &mut Vec<u8>) {
        let w = low32_of(self.0);
        match self.1 {
            Some(extra) => {
                proof {
                    lemma_flagged_word(self.0);
                }
                put_u32_le(writer, w | FLAG_BIT);
                let ghost mid = writer@;
                put_u32_le(writer, extra);
                assert(mid + u32_to_le(extra) =~= old(writer)@ + (u32_to_le(flagged_word(self.0))
                    + u32_to_le(extra)));
            },
            None => {
                put_u32_le(writer, w);
            },
        }
    }
}

impl Format for NameIndexFlagged {
    /// An index fits when it can be said in the 31 bits below the flag.
    open spec fn fits(v: NameIndexFlagged) -> bool {
        v.0 < FLAG_BIT
    }

    proof fn lemma_round_trip(v: NameIndexFlagged, rest: Seq<u8>) {
        match v.1 {
            Some(extra) => {
                let tail = u32_to_le(extra) + rest;
                assert(Self::encoding(v) + rest =~= u32_to_le(flagged_word(v.0)) + tail);
                lemma_take_u32_le(flagged_word(v.0), tail);
                lemma_take_u32_le(extra, rest);
            },
            None => {
                lemma_low32_small(v.0 as int);
                lemma_take_u32_le(low32(v.0 as int), rest);
            },
        }
    }
}

impl Sound for NameIndexFlagged {
    proof fn lemma_parsed_fits(input: Seq<u8>) {
    }
}

} // verus!
