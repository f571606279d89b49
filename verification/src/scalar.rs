//! The plain scalars of the format as table elements, and the version stamp.

use crate::codec::{Format, Readable, Sound, Writable};
use crate::error::DecodeError;
use crate::reader::{
    lemma_take_bytes, lemma_take_u16_be, lemma_take_u32_le, lemma_take_u64_le, take_bytes,
    take_u16_be, take_u32_le, take_u64_le, Parsed, Reader,
};
use crate::wire::{u16_to_be, u32_to_le, u64_to_le};
use crate::writer::{put_bytes, put_u16_be, put_u32_le, put_u64_le};
use vstd::prelude::*;

verus! {

/// The big-endian encoding, which only the lengths of the name table have.
pub struct BigEndian;

/// The version stamp: sixteen bytes that are stored and written back as they
/// are, and never interpreted.
pub type Guid = [u8; 16];

impl Readable for u32 {
    open spec fn parse(input: Seq<u8>) -> Parsed<u32> {
        take_u32_le(input)
    }

    fn read(reader: &mut Reader<'_>) -> (res: Result<Self, DecodeError>) {
        reader.read_u32_le()
    }
}

impl Writable for u32 {
    open spec fn encoding(v: u32) -> Seq<u8> {
        u32_to_le(v)
    }

    fn write(&self, writer: &mut Vec<u8>) {
        put_u32_le(writer, *self);
    }
}

impl Format for u32 {
    open spec fn fits(v: u32) -> bool {
        true
    }

    proof fn lemma_round_trip(v: u32, rest: Seq<u8>) {
        lemma_take_u32_le(v, rest);
    }
}

impl Sound for u32 {
    proof fn lemma_parsed_fits(input: Seq<u8>) {
    }
}

impl Readable for u64 {
    open spec fn parse(input: Seq<u8>) -> Parsed<u64> {
        take_u64_le(input)
    }

    fn read(reader: &mut Reader<'_>) -> (res: Result<Self, DecodeError>) {
        reader.read_u64_le()
    }
}

impl Writable for u64 {
    open spec fn encoding(v: u64) -> Seq<u8> {
        u64_to_le(v)
    }

    fn write(&self, writer: &mut Vec<u8>) {
        put_u64_le(writer, *self);
    }
}

impl Format for u64 {
    open spec fn fits(v: u64) -> bool {
        true
    }

    proof fn lemma_round_trip(v: u64, rest: Seq<u8>) {
        lemma_take_u64_le(v, rest);
    }
}

impl Sound for u64 {
    proof fn lemma_parsed_fits(input: Seq<u8>) {
    }
}

impl Readable<BigEndian> for u16 {
    open spec fn parse(input: Seq<u8>) -> Parsed<u16> {
        take_u16_be(input)
    }

    fn read(reader: &mut Reader<'_>) -> (res: Result<Self, DecodeError>) {
        reader.read_u16_be()
    }
}

impl Writable<BigEndian> for u16 {
    open spec fn encoding(v: u16) -> Seq<u8> {
        u16_to_be(v)
    }

    fn write(&self, writer: &mut Vec<u8>) {
        put_u16_be(writer, *self);
    }
}

impl Format<BigEndian> for u16 {
    open spec fn fits(v: u16) -> bool {
        true
    }

    proof fn lemma_round_trip(v: u16, rest: Seq<u8>) {
        lemma_take_u16_be(v, rest);
    }
}

impl Sound<BigEndian> for u16 {
    proof fn lemma_parsed_fits(input: Seq<u8>) {
    }
}

impl Readable for Guid {
    open spec fn parse(input: Seq<u8>) -> Parsed<Seq<u8>> {
        take_bytes(input, 16)
    }

    fn read(reader: &mut Reader<'_>) -> (res: Result<Self, DecodeError>) {
        let bytes = reader.read_bytes(16)?;
        let mut stamp = [0u8; 16];
        let mut i: usize = 0;
        while i < 16
            invariant
                i <= 16,
                bytes@.len() == 16,
                forall|j: int| 0 <= j < i ==> stamp@[j] == bytes@[j],
            decreases 16 - i,
        {
            stamp[i] = bytes[i];
            i = i + 1;
        }
        assert(stamp@ =~= bytes@);
        Ok(stamp)
    }
}

impl Writable for Guid {
    open spec fn encoding(v: Seq<u8>) -> Seq<u8> {
        v
    }

    fn write(&self, writer: &mut Vec<u8>) {
        put_bytes(writer, self.as_slice());
    }
}

impl Format for Guid {
    /// A stamp has sixteen bytes.
    open spec fn fits(v: Seq<u8>) -> bool {
        v.len() == 16
    }

    proof fn lemma_round_trip(v: Seq<u8>, rest: Seq<u8>) {
        lemma_take_bytes(v, rest);
    }
}

impl Sound for Guid {
    proof fn lemma_parsed_fits(input: Seq<u8>) {
    }
}

} // verus!
