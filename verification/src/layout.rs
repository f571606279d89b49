//! The fixed blocks of the registry's layout: the scalars behind the version
//! stamp, the block of table sizes, and the two sentinels.
//!
//! Tables carry no counts of their own. Every count but one stands in one of
//! these two blocks, ahead of the tables that it sizes.

use crate::codec::{
    array_encoding, lemma_array_round_trip, lemma_parse_array_len, parse_array, read_array, views,
    write_array, Format, Readable, Standard, Writable,
};
use crate::error::{DecodeError, Sentinel};
use crate::reader::{
    lemma_take_u16_le, lemma_take_u32_le, take_u16_le, take_u32_le, Parsed, Reader,
};
use crate::wire::{u16_to_le, u32_to_le};
use crate::writer::{put_u16_le, put_u32_le};
use vstd::prelude::*;

verus! {

/// The scalars between the version stamp and the name table. Only the number
/// of names is understood; the others are kept as they are.
#[derive(Debug, Clone, Copy, PartialEq, Eq, Structural)]
pub struct Preamble {
    pub unknown1: u32,
    pub name_count: u32,
    pub unknown2: u32,
    pub unknown3: u16,
    pub unknown4: u16,
    pub unknown5: u32,
}

impl View for Preamble {
    type V = Preamble;

    open spec fn view(&self) -> Preamble {
        *self
    }
}

impl Readable for Preamble {
    open spec fn parse(input: Seq<u8>) -> Parsed<Preamble> {
        match take_u32_le(input) {
            Err(e) => Err(e),
            Ok((unknown1, r1)) => match take_u32_le(r1) {
                Err(e) => Err(e),
                Ok((name_count, r2)) => match take_u32_le(r2) {
                    Err(e) => Err(e),
                    Ok((unknown2, r3)) => match take_u16_le(r3) {
                        Err(e) => Err(e),
                        Ok((unknown3, r4)) => match take_u16_le(r4) {
                            Err(e) => Err(e),
                            Ok((unknown4, r5)) => match take_u32_le(r5) {
                                Err(e) => Err(e),
                                Ok((unknown5, r6)) => Ok(
                                    (
                                        Preamble {
                                            unknown1,
                                            name_count,
                                            unknown2,
                                            unknown3,
                                            unknown4,
                                            unknown5,
                                        },
                                        r6,
                                    ),
                                ),
                            },
                        },
                    },
                },
            },
        }
    }

    fn read(reader: &mut Reader<'_>) -> (res: Result<Self, DecodeError>) {
        let unknown1 = reader.read_u32_le()?;
        let name_count = reader.read_u32_le()?;
        let unknown2 = reader.read_u32_le()?;
        let unknown3 = reader.read_u16_le()?;
        let unknown4 = reader.read_u16_le()?;
        let unknown5 = reader.read_u32_le()?;
        Ok(Preamble { unknown1, name_count, unknown2, unknown3, unknown4, unknown5 })
    }
}

impl Writable for Preamble {
    open spec fn encoding(v: Preamble) -> Seq<u8> {
        u32_to_le(v.unknown1) + u32_to_le(v.name_count) + u32_to_le(v.unknown2) + u16_to_le(
            v.unknown3,
        ) + u16_to_le(v.unknown4) + u32_to_le(v.unknown5)
    }

    fn write(&self, writer: &mut Vec<u8>) {
        put_u32_le(writer, self.unknown1);
        put_u32_le(writer, self.name_count);
        put_u32_le(writer, self.unknown2);
        put_u16_le(writer, self.unknown3);
        put_u16_le(writer, self.unknown4);
        put_u32_le(writer, self.unknown5);
        assert(writer@ =~= old(writer)@ + Self::encoding(*self));
    }
}

impl Format for Preamble {
    open spec fn fits(v: Preamble) -> bool {
        true
    }

    proof fn lemma_round_trip(v: Preamble, rest: Seq<u8>) {
        let t5 = u32_to_le(v.unknown5) + rest;
        let t4 = u16_to_le(v.unknown4) + t5;
        let t3 = u16_to_le(v.unknown3) + t4;
        let t2 = u32_to_le(v.unknown2) + t3;
        let t1 = u32_to_le(v.name_count) + t2;
        assert(Self::encoding(v) + rest =~= u32_to_le(v.unknown1) + t1);
        lemma_take_u32_le(v.unknown1, t1);
        lemma_take_u32_le(v.name_count, t2);
        lemma_take_u32_le(v.unknown2, t3);
        lemma_take_u16_le(v.unknown3, t4);
        lemma_take_u16_le(v.unknown4, t5);
        lemma_take_u32_le(v.unknown5, rest);
    }
}

/// A word that must hold a sentinel's value.
pub open spec fn parse_sentinel(input: Seq<u8>, which: Sentinel) -> Parsed<u32> {
    match take_u32_le(input) {
        Err(e) => Err(e),
        Ok((found, rest)) => if found == which.spec_value() {
            Ok((found, rest))
        } else {
            Err(DecodeError::SentinelMismatch { which, expected: which.spec_value(), found })
        },
    }
}

/// Decodes a word and holds it against a sentinel's value.
pub fn read_sentinel(reader: &mut Reader<'_>, which: Sentinel) -> (res: Result<u32, DecodeError>)
    ensures
        match parse_sentinel(old(reader)@, which) {
            Ok((v, rest)) => res == Ok::<u32, DecodeError>(v) && final(reader)@ == rest,
            Err(e) => res == Err::<u32, DecodeError>(e),
        },
{
    let found = reader.read_u32_le()?;
    let expected = which.value();
    if found == expected {
        Ok(found)
    } else {
        Err(DecodeError::SentinelMismatch { which, expected, found })
    }
}

/// A sentinel's own value passes the check.
pub proof fn lemma_sentinel_round_trip(which: Sentinel, rest: Seq<u8>)
    ensures
        parse_sentinel(u32_to_le(which.spec_value()) + rest, which) == Ok::<
            (u32, Seq<u8>),
            DecodeError,
        >((which.spec_value(), rest)),
{
    lemma_take_u32_le(which.spec_value(), rest);
}

/// Any other word at a sentinel's position fails the decode, and the error
/// names the sentinel and the word.
pub proof fn lemma_sentinel_mismatch(which: Sentinel, found: u32, rest: Seq<u8>)
    requires
        found != which.spec_value(),
    ensures
        parse_sentinel(u32_to_le(found) + rest, which) == Err::<(u32, Seq<u8>), DecodeError>(
            DecodeError::SentinelMismatch { which, expected: which.spec_value(), found },
        ),
{
    lemma_take_u32_le(found, rest);
}

/// The block of table sizes behind the start sentinel, in the order of the
/// wire. Four of its words are not understood and are kept as they are.
#[derive(Debug, Clone, Copy, PartialEq, Eq, Structural)]
pub struct TableSizes {
    /// The number of numberless names.
    pub numberless_names: u32,
    /// The number of entries of the second table of flagged indices.
    pub names_idk: u32,
    /// The number of asset records.
    pub assets: u32,
    /// The number of export-path records.
    pub export_paths: u32,
    /// The number of texts.
    pub texts: u32,
    /// The number of byte strings.
    pub ansi_strings: u32,
    /// The number of wide strings.
    pub wide_strings: u32,
    pub unknown7: u32,
    pub unknown8: u32,
    /// The number of tagged pairs.
    pub pairs: u32,
    pub unknown9: u32,
    pub unknown10: u32,
}

impl View for TableSizes {
    type V = TableSizes;

    open spec fn view(&self) -> TableSizes {
        *self
    }
}

impl TableSizes {
    /// The twelve words of the block, in the order of the wire.
    pub open spec fn words(self) -> Seq<u32> {
        seq![
            self.numberless_names,
            self.names_idk,
            self.assets,
            self.export_paths,
            self.texts,
            self.ansi_strings,
            self.wide_strings,
            self.unknown7,
            self.unknown8,
            self.pairs,
            self.unknown9,
            self.unknown10,
        ]
    }

    /// The block that twelve words make.
    pub open spec fn of_words(w: Seq<u32>) -> TableSizes {
        TableSizes {
            numberless_names: w[0],
            names_idk: w[1],
            assets: w[2],
            export_paths: w[3],
            texts: w[4],
            ansi_strings: w[5],
            wide_strings: w[6],
            unknown7: w[7],
            unknown8: w[8],
            pairs: w[9],
            unknown9: w[10],
            unknown10: w[11],
        }
    }
}

impl Readable for TableSizes {
    open spec fn parse(input: Seq<u8>) -> Parsed<TableSizes> {
        match parse_array::<u32, Standard>(input, 12) {
            Err(e) => Err(e),
            Ok((w, rest)) => Ok((TableSizes::of_words(w), rest)),
        }
    }

    fn read(reader: &mut Reader<'_>) -> (res: Result<Self, DecodeError>) {
        let w = read_array::<u32, Standard>(12, reader)?;
        proof {
            lemma_parse_array_len::<u32, Standard>(old(reader)@, 12);
            assert(views(w@) =~= w@);
        }
        Ok(
            TableSizes {
                numberless_names: w[0],
                names_idk: w[1],
                assets: w[2],
                export_paths: w[3],
                texts: w[4],
                ansi_strings: w[5],
                wide_strings: w[6],
                unknown7: w[7],
                unknown8: w[8],
                pairs: w[9],
                unknown9: w[10],
                unknown10: w[11],
            },
        )
    }
}

impl Writable for TableSizes {
    open spec fn encoding(v: TableSizes) -> Seq<u8> {
        array_encoding::<u32, Standard>(v.words())
    }

    fn write(&self, writer: &mut Vec<u8>) {
        let w = vec![
            self.numberless_names,
            self.names_idk,
            self.assets,
            self.export_paths,
            self.texts,
            self.ansi_strings,
            self.wide_strings,
            self.unknown7,
            self.unknown8,
            self.pairs,
            self.unknown9,
            self.unknown10,
        ];
        assert(views(w@) =~= self.words());
        write_array::<u32, Standard>(writer, &w);
    }
}

impl Format for TableSizes {
    open spec fn fits(v: TableSizes) -> bool {
        true
    }

    proof fn lemma_round_trip(v: TableSizes, rest: Seq<u8>) {
        lemma_array_round_trip::<u32, Standard>(v.words(), rest);
    }
}

} // verus!
