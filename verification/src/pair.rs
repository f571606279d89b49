//! Tagged pairs: a name reference with a kind tag and a value, the latter two
//! packed into one word.

use crate::codec::{Format, Readable, Sound, Writable};
use crate::error::DecodeError;
use crate::index::NameIndex;
use crate::reader::{lemma_take_u32_le, take_u32_le, Parsed, Reader};
use crate::wire::u32_to_le;
use crate::writer::put_u32_le;
use vstd::prelude::*;
use vstd::std_specs::convert::TryFromSpecImpl;

verus! {

/// The number of bits of a pair's word that hold its value.
pub const VALUE_BITS: u32 = 29;

/// The first value that does not fit into the value bits.
pub const VALUE_LIMIT: u32 = 0x2000_0000;

/// The kind of a tagged pair. The tag has three bits; seven of its eight
/// values name a kind.
#[derive(Debug, Clone, Copy, PartialEq, Eq, Structural)]
pub enum Type {
    AnsiString,
    WideString,
    NumberlessName,
    Name,
    NumberlessExportPath,
    ExportPath,
    LocalizedText,
}

impl Type {
    /// The tag of a kind.
    pub open spec fn spec_code(self) -> u32 {
        match self {
            Type::AnsiString => 0,
            Type::WideString => 1,
            Type::NumberlessName => 2,
            Type::Name => 3,
            Type::NumberlessExportPath => 4,
            Type::ExportPath => 5,
            Type::LocalizedText => 6,
        }
    }

    /// The kind of a tag, where it names one.
    pub open spec fn of_code(tag: u32) -> Result<Type, DecodeError> {
        if tag == 0 {
            Ok(Type::AnsiString)
        } else if tag == 1 {
            Ok(Type::WideString)
        } else if tag == 2 {
            Ok(Type::NumberlessName)
        } else if tag == 3 {
            Ok(Type::Name)
        } else if tag == 4 {
            Ok(Type::NumberlessExportPath)
        } else if tag == 5 {
            Ok(Type::ExportPath)
        } else if tag == 6 {
            Ok(Type::LocalizedText)
        } else {
            Err(DecodeError::InvalidTag { tag })
        }
    }

    /// The tag of a kind.
    #[verifier::when_used_as_spec(spec_code)]
    pub fn code(self) -> (tag: u32)
        ensures
            tag == self.spec_code(),
            tag <= 6,
    {
        match self {
            Type::AnsiString => 0,
            Type::WideString => 1,
            Type::NumberlessName => 2,
            Type::Name => 3,
            Type::NumberlessExportPath => 4,
            Type::ExportPath => 5,
            Type::LocalizedText => 6,
        }
    }

    /// A kind is found again from its tag.
    pub proof fn lemma_code_inverse(self)
        ensures
            Type::of_code(self.spec_code()) == Ok::<Type, DecodeError>(self),
    {
    }

    /// A tag is accepted exactly when it is at most 6, and an accepted tag is
    /// the tag of the kind it gives.
    pub proof fn lemma_of_code(tag: u32)
        ensures
            Type::of_code(tag) is Ok <==> tag <= 6,
            Type::of_code(tag) matches Ok(t) ==> t.spec_code() == tag,
            tag > 6 ==> Type::of_code(tag) == Err::<Type, DecodeError>(
                DecodeError::InvalidTag { tag },
            ),
    {
    }
}

impl TryFrom<u32> for Type {
    type Error = DecodeError;

    fn try_from(v: u32) -> (res: Result<Type, DecodeError>) {
        match v {
            0 => Ok(Type::AnsiString),
            1 => Ok(Type::WideString),
            2 => Ok(Type::NumberlessName),
            3 => Ok(Type::Name),
            4 => Ok(Type::NumberlessExportPath),
            5 => Ok(Type::ExportPath),
            6 => Ok(Type::LocalizedText),
            _ => Err(DecodeError::InvalidTag { tag: v }),
        }
    }
}

impl TryFromSpecImpl<u32> for Type {
    open spec fn obeys_try_from_spec() -> bool {
        true
    }

    open spec fn try_from_spec(v: u32) -> Result<Type, DecodeError> {
        Type::of_code(v)
    }
}

/// The word of a pair: the tag in the top three bits, the value below it. A
/// value of more than 29 bits runs into the tag.
pub open spec fn pair_word(tag: u32, index: u32) -> u32 {
    (tag << VALUE_BITS) | index
}

/// A word packed from a tag of three bits and a value of 29 bits gives both
/// back.
pub proof fn lemma_pair_word(tag: u32, index: u32)
    requires
        tag <= 7,
        index < VALUE_LIMIT,
    ensures
        pair_word(tag, index) / VALUE_LIMIT == tag,
        pair_word(tag, index) % VALUE_LIMIT == index,
{
    assert(tag <= 7 && index < 0x2000_0000 ==> ((tag << 29u32) | index) / 0x2000_0000 == tag && ((
    tag << 29u32) | index) % 0x2000_0000 == index) by (bit_vector);
}

/// A name reference, a kind and a 29-bit value.
#[derive(Debug, Clone, Copy, PartialEq, Eq, Structural)]
pub struct Pair {
    pub name: NameIndex,
    pub type_: Type,
    pub index: u32,
}

impl View for Pair {
    type V = Pair;

    open spec fn view(&self) -> Pair {
        *self
    }
}

impl Readable for Pair {
    open spec fn parse(input: Seq<u8>) -> Parsed<Pair> {
        match NameIndex::parse(input) {
            Err(e) => Err(e),
            Ok((name, rest)) => match take_u32_le(rest) {
                Err(e) => Err(e),
                Ok((w, rest2)) => match Type::of_code(w / VALUE_LIMIT) {
                    Err(e) => Err(e),
                    Ok(type_) => Ok((Pair { name, type_, index: w % VALUE_LIMIT }, rest2)),
                },
            },
        }
    }

    fn read(reader: &mut Reader<'_>) -> (res: Result<Self, DecodeError>) {
        let name = NameIndex::read(reader)?;
        let n = reader.read_u32_le()?;
        assert(n >> 29u32 == n / 0x2000_0000) by (bit_vector);
        assert((n << 3u32) >> 3u32 == n % 0x2000_0000) by (bit_vector);
        let type_ = match Type::try_from(n >> VALUE_BITS) {
            Ok(t) => t,
            Err(e) => {
                return Err(e);
            },
        };
        let index = (n << 3) >> 3;
        Ok(Pair { name, type_, index })
    }
}

impl Writable for Pair {
    open spec fn encoding(v: Pair) -> Seq<u8> {
        NameIndex::encoding(v.name) + u32_to_le(pair_word(v.type_.spec_code(), v.index))
    }

    fn write(&self, writer: &mut Vec<u8>) {
        self.name.write(writer);
        let ghost mid = writer@;
        put_u32_le(writer, (self.type_.code() << VALUE_BITS) | self.index);
        assert(mid + u32_to_le(pair_word(self.type_.spec_code(), self.index)) =~= old(writer)@
            + Self::encoding(*self));
    }
}

impl Format for Pair {
    /// A pair fits when its name fits and its value can be said in 29 bits.
    open spec fn fits(v: Pair) -> bool {
        NameIndex::fits(v.name) && v.index < VALUE_LIMIT
    }

    proof fn lemma_round_trip(v: Pair, rest: Seq<u8>) {
        let w = pair_word(v.type_.spec_code(), v.index);
        let tail = u32_to_le(w) + rest;
        assert(Self::encoding(v) + rest =~= NameIndex::encoding(v.name) + tail);
        NameIndex::lemma_round_trip(v.name, tail);
        lemma_take_u32_le(w, rest);
        lemma_pair_word(v.type_.spec_code(), v.index);
        v.type_.lemma_code_inverse();
    }
}

impl Sound for Pair {
    proof fn lemma_parsed_fits(input: Seq<u8>) {
        NameIndex::lemma_parsed_fits(input);
    }
}

} // verus!
