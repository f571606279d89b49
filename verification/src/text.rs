//! The string encodings of the registry.
//!
//! Names are UTF-8 bytes whose lengths stand in a table of their own. Texts
//! carry a length in front. The two kinds of terminated strings end in a zero
//! unit: bytes for the one, 16-bit code units for the other. Decoding never
//! fails on what the bytes hold: what is not valid is replaced.

use crate::codec::{array_encoding, views, Format, Readable, Sound, Writable};
use crate::error::DecodeError;
use crate::reader::{
    lemma_take_bytes, lemma_take_u16_le, lemma_take_u32_le, lemma_take_u8, lemma_take_until_nul,
    take_bytes, take_u16_le, take_u32_le, take_u8, take_until_nul, Parsed, Reader,
};
use crate::scalar::BigEndian;
use crate::wire::{
    lemma_low16_small, lemma_low32_small, low16, low16_of, low32, low32_of, u16_to_be, u16_to_le,
    u32_to_le,
};
use crate::writer::{put_bytes, put_u16_be, put_u16_le, put_u32_le, put_u8};
use vstd::prelude::*;
use vstd::utf8::{
    decode_utf8, encode_scalar, encode_utf8, is_scalar, last_continuation_byte,
    leading_byte_width_1, leading_byte_width_2, leading_byte_width_3, leading_byte_width_4,
    second_last_continuation_byte, third_last_continuation_byte, valid_utf8,
};

verus! {

/// What `String::from_utf8_lossy` makes of a byte sequence.
pub uninterp spec fn utf8_lossy(bytes: Seq<u8>) -> Seq<char>;

/// `String::from_utf8_lossy`, made an owned string: the characters depend on
/// the bytes alone, and bytes that are valid UTF-8 give the characters they
/// encode. What replaces invalid bytes is left to the outside function.
#[verifier::external_body]
pub(crate) fn string_from_utf8_lossy(bytes: &[u8]) -> (s: String)
    ensures
        s@ == utf8_lossy(bytes@),
        valid_utf8(bytes@) ==> s@ == decode_utf8(bytes@),
{
    String::from_utf8_lossy(bytes).into_owned()
}

/// The characters that a payload decodes to: those it encodes where it is
/// valid UTF-8, and a lossy reading of it where it is not.
pub open spec fn text_of(bytes: Seq<u8>) -> Seq<char> {
    if valid_utf8(bytes) {
        decode_utf8(bytes)
    } else {
        utf8_lossy(bytes)
    }
}

/// Decodes a payload, replacing what is not valid UTF-8.
pub fn decode_text(bytes: &[u8]) -> (s: String)
    ensures
        s@ == text_of(bytes@),
{
    string_from_utf8_lossy(bytes)
}

/// The bytes of a string decode to the string.
pub proof fn lemma_text_of_bytes(chars: Seq<char>)
    ensures
        text_of(encode_utf8(chars)) == chars,
{
    vstd::utf8::encode_utf8_valid_utf8(chars);
    vstd::utf8::encode_utf8_decode_utf8(chars);
}

/// A payload that is valid UTF-8 is the bytes of the string it decodes to:
/// nothing of it is replaced.
pub proof fn lemma_valid_payload_kept(payload: Seq<u8>)
    requires
        valid_utf8(payload),
    ensures
        encode_utf8(text_of(payload)) == payload,
{
    vstd::utf8::decode_utf8_encode_utf8(payload);
}

/// The encoding of a text: a little-endian 32-bit length, which counts the
/// payload and its terminator, the payload, and a zero byte. A length of zero
/// leaves no room for the terminator: such an input is cut short. The byte
/// in the place of the terminator is passed over, whatever it is.
pub struct Text;

impl Readable<Text> for String {
    open spec fn parse(input: Seq<u8>) -> Parsed<Seq<char>> {
        match take_u32_le(input) {
            Err(e) => Err(e),
            Ok((declared, r1)) => if declared == 0 {
                Err(DecodeError::IoTruncated)
            } else {
                match take_bytes(r1, (declared - 1) as nat) {
                    Err(e) => Err(e),
                    Ok((payload, r2)) => match take_u8(r2) {
                        Err(e) => Err(e),
                        Ok((_, r3)) => Ok((text_of(payload), r3)),
                    },
                }
            },
        }
    }

    fn read(reader: &mut Reader<'_>) -> (res: Result<Self, DecodeError>) {
        let declared = reader.read_u32_le()?;
        if declared == 0 {
            return Err(DecodeError::IoTruncated);
        }
        let payload = reader.read_bytes((declared - 1) as usize)?;
        let _terminator = reader.read_u8()?;
        Ok(decode_text(payload))
    }
}

impl Writable<Text> for String {
    open spec fn encoding(v: Seq<char>) -> Seq<u8> {
        let payload = encode_utf8(v);
        u32_to_le(low32(payload.len() as int + 1)) + payload + seq![0u8]
    }

    fn write(&self, writer: &mut Vec<u8>) {
        let payload = self.as_str().as_bytes();
        let declared = low32_of(payload.len()).wrapping_add(1);
        assert(declared == low32(payload@.len() as int + 1)) by {
            reveal(low32);
        }
        put_u32_le(writer, declared);
        put_bytes(writer, payload);
        put_u8(writer, 0);
        assert(writer@ =~= old(writer)@ + <String as Writable<Text>>::encoding(self@));
    }
}

impl Format<Text> for String {
    /// A text fits when the number of its bytes and its terminator can be
    /// said in 32 bits.
    open spec fn fits(v: Seq<char>) -> bool {
        encode_utf8(v).len() < u32::MAX
    }

    proof fn lemma_round_trip(v: Seq<char>, rest: Seq<u8>) {
        let payload = encode_utf8(v);
        let t2 = seq![0u8] + rest;
        let t1 = payload + t2;
        let declared = low32(payload.len() as int + 1);
        lemma_low32_small(payload.len() as int + 1);
        assert(<String as Writable<Text>>::encoding(v) + rest =~= u32_to_le(declared) + t1);
        lemma_take_u32_le(declared, t1);
        assert(take_bytes(t1, (declared - 1) as nat) == Ok::<(Seq<u8>, Seq<u8>), DecodeError>(
            (payload, t2),
        )) by {
            lemma_take_bytes(payload, t2);
        }
        assert(take_u8(t2) == Ok::<(u8, Seq<u8>), DecodeError>((0u8, rest))) by {
            lemma_take_u8(0u8, rest);
        }
        lemma_text_of_bytes(v);
    }
}

/// The encoding of a byte string that ends in a zero byte.
pub struct Ansi;

impl Readable<Ansi> for String {
    open spec fn parse(input: Seq<u8>) -> Parsed<Seq<char>> {
        match take_until_nul(input) {
            Err(e) => Err(e),
            Ok((payload, rest)) => Ok((text_of(payload), rest)),
        }
    }

    fn read(reader: &mut Reader<'_>) -> (res: Result<Self, DecodeError>) {
        let payload = reader.read_until_nul()?;
        Ok(decode_text(payload))
    }
}

impl Writable<Ansi> for String {
    open spec fn encoding(v: Seq<char>) -> Seq<u8> {
        encode_utf8(v) + seq![0u8]
    }

    fn write(&self, writer: &mut Vec<u8>) {
        put_bytes(writer, self.as_str().as_bytes());
        put_u8(writer, 0);
        assert(writer@ =~= old(writer)@ + <String as Writable<Ansi>>::encoding(self@));
    }
}

impl Format<Ansi> for String {
    /// A string fits when none of its characters is NUL: then none of its
    /// bytes is the terminator.
    open spec fn fits(v: Seq<char>) -> bool {
        !v.contains('\0')
    }

    proof fn lemma_round_trip(v: Seq<char>, rest: Seq<u8>) {
        let payload = encode_utf8(v);
        assert(<String as Writable<Ansi>>::encoding(v) + rest =~= payload + seq![0u8] + rest);
        lemma_zero_byte_is_nul(v);
        lemma_take_until_nul(payload, rest);
        lemma_text_of_bytes(v);
    }
}

/// No byte of the UTF-8 encoding of a scalar value is zero, but the one byte
/// of the value zero.
proof fn lemma_utf8_bytes_nonzero(s: u32)
    by (bit_vector)
    ensures
        0 < s <= 0x7F ==> leading_byte_width_1(s) != 0,
        s == 0 ==> leading_byte_width_1(s) == 0,
        leading_byte_width_2(s) != 0,
        leading_byte_width_3(s) != 0,
        leading_byte_width_4(s) != 0,
        last_continuation_byte(s) != 0,
        second_last_continuation_byte(s) != 0,
        third_last_continuation_byte(s) != 0,
{
}

/// The bytes of a string hold a zero exactly where the string holds the
/// character NUL.
pub proof fn lemma_zero_byte_is_nul(chars: Seq<char>)
    ensures
        encode_utf8(chars).contains(0u8) <==> chars.contains('\0'),
    decreases chars.len(),
{
    if chars.len() == 0 {
        assert(!encode_utf8(chars).contains(0u8));
        assert(!chars.contains('\0'));
    } else {
        let head = encode_scalar(chars[0] as u32);
        let tail = chars.drop_first();
        let bytes = encode_utf8(chars);
        lemma_utf8_bytes_nonzero(chars[0] as u32);
        lemma_zero_byte_is_nul(tail);
        assert(head.contains(0u8) <==> chars[0] == '\0') by {
            let s = chars[0] as u32;
            vstd::utf8::char_is_scalar(chars[0]);
            assert(chars[0] == '\0' <==> s == 0) by {
                vstd::utf8::char_u32_cast(chars[0], s);
                vstd::utf8::char_u32_cast('\0', 0u32);
            }
            if s == 0 {
                assert(head[0] == 0u8);
            }
            if head.contains(0u8) {
                let i = choose|i: int| 0 <= i < head.len() && head[i] == 0u8;
                assert(head[i] == 0u8);
            }
        }
        if bytes.contains(0u8) {
            let i = choose|i: int| 0 <= i < bytes.len() && bytes[i] == 0u8;
            if i < head.len() {
                assert(head[i] == 0u8);
                assert(chars[0] == '\0');
            } else {
                assert(encode_utf8(tail)[i - head.len()] == 0u8);
                let j = choose|j: int| 0 <= j < tail.len() && tail[j] == '\0';
                assert(chars[j + 1] == '\0');
            }
        }
        if chars.contains('\0') {
            let j = choose|j: int| 0 <= j < chars.len() && chars[j] == '\0';
            if j == 0 {
                assert(bytes[0] == head[0]);
            } else {
                assert(tail[j - 1] == '\0');
                let i = choose|i: int|
                    0 <= i < encode_utf8(tail).len() && encode_utf8(tail)[i] == 0u8;
                assert(bytes[head.len() + i] == 0u8);
            }
        }
    }
}

/// The character that stands in for a code unit that is none.
pub const REPLACEMENT: char = '\u{FFFD}';

/// `char::from_u32`: the character with the given scalar value, where there
/// is one.
pub assume_specification[ char::from_u32 ](i: u32) -> (c: Option<char>)
    ensures
        c == (if is_scalar(i) {
            Some(i as char)
        } else {
            None::<char>
        }),
;

/// `String::push`: the string with one character more at its end.
pub assume_specification[ String::push ](s: &mut String, c: char)
    ensures
        final(s)@ == old(s)@.push(c),
;

/// The character of a 16-bit code unit. There are no surrogate pairs: a unit
/// from the surrogate range is replaced.
pub open spec fn unit_char(unit: u16) -> char {
    if 0xD800 <= unit <= 0xDFFF {
        REPLACEMENT
    } else {
        unit as char
    }
}

/// The code unit of a character: its low 16 bits.
pub open spec fn char_unit(c: char) -> u16 {
    low16(c as u32 as int)
}

/// The character of a 16-bit code unit.
pub fn char_of_unit(unit: u16) -> (c: char)
    ensures
        c == unit_char(unit),
{
    match char::from_u32(unit as u32) {
        Some(c) => c,
        None => REPLACEMENT,
    }
}

/// The code unit of a character: its low 16 bits.
pub fn unit_of_char(c: char) -> (unit: u16)
    ensures
        unit == char_unit(c),
{
    reveal(low16);
    ((c as u32) % 0x1_0000) as u16
}

/// The encoding of a string of 16-bit code units, little-endian, that ends in
/// a zero unit.
pub struct Wide;

/// The characters of the code units in front of the first zero unit.
pub open spec fn parse_wide(input: Seq<u8>) -> Parsed<Seq<char>>
    decreases input.len(),
{
    match take_u16_le(input) {
        Err(e) => Err(e),
        Ok((unit, rest)) => if unit == 0 {
            Ok((Seq::empty(), rest))
        } else {
            proof {
                reveal(take_u16_le);
            }
            match parse_wide(rest) {
                Err(e) => Err(e),
                Ok((chars, rest2)) => Ok((seq![unit_char(unit)] + chars, rest2)),
            }
        },
    }
}

/// The code units of the characters, without a terminator.
pub open spec fn wide_units(chars: Seq<char>) -> Seq<u8>
    decreases chars.len(),
{
    if chars.len() == 0 {
        Seq::empty()
    } else {
        u16_to_le(char_unit(chars[0])) + wide_units(chars.drop_first())
    }
}

/// The code units of a string with one more character at its end.
pub proof fn lemma_wide_units_push(chars: Seq<char>, c: char)
    ensures
        wide_units(chars.push(c)) == wide_units(chars) + u16_to_le(char_unit(c)),
    decreases chars.len(),
{
    if chars.len() == 0 {
        assert(chars.push(c).drop_first() =~= Seq::<char>::empty());
        assert(wide_units(Seq::<char>::empty()) =~= Seq::<u8>::empty());
        assert(wide_units(chars.push(c)) =~= u16_to_le(char_unit(c)));
        assert(wide_units(chars) + u16_to_le(char_unit(c)) =~= u16_to_le(char_unit(c)));
    } else {
        assert(chars.push(c).drop_first() =~= chars.drop_first().push(c));
        lemma_wide_units_push(chars.drop_first(), c);
        assert(wide_units(chars.push(c)) =~= wide_units(chars) + u16_to_le(char_unit(c)));
    }
}

/// A character of the basic plane other than NUL is found again from its
/// code unit.
pub proof fn lemma_unit_char_inverse(c: char)
    requires
        0 < c as u32 <= 0xFFFF,
    ensures
        char_unit(c) != 0,
        unit_char(char_unit(c)) == c,
{
    vstd::utf8::char_is_scalar(c);
    lemma_low16_small(c as u32 as int);
    let unit = char_unit(c);
    assert(unit as u32 == c as u32);
    vstd::utf8::char_u32_cast(c, unit as u32);
}

impl Readable<Wide> for String {
    open spec fn parse(input: Seq<u8>) -> Parsed<Seq<char>> {
        parse_wide(input)
    }

    fn read(reader: &mut Reader<'_>) -> (res: Result<Self, DecodeError>) {
        let mut out = String::new();
        loop
            invariant
                match parse_wide(old(reader)@) {
                    Ok((chars, rest)) => parse_wide(reader@) matches Ok((more, rest2)) && rest2
                        == rest && out@ + more == chars,
                    Err(e) => parse_wide(reader@) == Err::<(Seq<char>, Seq<u8>), DecodeError>(e),
                },
            decreases reader@.len(),
        {
            let ghost before = out@;
            proof {
                reveal(take_u16_le);
            }
            let unit = reader.read_u16_le()?;
            if unit == 0 {
                assert(out@ + Seq::<char>::empty() =~= out@);
                return Ok(out);
            }
            out.push(char_of_unit(unit));
            proof {
                if let Ok((more, _)) = parse_wide(reader@) {
                    assert(before + (seq![unit_char(unit)] + more) =~= before.push(
                        unit_char(unit),
                    ) + more);
                }
            }
        }
    }
}

impl Writable<Wide> for String {
    open spec fn encoding(v: Seq<char>) -> Seq<u8> {
        wide_units(v) + u16_to_le(0)
    }

    fn write(&self, writer: &mut Vec<u8>) {
        assert(wide_units(Seq::<char>::empty()) =~= Seq::<u8>::empty());
        assert(writer@ =~= old(writer)@ + wide_units(self@.take(0)));
        broadcast use vstd::string::group_string_axioms;

        for c in it: self.as_str().chars()
            invariant
                it.seq() == self@,
                writer@ == old(writer)@ + wide_units(self@.take(it.index())),
        {
            let ghost done = self@.take(it.index());
            put_u16_le(writer, unit_of_char(c));
            proof {
                lemma_wide_units_push(done, c);
                assert(self@.take(it.index() + 1) =~= done.push(c));
                assert(writer@ =~= old(writer)@ + wide_units(self@.take(it.index() + 1)));
            }
        }
        assert(self@.take(self@.len() as int) =~= self@);
        put_u16_le(writer, 0);
        assert(writer@ =~= old(writer)@ + <String as Writable<Wide>>::encoding(self@));
    }
}

impl Format<Wide> for String {
    /// A string fits when each of its characters is one code unit other than
    /// the terminator: a character of the basic plane other than NUL.
    open spec fn fits(v: Seq<char>) -> bool {
        forall|i: int| 0 <= i < v.len() ==> 0 < (#[trigger] v[i]) as u32 <= 0xFFFF
    }

    proof fn lemma_round_trip(v: Seq<char>, rest: Seq<u8>)
        decreases v.len(),
    {
        if v.len() == 0 {
            assert(v =~= Seq::<char>::empty());
            assert(<String as Writable<Wide>>::encoding(v) + rest =~= u16_to_le(0) + rest);
            lemma_take_u16_le(0, rest);
            assert(parse_wide(u16_to_le(0) + rest) == Ok::<(Seq<char>, Seq<u8>), DecodeError>(
                (v, rest),
            ));
        } else {
            let tail = v.drop_first();
            let tail_bytes = <String as Writable<Wide>>::encoding(tail) + rest;
            assert(<String as Writable<Wide>>::encoding(v) + rest =~= u16_to_le(char_unit(v[0]))
                + tail_bytes);
            lemma_take_u16_le(char_unit(v[0]), tail_bytes);
            lemma_unit_char_inverse(v[0]);
            assert(<String as Format<Wide>>::fits(tail)) by {
                assert forall|i: int| 0 <= i < tail.len() implies 0 < (#[trigger] tail[i]) as u32
                    <= 0xFFFF by {
                    assert(tail[i] == v[i + 1]);
                }
            }
            <String as Format<Wide>>::lemma_round_trip(tail, rest);
            assert(parse_wide(tail_bytes) == Ok::<(Seq<char>, Seq<u8>), DecodeError>((tail, rest)));
            assert(seq![v[0]] + tail =~= v);
            assert(parse_wide(u16_to_le(char_unit(v[0])) + tail_bytes) == Ok::<
                (Seq<char>, Seq<u8>),
                DecodeError,
            >((v, rest)));
        }
    }
}

/// The character of a code unit other than zero is a character of the basic
/// plane other than NUL.
pub proof fn lemma_unit_char_range(unit: u16)
    requires
        unit != 0,
    ensures
        0 < unit_char(unit) as u32 <= 0xFFFF,
{
    if !(0xD800 <= unit <= 0xDFFF) {
        assert(is_scalar(unit as u32));
    }
}

impl Sound<Wide> for String {
    proof fn lemma_parsed_fits(input: Seq<u8>)
        decreases input.len(),
    {
        reveal(take_u16_le);
        if let Ok((unit, rest)) = take_u16_le(input) {
            if unit != 0 {
                <String as Sound<Wide>>::lemma_parsed_fits(rest);
                lemma_unit_char_range(unit);
                if let Ok((chars, _)) = parse_wide(rest) {
                    let all = seq![unit_char(unit)] + chars;
                    assert forall|i: int| 0 <= i < all.len() implies 0 < (#[trigger] all[i]) as u32
                        <= 0xFFFF by {
                        if i > 0 {
                            assert(all[i] == chars[i - 1]);
                        }
                    }
                }
            }
        }
    }
}

/// The entry of a name in the table of name lengths: the low 16 bits of the
/// number of its bytes, big-endian.
pub struct NameLength;

/// The payload of a name: its bytes, with nothing around them.
pub struct NamePayload;

impl Writable<NameLength> for String {
    open spec fn encoding(v: Seq<char>) -> Seq<u8> {
        u16_to_be(low16(encode_utf8(v).len() as int))
    }

    fn write(&self, writer: &mut Vec<u8>) {
        put_u16_be(writer, low16_of(self.as_str().as_bytes().len()));
    }
}

impl Writable<NamePayload> for String {
    open spec fn encoding(v: Seq<char>) -> Seq<u8> {
        encode_utf8(v)
    }

    fn write(&self, writer: &mut Vec<u8>) {
        put_bytes(writer, self.as_str().as_bytes());
    }
}

/// The payloads of names whose lengths are known, one after the other.
pub open spec fn parse_names(input: Seq<u8>, lengths: Seq<u16>) -> Parsed<Seq<Seq<char>>>
    decreases lengths.len(),
{
    if lengths.len() == 0 {
        Ok((Seq::empty(), input))
    } else {
        match take_bytes(input, lengths[0] as nat) {
            Err(e) => Err(e),
            Ok((payload, rest)) => match parse_names(rest, lengths.drop_first()) {
                Err(e) => Err(e),
                Ok((names, rest2)) => Ok((seq![text_of(payload)] + names, rest2)),
            },
        }
    }
}

/// As many names are decoded as there are lengths.
pub proof fn lemma_parse_names_len(input: Seq<u8>, lengths: Seq<u16>)
    ensures
        parse_names(input, lengths) matches Ok((names, _)) ==> names.len() == lengths.len(),
    decreases lengths.len(),
{
    if lengths.len() > 0 {
        if let Ok((_, rest)) = take_bytes(input, lengths[0] as nat) {
            lemma_parse_names_len(rest, lengths.drop_first());
        }
    }
}

/// The lengths that the names have in the table of name lengths.
pub open spec fn name_lengths(names: Seq<Seq<char>>) -> Seq<u16> {
    Seq::new(names.len(), |i: int| low16(encode_utf8(names[i]).len() as int))
}

/// Every name has at most 65535 bytes, so that its length fits its entry.
pub open spec fn names_fit(names: Seq<Seq<char>>) -> bool {
    forall|i: int| 0 <= i < names.len() ==> encode_utf8(#[trigger] names[i]).len() <= 0xFFFF
}

/// The table of name lengths is a table of big-endian 16-bit values.
pub proof fn lemma_name_length_table(names: Seq<Seq<char>>)
    ensures
        array_encoding::<String, NameLength>(names) == array_encoding::<u16, BigEndian>(
            name_lengths(names),
        ),
    decreases names.len(),
{
    if names.len() > 0 {
        lemma_name_length_table(names.drop_first());
        assert(name_lengths(names).drop_first() =~= name_lengths(names.drop_first()));
    }
}

/// The payloads of names that fit are read back by their lengths.
pub proof fn lemma_names_round_trip(names: Seq<Seq<char>>, rest: Seq<u8>)
    requires
        names_fit(names),
    ensures
        parse_names(
            array_encoding::<String, NamePayload>(names) + rest,
            name_lengths(names),
        ) == Ok::<(Seq<Seq<char>>, Seq<u8>), DecodeError>((names, rest)),
    decreases names.len(),
{
    if names.len() == 0 {
        assert(array_encoding::<String, NamePayload>(names) + rest =~= rest);
        assert(names =~= Seq::<Seq<char>>::empty());
    } else {
        let tail = names.drop_first();
        let payload = encode_utf8(names[0]);
        let tail_bytes = array_encoding::<String, NamePayload>(tail) + rest;
        assert(array_encoding::<String, NamePayload>(names) + rest =~= payload + tail_bytes);
        lemma_low16_small(payload.len() as int);
        lemma_take_bytes(payload, tail_bytes);
        lemma_text_of_bytes(names[0]);
        assert(name_lengths(names).drop_first() =~= name_lengths(tail));
        assert(names_fit(tail)) by {
            assert forall|i: int| 0 <= i < tail.len() implies encode_utf8(#[trigger] tail[i]).len()
                <= 0xFFFF by {
                assert(tail[i] == names[i + 1]);
            }
        }
        lemma_names_round_trip(tail, rest);
        assert(seq![names[0]] + tail =~= names);
    }
}

/// Decodes the payloads of the names whose lengths are given.
pub fn read_names(lengths: &Vec<u16>, reader: &mut Reader<'_>) -> (res: Result<
    Vec<String>,
    DecodeError,
>)
    ensures
        match parse_names(old(reader)@, lengths@) {
            Ok((names, rest)) => res is Ok && views(res->Ok_0@) == names && final(reader)@
                == rest,
            Err(e) => res == Err::<Vec<String>, DecodeError>(e),
        },
{
    let mut out: Vec<String> = Vec::new();
    let mut i: usize = 0;
    assert(lengths@.skip(0) =~= lengths@);
    while i < lengths.len()
        invariant
            i <= lengths@.len(),
            out@.len() == i,
            match parse_names(old(reader)@, lengths@) {
                Ok((names, rest)) => parse_names(reader@, lengths@.skip(i as int)) matches Ok(
                    (more, rest2),
                ) && rest2 == rest && views(out@) + more == names,
                Err(e) => parse_names(reader@, lengths@.skip(i as int)) == Err::<
                    (Seq<Seq<char>>, Seq<u8>),
                    DecodeError,
                >(e),
            },
        decreases lengths@.len() - i,
    {
        let ghost prev = out@;
        assert(lengths@.skip(i as int).drop_first() =~= lengths@.skip(i + 1));
        let payload = reader.read_bytes(lengths[i] as usize)?;
        let name = decode_text(payload);
        out.push(name);
        proof {
            assert(views(out@) =~= views(prev) + seq![name@]);
            if let Ok((more, _)) = parse_names(reader@, lengths@.skip(i + 1)) {
                assert(views(prev) + (seq![name@] + more) =~= (views(prev) + seq![name@]) + more);
            }
        }
        i = i + 1;
    }
    proof {
        assert(views(out@) + Seq::<Seq<char>>::empty() =~= views(out@));
    }
    Ok(out)
}

} // verus!
