//! The two traits of the codec, and the table combinator built on them.
//!
//! A table on the wire is a run of elements of one kind. It carries no count
//! of its own: the caller knows the count from a header field read earlier.

use crate::error::DecodeError;
use crate::reader::{lemma_take_u32_le, read_views, take_u32_le, Parsed, Reader};
use crate::wire::{lemma_low32_small, low32, low32_of, u32_to_le};
use crate::writer::put_u32_le;
use vstd::prelude::*;

verus! {

/// The encoding that a type has when the format gives it only one.
pub struct Standard;

/// A value that can be decoded from the encoding `F`.
pub trait Readable<F = Standard>: Sized + View {
    /// What decoding makes of `input`: the value's view and the input that
    /// follows it, or the error.
    spec fn parse(input: Seq<u8>) -> Parsed<Self::V>;

    /// Decodes one value and moves the cursor behind it.
    fn read(reader: &mut Reader<'_>) -> (res: Result<Self, DecodeError>)
        ensures
            read_views(res, final(reader)@, Self::parse(old(reader)@)),
    ;
}

/// A value that can be encoded in the encoding `F`.
pub trait Writable<F = Standard>: View {
    /// The bytes of a value.
    spec fn encoding(v: Self::V) -> Seq<u8>;

    /// Appends the bytes of `self` to `writer`.
    fn write(&self, writer: &mut Vec<u8>)
        ensures
            final(writer)@ == old(writer)@ + Self::encoding(self@),
    ;
}

/// An encoding whose decoder undoes its encoder.
pub trait Format<F = Standard>: Readable<F> + Writable<F> {
    /// The values that the encoding can hold without loss.
    spec fn fits(v: Self::V) -> bool;

    /// Decoding the bytes of a value that fits gives the value back and
    /// leaves what followed the bytes.
    proof fn lemma_round_trip(v: Self::V, rest: Seq<u8>)
        requires
            Self::fits(v),
        ensures
            Self::parse(Self::encoding(v) + rest) == Ok::<(Self::V, Seq<u8>), DecodeError>(
                (v, rest),
            ),
    ;
}

/// An encoding whose decoder yields only values that fit it: what was
/// decoded can be encoded again without loss.
pub trait Sound<F = Standard>: Format<F> {
    /// Whatever decodes, fits.
    proof fn lemma_parsed_fits(input: Seq<u8>)
        ensures
            Self::parse(input) matches Ok((v, _)) ==> Self::fits(v),
    ;
}

/// The views of the elements of a sequence.
pub open spec fn views<T: View>(s: Seq<T>) -> Seq<T::V> {
    Seq::new(s.len(), |i: int| s[i]@)
}

/// Decoding `n` elements one after the other.
pub open spec fn parse_array<T: Readable<F>, F>(input: Seq<u8>, n: nat) -> Parsed<Seq<T::V>>
    decreases n,
{
    if n == 0 {
        Ok((Seq::empty(), input))
    } else {
        match T::parse(input) {
            Err(e) => Err(e),
            Ok((v, rest)) => match parse_array::<T, F>(rest, (n - 1) as nat) {
                Err(e) => Err(e),
                Ok((vs, rest2)) => Ok((seq![v] + vs, rest2)),
            },
        }
    }
}

/// The bytes of the elements, one after the other.
pub open spec fn array_encoding<T: Writable<F>, F>(vs: Seq<T::V>) -> Seq<u8>
    decreases vs.len(),
{
    if vs.len() == 0 {
        Seq::empty()
    } else {
        T::encoding(vs[0]) + array_encoding::<T, F>(vs.drop_first())
    }
}

/// Every element fits its encoding.
pub open spec fn all_fit<T: Format<F>, F>(vs: Seq<T::V>) -> bool {
    forall|i: int| 0 <= i < vs.len() ==> T::fits(#[trigger] vs[i])
}

/// A successful table decode yields exactly `n` elements.
pub proof fn lemma_parse_array_len<T: Readable<F>, F>(input: Seq<u8>, n: nat)
    ensures
        parse_array::<T, F>(input, n) matches Ok((vs, _)) ==> vs.len() == n,
    decreases n,
{
    if n > 0 {
        if let Ok((_, rest)) = T::parse(input) {
            lemma_parse_array_len::<T, F>(rest, (n - 1) as nat);
        }
    }
}

/// The elements of a decoded table fit, where the decoder of the elements
/// yields only values that fit.
pub proof fn lemma_parse_array_fits<T: Sound<F>, F>(input: Seq<u8>, n: nat)
    ensures
        parse_array::<T, F>(input, n) matches Ok((vs, _)) ==> all_fit::<T, F>(vs),
    decreases n,
{
    if n > 0 {
        T::lemma_parsed_fits(input);
        if let Ok((v, rest)) = T::parse(input) {
            lemma_parse_array_fits::<T, F>(rest, (n - 1) as nat);
            if let Ok((vs, _)) = parse_array::<T, F>(rest, (n - 1) as nat) {
                let all = seq![v] + vs;
                assert forall|i: int| 0 <= i < all.len() implies T::fits(#[trigger] all[i]) by {
                    if i > 0 {
                        assert(all[i] == vs[i - 1]);
                    }
                }
            }
        }
    }
}

/// The bytes of a table with one more element at its end.
pub proof fn lemma_array_encoding_push<T: Writable<F>, F>(vs: Seq<T::V>, v: T::V)
    ensures
        array_encoding::<T, F>(vs.push(v)) == array_encoding::<T, F>(vs) + T::encoding(v),
    decreases vs.len(),
{
    if vs.len() == 0 {
        assert(vs.push(v).drop_first() =~= Seq::<T::V>::empty());
        assert(array_encoding::<T, F>(Seq::<T::V>::empty()) =~= Seq::<u8>::empty());
        assert(array_encoding::<T, F>(vs.push(v)) =~= T::encoding(v));
        assert(array_encoding::<T, F>(vs) + T::encoding(v) =~= T::encoding(v));
    } else {
        assert(vs.push(v).drop_first() =~= vs.drop_first().push(v));
        lemma_array_encoding_push::<T, F>(vs.drop_first(), v);
        assert(array_encoding::<T, F>(vs.push(v)) =~= array_encoding::<T, F>(vs) + T::encoding(
            v,
        ));
    }
}

/// Decoding the bytes of a table of elements that fit, with the right count,
/// gives the elements back and leaves what followed the bytes.
pub proof fn lemma_array_round_trip<T: Format<F>, F>(vs: Seq<T::V>, rest: Seq<u8>)
    requires
        all_fit::<T, F>(vs),
    ensures
        parse_array::<T, F>(array_encoding::<T, F>(vs) + rest, vs.len()) == Ok::<
            (Seq<T::V>, Seq<u8>),
            DecodeError,
        >((vs, rest)),
    decreases vs.len(),
{
    if vs.len() == 0 {
        assert(array_encoding::<T, F>(vs) + rest =~= rest);
        assert(vs =~= Seq::<T::V>::empty());
    } else {
        let tail = vs.drop_first();
        let tail_bytes = array_encoding::<T, F>(tail);
        assert(array_encoding::<T, F>(vs) + rest =~= T::encoding(vs[0]) + (tail_bytes + rest));
        T::lemma_round_trip(vs[0], tail_bytes + rest);
        assert(all_fit::<T, F>(tail)) by {
            assert forall|i: int| 0 <= i < tail.len() implies T::fits(#[trigger] tail[i]) by {
                assert(tail[i] == vs[i + 1]);
            }
        }
        lemma_array_round_trip::<T, F>(tail, rest);
        assert(seq![vs[0]] + tail =~= vs);
    }
}

/// Decodes `length` elements.
pub fn read_array<T: Readable<F>, F>(length: u32, reader: &mut Reader<'_>) -> (res: Result<
    Vec<T>,
    DecodeError,
>)
    ensures
        match parse_array::<T, F>(old(reader)@, length as nat) {
            Ok((vs, rest)) => res is Ok && views(res->Ok_0@) == vs && final(reader)@ == rest,
            Err(e) => res == Err::<Vec<T>, DecodeError>(e),
        },
{
    let mut out: Vec<T> = Vec::new();
    let mut i: u32 = 0;
    while i < length
        invariant
            i <= length,
            out@.len() == i,
            match parse_array::<T, F>(old(reader)@, length as nat) {
                Ok((vs, rest)) => parse_array::<T, F>(reader@, (length - i) as nat) matches Ok(
                    (ws, rest2),
                ) && rest2 == rest && views(out@) + ws == vs,
                Err(e) => parse_array::<T, F>(reader@, (length - i) as nat) == Err::<
                    (Seq<T::V>, Seq<u8>),
                    DecodeError,
                >(e),
            },
        decreases length - i,
    {
        let ghost before = reader@;
        let ghost prev = out@;
        match T::read(reader) {
            Err(e) => {
                return Err(e);
            },
            Ok(v) => {
                out.push(v);
                proof {
                    let left = (length - i) as nat;
                    assert(views(out@) =~= views(prev) + seq![v@]);
                    if let Ok((ws, _)) = parse_array::<T, F>(reader@, (left - 1) as nat) {
                        assert(views(prev) + (seq![v@] + ws) =~= (views(prev) + seq![v@]) + ws);
                    }
                }
            },
        }
        i = i + 1;
    }
    proof {
        assert(views(out@) + Seq::<T::V>::empty() =~= views(out@));
    }
    Ok(out)
}

/// Encodes the elements of `array`, in order.
pub fn write_array<T: Writable<F>, F>(writer: &mut Vec<u8>, array: &Vec<T>)
    ensures
        final(writer)@ == old(writer)@ + array_encoding::<T, F>(views(array@)),
{
    let mut i: usize = 0;
    assert(writer@ =~= old(writer)@ + array_encoding::<T, F>(views(array@.take(0))));
    while i < array.len()
        invariant
            i <= array@.len(),
            writer@ == old(writer)@ + array_encoding::<T, F>(views(array@.take(i as int))),
        decreases array@.len() - i,
    {
        let ghost done = views(array@.take(i as int));
        array[i].write(writer);
        proof {
            lemma_array_encoding_push::<T, F>(done, array@[i as int]@);
            assert(views(array@.take(i + 1)) =~= done.push(array@[i as int]@));
            assert(writer@ =~= old(writer)@ + array_encoding::<T, F>(views(array@.take(i + 1))));
        }
        i = i + 1;
    }
    assert(array@.take(i as int) =~= array@);
}

/// A table behind its own count: a little-endian 32-bit count and then that
/// many elements.
pub open spec fn parse_counted<T: Readable<F>, F>(input: Seq<u8>) -> Parsed<Seq<T::V>> {
    match take_u32_le(input) {
        Err(e) => Err(e),
        Ok((count, rest)) => parse_array::<T, F>(rest, count as nat),
    }
}

/// The low 32 bits of the number of elements, and then the elements.
pub open spec fn counted_encoding<T: Writable<F>, F>(vs: Seq<T::V>) -> Seq<u8> {
    u32_to_le(low32(vs.len() as int)) + array_encoding::<T, F>(vs)
}

/// A counted table of elements that fit, with no more of them than the count
/// holds, is read back.
pub proof fn lemma_counted_round_trip<T: Format<F>, F>(vs: Seq<T::V>, rest: Seq<u8>)
    requires
        vs.len() <= u32::MAX,
        all_fit::<T, F>(vs),
    ensures
        parse_counted::<T, F>(counted_encoding::<T, F>(vs) + rest) == Ok::<
            (Seq<T::V>, Seq<u8>),
            DecodeError,
        >((vs, rest)),
{
    let tail = array_encoding::<T, F>(vs) + rest;
    lemma_low32_small(vs.len() as int);
    assert(counted_encoding::<T, F>(vs) + rest =~= u32_to_le(low32(vs.len() as int)) + tail);
    lemma_take_u32_le(low32(vs.len() as int), tail);
    lemma_array_round_trip::<T, F>(vs, rest);
}

/// A decoded counted table has no more elements than its count can say, and
/// they fit where the decoder of the elements yields only values that fit.
pub proof fn lemma_parse_counted_fits<T: Sound<F>, F>(input: Seq<u8>)
    ensures
        parse_counted::<T, F>(input) matches Ok((vs, _)) ==> vs.len() <= u32::MAX && all_fit::<
            T,
            F,
        >(vs),
{
    if let Ok((count, rest)) = take_u32_le(input) {
        lemma_parse_array_len::<T, F>(rest, count as nat);
        lemma_parse_array_fits::<T, F>(rest, count as nat);
    }
}

/// Decodes a count and that many elements.
pub fn read_counted<T: Readable<F>, F>(reader: &mut Reader<'_>) -> (res: Result<
    Vec<T>,
    DecodeError,
>)
    ensures
        match parse_counted::<T, F>(old(reader)@) {
            Ok((vs, rest)) => res is Ok && views(res->Ok_0@) == vs && final(reader)@ == rest,
            Err(e) => res == Err::<Vec<T>, DecodeError>(e),
        },
{
    let count = reader.read_u32_le()?;
    read_array::<T, F>(count, reader)
}

/// Encodes the number of elements and the elements.
pub fn write_counted<T: Writable<F>, F>(writer: &mut Vec<u8>, array: &Vec<T>)
    ensures
        final(writer)@ == old(writer)@ + counted_encoding::<T, F>(views(array@)),
{
    put_u32_le(writer, low32_of(array.len()));
    let ghost mid = writer@;
    write_array::<T, F>(writer, array);
    assert(mid + array_encoding::<T, F>(views(array@)) =~= old(writer)@ + counted_encoding::<T, F>(
        views(array@),
    ));
}

} // verus!
