//! A cursor over the bytes that are still to be decoded.

use crate::error::DecodeError;
use crate::wire::{
    be_u16, le_u16, le_u32, le_u64, lemma_u16_be_inverse, lemma_u16_le_inverse,
    lemma_u32_le_inverse, lemma_u64_le_inverse, u16_from_be, u16_from_le, u16_to_be, u16_to_le,
    u32_from_le, u32_to_le, u64_from_le, u64_to_le,
};
use vstd::prelude::*;
use vstd::slice::slice_subrange;

verus! {

/// What a decoder makes of an input: a value and the input left behind it, or
/// the reason why there is no value.
pub type Parsed<T> = Result<(T, Seq<u8>), DecodeError>;

/// The first `n` bytes of `input` and what follows them.
pub open spec fn take_bytes(input: Seq<u8>, n: nat) -> Parsed<Seq<u8>> {
    if n <= input.len() {
        Ok((input.take(n as int), input.skip(n as int)))
    } else {
        Err(DecodeError::IoTruncated)
    }
}

/// One byte.
#[verifier::opaque]
pub open spec fn take_u8(input: Seq<u8>) -> Parsed<u8> {
    match take_bytes(input, 1) {
        Ok((b, rest)) => Ok((b[0], rest)),
        Err(e) => Err(e),
    }
}

/// A little-endian 16-bit value.
#[verifier::opaque]
pub open spec fn take_u16_le(input: Seq<u8>) -> Parsed<u16> {
    match take_bytes(input, 2) {
        Ok((b, rest)) => Ok((u16_from_le(b), rest)),
        Err(e) => Err(e),
    }
}

/// A big-endian 16-bit value.
#[verifier::opaque]
pub open spec fn take_u16_be(input: Seq<u8>) -> Parsed<u16> {
    match take_bytes(input, 2) {
        Ok((b, rest)) => Ok((u16_from_be(b), rest)),
        Err(e) => Err(e),
    }
}

/// A little-endian 32-bit value.
#[verifier::opaque]
pub open spec fn take_u32_le(input: Seq<u8>) -> Parsed<u32> {
    match take_bytes(input, 4) {
        Ok((b, rest)) => Ok((u32_from_le(b), rest)),
        Err(e) => Err(e),
    }
}

/// A little-endian 64-bit value.
#[verifier::opaque]
pub open spec fn take_u64_le(input: Seq<u8>) -> Parsed<u64> {
    match take_bytes(input, 8) {
        Ok((b, rest)) => Ok((u64_from_le(b), rest)),
        Err(e) => Err(e),
    }
}

/// The first zero byte of `input` stands at `i`.
pub open spec fn is_first_nul(input: Seq<u8>, i: int) -> bool {
    &&& 0 <= i < input.len()
    &&& input[i] == 0
    &&& forall|j: int| 0 <= j < i ==> input[j] != 0
}

/// The bytes in front of the first zero byte, and what follows that byte. An
/// input without a zero byte ends before the terminator.
pub open spec fn take_until_nul(input: Seq<u8>) -> Parsed<Seq<u8>> {
    if exists|i: int| is_first_nul(input, i) {
        let i = choose|i: int| is_first_nul(input, i);
        Ok((input.take(i), input.skip(i + 1)))
    } else {
        Err(DecodeError::IoTruncated)
    }
}

/// A read gave exactly what `expected` says: on success the value, with the
/// cursor moved to the rest of the input; on failure the same error.
pub open spec fn read_is<T>(
    res: Result<T, DecodeError>,
    after: Seq<u8>,
    expected: Parsed<T>,
) -> bool {
    match expected {
        Ok((v, rest)) => res == Ok::<T, DecodeError>(v) && after == rest,
        Err(e) => res == Err::<T, DecodeError>(e),
    }
}

/// As `read_is`, for a value that is described by its view.
pub open spec fn read_views<T: View>(
    res: Result<T, DecodeError>,
    after: Seq<u8>,
    expected: Parsed<T::V>,
) -> bool {
    match expected {
        Ok((v, rest)) => res is Ok && res->Ok_0@ == v && after == rest,
        Err(e) => res == Err::<T, DecodeError>(e),
    }
}

/// Taking as many bytes as a prefix has gives the prefix and what follows it.
pub proof fn lemma_take_bytes(b: Seq<u8>, rest: Seq<u8>)
    ensures
        take_bytes(b + rest, b.len()) == Ok::<(Seq<u8>, Seq<u8>), DecodeError>((b, rest)),
{
    assert((b + rest).take(b.len() as int) =~= b);
    assert((b + rest).skip(b.len() as int) =~= rest);
}

/// A byte in front of an input is read back.
pub proof fn lemma_take_u8(v: u8, rest: Seq<u8>)
    ensures
        take_u8(seq![v] + rest) == Ok::<(u8, Seq<u8>), DecodeError>((v, rest)),
{
    reveal(take_u8);
    lemma_take_bytes(seq![v], rest);
}

/// A little-endian 16-bit value in front of an input is read back.
pub proof fn lemma_take_u16_le(v: u16, rest: Seq<u8>)
    ensures
        take_u16_le(u16_to_le(v) + rest) == Ok::<(u16, Seq<u8>), DecodeError>((v, rest)),
{
    reveal(take_u16_le);
    lemma_u16_le_inverse(v);
    lemma_take_bytes(u16_to_le(v), rest);
}

/// A big-endian 16-bit value in front of an input is read back.
pub proof fn lemma_take_u16_be(v: u16, rest: Seq<u8>)
    ensures
        take_u16_be(u16_to_be(v) + rest) == Ok::<(u16, Seq<u8>), DecodeError>((v, rest)),
{
    reveal(take_u16_be);
    lemma_u16_be_inverse(v);
    lemma_take_bytes(u16_to_be(v), rest);
}

/// A little-endian 32-bit value in front of an input is read back.
pub proof fn lemma_take_u32_le(v: u32, rest: Seq<u8>)
    ensures
        take_u32_le(u32_to_le(v) + rest) == Ok::<(u32, Seq<u8>), DecodeError>((v, rest)),
{
    reveal(take_u32_le);
    lemma_u32_le_inverse(v);
    lemma_take_bytes(u32_to_le(v), rest);
}

/// A little-endian 64-bit value in front of an input is read back.
pub proof fn lemma_take_u64_le(v: u64, rest: Seq<u8>)
    ensures
        take_u64_le(u64_to_le(v) + rest) == Ok::<(u64, Seq<u8>), DecodeError>((v, rest)),
{
    reveal(take_u64_le);
    lemma_u64_le_inverse(v);
    lemma_take_bytes(u64_to_le(v), rest);
}

/// Where the first zero byte is known, so is what is taken.
pub proof fn lemma_take_until_nul_at(input: Seq<u8>, i: int)
    requires
        is_first_nul(input, i),
    ensures
        take_until_nul(input) == Ok::<(Seq<u8>, Seq<u8>), DecodeError>(
            (input.take(i), input.skip(i + 1)),
        ),
{
    let k = choose|k: int| is_first_nul(input, k);
    assert(k == i) by {
        if k < i {
            assert(input[k] == 0);
        } else if i < k {
            assert(input[i] == 0);
        }
    }
}

/// Bytes without a zero among them, then a zero byte: the bytes are taken and
/// what follows the zero byte is left.
pub proof fn lemma_take_until_nul(b: Seq<u8>, rest: Seq<u8>)
    requires
        !b.contains(0u8),
    ensures
        take_until_nul(b + seq![0u8] + rest) == Ok::<(Seq<u8>, Seq<u8>), DecodeError>((b, rest)),
{
    let input = b + seq![0u8] + rest;
    let i = b.len() as int;
    assert(is_first_nul(input, i)) by {
        assert forall|j: int| 0 <= j < i implies input[j] != 0 by {
            assert(input[j] == b[j]);
            assert(b.contains(b[j]));
        }
    }
    lemma_take_until_nul_at(input, i);
    assert(input.take(i) =~= b);
    assert(input.skip(i + 1) =~= rest);
}

/// The bytes of a buffer that have not been decoded yet.
#[derive(Debug)]
pub struct Reader<'a> {
    rest: &'a [u8],
}

impl<'a> View for Reader<'a> {
    type V = Seq<u8>;

    closed spec fn view(&self) -> Seq<u8> {
        self.rest@
    }
}

impl<'a> Reader<'a> {
    /// A cursor at the start of `data`.
    pub fn new(data: &'a [u8]) -> (r: Self)
        ensures
            r@ == data@,
    {
        Reader { rest: data }
    }

    /// The number of bytes left.
    pub fn remaining(&self) -> (n: usize)
        ensures
            n == self@.len(),
    {
        self.rest.len()
    }

    /// The next `n` bytes.
    pub fn read_bytes(&mut self, n: usize) -> (res: Result<&'a [u8], DecodeError>)
        ensures
            match take_bytes(old(self)@, n as nat) {
                Ok((b, rest)) => res is Ok && res->Ok_0@ == b && final(self)@ == rest,
                Err(e) => res == Err::<&[u8], DecodeError>(e),
            },
    {
        let len = self.rest.len();
        if n > len {
            return Err(DecodeError::IoTruncated);
        }
        let head = slice_subrange(self.rest, 0, n);
        self.rest = slice_subrange(self.rest, n, len);
        Ok(head)
    }

    /// The bytes up to the next zero byte, which is passed over.
    pub fn read_until_nul(&mut self) -> (res: Result<&'a [u8], DecodeError>)
        ensures
            match take_until_nul(old(self)@) {
                Ok((b, rest)) => res is Ok && res->Ok_0@ == b && final(self)@ == rest,
                Err(e) => res == Err::<&[u8], DecodeError>(e),
            },
    {
        let len = self.rest.len();
        let mut i: usize = 0;
        while i < len && self.rest[i] != 0
            invariant
                i <= len,
                len == self.rest@.len(),
                self.rest@ == old(self)@,
                forall|j: int| 0 <= j < i ==> self.rest@[j] != 0,
            decreases len - i,
        {
            i = i + 1;
        }
        if i == len {
            assert(forall|k: int| !is_first_nul(self.rest@, k));
            return Err(DecodeError::IoTruncated);
        }
        proof {
            lemma_take_until_nul_at(self.rest@, i as int);
        }
        let head = slice_subrange(self.rest, 0, i);
        self.rest = slice_subrange(self.rest, i + 1, len);
        Ok(head)
    }

    /// The next byte.
    pub fn read_u8(&mut self) -> (res: Result<u8, DecodeError>)
        ensures
            read_is(res, final(self)@, take_u8(old(self)@)),
    {
        reveal(take_u8);
        let b = self.read_bytes(1)?;
        Ok(b[0])
    }

    /// The next two bytes as a little-endian value.
    pub fn read_u16_le(&mut self) -> (res: Result<u16, DecodeError>)
        ensures
            read_is(res, final(self)@, take_u16_le(old(self)@)),
    {
        reveal(take_u16_le);
        let b = self.read_bytes(2)?;
        assert(b@.subrange(0, 2) =~= b@);
        Ok(le_u16(b))
    }

    /// The next two bytes as a big-endian value.
    pub fn read_u16_be(&mut self) -> (res: Result<u16, DecodeError>)
        ensures
            read_is(res, final(self)@, take_u16_be(old(self)@)),
    {
        reveal(take_u16_be);
        let b = self.read_bytes(2)?;
        assert(b@.subrange(0, 2) =~= b@);
        Ok(be_u16(b))
    }

    /// The next four bytes as a little-endian value.
    pub fn read_u32_le(&mut self) -> (res: Result<u32, DecodeError>)
        ensures
            read_is(res, final(self)@, take_u32_le(old(self)@)),
    {
        reveal(take_u32_le);
        let b = self.read_bytes(4)?;
        assert(b@.subrange(0, 4) =~= b@);
        Ok(le_u32(b))
    }

    /// The next eight bytes as a little-endian value.
    pub fn read_u64_le(&mut self) -> (res: Result<u64, DecodeError>)
        ensures
            read_is(res, final(self)@, take_u64_le(old(self)@)),
    {
        reveal(take_u64_le);
        let b = self.read_bytes(8)?;
        assert(b@.subrange(0, 8) =~= b@);
        Ok(le_u64(b))
    }
}

} // verus!
