//! The offset tables of the terminated strings.
//!
//! Each kind of terminated string has a table that gives, for every string,
//! where it starts among the strings of its kind: the sum of the sizes of the
//! strings before it, each counted with its terminator. Bytes are counted for
//! the byte strings and characters for the wide strings. The tables are
//! derived data: decoding passes over them, and encoding computes them anew.

use crate::codec::{array_encoding, lemma_array_encoding_push, Standard};
use crate::wire::{lemma_low32_small, low32, low32_of};
use crate::writer::put_u32_le;
use vstd::prelude::*;
use vstd::string::StrSliceExecFns;
use vstd::utf8::encode_utf8;

verus! {

/// The sum of the first `n` sizes.
pub open spec fn total_size(sizes: Seq<nat>, n: int) -> nat
    decreases n,
{
    if n <= 0 {
        0
    } else {
        total_size(sizes, n - 1) + sizes[n - 1]
    }
}

/// The offset of every string: the low 32 bits of the sum of the sizes of
/// the strings before it.
pub open spec fn running_offsets(sizes: Seq<nat>) -> Seq<u32> {
    Seq::new(sizes.len(), |i: int| low32(total_size(sizes, i) as int))
}

/// The sizes of byte strings: their bytes and the terminator.
pub open spec fn ansi_sizes(strings: Seq<Seq<char>>) -> Seq<nat> {
    Seq::new(strings.len(), |i: int| encode_utf8(strings[i]).len() + 1)
}

/// The sizes of wide strings: their characters and the terminator.
pub open spec fn wide_sizes(strings: Seq<Seq<char>>) -> Seq<nat> {
    Seq::new(strings.len(), |i: int| strings[i].len() + 1)
}

/// The offset table of the byte strings.
pub open spec fn ansi_offsets(strings: Seq<Seq<char>>) -> Seq<u32> {
    running_offsets(ansi_sizes(strings))
}

/// The offset table of the wide strings.
pub open spec fn wide_offsets(strings: Seq<Seq<char>>) -> Seq<u32> {
    running_offsets(wide_sizes(strings))
}

/// Adding in 32 bits what was cut to 32 bits gives the sum cut to 32 bits.
pub proof fn lemma_low32_add(a: int, b: int)
    requires
        0 <= a,
        0 <= b,
    ensures
        low32(a + b) == low32(low32(a) + low32(b)),
{
    reveal(low32);
    vstd::arithmetic::div_mod::lemma_add_mod_noop(a, b, 0x1_0000_0000);
}

/// The offset behind a string of `len` units that starts at `offset`.
fn next_offset(offset: u32, len: usize, Ghost(before): Ghost<int>) -> (next: u32)
    requires
        0 <= before,
        offset == low32(before),
    ensures
        next == low32(before + len + 1),
{
    let size = low32_of(len).wrapping_add(1);
    assert(size == low32(len + 1)) by {
        reveal(low32);
        lemma_low32_add(len as int, 1);
    }
    let next = offset.wrapping_add(size);
    assert(next == low32(before + len + 1)) by {
        reveal(low32);
        lemma_low32_add(before, len + 1);
    }
    next
}

/// Appends the offset table of the byte strings.
pub fn write_ansi_offsets(writer: &mut Vec<u8>, strings: &Vec<String>)
    ensures
        final(writer)@ == old(writer)@ + array_encoding::<u32, Standard>(
            ansi_offsets(crate::codec::views(strings@)),
        ),
{
    let ghost texts = crate::codec::views(strings@);
    let ghost sizes = ansi_sizes(texts);
    let ghost table = running_offsets(sizes);
    let mut offset: u32 = 0;
    let mut i: usize = 0;
    proof {
        lemma_low32_small(0);
    }
    assert(writer@ =~= old(writer)@ + array_encoding::<u32, Standard>(table.take(0)));
    while i < strings.len()
        invariant
            i <= strings@.len(),
            texts == crate::codec::views(strings@),
            sizes == ansi_sizes(texts),
            table == running_offsets(sizes),
            offset == low32(total_size(sizes, i as int) as int),
            writer@ == old(writer)@ + array_encoding::<u32, Standard>(table.take(i as int)),
        decreases strings@.len() - i,
    {
        put_u32_le(writer, offset);
        proof {
            lemma_array_encoding_push::<u32, Standard>(table.take(i as int), offset);
            assert(table.take(i + 1) =~= table.take(i as int).push(offset));
        }
        let len = strings[i].as_str().as_bytes().len();
        offset = next_offset(offset, len, Ghost(total_size(sizes, i as int) as int));
        i = i + 1;
    }
    assert(table.take(i as int) =~= table);
}

/// Appends the offset table of the wide strings.
pub fn write_wide_offsets(writer: &mut Vec<u8>, strings: &Vec<String>)
    ensures
        final(writer)@ == old(writer)@ + array_encoding::<u32, Standard>(
            wide_offsets(crate::codec::views(strings@)),
        ),
{
    let ghost texts = crate::codec::views(strings@);
    let ghost sizes = wide_sizes(texts);
    let ghost table = running_offsets(sizes);
    let mut offset: u32 = 0;
    let mut i: usize = 0;
    proof {
        lemma_low32_small(0);
    }
    assert(writer@ =~= old(writer)@ + array_encoding::<u32, Standard>(table.take(0)));
    while i < strings.len()
        invariant
            i <= strings@.len(),
            texts == crate::codec::views(strings@),
            sizes == wide_sizes(texts),
            table == running_offsets(sizes),
            offset == low32(total_size(sizes, i as int) as int),
            writer@ == old(writer)@ + array_encoding::<u32, Standard>(table.take(i as int)),
        decreases strings@.len() - i,
    {
        put_u32_le(writer, offset);
        proof {
            lemma_array_encoding_push::<u32, Standard>(table.take(i as int), offset);
            assert(table.take(i + 1) =~= table.take(i as int).push(offset));
        }
        let len = strings[i].as_str().unicode_len();
        offset = next_offset(offset, len, Ghost(total_size(sizes, i as int) as int));
        i = i + 1;
    }
    assert(table.take(i as int) =~= table);
}

} // verus!
