//! Regrouping a run of byte sequences.
//!
//! An encoding is written as one piece after the other. A decoder takes the
//! first piece and leaves the rest, so the proofs speak of the same bytes
//! grouped from the right. An encoder appends piece after piece to what the
//! buffer held, so its proof gathers the pieces behind the old contents.

use vstd::prelude::*;

verus! {

/// Two pieces before a rest.
pub proof fn lemma_regroup2(a: Seq<u8>, b: Seq<u8>, rest: Seq<u8>)
    ensures
        a + b + rest == a + (b + rest),
{
    assert(a + b + rest =~= a + (b + rest));
}

/// Three pieces before a rest.
pub proof fn lemma_regroup3(a: Seq<u8>, b: Seq<u8>, c: Seq<u8>, rest: Seq<u8>)
    ensures
        a + b + c + rest == a + (b + (c + rest)),
{
    lemma_regroup2(a + b, c, rest);
    lemma_regroup2(a, b, c + rest);
}

/// Four pieces before a rest.
pub proof fn lemma_regroup4(a: Seq<u8>, b: Seq<u8>, c: Seq<u8>, d: Seq<u8>, rest: Seq<u8>)
    ensures
        a + b + c + d + rest == a + (b + (c + (d + rest))),
{
    lemma_regroup2(a + b + c, d, rest);
    lemma_regroup3(a, b, c, d + rest);
}

/// Five pieces before a rest.
pub proof fn lemma_regroup5(
    a: Seq<u8>,
    b: Seq<u8>,
    c: Seq<u8>,
    d: Seq<u8>,
    e: Seq<u8>,
    rest: Seq<u8>,
)
    ensures
        a + b + c + d + e + rest == a + (b + (c + (d + (e + rest)))),
{
    lemma_regroup2(a + b + c + d, e, rest);
    lemma_regroup4(a, b, c, d, e + rest);
}

/// Six pieces before a rest.
pub proof fn lemma_regroup6(
    a: Seq<u8>,
    b: Seq<u8>,
    c: Seq<u8>,
    d: Seq<u8>,
    e: Seq<u8>,
    f: Seq<u8>,
    rest: Seq<u8>,
)
    ensures
        a + b + c + d + e + f + rest == a + (b + (c + (d + (e + (f + rest))))),
{
    lemma_regroup2(a + b + c + d + e, f, rest);
    lemma_regroup5(a, b, c, d, e, f + rest);
}

/// Two pieces appended to a buffer.
pub proof fn lemma_gather2(old: Seq<u8>, a: Seq<u8>, b: Seq<u8>)
    ensures
        old + a + b == old + (a + b),
{
    lemma_regroup2(old, a, b);
}

/// Three pieces appended to a buffer.
pub proof fn lemma_gather3(old: Seq<u8>, a: Seq<u8>, b: Seq<u8>, c: Seq<u8>)
    ensures
        old + a + b + c == old + (a + b + c),
{
    lemma_gather2(old, a, b);
    lemma_regroup2(old, a + b, c);
}

/// Four pieces appended to a buffer.
pub proof fn lemma_gather4(old: Seq<u8>, a: Seq<u8>, b: Seq<u8>, c: Seq<u8>, d: Seq<u8>)
    ensures
        old + a + b + c + d == old + (a + b + c + d),
{
    lemma_gather3(old, a, b, c);
    lemma_regroup2(old, a + b + c, d);
}

/// Five pieces appended to a buffer.
pub proof fn lemma_gather5(
    old: Seq<u8>,
    a: Seq<u8>,
    b: Seq<u8>,
    c: Seq<u8>,
    d: Seq<u8>,
    e: Seq<u8>,
)
    ensures
        old + a + b + c + d + e == old + (a + b + c + d + e),
{
    lemma_gather4(old, a, b, c, d);
    lemma_regroup2(old, a + b + c + d, e);
}

/// Six pieces appended to a buffer.
pub proof fn lemma_gather6(
    old: Seq<u8>,
    a: Seq<u8>,
    b: Seq<u8>,
    c: Seq<u8>,
    d: Seq<u8>,
    e: Seq<u8>,
    f: Seq<u8>,
)
    ensures
        old + a + b + c + d + e + f == old + (a + b + c + d + e + f),
{
    lemma_gather5(old, a, b, c, d, e);
    lemma_regroup2(old, a + b + c + d + e, f);
}

} // verus!
