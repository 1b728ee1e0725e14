//! The two readings of a 32-bit word: as an unsigned integer (the `u32`
//! value itself) and as a signed two's-complement integer, together with the
//! encoding of an arbitrary integer back into a word modulo 2^32.

use vstd::arithmetic::div_mod::{
    lemma_mod_add_multiples_vanish, lemma_mod_multiples_vanish, lemma_small_mod,
};
use vstd::prelude::*;

verus! {

/// The signed (two's-complement) reading of a 32-bit word.
pub open spec fn to_signed(w: u32) -> int {
    if w >= 0x8000_0000 {
        w - 0x1_0000_0000
    } else {
        w as int
    }
}

/// The 32-bit word whose bit pattern encodes `n` modulo 2^32.
pub open spec fn to_word(n: int) -> u32 {
    (n % 0x1_0000_0000) as u32
}

/// Encoding the signed reading of a word gives the word back.
pub proof fn lemma_word_of_signed(w: u32)
    ensures
        to_word(to_signed(w)) == w,
{
    if w >= 0x8000_0000 {
        lemma_to_word_negative(to_signed(w));
    } else {
        lemma_small_mod(w as nat, 0x1_0000_0000);
    }
}

/// A word encodes itself: for values already in range the encoding is the
/// identity.
pub proof fn lemma_to_word_small(n: int)
    requires
        0 <= n < 0x1_0000_0000,
    ensures
        to_word(n) == n,
{
    lemma_small_mod(n as nat, 0x1_0000_0000);
}

/// Encoding a negative integer no further than 2^32 below zero wraps it up by
/// exactly 2^32.
pub proof fn lemma_to_word_negative(n: int)
    requires
        -0x1_0000_0000 <= n < 0,
    ensures
        to_word(n) == n + 0x1_0000_0000,
{
    lemma_mod_add_multiples_vanish(n, 0x1_0000_0000);
    lemma_small_mod((n + 0x1_0000_0000) as nat, 0x1_0000_0000);
}

/// Integers that differ by a multiple of 2^32 encode to the same word.
pub proof fn lemma_to_word_congruent(n: int, k: int)
    ensures
        to_word(n + k * 0x1_0000_0000) == to_word(n),
{
    lemma_mod_multiples_vanish(k, n, 0x1_0000_0000);
}

/// The signed reading of the encoding of `n` is `n` itself, whenever `n` lies
/// in the signed 32-bit range.
pub proof fn lemma_signed_of_word(n: int)
    requires
        -0x8000_0000 <= n < 0x8000_0000,
    ensures
        to_signed(to_word(n)) == n,
{
    if n < 0 {
        lemma_to_word_negative(n);
    } else {
        lemma_to_word_small(n);
    }
}

/// Adding two words and reducing modulo 2^32 agrees with adding their signed
/// readings and reducing modulo 2^32: the wrapped sum has one bit pattern,
/// whichever way its operands are read.
pub proof fn lemma_sum_signed_agrees(a: u32, b: u32)
    ensures
        to_word(to_signed(a) + to_signed(b)) == to_word(a + b),
{
    let ca: int = if a >= 0x8000_0000 {
        1
    } else {
        0
    };
    let cb: int = if b >= 0x8000_0000 {
        1
    } else {
        0
    };
    assert(to_signed(a) + to_signed(b) == a + b + (-ca - cb) * 0x1_0000_0000);
    lemma_to_word_congruent(a + b, -ca - cb);
}

/// The wrapped sum of two words, evaluated: the plain sum when it fits, and
/// the plain sum less 2^32 when it overflows.
pub proof fn lemma_to_word_sum(a: u32, b: u32)
    ensures
        a + b <= u32::MAX ==> to_word(a + b) == a + b,
        a + b > u32::MAX ==> to_word(a + b) == a + b - 0x1_0000_0000,
{
    if a + b <= u32::MAX {
        lemma_to_word_small(a + b);
    } else {
        lemma_mod_add_multiples_vanish(a + b - 0x1_0000_0000, 0x1_0000_0000);
        lemma_small_mod((a + b - 0x1_0000_0000) as nat, 0x1_0000_0000);
    }
}

} // verus!
