//! Sign extension of a 12-bit immediate field.
//!
//! The instruction encoding this crate models carries immediates as 12-bit
//! two's-complement fields. Before such an immediate is handed to an
//! operation, bit 11 of the field must be replicated into bits 12 through 31
//! to form the full 32-bit word; the operations themselves perform no
//! extension.

use crate::word::{
    lemma_signed_of_word, lemma_to_word_negative, lemma_to_word_small, to_signed, to_word,
};
use vstd::prelude::*;

verus! {

/// The signed two's-complement value of the low 12 bits of a word: the low
/// 11 bits, less 2^11 when bit 11 is set.
pub open spec fn imm12_value(imm: u32) -> int {
    if imm % 0x1000 >= 0x800 {
        (imm % 0x1000) - 0x1000
    } else {
        (imm % 0x1000) as int
    }
}

/// Extend the 12-bit two's-complement field in the low bits of `imm` to a
/// full 32-bit word by replicating bit 11 into bits 12 through 31. The
/// result encodes the field's signed value; bits of `imm` above the field
/// play no part.
pub fn sign_extend(imm: u32) -> (r: u32)
    ensures
        r == to_word(imm12_value(imm)),
        to_signed(r) == imm12_value(imm),
{
    let low: u32 = imm & 0xfff;
    proof {
        lemma_signed_of_word(imm12_value(imm));
        assert(imm & 0xfff == imm % 0x1000) by (bit_vector);
        assert(low >= 0x800 ==> (low | 0xffff_f000) == low + 0x1_0000_0000 - 0x1000)
            by (bit_vector)
            requires
                low == imm % 0x1000,
        ;
        if low >= 0x800 {
            lemma_to_word_negative(imm12_value(imm));
        } else {
            lemma_to_word_small(imm12_value(imm));
        }
    }
    if low >= 0x800 {
        low | 0xffff_f000
    } else {
        low
    }
}

} // verus!
