//! The register file and the nine immediate-form integer operations.
//!
//! A `Processor` owns 32 registers of 32 bits each. Register 0 is hard-wired
//! to zero: it always reads as 0, and a write to it is silently discarded.
//! Each operation reads one source register, combines it with an
//! already-decoded immediate, and writes the result to one destination
//! register through that write rule.
//!
//! The shift operations take their shift amount from the low five bits of the
//! immediate, as the architecture defines it; higher bits of the immediate
//! are deliberately ignored rather than left to shift out of range.

use crate::word::{
    lemma_sum_signed_agrees, lemma_to_word_negative, lemma_to_word_small, lemma_to_word_sum,
    lemma_word_of_signed, to_signed, to_word,
};
use vstd::arithmetic::div_mod::{
    lemma_div_basics, lemma_div_nonincreasing, lemma_div_pos_is_pos, lemma_fundamental_div_mod,
    lemma_fundamental_div_mod_converse, lemma_multiply_divide_lt,
};
use vstd::arithmetic::mul::{lemma_mul_basics, lemma_mul_is_distributive_sub};
use vstd::arithmetic::power2::{
    lemma2_to64, lemma_pow2_adds, lemma_pow2_pos, lemma_pow2_strictly_increases, pow2,
};
use vstd::bits::{lemma_u32_shl_is_mul, lemma_u32_shr_is_div, lemma_u64_shl_is_mul};
use vstd::prelude::*;

verus! {

/// A register index. 0 names the hard-wired zero register; 1 through 31 name
/// the general-purpose registers.
pub type Register = usize;

/// The shift amount an immediate selects: its low five bits, giving a value
/// in 0..32. The higher bits of the immediate play no part in a shift.
pub open spec fn shamt(imm: u32) -> nat {
    (imm % 32) as nat
}

/// add-immediate: the sum of the signed readings, wrapped modulo 2^32.
pub open spec fn op_addi(src: u32, imm: u32) -> u32 {
    to_word(to_signed(src) + to_signed(imm))
}

/// signed-less-than-immediate: 1 when the signed reading of the source is
/// below the signed reading of the immediate, else 0.
pub open spec fn op_slti(src: u32, imm: u32) -> u32 {
    if to_signed(src) < to_signed(imm) {
        1u32
    } else {
        0u32
    }
}

/// unsigned-less-than-immediate: 1 when the source is below the immediate,
/// both taken as unsigned bit patterns, else 0.
pub open spec fn op_sltiu(src: u32, imm: u32) -> u32 {
    if src < imm {
        1u32
    } else {
        0u32
    }
}

/// bitwise-AND-immediate.
pub open spec fn op_andi(src: u32, imm: u32) -> u32 {
    src & imm
}

/// bitwise-OR-immediate.
pub open spec fn op_ori(src: u32, imm: u32) -> u32 {
    src | imm
}

/// bitwise-XOR-immediate.
pub open spec fn op_xori(src: u32, imm: u32) -> u32 {
    src ^ imm
}

/// logical-shift-left-immediate: multiplication by 2^shamt, the overflowing
/// high bits discarded modulo 2^32.
pub open spec fn op_slli(src: u32, imm: u32) -> u32 {
    to_word(src * pow2(shamt(imm)))
}

/// logical-shift-right-immediate: division by 2^shamt, zeroes filling the
/// high bits.
pub open spec fn op_srli(src: u32, imm: u32) -> u32 {
    (src as nat / pow2(shamt(imm))) as u32
}

/// arithmetic-shift-right-immediate: division of the signed reading by
/// 2^shamt, rounded toward negative infinity, so the sign bit fills the high
/// bits.
pub open spec fn op_srai(src: u32, imm: u32) -> u32 {
    to_word(to_signed(src) / pow2(shamt(imm)) as int)
}

/// The nine immediate-form integer operations.
#[derive(Clone, Copy, Debug)]
pub enum Instruction {
    Addi,
    Slti,
    Sltiu,
    Andi,
    Ori,
    Xori,
    Slli,
    Srli,
    Srai,
}

/// The value an operation writes to its destination register, as a function
/// of the source register's value and the immediate.
pub open spec fn instr_result(inst: Instruction, src: u32, imm: u32) -> u32 {
    match inst {
        Instruction::Addi => op_addi(src, imm),
        Instruction::Slti => op_slti(src, imm),
        Instruction::Sltiu => op_sltiu(src, imm),
        Instruction::Andi => op_andi(src, imm),
        Instruction::Ori => op_ori(src, imm),
        Instruction::Xori => op_xori(src, imm),
        Instruction::Slli => op_slli(src, imm),
        Instruction::Srli => op_srli(src, imm),
        Instruction::Srai => op_srai(src, imm),
    }
}

/// What a write to the register file leaves behind: a write to register 0 is
/// discarded, any other write replaces that register's value.
pub open spec fn reg_update(regs: Seq<u32>, rd: int, val: u32) -> Seq<u32> {
    if rd == 0 {
        regs
    } else {
        regs.update(rd, val)
    }
}

/// A file of 32 registers of 32 bits each. Its view is the sequence of the 32
/// register values as a caller observes them through `get`, so the view's
/// element 0 is always 0.
pub struct Processor {
    registers: [u32; 32],
}

impl View for Processor {
    type V = Seq<u32>;

    closed spec fn view(&self) -> Seq<u32> {
        Seq::new(
            32,
            |i: int|
                if i == 0 {
                    0u32
                } else {
                    self.registers@[i]
                },
        )
    }
}

impl Processor {
    /// A fresh register file with every register zero.
    pub fn new() -> (p: Processor)
        ensures
            p@.len() == 32,
            forall|i: int| 0 <= i < 32 ==> p@[i] == 0,
    {
        Processor { registers: [0; 32] }
    }

    /// Read one register. Register 0 always reads as zero.
    pub fn get(&mut self, reg: Register) -> (val: u32)
        requires
            reg < 32,
        ensures
            *final(self) == *old(self),
            val == old(self)@[reg as int],
            reg == 0 ==> val == 0,
    {
        match reg {
            0 => 0,
            _ => self.registers[reg],
        }
    }

    /// Write one register. A write to register 0 is silently discarded and
    /// changes nothing.
    pub fn set(&mut self, reg: Register, val: u32)
        requires
            reg < 32,
        ensures
            final(self)@ == reg_update(old(self)@, reg as int, val),
    {
        match reg {
            0 => (),
            _ => {
                self.registers[reg] = val;
                proof {
                    assert(self@ =~= old(self)@.update(reg as int, val));
                }
            },
        }
    }

    /// Add the sign-extended immediate to the source register, wrapping on
    /// overflow, and write the sum to the destination. With immediate 0 this
    /// copies the source register.
    pub fn addi(&mut self, rd: Register, rs1: Register, imm: u32)
        requires
            rd < 32,
            rs1 < 32,
        ensures
            final(self)@ == reg_update(old(self)@, rd as int, op_addi(old(self)@[rs1 as int], imm)),
    {
        let src = self.get(rs1);
        let result = src.wrapping_add(imm);
        proof {
            lemma_sum_signed_agrees(src, imm);
            lemma_to_word_sum(src, imm);
        }
        self.set(rd, result);
    }

    /// Write 1 to the destination when the source register is below the
    /// immediate, both read as signed two's-complement values, else 0.
    pub fn slti(&mut self, rd: Register, rs1: Register, imm: u32)
        requires
            rd < 32,
            rs1 < 32,
        ensures
            final(self)@ == reg_update(old(self)@, rd as int, op_slti(old(self)@[rs1 as int], imm)),
    {
        let src = self.get(rs1);
        let result: u32 = if signed_lt(src, imm) {
            1
        } else {
            0
        };
        self.set(rd, result);
    }

    /// Write 1 to the destination when the source register is below the
    /// immediate, both compared as unsigned bit patterns, else 0. With
    /// immediate bit pattern 1 this sets the destination exactly when the
    /// source is zero.
    pub fn sltiu(&mut self, rd: Register, rs1: Register, imm: u32)
        requires
            rd < 32,
            rs1 < 32,
        ensures
            final(self)@ == reg_update(old(self)@, rd as int, op_sltiu(old(self)@[rs1 as int], imm)),
    {
        let src = self.get(rs1);
        let result: u32 = if src < imm {
            1
        } else {
            0
        };
        self.set(rd, result);
    }

    /// Write the bitwise AND of the source register and the immediate to the
    /// destination.
    pub fn andi(&mut self, rd: Register, rs1: Register, imm: u32)
        requires
            rd < 32,
            rs1 < 32,
        ensures
            final(self)@ == reg_update(old(self)@, rd as int, op_andi(old(self)@[rs1 as int], imm)),
    {
        let src = self.get(rs1);
        self.set(rd, src & imm);
    }

    /// Write the bitwise OR of the source register and the immediate to the
    /// destination.
    pub fn ori(&mut self, rd: Register, rs1: Register, imm: u32)
        requires
            rd < 32,
            rs1 < 32,
        ensures
            final(self)@ == reg_update(old(self)@, rd as int, op_ori(old(self)@[rs1 as int], imm)),
    {
        let src = self.get(rs1);
        self.set(rd, src | imm);
    }

    /// Write the bitwise XOR of the source register and the immediate to the
    /// destination. With an all-ones immediate this negates every bit of the
    /// source.
    pub fn xori(&mut self, rd: Register, rs1: Register, imm: u32)
        requires
            rd < 32,
            rs1 < 32,
        ensures
            final(self)@ == reg_update(old(self)@, rd as int, op_xori(old(self)@[rs1 as int], imm)),
    {
        let src = self.get(rs1);
        self.set(rd, src ^ imm);
    }

    /// Shift the source register left by the shift amount in the low five
    /// bits of the immediate and write the result to the destination; bits
    /// shifted past bit 31 are discarded.
    pub fn slli(&mut self, rd: Register, rs1: Register, imm: u32)
        requires
            rd < 32,
            rs1 < 32,
        ensures
            final(self)@ == reg_update(old(self)@, rd as int, op_slli(old(self)@[rs1 as int], imm)),
    {
        let src = self.get(rs1);
        let sh: u32 = imm % 32;
        proof {
            lemma_shl_discards_high_bits(src, sh);
        }
        self.set(rd, src << sh);
    }

    /// Shift the source register right by the shift amount in the low five
    /// bits of the immediate, zeroes entering from the left, and write the
    /// result to the destination.
    pub fn srli(&mut self, rd: Register, rs1: Register, imm: u32)
        requires
            rd < 32,
            rs1 < 32,
        ensures
            final(self)@ == reg_update(old(self)@, rd as int, op_srli(old(self)@[rs1 as int], imm)),
    {
        let src = self.get(rs1);
        let sh: u32 = imm % 32;
        proof {
            lemma_u32_shr_is_div(src, sh);
        }
        self.set(rd, src >> sh);
    }

    /// Shift the source register right by the shift amount in the low five
    /// bits of the immediate, copies of the original sign bit entering from
    /// the left, and write the result to the destination.
    pub fn srai(&mut self, rd: Register, rs1: Register, imm: u32)
        requires
            rd < 32,
            rs1 < 32,
        ensures
            final(self)@ == reg_update(old(self)@, rd as int, op_srai(old(self)@[rs1 as int], imm)),
    {
        let src = self.get(rs1);
        let sh: u32 = imm % 32;
        let result: u32 = if src < 0x8000_0000 {
            proof {
                lemma_sra_nonnegative(src, sh);
            }
            src >> sh
        } else if sh == 0 {
            proof {
                lemma_sra_shift_zero(src);
            }
            src
        } else {
            proof {
                lemma_sra_negative(src, sh);
            }
            (src >> sh) | (0xffff_ffffu32 << (32 - sh))
        };
        self.set(rd, result);
    }

    /// Dispatch one operation: read the source register, compute the
    /// operation's result with the immediate, and write it to the
    /// destination register.
    pub fn apply(&mut self, inst: Instruction, rd: Register, rs1: Register, imm: u32)
        requires
            rd < 32,
            rs1 < 32,
        ensures
            final(self)@ == reg_update(
                old(self)@,
                rd as int,
                instr_result(inst, old(self)@[rs1 as int], imm),
            ),
    {
        match inst {
            Instruction::Addi => self.addi(rd, rs1, imm),
            Instruction::Slti => self.slti(rd, rs1, imm),
            Instruction::Sltiu => self.sltiu(rd, rs1, imm),
            Instruction::Andi => self.andi(rd, rs1, imm),
            Instruction::Ori => self.ori(rd, rs1, imm),
            Instruction::Xori => self.xori(rd, rs1, imm),
            Instruction::Slli => self.slli(rd, rs1, imm),
            Instruction::Srli => self.srli(rd, rs1, imm),
            Instruction::Srai => self.srai(rd, rs1, imm),
        }
    }
}

/// Compares two words by their signed two's-complement readings.
fn signed_lt(a: u32, b: u32) -> (r: bool)
    ensures
        r == (to_signed(a) < to_signed(b)),
{
    let a_neg = a >= 0x8000_0000;
    let b_neg = b >= 0x8000_0000;
    if a_neg == b_neg {
        a < b
    } else {
        a_neg
    }
}

/// A power of two with exponent below 32 is at most 2^31, and positive.
proof fn lemma_pow2_within_u32(e: nat)
    requires
        e < 32,
    ensures
        0 < pow2(e) <= 0x8000_0000,
{
    if e < 31 {
        lemma_pow2_strictly_increases(e, 31);
    }
    lemma2_to64();
    lemma_pow2_pos(e);
}

/// A left shift keeps the low bits of the product with 2^sh: shifting is
/// multiplication, reduced modulo 2^32.
proof fn lemma_shl_discards_high_bits(src: u32, sh: u32)
    requires
        sh < 32,
    ensures
        (src << sh) == to_word(src * pow2(sh as nat)),
{
    let p: nat = pow2(sh as nat);
    lemma_pow2_within_u32(sh as nat);
    assert((src as u64) * p <= 0xffff_ffff * 0x8000_0000) by (nonlinear_arith)
        requires
            src <= 0xffff_ffff && 0 < p <= 0x8000_0000,
    ;
    lemma_u64_shl_is_mul(src as u64, sh as u64);
    assert(((src as u64) << (sh as u64)) % 0x1_0000_0000u64 == ((src << sh) as u64)) by (bit_vector)
        requires
            sh < 32,
    ;
    assert(to_word(src * p) == (((src as u64) * p) % 0x1_0000_0000) as u32);
}

/// A right shift of a word without its sign bit set is division of its
/// (nonnegative) signed reading by 2^sh.
proof fn lemma_sra_nonnegative(src: u32, sh: u32)
    requires
        sh < 32,
        src < 0x8000_0000,
    ensures
        (src >> sh) == to_word(to_signed(src) / pow2(sh as nat) as int),
{
    let p: int = pow2(sh as nat) as int;
    lemma_pow2_within_u32(sh as nat);
    lemma_u32_shr_is_div(src, sh);
    lemma_div_pos_is_pos(src as int, p);
    lemma_div_nonincreasing(src as int, p);
    lemma_to_word_small(src as int / p);
}

/// An arithmetic right shift by zero leaves the word unchanged.
proof fn lemma_sra_shift_zero(src: u32)
    ensures
        src == to_word(to_signed(src) / pow2(0) as int),
{
    lemma2_to64();
    lemma_div_basics(to_signed(src));
    lemma_word_of_signed(src);
}

/// A right shift of a word with its sign bit set, with ones filled into the
/// vacated high bits, is division of its (negative) signed reading by 2^sh,
/// rounded toward negative infinity.
proof fn lemma_sra_negative(src: u32, sh: u32)
    requires
        1 <= sh < 32,
        src >= 0x8000_0000,
    ensures
        ((src >> sh) | (0xffff_ffffu32 << (32 - sh))) == to_word(
            to_signed(src) / pow2(sh as nat) as int,
        ),
{
    let k: u32 = (32 - sh) as u32;
    let p: int = pow2(sh as nat) as int;
    let pk: int = pow2(k as nat) as int;
    lemma_pow2_within_u32(sh as nat);
    lemma_pow2_within_u32(k as nat);
    lemma_pow2_adds(sh as nat, k as nat);
    lemma2_to64();
    // The quotient and remainder of the unsigned reading.
    lemma_u32_shr_is_div(src, sh);
    let q0: int = src as int / p;
    let rem: int = src as int % p;
    lemma_fundamental_div_mod(src as int, p);
    // Dividing the signed reading shifts the quotient down by 2^(32 - sh).
    assert(p * (q0 - pk) == p * q0 - p * pk) by {
        lemma_mul_is_distributive_sub(p, q0, pk);
    }
    lemma_fundamental_div_mod_converse(src - 0x1_0000_0000, p, q0 - pk, rem);
    // The quotient fits below 2^(32 - sh), so it misses the filled-in bits.
    lemma_multiply_divide_lt(src as int, p, pk);
    // The filled-in high bits add 2^32 - 2^(32 - sh) to the shifted word.
    lemma_u32_shl_is_mul(1u32, k);
    assert(((src >> sh) | (0xffff_ffffu32 << k)) == (src >> sh) + 0x1_0000_0000 - (1u32 << k))
        by (bit_vector)
        requires
            1 <= sh < 32 && k == 32 - sh,
    ;
    lemma_to_word_negative(q0 - pk);
}

/// Writing to register 0 discards the value: the register file is left
/// exactly as it was, whatever the value.
pub proof fn lemma_write_to_zero_discarded(regs: Seq<u32>, val: u32)
    ensures
        reg_update(regs, 0, val) == regs,
{
}

/// Any operation whose destination is register 0 leaves the whole register
/// file unchanged, whatever the operation, the source value and the
/// immediate.
pub proof fn lemma_zero_destination_unchanged(
    regs: Seq<u32>,
    inst: Instruction,
    src: u32,
    imm: u32,
)
    ensures
        reg_update(regs, 0, instr_result(inst, src, imm)) == regs,
{
}

/// Shifting the all-ones word right logically leaves exactly the shift
/// amount many zero bits at the top and ones below, that is the value
/// 2^(32 - shamt) - 1; shifting it right arithmetically replicates the set
/// sign bit and leaves the word unchanged, whatever the shift amount.
pub proof fn lemma_shift_all_ones(imm: u32)
    ensures
        op_srli(0xffff_ffff, imm) == (pow2((32 - shamt(imm)) as nat) - 1) as u32,
        op_srai(0xffff_ffff, imm) == 0xffff_ffff,
{
    let sh: nat = shamt(imm);
    let p: int = pow2(sh) as int;
    let pk: int = pow2((32 - sh) as nat) as int;
    lemma_pow2_pos(sh);
    lemma_pow2_adds(sh, (32 - sh) as nat);
    lemma2_to64();
    // 2^32 - 1 divided by 2^sh: quotient 2^(32 - sh) - 1, remainder 2^sh - 1.
    assert(p * (pk - 1) == p * pk - p * 1) by {
        lemma_mul_is_distributive_sub(p, pk, 1);
    }
    lemma_fundamental_div_mod_converse(0xffff_ffff, p, pk - 1, p - 1);
    // -1 divided by 2^sh: quotient -1, remainder 2^sh - 1.
    assert(to_signed(0xffff_ffff) == -1);
    assert((-1) * p == -p) by {
        lemma_mul_basics(p);
    }
    lemma_fundamental_div_mod_converse(-1, p, -1, p - 1);
    lemma_to_word_negative(-1);
}

} // verus!

