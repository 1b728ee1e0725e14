//! Register-file and immediate-operand instruction semantics for a 32-bit
//! integer instruction set.
//!
//! The crate models a file of 32 registers whose index 0 is hard-wired to
//! zero, the nine immediate-form integer operations (add, signed and unsigned
//! compare, the three bitwise operations, and the three shifts), and the
//! sign extension of a 12-bit immediate field to a 32-bit word.

pub mod imm;
pub mod processor;
pub mod word;
