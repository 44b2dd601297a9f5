//! Decoded instructions.
use vstd::prelude::*;

use crate::cpu::opcode::OpCodeValue;

verus! {

/// Number of a general purpose register (0 to 15).
pub type Register = u8;

/// An address in EC memory.
pub type Address = u16;

/// A decoded CPU instruction.
#[derive(Debug, Clone, Copy, PartialEq, Eq, Structural)]
pub enum Instruction {
    /// No instruction: `LR 0, 0`, which ends the program.  `decode` also
    /// gives it for a code of no operation, which a cycle refuses before it
    /// decodes.
    Nothing,
    RegisterRegister(OpCodeValue, Register, Register),
    /// A register-register instruction whose first operand is a mask of
    /// condition code bits.
    RegisterRegisterMask(OpCodeValue, Register, Register),
    RegisterStorage(OpCodeValue, Register, Register, Address),
    Immediate(OpCodeValue, Register, i32),
    Character(OpCodeValue, Register, Register, Address),
}

} // verus!
