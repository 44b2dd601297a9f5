//! What one fetch-decode-execute cycle of the EC does, as spec functions over
//! the CPU registers and the memory contents.
use vstd::prelude::*;

use crate::cpu::instruction::{Address, Instruction};
use crate::cpu::opcode::{OpCode, OpCodeValue, OpType};
use crate::cpu::{AluOpType, Ccr, Cpu};
use crate::mem::{with_word, word_at, word_in_memory, SIZE};
use crate::sv::Action;
use crate::EcError;

verus! {

/// The condition code that a value sets: greater, lower or equal to zero.
pub open spec fn ccr_of(value: i32) -> Ccr {
    if value > 0 {
        Ccr::Greater
    } else if value < 0 {
        Ccr::Lower
    } else {
        Ccr::Equal
    }
}

/// Whether `mask` selects the condition code `ccr`: bit 3 selects overflow,
/// bit 2 greater, bit 1 lower and bit 0 equal; no mask selects an empty code.
pub open spec fn mask_holds(ccr: Ccr, mask: u8) -> bool {
    match ccr {
        Ccr::Overflow => (mask & (1u8 << 3u8)) != 0,
        Ccr::Greater => (mask & (1u8 << 2u8)) != 0,
        Ccr::Lower => (mask & (1u8 << 1u8)) != 0,
        Ccr::Equal => (mask & 1u8) != 0,
        Ccr::Empty => false,
    }
}

/// The format of the instructions with operation code `op_code`, if it is
/// the code of an operation.
pub open spec fn op_type_of(op_code: OpCode) -> Option<OpType> {
    match OpCodeValue::spec_from_u8(op_code) {
        Some(o) => Some(o.spec_op_type()),
        None => None,
    }
}

/// The indirect bit (bit 6) and the operation code (the low seven bits) of
/// the first character of an instruction.
pub open spec fn opcode_fields(byte: u8) -> (u8, OpCode) {
    (
        if byte & 0x40 != 0 {
            1u8
        } else {
            0u8
        },
        byte & 0x7f,
    )
}

/// The two register designators of a character: its high and low halves.
pub open spec fn register_fields(byte: u8) -> (u8, u8) {
    ((byte & 0xf0) >> 4u8, byte & 0x0f)
}

/// The storage address of the instruction at `a`: its third and fourth
/// characters, most significant first.
pub open spec fn operand_address(m: Seq<u8>, a: int) -> Address {
    (m[a + 2] as int * 256 + m[a + 3] as int) as Address
}

/// The register and the immediate value of the instruction at `a`: the high
/// half of its second character, then the twenty bits that follow.
pub open spec fn immediate_fields(m: Seq<u8>, a: int) -> (u8, i32) {
    (
        (m[a + 1] & 0xf0) >> 4u8,
        ((m[a + 1] & 0x0f) as int * 65536 + m[a + 2] as int * 256 + m[a + 3] as int) as i32,
    )
}

/// The number of characters of an instruction of the given format: two for
/// the register-register formats, four otherwise.
pub open spec fn instruction_length(op_type: Option<OpType>) -> int {
    match op_type {
        Some(OpType::Rr) | Some(OpType::Rrm) => 2,
        _ => 4,
    }
}

/// The instruction at `ilc`, or `None` where decoding it would read beyond
/// memory.  A code of no format decodes to `Nothing`, and so does `LR 0, 0`,
/// which ends the program.
pub open spec fn decode(m: Seq<u8>, ilc: int) -> Option<Instruction> {
    if !(0 <= ilc < m.len()) {
        None
    } else {
        let op_code = opcode_fields(m[ilc]).1;
        match op_type_of(op_code) {
            None => Some(Instruction::Nothing),
            Some(op_type) => {
                let o = OpCodeValue::spec_from_u8(op_code).unwrap();
                match op_type {
                    OpType::Rr => if ilc + 1 < m.len() {
                        let (r1, r2) = register_fields(m[ilc + 1]);
                        if o == OpCodeValue::Lr && r1 == 0 && r2 == 0 {
                            Some(Instruction::Nothing)
                        } else {
                            Some(Instruction::RegisterRegister(o, r1, r2))
                        }
                    } else {
                        None
                    },
                    OpType::Rrm => if ilc + 1 < m.len() {
                        let (m1, r2) = register_fields(m[ilc + 1]);
                        Some(Instruction::RegisterRegisterMask(o, m1, r2))
                    } else {
                        None
                    },
                    OpType::Rs => if ilc + 3 < m.len() {
                        let (r1, r2) = register_fields(m[ilc + 1]);
                        Some(Instruction::RegisterStorage(o, r1, r2, operand_address(m, ilc)))
                    } else {
                        None
                    },
                    OpType::Im => if ilc + 3 < m.len() {
                        let (r1, value) = immediate_fields(m, ilc);
                        Some(Instruction::Immediate(o, r1, value))
                    } else {
                        None
                    },
                    OpType::Ch => if ilc + 3 < m.len() {
                        let (r1, r2) = register_fields(m[ilc + 1]);
                        Some(Instruction::Character(o, r1, r2, operand_address(m, ilc)))
                    } else {
                        None
                    },
                }
            },
        }
    }
}

/// The arithmetic or logical operation that `o` performs, if it is one.
pub open spec fn alu_kind(o: OpCodeValue) -> Option<AluOpType> {
    match o {
        OpCodeValue::And | OpCodeValue::Andr | OpCodeValue::Andi | OpCodeValue::Andc => Some(
            AluOpType::And,
        ),
        OpCodeValue::Or | OpCodeValue::Orr | OpCodeValue::Ori | OpCodeValue::Orc => Some(
            AluOpType::Or,
        ),
        OpCodeValue::Xor | OpCodeValue::Xorr | OpCodeValue::Xori | OpCodeValue::Xorc => Some(
            AluOpType::Xor,
        ),
        OpCodeValue::Not | OpCodeValue::Notr | OpCodeValue::Noti | OpCodeValue::Notc => Some(
            AluOpType::Not,
        ),
        OpCodeValue::A | OpCodeValue::Ar | OpCodeValue::Ai | OpCodeValue::Ac => Some(
            AluOpType::Add,
        ),
        OpCodeValue::S | OpCodeValue::Sr | OpCodeValue::Si | OpCodeValue::Sc => Some(
            AluOpType::Sub,
        ),
        OpCodeValue::Rs | OpCodeValue::Rsr | OpCodeValue::Rsi | OpCodeValue::Rsc => Some(
            AluOpType::RSub,
        ),
        OpCodeValue::M | OpCodeValue::Mr | OpCodeValue::Mi | OpCodeValue::Mc => Some(
            AluOpType::Mul,
        ),
        OpCodeValue::D | OpCodeValue::Dr | OpCodeValue::Di | OpCodeValue::Dc => Some(
            AluOpType::Div,
        ),
        OpCodeValue::Rd | OpCodeValue::Rdr | OpCodeValue::Rdi | OpCodeValue::Rdc => Some(
            AluOpType::RDiv,
        ),
        OpCodeValue::Rem | OpCodeValue::Remr | OpCodeValue::Remi | OpCodeValue::Remc => Some(
            AluOpType::Rem,
        ),
        OpCodeValue::Rrem | OpCodeValue::Rremr | OpCodeValue::Rremi | OpCodeValue::Rremc => Some(
            AluOpType::RRem,
        ),
        _ => None,
    }
}

/// An `i32` result, or `None` where the operation overflows.
pub open spec fn performed(r: Option<i32>) -> Option<Result<i32, EcError>> {
    match r {
        Some(v) => Some(Ok(v)),
        None => None,
    }
}

/// A division or remainder of `dividend` by `divisor`: `ZeroDivisor` for a
/// zero divisor, otherwise the operation `r` (`None` where it overflows).
pub open spec fn divided(divisor: i32, r: Option<i32>) -> Option<Result<i32, EcError>> {
    if divisor == 0 {
        Some(Err(EcError::ZeroDivisor))
    } else {
        performed(r)
    }
}

/// The result of an arithmetic or logical operation on `op1` and `op2`:
/// `Err(ZeroDivisor)` where a division or remainder has a zero divisor, and
/// `None` where the `i32` operation overflows (and so panics).  `Not`
/// complements `op2`; the reversed operations swap their operands; division
/// and remainder truncate toward zero.
pub open spec fn alu_result(kind: AluOpType, op1: i32, op2: i32) -> Option<Result<i32, EcError>> {
    match kind {
        AluOpType::And => Some(Ok(op1 & op2)),
        AluOpType::Or => Some(Ok(op1 | op2)),
        AluOpType::Xor => Some(Ok(op1 ^ op2)),
        AluOpType::Not => Some(Ok(!op2)),
        AluOpType::Add => performed(op1.checked_add(op2)),
        AluOpType::Sub => performed(op1.checked_sub(op2)),
        AluOpType::RSub => performed(op2.checked_sub(op1)),
        AluOpType::Mul => performed(op1.checked_mul(op2)),
        AluOpType::Div => divided(op2, op1.checked_div(op2)),
        AluOpType::RDiv => divided(op1, op2.checked_div(op1)),
        AluOpType::Rem => divided(op2, op1.checked_rem(op2)),
        AluOpType::RRem => divided(op1, op2.checked_rem(op1)),
    }
}

/// The condition code after an arithmetic or logical operation: only
/// subtraction sets it, from its result.
pub open spec fn alu_ccr(kind: AluOpType, ccr: Ccr, result: i32) -> Ccr {
    if kind == AluOpType::Sub {
        ccr_of(result)
    } else {
        ccr
    }
}

/// The condition code, instruction location counter, memory contents and
/// result after a cycle.
pub type Outcome = (Ccr, usize, Seq<u8>, Result<Action, EcError>);

/// The word operation `kind` on the word at `a1` and `op2`, with the result
/// stored at `a1` and the counter moved to `ilc`.  An error leaves all as it
/// was, the counter at the instruction (`at`).
pub open spec fn alu_outcome(
    ccr: Ccr,
    at: usize,
    ilc: usize,
    m: Seq<u8>,
    a1: int,
    op2: i32,
    kind: AluOpType,
) -> Option<Outcome> {
    match alu_result(kind, word_at(m, a1), op2) {
        Some(Ok(r)) => Some((alu_ccr(kind, ccr, r), ilc, with_word(m, a1, r), Ok(Action::Nothing))),
        Some(Err(e)) => Some((ccr, at, m, Err(e))),
        None => None,
    }
}

/// The supervisor call selected by the value of the call's register.
pub open spec fn svc_action(id: i32, address: Address) -> Action {
    if id == 1 {
        Action::ReadInt(address)
    } else if id == 3 {
        Action::ReadChar(address)
    } else if id == 5 {
        Action::WriteInt(address)
    } else if id == 7 {
        Action::WriteChar(address)
    } else {
        Action::Exit
    }
}

/// The address of the word of register `r`.
pub open spec fn reg(r: u8) -> int {
    4 * r
}

/// Whether `o` reads or writes a word at its storage operand.
pub open spec fn word_operation(o: OpCodeValue) -> bool {
    o == OpCodeValue::L || o == OpCodeValue::St || o == OpCodeValue::Swap || o == OpCodeValue::Min
        || o == OpCodeValue::Max || alu_kind(o) is Some
}

/// The outcome of executing `instruction`, which stands at `at`, with the
/// instruction location counter already past it (`ilc`); `None` where the
/// instruction would reach beyond memory or overflow.  A word operand whose
/// address is not divisible by four, and a zero divisor, are errors that
/// leave all as it was.
pub open spec fn execute(
    ccr: Ccr,
    at: usize,
    ilc: usize,
    m: Seq<u8>,
    instruction: Instruction,
) -> Option<Outcome> {
    let done = |m2: Seq<u8>| Some((ccr, ilc, m2, Ok(Action::Nothing)));
    let exit = Some((ccr, ilc, m, Ok(Action::Exit)));
    let misaligned = Some((ccr, at, m, Err(EcError::WordAddressingError)));
    match instruction {
        Instruction::RegisterStorage(o, r1, _r2, address) => {
            let a = address as int;
            let v1 = word_at(m, reg(r1));
            if o == OpCodeValue::Svc {
                Some((ccr, ilc, m, Ok(svc_action(v1, address))))
            } else if !word_operation(o) {
                exit
            } else if a % 4 != 0 {
                misaligned
            } else if !word_in_memory(a) {
                None
            } else {
                let v = word_at(m, a);
                match o {
                    OpCodeValue::L => done(with_word(m, reg(r1), v)),
                    OpCodeValue::St => done(with_word(m, a, v1)),
                    OpCodeValue::Swap => done(with_word(with_word(m, reg(r1), v), a, v1)),
                    OpCodeValue::Min => done(
                        with_word(
                            m,
                            reg(r1),
                            if v1 <= v {
                                v1
                            } else {
                                v
                            },
                        ),
                    ),
                    OpCodeValue::Max => done(
                        with_word(
                            m,
                            reg(r1),
                            if v1 >= v {
                                v1
                            } else {
                                v
                            },
                        ),
                    ),
                    _ => alu_outcome(ccr, at, ilc, m, reg(r1), v, alu_kind(o).unwrap()),
                }
            }
        },
        Instruction::RegisterRegister(o, r1, r2) => {
            let v1 = word_at(m, reg(r1));
            let v2 = word_at(m, reg(r2));
            match o {
                OpCodeValue::Lr => done(with_word(m, reg(r1), v2)),
                OpCodeValue::Lnr => match (!v2).checked_add(1) {
                    Some(v) => done(with_word(m, reg(r1), v)),
                    None => None,
                },
                OpCodeValue::Str => done(with_word(m, reg(r2), v1)),
                OpCodeValue::Swapr => done(with_word(with_word(m, reg(r1), v2), reg(r2), v1)),
                OpCodeValue::Balr => {
                    let m2 = with_word(m, reg(r1), ilc as i32);
                    Some((ccr, word_at(m2, reg(r2)) as usize, m2, Ok(Action::Nothing)))
                },
                _ => match alu_kind(o) {
                    Some(kind) => alu_outcome(ccr, at, ilc, m, reg(r1), v2, kind),
                    None => exit,
                },
            }
        },
        Instruction::RegisterRegisterMask(o, mask, r2) => {
            let v2 = word_at(m, reg(r2));
            match o {
                OpCodeValue::Bcsr => Some(
                    (
                        ccr,
                        if mask_holds(ccr, mask) {
                            v2 as usize
                        } else {
                            ilc
                        },
                        m,
                        Ok(Action::Nothing),
                    ),
                ),
                OpCodeValue::Bcrr => Some(
                    (
                        ccr,
                        if !mask_holds(ccr, mask) {
                            v2 as usize
                        } else {
                            ilc
                        },
                        m,
                        Ok(Action::Nothing),
                    ),
                ),
                OpCodeValue::Sacr => done(
                    with_word(
                        m,
                        reg(r2),
                        if mask_holds(ccr, mask) {
                            i32::MIN
                        } else {
                            0
                        },
                    ),
                ),
                _ => exit,
            }
        },
        Instruction::Immediate(o, r1, value) => match o {
            OpCodeValue::Li => Some((ccr_of(value), ilc, with_word(m, reg(r1), value), Ok(Action::Nothing))),
            _ => match alu_kind(o) {
                Some(kind) => alu_outcome(ccr, at, ilc, m, reg(r1), value, kind),
                None => exit,
            },
        },
        Instruction::Character(o, r1, _r2, address) => match alu_kind(o) {
            Some(kind) => if address as int % 4 != 0 {
                misaligned
            } else if word_in_memory(address as int) {
                alu_outcome(ccr, at, ilc, m, reg(r1), word_at(m, address as int), kind)
            } else {
                None
            },
            None => exit,
        },
        Instruction::Nothing => exit,
    }
}

/// One fetch-decode-execute cycle from the CPU state `cpu` on memory `m`:
/// an odd instruction location counter, and a code of no operation, are
/// refused with an error that leaves all as it was; otherwise the counter
/// moves past the decoded instruction, which then executes.  `None` where
/// the cycle would reach beyond memory or overflow.
pub open spec fn step(cpu: Cpu, m: Seq<u8>) -> Option<Outcome> {
    if cpu.ilc % 2 != 0 {
        Some((cpu.ccr, cpu.ilc, m, Err(EcError::IllegalInstructionAddress)))
    } else if cpu.ilc >= m.len() {
        None
    } else if op_type_of(opcode_fields(m[cpu.ilc as int]).1) is None {
        Some((cpu.ccr, cpu.ilc, m, Err(EcError::UnimplementedInstruction)))
    } else {
        match decode(m, cpu.ilc as int) {
            None => None,
            Some(instruction) => execute(
                cpu.ccr,
                cpu.ilc,
                (cpu.ilc + instruction_length(op_type_of(opcode_fields(m[cpu.ilc as int]).1))) as usize,
                m,
                instruction,
            ),
        }
    }
}

/// Whether the instruction at `ilc` has a storage operand whose word covers `j`.
pub open spec fn operand_covers(m: Seq<u8>, ilc: int, j: int) -> bool {
    match decode(m, ilc) {
        Some(Instruction::RegisterStorage(_, _, _, a)) => a <= j < a + 4,
        Some(Instruction::Character(_, _, _, a)) => a <= j < a + 4,
        _ => false,
    }
}

/// A cycle at an odd instruction location counter is refused with
/// `IllegalInstructionAddress` and changes nothing.
pub proof fn lemma_odd_ilc_refused(cpu: Cpu, m: Seq<u8>)
    requires
        cpu.ilc % 2 != 0,
    ensures
        step(cpu, m) == Some((cpu.ccr, cpu.ilc, m, Err::<Action, EcError>(EcError::IllegalInstructionAddress))),
{
}

/// A cycle writes only the registers (the first 64 characters) and the word
/// at its instruction's storage operand; memory keeps its size.
pub proof fn lemma_step_frame(cpu: Cpu, m: Seq<u8>, j: int)
    requires
        m.len() == SIZE,
        step(cpu, m) is Some,
        64 <= j < SIZE,
    ensures
        step(cpu, m).unwrap().2.len() == SIZE,
        step(cpu, m).unwrap().2[j] != m[j] ==> operand_covers(m, cpu.ilc as int, j),
{
    let ilc = cpu.ilc as int;
    if cpu.ilc % 2 == 0 && ilc + 1 < m.len() {
        lemma_register_fields_small(m[ilc + 1]);
    }
}

proof fn lemma_register_fields_small(b: u8)
    ensures
        register_fields(b).0 < 16,
        register_fields(b).1 < 16,
{
    assert(((b & 0xf0u8) >> 4u8) < 16u8 && (b & 0x0fu8) < 16u8) by (bit_vector);
}

/// The reversed operations are the plain ones with their operands swapped,
/// and `Not` depends only on its second operand.
pub proof fn lemma_reversed_operations(a: i32, b: i32, x: i32)
    ensures
        alu_result(AluOpType::RSub, a, b) == alu_result(AluOpType::Sub, b, a),
        alu_result(AluOpType::RDiv, a, b) == alu_result(AluOpType::Div, b, a),
        alu_result(AluOpType::RRem, a, b) == alu_result(AluOpType::Rem, b, a),
        alu_result(AluOpType::Not, a, b) == alu_result(AluOpType::Not, x, b),
{
}

/// A division or remainder by zero is the error `ZeroDivisor`.
pub proof fn lemma_zero_divisor(a: i32)
    ensures
        alu_result(AluOpType::Div, a, 0) == Some(Err::<i32, EcError>(EcError::ZeroDivisor)),
        alu_result(AluOpType::Rem, a, 0) == Some(Err::<i32, EcError>(EcError::ZeroDivisor)),
        alu_result(AluOpType::RDiv, 0, a) == Some(Err::<i32, EcError>(EcError::ZeroDivisor)),
        alu_result(AluOpType::RRem, 0, a) == Some(Err::<i32, EcError>(EcError::ZeroDivisor)),
{
}

/// A cycle that ends in an error changes nothing: the condition code, the
/// instruction location counter and memory stay as they were.
pub proof fn lemma_error_changes_nothing(cpu: Cpu, m: Seq<u8>)
    requires
        step(cpu, m) matches Some((_, _, _, Err(_))),
    ensures
        step(cpu, m).unwrap().0 == cpu.ccr,
        step(cpu, m).unwrap().1 == cpu.ilc,
        step(cpu, m).unwrap().2 == m,
{
}

/// A code of no operation at an even counter is refused with
/// `UnimplementedInstruction`.
pub proof fn lemma_unimplemented_refused(cpu: Cpu, m: Seq<u8>)
    requires
        cpu.ilc % 2 == 0,
        cpu.ilc < m.len(),
        OpCodeValue::spec_from_u8(opcode_fields(m[cpu.ilc as int]).1) is None,
    ensures
        step(cpu, m) == Some((cpu.ccr, cpu.ilc, m, Err::<Action, EcError>(EcError::UnimplementedInstruction))),
{
}

} // verus!
