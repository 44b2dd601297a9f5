//! The central processing unit of the EC.
use vstd::prelude::*;

pub mod instruction;
pub mod opcode;
pub mod laws;
pub mod semantics;

use crate::cpu::instruction::{Address, Instruction, Register};
use crate::cpu::opcode::{OpCode, OpCodeValue, OpType};
use crate::cpu::semantics::{
    alu_ccr, alu_kind, alu_result, ccr_of, decode, divided, execute, immediate_fields, mask_holds,
    op_type_of, opcode_fields, operand_address, performed, register_fields, step,
};
use crate::mem::{with_word, word_at, word_in_memory, Memory, SIZE};
use crate::sv::Action;
use crate::EcError;

verus! {

pub type IndirectBit = u8;

/// Offset of the register designators within an instruction.
pub const REGISTERS_OFFSET: usize = 1;

/// Offset of the storage address within an instruction.
pub const ADDRESS_OFFSET: usize = 2;

/// The word operations of the arithmetic and logic unit.
#[derive(Debug, Clone, Copy, PartialEq, Eq, Structural)]
pub enum AluOpType {
    And,
    Or,
    Xor,
    Not,
    Add,
    Sub,
    RSub,
    Mul,
    Div,
    RDiv,
    Rem,
    RRem,
}

/// The condition code register.
#[derive(Debug, Clone, Copy, PartialEq, Eq, Structural)]
pub enum Ccr {
    Empty,
    Overflow,
    Greater,
    Lower,
    Equal,
}

/// The CPU: its condition code and its instruction location counter (ILC).
/// The memory it works on is handed to each cycle.
pub struct Cpu {
    pub ccr: Ccr,
    pub ilc: usize,
}

impl Cpu {
    /// A CPU with an empty condition code, about to run the instruction at 0x40.
    pub fn new() -> (cpu: Cpu)
        ensures
            cpu.ccr == Ccr::Empty,
            cpu.ilc == 0x40,
    {
        Cpu { ccr: Ccr::Empty, ilc: 0x40 }
    }

    fn set_ccr(&mut self, value: i32)
        ensures
            final(self).ccr == ccr_of(value),
            final(self).ilc == old(self).ilc,
    {
        if value > 0 {
            self.ccr = Ccr::Greater;
        } else if value < 0 {
            self.ccr = Ccr::Lower;
        } else if value == 0 {
            self.ccr = Ccr::Equal;
        }
    }

    fn mask_ccr(&self, mask: u8) -> (r: bool)
        ensures
            r == mask_holds(self.ccr, mask),
    {
        match &self.ccr {
            Ccr::Overflow => (mask & (1u8 << 3u8)) != 0,
            Ccr::Greater => (mask & (1u8 << 2u8)) != 0,
            Ccr::Lower => (mask & (1u8 << 1u8)) != 0,
            Ccr::Equal => (mask & 1u8) != 0,
            Ccr::Empty => false,
        }
    }

    fn op_type(op_code: OpCode) -> (r: Option<OpType>)
        ensures
            r == op_type_of(op_code),
    {
        match OpCodeValue::from_u8(op_code) {
            Some(o) => Some(o.op_type()),
            None => None,
        }
    }

    /// The indirect bit and the operation code of the instruction at `address`.
    pub fn read_opcode(&self, mem: &Memory, address: usize) -> (r: (IndirectBit, OpCode))
        requires
            address < SIZE,
        ensures
            r == opcode_fields(mem@[address as int]),
    {
        let byte = mem.get(address);
        (if (byte & 0x40) != 0 {
            1
        } else {
            0
        }, byte & 0x7f)
    }

    /// The two register designators held by the character at `address`.
    pub fn read_op_registers(&self, mem: &Memory, address: usize) -> (r: (Register, Register))
        requires
            address < SIZE,
        ensures
            r == register_fields(mem@[address as int]),
    {
        let registers_byte = mem.get(address);
        ((registers_byte & 0xf0) >> 4u8, registers_byte & 0x0f)
    }

    fn read_op_address(&self, mem: &Memory, address: usize) -> (r: Address)
        requires
            address + 4 <= SIZE,
        ensures
            r == operand_address(mem@, address as int),
    {
        let hi = mem.get(address + ADDRESS_OFFSET);
        let lo = mem.get(address + ADDRESS_OFFSET + 1);
        assert((hi as u16) << 8u16 == hi as u16 * 256) by (bit_vector);
        ((hi as Address) << 8u16) + (lo as Address)
    }

    fn read_r1_and_value(&self, mem: &Memory, address: usize) -> (r: (Register, i32))
        requires
            address + 4 <= SIZE,
        ensures
            r == immediate_fields(mem@, address as int),
    {
        let b1 = mem.get(address + 1);
        let b2 = mem.get(address + 2);
        let b3 = mem.get(address + 3);
        let value: u32 = (((b1 & 0xf) as u32) << 16u32) | ((b2 as u32) << 8u32) | (b3 as u32);
        assert(value == (b1 & 0xf) as int * 65536 + b2 as int * 256 + b3 as int) by (bit_vector)
            requires
                value == (((b1 & 0xf) as u32) << 16u32) | ((b2 as u32) << 8u32) | (b3 as u32),
        ;
        ((b1 & 0xf0) >> 4u8, value as i32)
    }

    fn alu_op(&mut self, op1: i32, op2: i32, alu_op_type: &AluOpType) -> (r: Option<
        Result<i32, EcError>,
    >)
        ensures
            r == alu_result(*alu_op_type, op1, op2),
            final(self).ilc == old(self).ilc,
            final(self).ccr == match r {
                Some(Ok(v)) => alu_ccr(*alu_op_type, old(self).ccr, v),
                _ => old(self).ccr,
            },
    {
        match alu_op_type {
            AluOpType::And => Some(Ok(op1 & op2)),
            AluOpType::Or => Some(Ok(op1 | op2)),
            AluOpType::Xor => Some(Ok(op1 ^ op2)),
            AluOpType::Not => Some(Ok(!op2)),
            AluOpType::Add => performed_op(op1.checked_add(op2)),
            AluOpType::Sub => {
                let result = op1.checked_sub(op2);
                if let Some(v) = result {
                    self.set_ccr(v);
                }
                performed_op(result)
            },
            AluOpType::RSub => performed_op(op2.checked_sub(op1)),
            AluOpType::Mul => performed_op(op1.checked_mul(op2)),
            AluOpType::Div => divided_op(op2, op1.checked_div(op2)),
            AluOpType::RDiv => divided_op(op1, op2.checked_div(op1)),
            AluOpType::Rem => divided_op(op2, op1.checked_rem(op2)),
            AluOpType::RRem => divided_op(op1, op2.checked_rem(op1)),
        }
    }

    /// Applies `alu_op_type` to the word at `addr1` and `op2`, storing the
    /// result at `addr1`; an error (`ZeroDivisor`) or `None` (overflow)
    /// leaves all as it was.
    fn alu1(&mut self, mem: &mut Memory, addr1: usize, op2: i32, alu_op_type: &AluOpType) -> (r:
        Option<Result<(), EcError>>)
        requires
            word_in_memory(addr1 as int),
        ensures
            match alu_result(*alu_op_type, word_at(old(mem)@, addr1 as int), op2) {
                Some(Ok(v)) => r == Some(Ok::<(), EcError>(())) && final(self).ccr == alu_ccr(
                    *alu_op_type,
                    old(self).ccr,
                    v,
                ) && final(self).ilc == old(self).ilc && final(mem)@ == with_word(
                    old(mem)@,
                    addr1 as int,
                    v,
                ),
                Some(Err(e)) => r == Some(Err::<(), EcError>(e)) && *final(self) == *old(self)
                    && final(mem)@ == old(mem)@,
                None => r is None && *final(self) == *old(self) && final(mem)@ == old(mem)@,
            },
    {
        let op1 = mem.read_word(addr1);
        match self.alu_op(op1, op2, alu_op_type) {
            Some(Ok(result)) => {
                mem.write_word(addr1, result);
                Some(Ok(()))
            },
            Some(Err(e)) => Some(Err(e)),
            None => None,
        }
    }

    /// Applies `alu_op_type` to the words at `addr1` and `addr2`, storing the
    /// result at `addr1`; an error (`ZeroDivisor`) or `None` (overflow)
    /// leaves all as it was.
    fn alu2(&mut self, mem: &mut Memory, addr1: usize, addr2: usize, alu_op_type: &AluOpType) -> (r:
        Option<Result<(), EcError>>)
        requires
            word_in_memory(addr1 as int),
            word_in_memory(addr2 as int),
        ensures
            match alu_result(
                *alu_op_type,
                word_at(old(mem)@, addr1 as int),
                word_at(old(mem)@, addr2 as int),
            ) {
                Some(Ok(v)) => r == Some(Ok::<(), EcError>(())) && final(self).ccr == alu_ccr(
                    *alu_op_type,
                    old(self).ccr,
                    v,
                ) && final(self).ilc == old(self).ilc && final(mem)@ == with_word(
                    old(mem)@,
                    addr1 as int,
                    v,
                ),
                Some(Err(e)) => r == Some(Err::<(), EcError>(e)) && *final(self) == *old(self)
                    && final(mem)@ == old(mem)@,
                None => r is None && *final(self) == *old(self) && final(mem)@ == old(mem)@,
            },
    {
        let op2 = mem.read_word(addr2);
        self.alu1(mem, addr1, op2, alu_op_type)
    }

    /// The instruction at the ILC, or `None` where decoding it would read
    /// beyond memory.
    fn read_instruction(&self, mem: &Memory) -> (r: Option<Instruction>)
        ensures
            r == decode(mem@, self.ilc as int),
    {
        broadcast use Memory::lemma_view_len;

        if self.ilc >= SIZE {
            return None;
        }
        let (_indirect_bit, op_code) = self.read_opcode(mem, self.ilc);
        match Cpu::op_type(op_code) {
            Some(OpType::Rr) => {
                if self.ilc + REGISTERS_OFFSET >= SIZE {
                    return None;
                }
                let (r1, r2) = self.read_op_registers(mem, self.ilc + REGISTERS_OFFSET);
                let o = OpCodeValue::from_u8(op_code).unwrap();
                match o {
                    OpCodeValue::Lr => {
                        if r1 == 0 && r2 == 0 {
                            return Some(Instruction::Nothing);
                        }
                        Some(Instruction::RegisterRegister(OpCodeValue::Lr, r1, r2))
                    },
                    _ => Some(Instruction::RegisterRegister(o, r1, r2)),
                }
            },
            Some(OpType::Rrm) => {
                if self.ilc + REGISTERS_OFFSET >= SIZE {
                    return None;
                }
                let (m1, r2) = self.read_op_registers(mem, self.ilc + REGISTERS_OFFSET);
                let o = OpCodeValue::from_u8(op_code).unwrap();
                Some(Instruction::RegisterRegisterMask(o, m1, r2))
            },
            Some(OpType::Rs) => {
                if self.ilc + 3 >= SIZE {
                    return None;
                }
                let (r1, r2) = self.read_op_registers(mem, self.ilc + REGISTERS_OFFSET);
                let address = self.read_op_address(mem, self.ilc);
                let o = OpCodeValue::from_u8(op_code).unwrap();
                Some(Instruction::RegisterStorage(o, r1, r2, address))
            },
            Some(OpType::Im) => {
                if self.ilc + 3 >= SIZE {
                    return None;
                }
                let (r1, value) = self.read_r1_and_value(mem, self.ilc);
                let o = OpCodeValue::from_u8(op_code).unwrap();
                Some(Instruction::Immediate(o, r1, value))
            },
            Some(OpType::Ch) => {
                if self.ilc + 3 >= SIZE {
                    return None;
                }
                let (r1, r2) = self.read_op_registers(mem, self.ilc + REGISTERS_OFFSET);
                let address = self.read_op_address(mem, self.ilc);
                let o = OpCodeValue::from_u8(op_code).unwrap();
                Some(Instruction::Character(o, r1, r2, address))
            },
            None => Some(Instruction::Nothing),
        }
    }

    fn assert_ilc_valid(&self) -> (r: Result<(), EcError>)
        ensures
            r is Ok <==> self.ilc % 2 == 0,
            r is Err ==> r == Err::<(), EcError>(EcError::IllegalInstructionAddress),
    {
        if self.ilc % 2 != 0 {
            return Err(EcError::IllegalInstructionAddress);
        }
        Ok(())
    }
}

impl Cpu {
    /// Executes `instruction`, which stands at the ILC and whose successor is
    /// at `next_ilc`; `None`, with nothing changed, where it would reach
    /// beyond memory or overflow.
    fn execute(&mut self, mem: &mut Memory, instruction: Instruction, next_ilc: usize) -> (r: Option<
        Result<Action, EcError>,
    >)
        requires
            next_ilc <= SIZE + 4,
        ensures
            match execute(
                old(self).ccr,
                old(self).ilc,
                next_ilc,
                old(mem)@,
                instruction,
            ) {
                Some((ccr, ilc, m, result)) => r == Some(result) && final(self).ccr == ccr
                    && final(self).ilc == ilc && final(mem)@ == m,
                None => r is None && *final(self) == *old(self) && final(mem)@ == old(mem)@,
            },
    {
        match instruction {
            Instruction::RegisterStorage(op_code, r1, r2, address) => self.execute_storage(
                mem,
                op_code,
                r1,
                r2,
                address,
                next_ilc,
            ),
            Instruction::RegisterRegister(op_code, r1, r2) => self.execute_registers(
                mem,
                op_code,
                r1,
                r2,
                next_ilc,
            ),
            Instruction::RegisterRegisterMask(op_code, m1, r2) => self.execute_mask(
                mem,
                op_code,
                m1,
                r2,
                next_ilc,
            ),
            Instruction::Immediate(op_code, r1, value) => self.execute_immediate(
                mem,
                op_code,
                r1,
                value,
                next_ilc,
            ),
            Instruction::Character(op_code, r1, r2, address) => self.execute_character(
                mem,
                op_code,
                r1,
                r2,
                address,
                next_ilc,
            ),
            Instruction::Nothing => {
                self.ilc = next_ilc;
                Some(Ok(Action::Exit))
            },
        }
    }

    /// Executes a register-storage instruction.
    fn execute_storage(
        &mut self,
        mem: &mut Memory,
        op_code: OpCodeValue,
        r1: Register,
        r2: Register,
        address: Address,
        next_ilc: usize,
    ) -> (r: Option<Result<Action, EcError>>)
        requires
            next_ilc <= SIZE + 4,
        ensures
            match execute(
                old(self).ccr,
                old(self).ilc,
                next_ilc,
                old(mem)@,
                Instruction::RegisterStorage(op_code, r1, r2, address),
            ) {
                Some((ccr, ilc, m, result)) => r == Some(result) && final(self).ccr == ccr
                    && final(self).ilc == ilc && final(mem)@ == m,
                None => r is None && *final(self) == *old(self) && final(mem)@ == old(mem)@,
            },
    {
        broadcast use Memory::lemma_view_len;

        let ra = (r1 as usize) * 4;
        let a = address as usize;
        if let OpCodeValue::Svc = op_code {
            let action_id = mem.read_reg(r1 as usize);
            self.ilc = next_ilc;
            let action = if action_id == 1 {
                Action::ReadInt(address)
            } else if action_id == 3 {
                Action::ReadChar(address)
            } else if action_id == 5 {
                Action::WriteInt(address)
            } else if action_id == 7 {
                Action::WriteChar(address)
            } else {
                Action::Exit
            };
            return Some(Ok(action));
        }
        let kind = alu_kind_of(op_code);
        let word_operation = match op_code {
            OpCodeValue::L | OpCodeValue::St | OpCodeValue::Swap | OpCodeValue::Min
            | OpCodeValue::Max => true,
            _ => kind.is_some(),
        };
        if !word_operation {
            self.ilc = next_ilc;
            return Some(Ok(Action::Exit));
        }
        if a % 4 != 0 {
            return Some(Err(EcError::WordAddressingError));
        }
        if a > SIZE - 4 {
            return None;
        }
        match op_code {
            OpCodeValue::L => {
                let value = mem.read_word(a);
                mem.write_reg(r1 as usize, value);
            },
            OpCodeValue::St => {
                let value = mem.read_reg(r1 as usize);
                mem.write_word(a, value);
            },
            OpCodeValue::Swap => {
                let r1_value = mem.read_reg(r1 as usize);
                let swap_value = mem.read_word(a);
                mem.write_reg(r1 as usize, swap_value);
                mem.write_word(a, r1_value);
            },
            OpCodeValue::Min => {
                let r1_value = mem.read_reg(r1 as usize);
                let address_value = mem.read_word(a);
                mem.write_reg(
                    r1 as usize,
                    if r1_value <= address_value {
                        r1_value
                    } else {
                        address_value
                    },
                );
            },
            OpCodeValue::Max => {
                let r1_value = mem.read_reg(r1 as usize);
                let address_value = mem.read_word(a);
                mem.write_reg(
                    r1 as usize,
                    if r1_value >= address_value {
                        r1_value
                    } else {
                        address_value
                    },
                );
            },
            _ => {
                match self.alu2(mem, ra, a, &kind.unwrap()) {
                    Some(Ok(())) => {},
                    Some(Err(e)) => {
                        return Some(Err(e));
                    },
                    None => {
                        return None;
                    },
                }
            },
        }
        self.ilc = next_ilc;
        Some(Ok(Action::Nothing))
    }

    /// Executes a register-register instruction.
    fn execute_registers(
        &mut self,
        mem: &mut Memory,
        op_code: OpCodeValue,
        r1: Register,
        r2: Register,
        next_ilc: usize,
    ) -> (r: Option<Result<Action, EcError>>)
        requires
            next_ilc <= SIZE + 4,
        ensures
            match execute(
                old(self).ccr,
                old(self).ilc,
                next_ilc,
                old(mem)@,
                Instruction::RegisterRegister(op_code, r1, r2),
            ) {
                Some((ccr, ilc, m, result)) => r == Some(result) && final(self).ccr == ccr
                    && final(self).ilc == ilc && final(mem)@ == m,
                None => r is None && *final(self) == *old(self) && final(mem)@ == old(mem)@,
            },
    {
        broadcast use Memory::lemma_view_len;

        let ra = (r1 as usize) * 4;
        let rb = (r2 as usize) * 4;
        match op_code {
            OpCodeValue::Lr => {
                let value = mem.read_reg(r2 as usize);
                mem.write_reg(r1 as usize, value);
            },
            OpCodeValue::Lnr => {
                let value = mem.read_reg(r2 as usize);
                match (!value).checked_add(1) {
                    Some(negated) => mem.write_reg(r1 as usize, negated),
                    None => {
                        return None;
                    },
                }
            },
            OpCodeValue::Str => {
                let value = mem.read_reg(r1 as usize);
                mem.write_reg(r2 as usize, value);
            },
            OpCodeValue::Swapr => {
                let r1_value = mem.read_reg(r1 as usize);
                let r2_value = mem.read_reg(r2 as usize);
                mem.write_reg(r1 as usize, r2_value);
                mem.write_reg(r2 as usize, r1_value);
            },
            OpCodeValue::Balr => {
                mem.write_reg(r1 as usize, next_ilc as i32);
                self.ilc = mem.read_reg(r2 as usize) as usize;
                return Some(Ok(Action::Nothing));
            },
            _ => match alu_kind_of(op_code) {
                Some(kind) => {
                    match self.alu2(mem, ra, rb, &kind) {
                        Some(Ok(())) => {},
                        Some(Err(e)) => {
                            return Some(Err(e));
                        },
                        None => {
                            return None;
                        },
                    }
                },
                None => {
                    self.ilc = next_ilc;
                    return Some(Ok(Action::Exit));
                },
            },
        }
        self.ilc = next_ilc;
        Some(Ok(Action::Nothing))
    }

    /// Executes a register-register instruction with a mask.
    fn execute_mask(
        &mut self,
        mem: &mut Memory,
        op_code: OpCodeValue,
        m1: Register,
        r2: Register,
        next_ilc: usize,
    ) -> (r: Option<Result<Action, EcError>>)
        requires
            next_ilc <= SIZE + 4,
        ensures
            match execute(
                old(self).ccr,
                old(self).ilc,
                next_ilc,
                old(mem)@,
                Instruction::RegisterRegisterMask(op_code, m1, r2),
            ) {
                Some((ccr, ilc, m, result)) => r == Some(result) && final(self).ccr == ccr
                    && final(self).ilc == ilc && final(mem)@ == m,
                None => r is None && *final(self) == *old(self) && final(mem)@ == old(mem)@,
            },
    {
        broadcast use Memory::lemma_view_len;

        match op_code {
            OpCodeValue::Bcsr => {
                if self.mask_ccr(m1) {
                    self.ilc = mem.read_reg(r2 as usize) as usize;
                } else {
                    self.ilc = next_ilc;
                }
                Some(Ok(Action::Nothing))
            },
            OpCodeValue::Bcrr => {
                if !self.mask_ccr(m1) {
                    self.ilc = mem.read_reg(r2 as usize) as usize;
                } else {
                    self.ilc = next_ilc;
                }
                Some(Ok(Action::Nothing))
            },
            OpCodeValue::Sacr => {
                if self.mask_ccr(m1) {
                    mem.write_reg(r2 as usize, i32::MIN);
                } else {
                    mem.write_reg(r2 as usize, 0);
                }
                self.ilc = next_ilc;
                Some(Ok(Action::Nothing))
            },
            _ => {
                self.ilc = next_ilc;
                Some(Ok(Action::Exit))
            },
        }
    }

    /// Executes an immediate instruction.
    fn execute_immediate(
        &mut self,
        mem: &mut Memory,
        op_code: OpCodeValue,
        r1: Register,
        value: i32,
        next_ilc: usize,
    ) -> (r: Option<Result<Action, EcError>>)
        requires
            next_ilc <= SIZE + 4,
        ensures
            match execute(
                old(self).ccr,
                old(self).ilc,
                next_ilc,
                old(mem)@,
                Instruction::Immediate(op_code, r1, value),
            ) {
                Some((ccr, ilc, m, result)) => r == Some(result) && final(self).ccr == ccr
                    && final(self).ilc == ilc && final(mem)@ == m,
                None => r is None && *final(self) == *old(self) && final(mem)@ == old(mem)@,
            },
    {
        broadcast use Memory::lemma_view_len;

        match op_code {
            OpCodeValue::Li => {
                mem.write_reg(r1 as usize, value);
                self.set_ccr(value);
            },
            _ => match alu_kind_of(op_code) {
                Some(kind) => {
                    match self.alu1(mem, (r1 as usize) * 4, value, &kind) {
                        Some(Ok(())) => {},
                        Some(Err(e)) => {
                            return Some(Err(e));
                        },
                        None => {
                            return None;
                        },
                    }
                },
                None => {
                    self.ilc = next_ilc;
                    return Some(Ok(Action::Exit));
                },
            },
        }
        self.ilc = next_ilc;
        Some(Ok(Action::Nothing))
    }

    /// Executes a character instruction.
    fn execute_character(
        &mut self,
        mem: &mut Memory,
        op_code: OpCodeValue,
        r1: Register,
        r2: Register,
        address: Address,
        next_ilc: usize,
    ) -> (r: Option<Result<Action, EcError>>)
        requires
            next_ilc <= SIZE + 4,
        ensures
            match execute(
                old(self).ccr,
                old(self).ilc,
                next_ilc,
                old(mem)@,
                Instruction::Character(op_code, r1, r2, address),
            ) {
                Some((ccr, ilc, m, result)) => r == Some(result) && final(self).ccr == ccr
                    && final(self).ilc == ilc && final(mem)@ == m,
                None => r is None && *final(self) == *old(self) && final(mem)@ == old(mem)@,
            },
    {
        broadcast use Memory::lemma_view_len;

        match alu_kind_of(op_code) {
            Some(kind) => {
                let a = address as usize;
                if a % 4 != 0 {
                    return Some(Err(EcError::WordAddressingError));
                }
                if a > SIZE - 4 {
                    return None;
                }
                match self.alu2(mem, (r1 as usize) * 4, a, &kind) {
                    Some(Ok(())) => {},
                    Some(Err(e)) => {
                        return Some(Err(e));
                    },
                    None => {
                        return None;
                    },
                }
                self.ilc = next_ilc;
                Some(Ok(Action::Nothing))
            },
            None => {
                self.ilc = next_ilc;
                Some(Ok(Action::Exit))
            },
        }
    }
}

impl Cpu {
    /// Single fetch-decode-execute cycle on `mem`, as `poll` performs it; or
    /// `None`, with the CPU and memory unchanged, where the cycle cannot be
    /// performed: it would read or write beyond memory, or overflow.
    pub fn try_poll(&mut self, mem: &mut Memory) -> (r: Option<Result<Action, EcError>>)
        ensures
            match step(*old(self), old(mem)@) {
                Some((ccr, ilc, m, result)) => r == Some(result) && final(self).ccr == ccr
                    && final(self).ilc == ilc && final(mem)@ == m,
                None => r is None && *final(self) == *old(self) && final(mem)@ == old(mem)@,
            },
    {
        broadcast use Memory::lemma_view_len;

        if let Err(e) = self.assert_ilc_valid() {
            return Some(Err(e));
        }
        if self.ilc >= SIZE {
            return None;
        }
        let (_indirect_bit, op_code) = self.read_opcode(mem, self.ilc);
        let op_type = Cpu::op_type(op_code);
        if op_type.is_none() {
            return Some(Err(EcError::UnimplementedInstruction));
        }
        let next_instr = match self.read_instruction(mem) {
            Some(instruction) => instruction,
            None => {
                return None;
            },
        };
        let next_ilc = match op_type {
            Some(OpType::Rr) | Some(OpType::Rrm) => self.ilc + 0x2,
            _ => self.ilc + 0x4,
        };
        self.execute(mem, next_instr, next_ilc)
    }

    /// Single fetch-decode-execute cycle on `mem`.
    pub fn poll(&mut self, mem: &mut Memory) -> (r: Result<Action, EcError>)
        requires
            step(*old(self), old(mem)@) is Some,
        ensures
            step(*old(self), old(mem)@) == Some((final(self).ccr, final(self).ilc, final(mem)@, r)),
    {
        match self.try_poll(mem) {
            Some(result) => result,
            None => {
                proof {
                    assert(false);
                }
                Ok(Action::Exit)
            },
        }
    }
}

/// An `i32` result, or `None` where the operation overflowed.
fn performed_op(r: Option<i32>) -> (out: Option<Result<i32, EcError>>)
    ensures
        out == performed(r),
{
    match r {
        Some(v) => Some(Ok(v)),
        None => None,
    }
}

/// A division or remainder result: `ZeroDivisor` for a zero divisor.
fn divided_op(divisor: i32, r: Option<i32>) -> (out: Option<Result<i32, EcError>>)
    ensures
        out == divided(divisor, r),
{
    if divisor == 0 {
        Some(Err(EcError::ZeroDivisor))
    } else {
        performed_op(r)
    }
}

/// The arithmetic or logical operation that `o` performs, if it is one.
fn alu_kind_of(o: OpCodeValue) -> (r: Option<AluOpType>)
    ensures
        r == alu_kind(o),
{
    match o {
        OpCodeValue::And | OpCodeValue::Andr | OpCodeValue::Andi | OpCodeValue::Andc => Some(
            AluOpType::And,
        ),
        OpCodeValue::Or | OpCodeValue::Orr | OpCodeValue::Ori | OpCodeValue::Orc => Some(
            AluOpType::Or,
        ),
        OpCodeValue::Xor | OpCodeValue::Xorr | OpCodeValue::Xori | OpCodeValue::Xorc => Some(
            AluOpType::Xor,
        ),
        OpCodeValue::Not | OpCodeValue::Notr | OpCodeValue::Noti | OpCodeValue::Notc => Some(
            AluOpType::Not,
        ),
        OpCodeValue::A | OpCodeValue::Ar | OpCodeValue::Ai | OpCodeValue::Ac => Some(
            AluOpType::Add,
        ),
        OpCodeValue::S | OpCodeValue::Sr | OpCodeValue::Si | OpCodeValue::Sc => Some(
            AluOpType::Sub,
        ),
        OpCodeValue::Rs | OpCodeValue::Rsr | OpCodeValue::Rsi | OpCodeValue::Rsc => Some(
            AluOpType::RSub,
        ),
        OpCodeValue::M | OpCodeValue::Mr | OpCodeValue::Mi | OpCodeValue::Mc => Some(
            AluOpType::Mul,
        ),
        OpCodeValue::D | OpCodeValue::Dr | OpCodeValue::Di | OpCodeValue::Dc => Some(
            AluOpType::Div,
        ),
        OpCodeValue::Rd | OpCodeValue::Rdr | OpCodeValue::Rdi | OpCodeValue::Rdc => Some(
            AluOpType::RDiv,
        ),
        OpCodeValue::Rem | OpCodeValue::Remr | OpCodeValue::Remi | OpCodeValue::Remc => Some(
            AluOpType::Rem,
        ),
        OpCodeValue::Rrem | OpCodeValue::Rremr | OpCodeValue::Rremi | OpCodeValue::Rremc => Some(
            AluOpType::RRem,
        ),
        _ => None,
    }
}

} // verus!
