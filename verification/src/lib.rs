//! The Educational Computer, Model 1: a simulator that loads an absolute load
//! file (ALF) into memory and runs it.
use vstd::prelude::*;

use crate::cpu::semantics::step;
use crate::cpu::Cpu;
use crate::mem::Memory;
use crate::sv::{can_serve, request_for, Request, Supervisor};

pub mod alf;
pub mod cpu;
pub mod mem;
pub mod sv;

verus! {

/// Type representing error arising during
/// course of instruction execution
#[derive(Debug, Clone, Copy, PartialEq, Eq, Structural)]
pub enum EcError {
    /// At the start of an instruction execution cycle
    /// the ILC does not contain an even value.
    IllegalInstructionAddress,
    /// There is no operation defined for this operation code.
    UnimplementedInstruction,
    /// The indirect address is not even.
    InvalidIndirectAddress,
    /// The address of a purported word operand to an
    /// instruction is not divisible by four.
    WordAddressingError,
    /// The result of some real-valued operation cannot be
    /// expressed within the format for normalized real numbers.
    UnrepresentableRealValue,
    /// The effective address of an Execute instruction is not even.
    InvalidExecutionAddress,
    /// The divisor in a division or remainder operation is zero.
    ZeroDivisor,
    /// A four-character instruction begins at FFFE.
    WraparoundInstruction,
}

/// The whole computer: memory, CPU and supervisor.
pub struct Ec {
    pub ccr: u32,
    pub mem: Memory,
    pub cpu: Cpu,
    pub supervisor: Supervisor,
}

impl Ec {
    /// A computer with memory `mem` and a CPU about to run the instruction at 0x40.
    pub fn new(mem: Memory) -> (ec: Ec)
        ensures
            ec.mem@ == mem@,
            ec.cpu.ccr == cpu::Ccr::Empty,
            ec.cpu.ilc == 0x40,
            ec.ccr == 0,
    {
        Ec { ccr: 0, mem, cpu: Cpu::new(), supervisor: Supervisor::new() }
    }

    /// Runs one cycle and asks the supervisor what follows from it.  `None`
    /// where the cycle cannot be performed (nothing changes then), or where
    /// the supervisor cannot print what the cycle asks for (the cycle has
    /// taken place).
    pub fn advance(&mut self) -> (r: Option<Request>)
        ensures
            match step(old(self).cpu, old(self).mem@) {
                None => r is None && final(self).cpu == old(self).cpu && final(self).mem@ == old(
                    self,
                ).mem@,
                Some((ccr, ilc, m, polled)) => {
                    &&& final(self).cpu.ccr == ccr
                    &&& final(self).cpu.ilc == ilc
                    &&& final(self).mem@ == m
                    &&& r == if can_serve(m, polled) {
                        Some(request_for(m, polled))
                    } else {
                        None::<Request>
                    }
                },
            },
    {
        broadcast use Memory::lemma_view_len;

        let polled = match self.cpu.try_poll(&mut self.mem) {
            Some(polled) => polled,
            None => {
                return None;
            },
        };
        match polled {
            Ok(sv::Action::WriteInt(address)) => {
                if address as usize > mem::SIZE - 4 {
                    return None;
                }
            },
            Ok(sv::Action::WriteChar(address)) => {
                if address as usize >= mem::SIZE {
                    return None;
                }
            },
            _ => {},
        }
        Some(self.supervisor.react(&self.mem, polled))
    }
}

} // verus!
