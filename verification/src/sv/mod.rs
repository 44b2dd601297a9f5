//! The supervisor: what a program asks of the world outside the CPU.
use vstd::prelude::*;

use crate::cpu::instruction::Address;
use crate::mem::{word_at, word_in_memory, Memory, SIZE};
use crate::EcError;

verus! {

/// What the CPU asks of the supervisor after an instruction.
#[derive(Debug, Clone, Copy, PartialEq, Eq, Structural)]
pub enum Action {
    /// Nothing: carry on with the next instruction.
    Nothing,
    /// Exit the running program and clean up after it.
    Exit,
    /// Read the integer from the stdin and store it at the effective address
    /// of the SVC
    ReadInt(Address),
    /// Read the character from the stdin and store it at the effective address
    /// of the SVC
    ReadChar(Address),
    /// Write the word at the effective address as an integer
    /// on the output stream.
    WriteInt(Address),
    /// Write the character at the effective address as an character
    /// on the output stream.
    WriteChar(Address),
}

/// What the supervisor asks of the input and output streams.
#[derive(Debug, Clone, Copy, PartialEq, Eq, Structural)]
pub enum Request {
    /// Stop running the program.
    Halt,
    /// Run the next instruction.
    Continue,
    /// Read an integer and store it as the word at the address.
    ReadInt(Address),
    /// Read a line and store its first character at the address.
    ReadChar(Address),
    /// Print the integer.
    PrintInt(i32),
    /// Print the character.
    PrintChar(u8),
}

/// Whether the supervisor can serve the outcome of a cycle on memory `m`:
/// what it prints lies in memory.
pub open spec fn can_serve(m: Seq<u8>, polled: Result<Action, EcError>) -> bool {
    match polled {
        Ok(Action::WriteInt(address)) => word_in_memory(address as int),
        Ok(Action::WriteChar(address)) => address < SIZE,
        _ => true,
    }
}

/// What the supervisor asks for after a cycle on memory `m`: it stops on an
/// exit or an error, carries on after an ordinary instruction, passes reads
/// on, and prints the word or character at a write's address.
pub open spec fn request_for(m: Seq<u8>, polled: Result<Action, EcError>) -> Request {
    match polled {
        Ok(Action::Nothing) => Request::Continue,
        Ok(Action::Exit) => Request::Halt,
        Ok(Action::ReadInt(address)) => Request::ReadInt(address),
        Ok(Action::ReadChar(address)) => Request::ReadChar(address),
        Ok(Action::WriteInt(address)) => Request::PrintInt(word_at(m, address as int)),
        Ok(Action::WriteChar(address)) => Request::PrintChar(m[address as int]),
        Err(_) => Request::Halt,
    }
}

pub struct Supervisor {}

impl Supervisor {
    pub fn new() -> Supervisor {
        Supervisor {  }
    }

    /// What to do about the outcome `polled` of a cycle on `mem`.
    pub fn react(&self, mem: &Memory, polled: Result<Action, EcError>) -> (r: Request)
        requires
            can_serve(mem@, polled),
        ensures
            r == request_for(mem@, polled),
    {
        match polled {
            Ok(Action::Exit) => Request::Halt,
            Ok(Action::ReadInt(addr)) => Request::ReadInt(addr),
            Ok(Action::ReadChar(addr)) => Request::ReadChar(addr),
            Ok(Action::WriteInt(addr)) => Request::PrintInt(mem.read_word(addr as usize)),
            Ok(Action::WriteChar(addr)) => Request::PrintChar(mem.get(addr as usize)),
            Ok(Action::Nothing) => Request::Continue,
            Err(_) => Request::Halt,
        }
    }

    /// Stores the first character of the line `input`, if there is one, at
    /// `address`.
    pub fn accept_char(&self, mem: &mut Memory, address: Address, input: &Vec<u8>)
        requires
            input@.len() > 0 ==> address < SIZE,
        ensures
            final(mem)@ == if input@.len() > 0 {
                old(mem)@.update(address as int, input@[0])
            } else {
                old(mem)@
            },
    {
        if input.len() > 0 {
            mem.set(address as usize, input[0]);
        }
    }
}

} // verus!
