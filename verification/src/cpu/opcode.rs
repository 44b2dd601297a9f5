//! Operation codes of EC instructions.
use vstd::prelude::*;

verus! {

pub type OpCode = u8;

/// The operations of the EC.  Register-register (RR) operations end in `r`,
/// immediate (IM) ones in `i`, character (CH) ones in `c`; register-storage
/// (RS) ones have no suffix.  `code` gives each its operation code.
#[derive(Debug, Clone, Copy, PartialEq, Eq, Structural)]
pub enum OpCodeValue {
    Lr,
    Lnr,
    Str,
    Swapr,
    Andr,
    Orr,
    Xorr,
    Notr,
    Bcsr,
    Bcrr,
    Balr,
    Sacr,
    Ar,
    Sr,
    Rsr,
    Mr,
    Dr,
    Rdr,
    Remr,
    Rremr,
    L,
    St,
    Swap,
    And,
    Or,
    Xor,
    Not,
    Svc,
    A,
    S,
    Rs,
    M,
    D,
    Rd,
    Rem,
    Rrem,
    Li,
    Andi,
    Ori,
    Xori,
    Noti,
    Ai,
    Si,
    Rsi,
    Mi,
    Di,
    Rdi,
    Remi,
    Rremi,
    Andc,
    Orc,
    Xorc,
    Notc,
    Ac,
    Sc,
    Rsc,
    Mc,
    Dc,
    Rdc,
    Remc,
    Rremc,
    Min,
    Max,
}

/// The instruction formats: register-register, register-storage,
/// register-register with a mask, immediate and character.
#[derive(Debug, Clone, Copy, PartialEq, Eq, Structural)]
pub enum OpType {
    Rr,
    Rs,
    Rrm,
    Im,
    Ch,
}

impl OpCodeValue {
    /// The operation code of `self`.
    pub open spec fn spec_code(self) -> OpCode {
        match self {
            OpCodeValue::Lr => 0x00,
            OpCodeValue::Lnr => 0x01,
            OpCodeValue::Str => 0x02,
            OpCodeValue::Swapr => 0x03,
            OpCodeValue::Andr => 0x04,
            OpCodeValue::Orr => 0x05,
            OpCodeValue::Xorr => 0x06,
            OpCodeValue::Notr => 0x07,
            OpCodeValue::Bcsr => 0x08,
            OpCodeValue::Bcrr => 0x09,
            OpCodeValue::Balr => 0x0a,
            OpCodeValue::Sacr => 0x0c,
            OpCodeValue::Ar => 0x10,
            OpCodeValue::Sr => 0x11,
            OpCodeValue::Rsr => 0x12,
            OpCodeValue::Mr => 0x13,
            OpCodeValue::Dr => 0x14,
            OpCodeValue::Rdr => 0x15,
            OpCodeValue::Remr => 0x16,
            OpCodeValue::Rremr => 0x17,
            OpCodeValue::L => 0x20,
            OpCodeValue::St => 0x22,
            OpCodeValue::Swap => 0x23,
            OpCodeValue::And => 0x24,
            OpCodeValue::Or => 0x25,
            OpCodeValue::Xor => 0x26,
            OpCodeValue::Not => 0x27,
            OpCodeValue::Svc => 0x2e,
            OpCodeValue::A => 0x30,
            OpCodeValue::S => 0x31,
            OpCodeValue::Rs => 0x32,
            OpCodeValue::M => 0x33,
            OpCodeValue::D => 0x34,
            OpCodeValue::Rd => 0x35,
            OpCodeValue::Rem => 0x36,
            OpCodeValue::Rrem => 0x37,
            OpCodeValue::Li => 0x40,
            OpCodeValue::Andi => 0x44,
            OpCodeValue::Ori => 0x45,
            OpCodeValue::Xori => 0x46,
            OpCodeValue::Noti => 0x47,
            OpCodeValue::Ai => 0x50,
            OpCodeValue::Si => 0x51,
            OpCodeValue::Rsi => 0x52,
            OpCodeValue::Mi => 0x53,
            OpCodeValue::Di => 0x54,
            OpCodeValue::Rdi => 0x55,
            OpCodeValue::Remi => 0x56,
            OpCodeValue::Rremi => 0x57,
            OpCodeValue::Andc => 0x64,
            OpCodeValue::Orc => 0x65,
            OpCodeValue::Xorc => 0x66,
            OpCodeValue::Notc => 0x67,
            OpCodeValue::Ac => 0x70,
            OpCodeValue::Sc => 0x71,
            OpCodeValue::Rsc => 0x72,
            OpCodeValue::Mc => 0x73,
            OpCodeValue::Dc => 0x74,
            OpCodeValue::Rdc => 0x75,
            OpCodeValue::Remc => 0x76,
            OpCodeValue::Rremc => 0x77,
            OpCodeValue::Min => 0x7a,
            OpCodeValue::Max => 0x7b,
        }
    }

    /// The operation whose code is `op_code`, if there is one.
    pub open spec fn spec_from_u8(op_code: OpCode) -> Option<OpCodeValue> {
        match op_code {
            0x00 => Some(OpCodeValue::Lr),
            0x01 => Some(OpCodeValue::Lnr),
            0x02 => Some(OpCodeValue::Str),
            0x03 => Some(OpCodeValue::Swapr),
            0x04 => Some(OpCodeValue::Andr),
            0x05 => Some(OpCodeValue::Orr),
            0x06 => Some(OpCodeValue::Xorr),
            0x07 => Some(OpCodeValue::Notr),
            0x08 => Some(OpCodeValue::Bcsr),
            0x09 => Some(OpCodeValue::Bcrr),
            0x0a => Some(OpCodeValue::Balr),
            0x0c => Some(OpCodeValue::Sacr),
            0x10 => Some(OpCodeValue::Ar),
            0x11 => Some(OpCodeValue::Sr),
            0x12 => Some(OpCodeValue::Rsr),
            0x13 => Some(OpCodeValue::Mr),
            0x14 => Some(OpCodeValue::Dr),
            0x15 => Some(OpCodeValue::Rdr),
            0x16 => Some(OpCodeValue::Remr),
            0x17 => Some(OpCodeValue::Rremr),
            0x20 => Some(OpCodeValue::L),
            0x22 => Some(OpCodeValue::St),
            0x23 => Some(OpCodeValue::Swap),
            0x24 => Some(OpCodeValue::And),
            0x25 => Some(OpCodeValue::Or),
            0x26 => Some(OpCodeValue::Xor),
            0x27 => Some(OpCodeValue::Not),
            0x2e => Some(OpCodeValue::Svc),
            0x30 => Some(OpCodeValue::A),
            0x31 => Some(OpCodeValue::S),
            0x32 => Some(OpCodeValue::Rs),
            0x33 => Some(OpCodeValue::M),
            0x34 => Some(OpCodeValue::D),
            0x35 => Some(OpCodeValue::Rd),
            0x36 => Some(OpCodeValue::Rem),
            0x37 => Some(OpCodeValue::Rrem),
            0x40 => Some(OpCodeValue::Li),
            0x44 => Some(OpCodeValue::Andi),
            0x45 => Some(OpCodeValue::Ori),
            0x46 => Some(OpCodeValue::Xori),
            0x47 => Some(OpCodeValue::Noti),
            0x50 => Some(OpCodeValue::Ai),
            0x51 => Some(OpCodeValue::Si),
            0x52 => Some(OpCodeValue::Rsi),
            0x53 => Some(OpCodeValue::Mi),
            0x54 => Some(OpCodeValue::Di),
            0x55 => Some(OpCodeValue::Rdi),
            0x56 => Some(OpCodeValue::Remi),
            0x57 => Some(OpCodeValue::Rremi),
            0x64 => Some(OpCodeValue::Andc),
            0x65 => Some(OpCodeValue::Orc),
            0x66 => Some(OpCodeValue::Xorc),
            0x67 => Some(OpCodeValue::Notc),
            0x70 => Some(OpCodeValue::Ac),
            0x71 => Some(OpCodeValue::Sc),
            0x72 => Some(OpCodeValue::Rsc),
            0x73 => Some(OpCodeValue::Mc),
            0x74 => Some(OpCodeValue::Dc),
            0x75 => Some(OpCodeValue::Rdc),
            0x76 => Some(OpCodeValue::Remc),
            0x77 => Some(OpCodeValue::Rremc),
            0x7a => Some(OpCodeValue::Min),
            0x7b => Some(OpCodeValue::Max),
            _ => None,
        }
    }

    /// The format of instructions with operation `self`.
    pub open spec fn spec_op_type(self) -> OpType {
        match self {
            OpCodeValue::Lr => OpType::Rr,
            OpCodeValue::Lnr => OpType::Rr,
            OpCodeValue::Str => OpType::Rr,
            OpCodeValue::Swapr => OpType::Rr,
            OpCodeValue::Andr => OpType::Rr,
            OpCodeValue::Orr => OpType::Rr,
            OpCodeValue::Xorr => OpType::Rr,
            OpCodeValue::Notr => OpType::Rr,
            OpCodeValue::Bcsr => OpType::Rrm,
            OpCodeValue::Bcrr => OpType::Rrm,
            OpCodeValue::Balr => OpType::Rr,
            OpCodeValue::Sacr => OpType::Rrm,
            OpCodeValue::Ar => OpType::Rr,
            OpCodeValue::Sr => OpType::Rr,
            OpCodeValue::Rsr => OpType::Rr,
            OpCodeValue::Mr => OpType::Rr,
            OpCodeValue::Dr => OpType::Rr,
            OpCodeValue::Rdr => OpType::Rr,
            OpCodeValue::Remr => OpType::Rr,
            OpCodeValue::Rremr => OpType::Rr,
            OpCodeValue::L => OpType::Rs,
            OpCodeValue::St => OpType::Rs,
            OpCodeValue::Swap => OpType::Rs,
            OpCodeValue::And => OpType::Rs,
            OpCodeValue::Or => OpType::Rs,
            OpCodeValue::Xor => OpType::Rs,
            OpCodeValue::Not => OpType::Rs,
            OpCodeValue::Svc => OpType::Rs,
            OpCodeValue::A => OpType::Rs,
            OpCodeValue::S => OpType::Rs,
            OpCodeValue::Rs => OpType::Rs,
            OpCodeValue::M => OpType::Rs,
            OpCodeValue::D => OpType::Rs,
            OpCodeValue::Rd => OpType::Rs,
            OpCodeValue::Rem => OpType::Rs,
            OpCodeValue::Rrem => OpType::Rs,
            OpCodeValue::Li => OpType::Im,
            OpCodeValue::Andi => OpType::Im,
            OpCodeValue::Ori => OpType::Im,
            OpCodeValue::Xori => OpType::Im,
            OpCodeValue::Noti => OpType::Im,
            OpCodeValue::Ai => OpType::Im,
            OpCodeValue::Si => OpType::Im,
            OpCodeValue::Rsi => OpType::Im,
            OpCodeValue::Mi => OpType::Im,
            OpCodeValue::Di => OpType::Im,
            OpCodeValue::Rdi => OpType::Im,
            OpCodeValue::Remi => OpType::Im,
            OpCodeValue::Rremi => OpType::Im,
            OpCodeValue::Andc => OpType::Ch,
            OpCodeValue::Orc => OpType::Ch,
            OpCodeValue::Xorc => OpType::Ch,
            OpCodeValue::Notc => OpType::Ch,
            OpCodeValue::Ac => OpType::Ch,
            OpCodeValue::Sc => OpType::Ch,
            OpCodeValue::Rsc => OpType::Ch,
            OpCodeValue::Mc => OpType::Ch,
            OpCodeValue::Dc => OpType::Ch,
            OpCodeValue::Rdc => OpType::Ch,
            OpCodeValue::Remc => OpType::Ch,
            OpCodeValue::Rremc => OpType::Ch,
            OpCodeValue::Min => OpType::Rs,
            OpCodeValue::Max => OpType::Rs,
        }
    }

    pub fn code(self) -> (r: OpCode)
        ensures
            r == self.spec_code(),
    {
        match self {
            OpCodeValue::Lr => 0x00,
            OpCodeValue::Lnr => 0x01,
            OpCodeValue::Str => 0x02,
            OpCodeValue::Swapr => 0x03,
            OpCodeValue::Andr => 0x04,
            OpCodeValue::Orr => 0x05,
            OpCodeValue::Xorr => 0x06,
            OpCodeValue::Notr => 0x07,
            OpCodeValue::Bcsr => 0x08,
            OpCodeValue::Bcrr => 0x09,
            OpCodeValue::Balr => 0x0a,
            OpCodeValue::Sacr => 0x0c,
            OpCodeValue::Ar => 0x10,
            OpCodeValue::Sr => 0x11,
            OpCodeValue::Rsr => 0x12,
            OpCodeValue::Mr => 0x13,
            OpCodeValue::Dr => 0x14,
            OpCodeValue::Rdr => 0x15,
            OpCodeValue::Remr => 0x16,
            OpCodeValue::Rremr => 0x17,
            OpCodeValue::L => 0x20,
            OpCodeValue::St => 0x22,
            OpCodeValue::Swap => 0x23,
            OpCodeValue::And => 0x24,
            OpCodeValue::Or => 0x25,
            OpCodeValue::Xor => 0x26,
            OpCodeValue::Not => 0x27,
            OpCodeValue::Svc => 0x2e,
            OpCodeValue::A => 0x30,
            OpCodeValue::S => 0x31,
            OpCodeValue::Rs => 0x32,
            OpCodeValue::M => 0x33,
            OpCodeValue::D => 0x34,
            OpCodeValue::Rd => 0x35,
            OpCodeValue::Rem => 0x36,
            OpCodeValue::Rrem => 0x37,
            OpCodeValue::Li => 0x40,
            OpCodeValue::Andi => 0x44,
            OpCodeValue::Ori => 0x45,
            OpCodeValue::Xori => 0x46,
            OpCodeValue::Noti => 0x47,
            OpCodeValue::Ai => 0x50,
            OpCodeValue::Si => 0x51,
            OpCodeValue::Rsi => 0x52,
            OpCodeValue::Mi => 0x53,
            OpCodeValue::Di => 0x54,
            OpCodeValue::Rdi => 0x55,
            OpCodeValue::Remi => 0x56,
            OpCodeValue::Rremi => 0x57,
            OpCodeValue::Andc => 0x64,
            OpCodeValue::Orc => 0x65,
            OpCodeValue::Xorc => 0x66,
            OpCodeValue::Notc => 0x67,
            OpCodeValue::Ac => 0x70,
            OpCodeValue::Sc => 0x71,
            OpCodeValue::Rsc => 0x72,
            OpCodeValue::Mc => 0x73,
            OpCodeValue::Dc => 0x74,
            OpCodeValue::Rdc => 0x75,
            OpCodeValue::Remc => 0x76,
            OpCodeValue::Rremc => 0x77,
            OpCodeValue::Min => 0x7a,
            OpCodeValue::Max => 0x7b,
        }
    }

    pub fn from_u8(op_code: OpCode) -> (r: Option<OpCodeValue>)
        ensures
            r == Self::spec_from_u8(op_code),
    {
        match op_code {
            0x00 => Some(OpCodeValue::Lr),
            0x01 => Some(OpCodeValue::Lnr),
            0x02 => Some(OpCodeValue::Str),
            0x03 => Some(OpCodeValue::Swapr),
            0x04 => Some(OpCodeValue::Andr),
            0x05 => Some(OpCodeValue::Orr),
            0x06 => Some(OpCodeValue::Xorr),
            0x07 => Some(OpCodeValue::Notr),
            0x08 => Some(OpCodeValue::Bcsr),
            0x09 => Some(OpCodeValue::Bcrr),
            0x0a => Some(OpCodeValue::Balr),
            0x0c => Some(OpCodeValue::Sacr),
            0x10 => Some(OpCodeValue::Ar),
            0x11 => Some(OpCodeValue::Sr),
            0x12 => Some(OpCodeValue::Rsr),
            0x13 => Some(OpCodeValue::Mr),
            0x14 => Some(OpCodeValue::Dr),
            0x15 => Some(OpCodeValue::Rdr),
            0x16 => Some(OpCodeValue::Remr),
            0x17 => Some(OpCodeValue::Rremr),
            0x20 => Some(OpCodeValue::L),
            0x22 => Some(OpCodeValue::St),
            0x23 => Some(OpCodeValue::Swap),
            0x24 => Some(OpCodeValue::And),
            0x25 => Some(OpCodeValue::Or),
            0x26 => Some(OpCodeValue::Xor),
            0x27 => Some(OpCodeValue::Not),
            0x2e => Some(OpCodeValue::Svc),
            0x30 => Some(OpCodeValue::A),
            0x31 => Some(OpCodeValue::S),
            0x32 => Some(OpCodeValue::Rs),
            0x33 => Some(OpCodeValue::M),
            0x34 => Some(OpCodeValue::D),
            0x35 => Some(OpCodeValue::Rd),
            0x36 => Some(OpCodeValue::Rem),
            0x37 => Some(OpCodeValue::Rrem),
            0x40 => Some(OpCodeValue::Li),
            0x44 => Some(OpCodeValue::Andi),
            0x45 => Some(OpCodeValue::Ori),
            0x46 => Some(OpCodeValue::Xori),
            0x47 => Some(OpCodeValue::Noti),
            0x50 => Some(OpCodeValue::Ai),
            0x51 => Some(OpCodeValue::Si),
            0x52 => Some(OpCodeValue::Rsi),
            0x53 => Some(OpCodeValue::Mi),
            0x54 => Some(OpCodeValue::Di),
            0x55 => Some(OpCodeValue::Rdi),
            0x56 => Some(OpCodeValue::Remi),
            0x57 => Some(OpCodeValue::Rremi),
            0x64 => Some(OpCodeValue::Andc),
            0x65 => Some(OpCodeValue::Orc),
            0x66 => Some(OpCodeValue::Xorc),
            0x67 => Some(OpCodeValue::Notc),
            0x70 => Some(OpCodeValue::Ac),
            0x71 => Some(OpCodeValue::Sc),
            0x72 => Some(OpCodeValue::Rsc),
            0x73 => Some(OpCodeValue::Mc),
            0x74 => Some(OpCodeValue::Dc),
            0x75 => Some(OpCodeValue::Rdc),
            0x76 => Some(OpCodeValue::Remc),
            0x77 => Some(OpCodeValue::Rremc),
            0x7a => Some(OpCodeValue::Min),
            0x7b => Some(OpCodeValue::Max),
            _ => None,
        }
    }

    pub fn op_type(self) -> (r: OpType)
        ensures
            r == self.spec_op_type(),
    {
        match self {
            OpCodeValue::Lr => OpType::Rr,
            OpCodeValue::Lnr => OpType::Rr,
            OpCodeValue::Str => OpType::Rr,
            OpCodeValue::Swapr => OpType::Rr,
            OpCodeValue::Andr => OpType::Rr,
            OpCodeValue::Orr => OpType::Rr,
            OpCodeValue::Xorr => OpType::Rr,
            OpCodeValue::Notr => OpType::Rr,
            OpCodeValue::Bcsr => OpType::Rrm,
            OpCodeValue::Bcrr => OpType::Rrm,
            OpCodeValue::Balr => OpType::Rr,
            OpCodeValue::Sacr => OpType::Rrm,
            OpCodeValue::Ar => OpType::Rr,
            OpCodeValue::Sr => OpType::Rr,
            OpCodeValue::Rsr => OpType::Rr,
            OpCodeValue::Mr => OpType::Rr,
            OpCodeValue::Dr => OpType::Rr,
            OpCodeValue::Rdr => OpType::Rr,
            OpCodeValue::Remr => OpType::Rr,
            OpCodeValue::Rremr => OpType::Rr,
            OpCodeValue::L => OpType::Rs,
            OpCodeValue::St => OpType::Rs,
            OpCodeValue::Swap => OpType::Rs,
            OpCodeValue::And => OpType::Rs,
            OpCodeValue::Or => OpType::Rs,
            OpCodeValue::Xor => OpType::Rs,
            OpCodeValue::Not => OpType::Rs,
            OpCodeValue::Svc => OpType::Rs,
            OpCodeValue::A => OpType::Rs,
            OpCodeValue::S => OpType::Rs,
            OpCodeValue::Rs => OpType::Rs,
            OpCodeValue::M => OpType::Rs,
            OpCodeValue::D => OpType::Rs,
            OpCodeValue::Rd => OpType::Rs,
            OpCodeValue::Rem => OpType::Rs,
            OpCodeValue::Rrem => OpType::Rs,
            OpCodeValue::Li => OpType::Im,
            OpCodeValue::Andi => OpType::Im,
            OpCodeValue::Ori => OpType::Im,
            OpCodeValue::Xori => OpType::Im,
            OpCodeValue::Noti => OpType::Im,
            OpCodeValue::Ai => OpType::Im,
            OpCodeValue::Si => OpType::Im,
            OpCodeValue::Rsi => OpType::Im,
            OpCodeValue::Mi => OpType::Im,
            OpCodeValue::Di => OpType::Im,
            OpCodeValue::Rdi => OpType::Im,
            OpCodeValue::Remi => OpType::Im,
            OpCodeValue::Rremi => OpType::Im,
            OpCodeValue::Andc => OpType::Ch,
            OpCodeValue::Orc => OpType::Ch,
            OpCodeValue::Xorc => OpType::Ch,
            OpCodeValue::Notc => OpType::Ch,
            OpCodeValue::Ac => OpType::Ch,
            OpCodeValue::Sc => OpType::Ch,
            OpCodeValue::Rsc => OpType::Ch,
            OpCodeValue::Mc => OpType::Ch,
            OpCodeValue::Dc => OpType::Ch,
            OpCodeValue::Rdc => OpType::Ch,
            OpCodeValue::Remc => OpType::Ch,
            OpCodeValue::Rremc => OpType::Ch,
            OpCodeValue::Min => OpType::Rs,
            OpCodeValue::Max => OpType::Rs,
        }
    }
}

/// Every operation is found again from its code.
pub proof fn lemma_from_code(o: OpCodeValue)
    ensures
        OpCodeValue::spec_from_u8(o.spec_code()) == Some(o),
{
}

/// An operation found from a code has that code: no two operations share one.
pub proof fn lemma_code_of_found(op_code: OpCode)
    ensures
        OpCodeValue::spec_from_u8(op_code) matches Some(o) ==> o.spec_code() == op_code,
{
}

} // verus!
