//! What the EC's operations do, stated over their inputs and results.
use vstd::prelude::*;

use crate::cpu::instruction::Instruction;
use crate::cpu::opcode::{OpCodeValue, OpType};
use crate::cpu::semantics::{
    alu_result, ccr_of, decode, execute, immediate_fields, mask_holds, opcode_fields, operand_address,
    register_fields, step,
};
use crate::cpu::{AluOpType, Ccr, Cpu};
use crate::mem::{lemma_read_written_word, with_word, word_at, SIZE};
use crate::sv::Action;
use crate::EcError;

verus! {

/// Addition, subtraction (plain and reversed) and multiplication give the
/// mathematical result wherever it fits an `i32`, and nothing (an overflow)
/// elsewhere; the logical operations give the bitwise result of the operands
/// (`Not` of the second operand).
pub proof fn lemma_arithmetic(a: i32, b: i32)
    ensures
        alu_result(AluOpType::Add, a, b) == if i32::MIN <= a + b <= i32::MAX {
            Some(Ok::<i32, EcError>((a + b) as i32))
        } else {
            None
        },
        alu_result(AluOpType::Sub, a, b) == if i32::MIN <= a - b <= i32::MAX {
            Some(Ok::<i32, EcError>((a - b) as i32))
        } else {
            None
        },
        alu_result(AluOpType::RSub, a, b) == if i32::MIN <= b - a <= i32::MAX {
            Some(Ok::<i32, EcError>((b - a) as i32))
        } else {
            None
        },
        alu_result(AluOpType::Mul, a, b) == if i32::MIN <= a * b <= i32::MAX {
            Some(Ok::<i32, EcError>((a * b) as i32))
        } else {
            None
        },
        alu_result(AluOpType::And, a, b) == Some(Ok::<i32, EcError>(a & b)),
        alu_result(AluOpType::Or, a, b) == Some(Ok::<i32, EcError>(a | b)),
        alu_result(AluOpType::Xor, a, b) == Some(Ok::<i32, EcError>(a ^ b)),
        alu_result(AluOpType::Not, a, b) == Some(Ok::<i32, EcError>(!b)),
{
}

/// Whether `q` and `r` are the quotient and remainder of `x` by `d`
/// truncated toward zero: `q * d + r == x`, `|r| < |d|`, and a nonzero `r`
/// has the sign of `x`.
pub open spec fn truncated_division(x: int, d: int, q: int, r: int) -> bool {
    &&& q * d + r == x
    &&& (if r < 0 { -r } else { r }) < (if d < 0 { -d } else { d })
    &&& (r == 0 || (r < 0) == (x < 0))
}

proof fn lemma_checked_division(x: i32, d: i32)
    requires
        d != 0,
        !(x == i32::MIN && d == -1),
    ensures
        x.checked_div(d) matches Some(q) && x.checked_rem(d) matches Some(r) && truncated_division(
            x as int,
            d as int,
            q as int,
            r as int,
        ),
{
    let xi = x as int;
    let di = d as int;
    let ax: int = if xi < 0 { -xi } else { xi };
    let ad: int = if di < 0 { -di } else { di };
    vstd::arithmetic::div_mod::lemma_fundamental_div_mod(ax, ad);
    vstd::arithmetic::div_mod::lemma_mod_pos_bound(ax, ad);
    assert(ax / ad >= 0) by (nonlinear_arith)
        requires
            ax >= 0,
            ad > 0,
    ;
    assert(ax / ad <= ax) by (nonlinear_arith)
        requires
            ax >= 0,
            ad > 0,
    ;
    let q0 = ax / ad;
    let r0 = ax % ad;
    if ad == 1 {
        assert(q0 == ax && r0 == 0) by (nonlinear_arith)
            requires
                ad == 1,
                ax == ad * q0 + r0,
                0 <= r0 < ad,
        ;
    } else {
        assert(q0 * 2 <= ax) by (nonlinear_arith)
            requires
                ad >= 2,
                q0 >= 0,
                ax == ad * q0 + r0,
                r0 >= 0,
        ;
    }

    assert(ad * q0 == q0 * ad) by (nonlinear_arith);
    if xi == 0 {
        assert(q0 == 0 && r0 == 0);
    } else if xi > 0 && di > 0 {
        assert(x.checked_div(d) == Some(q0 as i32));
        assert(x.checked_rem(d) == Some(r0 as i32));
    } else if xi < 0 && di < 0 {
        assert(q0 * di == -(q0 * ad)) by (nonlinear_arith)
            requires
                ad == -di,
        ;
        assert(x.checked_div(d) == Some(q0 as i32));
        assert(x.checked_rem(d) == Some((-r0) as i32));
    } else if xi < 0 {
        assert((-q0) * di == -(q0 * ad)) by (nonlinear_arith)
            requires
                ad == di,
        ;
        assert(x.checked_div(d) == Some((-q0) as i32));
        assert(x.checked_rem(d) == Some((-r0) as i32));
    } else {
        assert((-q0) * di == q0 * ad) by (nonlinear_arith)
            requires
                ad == -di,
        ;
        assert(x.checked_div(d) == Some((-q0) as i32));
        assert(x.checked_rem(d) == Some(r0 as i32));
    }
}

/// Division and remainder truncate toward zero: for a nonzero divisor and
/// no overflow, the quotient and the remainder satisfy
/// `truncated_division`.  The reversed forms divide the second operand by
/// the first.
pub proof fn lemma_division_truncates(a: i32, b: i32)
    requires
        b != 0,
        !(a == i32::MIN && b == -1),
    ensures
        alu_result(AluOpType::Div, a, b) matches Some(Ok(q)) && alu_result(AluOpType::Rem, a, b) matches Some(
            Ok(r),
        ) && truncated_division(a as int, b as int, q as int, r as int),
        alu_result(AluOpType::RDiv, b, a) matches Some(Ok(q)) && alu_result(AluOpType::RRem, b, a) matches Some(
            Ok(r),
        ) && truncated_division(a as int, b as int, q as int, r as int),
{
    lemma_checked_division(a, b);
}

/// The fields of an instruction's characters, by position: the operation
/// code is the low seven bits of the first character and the indirect bit is
/// bit 6; register designators are the high and low halves of a character;
/// the storage address is the third and fourth characters; the immediate
/// value is the low half of the second character followed by the third and
/// fourth.
pub proof fn lemma_instruction_fields(m: Seq<u8>, a: int)
    requires
        0 <= a,
        a + 4 <= m.len(),
    ensures
        opcode_fields(m[a]) == ((m[a] / 64 % 2) as u8, (m[a] % 128) as u8),
        register_fields(m[a + 1]) == ((m[a + 1] / 16) as u8, (m[a + 1] % 16) as u8),
        operand_address(m, a) as int == m[a + 2] * 256 + m[a + 3],
        immediate_fields(m, a) == (
            (m[a + 1] / 16) as u8,
            ((m[a + 1] % 16) * 65536 + m[a + 2] * 256 + m[a + 3]) as i32,
        ),
{
    let b0 = m[a];
    let b1 = m[a + 1];
    assert(((b0 & 0x40 != 0) == (b0 / 64 % 2 == 1)) && (b0 & 0x7f) == b0 % 128) by (bit_vector);
    assert((b1 & 0xf0) >> 4u8 == b1 / 16 && b1 & 0x0f == b1 % 16) by (bit_vector);
}

/// Each condition code is selected by its own bit of a mask: overflow by
/// bit 3, greater by bit 2, lower by bit 1, equal by bit 0; an empty code by
/// none.
pub proof fn lemma_mask_bits(mask: u8)
    ensures
        mask_holds(Ccr::Overflow, mask) == (mask / 8 % 2 == 1),
        mask_holds(Ccr::Greater, mask) == (mask / 4 % 2 == 1),
        mask_holds(Ccr::Lower, mask) == (mask / 2 % 2 == 1),
        mask_holds(Ccr::Equal, mask) == (mask % 2 == 1),
        !mask_holds(Ccr::Empty, mask),
{
    assert(((mask & (1u8 << 3u8)) != 0) == (mask / 8 % 2 == 1)) by (bit_vector);
    assert(((mask & (1u8 << 2u8)) != 0) == (mask / 4 % 2 == 1)) by (bit_vector);
    assert(((mask & (1u8 << 1u8)) != 0) == (mask / 2 % 2 == 1)) by (bit_vector);
    assert(((mask & 1u8) != 0) == (mask % 2 == 1)) by (bit_vector);
}

/// The condition code that a value sets tells its sign.
pub proof fn lemma_condition_code(v: i32)
    ensures
        (ccr_of(v) == Ccr::Greater) == (v > 0),
        (ccr_of(v) == Ccr::Lower) == (v < 0),
        (ccr_of(v) == Ccr::Equal) == (v == 0),
{
}

/// The cycle at an even counter whose first character is 0 (`LR`): with a
/// second character `b` of zero it ends the program; otherwise it copies the
/// word of register `b % 16` into register `b / 16` and moves on by two.
pub proof fn lemma_load_register(cpu: Cpu, m: Seq<u8>)
    requires
        m.len() == SIZE,
        cpu.ilc % 2 == 0,
        cpu.ilc + 2 <= SIZE,
        m[cpu.ilc as int] == 0,
    ensures
        ({
            let b = m[cpu.ilc + 1];
            let r1 = b / 16;
            let r2 = b % 16;
            if b == 0 {
                step(cpu, m) == Some(
                    (cpu.ccr, (cpu.ilc + 2) as usize, m, Ok::<Action, EcError>(Action::Exit)),
                )
            } else {
                &&& step(cpu, m) == Some(
                    (
                        cpu.ccr,
                        (cpu.ilc + 2) as usize,
                        with_word(m, 4 * r1, word_at(m, 4 * r2)),
                        Ok::<Action, EcError>(Action::Nothing),
                    ),
                )
                &&& word_at(step(cpu, m).unwrap().2, 4 * r1) == word_at(m, 4 * r2)
            }
        }),
{
    let i = cpu.ilc as int;
    let b0 = m[i];
    let b = m[i + 1];
    assert(b0 == 0 ==> (b0 & 0x7f) == 0) by (bit_vector);
    assert((b & 0xf0) >> 4u8 == b / 16 && b & 0x0f == b % 16) by (bit_vector);
    assert(b == 0 ==> (b & 0xf0) >> 4u8 == 0 && b & 0x0f == 0) by (bit_vector);
    assert(b / 16 < 16);
    lemma_read_written_word(m, 4 * (b / 16), word_at(m, 4 * (b % 16)));
}

/// The conditional branches (`BCSR`, first character 8, and `BCRR`, 9) jump
/// to the word of register `b % 16` where the condition code is (for BCRR:
/// is not) selected by the mask `b / 16`, and otherwise move on by two;
/// neither changes memory or the condition code.
pub proof fn lemma_branch_on_condition(cpu: Cpu, m: Seq<u8>)
    requires
        m.len() == SIZE,
        cpu.ilc % 2 == 0,
        cpu.ilc + 2 <= SIZE,
        m[cpu.ilc as int] == 8 || m[cpu.ilc as int] == 9,
    ensures
        ({
            let b = m[cpu.ilc + 1];
            let holds = mask_holds(cpu.ccr, (b / 16) as u8);
            let jump = if m[cpu.ilc as int] == 8 {
                holds
            } else {
                !holds
            };
            step(cpu, m) == Some(
                (
                    cpu.ccr,
                    if jump {
                        word_at(m, 4 * (b % 16)) as usize
                    } else {
                        (cpu.ilc + 2) as usize
                    },
                    m,
                    Ok::<Action, EcError>(Action::Nothing),
                ),
            )
        }),
{
    let i = cpu.ilc as int;
    let b0 = m[i];
    let b = m[i + 1];
    assert(b0 == 8 ==> (b0 & 0x7f) == 8) by (bit_vector);
    assert(b0 == 9 ==> (b0 & 0x7f) == 9) by (bit_vector);
    assert((b & 0xf0) >> 4u8 == b / 16 && b & 0x0f == b % 16) by (bit_vector);
}

/// The register-storage moves, on a word operand at an aligned address in
/// memory: `L` loads the storage word into register `r1`, `ST` stores the
/// register word at the address, `SWAP` exchanges them, and `MIN`/`MAX`
/// leave in the register the smaller/larger of the two words.  None of them
/// changes the condition code, and each moves on to `ilc`.
pub proof fn lemma_storage_moves(ccr: Ccr, at: usize, ilc: usize, m: Seq<u8>, r1: u8, r2: u8, a: u16)
    requires
        m.len() == SIZE,
        r1 < 16,
        a % 4 == 0,
        a + 4 <= SIZE,
    ensures
        ({
            let v1 = word_at(m, 4 * r1);
            let v = word_at(m, a as int);
            let done = |m2: Seq<u8>| Some((ccr, ilc, m2, Ok::<Action, EcError>(Action::Nothing)));
            let min = execute(ccr, at, ilc, m, Instruction::RegisterStorage(OpCodeValue::Min, r1, r2, a));
            let max = execute(ccr, at, ilc, m, Instruction::RegisterStorage(OpCodeValue::Max, r1, r2, a));
            &&& execute(ccr, at, ilc, m, Instruction::RegisterStorage(OpCodeValue::L, r1, r2, a))
                == done(with_word(m, 4 * r1, v))
            &&& execute(ccr, at, ilc, m, Instruction::RegisterStorage(OpCodeValue::St, r1, r2, a))
                == done(with_word(m, a as int, v1))
            &&& execute(ccr, at, ilc, m, Instruction::RegisterStorage(OpCodeValue::Swap, r1, r2, a))
                == done(with_word(with_word(m, 4 * r1, v), a as int, v1))
            &&& min is Some && min == done(with_word(m, 4 * r1, word_at(min.unwrap().2, 4 * r1)))
            &&& word_at(min.unwrap().2, 4 * r1) <= v1 && word_at(min.unwrap().2, 4 * r1) <= v
            &&& (word_at(min.unwrap().2, 4 * r1) == v1 || word_at(min.unwrap().2, 4 * r1) == v)
            &&& max is Some && max == done(with_word(m, 4 * r1, word_at(max.unwrap().2, 4 * r1)))
            &&& word_at(max.unwrap().2, 4 * r1) >= v1 && word_at(max.unwrap().2, 4 * r1) >= v
            &&& (word_at(max.unwrap().2, 4 * r1) == v1 || word_at(max.unwrap().2, 4 * r1) == v)
        }),
{
    let v1 = word_at(m, 4 * r1);
    let v = word_at(m, a as int);
    lemma_read_written_word(m, 4 * r1, if v1 <= v { v1 } else { v });
    lemma_read_written_word(m, 4 * r1, if v1 >= v { v1 } else { v });
}

/// The register-register moves: `LR` copies register `r2` into `r1`, `STR`
/// copies `r1` into `r2`, `SWAPR` exchanges them, and `LNR` puts the
/// negation of register `r2` into `r1` (nothing, an overflow, where that is
/// the least `i32`).  None changes the condition code.
pub proof fn lemma_register_moves(ccr: Ccr, at: usize, ilc: usize, m: Seq<u8>, r1: u8, r2: u8)
    requires
        m.len() == SIZE,
        r1 < 16,
        r2 < 16,
    ensures
        ({
            let v1 = word_at(m, 4 * r1);
            let v2 = word_at(m, 4 * r2);
            let done = |m2: Seq<u8>| Some((ccr, ilc, m2, Ok::<Action, EcError>(Action::Nothing)));
            &&& execute(ccr, at, ilc, m, Instruction::RegisterRegister(OpCodeValue::Lr, r1, r2))
                == done(with_word(m, 4 * r1, v2))
            &&& execute(ccr, at, ilc, m, Instruction::RegisterRegister(OpCodeValue::Str, r1, r2))
                == done(with_word(m, 4 * r2, v1))
            &&& execute(ccr, at, ilc, m, Instruction::RegisterRegister(OpCodeValue::Swapr, r1, r2))
                == done(with_word(with_word(m, 4 * r1, v2), 4 * r2, v1))
            &&& execute(ccr, at, ilc, m, Instruction::RegisterRegister(OpCodeValue::Lnr, r1, r2))
                == if v2 == i32::MIN {
                None
            } else {
                done(with_word(m, 4 * r1, (-v2) as i32))
            }
        }),
{
    let v2 = word_at(m, 4 * r2);
    assert(v2 != i32::MIN ==> (!v2) + 1 == -v2) by (bit_vector);
    assert((!v2) + 1 <= i32::MAX <==> v2 != i32::MIN) by (bit_vector);
}

/// The instruction at `ilc`, from its four characters: the operation is the
/// one whose code is the first character modulo 128 (none: no instruction);
/// the registers are the two halves of the second character; a storage
/// address is the third and fourth characters; an immediate value is the low
/// half of the second character followed by the third and fourth.  `LR 0, 0`
/// is no instruction.
pub proof fn lemma_decode(m: Seq<u8>, ilc: int)
    requires
        0 <= ilc,
        ilc + 4 <= m.len(),
    ensures
        ({
            let b = m[ilc + 1];
            let r1 = (b / 16) as u8;
            let r2 = (b % 16) as u8;
            let address = (m[ilc + 2] * 256 + m[ilc + 3]) as u16;
            let value = ((b % 16) * 65536 + m[ilc + 2] * 256 + m[ilc + 3]) as i32;
            decode(m, ilc) == Some(
                match OpCodeValue::spec_from_u8((m[ilc] % 128) as u8) {
                    None => Instruction::Nothing,
                    Some(o) => match o.spec_op_type() {
                        OpType::Rr => if o == OpCodeValue::Lr && b == 0 {
                            Instruction::Nothing
                        } else {
                            Instruction::RegisterRegister(o, r1, r2)
                        },
                        OpType::Rrm => Instruction::RegisterRegisterMask(o, r1, r2),
                        OpType::Rs => Instruction::RegisterStorage(o, r1, r2, address),
                        OpType::Im => Instruction::Immediate(o, r1, value),
                        OpType::Ch => Instruction::Character(o, r1, r2, address),
                    },
                },
            )
        }),
{
    lemma_instruction_fields(m, ilc);
    let b = m[ilc + 1];
    assert((b / 16 == 0 && b % 16 == 0) == (b == 0));
}

/// A cycle that performs an instruction other than a branch moves the
/// counter past it: by two for the register-register formats, by four
/// otherwise.
pub proof fn lemma_counter_advances(cpu: Cpu, m: Seq<u8>)
    requires
        m.len() == SIZE,
        cpu.ilc % 2 == 0,
        cpu.ilc + 4 <= SIZE,
        OpCodeValue::spec_from_u8((m[cpu.ilc as int] % 128) as u8) matches Some(o) && o
            != OpCodeValue::Balr && o != OpCodeValue::Bcsr && o != OpCodeValue::Bcrr,
        step(cpu, m) matches Some((_, _, _, Ok(_))),
    ensures
        ({
            let o = OpCodeValue::spec_from_u8((m[cpu.ilc as int] % 128) as u8).unwrap();
            step(cpu, m).unwrap().1 == cpu.ilc + if o.spec_op_type() == OpType::Rr
                || o.spec_op_type() == OpType::Rrm {
                2int
            } else {
                4int
            }
        }),
{
    lemma_decode(m, cpu.ilc as int);
    lemma_instruction_fields(m, cpu.ilc as int);
}

/// A supervisor call selects its action by the word of its register: 1 reads
/// an integer, 3 a character, 5 writes an integer, 7 a character, all at the
/// call's address; any other value exits.  It changes nothing else.
pub proof fn lemma_supervisor_call(
    ccr: Ccr,
    at: usize,
    ilc: usize,
    m: Seq<u8>,
    r1: u8,
    r2: u8,
    a: u16,
)
    requires
        m.len() == SIZE,
        r1 < 16,
    ensures
        ({
            let id = word_at(m, 4 * r1);
            execute(ccr, at, ilc, m, Instruction::RegisterStorage(OpCodeValue::Svc, r1, r2, a))
                == Some(
                (
                    ccr,
                    ilc,
                    m,
                    Ok::<Action, EcError>(
                        if id == 1 {
                            Action::ReadInt(a)
                        } else if id == 3 {
                            Action::ReadChar(a)
                        } else if id == 5 {
                            Action::WriteInt(a)
                        } else if id == 7 {
                            Action::WriteChar(a)
                        } else {
                            Action::Exit
                        },
                    ),
                ),
            )
        }),
{
}

/// `LI` puts its value in register `r1` and sets the condition code by the
/// value's sign; `SACR` puts the least `i32` in register `r2` where the mask
/// selects the condition code and zero elsewhere; `BALR` links the address
/// of the next instruction into register `r1` and then jumps to the word of
/// register `r2` (as it reads after the link).
pub proof fn lemma_register_settings(
    ccr: Ccr,
    at: usize,
    ilc: usize,
    m: Seq<u8>,
    r1: u8,
    r2: u8,
    value: i32,
)
    requires
        m.len() == SIZE,
        r1 < 16,
        r2 < 16,
        ilc <= SIZE + 4,
    ensures
        execute(ccr, at, ilc, m, Instruction::Immediate(OpCodeValue::Li, r1, value)) == Some(
            (
                if value > 0 {
                    Ccr::Greater
                } else if value < 0 {
                    Ccr::Lower
                } else {
                    Ccr::Equal
                },
                ilc,
                with_word(m, 4 * r1, value),
                Ok::<Action, EcError>(Action::Nothing),
            ),
        ),
        execute(ccr, at, ilc, m, Instruction::RegisterRegisterMask(OpCodeValue::Sacr, r1, r2)) == Some(
            (
                ccr,
                ilc,
                with_word(
                    m,
                    4 * r2,
                    if mask_holds(ccr, r1) {
                        i32::MIN
                    } else {
                        0
                    },
                ),
                Ok::<Action, EcError>(Action::Nothing),
            ),
        ),
        ({
            let linked = with_word(m, 4 * r1, ilc as i32);
            &&& execute(ccr, at, ilc, m, Instruction::RegisterRegister(OpCodeValue::Balr, r1, r2))
                == Some(
                (
                    ccr,
                    word_at(linked, 4 * r2) as usize,
                    linked,
                    Ok::<Action, EcError>(Action::Nothing),
                ),
            )
            &&& word_at(linked, 4 * r1) as int == ilc
            &&& r1 != r2 ==> word_at(linked, 4 * r2) == word_at(m, 4 * r2)
        }),
{
    lemma_read_written_word(m, 4 * r1, ilc as i32);
}

/// A register-register arithmetic or logical instruction stores the
/// operation's result on the two registers' words in register `r1` and moves
/// on; only subtraction sets the condition code, by the result's sign.  An
/// error (a zero divisor) changes nothing and leaves the counter at the
/// instruction.
pub proof fn lemma_register_arithmetic(
    ccr: Ccr,
    at: usize,
    ilc: usize,
    m: Seq<u8>,
    o: OpCodeValue,
    r1: u8,
    r2: u8,
)
    requires
        m.len() == SIZE,
        r1 < 16,
        r2 < 16,
        o != OpCodeValue::Lr && o != OpCodeValue::Lnr && o != OpCodeValue::Str && o
            != OpCodeValue::Swapr && o != OpCodeValue::Balr,
        crate::cpu::semantics::alu_kind(o) is Some,
    ensures
        ({
            let kind = crate::cpu::semantics::alu_kind(o).unwrap();
            let out = execute(ccr, at, ilc, m, Instruction::RegisterRegister(o, r1, r2));
            match alu_result(kind, word_at(m, 4 * r1), word_at(m, 4 * r2)) {
                Some(Ok(v)) => out == Some(
                    (
                        if kind == AluOpType::Sub {
                            ccr_of(v)
                        } else {
                            ccr
                        },
                        ilc,
                        with_word(m, 4 * r1, v),
                        Ok::<Action, EcError>(Action::Nothing),
                    ),
                ),
                Some(Err(e)) => out == Some((ccr, at, m, Err::<Action, EcError>(e))),
                None => out is None,
            }
        }),
{
}

} // verus!
