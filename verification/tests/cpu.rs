use ec::alf::Alf;
use ec::cpu::opcode::{OpCodeValue, OpType};
use ec::cpu::{Ccr, Cpu};
use ec::mem::Memory;
use ec::sv::{Action, Request, Supervisor};
use ec::{Ec, EcError};

fn memory_with(program: &[u8]) -> Memory {
    let mut mem = Memory::new();
    for (i, b) in program.iter().enumerate() {
        mem.set(0x40 + i, *b);
    }
    mem
}

#[test]
fn test_reads_correctly_opcode() {
    let mut mem = Memory::new();
    let cpu = Cpu::new();
    mem.set(0x10, 0xff);
    assert_eq!((0x01, 0x7f), cpu.read_opcode(&mem, 0x10));

    mem.set(0x20, 0x1b);
    assert_eq!((0x00, 0x1b), cpu.read_opcode(&mem, 0x20));
}

#[test]
fn test_reads_registers_correctly() {
    let mut mem = Memory::new();
    let cpu = Cpu::new();
    mem.set(0x10, 0x1c);
    assert_eq!((0x01, 0x0c), cpu.read_op_registers(&mem, 0x10));

    mem.set(0x20, 0xe5);
    assert_eq!((0x0e, 0x05), cpu.read_op_registers(&mem, 0x20));
}

#[test]
fn new_cpu_starts_at_0x40() {
    let cpu = Cpu::new();
    assert_eq!(cpu.ilc, 0x40);
    assert_eq!(cpu.ccr, Ccr::Empty);
}

#[test]
fn load_immediate_sets_register_and_ccr() {
    let mut mem = memory_with(&[0x40, 0x10, 0x00, 0x05]);
    let mut cpu = Cpu::new();
    assert_eq!(cpu.poll(&mut mem), Ok(Action::Nothing));
    assert_eq!(mem.read_reg(1), 5);
    assert_eq!(cpu.ilc, 0x44);
    assert_eq!(cpu.ccr, Ccr::Greater);
}

#[test]
fn immediate_value_has_twenty_bits() {
    let mut mem = memory_with(&[0x40, 0x2f, 0xff, 0xff]);
    let mut cpu = Cpu::new();
    assert_eq!(cpu.try_poll(&mut mem), Some(Ok(Action::Nothing)));
    assert_eq!(mem.read_reg(2), 0xfffff);
}

#[test]
fn load_immediate_zero_sets_equal() {
    let mut mem = memory_with(&[0x40, 0x10, 0x00, 0x00]);
    let mut cpu = Cpu::new();
    cpu.poll(&mut mem).unwrap();
    assert_eq!(cpu.ccr, Ccr::Equal);
}

#[test]
fn add_registers() {
    let mut mem = memory_with(&[0x10, 0x12]);
    mem.write_reg(1, 5);
    mem.write_reg(2, 7);
    let mut cpu = Cpu::new();
    assert_eq!(cpu.poll(&mut mem), Ok(Action::Nothing));
    assert_eq!(mem.read_reg(1), 12);
    assert_eq!(mem.read_reg(2), 7);
    assert_eq!(cpu.ilc, 0x42);
    assert_eq!(cpu.ccr, Ccr::Empty);
}

#[test]
fn subtract_registers_sets_ccr() {
    let mut mem = memory_with(&[0x11, 0x12]);
    mem.write_reg(1, 3);
    mem.write_reg(2, 5);
    let mut cpu = Cpu::new();
    cpu.poll(&mut mem).unwrap();
    assert_eq!(mem.read_reg(1), -2);
    assert_eq!(cpu.ccr, Ccr::Lower);
}

#[test]
fn reverse_subtract_and_logic() {
    let mut mem = memory_with(&[0x12, 0x12, 0x04, 0x34, 0x05, 0x34, 0x06, 0x34, 0x07, 0x56]);
    mem.write_reg(1, 3);
    mem.write_reg(2, 5);
    mem.write_reg(3, 0b1100);
    mem.write_reg(4, 0b1010);
    mem.write_reg(6, 0);
    let mut cpu = Cpu::new();
    cpu.poll(&mut mem).unwrap();
    assert_eq!(mem.read_reg(1), 2);
    cpu.poll(&mut mem).unwrap();
    assert_eq!(mem.read_reg(3), 0b1000);
    mem.write_reg(3, 0b1100);
    cpu.poll(&mut mem).unwrap();
    assert_eq!(mem.read_reg(3), 0b1110);
    mem.write_reg(3, 0b1100);
    cpu.poll(&mut mem).unwrap();
    assert_eq!(mem.read_reg(3), 0b0110);
    cpu.poll(&mut mem).unwrap();
    assert_eq!(mem.read_reg(5), -1);
}

#[test]
fn division_truncates_toward_zero() {
    let mut mem = memory_with(&[0x14, 0x12, 0x16, 0x34, 0x15, 0x56, 0x17, 0x78]);
    mem.write_reg(1, -7);
    mem.write_reg(2, 2);
    mem.write_reg(3, -7);
    mem.write_reg(4, 2);
    mem.write_reg(5, 2);
    mem.write_reg(6, -7);
    mem.write_reg(7, 2);
    mem.write_reg(8, 7);
    let mut cpu = Cpu::new();
    cpu.poll(&mut mem).unwrap();
    assert_eq!(mem.read_reg(1), -3);
    cpu.poll(&mut mem).unwrap();
    assert_eq!(mem.read_reg(3), -1);
    cpu.poll(&mut mem).unwrap();
    assert_eq!(mem.read_reg(5), -3);
    cpu.poll(&mut mem).unwrap();
    assert_eq!(mem.read_reg(7), 1);
}

#[test]
fn division_by_zero_is_an_error() {
    for program in [[0x14u8, 0x12], [0x16, 0x12], [0x15, 0x21], [0x17, 0x21]] {
        let mut mem = memory_with(&program);
        mem.write_reg(1, 9);
        let mut cpu = Cpu::new();
        cpu.ccr = Ccr::Greater;
        assert_eq!(cpu.poll(&mut mem), Err(EcError::ZeroDivisor));
        assert_eq!(cpu.ilc, 0x40);
        assert_eq!(cpu.ccr, Ccr::Greater);
        assert_eq!(mem.read_reg(1), 9);
    }
    let mut mem = memory_with(&[0x54, 0x10, 0x00, 0x00, 0x34, 0x10, 0x01, 0x00]);
    mem.write_reg(1, 9);
    let mut cpu = Cpu::new();
    assert_eq!(cpu.poll(&mut mem), Err(EcError::ZeroDivisor));
    cpu.ilc = 0x44;
    assert_eq!(cpu.poll(&mut mem), Err(EcError::ZeroDivisor));
    assert_eq!(cpu.ilc, 0x44);
}

#[test]
fn overflow_cannot_be_performed() {
    let mut mem = memory_with(&[0x13, 0x12]);
    mem.write_reg(1, i32::MAX);
    mem.write_reg(2, 2);
    let mut cpu = Cpu::new();
    assert_eq!(cpu.try_poll(&mut mem), None);
    assert_eq!(mem.read_reg(1), i32::MAX);
    let mut mem = memory_with(&[0x14, 0x12]);
    mem.write_reg(1, i32::MIN);
    mem.write_reg(2, -1);
    assert_eq!(cpu.try_poll(&mut mem), None);
}

#[test]
fn load_negative_register() {
    let mut mem = memory_with(&[0x01, 0x12, 0x01, 0x34]);
    mem.write_reg(2, 5);
    mem.write_reg(4, i32::MIN);
    let mut cpu = Cpu::new();
    cpu.poll(&mut mem).unwrap();
    assert_eq!(mem.read_reg(1), -5);
    assert_eq!(cpu.try_poll(&mut mem), None);
    assert_eq!(cpu.ilc, 0x42);
}

#[test]
fn register_moves() {
    let mut mem = memory_with(&[0x00, 0x12, 0x02, 0x34, 0x03, 0x56]);
    mem.write_reg(2, 11);
    mem.write_reg(3, 22);
    mem.write_reg(5, 55);
    mem.write_reg(6, 66);
    let mut cpu = Cpu::new();
    cpu.poll(&mut mem).unwrap();
    assert_eq!(mem.read_reg(1), 11);
    cpu.poll(&mut mem).unwrap();
    assert_eq!(mem.read_reg(4), 22);
    cpu.poll(&mut mem).unwrap();
    assert_eq!(mem.read_reg(5), 66);
    assert_eq!(mem.read_reg(6), 55);
}

#[test]
fn load_and_store_words() {
    let mut mem = memory_with(&[0x20, 0x10, 0x01, 0x00, 0x22, 0x20, 0x01, 0x04]);
    mem.write_word(0x100, 42);
    mem.write_reg(2, -9);
    let mut cpu = Cpu::new();
    cpu.poll(&mut mem).unwrap();
    assert_eq!(mem.read_reg(1), 42);
    cpu.poll(&mut mem).unwrap();
    assert_eq!(mem.read_word(0x104), -9);
    assert_eq!(cpu.ilc, 0x48);
}

#[test]
fn swap_min_max_with_storage() {
    let mut mem = memory_with(&[0x23, 0x10, 0x01, 0x00, 0x7a, 0x20, 0x01, 0x00, 0x7b, 0x30, 0x01, 0x00]);
    mem.write_word(0x100, 4);
    mem.write_reg(1, 8);
    mem.write_reg(2, 9);
    mem.write_reg(3, 1);
    let mut cpu = Cpu::new();
    cpu.poll(&mut mem).unwrap();
    assert_eq!(mem.read_reg(1), 4);
    assert_eq!(mem.read_word(0x100), 8);
    cpu.poll(&mut mem).unwrap();
    assert_eq!(mem.read_reg(2), 8);
    cpu.poll(&mut mem).unwrap();
    assert_eq!(mem.read_reg(3), 8);
}

#[test]
fn storage_beyond_memory_cannot_be_reached() {
    let mut mem = memory_with(&[0x20, 0x10, 0xff, 0xfc]);
    let mut cpu = Cpu::new();
    assert_eq!(cpu.try_poll(&mut mem), None);
    assert_eq!(cpu.ilc, 0x40);
}

#[test]
fn misaligned_word_operand_is_an_error() {
    for program in [[0x20u8, 0x10, 0x01, 0x02], [0x30, 0x10, 0xff, 0xff], [0x70, 0x10, 0x01, 0x01]] {
        let mut mem = memory_with(&program);
        mem.write_reg(1, 3);
        let mut cpu = Cpu::new();
        assert_eq!(cpu.poll(&mut mem), Err(EcError::WordAddressingError));
        assert_eq!(cpu.ilc, 0x40);
        assert_eq!(mem.read_reg(1), 3);
    }
}

#[test]
fn storage_arithmetic_and_characters() {
    let mut mem = memory_with(&[0x30, 0x10, 0x01, 0x00, 0x73, 0x10, 0x01, 0x04, 0x51, 0x10, 0x00, 0x03]);
    mem.write_word(0x100, 10);
    mem.write_word(0x104, 3);
    mem.write_reg(1, 1);
    let mut cpu = Cpu::new();
    cpu.poll(&mut mem).unwrap();
    assert_eq!(mem.read_reg(1), 11);
    cpu.poll(&mut mem).unwrap();
    assert_eq!(mem.read_reg(1), 33);
    cpu.poll(&mut mem).unwrap();
    assert_eq!(mem.read_reg(1), 30);
    assert_eq!(cpu.ccr, Ccr::Greater);
}

#[test]
fn supervisor_calls() {
    for (id, action) in [
        (0, Action::Exit),
        (1, Action::ReadInt(0x20)),
        (2, Action::Exit),
        (3, Action::ReadChar(0x20)),
        (5, Action::WriteInt(0x20)),
        (7, Action::WriteChar(0x20)),
    ] {
        let mut mem = memory_with(&[0x2e, 0x00, 0x00, 0x20]);
        mem.write_reg(0, id);
        let mut cpu = Cpu::new();
        assert_eq!(cpu.poll(&mut mem), Ok(action));
        assert_eq!(cpu.ilc, 0x44);
    }
}

#[test]
fn odd_ilc_is_an_illegal_instruction_address() {
    let mut mem = memory_with(&[0x40, 0x10, 0x00, 0x05]);
    let mut cpu = Cpu::new();
    cpu.ilc = 0x41;
    assert_eq!(cpu.poll(&mut mem), Err(EcError::IllegalInstructionAddress));
    assert_eq!(cpu.ilc, 0x41);
    assert_eq!(mem.read_reg(1), 0);
}

#[test]
fn load_register_zero_zero_ends_the_program() {
    let mut mem = Memory::new();
    let mut cpu = Cpu::new();
    assert_eq!(cpu.poll(&mut mem), Ok(Action::Exit));
    assert_eq!(cpu.ilc, 0x42);
}

#[test]
fn unknown_code_is_unimplemented() {
    for code in [0x0du8, 0x0f, 0x21, 0x41, 0x7f, 0xff] {
        let mut mem = memory_with(&[code, 0x12]);
        let mut cpu = Cpu::new();
        assert_eq!(cpu.poll(&mut mem), Err(EcError::UnimplementedInstruction));
        assert_eq!(cpu.ilc, 0x40);
        assert_eq!(cpu.ccr, Ccr::Empty);
    }
}

#[test]
fn instruction_beyond_memory_cannot_be_read() {
    let mut mem = Memory::new();
    let mut cpu = Cpu::new();
    cpu.ilc = 8094;
    mem.set(8094, 0x40);
    assert_eq!(cpu.try_poll(&mut mem), None);
    cpu.ilc = 8096;
    assert_eq!(cpu.try_poll(&mut mem), None);
}

#[test]
fn branch_and_link() {
    let mut mem = memory_with(&[0x0a, 0x12]);
    mem.write_reg(2, 0x80);
    let mut cpu = Cpu::new();
    assert_eq!(cpu.poll(&mut mem), Ok(Action::Nothing));
    assert_eq!(mem.read_reg(1), 0x42);
    assert_eq!(cpu.ilc, 0x80);
}

#[test]
fn conditional_branches_and_set_on_condition() {
    // SR 1,2 (3 - 5 < 0); BCSR lower,3; at 0x80: BCRR lower,4; SACR lower,5
    let mut mem = memory_with(&[0x11, 0x12, 0x08, 0x23]);
    mem.set(0x80, 0x09);
    mem.set(0x81, 0x24);
    mem.set(0x82, 0x0c);
    mem.set(0x83, 0x25);
    mem.set(0x84, 0x0c);
    mem.set(0x85, 0x16);
    mem.write_reg(1, 3);
    mem.write_reg(2, 5);
    mem.write_reg(3, 0x80);
    mem.write_reg(4, 0x200);
    mem.write_reg(6, 7);
    let mut cpu = Cpu::new();
    cpu.poll(&mut mem).unwrap();
    assert_eq!(cpu.ccr, Ccr::Lower);
    cpu.poll(&mut mem).unwrap();
    assert_eq!(cpu.ilc, 0x80);
    cpu.poll(&mut mem).unwrap();
    assert_eq!(cpu.ilc, 0x82);
    cpu.poll(&mut mem).unwrap();
    assert_eq!(mem.read_reg(5), i32::MIN);
    cpu.poll(&mut mem).unwrap();
    assert_eq!(mem.read_reg(6), 0);
}

#[test]
fn immediate_arithmetic() {
    let mut mem = memory_with(&[0x50, 0x10, 0x00, 0x07, 0x53, 0x10, 0x00, 0x03, 0x56, 0x10, 0x00, 0x04]);
    mem.write_reg(1, 2);
    let mut cpu = Cpu::new();
    cpu.poll(&mut mem).unwrap();
    assert_eq!(mem.read_reg(1), 9);
    cpu.poll(&mut mem).unwrap();
    assert_eq!(mem.read_reg(1), 27);
    cpu.poll(&mut mem).unwrap();
    assert_eq!(mem.read_reg(1), 3);
}

#[test]
fn opcode_table_round_trip() {
    for b in 0..=255u8 {
        if let Some(o) = OpCodeValue::from_u8(b) {
            assert_eq!(o.code(), b);
        }
    }
    assert_eq!(OpCodeValue::from_u8(0x00), Some(OpCodeValue::Lr));
    assert_eq!(OpCodeValue::from_u8(0x2e), Some(OpCodeValue::Svc));
    assert_eq!(OpCodeValue::from_u8(0x7b), Some(OpCodeValue::Max));
    assert_eq!(OpCodeValue::from_u8(0x0d), None);
    assert_eq!(OpCodeValue::Li.op_type(), OpType::Im);
    assert_eq!(OpCodeValue::Bcsr.op_type(), OpType::Rrm);
    assert_eq!(OpCodeValue::Andc.op_type(), OpType::Ch);
}

#[test]
fn readme_program_prints_and_halts() {
    let alf = Alf::from(vec![
        String::from("00004004040000005400442E010020"),
        String::from("END0040"),
    ])
    .unwrap();
    let mut ec = Ec::new(Memory::from(&alf));
    ec.mem.write_word(0x20, 1234);
    assert_eq!(ec.advance(), Some(Request::Continue));
    assert_eq!(ec.advance(), Some(Request::PrintInt(1234)));
    assert_eq!(ec.advance(), Some(Request::Halt));
}

#[test]
fn supervisor_requests() {
    let sv = Supervisor::new();
    let mut mem = Memory::new();
    mem.write_word(0x10, -3);
    mem.set(0x20, b'x');
    assert_eq!(sv.react(&mem, Ok(Action::Nothing)), Request::Continue);
    assert_eq!(sv.react(&mem, Ok(Action::Exit)), Request::Halt);
    assert_eq!(sv.react(&mem, Err(EcError::IllegalInstructionAddress)), Request::Halt);
    assert_eq!(sv.react(&mem, Ok(Action::ReadInt(0x10))), Request::ReadInt(0x10));
    assert_eq!(sv.react(&mem, Ok(Action::ReadChar(0x10))), Request::ReadChar(0x10));
    assert_eq!(sv.react(&mem, Ok(Action::WriteInt(0x10))), Request::PrintInt(-3));
    assert_eq!(sv.react(&mem, Ok(Action::WriteChar(0x20))), Request::PrintChar(b'x'));
    sv.accept_char(&mut mem, 0x30, &vec![b'q', b'\n']);
    assert_eq!(mem.get(0x30), b'q');
    sv.accept_char(&mut mem, 0x31, &vec![]);
    assert_eq!(mem.get(0x31), 0);
}

#[test]
fn printing_beyond_memory_is_refused() {
    let mut mem = memory_with(&[0x2e, 0x00, 0xff, 0xf0]);
    mem.write_reg(0, 5);
    let mut ec = Ec::new(mem);
    assert_eq!(ec.advance(), None);
    assert_eq!(ec.cpu.ilc, 0x44);
}
