use ec::alf::Alf;
use ec::mem::{Memory, SIZE};

#[test]
fn test_gpr() {
    let mut memory: Memory = Memory::new();
    let index = 1;
    assert_eq!(0, memory.get_gpr(index));

    let value = 0x30;
    memory.set_gpr(index, value);
    assert_eq!(value, memory.get_gpr(index));
}

#[test]
fn test_memory_access() {
    let mut memory: Memory = Memory::new();
    let address = 0x70;
    let value = 0xa0;

    assert_eq!(0, memory.get(address));
    memory.set(address, value);
    assert_eq!(value, memory.get(address));
}

#[test]
fn test_read_written_value_from_word() {
    let mut memory: Memory = Memory::new();
    let address = 0x70;
    let expected_value = -i32::pow(2, 30);

    memory.write_word(address, expected_value);
    assert_eq!(expected_value, memory.read_word(address));
}

#[test]
fn words_are_big_endian() {
    let mut memory = Memory::new();
    memory.write_word(0x100, 0x01020304);
    assert_eq!(memory.get(0x100), 1);
    assert_eq!(memory.get(0x101), 2);
    assert_eq!(memory.get(0x102), 3);
    assert_eq!(memory.get(0x103), 4);
    memory.write_word(0x200, -2);
    assert_eq!(memory.get(0x200), 0xff);
    assert_eq!(memory.get(0x203), 0xfe);
    assert_eq!(memory.read_word(0x200), -2);
}

#[test]
fn word_round_trip_and_frame() {
    let mut memory = Memory::new();
    memory.set(0x6f, 7);
    memory.set(0x74, 9);
    for v in [0, 1, -1, i32::MIN, i32::MAX, 0x12345678] {
        memory.write_word(0x70, v);
        assert_eq!(memory.read_word(0x70), v);
        assert_eq!(memory.get(0x6f), 7);
        assert_eq!(memory.get(0x74), 9);
    }
    memory.write_word(SIZE - 4, 42);
    assert_eq!(memory.read_word(SIZE - 4), 42);
}

#[test]
fn registers_are_the_first_words() {
    let mut memory = Memory::new();
    memory.write_reg(3, -5);
    assert_eq!(memory.read_word(12), -5);
    assert_eq!(memory.read_reg(3), -5);
    assert_eq!(memory.get_gpr(3), (-5i32) as u32);
}

#[test]
fn set_gpr_keeps_only_the_low_character() {
    let mut memory = Memory::new();
    memory.write_reg(2, -1);
    memory.set_gpr(2, 0x1234);
    assert_eq!(memory.get_gpr(2), 0x34);
    assert_eq!(memory.read_reg(2), 0x34);
    memory.set_gpr(2, 0xff);
    assert_eq!(memory.get_gpr(2), 0xff);
}

#[test]
fn memory_from_alf() {
    let alf = Alf::from(vec![
        String::from("00004004040000005400442E010020"),
        String::from("END0040"),
    ])
    .unwrap();
    assert!(Memory::can_load(&alf));
    let memory = Memory::from(&alf);
    let expected = [0x40, 0x00, 0x00, 0x05, 0x2e, 0x01, 0x00, 0x20];
    for (i, v) in expected.iter().enumerate() {
        assert_eq!(memory.get(0x40 + i), *v);
    }
    assert_eq!(memory.get(0x3f), 0);
    assert_eq!(memory.get(0x48), 0);
}

#[test]
fn later_records_overwrite_earlier_ones() {
    let alf = Alf::from(vec![
        String::from("A000200201122"),
        String::from("A00110021AB"),
        String::from("END0000"),
    ])
    .unwrap();
    let memory = Memory::from(&alf);
    assert_eq!(memory.get(0x20), 0x11);
    assert_eq!(memory.get(0x21), 0xab);
}

#[test]
fn alf_within_memory_can_be_loaded() {
    let alf = Alf::from(vec![String::from("C00021F9E0102"), String::from("END0")]).unwrap();
    assert!(Memory::can_load(&alf));
    let memory = Memory::from(&alf);
    assert_eq!(memory.get(SIZE - 1), 2);
}

#[test]
fn alf_beyond_memory_cannot_be_loaded() {
    let alf = Alf::from(vec![String::from("D00021F9F0102"), String::from("END0")]).unwrap();
    assert!(!Memory::can_load(&alf));
}
