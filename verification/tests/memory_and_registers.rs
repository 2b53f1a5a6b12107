use sic_machine::error::ExecErrorKind;
use sic_machine::labels::Labels;
use sic_machine::memory::{Memory, MemoryType, Size};
use sic_machine::operand::Register;
use sic_machine::registers::RegisterBank;

fn array(memory: &Memory, name: &str) -> (Vec<i16>, Size) {
    match memory.get(name) {
        Some(MemoryType::Array(items, size)) => (items.clone(), *size),
        other => panic!("{} is no array: {:?}", name, other),
    }
}

#[test]
fn unwritten_registers_read_as_zero() {
    let mut bank = RegisterBank::new();
    for register in Register::all() {
        assert_eq!(bank.peek(register), None);
        assert_eq!(bank.get(register), 0);
    }
    bank.set(Register::X, -4);
    assert_eq!(bank.peek(Register::X), Some(-4));
    assert_eq!(bank.get(Register::X), -4);
    assert_eq!(bank.peek(Register::A), None);
    bank.set(Register::X, 0);
    assert_eq!(bank.peek(Register::X), Some(0));
}

#[test]
fn each_register_has_its_own_slot() {
    let mut bank = RegisterBank::new();
    for (i, register) in Register::all().into_iter().enumerate() {
        bank.set(register, i as i16 + 1);
    }
    for (i, register) in Register::all().into_iter().enumerate() {
        assert_eq!(bank.get(register), i as i16 + 1);
    }
}

#[test]
fn later_label_takes_the_place_of_earlier() {
    let mut labels = Labels::new();
    assert_eq!(labels.get("LOOP"), None);
    labels.insert("LOOP".to_string(), 2);
    labels.insert("END".to_string(), 9);
    assert_eq!(labels.get("LOOP"), Some(2));
    labels.insert("LOOP".to_string(), 5);
    assert_eq!(labels.get("LOOP"), Some(5));
    assert_eq!(labels.get("END"), Some(9));
    assert_eq!(labels.get("loop"), None);
}

#[test]
fn memory_holds_one_cell_for_each_name() {
    let mut memory = Memory::new();
    assert_eq!(memory.len(), 0);
    memory.insert("B".to_string(), MemoryType::Integer(1));
    memory.insert("A".to_string(), MemoryType::Array(vec![1, 2], Size::Byte));
    memory.insert("B".to_string(), MemoryType::Integer(7));
    assert_eq!(memory.len(), 2);
    assert_eq!(memory.name_at(0), "B");
    assert_eq!(memory.name_at(1), "A");
    assert!(matches!(memory.cell_at(0), MemoryType::Integer(7)));
    assert!(matches!(memory.get("B"), Some(MemoryType::Integer(7))));
    assert!(memory.get("C").is_none());
    assert_eq!(array(&memory, "A"), (vec![1, 2], Size::Byte));
}

#[test]
fn plain_reads() {
    let mut memory = Memory::new();
    memory.insert("N".to_string(), MemoryType::Integer(-3));
    memory.insert("W".to_string(), MemoryType::Array(vec![10, 20, 30], Size::Word));
    memory.insert("E".to_string(), MemoryType::Array(vec![], Size::Word));
    assert_eq!(memory.read("N", None), Ok(-3));
    assert_eq!(memory.read("W", None), Ok(10));
    assert_eq!(memory.read("E", None), Err(ExecErrorKind::OutOfBounds));
    assert_eq!(memory.read("Q", None), Err(ExecErrorKind::UnknownMemory));
    assert_eq!(memory.read("Q", Some(0)), Err(ExecErrorKind::UnknownMemory));
    assert_eq!(memory.read("N", Some(0)), Err(ExecErrorKind::ArrayExpected));
}

#[test]
fn word_offsets_count_three_units_to_the_element() {
    let mut memory = Memory::new();
    memory.insert("W".to_string(), MemoryType::Array(vec![10, 20, 30], Size::Word));
    let expected = [10, 10, 10, 20, 20, 20, 30, 30, 30];
    for (offset, value) in expected.iter().enumerate() {
        assert_eq!(memory.read("W", Some(offset as i16)), Ok(*value));
    }
    assert_eq!(memory.read("W", Some(9)), Err(ExecErrorKind::OutOfBounds));
    assert_eq!(memory.read("W", Some(-1)), Err(ExecErrorKind::OutOfBounds));
    assert_eq!(memory.read("W", Some(i16::MAX)), Err(ExecErrorKind::OutOfBounds));
    assert_eq!(memory.read("W", Some(i16::MIN)), Err(ExecErrorKind::OutOfBounds));
}

#[test]
fn byte_offsets_count_one_unit_to_the_element() {
    let mut memory = Memory::new();
    memory.insert("B".to_string(), MemoryType::Array(vec![4, 5], Size::Byte));
    assert_eq!(memory.read("B", Some(0)), Ok(4));
    assert_eq!(memory.read("B", Some(1)), Ok(5));
    assert_eq!(memory.read("B", Some(2)), Err(ExecErrorKind::OutOfBounds));
    assert_eq!(memory.read("B", Some(-1)), Err(ExecErrorKind::OutOfBounds));
}

#[test]
fn stored_value_is_read_back_at_the_same_element() {
    let mut memory = Memory::new();
    memory.insert("W".to_string(), MemoryType::Array(vec![1, 1, 1], Size::Word));
    assert_eq!(memory.write("W", 77, Some(4)), Ok(()));
    assert_eq!(memory.read("W", Some(4)), Ok(77));
    assert_eq!(memory.read("W", Some(3)), Ok(77));
    assert_eq!(memory.read("W", Some(5)), Ok(77));
    assert_eq!(memory.read("W", Some(2)), Ok(1));
    assert_eq!(memory.read("W", Some(6)), Ok(1));
    assert_eq!(array(&memory, "W"), (vec![1, 77, 1], Size::Word));
}

#[test]
fn store_outside_the_array_fails_and_changes_nothing() {
    let mut memory = Memory::new();
    memory.insert("W".to_string(), MemoryType::Array(vec![1, 2], Size::Word));
    memory.insert("N".to_string(), MemoryType::Integer(3));
    assert_eq!(memory.write("W", 9, Some(6)), Err(ExecErrorKind::OutOfBounds));
    assert_eq!(memory.write("W", 9, Some(-1)), Err(ExecErrorKind::OutOfBounds));
    assert_eq!(memory.write("N", 9, Some(0)), Err(ExecErrorKind::ArrayExpected));
    assert_eq!(memory.write("Q", 9, Some(0)), Err(ExecErrorKind::UnknownMemory));
    assert_eq!(array(&memory, "W"), (vec![1, 2], Size::Word));
    assert!(matches!(memory.get("N"), Some(MemoryType::Integer(3))));
    assert_eq!(memory.len(), 2);
}

#[test]
fn plain_store_makes_a_single_value() {
    let mut memory = Memory::new();
    memory.insert("W".to_string(), MemoryType::Array(vec![1, 2], Size::Word));
    assert_eq!(memory.write("W", 5, None), Ok(()));
    assert!(matches!(memory.get("W"), Some(MemoryType::Integer(5))));
    assert_eq!(memory.write("NEW", -1, None), Ok(()));
    assert!(matches!(memory.get("NEW"), Some(MemoryType::Integer(-1))));
    assert_eq!(memory.len(), 2);
}

#[test]
fn cell_copies_hold_the_same() {
    let cell = MemoryType::Array(vec![3, 4], Size::Byte);
    assert!(matches!(cell.clone(), MemoryType::Array(items, Size::Byte) if items == vec![3, 4]));
    assert!(matches!(MemoryType::Integer(2).clone(), MemoryType::Integer(2)));
    assert_eq!(Size::Byte.width(), 1);
    assert_eq!(Size::Word.width(), 3);
}
