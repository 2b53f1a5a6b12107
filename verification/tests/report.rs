use sic_machine::code::Code;
use sic_machine::memory::{Memory, MemoryType, Size};
use sic_machine::operand::Register;
use sic_machine::registers::RegisterBank;
use sic_machine::report::{format_cell, memory_rows, register_rows, render_registers};

fn pairs(rows: &[(&str, &str)]) -> Vec<(String, String)> {
    rows.iter().map(|(a, b)| (a.to_string(), b.to_string())).collect()
}

#[test]
fn one_row_for_each_register() {
    let mut bank = RegisterBank::new();
    bank.set(Register::A, 8);
    bank.set(Register::T, -300);
    bank.set(Register::F, 0);
    assert_eq!(
        register_rows(&bank),
        pairs(&[("A", "8"), ("X", ""), ("L", ""), ("B", ""), ("S", ""), ("T", "-300"), ("F", "0")])
    );
}

#[test]
fn cells_as_text() {
    assert_eq!(format_cell(&MemoryType::Integer(-5)), "-5");
    assert_eq!(format_cell(&MemoryType::Array(vec![1, -2, 30], Size::Word)), "1,-2,30,");
    assert_eq!(format_cell(&MemoryType::Array(vec![], Size::Byte)), "");
}

#[test]
fn one_row_for_each_cell() {
    let mut memory = Memory::new();
    memory.insert("T".to_string(), MemoryType::Array(vec![1, 1], Size::Word));
    memory.insert("RESULT".to_string(), MemoryType::Integer(8));
    assert_eq!(memory_rows(&memory), pairs(&[("T", "1,1,"), ("RESULT", "8")]));
    assert_eq!(memory_rows(&Memory::new()), Vec::new());
}

#[test]
fn table_of_registers_is_drawn() {
    let mut text = String::from(" LDA #5\n ADD #3\n LDX #-12\n");
    let mut code = Code::compile(&mut text).unwrap();
    assert_eq!(code.execute(10), Ok(3));
    let table = render_registers(code.registers()).expect("no table");
    assert_eq!(table, table.trim());
    for word in ["Register", "Value", "A", "X", "L", "B", "S", "T", "F", "8", "-12"] {
        assert!(table.contains(word), "{} is missing in\n{}", word, table);
    }
    assert!(table.lines().count() >= 9);
}
