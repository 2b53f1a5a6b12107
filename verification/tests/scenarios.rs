use sic_machine::code::Code;
use sic_machine::memory::{MemoryType, Size};
use sic_machine::operand::Register;

fn assemble(source: &str) -> Code {
    let mut text = String::from(source);
    match Code::compile(&mut text) {
        Ok(code) => code,
        Err(e) => panic!("line {}: {:?}", e.line, e.kind),
    }
}

#[test]
fn load_add_store() {
    let mut code = assemble("A LDA #5\n  ADD #3\n  STA RESULT\nRESULT RESW 1\n");
    assert_eq!(code.len(), 3);
    assert_eq!(code.memory().len(), 1);
    match code.memory().get("RESULT") {
        Some(MemoryType::Array(items, Size::Word)) => assert_eq!(items, &vec![1i16]),
        other => panic!("unexpected cell {:?}", other),
    }
    assert_eq!(code.execute(100), Ok(3));
    assert_eq!(code.get_register(Register::A), 8);
    match code.memory().get("RESULT") {
        Some(MemoryType::Integer(v)) => assert_eq!(*v, 8),
        other => panic!("unexpected cell {:?}", other),
    }
}

#[test]
fn loop_never_ends() {
    let mut code = assemble("LOOP LDA #1\n     COMP #1\n     JEQ LOOP\n");
    assert_eq!(code.len(), 3);
    assert_eq!(code.get_label_index("LOOP"), Ok(0));
    assert_eq!(code.execute(3), Ok(0));
    assert_eq!(code.execute(3000), Ok(0));
    assert_eq!(code.execute(3001), Ok(1));
    assert_eq!(code.step(2), Ok(0));
}
