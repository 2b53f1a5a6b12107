use sic_machine::assemble::{parse_line, read_operands, Statement};
use sic_machine::code::{Code, Line};
use sic_machine::error::{CompileError, CompileErrorKind};
use sic_machine::memory::{MemoryType, Size};
use sic_machine::operand::{Operand, Register};
use sic_machine::operation::ArithmeticOperation::ADD;
use sic_machine::operation::{BranchOperation, Compare, Operation};

fn compile(source: &str) -> Result<Code, CompileError> {
    let mut text = String::from(source);
    let out = Code::compile(&mut text);
    assert_eq!(text, source);
    out
}

fn assemble(source: &str) -> Code {
    match compile(source) {
        Ok(code) => code,
        Err(e) => panic!("line {}: {:?}", e.line, e.kind),
    }
}

fn refused(source: &str) -> CompileError {
    match compile(source) {
        Ok(_) => panic!("{:?} was accepted", source),
        Err(e) => e,
    }
}

fn array(code: &Code, name: &str) -> (Vec<i16>, Size) {
    match code.memory().get(name) {
        Some(MemoryType::Array(items, size)) => (items.clone(), *size),
        other => panic!("{} is no array: {:?}", name, other),
    }
}

#[test]
fn new_line_is_idle() {
    let line = Line::new(7);
    assert_eq!(line.number(), 7);
    assert_eq!(line.operation(), Operation::Idle);
    assert_eq!(line.operand_count(), 0);
    assert_eq!(line.label(), "");
}

#[test]
fn new_code_is_empty() {
    let code = Code::new();
    assert_eq!(code.len(), 0);
    assert_eq!(code.memory().len(), 0);
    assert_eq!(code.compare(), Compare::Undefined);
    assert_eq!(code.get_accumulator(), 0);
    assert_eq!(code.registers().peek(Register::A), None);
}

#[test]
fn empty_source_is_an_empty_program() {
    for source in ["", "\n", "   \n\t\n  ", "\r\n\r\n"] {
        let code = assemble(source);
        assert_eq!(code.len(), 0);
        assert_eq!(code.memory().len(), 0);
    }
}

#[test]
fn line_shapes() {
    assert!(matches!(parse_line(""), Ok(Statement::Blank)));
    assert!(matches!(parse_line(" \t "), Ok(Statement::Blank)));
    assert!(matches!(parse_line("  LOOP "), Ok(Statement::Label(name)) if name == "LOOP"));
    match parse_line("lda #5") {
        Ok(Statement::Instruction(None, Operation::Load(Register::A), operands)) => {
            assert_eq!(operands.len(), 1);
            assert!(matches!(&operands[0], Operand::Immediate(text) if text == "5"));
        }
        other => panic!("{:?}", other),
    }
    match parse_line("L1\tAdd\tBUF,x") {
        Ok(Statement::Instruction(Some(label), Operation::ArithmeticWithOffset(ADD), operands)) => {
            assert_eq!(label, "L1");
            assert_eq!(operands.len(), 2);
            assert!(matches!(&operands[0], Operand::Memory(name) if name == "BUF"));
            assert!(matches!(&operands[1], Operand::Register(Register::X)));
        }
        other => panic!("{:?}", other),
    }
    match parse_line("BUF resb 2") {
        Ok(Statement::Cell(name, MemoryType::Array(items, Size::Byte))) => {
            assert_eq!(name, "BUF");
            assert_eq!(items, vec![0, 0]);
        }
        other => panic!("{:?}", other),
    }
    assert!(matches!(parse_line("A B C D"), Err(CompileErrorKind::MalformedLine)));
    assert!(matches!(parse_line("A LDA #1 ; load"), Err(CompileErrorKind::MalformedLine)));
}

#[test]
fn operand_fields() {
    let operands = read_operands("#1,,BUF,x,");
    assert_eq!(operands.len(), 3);
    assert!(matches!(&operands[0], Operand::Immediate(text) if text == "1"));
    assert!(matches!(&operands[1], Operand::Memory(name) if name == "BUF"));
    assert!(matches!(&operands[2], Operand::Register(Register::X)));
    assert_eq!(read_operands(",").len(), 0);
    assert_eq!(read_operands("").len(), 0);
}

#[test]
fn instructions_keep_their_line_numbers() {
    let code = assemble("\nSTART lda #1\n\n  add #2\nEND\n  sta OUT\n");
    assert_eq!(code.len(), 3);
    assert_eq!(code.line(0).number(), 2);
    assert_eq!(code.line(0).label(), "START");
    assert_eq!(code.line(0).operation(), Operation::Load(Register::A));
    assert_eq!(code.line(1).number(), 4);
    assert_eq!(code.line(1).label(), "");
    assert_eq!(code.line(1).operation(), Operation::Arithmetic(ADD));
    assert_eq!(code.line(2).number(), 6);
    assert_eq!(code.line(2).operation(), Operation::Store(Register::A));
    assert!(matches!(code.line(2).operand(0), Operand::Memory(name) if name == "OUT"));
}

#[test]
fn labels_stand_for_the_next_instruction() {
    let code = assemble("\nFIRST\n\nA LDA #1\nMID\nTABLE RESW 2\nB ADD #1\nLAST\n");
    assert_eq!(code.len(), 2);
    assert_eq!(code.get_label_index("FIRST"), Ok(0));
    assert_eq!(code.get_label_index("A"), Ok(0));
    assert_eq!(code.get_label_index("MID"), Ok(1));
    assert_eq!(code.get_label_index("TABLE"), Ok(1));
    assert_eq!(code.get_label_index("B"), Ok(1));
    assert_eq!(code.get_label_index("LAST"), Ok(2));
    assert!(code.get_label_index("NONE").is_err());
    assert!(code.get_label_index("first").is_err());
}

#[test]
fn second_declaration_of_a_label_wins() {
    let code = assemble("L LDA #1\n ADD #1\nL ADD #2\n");
    assert_eq!(code.get_label_index("L"), Ok(2));
}

#[test]
fn reservations() {
    let code = assemble("W RESW 3\nB RESB 2\nZ RESW 0\nP RESB +1\nM RESW 2,9\n");
    assert_eq!(code.len(), 0);
    assert_eq!(code.memory().len(), 5);
    assert_eq!(array(&code, "W"), (vec![1, 1, 1], Size::Word));
    assert_eq!(array(&code, "B"), (vec![0, 0], Size::Byte));
    assert_eq!(array(&code, "Z"), (vec![], Size::Word));
    assert_eq!(array(&code, "P"), (vec![0], Size::Byte));
    assert_eq!(array(&code, "M"), (vec![1, 1], Size::Word));
}

#[test]
fn literal_data() {
    let code = assemble("W WORD 1,-2,+3\nB BYTE 300\nE WORD ,\n");
    assert_eq!(code.len(), 0);
    assert_eq!(array(&code, "W"), (vec![1, -2, 3], Size::Word));
    assert_eq!(array(&code, "B"), (vec![300], Size::Byte));
    assert_eq!(array(&code, "E"), (vec![], Size::Word));
}

#[test]
fn data_only_source_has_no_instructions() {
    let code = assemble("A RESW 4\n\nB RESB 7\nC WORD 5,6\nD BYTE 1,2,3\nA RESB 2\n");
    assert_eq!(code.len(), 0);
    assert_eq!(code.memory().len(), 4);
    assert_eq!(array(&code, "A").0.len(), 2);
    assert_eq!(array(&code, "A").1, Size::Byte);
    assert_eq!(array(&code, "B").0.len(), 7);
    assert_eq!(array(&code, "C").0.len(), 2);
    assert_eq!(array(&code, "D").0.len(), 3);
}

#[test]
fn mnemonics_are_read_without_regard_to_case() {
    let code = assemble("x lda #1\ny Lda #1,X\nz rEsW 1\n \u{17f}ta OUT\n");
    assert_eq!(code.len(), 3);
    assert_eq!(code.line(0).operation(), Operation::Load(Register::A));
    assert_eq!(code.line(1).operation(), Operation::LoadWithOffset(Register::A));
    assert_eq!(code.line(2).operation(), Operation::Store(Register::A));
    assert_eq!(array(&code, "z"), (vec![1], Size::Word));
}

#[test]
fn count_of_operands_selects_the_form() {
    let code = assemble(" ADD V\n ADD V,X\n ADDR X,A\n J L\n COMP #1\n COMPR A,X\n RMO A,X\n STX V,A\n");
    let expected = [
        Operation::Arithmetic(ADD),
        Operation::ArithmeticWithOffset(ADD),
        Operation::ArithmeticRegisters(ADD),
        Operation::Branch(BranchOperation::J),
        Operation::Compare,
        Operation::CompareRegisters,
        Operation::Exchange,
        Operation::StoreWithOffset(Register::X),
    ];
    assert_eq!(code.len(), expected.len());
    for (i, operation) in expected.iter().enumerate() {
        assert_eq!(code.line(i).operation(), *operation);
        assert_eq!(code.line(i).operand_count(), operation.operand_count());
    }
}

#[test]
fn malformed_line_is_refused() {
    let e = refused("A LDA #1\n\nB LDA #1 extra\n");
    assert_eq!(e, CompileError { line: 3, kind: CompileErrorKind::MalformedLine });
}

#[test]
fn directive_without_label_is_refused() {
    let e = refused(" LDA #1\n RESW 1\n");
    assert_eq!(e, CompileError { line: 2, kind: CompileErrorKind::MissingLabel });
    assert_eq!(refused("WORD 1").kind, CompileErrorKind::MissingLabel);
}

#[test]
fn reservation_without_operand_is_refused() {
    let e = refused("T RESW ,\n");
    assert_eq!(e, CompileError { line: 1, kind: CompileErrorKind::MissingOperand });
    assert_eq!(refused("T RESB ,,").kind, CompileErrorKind::MissingOperand);
}

#[test]
fn bad_literal_in_directive_is_refused() {
    for source in [
        "T RESW x1", "T RESW -1", "T RESW #3", "T RESW a", "T RESB 1.5", "T WORD 1,two",
        "T WORD 40000", "T BYTE #1", "T BYTE 1,x", "T WORD -32769",
    ] {
        let e = refused(source);
        assert_eq!(e, CompileError { line: 1, kind: CompileErrorKind::InvalidLiteral }, "{}", source);
    }
}

#[test]
fn unknown_operation_is_refused() {
    for source in ["A NOP #1", " RMO A", " J A,B", " ADD 1,2,3", " LDA ,", "A B"] {
        let e = refused(source);
        assert_eq!(
            e,
            CompileError { line: 1, kind: CompileErrorKind::IncompatibleOperation },
            "{}",
            source
        );
    }
}

#[test]
fn single_word_is_a_label_whatever_it_says() {
    let code = assemble(" ADD
 LDA
RESW
");
    assert_eq!(code.len(), 0);
    assert_eq!(code.get_label_index("ADD"), Ok(0));
    assert_eq!(code.get_label_index("RESW"), Ok(0));
    assert_eq!(code.memory().len(), 0);
}

#[test]
fn first_refused_line_is_reported() {
    let e = refused(" LDA #1\n BAD\n A B C D\n RESW 1\n");
    assert_eq!(e.line, 3);
    assert_eq!(e.kind, CompileErrorKind::MalformedLine);
    let e = refused("A FOO 1\nB C D E\n");
    assert_eq!(e, CompileError { line: 1, kind: CompileErrorKind::IncompatibleOperation });
}

#[test]
fn applying_statements_by_hand() {
    let mut code = Code::new();
    code.apply(1, Statement::Label("TOP".to_string()));
    code.apply(2, Statement::Cell("V".to_string(), MemoryType::Integer(4)));
    code.apply(
        3,
        Statement::Instruction(
            Some("GO".to_string()),
            Operation::Load(Register::A),
            vec![Operand::Memory("V".to_string())],
        ),
    );
    code.apply(4, Statement::Blank);
    assert_eq!(code.len(), 1);
    assert_eq!(code.get_label_index("TOP"), Ok(0));
    assert_eq!(code.get_label_index("V"), Ok(0));
    assert_eq!(code.get_label_index("GO"), Ok(0));
    assert_eq!(code.line(0).number(), 3);
    assert_eq!(code.execute(10), Ok(1));
    assert_eq!(code.get_accumulator(), 4);
}
