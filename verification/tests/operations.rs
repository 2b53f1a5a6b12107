use sic_machine::assemble::{find_directive, Directive};
use sic_machine::error::ExecErrorKind;
use sic_machine::operand::{Operand, Register};
use sic_machine::operation::ArithmeticOperation::{ADD, DIV, MUL, SUB};
use sic_machine::operation::{ArithmeticOperation, BranchOperation, Compare, Operation};

#[test]
fn sums_differences_and_products_wrap() {
    assert_eq!(ArithmeticOperation::ADD.calculate(5, 3), Ok(8));
    assert_eq!(ArithmeticOperation::ADD.calculate(32767, 1), Ok(-32768));
    assert_eq!(ArithmeticOperation::ADD.calculate(-32768, -1), Ok(32767));
    assert_eq!(ArithmeticOperation::SUB.calculate(5, 8), Ok(-3));
    assert_eq!(ArithmeticOperation::SUB.calculate(-32768, 1), Ok(32767));
    assert_eq!(ArithmeticOperation::MUL.calculate(-6, 7), Ok(-42));
    assert_eq!(ArithmeticOperation::MUL.calculate(300, 300), Ok(24464));
    assert_eq!(ArithmeticOperation::MUL.calculate(-32768, -1), Ok(-32768));
}

#[test]
fn quotients_round_toward_zero() {
    assert_eq!(ArithmeticOperation::DIV.calculate(7, 2), Ok(3));
    assert_eq!(ArithmeticOperation::DIV.calculate(-7, 2), Ok(-3));
    assert_eq!(ArithmeticOperation::DIV.calculate(7, -2), Ok(-3));
    assert_eq!(ArithmeticOperation::DIV.calculate(-7, -2), Ok(3));
    assert_eq!(ArithmeticOperation::DIV.calculate(0, 5), Ok(0));
    assert_eq!(ArithmeticOperation::DIV.calculate(-32768, 1), Ok(-32768));
}

#[test]
fn divisions_without_quotient_fail() {
    assert_eq!(ArithmeticOperation::DIV.calculate(7, 0), Err(ExecErrorKind::DivisionByZero));
    assert_eq!(ArithmeticOperation::DIV.calculate(0, 0), Err(ExecErrorKind::DivisionByZero));
    assert_eq!(
        ArithmeticOperation::DIV.calculate(-32768, -1),
        Err(ExecErrorKind::DivisionOverflow)
    );
}

#[test]
fn comparison_is_three_way() {
    assert_eq!(Compare::from_values(1, 1), Compare::Equal);
    assert_eq!(Compare::from_values(2, 1), Compare::Greater);
    assert_eq!(Compare::from_values(-2, 1), Compare::Less);
}

#[test]
fn each_branch_has_its_condition() {
    let outcomes = [Compare::Equal, Compare::Greater, Compare::Less, Compare::Undefined];
    for outcome in outcomes {
        assert!(BranchOperation::J.should_branch(&outcome));
        assert_eq!(BranchOperation::JEQ.should_branch(&outcome), outcome == Compare::Equal);
        assert_eq!(BranchOperation::JGT.should_branch(&outcome), outcome == Compare::Greater);
        assert_eq!(BranchOperation::JLT.should_branch(&outcome), outcome == Compare::Less);
    }
}

#[test]
fn exactly_one_conditional_branch_is_taken() {
    for (a, b) in [(1i16, 1i16), (5, -5), (-5, 5)] {
        let outcome = Compare::from_values(a, b);
        let taken = [BranchOperation::JEQ, BranchOperation::JGT, BranchOperation::JLT]
            .iter()
            .filter(|op| op.should_branch(&outcome))
            .count();
        assert_eq!(taken, 1);
    }
}

#[test]
fn one_operand_forms() {
    assert_eq!(Operation::resolve("ADD", 1), Some(Operation::Arithmetic(ADD)));
    assert_eq!(Operation::resolve("SUB", 1), Some(Operation::Arithmetic(SUB)));
    assert_eq!(Operation::resolve("MUL", 1), Some(Operation::Arithmetic(MUL)));
    assert_eq!(Operation::resolve("DIV", 1), Some(Operation::Arithmetic(DIV)));
    assert_eq!(Operation::resolve("J", 1), Some(Operation::Branch(BranchOperation::J)));
    assert_eq!(Operation::resolve("JEQ", 1), Some(Operation::Branch(BranchOperation::JEQ)));
    assert_eq!(Operation::resolve("JGT", 1), Some(Operation::Branch(BranchOperation::JGT)));
    assert_eq!(Operation::resolve("JLT", 1), Some(Operation::Branch(BranchOperation::JLT)));
    assert_eq!(Operation::resolve("COMP", 1), Some(Operation::Compare));
    assert_eq!(Operation::resolve("LDA", 1), Some(Operation::Load(Register::A)));
    assert_eq!(Operation::resolve("LDS", 1), Some(Operation::Load(Register::S)));
    assert_eq!(Operation::resolve("LDT", 1), Some(Operation::Load(Register::T)));
    assert_eq!(Operation::resolve("LDX", 1), Some(Operation::Load(Register::X)));
    assert_eq!(Operation::resolve("STA", 1), Some(Operation::Store(Register::A)));
    assert_eq!(Operation::resolve("STS", 1), Some(Operation::Store(Register::S)));
    assert_eq!(Operation::resolve("STT", 1), Some(Operation::Store(Register::T)));
    assert_eq!(Operation::resolve("STX", 1), Some(Operation::Store(Register::X)));
}

#[test]
fn two_operand_forms() {
    assert_eq!(Operation::resolve("ADD", 2), Some(Operation::ArithmeticWithOffset(ADD)));
    assert_eq!(Operation::resolve("SUB", 2), Some(Operation::ArithmeticWithOffset(SUB)));
    assert_eq!(Operation::resolve("MUL", 2), Some(Operation::ArithmeticWithOffset(MUL)));
    assert_eq!(Operation::resolve("DIV", 2), Some(Operation::ArithmeticWithOffset(DIV)));
    assert_eq!(Operation::resolve("ADDR", 2), Some(Operation::ArithmeticRegisters(ADD)));
    assert_eq!(Operation::resolve("SUBR", 2), Some(Operation::ArithmeticRegisters(SUB)));
    assert_eq!(Operation::resolve("MULR", 2), Some(Operation::ArithmeticRegisters(MUL)));
    assert_eq!(Operation::resolve("DIVR", 2), Some(Operation::ArithmeticRegisters(DIV)));
    assert_eq!(Operation::resolve("COMPR", 2), Some(Operation::CompareRegisters));
    assert_eq!(Operation::resolve("RMO", 2), Some(Operation::Exchange));
    assert_eq!(Operation::resolve("LDA", 2), Some(Operation::LoadWithOffset(Register::A)));
    assert_eq!(Operation::resolve("LDX", 2), Some(Operation::LoadWithOffset(Register::X)));
    assert_eq!(Operation::resolve("STA", 2), Some(Operation::StoreWithOffset(Register::A)));
    assert_eq!(Operation::resolve("STT", 2), Some(Operation::StoreWithOffset(Register::T)));
}

#[test]
fn mnemonic_and_count_without_operation() {
    assert_eq!(Operation::resolve("ADDR", 1), None);
    assert_eq!(Operation::resolve("RMO", 1), None);
    assert_eq!(Operation::resolve("COMPR", 1), None);
    assert_eq!(Operation::resolve("J", 2), None);
    assert_eq!(Operation::resolve("COMP", 2), None);
    assert_eq!(Operation::resolve("ADD", 0), None);
    assert_eq!(Operation::resolve("ADD", 3), None);
    assert_eq!(Operation::resolve("add", 1), None);
    assert_eq!(Operation::resolve("NOP", 1), None);
    assert_eq!(Operation::resolve("", 1), None);
}

#[test]
fn resolved_operations_take_the_operands_given() {
    for mnemonic in ["ADD", "LDA", "STA", "J", "COMP", "COMPR", "RMO", "ADDR", "XYZ"] {
        for count in 0..4usize {
            if let Some(operation) = Operation::resolve(mnemonic, count) {
                assert_eq!(operation.operand_count(), count);
                assert_ne!(operation, Operation::Idle);
            }
        }
    }
}

#[test]
fn directives_by_name() {
    assert_eq!(find_directive("RESW"), Some(Directive::ReserveWords));
    assert_eq!(find_directive("RESB"), Some(Directive::ReserveBytes));
    assert_eq!(find_directive("WORD"), Some(Directive::Words));
    assert_eq!(find_directive("BYTE"), Some(Directive::Bytes));
    assert_eq!(find_directive("resw"), None);
    assert_eq!(find_directive("LDA"), None);
}

#[test]
fn registers_by_lower_case_name() {
    assert_eq!(Register::from_lowercase("a"), Some(Register::A));
    assert_eq!(Register::from_lowercase("x"), Some(Register::X));
    assert_eq!(Register::from_lowercase("l"), Some(Register::L));
    assert_eq!(Register::from_lowercase("b"), Some(Register::B));
    assert_eq!(Register::from_lowercase("s"), Some(Register::S));
    assert_eq!(Register::from_lowercase("t"), Some(Register::T));
    assert_eq!(Register::from_lowercase("f"), Some(Register::F));
    assert_eq!(Register::from_lowercase("A"), None);
    assert_eq!(Register::from_lowercase("ax"), None);
    assert_eq!(Register::from_lowercase(""), None);
    assert_eq!(Register::from_lowercase("k"), None);
    let names: String = Register::all().iter().map(|r| r.name()).collect();
    assert_eq!(names, "AXLBSTF");
}

#[test]
fn operands_are_classified_by_their_text() {
    assert!(matches!(Operand::classify("#5"), Operand::Immediate(text) if text == "5"));
    assert!(matches!(Operand::classify("#-12"), Operand::Immediate(text) if text == "-12"));
    assert!(matches!(Operand::classify("#"), Operand::Immediate(text) if text.is_empty()));
    assert!(matches!(Operand::classify("#a"), Operand::Immediate(text) if text == "a"));
    assert!(matches!(Operand::classify("a"), Operand::Register(Register::A)));
    assert!(matches!(Operand::classify("A"), Operand::Register(Register::A)));
    assert!(matches!(Operand::classify("X"), Operand::Register(Register::X)));
    assert!(matches!(Operand::classify("f"), Operand::Register(Register::F)));
    assert!(matches!(Operand::classify("RESULT"), Operand::Memory(name) if name == "RESULT"));
    assert!(matches!(Operand::classify("ax"), Operand::Memory(name) if name == "ax"));
    assert!(matches!(Operand::classify("5"), Operand::Memory(name) if name == "5"));
    assert!(matches!(Operand::classify("\u{212a}"), Operand::Memory(_)));
}

#[test]
fn classification_goes_by_the_lower_case_form_given() {
    assert!(matches!(Operand::from_parts("Q", "a"), Operand::Register(Register::A)));
    assert!(matches!(Operand::from_parts("A", "A"), Operand::Memory(name) if name == "A"));
    assert!(matches!(Operand::from_parts("#A", "a"), Operand::Immediate(text) if text == "A"));
}
