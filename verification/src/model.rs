use crate::error::ExecErrorKind;
use crate::memory::{memory_stored, memory_value, CellView};
use crate::number::word_literal;
use crate::operand::{OperandView, Register};
use crate::operation::{ArithmeticOperation, BranchOperation, Compare, Operation};
use crate::registers::RegisterBank;
use vstd::prelude::*;

verus! {

/// One instruction, over plain values.
pub struct LineView {
    /// The label declared on the line; empty if there is none.
    pub label: Seq<char>,
    pub operation: Operation,
    pub operands: Seq<OperandView>,
    /// The number of the line in the source, counted from one.
    pub number: usize,
}

/// A program together with the state of the machine that runs it.
pub struct CodeView {
    pub lines: Seq<LineView>,
    pub labels: Map<Seq<char>, usize>,
    pub memory: Map<Seq<char>, CellView>,
    pub registers: RegisterBank,
    pub compare: Compare,
}

/// The program without instructions, labels or cells, on a machine on which
/// nothing has happened yet.
pub open spec fn blank() -> CodeView {
    CodeView {
        lines: Seq::empty(),
        labels: Map::empty(),
        memory: Map::empty(),
        registers: RegisterBank::empty(),
        compare: Compare::Undefined,
    }
}

/// Whether every instruction has as many operands as its operation takes
/// and every label stands for an index into the instructions or for their
/// end.
pub open spec fn consistent(code: CodeView) -> bool {
    &&& forall|i: int|
        0 <= i < code.lines.len() ==> (#[trigger] code.lines[i]).operands.len()
            == code.lines[i].operation.arity()
    &&& forall|name: Seq<char>|
        code.labels.contains_key(name) ==> #[trigger] code.labels[name] <= code.lines.len()
}

/// The value of an operand. A register reads as what it holds, or as zero;
/// a literal as the number its text denotes; a name as the cell it names,
/// at the offset if there is one.
pub open spec fn operand_value(code: CodeView, operand: OperandView, offset: Option<i16>) -> Result<
    i16,
    ExecErrorKind,
> {
    match operand {
        OperandView::Register(r) => Ok(code.registers.value(r)),
        OperandView::Immediate(text) => match word_literal(text) {
            Some(v) => Ok(v),
            None => Err(ExecErrorKind::InvalidImmediate),
        },
        OperandView::Memory(name) => memory_value(code.memory, name, offset),
    }
}

/// The machine after `value` was stored to an operand. A register takes the
/// value, a name has its cell written, and a literal takes nothing.
pub open spec fn operand_stored(
    code: CodeView,
    operand: OperandView,
    value: i16,
    offset: Option<i16>,
) -> Result<CodeView, ExecErrorKind> {
    match operand {
        OperandView::Register(r) => Ok(CodeView { registers: code.registers.with(r, value), ..code }),
        OperandView::Immediate(_) => Err(ExecErrorKind::StoreToImmediate),
        OperandView::Memory(name) => match memory_stored(code.memory, name, value, offset) {
            Ok(memory) => Ok(CodeView { memory, ..code }),
            Err(e) => Err(e),
        },
    }
}

/// The machine after `value` was written to a register.
pub open spec fn register_set(code: CodeView, register: Register, value: i16) -> CodeView {
    CodeView { registers: code.registers.with(register, value), ..code }
}

/// The value of the first operand of `line`, addressed at the offset that
/// the second operand gives.
pub open spec fn offset_operand_value(code: CodeView, line: LineView) -> Result<i16, ExecErrorKind> {
    match operand_value(code, line.operands[1], None) {
        Ok(offset) => operand_value(code, line.operands[0], Some(offset)),
        Err(e) => Err(e),
    }
}

/// The step that writes `value` to a register, or fails as the value
/// failed.
pub open spec fn loaded(
    code: CodeView,
    register: Register,
    value: Result<i16, ExecErrorKind>,
    next: int,
) -> Result<(CodeView, int), ExecErrorKind> {
    match value {
        Ok(v) => Ok((register_set(code, register, v), next)),
        Err(e) => Err(e),
    }
}

/// The step that writes to a register the result of an operation on
/// `left` and a second value.
pub open spec fn calculated(
    code: CodeView,
    op: ArithmeticOperation,
    left: i16,
    right: Result<i16, ExecErrorKind>,
    target: Register,
    next: int,
) -> Result<(CodeView, int), ExecErrorKind> {
    match right {
        Ok(v) => loaded(code, target, op.applied(left, v), next),
        Err(e) => Err(e),
    }
}

/// The step of an arithmetic instruction on two operands, the second of
/// which must be a register and takes the result.
pub open spec fn register_calculated(
    code: CodeView,
    op: ArithmeticOperation,
    line: LineView,
    next: int,
) -> Result<(CodeView, int), ExecErrorKind> {
    match operand_value(code, line.operands[0], None) {
        Ok(value1) => match operand_value(code, line.operands[1], None) {
            Ok(value2) => match line.operands[1] {
                OperandView::Register(target) => loaded(code, target, op.applied(value1, value2), next),
                _ => Err(ExecErrorKind::RegisterExpected),
            },
            Err(e) => Err(e),
        },
        Err(e) => Err(e),
    }
}

/// The step that compares two values.
pub open spec fn compared(
    code: CodeView,
    left: Result<i16, ExecErrorKind>,
    right: Result<i16, ExecErrorKind>,
    next: int,
) -> Result<(CodeView, int), ExecErrorKind> {
    match left {
        Ok(value1) => match right {
            Ok(value2) => Ok((CodeView { compare: Compare::of(value1, value2), ..code }, next)),
            Err(e) => Err(e),
        },
        Err(e) => Err(e),
    }
}

/// The step of a branch: if it is taken and its operand names a label, the
/// pointer goes to the instruction that the label stands before. A branch
/// whose operand is no name moves on like any other instruction.
pub open spec fn branched(code: CodeView, op: BranchOperation, operand: OperandView, next: int) -> Result<
    (CodeView, int),
    ExecErrorKind,
> {
    if op.taken(code.compare) {
        match operand {
            OperandView::Memory(label) => if code.labels.contains_key(label) {
                Ok((code, code.labels[label] as int))
            } else {
                Err(ExecErrorKind::UnknownLabel)
            },
            _ => Ok((code, next)),
        }
    } else {
        Ok((code, next))
    }
}

/// The step that stores the value of a register to an operand.
pub open spec fn stored(
    code: CodeView,
    register: Register,
    operand: OperandView,
    offset: Result<Option<i16>, ExecErrorKind>,
    next: int,
) -> Result<(CodeView, int), ExecErrorKind> {
    match offset {
        Ok(at) => match operand_stored(code, operand, code.registers.value(register), at) {
            Ok(after) => Ok((after, next)),
            Err(e) => Err(e),
        },
        Err(e) => Err(e),
    }
}

/// The offset that an operand gives.
pub open spec fn offset_given(code: CodeView, operand: OperandView) -> Result<
    Option<i16>,
    ExecErrorKind,
> {
    match operand_value(code, operand, None) {
        Ok(v) => Ok(Some(v)),
        Err(e) => Err(e),
    }
}

/// The step that makes two registers change values. Both operands must be
/// registers.
pub open spec fn exchanged(code: CodeView, first: OperandView, second: OperandView, next: int) -> Result<
    (CodeView, int),
    ExecErrorKind,
> {
    match (first, second) {
        (OperandView::Register(r1), OperandView::Register(r2)) => Ok(
            (
                register_set(
                    register_set(code, r1, code.registers.value(r2)),
                    r2,
                    code.registers.value(r1),
                ),
                next,
            ),
        ),
        _ => Err(ExecErrorKind::RegisterExpected),
    }
}

/// The machine and the instruction pointer after the instruction at
/// `pointer` was carried out. The pointer moves on by one unless a branch
/// that is taken redirects it.
pub open spec fn executed(code: CodeView, pointer: int) -> Result<(CodeView, int), ExecErrorKind>
    recommends
        0 <= pointer < code.lines.len(),
        consistent(code),
{
    let line = code.lines[pointer];
    let next = pointer + 1;
    let accumulator = code.registers.value(Register::A);
    match line.operation {
        Operation::Arithmetic(op) => calculated(
            code,
            op,
            accumulator,
            operand_value(code, line.operands[0], None),
            Register::A,
            next,
        ),
        Operation::ArithmeticWithOffset(op) => calculated(
            code,
            op,
            accumulator,
            offset_operand_value(code, line),
            Register::A,
            next,
        ),
        Operation::ArithmeticRegisters(op) => register_calculated(code, op, line, next),
        Operation::Branch(op) => branched(code, op, line.operands[0], next),
        Operation::Compare => compared(
            code,
            Ok(accumulator),
            operand_value(code, line.operands[0], None),
            next,
        ),
        Operation::CompareRegisters => compared(
            code,
            operand_value(code, line.operands[0], None),
            operand_value(code, line.operands[1], None),
            next,
        ),
        Operation::Load(register) => loaded(
            code,
            register,
            operand_value(code, line.operands[0], None),
            next,
        ),
        Operation::Store(register) => stored(code, register, line.operands[0], Ok(None), next),
        Operation::LoadWithOffset(register) => loaded(
            code,
            register,
            offset_operand_value(code, line),
            next,
        ),
        Operation::StoreWithOffset(register) => stored(
            code,
            register,
            line.operands[0],
            offset_given(code, line.operands[1]),
            next,
        ),
        Operation::Exchange => exchanged(code, line.operands[0], line.operands[1], next),
        Operation::Idle => Ok((code, next)),
    }
}

/// How a run ended or where it stands.
pub struct Outcome {
    /// The machine as the last instruction carried out left it.
    pub code: CodeView,
    /// The instruction that comes next, or the one that failed.
    pub pointer: int,
    /// Why the instruction at `pointer` failed, if it did.
    pub error: Option<ExecErrorKind>,
}

/// Whether the pointer stands on an instruction.
pub open spec fn running(code: CodeView, pointer: int) -> bool {
    0 <= pointer < code.lines.len()
}

/// The run of at most `steps` instructions from `pointer` on. It ends
/// before that when the pointer leaves the instructions or an instruction
/// fails; a failed instruction leaves the machine untouched.
pub open spec fn ran(code: CodeView, pointer: int, steps: nat) -> Outcome
    decreases steps,
{
    if steps == 0 || !running(code, pointer) {
        Outcome { code, pointer, error: None }
    } else {
        match executed(code, pointer) {
            Ok((after, next)) => ran(after, next, (steps - 1) as nat),
            Err(e) => Outcome { code, pointer, error: Some(e) },
        }
    }
}

} // verus!
