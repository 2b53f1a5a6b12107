use crate::assemble::{
    applied, assembled, assembled_lines, declared_cell, directive_named, lemma_applied_consistent,
    lemma_parsed_orderly, literal_items, operands_of, parsed, Directive, StatementView,
};
use crate::error::{CompileError, CompileErrorKind, ExecErrorKind};
use crate::memory::{element_index, CellView, Size};
use crate::model::{
    blank, consistent, executed, operand_stored, operand_value, ran, running, CodeView, Outcome,
};
use crate::number::count_literal;
use crate::operand::{OperandView, Register};
use crate::operation::{BranchOperation, Compare, Operation};
use crate::registers::RegisterBank;
use crate::text::{fields, pieces, uppercase_of, Separator};
use vstd::prelude::*;

verus! {

/// Whether no instruction of the program is a branch.
pub open spec fn branch_free(code: CodeView) -> bool {
    forall|i: int| 0 <= i < code.lines.len() ==> !(#[trigger] code.lines[i]).operation.is_branch()
}

/// An instruction never changes the program: instructions and labels stay
/// as they are, and the program stays consistent. The pointer moves to the
/// next instruction unless the instruction is a branch, and never beyond
/// the end of the program.
pub proof fn lemma_executed_keeps_program(code: CodeView, pointer: int)
    requires
        consistent(code),
        running(code, pointer),
    ensures
        executed(code, pointer) matches Ok((after, next)) ==> {
            &&& after.lines == code.lines
            &&& after.labels == code.labels
            &&& consistent(after)
            &&& 0 <= next <= code.lines.len()
            &&& !code.lines[pointer].operation.is_branch() ==> next == pointer + 1
        },
{
    let line = code.lines[pointer];
    assert(line.operands.len() == line.operation.arity());
    match executed(code, pointer) {
        Ok((after, next)) => {
            if let Operation::Branch(op) = line.operation {
                if let OperandView::Memory(label) = line.operands[0] {
                    if op.taken(code.compare) {
                        assert(code.labels[label] <= code.lines.len());
                    }
                }
            }
            assert(after.lines == code.lines);
            assert(after.labels == code.labels);
        },
        Err(_) => {},
    }
}

/// A run never changes the program, and it stands at an instruction or at
/// the end of the program if it started there.
pub proof fn lemma_ran_keeps_program(code: CodeView, pointer: int, steps: nat)
    requires
        consistent(code),
        0 <= pointer <= code.lines.len(),
    ensures
        ran(code, pointer, steps).code.lines == code.lines,
        ran(code, pointer, steps).code.labels == code.labels,
        consistent(ran(code, pointer, steps).code),
        0 <= ran(code, pointer, steps).pointer <= code.lines.len(),
        ran(code, pointer, steps).error is Some ==> running(code, ran(code, pointer, steps).pointer),
    decreases steps,
{
    if steps > 0 && running(code, pointer) {
        lemma_executed_keeps_program(code, pointer);
        match executed(code, pointer) {
            Ok((after, next)) => {
                lemma_ran_keeps_program(after, next, (steps - 1) as nat);
            },
            Err(_) => {},
        }
    }
}

/// A program without branches runs straight through: a run that does not
/// fail has carried out one instruction after the other, and stands at the
/// end of the program once it was given enough steps.
pub proof fn lemma_straight_run(code: CodeView, pointer: int, steps: nat)
    requires
        consistent(code),
        branch_free(code),
        0 <= pointer <= code.lines.len(),
    ensures
        ran(code, pointer, steps).error is None ==> ran(code, pointer, steps).pointer == (if pointer
            + steps <= code.lines.len() {
            pointer + steps
        } else {
            code.lines.len() as int
        }),
    decreases steps,
{
    if steps > 0 && running(code, pointer) {
        lemma_executed_keeps_program(code, pointer);
        match executed(code, pointer) {
            Ok((after, next)) => {
                assert(!code.lines[pointer].operation.is_branch());
                assert forall|i: int| 0 <= i < after.lines.len() implies !(
                #[trigger] after.lines[i]).operation.is_branch() by {
                    assert(after.lines[i] == code.lines[i]);
                }
                lemma_straight_run(after, next, (steps - 1) as nat);
            },
            Err(_) => {},
        }
    }
}

/// A run that has ended or failed is not changed by more steps.
pub proof fn lemma_more_steps(code: CodeView, pointer: int, steps: nat, more: nat)
    requires
        steps <= more,
        ran(code, pointer, steps).error is Some || !running(
            ran(code, pointer, steps).code,
            ran(code, pointer, steps).pointer,
        ),
    ensures
        ran(code, pointer, more) == ran(code, pointer, steps),
    decreases steps,
{
    if steps == 0 || !running(code, pointer) {
    } else {
        match executed(code, pointer) {
            Ok((after, next)) => {
                lemma_more_steps(after, next, (steps - 1) as nat, (more - 1) as nat);
            },
            Err(_) => {},
        }
    }
}

/// What a program without branches leaves behind does not depend on the
/// number of steps it is given, as long as there is one for each of its
/// instructions: the run ends at the end of the program, or fails, and is
/// the same run for every such number.
pub proof fn lemma_straight_run_is_settled(code: CodeView, steps: nat)
    requires
        consistent(code),
        branch_free(code),
        steps >= code.lines.len(),
    ensures
        ran(code, 0, steps) == ran(code, 0, code.lines.len()),
        ran(code, 0, steps).error is None ==> ran(code, 0, steps).pointer == code.lines.len(),
{
    lemma_straight_run(code, 0, code.lines.len());
    lemma_ran_keeps_program(code, 0, code.lines.len());
    lemma_more_steps(code, 0, code.lines.len(), steps);
}

/// Assembly leaves the machine untouched: whatever the source, no register
/// of the assembled program holds anything and nothing has been compared.
pub proof fn lemma_assembled_machine_is_fresh(code: CodeView, lines: Seq<Seq<char>>)
    ensures
        assembled_lines(code, lines) matches Ok(program) ==> program.registers == code.registers
            && program.compare == code.compare,
    decreases lines.len(),
{
    if lines.len() > 0 {
        lemma_assembled_machine_is_fresh(code, lines.drop_last());
    }
}

/// A cell that a directive declares is an array of the declared size: a
/// reservation has as many elements as its first operand says, a list as
/// many as it has operands.
pub proof fn lemma_declared_size(directive: Directive, operands: Seq<OperandView>)
    ensures
        declared_cell(directive, operands) matches Ok(cell) ==> {
            &&& cell matches CellView::Array(items, size)
            &&& size == (match directive {
                Directive::ReserveWords | Directive::Words => Size::Word,
                Directive::ReserveBytes | Directive::Bytes => Size::Byte,
            })
            &&& match directive {
                Directive::ReserveWords | Directive::ReserveBytes => operands.len() > 0 && (
                operands[0] matches OperandView::Memory(text) && count_literal(text) == Some(
                    items.len() as usize,
                )),
                Directive::Words | Directive::Bytes => items.len() == operands.len(),
            }
        },
{
    match directive {
        Directive::Words | Directive::Bytes => {
            lemma_literal_items_len(operands);
        },
        _ => {},
    }
}

/// A list of literals denotes as many values as it has members.
pub proof fn lemma_literal_items_len(operands: Seq<OperandView>)
    ensures
        literal_items(operands) matches Some(items) ==> items.len()
            == operands.len(),
    decreases operands.len(),
{
    if operands.len() > 0 {
        lemma_literal_items_len(operands.drop_last());
    }
}

/// A cell that a line declares is the cell of the directive on it: the line
/// has a label, a directive and an operand field, and the cell is an array
/// of the size that the directive declares.
pub proof fn lemma_parsed_cell(line: Seq<char>)
    ensures
        parsed(line) matches Ok(StatementView::Cell(name, cell)) ==> {
            let words = pieces(line, Separator::Blank);
            &&& words.len() == 3
            &&& name == words[0]
            &&& directive_named(uppercase_of(words[1])) matches Some(directive)
            &&& declared_cell(directive, operands_of(words[2])) == Ok::<CellView, CompileErrorKind>(
                cell,
            )
            &&& cell is Array
        },
{
    let words = pieces(line, Separator::Blank);
    if words.len() == 3 {
        if let Some(directive) = directive_named(uppercase_of(words[1])) {
            lemma_declared_size(directive, operands_of(words[2]));
        }
    }
}

/// Whether a line declares nothing but labels and cells.
pub open spec fn declares_only(line: Seq<char>) -> bool {
    parsed(line) matches Ok(statement) && !(statement is Instruction)
}

/// Whether one of the lines declares `cell` under `name`.
pub open spec fn declared_by(lines: Seq<Seq<char>>, name: Seq<char>, cell: CellView) -> bool {
    exists|i: int|
        0 <= i < lines.len() && parsed(#[trigger] lines[i]) == Ok::<StatementView, CompileErrorKind>(
            StatementView::Cell(name, cell),
        )
}

/// Lines without instructions assemble to a program without instructions,
/// and each cell of its memory is an array that one of the lines declares.
pub proof fn lemma_declarations_only(lines: Seq<Seq<char>>)
    requires
        forall|i: int| 0 <= i < lines.len() ==> declares_only(#[trigger] lines[i]),
    ensures
        assembled_lines(blank(), lines) matches Ok(program) && program.lines.len() == 0 && (forall|
            name: Seq<char>,
        | #[trigger]
            program.memory.contains_key(name) ==> program.memory[name] is Array && declared_by(
                lines,
                name,
                program.memory[name],
            )),
    decreases lines.len(),
{
    if lines.len() > 0 {
        let front = lines.drop_last();
        assert forall|i: int| 0 <= i < front.len() implies declares_only(#[trigger] front[i]) by {
            assert(front[i] == lines[i]);
        }
        lemma_declarations_only(front);
        assert(declares_only(lines[lines.len() - 1]));
        let before = assembled_lines(blank(), front).unwrap();
        let statement = parsed(lines.last()).unwrap();
        let program = applied(before, lines.len() as usize, statement);
        assert(assembled_lines(blank(), lines) == Ok::<CodeView, CompileError>(program));
        assert forall|name: Seq<char>| #[trigger] program.memory.contains_key(name) implies program.memory[name] is Array
            && declared_by(lines, name, program.memory[name]) by {
            if statement matches StatementView::Cell(label, cell) && label == name {
                lemma_parsed_cell(lines.last());
                assert(parsed(lines[lines.len() - 1]) == Ok::<StatementView, CompileErrorKind>(
                    StatementView::Cell(name, program.memory[name]),
                ));
            } else {
                assert(before.memory.contains_key(name));
                let i = choose|i: int|
                    0 <= i < front.len() && parsed(#[trigger] front[i]) == Ok::<
                        StatementView,
                        CompileErrorKind,
                    >(StatementView::Cell(name, before.memory[name]));
                assert(front[i] == lines[i]);
            }
        }
    }
}

/// The latest declaration of a name is the one that counts: a cell that a
/// line declares is the cell under its name in the assembled program unless
/// a later line declares the name again.
pub proof fn lemma_latest_declaration(lines: Seq<Seq<char>>, index: int, name: Seq<char>)
    requires
        0 <= index < lines.len(),
        parsed(lines[index]) matches Ok(StatementView::Cell(label, _)) && label == name,
        forall|k: int|
            index < k < lines.len() ==> !(parsed(#[trigger] lines[k]) matches Ok(
                StatementView::Cell(label, _),
            ) && label == name),
    ensures
        assembled_lines(blank(), lines) matches Ok(program) ==> program.memory.contains_key(name)
            && parsed(lines[index]) == Ok::<StatementView, CompileErrorKind>(
            StatementView::Cell(name, program.memory[name]),
        ),
    decreases lines.len(),
{
    if index < lines.len() - 1 {
        let front = lines.drop_last();
        assert(front[index] == lines[index]);
        assert forall|k: int| index < k < front.len() implies !(parsed(#[trigger] front[k]) matches Ok(
            StatementView::Cell(label, _),
        ) && label == name) by {
            assert(front[k] == lines[k]);
        }
        lemma_latest_declaration(front, index, name);
        assert(!(parsed(lines[lines.len() - 1]) matches Ok(StatementView::Cell(label, _)) && label
            == name));
    }
}

/// A source of data directives alone assembles to a program without
/// instructions, and each cell of its memory is an array that one of its
/// lines declares.
pub proof fn lemma_data_only_source(source: Seq<char>)
    requires
        forall|i: int|
            0 <= i < fields(source, Separator::Newline).len() ==> declares_only(
                #[trigger] fields(source, Separator::Newline)[i],
            ),
    ensures
        assembled(source) matches Ok(program) && program.lines.len() == 0 && (forall|
            name: Seq<char>,
        | #[trigger]
            program.memory.contains_key(name) ==> program.memory[name] is Array && declared_by(
                fields(source, Separator::Newline),
                name,
                program.memory[name],
            )),
{
    lemma_declarations_only(fields(source, Separator::Newline));
}

/// A comparison never leaves the outcome undefined, and exactly one of the
/// three conditional branches is taken under its outcome: the one whose
/// condition the two values meet.
pub proof fn lemma_comparison_decides(value1: i16, value2: i16)
    ensures
        Compare::of(value1, value2) != Compare::Undefined,
        BranchOperation::JEQ.taken(Compare::of(value1, value2)) <==> value1 == value2,
        BranchOperation::JGT.taken(Compare::of(value1, value2)) <==> value1 > value2,
        BranchOperation::JLT.taken(Compare::of(value1, value2)) <==> value1 < value2,
{
}

/// A comparison followed by the three conditional branches, each to a
/// declared label: the run takes the one branch whose condition holds and
/// falls through the branches before it.
pub proof fn lemma_compare_then_branch(
    code: CodeView,
    pointer: int,
    value: i16,
    equal: Seq<char>,
    greater: Seq<char>,
    less: Seq<char>,
)
    requires
        consistent(code),
        0 <= pointer,
        pointer + 3 < code.lines.len(),
        code.lines[pointer].operation == Operation::Compare,
        operand_value(code, code.lines[pointer].operands[0], None) == Ok::<i16, ExecErrorKind>(
            value,
        ),
        code.lines[pointer + 1].operation == Operation::Branch(BranchOperation::JEQ),
        code.lines[pointer + 1].operands[0] == OperandView::Memory(equal),
        code.lines[pointer + 2].operation == Operation::Branch(BranchOperation::JGT),
        code.lines[pointer + 2].operands[0] == OperandView::Memory(greater),
        code.lines[pointer + 3].operation == Operation::Branch(BranchOperation::JLT),
        code.lines[pointer + 3].operands[0] == OperandView::Memory(less),
        code.labels.contains_key(equal),
        code.labels.contains_key(greater),
        code.labels.contains_key(less),
    ensures
        ({
            let accumulator = code.registers.value(Register::A);
            let after = CodeView { compare: Compare::of(accumulator, value), ..code };
            &&& accumulator == value ==> ran(code, pointer, 2) == Outcome {
                code: after,
                pointer: code.labels[equal] as int,
                error: None,
            }
            &&& accumulator > value ==> ran(code, pointer, 3) == Outcome {
                code: after,
                pointer: code.labels[greater] as int,
                error: None,
            }
            &&& accumulator < value ==> ran(code, pointer, 4) == Outcome {
                code: after,
                pointer: code.labels[less] as int,
                error: None,
            }
        }),
{
    let accumulator = code.registers.value(Register::A);
    let after = CodeView { compare: Compare::of(accumulator, value), ..code };
    reveal_with_fuel(ran, 5);
    assert(executed(code, pointer) == Ok::<(CodeView, int), ExecErrorKind>((after, pointer + 1)));
    assert(after.lines == code.lines);
    assert(running(after, pointer + 1));
    assert(running(after, pointer + 2));
    assert(running(after, pointer + 3));
    if accumulator == value {
        assert(executed(after, pointer + 1) == Ok::<(CodeView, int), ExecErrorKind>(
            (after, code.labels[equal] as int),
        ));
    } else if accumulator > value {
        assert(executed(after, pointer + 1) == Ok::<(CodeView, int), ExecErrorKind>(
            (after, pointer + 2),
        ));
        assert(executed(after, pointer + 2) == Ok::<(CodeView, int), ExecErrorKind>(
            (after, code.labels[greater] as int),
        ));
    } else {
        assert(executed(after, pointer + 1) == Ok::<(CodeView, int), ExecErrorKind>(
            (after, pointer + 2),
        ));
        assert(executed(after, pointer + 2) == Ok::<(CodeView, int), ExecErrorKind>(
            (after, pointer + 3),
        ));
        assert(executed(after, pointer + 3) == Ok::<(CodeView, int), ExecErrorKind>(
            (after, code.labels[less] as int),
        ));
    }
}

/// An offset addresses an element of an array exactly if it lies in the
/// range from zero to the number of elements times the width of one.
pub proof fn lemma_element_index_range(len: nat, size: Size, offset: int)
    ensures
        element_index(len, size, offset) is Some <==> 0 <= offset < len * size.units(),
{
}

/// A value stored into an array at an offset is the value read back at
/// every offset that addresses the same element; the elements around it
/// and the size of the array stay as they are. An offset that addresses no
/// element makes both the store and the read fail.
pub proof fn lemma_store_then_load(
    code: CodeView,
    name: Seq<char>,
    offset: i16,
    again: i16,
    value: i16,
)
    requires
        code.memory.contains_key(name),
        code.memory[name] is Array,
    ensures
        ({
            let items = code.memory[name]->Array_0;
            let size = code.memory[name]->Array_1;
            let operand = OperandView::Memory(name);
            match element_index(items.len(), size, offset as int) {
                Some(index) => {
                    &&& operand_stored(code, operand, value, Some(offset)) matches Ok(after)
                    &&& after.memory[name] == CellView::Array(items.update(index, value), size)
                    &&& element_index(items.len(), size, again as int) == Some(index)
                        ==> operand_value(after, operand, Some(again)) == Ok::<i16, ExecErrorKind>(
                        value,
                    )
                },
                None => {
                    &&& operand_stored(code, operand, value, Some(offset)) == Err::<
                        CodeView,
                        ExecErrorKind,
                    >(ExecErrorKind::OutOfBounds)
                    &&& operand_value(code, operand, Some(offset)) == Err::<i16, ExecErrorKind>(
                        ExecErrorKind::OutOfBounds,
                    )
                },
            }
        }),
{
}

/// A store keeps to the class of its operand: a value stored to a register
/// goes to the registers and leaves the memory alone, a value stored to a
/// name goes to the memory and leaves the registers alone. Neither touches
/// the program or the outcome of the latest comparison.
pub proof fn lemma_store_keeps_class(
    code: CodeView,
    operand: OperandView,
    value: i16,
    offset: Option<i16>,
)
    ensures
        operand_stored(code, operand, value, offset) matches Ok(after) ==> {
            &&& after.lines == code.lines
            &&& after.labels == code.labels
            &&& after.compare == code.compare
            &&& operand matches OperandView::Register(r) ==> after.memory == code.memory
                && after.registers.slot(r) == Some(value)
            &&& operand is Memory ==> after.registers == code.registers
        },
{
}

/// Storing to a literal fails, whatever the machine, the value and the
/// offset.
pub proof fn lemma_store_to_immediate(
    code: CodeView,
    text: Seq<char>,
    value: i16,
    offset: Option<i16>,
)
    ensures
        operand_stored(code, OperandView::Immediate(text), value, offset) == Err::<
            CodeView,
            ExecErrorKind,
        >(ExecErrorKind::StoreToImmediate),
{
}

/// An instruction that stores to a literal fails, in its plain form and in
/// its offset form alike.
pub proof fn lemma_store_instruction_to_immediate(code: CodeView, pointer: int)
    requires
        running(code, pointer),
        code.lines[pointer].operation is Store || code.lines[pointer].operation is StoreWithOffset,
        code.lines[pointer].operands[0] is Immediate,
    ensures
        executed(code, pointer) is Err,
        code.lines[pointer].operation is Store || operand_value(
            code,
            code.lines[pointer].operands[1],
            None,
        ) is Ok ==> executed(code, pointer) == Err::<(CodeView, int), ExecErrorKind>(
            ExecErrorKind::StoreToImmediate,
        ),
{
}

/// The program that a source assembles to is consistent, and its machine
/// is fresh.
pub proof fn lemma_assembled_consistent(source: Seq<char>)
    ensures
        assembled(source) matches Ok(program) ==> consistent(program) && program.registers
            == RegisterBank::empty() && program.compare == Compare::Undefined,
{
    let lines = fields(source, Separator::Newline);
    lemma_assembled_machine_is_fresh(blank(), lines);
    lemma_assembled_lines_consistent(lines);
}

/// The program that source lines assemble to is consistent and has at most
/// one instruction for each line.
pub proof fn lemma_assembled_lines_consistent(lines: Seq<Seq<char>>)
    ensures
        assembled_lines(blank(), lines) matches Ok(program) ==> consistent(program)
            && program.lines.len() <= lines.len(),
    decreases lines.len(),
{
    if lines.len() > 0 {
        lemma_assembled_lines_consistent(lines.drop_last());
        if let Ok(before) = assembled_lines(blank(), lines.drop_last()) {
            if let Ok(statement) = parsed(lines.last()) {
                lemma_parsed_orderly(lines.last());
                if before.lines.len() < usize::MAX {
                    lemma_applied_consistent(
                        before,
                        lines.len() as usize,
                        statement,
                    );
                }
            }
        }
    }
}

} // verus!
