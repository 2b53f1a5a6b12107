use crate::assemble::{
    applied, assembled, assembled_lines, lemma_applied_consistent, lemma_parsed_orderly,
    lemma_refused_stays, orderly, parse_line, Statement,
};
use crate::error::{CompileError, ExecError, ExecErrorKind};
use crate::labels::Labels;
use crate::memory::Memory;
use crate::model::{
    blank, branched, calculated, compared, consistent, exchanged, executed, loaded, offset_given,
    offset_operand_value, operand_stored, operand_value, ran, register_calculated, register_set,
    running, stored, CodeView, LineView,
};
use crate::number::parse_word;
use crate::operand::{operand_views, Operand, OperandView, Register};
use crate::operation::{ArithmeticOperation, BranchOperation, Compare, Operation};
use crate::registers::RegisterBank;
use crate::text::{fields, split_fields, texts, Separator};
use vstd::prelude::*;

verus! {

/// One decoded line of a program.
#[derive(Debug)]
pub struct Line {
    label: String,
    operation: Operation,
    operands: Vec<Operand>,
    number: usize,
}

impl View for Line {
    type V = LineView;

    closed spec fn view(&self) -> LineView {
        LineView {
            label: self.label@,
            operation: self.operation,
            operands: operand_views(self.operands@),
            number: self.number,
        }
    }
}

impl Line {
    /// A line with the given number that has no label, no operands and the
    /// idle operation.
    pub fn new(number: usize) -> (out: Line)
        ensures
            out@ == (LineView {
                label: Seq::empty(),
                operation: Operation::Idle,
                operands: Seq::empty(),
                number,
            }),
    {
        let out = Line { label: String::new(), operation: Operation::Idle, operands: Vec::new(), number };
        assert(operand_views(out.operands@) =~= Seq::<OperandView>::empty());
        out
    }

    /// The operation of the line.
    pub fn operation(&self) -> (out: Operation)
        ensures
            out == self@.operation,
    {
        self.operation
    }

    /// The number of the line in the source.
    pub fn number(&self) -> (out: usize)
        ensures
            out == self@.number,
    {
        self.number
    }

    /// The label declared on the line; empty if there is none.
    pub fn label(&self) -> (out: &String)
        ensures
            out@ == self@.label,
    {
        &self.label
    }

    /// The number of operands.
    pub fn operand_count(&self) -> (out: usize)
        ensures
            out == self@.operands.len(),
    {
        self.operands.len()
    }

    /// The operand at a position.
    pub fn operand(&self, index: usize) -> (out: &Operand)
        requires
            index < self@.operands.len(),
        ensures
            out@ == self@.operands[index as int],
    {
        &self.operands[index]
    }
}

/// The views of a list of lines.
pub open spec fn line_views(lines: Seq<Line>) -> Seq<LineView> {
    Seq::new(lines.len(), |i: int| lines[i]@)
}

/// An assembled program and the machine that runs it: the instructions, the
/// labels, the memory, the registers and the outcome of the latest
/// comparison.
#[derive(Debug)]
pub struct Code {
    lines: Vec<Line>,
    labels: Labels,
    memory: Memory,
    registers: RegisterBank,
    compare: Compare,
}

impl View for Code {
    type V = CodeView;

    closed spec fn view(&self) -> CodeView {
        CodeView {
            lines: line_views(self.lines@),
            labels: self.labels@,
            memory: self.memory@,
            registers: self.registers,
            compare: self.compare,
        }
    }
}

impl Code {
    /// Whether the tables are in order and the program is consistent.
    pub closed spec fn wf(&self) -> bool {
        &&& self.labels.wf()
        &&& self.memory.wf()
        &&& consistent(self@)
    }

    /// A program in order is consistent.
    pub proof fn lemma_wf(&self)
        requires
            self.wf(),
        ensures
            consistent(self@),
    {
    }

    /// The empty program on a machine on which nothing has happened yet.
    pub fn new() -> (out: Code)
        ensures
            out.wf(),
            out@ == blank(),
    {
        let out = Code {
            lines: Vec::new(),
            labels: Labels::new(),
            memory: Memory::new(),
            registers: RegisterBank::new(),
            compare: Compare::Undefined,
        };
        assert(line_views(out.lines@) =~= Seq::<LineView>::empty());
        out
    }

    /// The number of instructions.
    pub fn len(&self) -> (out: usize)
        ensures
            out == self@.lines.len(),
    {
        self.lines.len()
    }

    /// The instruction at an index.
    pub fn line(&self, index: usize) -> (out: &Line)
        requires
            index < self@.lines.len(),
        ensures
            out@ == self@.lines[index as int],
    {
        &self.lines[index]
    }

    /// The registers.
    pub fn registers(&self) -> (out: &RegisterBank)
        ensures
            *out == self@.registers,
    {
        &self.registers
    }

    /// The memory.
    pub fn memory(&self) -> (out: &Memory)
        requires
            self.wf(),
        ensures
            out.wf(),
            out@ == self@.memory,
    {
        &self.memory
    }

    /// The outcome of the latest comparison.
    pub fn compare(&self) -> (out: Compare)
        ensures
            out == self@.compare,
    {
        self.compare
    }

    /// Reads the accumulator.
    pub fn get_accumulator(&self) -> (out: i16)
        ensures
            out == self@.registers.value(Register::A),
    {
        self.get_register(Register::A)
    }

    /// Writes the accumulator.
    pub fn set_accumulator(&mut self, value: i16)
        requires
            old(self).wf(),
        ensures
            final(self).wf(),
            final(self)@ == register_set(old(self)@, Register::A, value),
    {
        self.set_register(Register::A, value);
    }

    /// Writes a register.
    pub fn set_register(&mut self, register: Register, value: i16)
        requires
            old(self).wf(),
        ensures
            final(self).wf(),
            final(self)@ == register_set(old(self)@, register, value),
    {
        self.registers.set(register, value);
    }

    /// Reads a register; one that was never written reads as zero.
    pub fn get_register(&self, register: Register) -> (out: i16)
        ensures
            out == self@.registers.value(register),
    {
        self.registers.get(register)
    }

    /// The index of the instruction that a label stands before.
    pub fn get_label_index(&self, label: &str) -> (out: Result<usize, ExecErrorKind>)
        requires
            self.wf(),
        ensures
            out == (if self@.labels.contains_key(label@) {
                Ok::<usize, ExecErrorKind>(self@.labels[label@])
            } else {
                Err::<usize, ExecErrorKind>(ExecErrorKind::UnknownLabel)
            }),
            out matches Ok(index) ==> index <= self@.lines.len(),
    {
        match self.labels.get(label) {
            Some(index) => {
                assert(self@.labels[label@] <= self@.lines.len());
                Ok(index)
            },
            None => Err(ExecErrorKind::UnknownLabel),
        }
    }

    /// The value of an operand, addressed at `offset` where it names an
    /// array.
    pub fn get_value_of(&self, operand: &Operand, offset: Option<i16>) -> (out: Result<
        i16,
        ExecErrorKind,
    >)
        requires
            self.wf(),
        ensures
            out == operand_value(self@, operand@, offset),
    {
        match operand {
            Operand::Register(r) => Ok(self.registers.get(*r)),
            Operand::Immediate(text) => match parse_word(text.as_str()) {
                Some(v) => Ok(v),
                None => Err(ExecErrorKind::InvalidImmediate),
            },
            Operand::Memory(name) => self.memory.read(name.as_str(), offset),
        }
    }

    /// Stores `value` to an operand. A literal takes no value: storing to
    /// one always fails. On an error the machine is left as it was.
    pub fn set_value_of(&mut self, operand: &Operand, value: i16, offset: Option<i16>) -> (out:
        Result<(), ExecErrorKind>)
        requires
            old(self).wf(),
        ensures
            final(self).wf(),
            match operand_stored(old(self)@, operand@, value, offset) {
                Ok(after) => out is Ok && final(self)@ == after,
                Err(e) => out == Err::<(), ExecErrorKind>(e) && final(self)@ == old(self)@,
            },
            operand@ is Immediate ==> out == Err::<(), ExecErrorKind>(
                ExecErrorKind::StoreToImmediate,
            ),
    {
        match operand {
            Operand::Register(r) => {
                self.registers.set(*r, value);
                Ok(())
            },
            Operand::Immediate(_) => Err(ExecErrorKind::StoreToImmediate),
            Operand::Memory(name) => self.memory.write(name.as_str(), value, offset),
        }
    }

    /// The operand of the instruction at `pointer` that stands at `index`.
    fn operand_at(&self, pointer: usize, index: usize) -> (out: &Operand)
        requires
            self.wf(),
            pointer < self@.lines.len(),
            index < self@.lines[pointer as int].operation.arity(),
        ensures
            out@ == self@.lines[pointer as int].operands[index as int],
    {
        assert(self@.lines[pointer as int].operands.len() == self@.lines[pointer as int].operation.arity());
        &self.lines[pointer].operands[index]
    }

    /// The value of the first operand of the instruction at `pointer`,
    /// addressed at the offset that its second operand gives.
    fn offset_value(&self, pointer: usize) -> (out: Result<i16, ExecErrorKind>)
        requires
            self.wf(),
            pointer < self@.lines.len(),
            self@.lines[pointer as int].operation.arity() == 2,
        ensures
            out == offset_operand_value(self@, self@.lines[pointer as int]),
    {
        match self.get_value_of(self.operand_at(pointer, 1), None) {
            Ok(offset) => self.get_value_of(self.operand_at(pointer, 0), Some(offset)),
            Err(e) => Err(e),
        }
    }

    /// Writes `value` to a register and moves on, or fails as the value
    /// failed.
    fn load(&mut self, register: Register, value: Result<i16, ExecErrorKind>, next: usize) -> (out:
        Result<usize, ExecErrorKind>)
        requires
            old(self).wf(),
        ensures
            final(self).wf(),
            match loaded(old(self)@, register, value, next as int) {
                Ok((after, target)) => out == Ok::<usize, ExecErrorKind>(next) && target == next
                    && final(self)@ == after,
                Err(e) => out == Err::<usize, ExecErrorKind>(e) && final(self)@ == old(self)@,
            },
    {
        match value {
            Ok(v) => {
                self.set_register(register, v);
                Ok(next)
            },
            Err(e) => Err(e),
        }
    }

    /// Applies an operation to `left` and a second value and writes the
    /// result to a register.
    fn calculate(
        &mut self,
        op: ArithmeticOperation,
        left: i16,
        right: Result<i16, ExecErrorKind>,
        target: Register,
        next: usize,
    ) -> (out: Result<usize, ExecErrorKind>)
        requires
            old(self).wf(),
        ensures
            final(self).wf(),
            match calculated(old(self)@, op, left, right, target, next as int) {
                Ok((after, to)) => out == Ok::<usize, ExecErrorKind>(next) && to == next && final(self)@ == after,
                Err(e) => out == Err::<usize, ExecErrorKind>(e) && final(self)@ == old(self)@,
            },
    {
        match right {
            Ok(v) => {
                let result = op.calculate(left, v);
                self.load(target, result, next)
            },
            Err(e) => Err(e),
        }
    }

    /// Carries out an arithmetic instruction on two operands.
    fn calculate_registers(&mut self, op: ArithmeticOperation, pointer: usize, next: usize) -> (out:
        Result<usize, ExecErrorKind>)
        requires
            old(self).wf(),
            pointer < old(self)@.lines.len(),
            old(self)@.lines[pointer as int].operation.arity() == 2,
        ensures
            final(self).wf(),
            match register_calculated(old(self)@, op, old(self)@.lines[pointer as int], next as int) {
                Ok((after, to)) => out == Ok::<usize, ExecErrorKind>(next) && to == next && final(self)@ == after,
                Err(e) => out == Err::<usize, ExecErrorKind>(e) && final(self)@ == old(self)@,
            },
    {
        let value1 = match self.get_value_of(self.operand_at(pointer, 0), None) {
            Ok(v) => v,
            Err(e) => {
                return Err(e);
            },
        };
        let value2 = match self.get_value_of(self.operand_at(pointer, 1), None) {
            Ok(v) => v,
            Err(e) => {
                return Err(e);
            },
        };
        let target = match self.operand_at(pointer, 1) {
            Operand::Register(r) => *r,
            _ => {
                return Err(ExecErrorKind::RegisterExpected);
            },
        };
        let result = op.calculate(value1, value2);
        self.load(target, result, next)
    }

    /// Compares two values and moves on.
    fn compare_values(
        &mut self,
        left: Result<i16, ExecErrorKind>,
        right: Result<i16, ExecErrorKind>,
        next: usize,
    ) -> (out: Result<usize, ExecErrorKind>)
        requires
            old(self).wf(),
        ensures
            final(self).wf(),
            match compared(old(self)@, left, right, next as int) {
                Ok((after, to)) => out == Ok::<usize, ExecErrorKind>(next) && to == next && final(self)@ == after,
                Err(e) => out == Err::<usize, ExecErrorKind>(e) && final(self)@ == old(self)@,
            },
    {
        let value1 = match left {
            Ok(v) => v,
            Err(e) => {
                return Err(e);
            },
        };
        let value2 = match right {
            Ok(v) => v,
            Err(e) => {
                return Err(e);
            },
        };
        self.compare = Compare::from_values(value1, value2);
        Ok(next)
    }

    /// Decides a branch.
    fn branch(&self, op: BranchOperation, operand: &Operand, next: usize) -> (out: Result<
        usize,
        ExecErrorKind,
    >)
        requires
            self.wf(),
        ensures
            match branched(self@, op, operand@, next as int) {
                Ok((after, to)) => out == Ok::<usize, ExecErrorKind>(to as usize) && 0 <= to
                    <= usize::MAX && after == self@,
                Err(e) => out == Err::<usize, ExecErrorKind>(e),
            },
    {
        if !op.should_branch(&self.compare) {
            return Ok(next);
        }
        match operand {
            Operand::Memory(label) => self.get_label_index(label.as_str()),
            _ => Ok(next),
        }
    }

    /// Stores the value of a register to an operand and moves on.
    fn store(
        &mut self,
        register: Register,
        operand: &Operand,
        offset: Result<Option<i16>, ExecErrorKind>,
        next: usize,
    ) -> (out: Result<usize, ExecErrorKind>)
        requires
            old(self).wf(),
        ensures
            final(self).wf(),
            match stored(old(self)@, register, operand@, offset, next as int) {
                Ok((after, to)) => out == Ok::<usize, ExecErrorKind>(next) && to == next && final(self)@ == after,
                Err(e) => out == Err::<usize, ExecErrorKind>(e) && final(self)@ == old(self)@,
            },
    {
        let at = match offset {
            Ok(at) => at,
            Err(e) => {
                return Err(e);
            },
        };
        let value = self.get_register(register);
        match self.set_value_of(operand, value, at) {
            Ok(()) => Ok(next),
            Err(e) => Err(e),
        }
    }

    /// The offset that an operand gives.
    fn offset_of(&self, operand: &Operand) -> (out: Result<Option<i16>, ExecErrorKind>)
        requires
            self.wf(),
        ensures
            out == offset_given(self@, operand@),
    {
        match self.get_value_of(operand, None) {
            Ok(v) => Ok(Some(v)),
            Err(e) => Err(e),
        }
    }

    /// Makes two registers change values and moves on.
    fn exchange(&mut self, first: &Operand, second: &Operand, next: usize) -> (out: Result<
        usize,
        ExecErrorKind,
    >)
        requires
            old(self).wf(),
        ensures
            final(self).wf(),
            match exchanged(old(self)@, first@, second@, next as int) {
                Ok((after, to)) => out == Ok::<usize, ExecErrorKind>(next) && to == next && final(self)@ == after,
                Err(e) => out == Err::<usize, ExecErrorKind>(e) && final(self)@ == old(self)@,
            },
    {
        let r1 = match first {
            Operand::Register(r) => *r,
            _ => {
                return Err(ExecErrorKind::RegisterExpected);
            },
        };
        let r2 = match second {
            Operand::Register(r) => *r,
            _ => {
                return Err(ExecErrorKind::RegisterExpected);
            },
        };
        let value1 = self.get_register(r1);
        let value2 = self.get_register(r2);
        self.set_register(r1, value2);
        self.set_register(r2, value1);
        Ok(next)
    }

    /// Carries out the instruction at `pointer` and gives the pointer that
    /// follows from it.
    fn perform(&mut self, pointer: usize) -> (out: Result<usize, ExecErrorKind>)
        requires
            old(self).wf(),
            pointer < old(self)@.lines.len(),
        ensures
            final(self).wf(),
            match executed(old(self)@, pointer as int) {
                Ok((after, next)) => out == Ok::<usize, ExecErrorKind>(next as usize) && 0 <= next
                    <= usize::MAX && final(self)@ == after,
                Err(e) => out == Err::<usize, ExecErrorKind>(e) && final(self)@ == old(self)@,
            },
    {
        assert(self@.lines.len() == self.lines.len());
        let next: usize = pointer + 1;
        let operation = self.lines[pointer].operation;
        match operation {
            Operation::Arithmetic(op) => {
                let value = self.get_value_of(self.operand_at(pointer, 0), None);
                let accumulator = self.get_accumulator();
                self.calculate(op, accumulator, value, Register::A, next)
            },
            Operation::ArithmeticWithOffset(op) => {
                let value = self.offset_value(pointer);
                let accumulator = self.get_accumulator();
                self.calculate(op, accumulator, value, Register::A, next)
            },
            Operation::ArithmeticRegisters(op) => self.calculate_registers(op, pointer, next),
            Operation::Branch(op) => self.branch(op, self.operand_at(pointer, 0), next),
            Operation::Compare => {
                let value = self.get_value_of(self.operand_at(pointer, 0), None);
                let accumulator = self.get_accumulator();
                self.compare_values(Ok(accumulator), value, next)
            },
            Operation::CompareRegisters => {
                let value1 = self.get_value_of(self.operand_at(pointer, 0), None);
                let value2 = self.get_value_of(self.operand_at(pointer, 1), None);
                self.compare_values(value1, value2, next)
            },
            Operation::Load(register) => {
                let value = self.get_value_of(self.operand_at(pointer, 0), None);
                self.load(register, value, next)
            },
            Operation::Store(register) => {
                let target = self.operand_at(pointer, 0).clone();
                self.store(register, &target, Ok(None), next)
            },
            Operation::LoadWithOffset(register) => {
                let value = self.offset_value(pointer);
                self.load(register, value, next)
            },
            Operation::StoreWithOffset(register) => {
                let offset = self.offset_of(self.operand_at(pointer, 1));
                let target = self.operand_at(pointer, 0).clone();
                self.store(register, &target, offset, next)
            },
            Operation::Exchange => {
                let first = self.operand_at(pointer, 0).clone();
                let second = self.operand_at(pointer, 1).clone();
                self.exchange(&first, &second, next)
            },
            Operation::Idle => Ok(next),
        }
    }

    /// Carries out the instruction at `pointer` and gives the instruction
    /// pointer that follows from it. An instruction that fails leaves the
    /// machine as it was.
    pub fn step(&mut self, pointer: usize) -> (out: Result<usize, ExecError>)
        requires
            old(self).wf(),
            pointer < old(self)@.lines.len(),
        ensures
            final(self).wf(),
            match executed(old(self)@, pointer as int) {
                Ok((after, next)) => out == Ok::<usize, ExecError>(next as usize) && 0 <= next
                    <= usize::MAX && final(self)@ == after,
                Err(kind) => out == Err::<usize, ExecError>(
                    ExecError { line: old(self)@.lines[pointer as int].number, kind },
                ) && final(self)@ == old(self)@,
            },
    {
        let line = self.lines[pointer].number;
        match self.perform(pointer) {
            Ok(next) => Ok(next),
            Err(kind) => Err(ExecError { line, kind }),
        }
    }

    /// Runs at most `limit` instructions from `start` on and gives the
    /// instruction pointer at which the run stands. The program has ended
    /// when that pointer is no index of an instruction any more.
    pub fn execute_from(&mut self, start: usize, limit: usize) -> (out: Result<usize, ExecError>)
        requires
            old(self).wf(),
        ensures
            final(self).wf(),
            final(self)@ == ran(old(self)@, start as int, limit as nat).code,
            match ran(old(self)@, start as int, limit as nat).error {
                None => out == Ok::<usize, ExecError>(
                    ran(old(self)@, start as int, limit as nat).pointer as usize,
                ) && 0 <= ran(old(self)@, start as int, limit as nat).pointer <= usize::MAX,
                Some(kind) => out == Err::<usize, ExecError>(
                    ExecError {
                        line: final(self)@.lines[ran(
                            old(self)@,
                            start as int,
                            limit as nat,
                        ).pointer].number,
                        kind,
                    },
                ),
            },
    {
        let ghost goal = ran(self@, start as int, limit as nat);
        let mut pointer: usize = start;
        let mut left: usize = limit;
        while left > 0 && pointer < self.lines.len()
            invariant
                self.wf(),
                goal == ran(old(self)@, start as int, limit as nat),
                ran(self@, pointer as int, left as nat) == goal,
            decreases left,
        {
            assert(running(self@, pointer as int));
            match self.step(pointer) {
                Ok(next) => {
                    pointer = next;
                    left = left - 1;
                },
                Err(e) => {
                    return Err(e);
                },
            }
        }
        assert(left == 0 || !running(self@, pointer as int));
        Ok(pointer)
    }

    /// Runs at most `limit` instructions from the first one on and gives
    /// the instruction pointer at which the run stands. The program has
    /// ended when that pointer is no index of an instruction any more.
    pub fn execute(&mut self, limit: usize) -> (out: Result<usize, ExecError>)
        requires
            old(self).wf(),
        ensures
            final(self).wf(),
            final(self)@ == ran(old(self)@, 0, limit as nat).code,
            match ran(old(self)@, 0, limit as nat).error {
                None => out == Ok::<usize, ExecError>(ran(old(self)@, 0, limit as nat).pointer as usize)
                    && 0 <= ran(old(self)@, 0, limit as nat).pointer <= usize::MAX,
                Some(kind) => out == Err::<usize, ExecError>(
                    ExecError {
                        line: final(self)@.lines[ran(old(self)@, 0, limit as nat).pointer].number,
                        kind,
                    },
                ),
            },
    {
        self.execute_from(0, limit)
    }

    /// Takes a statement in that stands on the source line `number`.
    pub fn apply(&mut self, number: usize, statement: Statement)
        requires
            old(self).wf(),
            orderly(statement@),
            old(self)@.lines.len() < usize::MAX,
        ensures
            final(self).wf(),
            final(self)@ == applied(old(self)@, number, statement@),
    {
        proof {
            lemma_applied_consistent(self@, number, statement@);
        }
        let index = self.lines.len();
        let ghost before = self@;
        match statement {
            Statement::Blank => {},
            Statement::Label(name) => {
                self.labels.insert(name, index);
            },
            Statement::Cell(name, cell) => {
                self.labels.insert(name.clone(), index);
                self.memory.insert(name, cell);
            },
            Statement::Instruction(label, operation, operands) => {
                let label = match label {
                    Some(name) => {
                        self.labels.insert(name.clone(), index);
                        name
                    },
                    None => String::new(),
                };
                let line = Line { label, operation, operands, number };
                self.lines.push(line);
                assert(line_views(self.lines@) =~= before.lines.push(line@));
            },
        }
    }

    /// Assembles a source text. The text is read line by line; the first
    /// line that is refused ends the assembly, and nothing of the program is
    /// given back then.
    pub fn compile(code: &mut String) -> (out: Result<Code, CompileError>)
        ensures
            final(code)@ == old(code)@,
            match assembled(old(code)@) {
                Ok(program) => out matches Ok(made) && made.wf() && made@ == program,
                Err(e) => out matches Err(f) && f == e,
            },
    {
        let lines = split_fields(code.as_str(), Separator::Newline);
        let ghost all = texts(lines@);
        let mut program = Code::new();
        let mut i: usize = 0;
        while i < lines.len()
            invariant
                i <= lines.len(),
                all == texts(lines@),
                all == fields(old(code)@, Separator::Newline),
                program.wf(),
                program@.lines.len() <= i,
                assembled_lines(blank(), all.take(i as int)) == Ok::<CodeView, CompileError>(program@),
            decreases lines.len() - i,
        {
            proof {
                assert(all.take(i + 1).drop_last() == all.take(i as int));
                assert(all.take(i + 1).last() == lines@[i as int]@);
                lemma_parsed_orderly(lines@[i as int]@);
            }
            let number: usize = i + 1;
            match parse_line(lines[i].as_str()) {
                Ok(statement) => {
                    program.apply(number, statement);
                },
                Err(kind) => {
                    proof {
                        lemma_refused_stays(blank(), all, i + 1);
                    }
                    return Err(CompileError { line: number, kind });
                },
            }
            i += 1;
        }
        proof {
            assert(all.take(lines.len() as int) == all);
        }
        Ok(program)
    }
}

} // verus!
