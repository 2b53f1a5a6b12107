use vstd::prelude::*;

verus! {

/// Why a source line was refused.
#[derive(Clone, Copy, Debug, PartialEq, Eq, Structural)]
pub enum CompileErrorKind {
    /// The line has more than three words.
    MalformedLine,
    /// A data directive stands on a line without a label.
    MissingLabel,
    /// A reservation directive has no operand.
    MissingOperand,
    /// An operand of a data directive is no number of the kind asked for.
    InvalidLiteral,
    /// No operation goes by this mnemonic with this number of operands.
    IncompatibleOperation,
}

/// A refused source line.
#[derive(Clone, Copy, Debug, PartialEq, Eq, Structural)]
pub struct CompileError {
    /// The number of the line in the source, counted from one.
    pub line: usize,
    /// What is wrong with it.
    pub kind: CompileErrorKind,
}

/// Why an instruction could not be carried out.
#[derive(Clone, Copy, Debug, PartialEq, Eq, Structural)]
pub enum ExecErrorKind {
    /// A branch names a label that was never declared.
    UnknownLabel,
    /// An operand names a memory cell that does not exist.
    UnknownMemory,
    /// The text of a literal operand is no sixteen-bit number.
    InvalidImmediate,
    /// An operand that must be a register is none.
    RegisterExpected,
    /// A value was to be stored to a literal.
    StoreToImmediate,
    /// An offset addresses a cell that is no array.
    ArrayExpected,
    /// An offset points outside the array it addresses.
    OutOfBounds,
    /// The divisor is zero.
    DivisionByZero,
    /// The quotient does not fit in sixteen bits.
    DivisionOverflow,
}

/// An instruction that could not be carried out.
#[derive(Clone, Copy, Debug, PartialEq, Eq, Structural)]
pub struct ExecError {
    /// The number of the instruction's line in the source.
    pub line: usize,
    /// What went wrong.
    pub kind: ExecErrorKind,
}

} // verus!
