use crate::error::ExecErrorKind;
use crate::operand::Register;
use crate::text::same_text;
use vstd::prelude::*;

verus! {

/// The four arithmetic operations.
#[allow(clippy::upper_case_acronyms)]
#[derive(Clone, Copy, Debug, PartialEq, Eq, Structural)]
pub enum ArithmeticOperation {
    ADD,
    SUB,
    MUL,
    DIV,
}

/// The sixteen-bit value that an integer wraps around to.
pub open spec fn wrapped(v: int) -> i16 {
    let low = v % 0x1_0000;
    if low > i16::MAX {
        (low - 0x1_0000) as i16
    } else {
        low as i16
    }
}

/// The quotient of `a` by `b`, rounded toward zero.
pub open spec fn quotient(a: int, b: int) -> int
    recommends
        b != 0,
{
    if a >= 0 && b > 0 {
        a / b
    } else if a >= 0 {
        -(a / (-b))
    } else if b > 0 {
        -((-a) / b)
    } else {
        (-a) / (-b)
    }
}

impl ArithmeticOperation {
    /// The result of the operation on two sixteen-bit values. Sums,
    /// differences and products wrap around; a quotient is rounded toward
    /// zero, and the two divisions without a sixteen-bit quotient fail.
    pub open spec fn applied(self, value1: i16, value2: i16) -> Result<i16, ExecErrorKind> {
        match self {
            ArithmeticOperation::ADD => Ok(wrapped(value1 + value2)),
            ArithmeticOperation::SUB => Ok(wrapped(value1 - value2)),
            ArithmeticOperation::MUL => Ok(wrapped(value1 * value2)),
            ArithmeticOperation::DIV => if value2 == 0 {
                Err(ExecErrorKind::DivisionByZero)
            } else if value1 == i16::MIN && value2 == -1 {
                Err(ExecErrorKind::DivisionOverflow)
            } else {
                Ok(quotient(value1 as int, value2 as int) as i16)
            },
        }
    }

    /// Carries the operation out.
    pub fn calculate(&self, value1: i16, value2: i16) -> (out: Result<i16, ExecErrorKind>)
        ensures
            out == self.applied(value1, value2),
    {
        match self {
            ArithmeticOperation::ADD => Ok(value1.wrapping_add(value2)),
            ArithmeticOperation::SUB => Ok(value1.wrapping_sub(value2)),
            ArithmeticOperation::MUL => Ok(value1.wrapping_mul(value2)),
            ArithmeticOperation::DIV => {
                if value2 == 0 {
                    Err(ExecErrorKind::DivisionByZero)
                } else {
                    match value1.checked_div(value2) {
                        Some(q) => {
                            assert(q == quotient(value1 as int, value2 as int)) by (nonlinear_arith)
                                requires
                                    value2 != 0,
                                    value1.checked_div(value2) == Some(q),
                            ;
                            Ok(q)
                        },
                        None => {
                            proof {
                                lemma_quotient_fits(value1, value2);
                            }
                            Err(ExecErrorKind::DivisionOverflow)
                        },
                    }
                }
            },
        }
    }
}

/// Only the least value divided by minus one has a quotient that does not
/// fit in sixteen bits.
pub proof fn lemma_quotient_fits(a: i16, b: i16)
    requires
        b != 0,
    ensures
        (a == i16::MIN && b == -1) <==> !(i16::MIN <= quotient(a as int, b as int) <= i16::MAX),
        a.checked_div(b) is None <==> (a == i16::MIN && b == -1),
{
    let x = a as int;
    let d = b as int;
    assert(x >= 0 && d > 0 ==> 0 <= x / d <= x) by (nonlinear_arith);
    assert(x >= 0 && d < 0 ==> 0 <= x / (-d) <= x) by (nonlinear_arith);
    assert(x < 0 && d > 0 ==> 0 <= (-x) / d <= -x) by (nonlinear_arith);
    assert(x < 0 && d < -1 ==> 0 <= (-x) / (-d) < -x) by (nonlinear_arith);
    assert(x < 0 && d == -1 ==> (-x) / (-d) == -x) by (nonlinear_arith);
    assert(x * -1 == -x);
    assert(d * -1 == -d);
}

/// The outcome of the latest comparison.
#[derive(Clone, Copy, Debug, PartialEq, Eq, Structural)]
pub enum Compare {
    Equal,
    Greater,
    Less,
    /// Nothing has been compared yet.
    Undefined,
}

impl Compare {
    /// How `value1` stands to `value2`.
    pub open spec fn of(value1: i16, value2: i16) -> Compare {
        if value1 > value2 {
            Compare::Greater
        } else if value1 < value2 {
            Compare::Less
        } else {
            Compare::Equal
        }
    }

    /// Compares two values.
    pub fn from_values(value1: i16, value2: i16) -> (out: Compare)
        ensures
            out == Compare::of(value1, value2),
    {
        if value1 > value2 {
            Compare::Greater
        } else if value1 < value2 {
            Compare::Less
        } else {
            Compare::Equal
        }
    }
}

/// The four branches.
#[allow(clippy::upper_case_acronyms)]
#[derive(Clone, Copy, Debug, PartialEq, Eq, Structural)]
pub enum BranchOperation {
    /// Always taken.
    J,
    /// Taken after a comparison of equals.
    JEQ,
    /// Taken after a comparison that found the first value greater.
    JGT,
    /// Taken after a comparison that found the first value less.
    JLT,
}

impl BranchOperation {
    /// Whether the branch is taken under the given comparison outcome.
    pub open spec fn taken(self, compare: Compare) -> bool {
        match self {
            BranchOperation::J => true,
            BranchOperation::JEQ => compare == Compare::Equal,
            BranchOperation::JGT => compare == Compare::Greater,
            BranchOperation::JLT => compare == Compare::Less,
        }
    }

    /// Decides whether the branch is taken.
    pub fn should_branch(&self, compare: &Compare) -> (out: bool)
        ensures
            out == self.taken(*compare),
    {
        match self {
            BranchOperation::J => true,
            BranchOperation::JEQ => *compare == Compare::Equal,
            BranchOperation::JGT => *compare == Compare::Greater,
            BranchOperation::JLT => *compare == Compare::Less,
        }
    }
}

/// What an instruction does.
#[derive(Clone, Copy, Debug, PartialEq, Eq, Structural)]
pub enum Operation {
    /// Accumulator and one operand.
    Arithmetic(ArithmeticOperation),
    /// Accumulator and one array element.
    ArithmeticWithOffset(ArithmeticOperation),
    /// Two operands, the second a register that takes the result.
    ArithmeticRegisters(ArithmeticOperation),
    /// A jump to a label.
    Branch(BranchOperation),
    /// Accumulator against one operand.
    Compare,
    /// One operand against another.
    CompareRegisters,
    /// Operand into the register.
    Load(Register),
    /// Register into the operand.
    Store(Register),
    /// Array element into the register.
    LoadWithOffset(Register),
    /// Register into an array element.
    StoreWithOffset(Register),
    /// Two registers change values.
    Exchange,
    /// Nothing: the operation of a line that has not been given one.
    Idle,
}

/// The arithmetic operation that goes by an upper-case mnemonic.
pub open spec fn arithmetic_named(mnemonic: Seq<char>) -> Option<ArithmeticOperation> {
    if mnemonic == "ADD"@ {
        Some(ArithmeticOperation::ADD)
    } else if mnemonic == "SUB"@ {
        Some(ArithmeticOperation::SUB)
    } else if mnemonic == "DIV"@ {
        Some(ArithmeticOperation::DIV)
    } else if mnemonic == "MUL"@ {
        Some(ArithmeticOperation::MUL)
    } else {
        None
    }
}

/// The arithmetic operation whose register form goes by the mnemonic.
pub open spec fn register_arithmetic_named(mnemonic: Seq<char>) -> Option<ArithmeticOperation> {
    if mnemonic == "ADDR"@ {
        Some(ArithmeticOperation::ADD)
    } else if mnemonic == "SUBR"@ {
        Some(ArithmeticOperation::SUB)
    } else if mnemonic == "DIVR"@ {
        Some(ArithmeticOperation::DIV)
    } else if mnemonic == "MULR"@ {
        Some(ArithmeticOperation::MUL)
    } else {
        None
    }
}

/// The branch that goes by the mnemonic.
pub open spec fn branch_named(mnemonic: Seq<char>) -> Option<BranchOperation> {
    if mnemonic == "J"@ {
        Some(BranchOperation::J)
    } else if mnemonic == "JEQ"@ {
        Some(BranchOperation::JEQ)
    } else if mnemonic == "JGT"@ {
        Some(BranchOperation::JGT)
    } else if mnemonic == "JLT"@ {
        Some(BranchOperation::JLT)
    } else {
        None
    }
}

/// The register that the load of this mnemonic fills.
pub open spec fn load_named(mnemonic: Seq<char>) -> Option<Register> {
    if mnemonic == "LDA"@ {
        Some(Register::A)
    } else if mnemonic == "LDS"@ {
        Some(Register::S)
    } else if mnemonic == "LDT"@ {
        Some(Register::T)
    } else if mnemonic == "LDX"@ {
        Some(Register::X)
    } else {
        None
    }
}

/// The register that the store of this mnemonic reads.
pub open spec fn store_named(mnemonic: Seq<char>) -> Option<Register> {
    if mnemonic == "STA"@ {
        Some(Register::A)
    } else if mnemonic == "STS"@ {
        Some(Register::S)
    } else if mnemonic == "STT"@ {
        Some(Register::T)
    } else if mnemonic == "STX"@ {
        Some(Register::X)
    } else {
        None
    }
}

/// The operation that an upper-case mnemonic denotes when it is given
/// `count` operands. The same mnemonic denotes the plain form with one
/// operand and the offset form with two.
pub open spec fn resolved(mnemonic: Seq<char>, count: nat) -> Option<Operation> {
    if count == 1 {
        if let Some(op) = arithmetic_named(mnemonic) {
            Some(Operation::Arithmetic(op))
        } else if let Some(op) = branch_named(mnemonic) {
            Some(Operation::Branch(op))
        } else if mnemonic == "COMP"@ {
            Some(Operation::Compare)
        } else if let Some(r) = load_named(mnemonic) {
            Some(Operation::Load(r))
        } else if let Some(r) = store_named(mnemonic) {
            Some(Operation::Store(r))
        } else {
            None
        }
    } else if count == 2 {
        if let Some(op) = arithmetic_named(mnemonic) {
            Some(Operation::ArithmeticWithOffset(op))
        } else if let Some(op) = register_arithmetic_named(mnemonic) {
            Some(Operation::ArithmeticRegisters(op))
        } else if mnemonic == "COMPR"@ {
            Some(Operation::CompareRegisters)
        } else if mnemonic == "RMO"@ {
            Some(Operation::Exchange)
        } else if let Some(r) = load_named(mnemonic) {
            Some(Operation::LoadWithOffset(r))
        } else if let Some(r) = store_named(mnemonic) {
            Some(Operation::StoreWithOffset(r))
        } else {
            None
        }
    } else {
        None
    }
}

fn find_arithmetic(mnemonic: &str) -> (out: Option<ArithmeticOperation>)
    ensures
        out == arithmetic_named(mnemonic@),
{
    if same_text(mnemonic, "ADD") {
        Some(ArithmeticOperation::ADD)
    } else if same_text(mnemonic, "SUB") {
        Some(ArithmeticOperation::SUB)
    } else if same_text(mnemonic, "DIV") {
        Some(ArithmeticOperation::DIV)
    } else if same_text(mnemonic, "MUL") {
        Some(ArithmeticOperation::MUL)
    } else {
        None
    }
}

fn find_register_arithmetic(mnemonic: &str) -> (out: Option<ArithmeticOperation>)
    ensures
        out == register_arithmetic_named(mnemonic@),
{
    if same_text(mnemonic, "ADDR") {
        Some(ArithmeticOperation::ADD)
    } else if same_text(mnemonic, "SUBR") {
        Some(ArithmeticOperation::SUB)
    } else if same_text(mnemonic, "DIVR") {
        Some(ArithmeticOperation::DIV)
    } else if same_text(mnemonic, "MULR") {
        Some(ArithmeticOperation::MUL)
    } else {
        None
    }
}

fn find_branch(mnemonic: &str) -> (out: Option<BranchOperation>)
    ensures
        out == branch_named(mnemonic@),
{
    if same_text(mnemonic, "J") {
        Some(BranchOperation::J)
    } else if same_text(mnemonic, "JEQ") {
        Some(BranchOperation::JEQ)
    } else if same_text(mnemonic, "JGT") {
        Some(BranchOperation::JGT)
    } else if same_text(mnemonic, "JLT") {
        Some(BranchOperation::JLT)
    } else {
        None
    }
}

fn find_load(mnemonic: &str) -> (out: Option<Register>)
    ensures
        out == load_named(mnemonic@),
{
    if same_text(mnemonic, "LDA") {
        Some(Register::A)
    } else if same_text(mnemonic, "LDS") {
        Some(Register::S)
    } else if same_text(mnemonic, "LDT") {
        Some(Register::T)
    } else if same_text(mnemonic, "LDX") {
        Some(Register::X)
    } else {
        None
    }
}

fn find_store(mnemonic: &str) -> (out: Option<Register>)
    ensures
        out == store_named(mnemonic@),
{
    if same_text(mnemonic, "STA") {
        Some(Register::A)
    } else if same_text(mnemonic, "STS") {
        Some(Register::S)
    } else if same_text(mnemonic, "STT") {
        Some(Register::T)
    } else if same_text(mnemonic, "STX") {
        Some(Register::X)
    } else {
        None
    }
}

impl Operation {
    /// The number of operands that the operation takes.
    pub open spec fn arity(self) -> nat {
        match self {
            Operation::Arithmetic(_) => 1,
            Operation::ArithmeticWithOffset(_) => 2,
            Operation::ArithmeticRegisters(_) => 2,
            Operation::Branch(_) => 1,
            Operation::Compare => 1,
            Operation::CompareRegisters => 2,
            Operation::Load(_) => 1,
            Operation::Store(_) => 1,
            Operation::LoadWithOffset(_) => 2,
            Operation::StoreWithOffset(_) => 2,
            Operation::Exchange => 2,
            Operation::Idle => 0,
        }
    }

    /// Whether the operation is a branch.
    pub open spec fn is_branch(self) -> bool {
        self is Branch
    }

    /// The number of operands that the operation takes.
    pub fn operand_count(&self) -> (out: usize)
        ensures
            out == self.arity(),
    {
        match self {
            Operation::Arithmetic(_) => 1,
            Operation::ArithmeticWithOffset(_) => 2,
            Operation::ArithmeticRegisters(_) => 2,
            Operation::Branch(_) => 1,
            Operation::Compare => 1,
            Operation::CompareRegisters => 2,
            Operation::Load(_) => 1,
            Operation::Store(_) => 1,
            Operation::LoadWithOffset(_) => 2,
            Operation::StoreWithOffset(_) => 2,
            Operation::Exchange => 2,
            Operation::Idle => 0,
        }
    }

    /// Looks an upper-case mnemonic up together with the number of operands
    /// it was given.
    pub fn resolve(mnemonic: &str, count: usize) -> (out: Option<Operation>)
        ensures
            out == resolved(mnemonic@, count as nat),
    {
        if count == 1 {
            if let Some(op) = find_arithmetic(mnemonic) {
                Some(Operation::Arithmetic(op))
            } else if let Some(op) = find_branch(mnemonic) {
                Some(Operation::Branch(op))
            } else if same_text(mnemonic, "COMP") {
                Some(Operation::Compare)
            } else if let Some(r) = find_load(mnemonic) {
                Some(Operation::Load(r))
            } else if let Some(r) = find_store(mnemonic) {
                Some(Operation::Store(r))
            } else {
                None
            }
        } else if count == 2 {
            if let Some(op) = find_arithmetic(mnemonic) {
                Some(Operation::ArithmeticWithOffset(op))
            } else if let Some(op) = find_register_arithmetic(mnemonic) {
                Some(Operation::ArithmeticRegisters(op))
            } else if same_text(mnemonic, "COMPR") {
                Some(Operation::CompareRegisters)
            } else if same_text(mnemonic, "RMO") {
                Some(Operation::Exchange)
            } else if let Some(r) = find_load(mnemonic) {
                Some(Operation::LoadWithOffset(r))
            } else if let Some(r) = find_store(mnemonic) {
                Some(Operation::StoreWithOffset(r))
            } else {
                None
            }
        } else {
            None
        }
    }
}

/// An operation that a mnemonic resolves to takes as many operands as the
/// mnemonic was given, and is never the empty operation.
pub proof fn lemma_resolved_arity(mnemonic: Seq<char>, count: nat)
    ensures
        resolved(mnemonic, count) matches Some(op) ==> op.arity() == count && op != Operation::Idle,
{
}

} // verus!
