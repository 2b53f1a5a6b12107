use crate::text::{lowercase_of, to_chars, to_lowercase};
use vstd::prelude::*;

verus! {

/// The registers of the machine.
#[derive(Clone, Copy, Debug, PartialEq, Eq, Hash, Structural)]
pub enum Register {
    /// The accumulator.
    A,
    /// The index register.
    X,
    /// The linkage register.
    L,
    /// The base register.
    B,
    /// A general register.
    S,
    /// A general register.
    T,
    /// The condition-code register.
    F,
}

impl Register {
    /// The register that a lower-case name stands for.
    pub open spec fn named(name: Seq<char>) -> Option<Register> {
        if name.len() != 1 {
            None
        } else if name[0] == 'a' {
            Some(Register::A)
        } else if name[0] == 'x' {
            Some(Register::X)
        } else if name[0] == 'l' {
            Some(Register::L)
        } else if name[0] == 'b' {
            Some(Register::B)
        } else if name[0] == 's' {
            Some(Register::S)
        } else if name[0] == 't' {
            Some(Register::T)
        } else if name[0] == 'f' {
            Some(Register::F)
        } else {
            None
        }
    }

    /// The upper-case letter that names the register.
    pub open spec fn letter(self) -> char {
        match self {
            Register::A => 'A',
            Register::X => 'X',
            Register::L => 'L',
            Register::B => 'B',
            Register::S => 'S',
            Register::T => 'T',
            Register::F => 'F',
        }
    }

    /// Finds the register with the given lower-case name.
    pub fn from_lowercase(name: &str) -> (out: Option<Register>)
        ensures
            out == Register::named(name@),
    {
        let text = to_chars(name);
        if text.len() != 1 {
            return None;
        }
        let c = text[0];
        if c == 'a' {
            Some(Register::A)
        } else if c == 'x' {
            Some(Register::X)
        } else if c == 'l' {
            Some(Register::L)
        } else if c == 'b' {
            Some(Register::B)
        } else if c == 's' {
            Some(Register::S)
        } else if c == 't' {
            Some(Register::T)
        } else if c == 'f' {
            Some(Register::F)
        } else {
            None
        }
    }

    /// The canonical upper-case name of the register.
    pub fn name(&self) -> (out: char)
        ensures
            out == self.letter(),
    {
        match self {
            Register::A => 'A',
            Register::X => 'X',
            Register::L => 'L',
            Register::B => 'B',
            Register::S => 'S',
            Register::T => 'T',
            Register::F => 'F',
        }
    }

    /// All registers, in the order in which they are listed.
    pub fn all() -> (out: Vec<Register>)
        ensures
            out@ == seq![
                Register::A,
                Register::X,
                Register::L,
                Register::B,
                Register::S,
                Register::T,
                Register::F,
            ],
    {
        let mut out: Vec<Register> = Vec::new();
        out.push(Register::A);
        out.push(Register::X);
        out.push(Register::L);
        out.push(Register::B);
        out.push(Register::S);
        out.push(Register::T);
        out.push(Register::F);
        assert(out@ =~= seq![
            Register::A,
            Register::X,
            Register::L,
            Register::B,
            Register::S,
            Register::T,
            Register::F,
        ]);
        out
    }
}

/// One operand of an instruction, classified once when the line is read.
#[derive(Debug)]
pub enum Operand {
    /// A register.
    Register(Register),
    /// The text of a literal, without its leading `#`.
    Immediate(String),
    /// The name of a memory cell or of a label.
    Memory(String),
}

/// What an operand is, over plain character sequences.
pub enum OperandView {
    Register(Register),
    Immediate(Seq<char>),
    Memory(Seq<char>),
}

impl View for Operand {
    type V = OperandView;

    open spec fn view(&self) -> OperandView {
        match self {
            Operand::Register(r) => OperandView::Register(*r),
            Operand::Immediate(text) => OperandView::Immediate(text@),
            Operand::Memory(name) => OperandView::Memory(name@),
        }
    }
}

/// The views of a list of operands.
pub open spec fn operand_views(operands: Seq<Operand>) -> Seq<OperandView> {
    Seq::new(operands.len(), |i: int| operands[i]@)
}

impl Clone for Operand {
    fn clone(&self) -> (out: Self)
        ensures
            out@ == self@,
    {
        match self {
            Operand::Register(r) => Operand::Register(*r),
            Operand::Immediate(text) => Operand::Immediate(text.clone()),
            Operand::Memory(name) => Operand::Memory(name.clone()),
        }
    }
}

/// The class of an operand text whose lower-case form is `lowered`: a
/// leading `#` marks a literal, a register name a register, and anything
/// else names memory.
pub open spec fn classified(segment: Seq<char>, lowered: Seq<char>) -> OperandView {
    if segment.len() > 0 && segment[0] == '#' {
        OperandView::Immediate(segment.skip(1))
    } else {
        match Register::named(lowered) {
            Some(r) => OperandView::Register(r),
            None => OperandView::Memory(segment),
        }
    }
}

impl Operand {
    /// Classifies an operand text, given its lower-case form.
    pub fn from_parts(segment: &str, lowered: &str) -> (out: Operand)
        ensures
            out@ == classified(segment@, lowered@),
    {
        let text = to_chars(segment);
        if text.len() > 0 && text[0] == '#' {
            let mut literal = String::new();
            let mut i: usize = 1;
            while i < text.len()
                invariant
                    1 <= i <= text.len(),
                    literal@ == text@.subrange(1, i as int),
                decreases text.len() - i,
            {
                literal.push(text[i]);
                assert(text@.subrange(1, i + 1) == text@.subrange(1, i as int).push(text@[i as int]));
                i += 1;
            }
            assert(text@.subrange(1, text.len() as int) == text@.skip(1));
            Operand::Immediate(literal)
        } else {
            match Register::from_lowercase(lowered) {
                Some(r) => Operand::Register(r),
                None => Operand::Memory(segment.to_owned()),
            }
        }
    }

    /// Classifies an operand text. Register names are matched without
    /// regard to case.
    pub fn classify(segment: &str) -> (out: Operand)
        ensures
            out@ == classified(segment@, lowercase_of(segment@)),
    {
        let lowered = to_lowercase(segment);
        Operand::from_parts(segment, lowered.as_str())
    }
}

} // verus!
