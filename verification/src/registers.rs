use crate::operand::Register;
use vstd::prelude::*;

verus! {

/// The values of the registers. A register that was never written holds
/// nothing and reads as zero.
#[derive(Clone, Copy, Debug, PartialEq, Eq, Structural)]
pub struct RegisterBank {
    pub a: Option<i16>,
    pub x: Option<i16>,
    pub l: Option<i16>,
    pub b: Option<i16>,
    pub s: Option<i16>,
    pub t: Option<i16>,
    pub f: Option<i16>,
}

impl RegisterBank {
    /// What the register holds, if it was ever written.
    pub open spec fn slot(self, register: Register) -> Option<i16> {
        match register {
            Register::A => self.a,
            Register::X => self.x,
            Register::L => self.l,
            Register::B => self.b,
            Register::S => self.s,
            Register::T => self.t,
            Register::F => self.f,
        }
    }

    /// The value that the register reads as.
    pub open spec fn value(self, register: Register) -> i16 {
        match self.slot(register) {
            Some(v) => v,
            None => 0,
        }
    }

    /// The bank in which no register was written.
    pub open spec fn empty() -> RegisterBank {
        RegisterBank { a: None, x: None, l: None, b: None, s: None, t: None, f: None }
    }

    /// The bank after `value` was written to `register`.
    pub open spec fn with(self, register: Register, value: i16) -> RegisterBank {
        match register {
            Register::A => RegisterBank { a: Some(value), ..self },
            Register::X => RegisterBank { x: Some(value), ..self },
            Register::L => RegisterBank { l: Some(value), ..self },
            Register::B => RegisterBank { b: Some(value), ..self },
            Register::S => RegisterBank { s: Some(value), ..self },
            Register::T => RegisterBank { t: Some(value), ..self },
            Register::F => RegisterBank { f: Some(value), ..self },
        }
    }

    /// A write is seen in the register written and in no other.
    pub proof fn lemma_with(self, register: Register, value: i16)
        ensures
            self.with(register, value).slot(register) == Some(value),
            forall|r: Register| r != register ==> self.with(register, value).slot(r) == self.slot(r),
    {
    }

    /// A bank in which no register was written.
    pub fn new() -> (out: RegisterBank)
        ensures
            out == RegisterBank::empty(),
    {
        RegisterBank { a: None, x: None, l: None, b: None, s: None, t: None, f: None }
    }

    /// What the register holds, if it was ever written.
    pub fn peek(&self, register: Register) -> (out: Option<i16>)
        ensures
            out == self.slot(register),
    {
        match register {
            Register::A => self.a,
            Register::X => self.x,
            Register::L => self.l,
            Register::B => self.b,
            Register::S => self.s,
            Register::T => self.t,
            Register::F => self.f,
        }
    }

    /// Reads a register; one that was never written reads as zero.
    pub fn get(&self, register: Register) -> (out: i16)
        ensures
            out == self.value(register),
    {
        match self.peek(register) {
            Some(v) => v,
            None => 0,
        }
    }

    /// Writes a register.
    pub fn set(&mut self, register: Register, value: i16)
        ensures
            *final(self) == old(self).with(register, value),
    {
        match register {
            Register::A => self.a = Some(value),
            Register::X => self.x = Some(value),
            Register::L => self.l = Some(value),
            Register::B => self.b = Some(value),
            Register::S => self.s = Some(value),
            Register::T => self.t = Some(value),
            Register::F => self.f = Some(value),
        }
    }
}

} // verus!
