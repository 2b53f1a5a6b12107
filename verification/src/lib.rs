//! An assembler and an interpreter for a small teaching machine: a register
//! bank, a memory of named cells, an accumulator for arithmetic, labels to
//! branch to and a comparison that the conditional branches go by.
//!
//! [`code::Code::compile`] turns a source text into a program,
//! [`code::Code::execute`] runs it. What both do is stated over the plain
//! values of [`model`] and [`assemble`]; [`laws`] holds what follows from
//! that for every program.

pub mod assemble;
pub mod code;
pub mod error;
pub mod labels;
pub mod laws;
pub mod memory;
pub mod model;
pub mod names;
pub mod number;
pub mod operand;
pub mod operation;
pub mod registers;
pub mod report;
pub mod text;
