//! Why the virtual machine stopped.

use vstd::prelude::*;
use vstd::string::StringExecFns;

use crate::text::push_char;

verus! {

/// A runtime failure of the virtual machine.
#[derive(Debug, PartialEq)]
pub enum RuntimeError {
    /// The instruction pointer left the code: its value and the code length.
    InstructionPointerOutOfBounds(usize, usize),
    /// A byte that is no operation code.
    InvalidInstruction(u8),
    /// A constant index outside the constant table.
    InvalidConstantIndex(u8),
    /// A pop from an empty stack.
    StackUnderflow,
    /// A push onto a full stack of the given capacity.
    StackOverflow(usize),
    /// An operation met operand kinds it is not defined for.
    RuntimeError(String),
}

/// The shape of a runtime failure.
pub enum RuntimeErrorView {
    InstructionPointerOutOfBounds(usize, usize),
    InvalidInstruction(u8),
    InvalidConstantIndex(u8),
    StackUnderflow,
    StackOverflow(usize),
    RuntimeError(Seq<char>),
}

impl View for RuntimeError {
    type V = RuntimeErrorView;

    open spec fn view(&self) -> RuntimeErrorView {
        match self {
            RuntimeError::InstructionPointerOutOfBounds(i, n) => {
                RuntimeErrorView::InstructionPointerOutOfBounds(*i, *n)
            },
            RuntimeError::InvalidInstruction(b) => RuntimeErrorView::InvalidInstruction(*b),
            RuntimeError::InvalidConstantIndex(b) => RuntimeErrorView::InvalidConstantIndex(*b),
            RuntimeError::StackUnderflow => RuntimeErrorView::StackUnderflow,
            RuntimeError::StackOverflow(n) => RuntimeErrorView::StackOverflow(*n),
            RuntimeError::RuntimeError(m) => RuntimeErrorView::RuntimeError(m@),
        }
    }
}

impl RuntimeError {
    /// A human-readable description of the error.
    pub fn message(&self) -> (r: String)
    {
        match self {
            RuntimeError::InstructionPointerOutOfBounds(i, n) => {
                let mut out = String::from_str("Instruction pointer out of bounds: ");
                crate::num::push_udigits(&mut out, *i as u64);
                out.append(", size: ");
                crate::num::push_udigits(&mut out, *n as u64);
                out
            },
            RuntimeError::InvalidInstruction(b) => {
                let mut out = String::from_str("Invalid instruction code ");
                crate::num::push_udigits(&mut out, *b as u64);
                out
            },
            RuntimeError::InvalidConstantIndex(b) => {
                let mut out = String::from_str("Invalid constant index ");
                crate::num::push_udigits(&mut out, *b as u64);
                out
            },
            RuntimeError::StackUnderflow => String::from_str(
                "Attempted to pop from an empty stack",
            ),
            RuntimeError::StackOverflow(n) => {
                let mut out = String::from_str(
                    "Stack overflow: attempted to push to a full stack of size ",
                );
                crate::num::push_udigits(&mut out, *n as u64);
                out
            },
            RuntimeError::RuntimeError(m) => m.clone(),
        }
    }
}

} // verus!
