//! Operation codes. Each operation is a single byte; `Constant` carries one
//! more byte, the index of the constant it loads.

use vstd::prelude::*;

use crate::vm::error::RuntimeError;

verus! {

/// One operation of the machine.
#[derive(Debug, Clone, Copy, PartialEq, Eq, Structural)]
pub enum OpCode {
    /// Loads a constant from the chunk's table onto the stack.
    Constant,
    /// Pops the top of the stack, hands it back, and halts.
    Return,
    /// Pops a number and pushes its negation.
    Negate,
    /// Pops two numbers and pushes their sum.
    Add,
    /// Pops two numbers and pushes their difference.
    Subtract,
    /// Pops two numbers and pushes their product.
    Multiply,
    /// Pops two numbers and pushes their quotient.
    Divide,
}

/// The operation a byte stands for, if any.
pub open spec fn spec_opcode(b: u8) -> Option<OpCode> {
    if b == 0x00 {
        Some(OpCode::Constant)
    } else if b == 0x01 {
        Some(OpCode::Return)
    } else if b == 0x02 {
        Some(OpCode::Negate)
    } else if b == 0x03 {
        Some(OpCode::Add)
    } else if b == 0x04 {
        Some(OpCode::Subtract)
    } else if b == 0x05 {
        Some(OpCode::Multiply)
    } else if b == 0x06 {
        Some(OpCode::Divide)
    } else {
        None
    }
}

/// How many bytes an instruction takes: the operation and its operands.
pub open spec fn spec_opcode_offset(op: OpCode) -> nat {
    match op {
        OpCode::Constant => 2,
        _ => 1,
    }
}

impl OpCode {
    /// Decodes one byte, or reports it as an invalid instruction.
    pub fn try_from(value: &u8) -> (r: Result<OpCode, RuntimeError>)
        ensures
            match r {
                Ok(op) => spec_opcode(*value) == Some(op),
                Err(e) => spec_opcode(*value) is None && e@ == (
                crate::vm::error::RuntimeErrorView::InvalidInstruction(*value)),
            },
    {
        if *value == 0x00 {
            Ok(OpCode::Constant)
        } else if *value == 0x01 {
            Ok(OpCode::Return)
        } else if *value == 0x02 {
            Ok(OpCode::Negate)
        } else if *value == 0x03 {
            Ok(OpCode::Add)
        } else if *value == 0x04 {
            Ok(OpCode::Subtract)
        } else if *value == 0x05 {
            Ok(OpCode::Multiply)
        } else if *value == 0x06 {
            Ok(OpCode::Divide)
        } else {
            Err(RuntimeError::InvalidInstruction(*value))
        }
    }
}

impl OpCode {
    /// Encodes the operation as its byte; decoding the byte gives the
    /// operation back.
    pub fn as_byte(&self) -> (r: u8)
        ensures
            spec_opcode(r) == Some(*self),
    {
        match self {
            OpCode::Constant => 0x00,
            OpCode::Return => 0x01,
            OpCode::Negate => 0x02,
            OpCode::Add => 0x03,
            OpCode::Subtract => 0x04,
            OpCode::Multiply => 0x05,
            OpCode::Divide => 0x06,
        }
    }
}

/// Decodes one byte and pairs the operation with the offset to the next
/// instruction.
pub fn try_from_with_offset(value: &u8) -> (r: Result<(OpCode, usize), RuntimeError>)
    ensures
        match r {
            Ok(p) => spec_opcode(*value) == Some(p.0) && p.1 == spec_opcode_offset(p.0),
            Err(e) => spec_opcode(*value) is None && e@ == (
            crate::vm::error::RuntimeErrorView::InvalidInstruction(*value)),
        },
{
    let op_code = match OpCode::try_from(value) {
        Ok(op) => op,
        Err(e) => {
            return Err(e);
        },
    };
    let offset: usize = match op_code {
        OpCode::Constant => 2,
        _ => 1,
    };
    Ok((op_code, offset))
}

} // verus!
