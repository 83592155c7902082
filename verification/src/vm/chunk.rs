//! A chunk: the bytecode and the constant table it refers to.

use vstd::prelude::*;

use crate::vm::error::RuntimeError;
use crate::vm::value::{Value, ValueView};

verus! {

/// The shapes of the constant table.
pub open spec fn view_constants(s: Seq<Value>) -> Seq<ValueView> {
    s.map_values(|v: Value| v@)
}

/// A self-contained bytecode buffer with its constant table.
#[derive(Debug)]
pub struct Chunk {
    /// The bytecode: a contiguous run of bytes the machine decodes one
    /// instruction at a time.
    pub code: Vec<u8>,
    /// The constants the bytecode loads.
    pub constants: Vec<Value>,
}

impl Chunk {
    /// The byte at an index, or an out-of-bounds error naming the index and
    /// the code length.
    pub fn get_byte(&self, index: usize) -> (r: Result<u8, RuntimeError>)
        ensures
            match r {
                Ok(b) => index < self.code@.len() && b == self.code@[index as int],
                Err(e) => index >= self.code@.len() && e@ == (
                crate::vm::error::RuntimeErrorView::InstructionPointerOutOfBounds(
                    index,
                    self.code@.len() as usize,
                )),
            },
    {
        if index < self.code.len() {
            Ok(self.code[index])
        } else {
            Err(RuntimeError::InstructionPointerOutOfBounds(index, self.code.len()))
        }
    }

    /// The constant at an index, or an invalid-index error.
    pub fn get_constant(&self, index: usize) -> (r: Result<&Value, RuntimeError>)
        ensures
            match r {
                Ok(v) => index < self.constants@.len() && v@ == view_constants(self.constants@)[
                    index as int
                ],
                Err(e) => index >= self.constants@.len() && e@ == (
                crate::vm::error::RuntimeErrorView::InvalidConstantIndex(index as u8)),
            },
    {
        if index < self.constants.len() {
            proof {
                assert(view_constants(self.constants@)[index as int] == self.constants@[
                    index as int
                ]@);
            }
            Ok(&self.constants[index])
        } else {
            Err(RuntimeError::InvalidConstantIndex(index as u8))
        }
    }
}

} // verus!
