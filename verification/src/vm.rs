//! The bytecode back-end: a stack machine over a chunk of code and
//! constants, with a disassembler.

pub mod chunk;
pub mod disassembler;
pub mod error;
pub mod opcodes;
pub mod value;
pub mod vm;
