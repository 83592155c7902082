//! The disassembler: a human-readable listing of a chunk, one instruction
//! per line, with a four-digit byte offset, the mnemonic padded to a fixed
//! column, and, for a constant load, the index and the constant's text.

use vstd::prelude::*;
use vstd::string::StringExecFns;

use crate::num::{push_pad_digits, spec_num_text, spec_pad_digits};
use crate::text::push_char;
use crate::vm::chunk::{view_constants, Chunk};
use crate::vm::error::{RuntimeError, RuntimeErrorView};
use crate::vm::opcodes::{spec_opcode, spec_opcode_offset, try_from_with_offset, OpCode};
use crate::vm::value::{Value, ValueView};

verus! {

/// The printed form of a machine value.
pub open spec fn spec_vm_value_text(v: ValueView) -> Seq<char> {
    match v {
        ValueView::Number(m) => spec_num_text(m),
        ValueView::Boolean(b) => if b {
            "true"@
        } else {
            "false"@
        },
        ValueView::Nil => "nil"@,
    }
}

/// The mnemonic of an operation, padded to the listing's column width.
pub open spec fn spec_mnemonic(op: OpCode) -> Seq<char> {
    match op {
        OpCode::Constant => "CONSTANT  "@,
        OpCode::Return => "RETURN    "@,
        OpCode::Negate => "NEGATE    "@,
        OpCode::Add => "ADD       "@,
        OpCode::Subtract => "SUBTRACT  "@,
        OpCode::Multiply => "MULTIPLY  "@,
        OpCode::Divide => "DIVIDE    "@,
    }
}

/// The listing line of the instruction at `ip` and the offset to the next
/// instruction.
pub open spec fn spec_disasm_instruction(
    code: Seq<u8>,
    consts: Seq<ValueView>,
    ip: nat,
) -> Result<(Seq<char>, nat), RuntimeErrorView> {
    if ip >= code.len() {
        Err(
            RuntimeErrorView::InstructionPointerOutOfBounds(
                ip as usize,
                code.len() as usize,
            ),
        )
    } else {
        let b = code[ip as int];
        match spec_opcode(b) {
            None => Err(RuntimeErrorView::InvalidInstruction(b)),
            Some(op) => {
                let head = spec_pad_digits(ip as int, 4) + " "@;
                match op {
                    OpCode::Constant => if ip + 1 >= code.len() {
                        Err(
                            RuntimeErrorView::InstructionPointerOutOfBounds(
                                (ip + 1) as usize,
                                code.len() as usize,
                            ),
                        )
                    } else {
                        let ci = code[ip as int + 1];
                        if ci as int >= consts.len() {
                            Err(RuntimeErrorView::InvalidConstantIndex(ci))
                        } else {
                            Ok(
                                (
                                    head + spec_mnemonic(op) + " "@ + spec_pad_digits(ci as int, 3)
                                        + " : "@ + spec_vm_value_text(consts[ci as int])
                                        + "\n"@,
                                    2,
                                ),
                            )
                        }
                    },
                    _ => Ok((head + spec_mnemonic(op) + "\n"@, 1)),
                }
            },
        }
    }
}

/// The listing of the whole chunk from `ip` on.
pub open spec fn spec_disasm_chunk(code: Seq<u8>, consts: Seq<ValueView>, ip: nat) -> Result<
    Seq<char>,
    RuntimeErrorView,
>
    decreases code.len() - ip,
{
    if ip >= code.len() {
        Ok(Seq::empty())
    } else {
        let b = code[ip as int];
        match spec_opcode(b) {
            None => Err(RuntimeErrorView::InvalidInstruction(b)),
            Some(op) => match spec_disasm_instruction(code, consts, ip) {
                Err(e) => Err(e),
                Ok(pair) => match spec_disasm_chunk(code, consts, ip + spec_opcode_offset(op)) {
                    Err(e) => Err(e),
                    Ok(rest) => Ok(pair.0 + rest),
                },
            },
        }
    }
}

/// The printed form of one machine value.
pub fn vm_value_text(v: &Value) -> (r: String)
    ensures
        r@ == spec_vm_value_text(v@),
{
    match v {
        Value::Number(n) => n.to_text(),
        Value::Boolean(b) => if *b {
            String::from_str("true")
        } else {
            String::from_str("false")
        },
        Value::Nil => String::from_str("nil"),
    }
}

/// Disassembles the instruction at the given position: its listing line and
/// the offset to the next instruction.
#[verifier::rlimit(100)]
#[verifier::spinoff_prover]
pub fn dissasemble_instruction(chunk: &Chunk, instruction_pointer: usize) -> (r: Result<
    (String, usize),
    RuntimeError,
>)
    ensures
        match r {
            Ok(p) => spec_disasm_instruction(
                chunk.code@,
                view_constants(chunk.constants@),
                instruction_pointer as nat,
            ) == Ok::<(Seq<char>, nat), RuntimeErrorView>((p.0@, p.1 as nat)),
            Err(e) => spec_disasm_instruction(
                chunk.code@,
                view_constants(chunk.constants@),
                instruction_pointer as nat,
            ) == Err::<(Seq<char>, nat), RuntimeErrorView>(e@),
        },
{
    let byte = match chunk.get_byte(instruction_pointer) {
        Ok(b) => b,
        Err(e) => {
            return Err(e);
        },
    };
    let decoded = match try_from_with_offset(&byte) {
        Ok(p) => p,
        Err(e) => {
            return Err(e);
        },
    };
    let (op_code, next_instruction_offset) = decoded;
    let mut out = String::new();
    push_pad_digits(&mut out, instruction_pointer as u64, 4);
    push_char(&mut out, ' ');
    let code_len = chunk.code.len();
    proof {
        assert(instruction_pointer < code_len);
    }
    match op_code {
        OpCode::Constant => {
            let constant_index = match chunk.get_byte(instruction_pointer + 1) {
                Ok(b) => b,
                Err(e) => {
                    return Err(e);
                },
            };
            let value = match chunk.get_constant(constant_index as usize) {
                Ok(v) => v,
                Err(e) => {
                    return Err(e);
                },
            };
            out.append("CONSTANT  ");
            push_char(&mut out, ' ');
            push_pad_digits(&mut out, constant_index as u64, 3);
            out.append(" : ");
            let text = vm_value_text(value);
            out.append(text.as_str());
            push_char(&mut out, '\n');
            proof {
                reveal_strlit(" ");
                reveal_strlit("\n");
                assert((" "@).len() == 1 && (" "@)[0] == ' ');
                assert(("\n"@).len() == 1 && ("\n"@)[0] == '\n');
                assert(out@ =~= spec_pad_digits(instruction_pointer as int, 4) + " "@
                    + spec_mnemonic(OpCode::Constant) + " "@ + spec_pad_digits(
                    constant_index as int,
                    3,
                ) + " : "@ + spec_vm_value_text(
                    view_constants(chunk.constants@)[constant_index as int],
                ) + "\n"@);
            }
            Ok((out, next_instruction_offset))
        },
        _ => {
            let mnemonic: &str = match op_code {
                OpCode::Return => "RETURN    ",
                OpCode::Negate => "NEGATE    ",
                OpCode::Add => "ADD       ",
                OpCode::Subtract => "SUBTRACT  ",
                OpCode::Multiply => "MULTIPLY  ",
                OpCode::Divide => "DIVIDE    ",
                OpCode::Constant => "CONSTANT  ",
            };
            out.append(mnemonic);
            push_char(&mut out, '\n');
            proof {
                reveal_strlit(" ");
                reveal_strlit("\n");
                assert((" "@).len() == 1 && (" "@)[0] == ' ');
                assert(("\n"@).len() == 1 && ("\n"@)[0] == '\n');
                assert(out@ =~= spec_pad_digits(instruction_pointer as int, 4) + " "@
                    + spec_mnemonic(op_code) + "\n"@);
            }
            Ok((out, next_instruction_offset))
        },
    }
}

/// Disassembles the instructions from `ip` to the end of the chunk.
#[verifier::rlimit(100)]
#[verifier::spinoff_prover]
fn disassemble_from(chunk: &Chunk, ip: usize) -> (r: Result<String, RuntimeError>)
    ensures
        match r {
            Ok(s) => spec_disasm_chunk(
                chunk.code@,
                view_constants(chunk.constants@),
                ip as nat,
            ) == Ok::<Seq<char>, RuntimeErrorView>(s@),
            Err(e) => spec_disasm_chunk(
                chunk.code@,
                view_constants(chunk.constants@),
                ip as nat,
            ) == Err::<Seq<char>, RuntimeErrorView>(e@),
        },
    decreases chunk.code@.len() - ip,
{
    if ip >= chunk.code.len() {
        let out = String::new();
        proof {
            assert(out@ =~= Seq::<char>::empty());
        }
        return Ok(out);
    }
    let pair = match dissasemble_instruction(chunk, ip) {
        Ok(p) => p,
        Err(e) => {
            return Err(e);
        },
    };
    let (text, offset) = pair;
    let rest = match disassemble_from(chunk, ip + offset) {
        Ok(s) => s,
        Err(e) => {
            return Err(e);
        },
    };
    let mut out = text;
    out.append(rest.as_str());
    Ok(out)
}

/// Disassembles a whole chunk into its listing.
pub fn disassemble_chunk(chunk: &Chunk) -> (r: Result<String, RuntimeError>)
    ensures
        match r {
            Ok(s) => spec_disasm_chunk(chunk.code@, view_constants(chunk.constants@), 0) == Ok::<
                Seq<char>,
                RuntimeErrorView,
            >(s@),
            Err(e) => spec_disasm_chunk(chunk.code@, view_constants(chunk.constants@), 0) == Err::<
                Seq<char>,
                RuntimeErrorView,
            >(e@),
        },
{
    disassemble_from(chunk, 0)
}

} // verus!
