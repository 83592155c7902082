//! The stack machine: decodes one instruction at a time from a chunk and
//! drives a bounded value stack.

use vstd::prelude::*;

use crate::vm::chunk::{view_constants, Chunk};
use crate::vm::error::{RuntimeError, RuntimeErrorView};
use crate::vm::opcodes::{spec_opcode, spec_opcode_offset, try_from_with_offset, OpCode};
use crate::vm::value::{spec_vm_add, spec_vm_div, spec_vm_mul, spec_vm_neg, spec_vm_sub, Value,
    ValueView};

verus! {

/// The stack capacity a fresh machine gets.
pub const DEFAULT_STACK_SIZE: usize = 256;

/// Runs the code from position `ip` with the given stack: the value the
/// `Return` instruction pops, the stack left under it, and the next
/// instruction position; or the machine's first error.
pub open spec fn spec_vm_run(
    code: Seq<u8>,
    consts: Seq<ValueView>,
    stack: Seq<ValueView>,
    ip: nat,
    max: nat,
) -> Result<(ValueView, Seq<ValueView>, nat), RuntimeErrorView>
    decreases code.len() - ip, 1int,
{
    if ip >= code.len() {
        Err(
            RuntimeErrorView::InstructionPointerOutOfBounds(
                ip as usize,
                code.len() as usize,
            ),
        )
    } else {
        let b = code[ip as int];
        match spec_opcode(b) {
            None => Err(RuntimeErrorView::InvalidInstruction(b)),
            Some(op) => match op {
                OpCode::Return => if stack.len() == 0 {
                    Err(RuntimeErrorView::StackUnderflow)
                } else {
                    Ok((stack.last(), stack.drop_last(), ip + 1))
                },
                OpCode::Constant => if ip + 1 >= code.len() {
                    Err(
                        RuntimeErrorView::InstructionPointerOutOfBounds(
                            (ip + 1) as usize,
                            code.len() as usize,
                        ),
                    )
                } else {
                    let ci = code[ip as int + 1];
                    if ci as int >= consts.len() {
                        Err(RuntimeErrorView::InvalidConstantIndex(ci))
                    } else if stack.len() >= max {
                        Err(RuntimeErrorView::StackOverflow(max as usize))
                    } else {
                        spec_vm_run(code, consts, stack.push(consts[ci as int]), ip + 2, max)
                    }
                },
                OpCode::Negate => if stack.len() == 0 {
                    Err(RuntimeErrorView::StackUnderflow)
                } else {
                    match spec_vm_neg(stack.last()) {
                        Err(e) => Err(e),
                        Ok(v) => if stack.drop_last().len() >= max {
                            Err(RuntimeErrorView::StackOverflow(max as usize))
                        } else {
                            spec_vm_run(code, consts, stack.drop_last().push(v), ip + 1, max)
                        },
                    }
                },
                OpCode::Add => spec_vm_run_binary(code, consts, stack, ip, max, op),
                OpCode::Subtract => spec_vm_run_binary(code, consts, stack, ip, max, op),
                OpCode::Multiply => spec_vm_run_binary(code, consts, stack, ip, max, op),
                OpCode::Divide => spec_vm_run_binary(code, consts, stack, ip, max, op),
            },
        }
    }
}

/// Runs one two-operand arithmetic instruction and continues: pops the right
/// then the left operand, applies the operation, pushes the result.
pub open spec fn spec_vm_run_binary(
    code: Seq<u8>,
    consts: Seq<ValueView>,
    stack: Seq<ValueView>,
    ip: nat,
    max: nat,
    op: OpCode,
) -> Result<(ValueView, Seq<ValueView>, nat), RuntimeErrorView>
    decreases code.len() - ip, 0int,
{
    if ip >= code.len() {
        Err(
            RuntimeErrorView::InstructionPointerOutOfBounds(
                ip as usize,
                code.len() as usize,
            ),
        )
    } else if stack.len() < 2 {
        Err(RuntimeErrorView::StackUnderflow)
    } else {
        let bv = stack.last();
        let av = stack[stack.len() - 2];
        let applied = if op == OpCode::Add {
            spec_vm_add(av, bv)
        } else if op == OpCode::Subtract {
            spec_vm_sub(av, bv)
        } else if op == OpCode::Multiply {
            spec_vm_mul(av, bv)
        } else {
            spec_vm_div(av, bv)
        };
        match applied {
            Err(e) => Err(e),
            Ok(v) => {
                let s2 = stack.drop_last().drop_last();
                if s2.len() >= max {
                    Err(RuntimeErrorView::StackOverflow(max as usize))
                } else {
                    spec_vm_run(code, consts, s2.push(v), ip + 1, max)
                }
            },
        }
    }
}

/// A machine that can run a chunk.
pub trait VirtualMachine {
    /// The stack's contents, bottom first.
    spec fn stack_view(&self) -> Seq<ValueView>;

    /// The stack's capacity.
    spec fn max_size(&self) -> nat;

    /// The position of the next byte to execute.
    spec fn ip(&self) -> nat;

    /// Runs a chunk from its first byte against the current stack; the
    /// result, the stack and the final position are exactly those of
    /// `spec_vm_run`.
    fn run(&mut self, chunk: &Chunk) -> (r: Result<Value, RuntimeError>)
        ensures
            match spec_vm_run(
                chunk.code@,
                view_constants(chunk.constants@),
                old(self).stack_view(),
                0,
                old(self).max_size(),
            ) {
                Ok(res) => {
                    &&& r matches Ok(v) && v@ == res.0
                    &&& final(self).stack_view() == res.1
                    &&& final(self).ip() == res.2
                },
                Err(ev) => r matches Err(e) && e@ == ev,
            },
            final(self).max_size() == old(self).max_size(),
    ;
}

/// The machine's mutable state.
pub struct VmState {
    /// The position of the next byte in the chunk to be executed.
    pub instruction_pointer: usize,
    stack: Vec<Value>,
    max_stack_size: usize,
    /// When set, the machine records each instruction's disassembled text
    /// before executing it.
    pub tracing: bool,
    /// The recorded trace, oldest line first.
    pub trace: Vec<String>,
}

/// The machine: its state, driven by `run`.
pub struct VirtualMachineImpl {
    pub state: VmState,
}

impl VirtualMachineImpl {
    /// Whether the machine records a trace while running.
    pub closed spec fn tracing_on(&self) -> bool {
        self.state.tracing
    }

    /// A fresh machine: empty stack with the default capacity, position
    /// zero, tracing off.
    pub fn new() -> (r: VirtualMachineImpl)
        ensures
            r.stack_view() == Seq::<ValueView>::empty(),
            r.max_size() == DEFAULT_STACK_SIZE,
            r.ip() == 0,
            !r.tracing_on(),
    {
        let r = VirtualMachineImpl {
            state: VmState {
                instruction_pointer: 0,
                stack: Vec::new(),
                max_stack_size: DEFAULT_STACK_SIZE,
                tracing: false,
                trace: Vec::new(),
            },
        };
        proof {
            assert(r.stack_view() =~= Seq::<ValueView>::empty());
        }
        r
    }

    /// Pushes a value; at the capacity the push fails cleanly and the stack
    /// keeps its contents.
    fn stack_push(&mut self, value: Value) -> (r: Result<(), RuntimeError>)
        ensures
            final(self).max_size() == old(self).max_size(),
            final(self).ip() == old(self).ip(),
            final(self).tracing_on() == old(self).tracing_on(),
            old(self).stack_view().len() >= old(self).max_size() ==> {
                &&& r matches Err(e) && e@ == RuntimeErrorView::StackOverflow(
                    old(self).max_size() as usize,
                )
                &&& final(self).stack_view() == old(self).stack_view()
            },
            old(self).stack_view().len() < old(self).max_size() ==> r is Ok
                && final(self).stack_view() == old(self).stack_view().push(value@),
            old(self).stack_view().len() <= old(self).max_size() ==> final(self).stack_view().len()
                <= final(self).max_size(),
    {
        if self.state.stack.len() >= self.state.max_stack_size {
            return Err(RuntimeError::StackOverflow(self.state.max_stack_size));
        }
        self.state.stack.push(value);
        proof {
            assert(self.stack_view() =~= old(self).stack_view().push(value@));
        }
        Ok(())
    }

    /// Pops the top value; on an empty stack the pop fails cleanly.
    fn stack_pop(&mut self) -> (r: Result<Value, RuntimeError>)
        ensures
            final(self).max_size() == old(self).max_size(),
            final(self).ip() == old(self).ip(),
            final(self).tracing_on() == old(self).tracing_on(),
            old(self).stack_view().len() == 0 ==> {
                &&& r matches Err(e) && e@ == RuntimeErrorView::StackUnderflow
                &&& final(self).stack_view() == old(self).stack_view()
            },
            old(self).stack_view().len() > 0 ==> {
                &&& r matches Ok(v) && v@ == old(self).stack_view().last()
                &&& final(self).stack_view() == old(self).stack_view().drop_last()
            },
    {
        let popped = self.state.stack.pop();
        match popped {
            Some(v) => {
                proof {
                    assert(self.stack_view() =~= old(self).stack_view().drop_last());
                    assert(v@ == old(self).stack_view().last());
                }
                Ok(v)
            },
            None => Err(RuntimeError::StackUnderflow),
        }
    }

    /// One line per stack entry, bottom first, under a header with the
    /// stack's size — what a trace records before each instruction.
    fn stack_dump(&self) -> (r: String) {
        let mut out = String::from_str("STACK: ");
        crate::num::push_udigits(&mut out, self.state.stack.len() as u64);
        crate::text::push_char(&mut out, '\n');
        let mut i: usize = 0;
        while i < self.state.stack.len()
            invariant
                i <= self.state.stack@.len(),
            decreases self.state.stack@.len() - i,
        {
            out.append("  ");
            crate::num::push_udigits(&mut out, i as u64);
            out.append(": ");
            let text = crate::vm::disassembler::vm_value_text(&self.state.stack[i]);
            out.append(text.as_str());
            crate::text::push_char(&mut out, '\n');
            i = i + 1;
        }
        out
    }

    /// Executes instructions from the current position until a `Return` or
    /// an error.
    #[verifier::rlimit(100)]
    #[verifier::spinoff_prover]
    fn run_steps(&mut self, chunk: &Chunk) -> (r: Result<Value, RuntimeError>)
        ensures
            match spec_vm_run(
                chunk.code@,
                view_constants(chunk.constants@),
                old(self).stack_view(),
                old(self).ip(),
                old(self).max_size(),
            ) {
                Ok(res) => {
                    &&& r matches Ok(v) && v@ == res.0
                    &&& final(self).stack_view() == res.1
                    &&& final(self).ip() == res.2
                },
                Err(ev) => r matches Err(e) && e@ == ev,
            },
            final(self).max_size() == old(self).max_size(),
        decreases chunk.code@.len() - self.ip(),
    {
        proof {
            reveal_with_fuel(spec_vm_run, 2);
            reveal_with_fuel(spec_vm_run_binary, 2);
        }
        let ip = self.state.instruction_pointer;
        if self.state.tracing {
            let dump = self.stack_dump();
            self.state.trace.push(dump);
            let listed = crate::vm::disassembler::dissasemble_instruction(chunk, ip);
            if let Ok(pair) = listed {
                self.state.trace.push(pair.0);
            }
        }
        let byte = match chunk.get_byte(ip) {
            Ok(b) => b,
            Err(e) => {
                return Err(e);
            },
        };
        let decoded = match try_from_with_offset(&byte) {
            Ok(p) => p,
            Err(e) => {
                return Err(e);
            },
        };
        let (op_code, next_instruction_offset) = decoded;
        let code_len = chunk.code.len();
        proof {
            assert(ip < code_len);
        }
        match op_code {
            OpCode::Return => {
                proof {
                    assert(next_instruction_offset == 1);
                }
                self.state.instruction_pointer = ip + next_instruction_offset;
                let v = match self.stack_pop() {
                    Ok(v) => v,
                    Err(e) => {
                        return Err(e);
                    },
                };
                Ok(v)
            },
            OpCode::Constant => {
                let constant_index = match chunk.get_byte(ip + 1) {
                    Ok(b) => b,
                    Err(e) => {
                        return Err(e);
                    },
                };
                let constant = match chunk.get_constant(constant_index as usize) {
                    Ok(c) => c,
                    Err(e) => {
                        return Err(e);
                    },
                };
                let cv = *constant;
                match self.stack_push(cv) {
                    Ok(_) => {},
                    Err(e) => {
                        return Err(e);
                    },
                }
                proof {
                    assert(next_instruction_offset == 2);
                    assert(ip + 1 < chunk.code@.len());
                }
                self.state.instruction_pointer = ip + next_instruction_offset;
                self.run_steps(chunk)
            },
            OpCode::Negate => {
                let v = match self.stack_pop() {
                    Ok(v) => v,
                    Err(e) => {
                        return Err(e);
                    },
                };
                let v2 = match v.neg() {
                    Ok(v2) => v2,
                    Err(e) => {
                        return Err(e);
                    },
                };
                match self.stack_push(v2) {
                    Ok(_) => {},
                    Err(e) => {
                        return Err(e);
                    },
                }
                proof {
                    assert(next_instruction_offset == 1);
                }
                self.state.instruction_pointer = ip + next_instruction_offset;
                self.run_steps(chunk)
            },
            OpCode::Add => self.run_binary(chunk, ip, OpCode::Add),
            OpCode::Subtract => self.run_binary(chunk, ip, OpCode::Subtract),
            OpCode::Multiply => self.run_binary(chunk, ip, OpCode::Multiply),
            OpCode::Divide => self.run_binary(chunk, ip, OpCode::Divide),
        }
    }

    /// Executes one two-operand arithmetic instruction and continues.
    #[verifier::rlimit(100)]
    #[verifier::spinoff_prover]
    fn run_binary(&mut self, chunk: &Chunk, ip: usize, op: OpCode) -> (r: Result<
        Value,
        RuntimeError,
    >)
        requires
            op == OpCode::Add || op == OpCode::Subtract || op == OpCode::Multiply || op
                == OpCode::Divide,
            old(self).ip() == ip,
            ip < chunk.code@.len(),
            spec_opcode(chunk.code@[ip as int]) == Some(op),
        ensures
            match spec_vm_run(
                chunk.code@,
                view_constants(chunk.constants@),
                old(self).stack_view(),
                old(self).ip(),
                old(self).max_size(),
            ) {
                Ok(res) => {
                    &&& r matches Ok(v) && v@ == res.0
                    &&& final(self).stack_view() == res.1
                    &&& final(self).ip() == res.2
                },
                Err(ev) => r matches Err(e) && e@ == ev,
            },
            final(self).max_size() == old(self).max_size(),
        decreases chunk.code@.len() - self.ip(), 0int,
    {
        proof {
            reveal_with_fuel(spec_vm_run, 2);
            reveal_with_fuel(spec_vm_run_binary, 2);
        }
        let code_len = chunk.code.len();
        proof {
            assert(ip < code_len);
        }
        let bv = match self.stack_pop() {
            Ok(v) => v,
            Err(e) => {
                return Err(e);
            },
        };
        let av = match self.stack_pop() {
            Ok(v) => v,
            Err(e) => {
                return Err(e);
            },
        };
        let applied = if matches!(op, OpCode::Add) {
            av.add(bv)
        } else if matches!(op, OpCode::Subtract) {
            av.sub(bv)
        } else if matches!(op, OpCode::Multiply) {
            av.mul(bv)
        } else {
            av.div(bv)
        };
        let v = match applied {
            Ok(v) => v,
            Err(e) => {
                return Err(e);
            },
        };
        match self.stack_push(v) {
            Ok(_) => {},
            Err(e) => {
                return Err(e);
            },
        }
        self.state.instruction_pointer = ip + 1;
        self.run_steps(chunk)
    }
}

impl VirtualMachine for VirtualMachineImpl {
    closed spec fn stack_view(&self) -> Seq<ValueView> {
        self.state.stack@.map_values(|v: Value| v@)
    }

    closed spec fn max_size(&self) -> nat {
        self.state.max_stack_size as nat
    }

    closed spec fn ip(&self) -> nat {
        self.state.instruction_pointer as nat
    }

    fn run(&mut self, chunk: &Chunk) -> (r: Result<Value, RuntimeError>) {
        self.state.instruction_pointer = 0;
        self.run_steps(chunk)
    }
}

} // verus!

verus! {

/// Stack bound: starting within the capacity, the machine never hands back
/// a stack past its configured bound — every push checks the bound first
/// and fails cleanly at it.
pub proof fn lemma_vm_stack_bound(
    code: Seq<u8>,
    consts: Seq<ValueView>,
    stack: Seq<ValueView>,
    ip: nat,
    max: nat,
)
    requires
        stack.len() <= max,
    ensures
        spec_vm_run(code, consts, stack, ip, max) matches Ok(res) ==> res.1.len() <= max,
    decreases code.len() - ip,
{
    reveal_with_fuel(spec_vm_run, 2);
    reveal_with_fuel(spec_vm_run_binary, 2);
    if ip < code.len() {
        let b = code[ip as int];
        match spec_opcode(b) {
            None => {},
            Some(op) => match op {
                OpCode::Return => {},
                OpCode::Constant => {
                    if ip + 1 < code.len() {
                        let ci = code[ip as int + 1];
                        if (ci as int) < consts.len() && stack.len() < max {
                            lemma_vm_stack_bound(
                                code,
                                consts,
                                stack.push(consts[ci as int]),
                                ip + 2,
                                max,
                            );
                        }
                    }
                },
                OpCode::Negate => {
                    if stack.len() > 0 {
                        match spec_vm_neg(stack.last()) {
                            Ok(v) => {
                                if stack.drop_last().len() < max {
                                    lemma_vm_stack_bound(
                                        code,
                                        consts,
                                        stack.drop_last().push(v),
                                        ip + 1,
                                        max,
                                    );
                                }
                            },
                            Err(_) => {},
                        }
                    }
                },
                OpCode::Add => lemma_vm_stack_bound_binary(code, consts, stack, ip, max, op),
                OpCode::Subtract => lemma_vm_stack_bound_binary(code, consts, stack, ip, max, op),
                OpCode::Multiply => lemma_vm_stack_bound_binary(code, consts, stack, ip, max, op),
                OpCode::Divide => lemma_vm_stack_bound_binary(code, consts, stack, ip, max, op),
            },
        }
    }
}

/// The stack bound carried through one arithmetic instruction.
proof fn lemma_vm_stack_bound_binary(
    code: Seq<u8>,
    consts: Seq<ValueView>,
    stack: Seq<ValueView>,
    ip: nat,
    max: nat,
    op: OpCode,
)
    requires
        stack.len() <= max,
        op == OpCode::Add || op == OpCode::Subtract || op == OpCode::Multiply || op
            == OpCode::Divide,
    ensures
        spec_vm_run_binary(code, consts, stack, ip, max, op) matches Ok(res) ==> res.1.len()
            <= max,
    decreases code.len() - ip, 0int,
{
    reveal_with_fuel(spec_vm_run, 2);
    reveal_with_fuel(spec_vm_run_binary, 2);
    if ip < code.len() && stack.len() >= 2 {
        let bv = stack.last();
        let av = stack[stack.len() - 2];
        let applied = if op == OpCode::Add {
            spec_vm_add(av, bv)
        } else if op == OpCode::Subtract {
            spec_vm_sub(av, bv)
        } else if op == OpCode::Multiply {
            spec_vm_mul(av, bv)
        } else {
            spec_vm_div(av, bv)
        };
        match applied {
            Ok(v) => {
                let s2 = stack.drop_last().drop_last();
                if s2.len() < max {
                    lemma_vm_stack_bound(code, consts, s2.push(v), ip + 1, max);
                }
            },
            Err(_) => {},
        }
    }
}

} // verus!
