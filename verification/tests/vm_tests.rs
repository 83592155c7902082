use lox::num::Num;
use lox::vm::chunk::Chunk;
use lox::vm::disassembler::{disassemble_chunk, dissasemble_instruction};
use lox::vm::error::RuntimeError;
use lox::vm::opcodes::OpCode;
use lox::vm::value::Value;
use lox::vm::vm::{VirtualMachine, VirtualMachineImpl};

fn number(i: i64) -> Value {
    Value::Number(Num::from_i64(i).unwrap())
}

#[test]
fn test_run_valid_chunk() {
    let mut vm = VirtualMachineImpl::new();
    // Load one constant, then return it.
    let chunk = Chunk {
        code: vec![0x00, 0x00, 0x01],
        constants: vec![number(42)],
    };

    assert!(vm.run(&chunk).is_ok());
}

#[test]
fn test_run_invalid_instruction() {
    let mut vm = VirtualMachineImpl::new();
    let chunk = Chunk {
        code: vec![0xFF],
        constants: vec![],
    };

    let result = vm.run(&chunk);
    assert!(result.is_err());
    assert_eq!(result.unwrap_err(), RuntimeError::InvalidInstruction(0xFF));
}

#[test]
fn test_chunk_with_constants() {
    let mut vm = VirtualMachineImpl::new();
    vm.state.tracing = true;
    let chunk = Chunk {
        code: vec![0x00, 0x00, 0x00, 0x01, 0x01],
        constants: vec![number(42), Value::Number(Num::from_mantissa(3_140_000))],
    };

    assert!(vm.run(&chunk).is_ok());
    // Each traced step records the stack contents and the instruction.
    assert_eq!(vm.state.trace.len(), 6);
    assert_eq!(vm.state.trace[0], "STACK: 0
");
    assert_eq!(vm.state.trace[2], "STACK: 1
  0: 42
");
}

#[test]
fn add_chunk_returns_sum() {
    let mut vm = VirtualMachineImpl::new();
    // CONSTANT 0, CONSTANT 1, ADD, RETURN over 1.5 and 2.5.
    let chunk = Chunk {
        code: vec![0x00, 0x00, 0x00, 0x01, 0x03, 0x01],
        constants: vec![
            Value::Number(Num::from_mantissa(1_500_000)),
            Value::Number(Num::from_mantissa(2_500_000)),
        ],
    };
    assert_eq!(vm.run(&chunk).unwrap(), number(4));
}

#[test]
fn negate_and_divide() {
    let mut vm = VirtualMachineImpl::new();
    // -(10 / 4) == -2.5
    let chunk = Chunk {
        code: vec![0x00, 0x00, 0x00, 0x01, 0x06, 0x02, 0x01],
        constants: vec![number(10), number(4)],
    };
    assert_eq!(
        vm.run(&chunk).unwrap(),
        Value::Number(Num::from_mantissa(-2_500_000))
    );
}

#[test]
fn division_by_zero_is_an_error() {
    let mut vm = VirtualMachineImpl::new();
    let chunk = Chunk {
        code: vec![0x00, 0x00, 0x00, 0x01, 0x06, 0x01],
        constants: vec![number(1), number(0)],
    };
    let err = vm.run(&chunk).unwrap_err();
    assert_eq!(err, RuntimeError::RuntimeError(String::from("Division by zero")));
}

#[test]
fn pop_of_empty_stack_underflows() {
    let mut vm = VirtualMachineImpl::new();
    let chunk = Chunk {
        code: vec![0x01],
        constants: vec![],
    };
    assert_eq!(vm.run(&chunk).unwrap_err(), RuntimeError::StackUnderflow);
}

#[test]
fn instruction_pointer_out_of_bounds() {
    let mut vm = VirtualMachineImpl::new();
    // One constant load and then the code ends without a return.
    let chunk = Chunk {
        code: vec![0x00, 0x00],
        constants: vec![number(1)],
    };
    assert_eq!(
        vm.run(&chunk).unwrap_err(),
        RuntimeError::InstructionPointerOutOfBounds(2, 2)
    );
}

#[test]
fn push_at_the_bound_fails_cleanly() {
    let mut vm = VirtualMachineImpl::new();
    // 257 constant loads overrun the default capacity of 256.
    let mut code: Vec<u8> = Vec::new();
    for _ in 0..257 {
        code.push(0x00);
        code.push(0x00);
    }
    code.push(0x01);
    let chunk = Chunk {
        code,
        constants: vec![number(1)],
    };
    assert_eq!(vm.run(&chunk).unwrap_err(), RuntimeError::StackOverflow(256));
}

#[test]
fn test_disassemble_chunk() {
    let chunk = Chunk {
        code: vec![0x00, 0x00, 0x00, 0x01, 0x01],
        constants: vec![number(42), Value::Number(Num::from_mantissa(3_140_000))],
    };

    let disassembled = disassemble_chunk(&chunk).unwrap();
    println!("{disassembled}");
    assert_eq!(
        disassembled,
        "0000 CONSTANT   000 : 42\n0002 CONSTANT   001 : 3.14\n0004 RETURN    \n"
    );
}

#[test]
fn disassemble_single_instruction() {
    let chunk = Chunk {
        code: vec![0x03],
        constants: vec![],
    };
    let (text, offset) = dissasemble_instruction(&chunk, 0).unwrap();
    assert_eq!(text, "0000 ADD       \n");
    assert_eq!(offset, 1);
}

#[test]
fn arithmetic_overflow_has_its_own_message() {
    let mut vm = VirtualMachineImpl::new();
    let chunk = Chunk {
        code: vec![0x00, 0x00, 0x00, 0x00, 0x03, 0x01],
        constants: vec![Value::Number(Num::from_mantissa(i64::MAX))],
    };
    assert_eq!(
        vm.run(&chunk).unwrap_err(),
        RuntimeError::RuntimeError(String::from(
            "Arithmetic left the representable number range"
        ))
    );
}

#[test]
fn opcode_bytes_round_trip() {
    let ops = vec![
        OpCode::Constant,
        OpCode::Return,
        OpCode::Negate,
        OpCode::Add,
        OpCode::Subtract,
        OpCode::Multiply,
        OpCode::Divide,
    ];
    for op in ops {
        assert_eq!(OpCode::try_from(&op.as_byte()).unwrap(), op);
    }
}

#[test]
fn vm_value_arithmetic_rules() {
    assert!(Value::Nil.add(number(1)).is_err());
    assert_eq!(number(2).mul(number(3)).unwrap(), number(6));
    assert_eq!(number(5).sub(number(7)).unwrap(), number(-2));
    assert_eq!(number(5).neg().unwrap(), number(-5));
    assert!(Value::Boolean(true).neg().is_err());
}
