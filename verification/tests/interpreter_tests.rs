use lox::interpreter::{EvalError, Interpreter, InterpretError};
use lox::num::Num;
use lox::value::Value;

fn number(i: i64) -> Value {
    Value::Number(Num::from_i64(i).unwrap())
}

fn run(source: &str) -> Result<Value, InterpretError> {
    let mut interpreter = Interpreter::new();
    interpreter.execute(source.to_string())
}

#[test]
fn scenario_addition() {
    assert_eq!(run("1 + 2;").unwrap(), number(3));
}

#[test]
fn scenario_arithmetic_grouping() {
    assert_eq!(run("(2 + 3) * (2 * 2);").unwrap(), number(20));
}

#[test]
fn scenario_nil_equality() {
    assert_eq!(run("nil == nil;").unwrap(), Value::Boolean(true));
}

#[test]
fn scenario_string_equality() {
    assert_eq!(run("\"hi\" == \"hi\";").unwrap(), Value::Boolean(true));
}

#[test]
fn scenario_assignment() {
    assert_eq!(run("var a = 1; a = a + 1; a;").unwrap(), number(2));
}

#[test]
fn scenario_shadowing_prints() {
    let mut interpreter = Interpreter::new();
    let source = "var a = \"outer\"; { var a = \"inner\"; print a; } print a;";
    interpreter.execute(source.to_string()).unwrap();
    let out = interpreter.get_output();
    assert_eq!(out.len(), 2);
    assert_eq!(out[0], "inner");
    assert_eq!(out[1], "outer");
}

#[test]
fn scenario_function_call_prints() {
    let mut interpreter = Interpreter::new();
    let source = "fun f(x, y) { print x + y; } f(2, 3);";
    interpreter.execute(source.to_string()).unwrap();
    let out = interpreter.get_output();
    assert_eq!(out.len(), 1);
    assert_eq!(out[0], "5");
}

#[test]
fn or_short_circuits_left_truthy() {
    let mut interpreter = Interpreter::new();
    let source = "var called = false; fun mark() { called = true; print \"ran\"; } true or mark(); called;";
    let result = interpreter.execute(source.to_string()).unwrap();
    assert_eq!(result, Value::Boolean(false));
    assert_eq!(interpreter.get_output().len(), 0);
}

#[test]
fn or_evaluates_right_when_left_falsy() {
    let mut interpreter = Interpreter::new();
    let source = "var called = false; fun mark() { called = true; } false or mark(); called;";
    let result = interpreter.execute(source.to_string()).unwrap();
    assert_eq!(result, Value::Boolean(true));
}

#[test]
fn and_short_circuits_left_falsy() {
    let mut interpreter = Interpreter::new();
    let source = "var called = false; fun mark() { called = true; } false and mark(); called;";
    let result = interpreter.execute(source.to_string()).unwrap();
    assert_eq!(result, Value::Boolean(false));
}

#[test]
fn call_arity_mismatch_never_runs_body() {
    let mut interpreter = Interpreter::new();
    let source = "fun f(x) { print x; } f(1, 2);";
    let result = interpreter.execute(source.to_string());
    assert!(matches!(
        result,
        Err(InterpretError::Eval(EvalError::ArityMismatch))
    ));
    assert_eq!(interpreter.get_output().len(), 0);
}

#[test]
fn while_loop_counts() {
    let mut interpreter = Interpreter::new();
    let source = "var i = 0; while (i < 3) { print i; i = i + 1; } i;";
    let result = interpreter.execute(source.to_string()).unwrap();
    assert_eq!(result, number(3));
    let out = interpreter.get_output();
    assert_eq!(out.len(), 3);
    assert_eq!(out[0], "0");
    assert_eq!(out[2], "2");
}

#[test]
fn if_else_branches() {
    assert_eq!(run("var a = 0; if (1 < 2) a = 10; else a = 20; a;").unwrap(), number(10));
    assert_eq!(run("var a = 0; if (2 < 1) a = 10; else a = 20; a;").unwrap(), number(20));
}

#[test]
fn string_concatenation_with_number() {
    let mut interpreter = Interpreter::new();
    interpreter.execute("print \"n=\" + 2.5;".to_string()).unwrap();
    assert_eq!(interpreter.get_output()[0], "n=2.5");
}

#[test]
fn assignment_is_right_associative() {
    let mut interpreter = Interpreter::new();
    let source = "var a = 1; var b = 2; a = b = 3; a + b;";
    let result = interpreter.execute(source.to_string()).unwrap();
    assert_eq!(result, number(6));
}

#[test]
fn string_concatenation_with_any_partner() {
    assert_eq!(
        run("\"hi\" + true;").unwrap(),
        Value::String(String::from("hitrue"))
    );
    assert_eq!(
        run("nil + \"!\";").unwrap(),
        Value::String(String::from("nil!"))
    );
    let mut interpreter = Interpreter::new();
    let source = "fun g() { print 1; } \"v=\" + g;";
    let result = interpreter.execute(source.to_string()).unwrap();
    assert_eq!(result, Value::String(String::from("v=<callable> <fn g>")));
}

#[test]
fn string_ordering() {
    assert_eq!(run("\"abc\" < \"abd\";").unwrap(), Value::Boolean(true));
    assert_eq!(run("\"b\" <= \"a\";").unwrap(), Value::Boolean(false));
}

#[test]
fn undefined_variable_errors() {
    let result = run("missing;");
    assert!(matches!(
        result,
        Err(InterpretError::Eval(EvalError::UndefinedVariable(_)))
    ));
}

#[test]
fn division_by_zero_errors() {
    assert!(matches!(
        run("1 / 0;"),
        Err(InterpretError::Eval(EvalError::DivisionByZero))
    ));
}

#[test]
fn type_mismatch_errors() {
    assert!(matches!(
        run("1 - nil;"),
        Err(InterpretError::Eval(EvalError::TypeMismatch(_)))
    ));
    assert!(matches!(
        run("!1;"),
        Err(InterpretError::Eval(EvalError::TypeMismatch(_)))
    ));
}

#[test]
fn calling_a_non_function_errors() {
    assert!(matches!(
        run("var a = 1; a();"),
        Err(InterpretError::Eval(EvalError::NotCallable))
    ));
}

#[test]
fn numeric_overflow_errors() {
    // The largest representable mantissa plus one unit.
    assert!(matches!(
        run("9223372036854.775807 + 0.000001;"),
        Err(InterpretError::Eval(EvalError::NumericOverflow))
    ));
}

#[test]
fn scan_and_parse_errors_surface() {
    assert!(matches!(run("\"open"), Err(InterpretError::Scan(_))));
    assert!(matches!(run("print 1"), Err(InterpretError::Parse(_))));
    assert!(matches!(
        run("{ var a = 1; { var a = a; } }"),
        Err(InterpretError::Resolve(_))
    ));
}

#[test]
fn globals_persist_across_runs() {
    let mut interpreter = Interpreter::new();
    interpreter.execute("var a = 41;".to_string()).unwrap();
    let result = interpreter.execute("a + 1;".to_string()).unwrap();
    assert_eq!(result, number(42));
}

#[test]
fn error_messages_are_readable() {
    let err = run("missing;").unwrap_err();
    assert_eq!(err.message(), "Undefined variable 'missing'");
    let err = run("1 / 0;").unwrap_err();
    assert_eq!(err.message(), "Division by zero");
}
