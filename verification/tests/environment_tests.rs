use lox::environment::EnvironmentImpl;
use lox::num::Num;
use lox::value::Value;

fn number(i: i64) -> Value {
    Value::Number(Num::from_i64(i).unwrap())
}

#[test]
fn test_value_allocation() {
    let mut env = EnvironmentImpl::new();

    env.define_variable("a", number(1));

    let a1 = env.get_variable("a").expect("Variable 'a' not found");
    env.write_cell(a1, number(2));

    let a2 = env.get_variable("a").expect("Variable 'a' not found");
    env.write_cell(a2, number(3));

    // Both lookups name the same cell, so the second write is seen through
    // the first handle.
    assert_eq!(*env.read_cell(a1), number(3));
    assert_eq!(a1, a2);
}

#[test]
fn test_concurrent_access() {
    let mut env = EnvironmentImpl::new();

    env.define_variable("a", number(1));

    let a1 = env.get_variable("a").expect("Variable not found: a");
    assert_eq!(*env.read_cell(a1), number(1));

    let a2 = env.get_variable("a").expect("Variable not found: a");

    let partial = match env.read_cell(a1) {
        Value::Number(n) => Num::from_mantissa(n.mantissa + 1_000_000),
        _ => Num::from_i64(0).unwrap(),
    };

    env.write_cell(a2, Value::Number(partial));

    assert_eq!(*env.read_cell(a1), number(2));
}

#[test]
fn shadowing_and_frames() {
    let mut env = EnvironmentImpl::new();
    env.define_variable("a", number(1));
    env.push_stack();
    env.define_variable("a", number(2));
    let inner = env.get_variable("a").unwrap();
    assert_eq!(*env.read_cell(inner), number(2));
    assert_eq!(env.depth(), 1);
    env.pop_stack();
    assert_eq!(env.depth(), 0);
    let outer = env.get_variable("a").unwrap();
    assert_eq!(*env.read_cell(outer), number(1));
}

#[test]
fn get_variable_at_reaches_globals() {
    let mut env = EnvironmentImpl::new();
    env.define_variable("g", number(7));
    env.push_stack();
    env.define_variable("l", number(8));
    // Distance 1 from the one pushed frame is the globals.
    let g = env.get_variable_at("g", 1).unwrap();
    assert_eq!(*env.read_cell(g), number(7));
    let l = env.get_variable_at("l", 0).unwrap();
    assert_eq!(*env.read_cell(l), number(8));
    assert_eq!(env.get_variable_at("g", 2), None);
}
