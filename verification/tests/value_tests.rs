use lox::expr::Expr;
use lox::num::Num;
use lox::value::Value;

fn number(i: i64) -> Num {
    Num::from_i64(i).unwrap()
}

#[test]
fn test_value_truthiness() {
    // Only nil and false are falsy; zero and the empty string count as true.
    let value = Value::Number(number(0));
    assert_eq!(value.is_truthy(), true);

    let value = Value::Number(number(1));
    assert_eq!(value.is_truthy(), true);

    let value = Value::String(String::new());
    assert_eq!(value.is_truthy(), true);

    let value = Value::String(String::from("Hello"));
    assert_eq!(value.is_truthy(), true);

    let value = Value::Boolean(false);
    assert_eq!(value.is_truthy(), false);

    let value = Value::Boolean(true);
    assert_eq!(value.is_truthy(), true);

    let value = Value::Nil;
    assert_eq!(value.is_truthy(), false);
}

#[test]
fn test_partial_eq_number() {
    let expr1 = Expr::LiteralNumber(number(1));
    let expr2 = Expr::LiteralNumber(number(1));
    assert_eq!(expr1, expr2);
}

#[test]
fn test_partial_eq_string_literal() {
    let expr1 = Expr::LiteralString(String::from("hello"));
    let expr2 = Expr::LiteralString(String::from("hello"));
    assert_eq!(expr1, expr2);
}

#[test]
fn test_partial_eq_binary_add() {
    let expr1 = Expr::BinaryAdd(
        Box::new(Expr::LiteralNumber(number(1))),
        Box::new(Expr::LiteralNumber(number(2))),
    );
    let expr2 = Expr::BinaryAdd(
        Box::new(Expr::LiteralNumber(number(1))),
        Box::new(Expr::LiteralNumber(number(2))),
    );
    assert_eq!(expr1, expr2);
}

#[test]
fn value_equality_rules() {
    assert!(Value::Nil.equals(&Value::Nil));
    assert!(Value::Number(number(2)).equals(&Value::Number(number(2))));
    assert!(!Value::Number(number(2)).equals(&Value::Number(number(3))));
    assert!(Value::String(String::from("a")).equals(&Value::String(String::from("a"))));
    assert!(!Value::Number(number(0)).equals(&Value::Nil));
    assert!(!Value::Boolean(false).equals(&Value::Nil));
}

#[test]
fn value_text_forms() {
    assert_eq!(Value::Number(number(5)).to_text(), "5");
    assert_eq!(Value::Number(Num::from_mantissa(-1_500_000)).to_text(), "-1.5");
    assert_eq!(Value::String(String::from("hi")).to_text(), "hi");
    assert_eq!(Value::Boolean(true).to_text(), "true");
    assert_eq!(Value::Nil.to_text(), "nil");
}
