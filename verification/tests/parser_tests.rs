use lox::expr::Expr;
use lox::num::Num;
use lox::parser::Parser;
use lox::stmt::Stmt;
use lox::token::Token;

fn number(i: i64) -> Num {
    Num::from_i64(i).unwrap()
}

#[test]
fn test_primary() {
    let tokens = vec![Token::NumberLiteral(number(1)), Token::Semicolon];

    let mut parser = Parser::new(tokens);

    let statements = parser.parse().unwrap();

    assert_eq!(statements.len(), 1);

    assert_eq!(
        statements[0],
        Stmt::Expr(Box::new(Expr::LiteralNumber(number(1))))
    );
}

#[test]
fn test_unary() {
    let tokens = vec![Token::Minus, Token::NumberLiteral(number(1)), Token::Semicolon];

    let mut parser = Parser::new(tokens);

    let statements = parser.parse().unwrap();

    assert_eq!(statements.len(), 1);

    assert_eq!(
        statements[0],
        Stmt::Expr(Box::new(Expr::UnaryMinus(Box::new(Expr::LiteralNumber(
            number(1)
        )))))
    );
}

#[test]
fn test_binary_add() {
    let tokens = vec![
        Token::NumberLiteral(number(1)),
        Token::Plus,
        Token::NumberLiteral(number(2)),
        Token::Semicolon,
    ];

    let mut parser = Parser::new(tokens);

    let statements = parser.parse().unwrap();

    assert_eq!(statements.len(), 1);

    assert_eq!(
        statements[0],
        Stmt::Expr(Box::new(Expr::BinaryAdd(
            Box::new(Expr::LiteralNumber(number(1))),
            Box::new(Expr::LiteralNumber(number(2)))
        )))
    );
}

#[test]
fn test_binary_add_div() {
    let tokens = vec![
        Token::NumberLiteral(number(1)),
        Token::Plus,
        Token::NumberLiteral(number(2)),
        Token::Slash,
        Token::NumberLiteral(number(3)),
        Token::Semicolon,
    ];

    let mut parser = Parser::new(tokens);

    let statements = parser.parse().unwrap();

    assert_eq!(statements.len(), 1);

    assert_eq!(
        statements[0],
        Stmt::Expr(Box::new(Expr::BinaryAdd(
            Box::new(Expr::LiteralNumber(number(1))),
            Box::new(Expr::BinaryDiv(
                Box::new(Expr::LiteralNumber(number(2))),
                Box::new(Expr::LiteralNumber(number(3)))
            ))
        )))
    );
}

#[test]
fn parse_rejects_invalid_assignment_target() {
    let tokens = vec![
        Token::NumberLiteral(number(1)),
        Token::Equal,
        Token::NumberLiteral(number(2)),
        Token::Semicolon,
    ];
    let mut parser = Parser::new(tokens);
    let err = parser.parse().unwrap_err();
    assert_eq!(err.to_string(), "Invalid assignment target.");
}

#[test]
fn parse_rejects_missing_semicolon() {
    let tokens = vec![Token::Print, Token::NumberLiteral(number(1)), Token::Eof];
    let mut parser = Parser::new(tokens);
    let err = parser.parse().unwrap_err();
    assert_eq!(err.to_string(), "Expected ';' after expression.");
}

#[test]
fn parse_rejects_missing_block_close() {
    let tokens = vec![Token::LeftBrace, Token::Eof];
    let mut parser = Parser::new(tokens);
    let err = parser.parse().unwrap_err();
    assert_eq!(err.to_string(), "Expected '}' after block.");
}
