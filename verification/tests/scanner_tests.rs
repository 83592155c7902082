use lox::num::Num;
use lox::scanner::{ScanError, Scanner};
use lox::token::Token;

#[test]
fn test_scan_tokens() {
    let source = String::from("+-*/=*-");

    let mut scanner = Scanner::new(source);
    let tokens_result = scanner.scan_tokens();

    assert!(tokens_result.is_ok());

    let tokens = tokens_result.unwrap();

    let expected_tokens = vec![
        Token::Plus,
        Token::Minus,
        Token::Star,
        Token::Slash,
        Token::Equal,
        Token::Star,
        Token::Minus,
        Token::Eof,
    ];

    assert_eq!(tokens.len(), expected_tokens.len());

    for (computed, expected) in tokens.iter().zip(expected_tokens.iter()) {
        assert_eq!(computed, expected);
    }
}

#[test]
fn scan_two_character_operators() {
    let mut scanner = Scanner::new(String::from("== != <= >= < > ! ="));
    let tokens = scanner.scan_tokens().unwrap();
    let expected = vec![
        Token::EqualEqual,
        Token::BangEqual,
        Token::LessEqual,
        Token::GreaterEqual,
        Token::Less,
        Token::Greater,
        Token::Bang,
        Token::Equal,
        Token::Eof,
    ];
    assert_eq!(tokens, expected);
}

#[test]
fn scan_keywords_identifiers_and_literals() {
    let mut scanner = Scanner::new(String::from("var x1 = \"hi\"; print 2.5;"));
    let tokens = scanner.scan_tokens().unwrap();
    let expected = vec![
        Token::Var,
        Token::Identifier(String::from("x1")),
        Token::Equal,
        Token::StringLiteral(String::from("hi")),
        Token::Semicolon,
        Token::Print,
        Token::NumberLiteral(Num::from_mantissa(2_500_000)),
        Token::Semicolon,
        Token::Eof,
    ];
    assert_eq!(tokens, expected);
}

#[test]
fn scan_skips_line_comments() {
    let mut scanner = Scanner::new(String::from("1 // ignored to the end\n+ 2"));
    let tokens = scanner.scan_tokens().unwrap();
    let expected = vec![
        Token::NumberLiteral(Num::from_mantissa(1_000_000)),
        Token::Plus,
        Token::NumberLiteral(Num::from_mantissa(2_000_000)),
        Token::Eof,
    ];
    assert_eq!(tokens, expected);
}

#[test]
fn scan_rejects_unterminated_string() {
    let mut scanner = Scanner::new(String::from("\"abc"));
    assert_eq!(scanner.scan_tokens().unwrap_err(), ScanError::UnterminatedString);
}

#[test]
fn scan_rejects_two_decimal_points() {
    let mut scanner = Scanner::new(String::from("1.2.3"));
    assert_eq!(scanner.scan_tokens().unwrap_err(), ScanError::MalformedNumber);
}

#[test]
fn scan_rejects_non_ascii() {
    let mut scanner = Scanner::new(String::from("caf\u{e9}"));
    assert_eq!(scanner.scan_tokens().unwrap_err(), ScanError::NonAscii);
}

#[test]
fn scan_emits_dot() {
    let mut scanner = Scanner::new(String::from("."));
    assert_eq!(scanner.scan_tokens().unwrap(), vec![Token::Dot, Token::Eof]);

    let mut scanner = Scanner::new(String::from("x.y"));
    assert_eq!(
        scanner.scan_tokens().unwrap(),
        vec![
            Token::Identifier(String::from("x")),
            Token::Dot,
            Token::Identifier(String::from("y")),
            Token::Eof,
        ]
    );
}

#[test]
fn token_spellings_parse_back() {
    assert_eq!(Token::try_from("+").unwrap(), Token::Plus);
    assert_eq!(Token::try_from(".").unwrap(), Token::Dot);
    assert_eq!(Token::try_from("kw:while").unwrap(), Token::While);
    assert_eq!(
        Token::try_from("\"hi\"").unwrap(),
        Token::StringLiteral(String::from("hi"))
    );
    assert_eq!(
        Token::try_from("1.5").unwrap(),
        Token::NumberLiteral(Num::from_mantissa(1_500_000))
    );
    assert_eq!(
        Token::try_from("foo_1").unwrap(),
        Token::Identifier(String::from("foo_1"))
    );
    assert_eq!(
        Token::try_from("\"open").unwrap_err(),
        "String literal not closed: \"open"
    );
    assert_eq!(
        Token::try_from("@@").unwrap_err(),
        "Unknown token: len: 2 : @@"
    );
}

#[test]
fn token_text_round() {
    assert_eq!(Token::LeftParenthesis.text(), "(");
    assert_eq!(Token::While.text(), "while");
    assert_eq!(Token::StringLiteral(String::from("ab")).text(), "\"ab\"");
    assert_eq!(Token::NumberLiteral(Num::from_mantissa(1_500_000)).text(), "1.5");
    assert_eq!(Token::Eof.text(), "");
}
