use lox::parser::Parser;
use lox::printer::AstPrinter;
use lox::scanner::Scanner;

fn print_first(source: &str) -> String {
    let mut scanner = Scanner::new(source.to_string());
    let tokens = scanner.scan_tokens().unwrap();
    let mut parser = Parser::new(tokens);
    let statements = parser.parse().unwrap();
    assert_eq!(statements.len(), 1);
    let printer = AstPrinter {};
    printer.print_stmt(&statements[0])
}

#[test]
fn printer_shows_call() {
    assert_eq!(print_first("say_hello();"), "{call say_hello()}");
}

#[test]
fn printer_preserves_precedence() {
    // Division binds tighter than addition, and grouping overrides it.
    assert_eq!(print_first("1.0 + 2.0 / 3.0;"), "{1 + {2 / 3}}");
    assert_eq!(print_first("(1.0 + 2.0) / 3.0;"), "{{1 + 2} / 3}");
}

#[test]
fn printer_preserves_associativity() {
    assert_eq!(print_first("1 - 2 - 3;"), "{{1 - 2} - 3}");
}

#[test]
fn printer_literals_and_var() {
    assert_eq!(print_first("nil;"), "nil");
    assert_eq!(print_first("\"my literal\";"), "\"my literal\"");
    assert_eq!(print_first("var a = 2 + 2;"), "{var a = {2 + 2}}");
}

#[test]
fn printer_statements() {
    assert_eq!(print_first("print 1;"), "{print 1}");
    assert_eq!(print_first("{ 1; 2; }"), "{12}");
    assert_eq!(print_first("while (a) print a;"), "{while a then {print a}}");
}
