use lox::parser::Parser;
use lox::resolver::Resolver;
use lox::scanner::Scanner;

#[test]
fn test_resolver() {
    let source = r#"
            var a = "global";
            {
                var b = "variable b";
                print "before fun declaration: " + b;

                fun showA() {

                    print "------------------";
                    print "start showA";
                    print a;
                    print b;
                    print "end showA";
                    print "------------------";
                }

                showA();
                var a = "block";
                showA();

                print "block a: " + a;
            }
        "#;

    let mut scanner = Scanner::new(source.to_string());
    let tokens = scanner.scan_tokens().unwrap();

    let mut parser = Parser::new(tokens);
    let statements = parser.parse().unwrap();

    println!("Resolver: executing statements: {}", statements.len());
    let mut resolver = Resolver::new();
    let resolver_map = resolver.resolve(&statements).unwrap();

    println!("Resolver map size: {}", resolver_map.len());
    assert!(resolver_map.len() > 0);
}

#[test]
fn resolver_is_idempotent() {
    let source = "var a = 1; { var b = a; { print b; print a; } }";
    let mut scanner = Scanner::new(source.to_string());
    let tokens = scanner.scan_tokens().unwrap();
    let mut parser = Parser::new(tokens);
    let statements = parser.parse().unwrap();

    let mut resolver = Resolver::new();
    let first = resolver.resolve(&statements).unwrap();
    let second = resolver.resolve(&statements).unwrap();

    assert_eq!(first.len(), second.len());
    for i in 0..first.len() {
        assert_eq!(first.entry_at(i), second.entry_at(i));
    }
}

#[test]
fn resolver_rejects_read_in_own_initializer() {
    let source = "{ var a = 1; { var a = a; } }";
    let mut scanner = Scanner::new(source.to_string());
    let tokens = scanner.scan_tokens().unwrap();
    let mut parser = Parser::new(tokens);
    let statements = parser.parse().unwrap();

    let mut resolver = Resolver::new();
    let err = resolver.resolve(&statements).unwrap_err();
    assert_eq!(err, "cannot read local variable \"a\" in its own initializer.");
}

#[test]
fn resolver_leaves_globals_unmapped() {
    let source = "var a = 1; print a;";
    let mut scanner = Scanner::new(source.to_string());
    let tokens = scanner.scan_tokens().unwrap();
    let mut parser = Parser::new(tokens);
    let statements = parser.parse().unwrap();

    let mut resolver = Resolver::new();
    let map = resolver.resolve(&statements).unwrap();
    assert_eq!(map.len(), 0);
}
