use lox::location::FileLocation;
use lox::parser::parse;
use lox::reporter::Collector;
use lox::resolver::{resolve, Scopes};
use lox::scanner::scan_tokens;
use lox::token::{Token, TokenType};

fn name(lexeme: &str) -> Token {
    let blank_location = FileLocation::new(0, 0);
    Token::new(
        TokenType::Identifier,
        lexeme,
        blank_location,
        blank_location,
        None,
    )
}

#[test]
fn test_global_scope() {
    let mut scopes = Scopes::new();
    let name = name("a");

    let res = scopes.declare(&name);
    assert!(res.is_ok(), "Unexpected failure declaring 'name'");

    let res = scopes.is_declared_in_current_scope(&name.lexeme);
    assert!(!res, "Unexpected failure testing declartion of 'name'");

    scopes.define(&name.lexeme);

    let res = scopes.is_declared_in_current_scope(&name.lexeme);
    assert!(!res, "Unexpected failure testing definition of 'name'");

    let res = scopes.find_depth(&name.lexeme);
    assert_eq!(res, None, "Unexpected failure testing depth of 'name'");
}

#[test]
fn test_declare_define() {
    let mut scopes = Scopes::new();
    let name = name("a");

    scopes.begin();

    let res = scopes.declare(&name);
    assert!(res.is_ok(), "Unexpected failure declaring 'name'");

    let res = scopes.is_declared_in_current_scope(&name.lexeme);
    assert!(res, "Unexpected failure testing declartion of 'name'");

    scopes.define(&name.lexeme);

    let res = scopes.is_declared_in_current_scope(&name.lexeme);
    assert!(!res, "Unexpected failure testing definition of 'name'");

    let res = scopes.find_depth(&name.lexeme);
    assert_eq!(res, Some(0), "Unexpected failure testing depth of 'name'");
}

#[test]
fn test_depth() {
    let mut scopes = Scopes::new();
    let name_global = name("global");
    let name_first = name("first");
    let name_second = name("second");

    let res = scopes.declare(&name_global);
    assert!(res.is_ok(), "Unexpected failure declaring 'global'");

    scopes.begin();

    let res = scopes.declare(&name_first);
    assert!(res.is_ok(), "Unexpected failure declaring 'first'");
    assert_eq!(scopes.find_depth(&name_global.lexeme), None);
    assert_eq!(scopes.find_depth(&name_first.lexeme), Some(0));

    scopes.begin();

    let res = scopes.declare(&name_second);
    assert!(res.is_ok(), "Unexpected failure declaring 'second'");
    assert_eq!(scopes.find_depth(&name_global.lexeme), None);
    assert_eq!(scopes.find_depth(&name_first.lexeme), Some(1));
    assert_eq!(scopes.find_depth(&name_second.lexeme), Some(0));

    scopes.end();

    assert_eq!(scopes.find_depth(&name_global.lexeme), None);
    assert_eq!(scopes.find_depth(&name_first.lexeme), Some(0));
    assert_eq!(scopes.find_depth(&name_second.lexeme), None);

    scopes.end();

    assert_eq!(scopes.find_depth(&name_global.lexeme), None);
    assert_eq!(scopes.find_depth(&name_first.lexeme), None);
    assert_eq!(scopes.find_depth(&name_second.lexeme), None);
}

#[test]
fn test_errors() {
    let tests = vec![
        (
            "{ var a = 1; var a = 2; }",
            "Already a variable with the name 'a' is in scope",
        ),
        (
            "fun broken(a, a) {}",
            "Already a variable with the name 'a' is in scope",
        ),
        (
            "fun broken(a) { var a ; }",
            "Already a variable with the name 'a' is in scope",
        ),
        (
            "fun broken(a) { var b = 1 ; var b = 2; }",
            "Already a variable with the name 'b' is in scope",
        ),
        (
            "{ var a = a; }",
            "Cannot read local variable in its own initialiser",
        ),
        ("return false;", "Cannot return from top-level code"),
        (
            "class Example { init() { return 10; } }",
            "Cannot return a value from an initialiser",
        ),
        (
            "class Example < Example { }",
            "A class cannot inherit from itself",
        ),
        ("print this;", "Cannot use 'this' outside of a class"),
        (
            "print super.method;",
            "Cannot use 'super' outside of a class",
        ),
        (
            "class Example { error() { return super.bob; } }",
            "Cannot use 'super' in a class with no superclass",
        ),
    ];

    let mut reporter = Collector::new();
    for (src, expected_diagnostic) in tests {
        let tokens = scan_tokens(&mut reporter, src);
        let statements = parse(&mut reporter, tokens);
        reporter.reset();
        let _ = resolve(&mut reporter, &statements);
        assert!(
            reporter.has_diagnostic(expected_diagnostic),
            "Missing diagnostic '{}' for '{}'",
            expected_diagnostic,
            src
        );
    }
}

#[test]
fn local_variables_resolve_to_their_depth() {
    let mut reporter = Collector::new();
    let tokens = scan_tokens(&mut reporter, "{ var a = 1; { print a; } }");
    let statements = parse(&mut reporter, tokens);
    let depths = resolve(&mut reporter, &statements);
    assert!(reporter.reports.is_empty());
    assert_eq!(depths.len(), 1);
    assert_eq!(depths.values().copied().collect::<Vec<usize>>(), vec![1]);
}

#[test]
fn globals_are_not_resolved() {
    let mut reporter = Collector::new();
    let tokens = scan_tokens(&mut reporter, "var a = 1; print a;");
    let statements = parse(&mut reporter, tokens);
    let depths = resolve(&mut reporter, &statements);
    assert!(depths.is_empty());
}
