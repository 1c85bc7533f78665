use lox::ast_printer::print_stmt;
use lox::parser::{parse, parse_allow_invalid_call, Parser};
use lox::TokenType;
use lox::reporter::{Collector, Report, Reporter};
use lox::scanner::scan_tokens;

fn first_diagnostic(reporter: &Collector) -> Option<String> {
    reporter.reports.iter().find_map(|r| match r {
        Report::Diagnostic { message, .. } => Some(message.clone()),
        Report::Message { .. } => None,
    })
}

fn check_productions(tests: Vec<(&str, &str)>, allow_invalid_call: bool) {
    let mut reporter = Collector::new();
    for (src, expected_parse) in tests {
        reporter.reset();
        let tokens = scan_tokens(&mut reporter, src);
        let statements = if allow_invalid_call {
            parse_allow_invalid_call(&mut reporter, tokens)
        } else {
            parse(&mut reporter, tokens)
        };
        let printed = match statements.first() {
            Some(statement) => print_stmt(statement),
            None => "".to_string(),
        };
        assert_eq!(statements.len(), 1, "Unexpected statements for '{}'", src);
        assert_eq!(
            printed, expected_parse,
            "unexpected parse of '{}'; {} does not match {}",
            src, printed, expected_parse
        );
        if !allow_invalid_call {
            assert!(
                !reporter.has_diagnostics(),
                "unexpected diagnostics for '{}'",
                src
            );
        }
    }
}

#[test]
fn production_tests() {
    let tests = vec![
        ("10 + 10;", "(; (+ 10 10))\n"),
        ("10 == 10;", "(; (== 10 10))\n"),
        ("\"a string\";", "(; \"a string\")\n"),
        ("\"a string\" + 10;", "(; (+ \"a string\" 10))\n"),
        ("(\"a string\" + 10);", "(; (group (+ \"a string\" 10)))\n"),
        ("print 10 == 11;", "(print (== 10 11))\n"),
        (" 10 > 11;", "(; (> 10 11))\n"),
        (" 10 * 11;", "(; (* 10 11))\n"),
        ("!!10;", "(; (! (! 10)))\n"),
        ("var a = 10;", "(var a = 10)\n"),
        ("var a;", "(var a)\n"),
        ("{ var a; } ", "(block\n    (var a)\n)\n"),
        ("a = 10 ;", "(; (= a 10))\n"),
        (
            "if ( a == 10 ) a = 10;",
            "(if (== a 10)\n    (; (= a 10))\n)\n",
        ),
        (
            "if ( a == 10 ) a = 10 ; else b = 20;",
            "(if-else (== a 10)\n    (; (= a 10))\n    (; (= b 20))\n)\n",
        ),
        (
            "if ( a == 10 or b == 20 ) a = 10;",
            "(if (or (== a 10) (== b 20))\n    (; (= a 10))\n)\n",
        ),
        (
            "if ( a == 10 and b == 20 ) a = 10;",
            "(if (and (== a 10) (== b 20))\n    (; (= a 10))\n)\n",
        ),
        (
            "while ( a == true ) a = false;",
            "(while (== a true)\n    (; (= a false))\n)\n",
        ),
        (
            "for ( var i = 1 ; i < 10 ; i = i + 1 ) print i;",
            "(block\n    (var i = 1)\n    (while (< i 10)\n        (block\n            (print i)\n            (; (= i (+ i 1)))\n        )\n    )\n)\n",
        ),
        (
            "for ( i = 1 ; true ; i = i + 1 ) print i;",
            "(block\n    (; (= i 1))\n    (while true\n        (block\n            (print i)\n            (; (= i (+ i 1)))\n        )\n    )\n)\n",
        ),
        (
            "for ( ; true ; i = i + 1 ) print i;",
            "(while true\n    (block\n        (print i)\n        (; (= i (+ i 1)))\n    )\n)\n",
        ),
        (
            "for ( i = 1 ; true ; ) print i;",
            "(block\n    (; (= i 1))\n    (while true\n        (print i)\n    )\n)\n",
        ),
        (
            "fun callee(a, b) { print a; print b ; }",
            "(fun callee(a b)\n    (print a)\n    (print b)\n)\n",
        ),
        (
            "fun callee() { print c; print d ; }",
            "(fun callee()\n    (print c)\n    (print d)\n)\n",
        ),
        (
            "class a_class { method_1() {} method_2(a) {}}",
            "(class a_class\n    (fun method_1()\n    )\n    (fun method_2(a)\n    )\n)\n",
        ),
        (
            "fun callee() { return 10; }",
            "(fun callee()\n    (return 10)\n)\n",
        ),
        (
            "class a_class { init() {this.value = 10;}}",
            "(class a_class\n    (fun init()\n        (; (= this value 10)\n    )\n)\n",
        ),
        (
            "class sub_class < super_class {}",
            "(class sub_class < super_class\n)\n",
        ),
        ("super.method ; ", "(; (super method))\n"),
    ];
    check_productions(tests, false);
}

#[test]
fn errors() {
    let mut reporter = Collector::new();
    let tests = vec![
        ("/ \"10\"", "Expect expression"),
        ("( \"10\"", "Expect ')' after expression"),
        ("print 10", "Expect ';' after value"),
        ("\"10\"", "Expect ';' after expression"),
        ("\"10\" = 10 ;", "Invalid assignment target"),
        (
            "if ( a = 10 ) a = 10 ; else { b = 20;",
            "Expect '}' after block",
        ),
        ("if  a = 10 ) a = 10 ; ", "Expect '(' after 'if'"),
        ("if ( a = 10  a = 10 ; ", "Expect ')' after 'if' condition"),
        ("while  true ) a = 10 ; ", "Expect '(' after 'while'"),
        (
            "while ( true a = 10 ; ",
            "Expect ')' after 'while' condition",
        ),
        (
            "for  i = 1 ; ; i = i + 1 ) print i;",
            "Expect '(' after 'for'",
        ),
        (
            "for ( i = 1 ; i = i + 1 ) print i;",
            "Expect ';' after 'for' loop condition",
        ),
        (
            "for ( i = 1 ; ; i = i + 1  print i;",
            "Expect ')' after 'for' clauses",
        ),
        ("callee ( ;", "Expect expression"),
        ("callee ( a ;", "Expect ')' after function arguments"),
        ("callee ( a, ;", "Expect expression"),
        ("fun ( ;", "Expect function name"),
        ("fun callee a ;", "Expect '(' after function name"),
        ("fun callee ( 10 ;", "Expect parameter name"),
        ("fun callee ( a ;", "Expect ')' after function parameters"),
        (
            "fun callee ( a ) print a;",
            "Expect '{' before function body",
        ),
        ("class { method_1() {} method_2(a) {}}", "Expect class name"),
        (
            "class a_class method_1() {} method_2(a) {}}",
            "Expect '{{' before class body",
        ),
        (
            "class a_class {method_1() {} method_2(a) {}",
            "Expect '}}' after class body",
        ),
        ("class sub_class < {}", "Expect superclass name"),
        ("super 10", "Expect '.' after 'super'"),
        ("super", "Expect '.' after 'super'"),
        ("super.10", "Expect superclass method name"),
        ("fred.10", "Expect property name after '.'"),
    ];
    for (src, expected_message) in tests {
        reporter.reset();
        let tokens = scan_tokens(&mut reporter, src);
        let _ = parse(&mut reporter, tokens);
        let found = first_diagnostic(&reporter);
        assert!(found.is_some(), "Unexpectedly no diagnostics for '{}'", src);
        assert_eq!(
            found.unwrap(),
            expected_message,
            "Missing diagnostic for '{}'",
            src
        );
    }
}

#[test]
fn allow_invalid_call_tests() {
    let tests = vec![
        ("test. ;", "(; (test..))\n"),
        ("super. ;", "(; (super .))\n"),
    ];
    check_productions(tests, true);
}

#[test]
fn parse_reports_are_appended() {
    let mut reporter = Collector::new();
    reporter.add_message("before");
    let tokens = scan_tokens(&mut reporter, "print ;");
    let _ = parse(&mut reporter, tokens);
    assert!(reporter.has_message("before"));
    assert!(reporter.has_diagnostic("Expect expression"));
}

#[test]
fn expression_ids_are_distinct() {
    let mut reporter = Collector::new();
    let tokens = scan_tokens(&mut reporter, "a = b + c;");
    let statements = parse(&mut reporter, tokens);
    match &statements[0] {
        lox::Stmt::Expression {
            expression: lox::Expr::Assign { id, value, .. },
        } => match value.as_ref() {
            lox::Expr::Binary {
                id: inner, left, ..
            } => {
                assert_ne!(id, inner);
                assert_ne!(left.get_id(), *inner);
            }
            _ => panic!("expected a binary expression"),
        },
        _ => panic!("expected an assignment"),
    }
}

#[test]
fn too_many_arguments_is_reported_and_parsing_goes_on() {
    let mut reporter = Collector::new();
    let arguments: Vec<String> = (0..257).map(|i| i.to_string()).collect();
    let src = format!("f({});", arguments.join(", "));
    let tokens = scan_tokens(&mut reporter, &src);
    let statements = parse(&mut reporter, tokens);
    assert_eq!(statements.len(), 1);
    assert_eq!(
        first_diagnostic(&reporter),
        Some("Cannot have more than 255 arguments".to_string())
    );
}

#[test]
fn parsing_resumes_after_a_failed_declaration() {
    let mut reporter = Collector::new();
    let tokens = scan_tokens(&mut reporter, "print ; print 2;");
    let statements = parse(&mut reporter, tokens);
    assert_eq!(statements.len(), 1);
    assert!(print_stmt(&statements[0]).starts_with("(print 2)"));
    assert_eq!(first_diagnostic(&reporter), Some("Expect expression".to_string()));
    assert!(reporter
        .reports
        .iter()
        .any(|r| matches!(r, Report::Message { message } if message == "Expect expression")));
}

#[test]
fn empty_for_clauses_become_a_while_true_loop() {
    let mut reporter = Collector::new();
    let tokens = scan_tokens(&mut reporter, "for (;;) print 1;");
    let statements = parse(&mut reporter, tokens);
    assert_eq!(statements.len(), 1);
    assert!(!reporter.has_diagnostics());
    assert!(print_stmt(&statements[0]).contains("true"));
}

#[test]
fn check_next_token_sees_the_end_token() {
    let mut reporter = Collector::new();
    let tokens = scan_tokens(&mut reporter, "a");
    let mut p = Parser::new(tokens, false);
    assert!(p.check_next_token(&TokenType::Identifier));
    assert!(!p.check_next_token(&TokenType::Number));
    assert!(p.check_next_token(&TokenType::Identifier));
    p.advance();
    assert!(p.check_next_token(&TokenType::Eof));
    assert!(!p.check_next_token(&TokenType::Identifier));
}

#[test]
fn a_failed_declaration_synchronises_past_the_semicolon() {
    let mut reporter = Collector::new();
    let tokens = scan_tokens(&mut reporter, "print ); print 1;");
    let mut p = Parser::new(tokens, false);
    let data = lox::parser::Data::new();
    match p.declaration(&data) {
        Err(error) => assert_eq!(error.message, "Expect expression"),
        Ok(_) => panic!("the declaration should fail"),
    }
    assert!(p.check_next_token(&TokenType::Print));
}

#[test]
fn parse_recovers_to_the_statement_after_the_semicolon() {
    let mut reporter = Collector::new();
    let tokens = scan_tokens(&mut reporter, "print ); print 1;");
    let statements = parse(&mut reporter, tokens);
    assert_eq!(statements.len(), 1);
    assert_eq!(print_stmt(&statements[0]), "(print 1)\n");
    assert_eq!(first_diagnostic(&reporter), Some("Expect expression".to_string()));
}

#[test]
fn recovery_stops_before_a_statement_keyword() {
    let mut reporter = Collector::new();
    let tokens = scan_tokens(&mut reporter, "print ) ) var a = 1;");
    let statements = parse(&mut reporter, tokens);
    assert_eq!(statements.len(), 1);
    assert!(print_stmt(&statements[0]).starts_with("(var a"));
}
