use lox::expr::Expr;
use lox::interpreter::environment::Environment;
use lox::interpreter::lox_type::{is_equal, is_truthy, Heap, LoxType, Number};
use lox::interpreter::unwind::Unwind;
use lox::interpreter::{interpret, Interpreter, MAX_CALL_DEPTH};
use lox::location::FileLocation;
use lox::parser::parse;
use lox::reporter::{Collector, Reporter};
use lox::resolver::resolve;
use lox::scanner::scan_tokens;
use lox::stmt::Stmt;
use lox::token::{Literal, Token, TokenType};
use std::collections::HashMap;

#[derive(Clone, Copy, Debug, PartialEq)]
struct F64(f64);

impl Number for F64 {
    fn from_literal(text: &str) -> Self {
        F64(text.parse().unwrap())
    }
    fn plus(self, other: Self) -> Self {
        F64(self.0 + other.0)
    }
    fn minus(self, other: Self) -> Self {
        F64(self.0 - other.0)
    }
    fn times(self, other: Self) -> Self {
        F64(self.0 * other.0)
    }
    fn divided_by(self, other: Self) -> Self {
        F64(self.0 / other.0)
    }
    fn negated(self) -> Self {
        F64(-1.0 * self.0)
    }
    fn less(self, other: Self) -> bool {
        self.0 < other.0
    }
    fn less_equal(self, other: Self) -> bool {
        self.0 <= other.0
    }
    fn greater(self, other: Self) -> bool {
        self.0 > other.0
    }
    fn greater_equal(self, other: Self) -> bool {
        self.0 >= other.0
    }
    fn equals(self, other: Self) -> bool {
        self.0 == other.0
    }
    fn to_text(self) -> String {
        format!("{}", self.0)
    }
    fn now() -> Self {
        F64(0.0)
    }
}

type Value<'a> = LoxType<'a, F64>;

/// A short description of an outcome, to compare with the expected one.
fn describe(result: &Result<Value, Unwind<F64>>) -> String {
    match result {
        Ok(value) => describe_value(value),
        Err(Unwind::WithError(message)) => format!("error {}", message),
        Err(Unwind::WithResult(value)) => format!("return {}", describe_value(value)),
    }
}

fn describe_value(value: &Value) -> String {
    match value {
        LoxType::Number(n) => format!("number {}", n.0),
        LoxType::String(s) => format!("string {}", s),
        LoxType::Boolean(b) => format!("boolean {}", b),
        LoxType::Nil => "nil".to_string(),
        other => format!("other {}", other.to_display_string()),
    }
}

fn literal_expression() -> Expr {
    let blank_location = FileLocation::new(0, 0);
    Expr::Literal {
        id: 0,
        value: Token::new(
            TokenType::String,
            "\"\"",
            blank_location,
            blank_location,
            Some(Literal::String("".to_string())),
        ),
    }
}

fn test_expressions(tests: Vec<(&str, &str)>) {
    let mut reporter = Collector::new();
    let depths = HashMap::<usize, usize>::new();
    for (src, expected_result) in tests {
        reporter.reset();
        let tokens = scan_tokens(&mut reporter, src);
        let statements = parse(&mut reporter, tokens);
        let interpreter = Interpreter::new(&depths);
        let mut heap: Heap<F64> = Heap::new();
        let environment = Environment::new(&mut heap);
        match statements.first() {
            Some(Stmt::Expression { expression }) => {
                let result = interpreter.evaluate_expr(
                    &mut heap,
                    &mut reporter,
                    environment,
                    expression,
                    MAX_CALL_DEPTH,
                );
                assert_eq!(
                    describe(&result),
                    expected_result,
                    "unexpected result for {}",
                    src
                );
            }
            Some(_) => panic!("Invalid statement type for '{}'", src),
            None => panic!("Statement not found for '{}'", src),
        }
    }
}

#[test]
fn test_truthy_values() {
    let tests: Vec<(Value, bool)> = vec![
        (LoxType::Nil, false),
        (LoxType::Number(F64(0.0)), true),
        (LoxType::Number(F64(1.0)), true),
        (LoxType::String(String::from("")), true),
        (LoxType::String(String::from("hello, world")), true),
        (LoxType::Boolean(false), false),
        (LoxType::Boolean(true), true),
    ];
    for (value, expected_result) in &tests {
        assert_eq!(
            is_truthy(value),
            *expected_result,
            "unexpected result: {} != {}",
            describe_value(value),
            expected_result
        );
    }
}

#[test]
fn test_check_string_operand() {
    let mut reporter = Collector::new();
    let expression = literal_expression();
    let depths = HashMap::<usize, usize>::new();
    let interpreter = Interpreter::new(&depths);
    let tests: Vec<(Value, Result<&str, &str>)> = vec![
        (LoxType::String("".to_string()), Ok("")),
        (
            LoxType::Number(F64(0.0)),
            Err("Operand should be a string"),
        ),
        (LoxType::Nil, Err("Operand should be a string")),
        (LoxType::Boolean(true), Err("Operand should be a string")),
    ];
    for (value, expected_result) in &tests {
        reporter.reset();
        let result = interpreter.check_string_operand(&mut reporter, &expression, value);
        match (result, expected_result) {
            (Ok(found), Ok(expected)) => assert_eq!(found, *expected),
            (Err(Unwind::WithError(found)), Err(expected)) => assert_eq!(found, *expected),
            _ => panic!("unexpected result for: {}", describe_value(value)),
        }
    }
}

#[test]
fn test_check_number_operand() {
    let mut reporter = Collector::new();
    let expression = literal_expression();
    let depths = HashMap::<usize, usize>::new();
    let interpreter = Interpreter::new(&depths);
    let tests: Vec<(Value, Result<f64, &str>)> = vec![
        (
            LoxType::String("".to_string()),
            Err("Operand should be a number"),
        ),
        (LoxType::Number(F64(0.0)), Ok(0.0)),
        (LoxType::Nil, Err("Operand should be a number")),
        (LoxType::Boolean(true), Err("Operand should be a number")),
    ];
    for (value, expected_result) in &tests {
        reporter.reset();
        let result = interpreter.check_number_operand(&mut reporter, &expression, value);
        match (result, expected_result) {
            (Ok(found), Ok(expected)) => assert_eq!(found.0, *expected),
            (Err(Unwind::WithError(found)), Err(expected)) => assert_eq!(found, *expected),
            _ => panic!("unexpected result for: {}", describe_value(value)),
        }
    }
}

#[test]
fn test_is_equal() {
    let tests: Vec<(Value, Value, bool)> = vec![
        (
            LoxType::String("fred".to_string()),
            LoxType::String("fred".to_string()),
            true,
        ),
        (
            LoxType::String("".to_string()),
            LoxType::String("fred".to_string()),
            false,
        ),
        (LoxType::Number(F64(10.0)), LoxType::Number(F64(10.0)), true),
        (LoxType::Number(F64(0.0)), LoxType::Number(F64(10.0)), false),
        (LoxType::Number(F64(0.0)), LoxType::Nil, false),
        (LoxType::Boolean(true), LoxType::Boolean(true), true),
        (LoxType::Boolean(false), LoxType::Boolean(false), true),
        (LoxType::Boolean(false), LoxType::Boolean(true), false),
        (LoxType::Number(F64(0.0)), LoxType::Boolean(true), false),
        (LoxType::Nil, LoxType::Nil, true),
    ];
    for (left, right, expected_result) in &tests {
        assert_eq!(
            is_equal(left, right),
            *expected_result,
            "unexpected result {} == {}",
            describe_value(left),
            describe_value(right)
        );
    }
}

#[test]
fn test_plus() {
    test_expressions(vec![
        ("10 + 10 ; ", "number 20"),
        ("\"hello,\" + \" world\";", "string hello, world"),
        (
            "10 + \", world\";",
            "error Operands must be two numbers or two strings",
        ),
    ]);
}

#[test]
fn test_equality() {
    test_expressions(vec![
        ("10 == 10;", "boolean true"),
        ("10 != 10;", "boolean false"),
    ]);
}

#[test]
fn test_binary() {
    test_expressions(vec![("10 - 5;", "number 5"), ("10 * 10;", "number 100")]);
}

#[test]
fn test_logical() {
    test_expressions(vec![
        ("true and true;", "boolean true"),
        ("true and false;", "boolean false"),
        ("false and true;", "boolean false"),
        ("false and false;", "boolean false"),
        ("true or true;", "boolean true"),
        ("true or false;", "boolean true"),
        ("false or true;", "boolean true"),
        ("false or false;", "boolean false"),
    ]);
}

#[test]
fn test_unary() {
    test_expressions(vec![("-5;", "number -5"), ("!true;", "boolean false")]);
}

#[test]
fn test_literal() {
    test_expressions(vec![
        ("\"hello, world\";", "string hello, world"),
        ("true;", "boolean true"),
    ]);
}

#[test]
fn test_stmt_var() {
    let tests = vec![
        ("var a = \"value\";", "a", "string value"),
        ("var b;", "b", "nil"),
    ];
    let mut reporter = Collector::new();
    let depths = HashMap::<usize, usize>::new();
    for (src, key, expected_value) in tests {
        reporter.reset();
        let tokens = scan_tokens(&mut reporter, src);
        let statements = parse(&mut reporter, tokens);
        assert!(
            matches!(statements.first(), Some(Stmt::Var { .. })),
            "Invalid statement type for '{}'",
            src
        );
        let interpreter = Interpreter::new(&depths);
        let mut heap: Heap<F64> = Heap::new();
        let environment = Environment::new(&mut heap);
        let result = interpreter.interpret_statements(
            &mut heap,
            &mut reporter,
            environment,
            &statements,
            MAX_CALL_DEPTH,
        );
        if let Err(Unwind::WithError(message)) = result {
            panic!("Unexpected error for '{}': {}", src, message);
        }
        let value = environment.get_at(&heap, None, key);
        assert_eq!(
            describe(&value),
            expected_value,
            "Unexpected value for '{}'",
            src
        );
    }
}

#[test]
fn test_stmt() {
    let tests = vec![
        ("print \"value\";", "[print] \"value\""),
        ("print 10 + 10;", "[print] 20"),
        ("{print true == false;} ", "[print] false"),
        (
            "if (true) print \"then branch\"; ",
            "[print] \"then branch\"",
        ),
        (
            "if (false) print \"then branch\"; else print \"else branch\";",
            "[print] \"else branch\"",
        ),
        ("print \"hi\" or 2 ; ", "[print] \"hi\""),
        ("print nil or \"yes\" ; ", "[print] \"yes\""),
    ];
    let mut reporter = Collector::new();
    let depths = HashMap::<usize, usize>::new();
    for (src, expected_message) in tests {
        reporter.reset();
        let tokens = scan_tokens(&mut reporter, src);
        let mut statements = parse(&mut reporter, tokens);
        assert!(!statements.is_empty(), "Statement not found for '{}'", src);
        statements.truncate(1);
        interpret::<F64, Collector>(&mut reporter, &depths, &statements);
        assert!(
            !reporter.has_diagnostics(),
            "Unexpected error for '{}'",
            src
        );
        assert!(
            reporter.has_message(expected_message),
            "Missing expected message for '{}' expected '{}'",
            src,
            expected_message
        );
    }
}

#[test]
fn test_stmts() {
    let tests = vec![
        (
            "var a = 3; if (a > 1) print \"> 1\"; else print \"<= 1\" ;",
            "[print] \"> 1\"",
        ),
        (
            "var a = \"init\"; if (true) a = \"updated\" ; print a;",
            "[print] \"updated\"",
        ),
        (
            "var a = \"init\"; if (false) a = \"updated\" ; print a;",
            "[print] \"init\"",
        ),
        (
            "var a = 1; while ( a < 5) a = a + 1 ; print a;",
            "[print] 5",
        ),
        (
            "fun sayHi(first, last) { print \"Hi, \" + first + \" \" + last; } sayHi(\"Dear\", \"Reader\");",
            "[print] \"Hi, Dear Reader\"",
        ),
        (
            "fun count(n) {if (n> 1) count(n-1); print n; } count(3) ;",
            "[print] 3",
        ),
        (
            "class Bagel{} var b = Bagel() ; b.val = \"hello field\" ; print b.val ;",
            "[print] \"hello field\"",
        ),
        (
            "class Box {} fun notMethod(argument) { print \"called with '\" + argument + \"'\"; } var box = Box() ; box.function = notMethod; box.function(\"hello\");",
            "[print] \"called with 'hello'\"",
        ),
        (
            "class Bacon { eat() { print \"chewy\"; } } Bacon().eat();",
            "[print] \"chewy\"",
        ),
        (
            "fun bacon() { return \"chewy\"; } print bacon();",
            "[print] \"chewy\"",
        ),
        (
            "class Bacon { init() { this.how = \"chewy\"; } } var b = Bacon(); print b.how;",
            "[print] \"chewy\"",
        ),
        ("print (10+10)+2;", "[print] 22"),
        (
            "class Thing {} var a = Thing(); print (a == a);",
            "[print] false",
        ),
    ];
    let mut reporter = Collector::new();
    for (src, expected_message) in tests {
        reporter.reset();
        let tokens = scan_tokens(&mut reporter, src);
        let statements = parse(&mut reporter, tokens);
        let depths = resolve(&mut reporter, &statements);
        interpret::<F64, Collector>(&mut reporter, &depths, &statements);
        assert!(
            reporter.has_message(expected_message),
            "Missing expected message for '{}' expected '{}'",
            src,
            expected_message
        );
    }
}

fn string(value: &str) -> Value<'static> {
    LoxType::String(value.to_string())
}

#[test]
fn test_environment() {
    let mut heap: Heap<F64> = Heap::new();
    let environment = Environment::new(&mut heap);
    let a_key = "a";

    let result = environment.get_at(&heap, None, a_key);
    assert_eq!(describe(&result), "error Undefined variable 'a'");
    assert_eq!(heap.frames.len(), 1, "Unexpected frame count");

    let result = environment.assign_at(&mut heap, None, a_key, string("a value"));
    assert!(matches!(result, Err(Unwind::WithError(ref m)) if m == "Undefined variable 'a'"));
    assert_eq!(heap.frames.len(), 1, "Unexpected frame count");

    environment.define(&mut heap, a_key, string("a value"));
    let result = environment.get_at(&heap, None, a_key);
    assert_eq!(describe(&result), "string a value");
    assert_eq!(heap.frames.len(), 1, "Unexpected frame count");

    let result = environment.assign_at(&mut heap, None, a_key, string("a value (updated)"));
    assert!(result.is_ok());
    assert_eq!(heap.frames.len(), 1, "Unexpected frame count");

    let result = environment.get_at(&heap, None, a_key);
    assert_eq!(describe(&result), "string a value (updated)");
    assert_eq!(heap.frames.len(), 1, "Unexpected frame count");
}

#[test]
fn test_nested_environment() {
    let mut heap: Heap<F64> = Heap::new();
    let original_environment = Environment::new(&mut heap);
    original_environment.define(&mut heap, "a", string("a value"));
    original_environment.define(&mut heap, "b", string("b value"));
    assert_eq!(heap.frames.len(), 1, "Unexpected frame count before block");

    {
        let nested_environment = Environment::new_with_enclosing(&mut heap, &original_environment);
        assert_eq!(heap.frames.len(), 2, "Unexpected frame count at start of block");

        nested_environment.define(&mut heap, "a", string("a value (nested)"));
        nested_environment.define(&mut heap, "c", string("c value"));

        let result =
            nested_environment.assign_at(&mut heap, None, "b", string("b value (updated)"));
        assert!(result.is_ok());

        let result =
            nested_environment.assign_at(&mut heap, Some(1), "b", string("b value (updated)"));
        assert!(result.is_ok());

        let result =
            nested_environment.assign_at(&mut heap, Some(2), "b", string("b value (updated)"));
        assert!(matches!(result, Err(Unwind::WithError(ref m)) if m == "Undefined variable 'b'"));

        let result = nested_environment.get_at(&heap, Some(0), "a");
        assert_eq!(describe(&result), "string a value (nested)");

        let result = nested_environment.get_at(&heap, None, "a");
        assert_eq!(describe(&result), "string a value");

        let result = nested_environment.get_at(&heap, Some(1), "a");
        assert_eq!(describe(&result), "string a value");

        let result = nested_environment.get_at(&heap, Some(1), "b");
        assert_eq!(describe(&result), "string b value (updated)");

        let result = nested_environment.get_at(&heap, Some(0), "c");
        assert_eq!(describe(&result), "string c value");
    }

    let result = original_environment.get_at(&heap, Some(0), "a");
    assert_eq!(describe(&result), "string a value");

    let result = original_environment.get_at(&heap, Some(0), "b");
    assert_eq!(describe(&result), "string b value (updated)");

    let result = original_environment.get_at(&heap, Some(0), "c");
    assert_eq!(describe(&result), "error Undefined variable 'c'");
}

#[test]
fn runtime_errors_are_reported_as_diagnostics_and_messages() {
    let mut reporter = Collector::new();
    let tokens = scan_tokens(&mut reporter, "print -\"text\";");
    let statements = parse(&mut reporter, tokens);
    let depths = resolve(&mut reporter, &statements);
    interpret::<F64, Collector>(&mut reporter, &depths, &statements);
    assert!(reporter.has_diagnostic("Operand should be a number"));
    assert!(reporter.has_message("Operand should be a number"));
}

#[test]
fn arity_mismatch_names_both_counts() {
    let mut reporter = Collector::new();
    let tokens = scan_tokens(&mut reporter, "fun f(a, b) {} f(1);");
    let statements = parse(&mut reporter, tokens);
    let depths = resolve(&mut reporter, &statements);
    interpret::<F64, Collector>(&mut reporter, &depths, &statements);
    assert!(reporter.has_diagnostic("Expected 2 arguments but got 1"));
}

#[test]
fn values_are_shown_by_kind() {
    let mut reporter = Collector::new();
    let tokens = scan_tokens(
        &mut reporter,
        "class A { m() {} } print A; print A(); print A().m; print clock; print nil; fun f() {} print f;",
    );
    let statements = parse(&mut reporter, tokens);
    let depths = resolve(&mut reporter, &statements);
    interpret::<F64, Collector>(&mut reporter, &depths, &statements);
    assert!(reporter.has_message("[print] \"class A\""));
    assert!(reporter.has_message("[print] \"instance of A\""));
    assert!(reporter.has_message("[print] \"fun m\""));
    assert!(reporter.has_message("[print] \"native fun clock\""));
    assert!(reporter.has_message("[print] nil"));
    assert!(reporter.has_message("[print] \"fun f\""));
}

#[test]
fn deep_recursion_is_stopped() {
    let mut reporter = Collector::new();
    let tokens = scan_tokens(&mut reporter, "fun f() { f(); } f();");
    let statements = parse(&mut reporter, tokens);
    let depths = resolve(&mut reporter, &statements);
    interpret::<F64, Collector>(&mut reporter, &depths, &statements);
    assert!(reporter.has_diagnostic("Stack overflow"));
}

#[test]
fn values_compare_by_identity_and_name() {
    let a: Value = LoxType::String("x".to_string());
    let b: Value = LoxType::String("x".to_string());
    assert!(a.equals(&b));
    let n: Value = LoxType::Nil;
    assert!(!a.equals(&n));
}

#[test]
fn a_decided_logical_skips_its_right_operand() {
    test_expressions(vec![
        ("true or x;", "boolean true"),
        ("false and x;", "boolean false"),
        ("nil or \"yes\";", "string yes"),
        ("false or x;", "error Undefined variable 'x'"),
    ]);
}

#[test]
fn a_program_runs_its_statements_in_turn() {
    let mut reporter = Collector::new();
    let tokens = scan_tokens(&mut reporter, "var a = \"one\"; print a; a = \"two\"; print a;");
    let statements = parse(&mut reporter, tokens);
    let depths = resolve(&mut reporter, &statements);
    interpret::<F64, Collector>(&mut reporter, &depths, &statements);
    assert!(!reporter.has_diagnostics());
    let printed: Vec<String> = reporter
        .reports
        .iter()
        .filter_map(|r| match r {
            lox::reporter::Report::Message { message } => Some(message.clone()),
            _ => None,
        })
        .collect();
    assert_eq!(printed, vec!["[print] \"one\"".to_string(), "[print] \"two\"".to_string()]);
}

#[test]
fn a_run_time_error_stops_the_program() {
    let mut reporter = Collector::new();
    let tokens = scan_tokens(&mut reporter, "print \"before\"; print b; print \"after\";");
    let statements = parse(&mut reporter, tokens);
    let depths = resolve(&mut reporter, &statements);
    interpret::<F64, Collector>(&mut reporter, &depths, &statements);
    assert!(reporter.has_message("[print] \"before\""));
    assert!(!reporter.has_message("[print] \"after\""));
    assert!(reporter.has_message("Undefined variable 'b'"));
}

#[test]
fn super_without_the_method_is_an_undefined_property() {
    let mut reporter = Collector::new();
    let tokens = scan_tokens(
        &mut reporter,
        "class A {} class B < A { m() { return super.nope; } } B().m();",
    );
    let statements = parse(&mut reporter, tokens);
    let depths = resolve(&mut reporter, &statements);
    interpret::<F64, Collector>(&mut reporter, &depths, &statements);
    assert!(reporter.has_diagnostic("Undefined property 'nope'"));
}

#[test]
fn an_initialiser_call_gives_the_instance() {
    let mut reporter = Collector::new();
    let tokens = scan_tokens(
        &mut reporter,
        "class P { init(name) { this.name = name; return; } } var p = P(\"x\"); print p.init(\"y\").name; print p.name;",
    );
    let statements = parse(&mut reporter, tokens);
    let depths = resolve(&mut reporter, &statements);
    interpret::<F64, Collector>(&mut reporter, &depths, &statements);
    assert!(!reporter.has_diagnostics());
    assert!(reporter.has_message("[print] \"y\""));
}

#[test]
fn a_while_loop_stops_when_its_condition_is_false() {
    let mut reporter = Collector::new();
    let tokens = scan_tokens(
        &mut reporter,
        "var s = \"\"; var go = true; while (go) { s = s + \"a\"; if (s == \"aaa\") go = false; } print s;",
    );
    let statements = parse(&mut reporter, tokens);
    let depths = resolve(&mut reporter, &statements);
    interpret::<F64, Collector>(&mut reporter, &depths, &statements);
    assert!(!reporter.has_diagnostics());
    assert!(reporter.has_message("[print] \"aaa\""));
}
