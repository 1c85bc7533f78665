use lox::location::FileLocation;
use lox::reporter::{Collector, Reporter};
use lox::Number;

#[derive(Clone, Copy, Debug, PartialEq)]
struct F64(f64);

impl Number for F64 {
    fn from_literal(text: &str) -> Self {
        F64(text.parse().unwrap())
    }
    fn plus(self, other: Self) -> Self {
        F64(self.0 + other.0)
    }
    fn minus(self, other: Self) -> Self {
        F64(self.0 - other.0)
    }
    fn times(self, other: Self) -> Self {
        F64(self.0 * other.0)
    }
    fn divided_by(self, other: Self) -> Self {
        F64(self.0 / other.0)
    }
    fn negated(self) -> Self {
        F64(-1.0 * self.0)
    }
    fn less(self, other: Self) -> bool {
        self.0 < other.0
    }
    fn less_equal(self, other: Self) -> bool {
        self.0 <= other.0
    }
    fn greater(self, other: Self) -> bool {
        self.0 > other.0
    }
    fn greater_equal(self, other: Self) -> bool {
        self.0 >= other.0
    }
    fn equals(self, other: Self) -> bool {
        self.0 == other.0
    }
    fn to_text(self) -> String {
        format!("{}", self.0)
    }
    fn now() -> Self {
        F64(0.0)
    }
}

fn print_contents(reporter: &Collector) {
    for report in &reporter.reports {
        println!("[report] {}", report.text());
    }
}

#[test]
fn test_statements() {
    let mut reporter = Collector::new();
    let tests = vec![
        (
            "print \"hello,\" + \" world\";",
            vec!["[print] \"hello, world\""],
        ),
        ("print 10 + 10;", vec!["[print] 20"]),
        ("print 10 - 5;", vec!["[print] 5"]),
        ("print 10 > 5;", vec!["[print] true"]),
        ("print 5 > 5;", vec!["[print] false"]),
        ("print 5 >= 5;", vec!["[print] true"]),
        ("print \"a string\";", vec!["[print] \"a string\""]),
        ("print 10.5 ;", vec!["[print] 10.5"]),
        ("print true ;", vec!["[print] true"]),
        ("print false ;", vec!["[print] false"]),
        ("print nil ;", vec!["[print] nil"]),
        ("print !true ;", vec!["[print] false"]),
        ("print !!true ;", vec!["[print] true"]),
        ("print -3.45 ;", vec!["[print] -3.45"]),
        ("print 5 == 5 ;", vec!["[print] true"]),
        ("print 5 == 4 ;", vec!["[print] false"]),
        ("print \"hello\" == \"hello\";", vec!["[print] true"]),
        ("print \"hello\" == \"world\";", vec!["[print] false"]),
        ("print 4 / 4;", vec!["[print] 1"]),
        ("print 6 / 4;", vec!["[print] 1.5"]),
        ("print 2 * 2;", vec!["[print] 4"]),
        ("print 5 < 5;", vec!["[print] false"]),
        ("print 5 <= 5;", vec!["[print] true"]),
        ("print (5 <= 5);", vec!["[print] true"]),
        ("print !\"string\";", vec!["[print] false"]),
        ("print !!\"string\";", vec!["[print] true"]),
        ("print ((10 - 5) + 1) / (2 * 3);", vec!["[print] 1"]),
        ("print ((10 - 5) + 1) / (2 * 3);", vec!["[print] 1"]),
        ("var a = 1 ; { a = 2; print a;}", vec!["[print] 2"]),
        (
            "fun fib(n) {
                if( n<= 1) return n;
                return fib(n-2) + fib(n-1);
            }
            print fib(1);",
            vec!["[print] 1"],
        ),
        (
            "fun fib(n) {
                if( n<= 1) return n;
                return fib(n-2) + fib(n-1);
            }
            print fib(2);",
            vec!["[print] 1"],
        ),
        (
            "fun fib(n) {
                if( n<= 1) return n;
                return fib(n-2) + fib(n-1);
            }
            print fib(0);
            print fib(3);
            print fib(6);",
            vec!["[print] 0", "[print] 2", "[print] 8"],
        ),
        (
            "fun makeCounter() {
                var i = 0;
                fun count() {
                    i = i + 1;
                    print i;
                }
                return count;
            }
            var counter = makeCounter();
            counter();
            counter();",
            vec!["[print] 1", "[print] 2"],
        ),
        (
            "fun makeCounter() {
                var i = 0;
                fun count() {
                    i = i + 1;
                    print i;
                }
                return count;
            }
            var counter = makeCounter();
            var outer = \"outer str\";
            counter();
            print outer;",
            vec!["[print] 1", "[print] \"outer str\""],
        ),
        (
            "class Thing {
                getCallback() {
                    this.message = \"Hello\";
                    fun localFunction() {
                        print this.message;
                    }
                    return localFunction;
                }
            }
            var callback = Thing().getCallback();
            callback();",
            vec!["[print] \"Hello\""],
        ),
        (
            "class Thing {
                init(message) {
                    this.message = message;
                }
                get() {
                    return \"Hello \" + this.message;
                }
            }
            var val = Thing(\"Bob\");
            var i = val.get();
            print i;",
            vec!["[print] \"Hello Bob\""],
        ),
        (
            "class Thing {
                init(message) {
                    this.message = message;
                    return;
                }
            }
            var val = Thing(\"Bob\");
            var i = val.init(\"John\");
            print i.message;",
            vec!["[print] \"John\""],
        ),
        (
            "class Doughnut {
                cook() {
                    print \"Fry until golden brown\";
                }
            }
            class BostonCream < Doughnut {}
            BostonCream().cook();",
            vec!["[print] \"Fry until golden brown\""],
        ),
        (
            "class Doughnut {
                cook() {
                    print \"Fry until golden brown\";
                }
            }
            class BostonCream < Doughnut {
                cook() {
                    super.cook();
                    print \"Pipe full of custard and coat with chocolate\";
                }
            }
            BostonCream().cook();",
            vec![
                "[print] \"Fry until golden brown\"",
                "[print] \"Pipe full of custard and coat with chocolate\"",
            ],
        ),
    ];

    for (source, expected_messages) in tests {
        reporter.reset();
        lox::interpret::<F64, Collector>(&mut reporter, source);
        if reporter.has_diagnostics() {
            println!("Unexpected errors for : {}", source);
            print_contents(&reporter);
            panic!("Unexpected errors");
        }
        for expected_message in expected_messages {
            if !reporter.has_message(expected_message) {
                println!("Missing message: {} != {}", source, expected_message);
                print_contents(&reporter);
                panic!("Missing message");
            }
        }
    }
}

#[test]
fn test_failures() {
    let mut reporter = Collector::new();
    let tests = vec![
        (
            "\"hello,\" + 10 ;",
            (0, 0),
            (0, 13),
            "Operands must be two numbers or two strings",
        ),
        (
            "\"hello\" - true ; ",
            (0, 0),
            (0, 14),
            "Operand should be a number",
        ),
        (
            "((10 - 5) + 1) / (2 * \"fred\") ;",
            (0, 18),
            (0, 28),
            "Operand should be a number",
        ),
        ("{b = 1;}", (0, 1), (0, 6), "Undefined variable 'b'"),
        ("print a;", (0, 6), (0, 7), "Undefined variable 'a'"),
        (
            "\"totally not a function\"();",
            (0, 0),
            (0, 24),
            "Can only call functions and classes",
        ),
        (
            "class Example { init(param){} } var e = Example();",
            (0, 40),
            (0, 47),
            "Expected 1 arguments but got 0",
        ),
        (
            "class Example { init(param){} } var e = Example(1, 2);",
            (0, 40),
            (0, 47),
            "Expected 1 arguments but got 2",
        ),
        (
            "class Example { error(param){this.error();} } Example().error(1);",
            (0, 29),
            (0, 39),
            "Expected 1 arguments but got 0",
        ),
        (
            "class Example {} Example().error;",
            (0, 17),
            (0, 26),
            "Undefined property 'error'",
        ),
        (
            "var value = 1; print value.field;",
            (0, 21),
            (0, 26),
            "Only instances have fields",
        ),
        (
            "var value = 1; value.field = 2;",
            (0, 15),
            (0, 20),
            "Only instances have fields",
        ),
        (
            "fun error() { print this.fred; } error();",
            (0, 20),
            (0, 24),
            "Cannot use 'this' outside of a class",
        ),
        (
            "class Example{ init() { this.dest = this.src; }} var e = Example();",
            (0, 36),
            (0, 40),
            "Undefined property 'src'",
        ),
        (
            "var NotAClass = \"I'm not a class\"; class Example < NotAClass {}",
            (0, 51),
            (0, 60),
            "Superclass must be a class",
        ),
    ];

    for (source, start, end, message) in &tests {
        reporter.reset();
        lox::interpret::<F64, Collector>(&mut reporter, source);
        let found = reporter.has_diagnostic_at(
            &FileLocation::new(start.0, start.1),
            &FileLocation::new(end.0, end.1),
            message,
        );
        if !found {
            println!("Missing diagnostic: {} != {}", source, message);
            print_contents(&reporter);
            panic!("Missing diagnostic");
        }
    }
}

#[test]
fn scan_lists_every_token() {
    let mut reporter = Collector::new();
    lox::scan(&mut reporter, "print 1;");
    assert!(reporter.has_message("[token]: Print 'print'"));
    assert!(reporter.has_message("[token]: Semicolon ';'"));
}

#[test]
fn parse_shows_each_statement() {
    let mut reporter = Collector::new();
    lox::parse(&mut reporter, "print 1;");
    assert!(reporter.has_message("[stmt] (print 1)\n"));
}

#[test]
fn scan_errors_stop_the_pipeline() {
    let mut reporter = Collector::new();
    lox::interpret::<F64, Collector>(&mut reporter, "print ~;");
    assert!(reporter.has_message("[parser] not parsing due to scan errors"));
    let mut reporter = Collector::new();
    lox::resolve(&mut reporter, "print ~;");
    assert!(reporter.has_message("[resolve] not parsing due to scan errors"));
    let mut reporter = Collector::new();
    let statements = lox::ast(&mut reporter, "print ~;");
    assert!(statements.is_empty());
}

#[test]
fn parse_errors_stop_interpreting() {
    let mut reporter = Collector::new();
    lox::interpret::<F64, Collector>(&mut reporter, "print ;");
    assert!(reporter.has_message("[interpreter] not interpreting due to parsing errors"));
    let mut reporter = Collector::new();
    lox::run::<F64, Collector>(&mut reporter, "return 1;");
    assert!(reporter.has_message("[interpreter] not interpreting due to resolver errors"));
}

#[test]
fn try_interpret_runs_a_scannable_program() {
    let mut reporter = Collector::new();
    assert!(lox::try_interpret::<F64, Collector>(&mut reporter, "print \"joined\" + \" text\";"));
    assert!(reporter.has_message("[print] \"joined text\""));
}

#[test]
fn a_run_time_error_ends_with_its_message() {
    let mut reporter = Collector::new();
    lox::interpret::<F64, Collector>(&mut reporter, "print 1; print \"a\" + 1; print 2;");
    assert!(reporter.has_diagnostics());
    assert!(!reporter.has_message("[print] 2"));
    match reporter.reports.last() {
        Some(lox::reporter::Report::Message { message }) => {
            assert_eq!(message, "Operands must be two numbers or two strings")
        }
        _ => panic!("the last report is not the error's message"),
    }
}
