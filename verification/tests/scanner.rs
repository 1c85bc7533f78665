use lox::location::FileLocation;
use lox::reporter::{Collector, Report};
use lox::scanner::scan_tokens;
use lox::token::{Literal, Token, TokenType};

fn has_messages(reporter: &Collector) -> bool {
    reporter.reports.iter().any(|r| !r.is_diagnostic())
}

fn diagnostics(reporter: &Collector) -> Vec<(FileLocation, FileLocation, String)> {
    reporter
        .reports
        .iter()
        .filter_map(|r| match r {
            Report::Diagnostic {
                start,
                end,
                message,
            } => Some((*start, *end, message.clone())),
            Report::Message { .. } => None,
        })
        .collect()
}

fn token(
    token_type: TokenType,
    lexeme: &str,
    start: (u32, u32),
    end: (u32, u32),
    literal: Option<Literal>,
) -> Token {
    Token::new(
        token_type,
        lexeme,
        FileLocation::new(start.0, start.1),
        FileLocation::new(end.0, end.1),
        literal,
    )
}

fn execute_tests(reporter: &mut Collector, tests: &Vec<(&str, Vec<Token>)>) {
    for (source, expected_tokens) in tests {
        reporter.reset();
        let tokens = scan_tokens(reporter, source);
        assert!(!has_messages(reporter), "Unexpected messages reported");
        assert!(
            diagnostics(reporter).is_empty(),
            "Unexpected diagnostics reported"
        );
        assert_eq!(
            tokens.len(),
            expected_tokens.len() + 1,
            "Incorrect tokens returned"
        );
        assert_eq!(tokens.last().unwrap().token_type, TokenType::Eof);
        for (token, expected_token) in tokens.iter().zip(expected_tokens.iter()) {
            assert_eq!(token, expected_token, "Unexpected token returned");
        }
    }
}

#[test]
fn single_token() {
    let mut reporter = Collector::new();
    let tests = vec![
        (
            "(",
            vec![token(TokenType::LeftParen, "(", (0, 0), (0, 1), None)],
        ),
        (
            " ( ",
            vec![token(TokenType::LeftParen, "(", (0, 1), (0, 2), None)],
        ),
        (
            " ! ",
            vec![token(TokenType::Bang, "!", (0, 1), (0, 2), None)],
        ),
        (
            " != ",
            vec![token(TokenType::BangEqual, "!=", (0, 1), (0, 3), None)],
        ),
    ];
    execute_tests(&mut reporter, &tests);
}

#[test]
fn multiple_tokens() {
    let mut reporter = Collector::new();
    let tests = vec![(
        "( )",
        vec![
            token(TokenType::LeftParen, "(", (0, 0), (0, 1), None),
            token(TokenType::RightParen, ")", (0, 2), (0, 3), None),
        ],
    )];
    execute_tests(&mut reporter, &tests);
}

#[test]
fn multiline_tests() {
    let mut reporter = Collector::new();
    let tests = vec![(
        "(\n)",
        vec![
            token(TokenType::LeftParen, "(", (0, 0), (0, 1), None),
            token(TokenType::RightParen, ")", (1, 0), (1, 1), None),
        ],
    )];
    execute_tests(&mut reporter, &tests);
}

#[test]
fn comment_tests() {
    let mut reporter = Collector::new();
    let tests = vec![(
        "(// a comment\n)",
        vec![
            token(TokenType::LeftParen, "(", (0, 0), (0, 1), None),
            token(TokenType::RightParen, ")", (1, 0), (1, 1), None),
        ],
    )];
    execute_tests(&mut reporter, &tests);
}

#[test]
fn string_tests() {
    let mut reporter = Collector::new();
    let tests = vec![
        (
            "\"a string\"",
            vec![token(
                TokenType::String,
                "\"a string\"",
                (0, 0),
                (0, 10),
                Some(Literal::String("a string".to_string())),
            )],
        ),
        (
            "\"a string\nwith a new line\"",
            vec![token(
                TokenType::String,
                "\"a string\nwith a new line\"",
                (0, 0),
                (1, 16),
                Some(Literal::String("a string\nwith a new line".to_string())),
            )],
        ),
    ];
    execute_tests(&mut reporter, &tests);
}

#[test]
fn number_tests() {
    let mut reporter = Collector::new();
    let tests = vec![
        (
            "10",
            vec![token(
                TokenType::Number,
                "10",
                (0, 0),
                (0, 2),
                Some(Literal::Number("10".to_string())),
            )],
        ),
        (
            "10.",
            vec![
                token(
                    TokenType::Number,
                    "10",
                    (0, 0),
                    (0, 2),
                    Some(Literal::Number("10".to_string())),
                ),
                token(TokenType::Dot, ".", (0, 2), (0, 3), None),
            ],
        ),
        (
            "10.1",
            vec![token(
                TokenType::Number,
                "10.1",
                (0, 0),
                (0, 4),
                Some(Literal::Number("10.1".to_string())),
            )],
        ),
    ];
    execute_tests(&mut reporter, &tests);
}

#[test]
fn identifier_tests() {
    let mut reporter = Collector::new();
    let tests = vec![
        (
            "andy",
            vec![token(TokenType::Identifier, "andy", (0, 0), (0, 4), None)],
        ),
        (
            "and",
            vec![token(TokenType::And, "and", (0, 0), (0, 3), None)],
        ),
        (
            "with_underscore",
            vec![token(
                TokenType::Identifier,
                "with_underscore",
                (0, 0),
                (0, 15),
                None,
            )],
        ),
        (
            "with123digits",
            vec![token(
                TokenType::Identifier,
                "with123digits",
                (0, 0),
                (0, 13),
                None,
            )],
        ),
        (
            "_SHOUT",
            vec![token(TokenType::Identifier, "_SHOUT", (0, 0), (0, 6), None)],
        ),
        (
            "false",
            vec![token(
                TokenType::False,
                "false",
                (0, 0),
                (0, 5),
                Some(Literal::False),
            )],
        ),
    ];
    execute_tests(&mut reporter, &tests);
}

#[test]
fn adjacent_token_tests() {
    let mut reporter = Collector::new();
    let tests = vec![
        (
            "()",
            vec![
                token(TokenType::LeftParen, "(", (0, 0), (0, 1), None),
                token(TokenType::RightParen, ")", (0, 1), (0, 2), None),
            ],
        ),
        (
            "10.!",
            vec![
                token(
                    TokenType::Number,
                    "10",
                    (0, 0),
                    (0, 2),
                    Some(Literal::Number("10".to_string())),
                ),
                token(TokenType::Dot, ".", (0, 2), (0, 3), None),
                token(TokenType::Bang, "!", (0, 3), (0, 4), None),
            ],
        ),
        (
            ".\"10.1\"10.1",
            vec![
                token(TokenType::Dot, ".", (0, 0), (0, 1), None),
                token(
                    TokenType::String,
                    "\"10.1\"",
                    (0, 1),
                    (0, 7),
                    Some(Literal::String("10.1".to_string())),
                ),
                token(
                    TokenType::Number,
                    "10.1",
                    (0, 7),
                    (0, 11),
                    Some(Literal::Number("10.1".to_string())),
                ),
            ],
        ),
    ];
    execute_tests(&mut reporter, &tests);
}

#[test]
fn diagnostic_tests() {
    let mut reporter = Collector::new();
    let tests = vec![
        (
            "\"a string",
            vec![(
                FileLocation::new(0, 0),
                FileLocation::new(0, 9),
                "Unterminated string".to_string(),
            )],
        ),
        (
            "\"a string\nplus",
            vec![(
                FileLocation::new(0, 0),
                FileLocation::new(1, 4),
                "Unterminated string".to_string(),
            )],
        ),
        (
            " ~ ",
            vec![(
                FileLocation::new(0, 1),
                FileLocation::new(0, 2),
                "Unexpected character".to_string(),
            )],
        ),
    ];
    for (source, expected_diagnostics) in tests {
        reporter.reset();
        let _tokens = scan_tokens(&mut reporter, source);
        assert!(!has_messages(&reporter), "Unexpected messages reported");
        let found = diagnostics(&reporter);
        assert!(!found.is_empty(), "Unexpectedly no diagnostics reported");
        assert_eq!(
            found.len(),
            expected_diagnostics.len(),
            "Incorrect diagnostics returned"
        );
        for (diagnostic, expected) in found.iter().zip(expected_diagnostics.iter()) {
            assert_eq!(diagnostic, expected, "Unexpected diagnostic returned");
        }
    }
}

#[test]
fn scanning_keeps_positions_across_lines() {
    let mut reporter = Collector::new();
    let tokens = scan_tokens(&mut reporter, "var a;\n  print a;");
    let kinds: Vec<TokenType> = tokens.iter().map(|t| t.token_type).collect();
    assert_eq!(
        kinds,
        vec![
            TokenType::Var,
            TokenType::Identifier,
            TokenType::Semicolon,
            TokenType::Print,
            TokenType::Identifier,
            TokenType::Semicolon,
            TokenType::Eof
        ]
    );
    assert_eq!(tokens[3].start, FileLocation::new(1, 2));
    assert_eq!(tokens[3].end, FileLocation::new(1, 7));
}

#[test]
fn unscannable_sources_are_recognised() {
    assert!(!lox::scanner::is_scannable(""));
    assert!(lox::scanner::is_scannable("print 1;"));
}
