use crate::expr::{ExprView, next_id};
use crate::location::FileLocation;
use crate::reporter::{ReportView, diagnostic};
use crate::stmt::{FunctionView, StmtView};
use crate::token::{LiteralView, TokenType, TokenView};
use vstd::prelude::*;

verus! {

/// What parsing reads and has produced: the token consumed last (until taken),
/// where the last consumed token started, the tokens still to read (the next
/// one last), whether unfinished calls are kept, the next expression
/// identifier and the reports so far.
pub struct ParseState {
    pub current: Option<TokenView>,
    pub last: Option<FileLocation>,
    pub tokens: Seq<TokenView>,
    pub allow_invalid_call: bool,
    pub next_id: usize,
    pub reports: Seq<ReportView>,
}

/// The outcome of a parsing step: the state after it, and what it parsed or
/// the message it failed with.
pub type Step<T> = (ParseState, Result<T, Seq<char>>);

pub open spec fn sp_peek(s: ParseState) -> Option<TokenView> {
    if s.tokens.len() > 0 {
        Some(s.tokens.last())
    } else {
        None
    }
}

pub open spec fn sp_at_end(s: ParseState) -> bool {
    match sp_peek(s) {
        Some(t) => t.token_type == TokenType::Eof,
        None => true,
    }
}

/// Whether there is a next token and it has type `t`.
pub open spec fn sp_check(s: ParseState, t: TokenType) -> bool {
    sp_peek(s) is Some && sp_peek(s)->0.token_type == t
}

/// Reads the next token, if there is one.
pub open spec fn sp_advance(s: ParseState) -> ParseState {
    if s.tokens.len() > 0 {
        ParseState {
            current: Some(s.tokens.last()),
            last: Some(s.tokens.last().start),
            tokens: s.tokens.drop_last(),
            ..s
        }
    } else {
        ParseState { current: None, ..s }
    }
}

/// Whether the next token has one of the types `ts`.
pub open spec fn sp_check_any(s: ParseState, ts: Seq<TokenType>) -> bool {
    exists|i: int| 0 <= i < ts.len() && sp_check(s, #[trigger] ts[i])
}

/// Takes the token consumed last.
pub open spec fn sp_take(s: ParseState) -> Step<TokenView> {
    match s.current {
        Some(t) => (ParseState { current: None, ..s }, Ok(t)),
        None => (s, Err("no current token"@)),
    }
}

/// Where a diagnostic is reported: where the last consumed token started, or
/// else where the next one starts.
pub open spec fn sp_nearby(s: ParseState) -> FileLocation {
    match s.last {
        Some(l) => l,
        None => match sp_peek(s) {
            Some(t) => t.start,
            None => FileLocation { line_number: 0, line_offset: 0 },
        },
    }
}

/// Reports `m` at the nearby location.
pub open spec fn sp_diagnose(s: ParseState, m: Seq<char>) -> ParseState {
    let l = sp_nearby(s);
    ParseState { reports: s.reports.push(diagnostic(l, l, m)), ..s }
}

/// Reads the next token when it has type `t`; otherwise reports `m` and fails.
pub open spec fn sp_consume(s: ParseState, t: TokenType, m: Seq<char>) -> Step<()> {
    if sp_check(s, t) {
        (sp_advance(s), Ok(()))
    } else {
        (sp_diagnose(s, m), Err(m))
    }
}

/// The next expression identifier, and the state that hands out the one after.
pub open spec fn sp_id(s: ParseState) -> (ParseState, usize) {
    (ParseState { next_id: next_id(s.next_id), ..s }, s.next_id)
}

pub open spec fn equality_types() -> Seq<TokenType> {
    seq![TokenType::BangEqual, TokenType::EqualEqual]
}

pub open spec fn comparison_types() -> Seq<TokenType> {
    seq![TokenType::Greater, TokenType::GreaterEqual, TokenType::Less, TokenType::LessEqual]
}

pub open spec fn term_types() -> Seq<TokenType> {
    seq![TokenType::Minus, TokenType::Plus]
}

pub open spec fn factor_types() -> Seq<TokenType> {
    seq![TokenType::Slash, TokenType::Star]
}

pub open spec fn unary_types() -> Seq<TokenType> {
    seq![TokenType::Bang, TokenType::Minus]
}

pub open spec fn primary_types() -> Seq<TokenType> {
    seq![TokenType::False, TokenType::True, TokenType::Nil, TokenType::Number, TokenType::String]
}

/// Whether a token of type `t` starts a declaration or statement.
pub open spec fn starts_statement(t: TokenType) -> bool {
    t == TokenType::Class || t == TokenType::Fun || t == TokenType::Var || t == TokenType::For
        || t == TokenType::If || t == TokenType::While || t == TokenType::Print || t
        == TokenType::Return
}

/// After an error: reads at least one token (unless at the end), then skips
/// tokens until the one read last is a `;`, or the next one starts a
/// declaration or statement, or the end is reached.
pub open spec fn sp_synchronize(s: ParseState) -> ParseState {
    if sp_at_end(s) {
        s
    } else {
        sp_skip_to_boundary(sp_advance(s))
    }
}

/// Skips tokens until the one read last is a `;`, or the next one starts a
/// declaration or statement, or the end is reached.
pub open spec fn sp_skip_to_boundary(s: ParseState) -> ParseState
    decreases s.tokens.len(),
{
    if sp_at_end(s) {
        s
    } else if s.current matches Some(t) && t.token_type == TokenType::Semicolon {
        s
    } else if starts_statement(sp_peek(s)->0.token_type) {
        s
    } else {
        sp_skip_to_boundary(sp_advance(s))
    }
}

/// The state parsing starts from: nothing consumed yet, and all of `tokens`
/// to read, the first one next.
pub open spec fn start_state(tokens: Seq<TokenView>, allow_invalid_call: bool) -> ParseState {
    ParseState {
        current: None,
        last: None,
        tokens: tokens.reverse(),
        allow_invalid_call,
        next_id: 1,
        reports: Seq::empty(),
    }
}

/// What parsing `tokens` gives: the statements, and the reports made on the way.
pub open spec fn parsed(tokens: Seq<TokenView>, allow_invalid_call: bool) -> (
    Seq<StmtView>,
    Seq<ReportView>,
) {
    let (s, statements) = sp_parse(start_state(tokens, allow_invalid_call), Seq::empty());
    (statements, s.reports)
}

/// The declarations of the program, one after another; a failing declaration
/// is reported as a message; a further declaration is read only where the one
/// before it read some token.
pub open spec fn sp_parse(s: ParseState, done: Seq<StmtView>) -> (ParseState, Seq<StmtView>)
    decreases s.tokens.len(),
{
    if sp_at_end(s) {
        (s, done)
    } else {
        let (s1, r) = sp_declaration(s);
        let (s2, done2) = match r {
            Ok(stmt) => (s1, done.push(stmt)),
            Err(m) => (
                ParseState { reports: s1.reports.push(ReportView::Message { message: m }), ..s1 },
                done,
            ),
        };
        if s2.tokens.len() < s.tokens.len() {
            sp_parse(s2, done2)
        } else {
            (s2, done2)
        }
    }
}

pub open spec fn sp_declaration(s: ParseState) -> Step<StmtView>
    decreases s.tokens.len(), 126int,
{
    let (s1, r) = if sp_check(s, TokenType::Class) {
        sp_class(sp_advance(s))
    } else if sp_check(s, TokenType::Fun) {
        sp_function(sp_advance(s), "function"@)
    } else if sp_check(s, TokenType::Var) {
        sp_var(sp_advance(s))
    } else {
        sp_statement(s)
    };
    if r is Err {
        (sp_synchronize(s1), r)
    } else {
        (s1, r)
    }
}

pub open spec fn sp_class(s: ParseState) -> Step<StmtView>
    decreases s.tokens.len(), 121int,
{
    let (s1, r1) = sp_consume(s, TokenType::Identifier, "Expect class name"@);
    if let Err(m) = r1 {
        (s1, Err(m))
    } else {
        let (s2, name) = sp_take(s1);
        if let Err(m) = name {
            (s2, Err(m))
        } else {
            let (s3, superclass) = if sp_check(s2, TokenType::Less) {
                let (s4, r4) = sp_consume(
                    sp_advance(s2),
                    TokenType::Identifier,
                    "Expect superclass name"@,
                );
                if let Err(m) = r4 {
                    (s4, Err(m))
                } else {
                    let (s5, sc) = sp_take(s4);
                    match sc {
                        Err(m) => (s5, Err(m)),
                        Ok(t) => {
                            let (s6, id) = sp_id(s5);
                            (s6, Ok(Some(ExprView::Variable { id, name: t })))
                        },
                    }
                }
            } else {
                (s2, Ok(None))
            };
            match superclass {
                Err(m) => (s3, Err(m)),
                Ok(superclass) => {
                    let (s7, r7) = sp_consume(
                        s3,
                        TokenType::LeftBrace,
                        "Expect '{{' before class body"@,
                    );
                    if let Err(m) = r7 {
                        (s7, Err(m))
                    } else if s7.tokens.len() < s.tokens.len() {
                        sp_class_body(s7, name->Ok_0, superclass)
                    } else {
                        (s7, Err(Seq::empty()))
                    }
                },
            }
        }
    }
}

/// The methods of a class after its `{`, and the `}`.
pub open spec fn sp_class_body(
    s: ParseState,
    name: TokenView,
    superclass: Option<ExprView>,
) -> Step<StmtView>
    decreases s.tokens.len(), 124int,
{
    let (s8, methods) = sp_class_methods(s, Seq::empty());
    match methods {
        Err(m) => (s8, Err(m)),
        Ok(methods) => {
            let (s9, r9) = sp_consume(s8, TokenType::RightBrace, "Expect '}}' after class body"@);
            if let Err(m) = r9 {
                (s9, Err(m))
            } else {
                (s9, Ok(StmtView::Class { name, superclass, methods }))
            }
        },
    }
}

/// The methods of a class body, up to its `}`.
pub open spec fn sp_class_methods(s: ParseState, done: Seq<StmtView>) -> Step<Seq<StmtView>>
    decreases s.tokens.len(), 123int,
{
    if sp_check(s, TokenType::RightBrace) || sp_at_end(s) {
        (s, Ok(done))
    } else {
        let (s1, r) = sp_function(s, "method"@);
        match r {
            Err(m) => (s1, Err(m)),
            Ok(method) => if s1.tokens.len() < s.tokens.len() {
                sp_class_methods(s1, done.push(method))
            } else {
                (s1, Err(Seq::empty()))
            },
        }
    }
}

pub open spec fn sp_function(s: ParseState, kind: Seq<char>) -> Step<StmtView>
    decreases s.tokens.len(), 121int,
{
    let (s1, r1) = sp_consume(s, TokenType::Identifier, "Expect "@ + kind + " name"@);
    if let Err(m) = r1 {
        (s1, Err(m))
    } else {
        let (s2, name) = sp_take(s1);
        if let Err(m) = name {
            (s2, Err(m))
        } else {
            let (s3, r3) = sp_consume(
                s2,
                TokenType::LeftParen,
                "Expect '(' after "@ + kind + " name"@,
            );
            if let Err(m) = r3 {
                (s3, Err(m))
            } else if s3.tokens.len() < s.tokens.len() {
                sp_function_rest(s3, kind, name->Ok_0)
            } else {
                (s3, Err(Seq::empty()))
            }
        }
    }
}

/// The parameters and body of a function after its `(`.
pub open spec fn sp_function_rest(s: ParseState, kind: Seq<char>, name: TokenView) -> Step<
    StmtView,
>
    decreases s.tokens.len(), 122int,
{
    let (s4, params) = if !sp_check(s, TokenType::RightParen) {
        sp_params(s, Seq::empty())
    } else {
        (s, Ok(Seq::empty()))
    };
    match params {
        Err(m) => (s4, Err(m)),
        Ok(params) => {
            let (s5, r5) = sp_consume(
                s4,
                TokenType::RightParen,
                "Expect ')' after "@ + kind + " parameters"@,
            );
            if let Err(m) = r5 {
                (s5, Err(m))
            } else {
                let (s6, r6) = sp_consume(
                    s5,
                    TokenType::LeftBrace,
                    "Expect '{' before "@ + kind + " body"@,
                );
                if let Err(m) = r6 {
                    (s6, Err(m))
                } else if s6.tokens.len() < s.tokens.len() {
                    let (s7, body) = sp_block(s6);
                    match body {
                        Ok(StmtView::Block { statements }) => (
                            s7,
                            Ok(StmtView::Function { function: FunctionView { name, params, body: statements } }),
                        ),
                        Ok(_) => (s7, Err("Expect a block "@ + kind + " body"@)),
                        Err(m) => (s7, Err(m)),
                    }
                } else {
                    (s6, Err(Seq::empty()))
                }
            }
        },
    }
}

/// The parameters of a function, each an identifier, separated by commas.
/// Beyond 255 of them each further one is reported, and parsing goes on.
pub open spec fn sp_params(s: ParseState, done: Seq<TokenView>) -> Step<Seq<TokenView>>
    decreases s.tokens.len(), 120int,
{
    let s0 = if done.len() > 255 {
        sp_diagnose(s, "Cannot have more than 255 parameters"@)
    } else {
        s
    };
    let (s1, r1) = sp_consume(s0, TokenType::Identifier, "Expect parameter name"@);
    if let Err(m) = r1 {
        (s1, Err(m))
    } else {
        let (s2, name) = sp_take(s1);
        match name {
            Err(m) => (s2, Err(m)),
            Ok(t) => if sp_check(s2, TokenType::Comma) && s2.tokens.len() < s.tokens.len() {
                sp_params(sp_advance(s2), done.push(t))
            } else {
                (s2, Ok(done.push(t)))
            },
        }
    }
}

pub open spec fn sp_var(s: ParseState) -> Step<StmtView>
    decreases s.tokens.len(), 121int,
{
    let (s1, r1) = sp_consume(s, TokenType::Identifier, "Expect a variable name"@);
    if let Err(m) = r1 {
        (s1, Err(m))
    } else {
        let (s2, name) = sp_take(s1);
        if let Err(m) = name {
            (s2, Err(m))
        } else if s2.tokens.len() < s.tokens.len() {
            let (s3, initialiser) = if sp_check(s2, TokenType::Equal) {
                let (s4, e) = sp_expression(sp_advance(s2));
                match e {
                    Ok(e) => (s4, Ok(Some(e))),
                    Err(m) => (s4, Err(m)),
                }
            } else {
                (s2, Ok(None))
            };
            match initialiser {
                Err(m) => (s3, Err(m)),
                Ok(initialiser) => {
                    let (s5, r5) = sp_consume(
                        s3,
                        TokenType::Semicolon,
                        "Expect ';' after variable declaration"@,
                    );
                    if let Err(m) = r5 {
                        (s5, Err(m))
                    } else {
                        (s5, Ok(StmtView::Var { name: name->Ok_0, initialiser }))
                    }
                },
            }
        } else {
            (s2, Err(Seq::empty()))
        }
    }
}

pub open spec fn sp_statement(s: ParseState) -> Step<StmtView>
    decreases s.tokens.len(), 124int,
{
    if sp_check(s, TokenType::For) {
        sp_for(sp_advance(s))
    } else if sp_check(s, TokenType::If) {
        sp_if(sp_advance(s))
    } else if sp_check(s, TokenType::Print) {
        sp_print(sp_advance(s))
    } else if sp_check(s, TokenType::Return) {
        sp_return(sp_advance(s))
    } else if sp_check(s, TokenType::While) {
        sp_while(sp_advance(s))
    } else if sp_check(s, TokenType::LeftBrace) {
        sp_block(sp_advance(s))
    } else {
        sp_expression_statement(s)
    }
}

pub open spec fn sp_if(s: ParseState) -> Step<StmtView>
    decreases s.tokens.len(), 121int,
{
    let (s1, r1) = sp_consume(s, TokenType::LeftParen, "Expect '(' after 'if'"@);
    if let Err(m) = r1 {
        (s1, Err(m))
    } else if s1.tokens.len() < s.tokens.len() {
        let (s2, condition) = sp_expression(s1);
        match condition {
            Err(m) => (s2, Err(m)),
            Ok(condition) => {
                let (s3, r3) = sp_consume(
                    s2,
                    TokenType::RightParen,
                    "Expect ')' after 'if' condition"@,
                );
                if let Err(m) = r3 {
                    (s3, Err(m))
                } else if s3.tokens.len() < s.tokens.len() {
                    let (s4, then_branch) = sp_statement(s3);
                    match then_branch {
                        Err(m) => (s4, Err(m)),
                        Ok(then_branch) => if sp_check(s4, TokenType::Else) && s4.tokens.len()
                            < s.tokens.len() {
                            let (s5, else_branch) = sp_statement(sp_advance(s4));
                            match else_branch {
                                Err(m) => (s5, Err(m)),
                                Ok(else_branch) => (
                                    s5,
                                    Ok(
                                        StmtView::If {
                                            condition,
                                            then_branch: Box::new(then_branch),
                                            else_branch: Some(Box::new(else_branch)),
                                        },
                                    ),
                                ),
                            }
                        } else {
                            (
                                s4,
                                Ok(
                                    StmtView::If {
                                        condition,
                                        then_branch: Box::new(then_branch),
                                        else_branch: None,
                                    },
                                ),
                            )
                        },
                    }
                } else {
                    (s3, Err(Seq::empty()))
                }
            },
        }
    } else {
        (s1, Err(Seq::empty()))
    }
}

pub open spec fn sp_print(s: ParseState) -> Step<StmtView>
    decreases s.tokens.len(), 121int,
{
    let (s1, value) = sp_expression(s);
    match value {
        Err(m) => (s1, Err(m)),
        Ok(value) => {
            let (s2, r2) = sp_consume(s1, TokenType::Semicolon, "Expect ';' after value"@);
            if let Err(m) = r2 {
                (s2, Err(m))
            } else {
                (s2, Ok(StmtView::Print { value }))
            }
        },
    }
}

pub open spec fn sp_return(s: ParseState) -> Step<StmtView>
    decreases s.tokens.len(), 121int,
{
    let (s1, keyword) = sp_take(s);
    match keyword {
        Err(m) => (s1, Err(m)),
        Ok(keyword) => {
            let (s2, value) = if !sp_check(s1, TokenType::Semicolon) {
                let (s3, e) = sp_expression(s1);
                match e {
                    Ok(e) => (s3, Ok(Some(e))),
                    Err(m) => (s3, Err(m)),
                }
            } else {
                (s1, Ok(None))
            };
            match value {
                Err(m) => (s2, Err(m)),
                Ok(value) => {
                    let (s4, r4) = sp_consume(
                        s2,
                        TokenType::Semicolon,
                        "Expect ';' after return value"@,
                    );
                    if let Err(m) = r4 {
                        (s4, Err(m))
                    } else {
                        (s4, Ok(StmtView::Return { keyword, value }))
                    }
                },
            }
        },
    }
}

pub open spec fn sp_while(s: ParseState) -> Step<StmtView>
    decreases s.tokens.len(), 121int,
{
    let (s1, r1) = sp_consume(s, TokenType::LeftParen, "Expect '(' after 'while'"@);
    if let Err(m) = r1 {
        (s1, Err(m))
    } else if s1.tokens.len() < s.tokens.len() {
        let (s2, condition) = sp_expression(s1);
        match condition {
            Err(m) => (s2, Err(m)),
            Ok(condition) => {
                let (s3, r3) = sp_consume(
                    s2,
                    TokenType::RightParen,
                    "Expect ')' after 'while' condition"@,
                );
                if let Err(m) = r3 {
                    (s3, Err(m))
                } else if s3.tokens.len() < s.tokens.len() {
                    let (s4, body) = sp_statement(s3);
                    match body {
                        Err(m) => (s4, Err(m)),
                        Ok(body) => (s4, Ok(StmtView::While { condition, body: Box::new(body) })),
                    }
                } else {
                    (s3, Err(Seq::empty()))
                }
            },
        }
    } else {
        (s1, Err(Seq::empty()))
    }
}

/// The literal `true` that an empty `for` condition stands for.
pub open spec fn true_literal(l: FileLocation) -> TokenView {
    TokenView {
        token_type: TokenType::True,
        lexeme: "true"@,
        literal: Some(LiteralView::True),
        start: l,
        end: l,
    }
}

/// The parts of a `for` loop after its `(`.
pub open spec fn sp_for(s: ParseState) -> Step<StmtView>
    decreases s.tokens.len(), 121int,
{
    let (s1, r1) = sp_consume(s, TokenType::LeftParen, "Expect '(' after 'for'"@);
    if let Err(m) = r1 {
        (s1, Err(m))
    } else if s1.tokens.len() < s.tokens.len() {
        let (s2, initialiser) = if sp_check(s1, TokenType::Semicolon) {
            (sp_advance(s1), Ok(None))
        } else if sp_check(s1, TokenType::Var) {
            let (s3, v) = sp_var(sp_advance(s1));
            match v {
                Ok(v) => (s3, Ok(Some(v))),
                Err(m) => (s3, Err(m)),
            }
        } else {
            let (s3, v) = sp_expression_statement(s1);
            match v {
                Ok(v) => (s3, Ok(Some(v))),
                Err(m) => (s3, Err(m)),
            }
        };
        match initialiser {
            Err(m) => (s2, Err(m)),
            Ok(initialiser) => if s2.tokens.len() < s.tokens.len() {
                sp_for_condition(s2, initialiser)
            } else {
                (s2, Err(Seq::empty()))
            },
        }
    } else {
        (s1, Err(Seq::empty()))
    }
}

/// The condition, increment and body of a `for` loop, after its initialiser.
pub open spec fn sp_for_condition(s: ParseState, initialiser: Option<StmtView>) -> Step<StmtView>
    decreases s.tokens.len(), 122int,
{
    let (s1, condition) = if !sp_check(s, TokenType::Semicolon) {
        sp_expression(s)
    } else {
        let l = sp_nearby(s);
        let (s2, id) = sp_id(s);
        (s2, Ok(ExprView::Literal { id, value: true_literal(l) }))
    };
    match condition {
        Err(m) => (s1, Err(m)),
        Ok(condition) => {
            let (s3, r3) = sp_consume(
                s1,
                TokenType::Semicolon,
                "Expect ';' after 'for' loop condition"@,
            );
            if let Err(m) = r3 {
                (s3, Err(m))
            } else if s3.tokens.len() < s.tokens.len() {
                sp_for_increment(s3, initialiser, condition)
            } else {
                (s3, Err(Seq::empty()))
            }
        },
    }
}

/// The increment and body of a `for` loop, after its condition.
pub open spec fn sp_for_increment(
    s: ParseState,
    initialiser: Option<StmtView>,
    condition: ExprView,
) -> Step<StmtView>
    decreases s.tokens.len(), 121int,
{
    let (s4, increment) = if !sp_check(s, TokenType::RightParen) {
        let (s5, e) = sp_expression(s);
        match e {
            Ok(e) => (s5, Ok(Some(e))),
            Err(m) => (s5, Err(m)),
        }
    } else {
        (s, Ok(None))
    };
    match increment {
        Err(m) => (s4, Err(m)),
        Ok(increment) => {
            let (s6, r6) = sp_consume(s4, TokenType::RightParen, "Expect ')' after 'for' clauses"@);
            if let Err(m) = r6 {
                (s6, Err(m))
            } else if s6.tokens.len() < s.tokens.len() {
                let (s7, body) = sp_statement(s6);
                match body {
                    Err(m) => (s7, Err(m)),
                    Ok(body) => (s7, Ok(for_loop(initialiser, condition, increment, body))),
                }
            } else {
                (s6, Err(Seq::empty()))
            }
        },
    }
}

/// A `for` loop as a block holding the initialiser and a `while` loop whose
/// body ends with the increment.
pub open spec fn for_loop(
    initialiser: Option<StmtView>,
    condition: ExprView,
    increment: Option<ExprView>,
    body: StmtView,
) -> StmtView {
    let body = match increment {
        Some(increment) => StmtView::Block {
            statements: seq![body, StmtView::Expression { expression: increment }],
        },
        None => body,
    };
    let body = StmtView::While { condition, body: Box::new(body) };
    match initialiser {
        Some(initialiser) => StmtView::Block { statements: seq![initialiser, body] },
        None => body,
    }
}

pub open spec fn sp_block(s: ParseState) -> Step<StmtView>
    decreases s.tokens.len(), 130int,
{
    let (s1, statements) = sp_block_items(s, Seq::empty());
    match statements {
        Err(m) => (s1, Err(m)),
        Ok(statements) => {
            let (s2, r2) = sp_consume(s1, TokenType::RightBrace, "Expect '}' after block"@);
            if let Err(m) = r2 {
                (s2, Err(m))
            } else {
                (s2, Ok(StmtView::Block { statements }))
            }
        },
    }
}

/// The declarations of a block, up to its `}`.
pub open spec fn sp_block_items(s: ParseState, done: Seq<StmtView>) -> Step<Seq<StmtView>>
    decreases s.tokens.len(), 128int,
{
    if sp_check(s, TokenType::RightBrace) || sp_at_end(s) {
        (s, Ok(done))
    } else {
        let (s1, r) = sp_declaration(s);
        match r {
            Err(m) => (s1, Err(m)),
            Ok(stmt) => if s1.tokens.len() < s.tokens.len() {
                sp_block_items(s1, done.push(stmt))
            } else {
                (s1, Err(Seq::empty()))
            },
        }
    }
}

pub open spec fn sp_expression_statement(s: ParseState) -> Step<StmtView>
    decreases s.tokens.len(), 122int,
{
    let (s1, expression) = sp_expression(s);
    match expression {
        Err(m) => (s1, Err(m)),
        Ok(expression) => {
            let (s2, r2) = sp_consume(s1, TokenType::Semicolon, "Expect ';' after expression"@);
            match r2 {
                Ok(_) => (s2, Ok(StmtView::Expression { expression })),
                Err(m) => if !s2.allow_invalid_call {
                    (s2, Err(m))
                } else {
                    (s2, Ok(StmtView::Expression { expression }))
                },
            }
        },
    }
}

pub open spec fn sp_expression(s: ParseState) -> Step<ExprView>
    decreases s.tokens.len(), 120int,
{
    sp_assignment(s)
}

pub open spec fn sp_assignment(s: ParseState) -> Step<ExprView>
    decreases s.tokens.len(), 118int,
{
    let (s1, expr) = sp_or(s);
    match expr {
        Err(m) => (s1, Err(m)),
        Ok(expr) => if sp_check(s1, TokenType::Equal) && s1.tokens.len() <= s.tokens.len() {
            let (s2, value) = sp_assignment(sp_advance(s1));
            match value {
                Err(m) => (s2, Err(m)),
                Ok(value) => match expr {
                    ExprView::Variable { name, .. } => {
                        let (s3, id) = sp_id(s2);
                        (s3, Ok(ExprView::Assign { id, name, value: Box::new(value) }))
                    },
                    ExprView::Get { object, name, .. } => {
                        let (s3, id) = sp_id(s2);
                        (s3, Ok(ExprView::SetProperty { id, object, name, value: Box::new(value) }))
                    },
                    _ => (sp_diagnose(s2, "Invalid assignment target"@), Ok(expr)),
                },
            }
        } else {
            (s1, Ok(expr))
        },
    }
}

pub open spec fn sp_or(s: ParseState) -> Step<ExprView>
    decreases s.tokens.len(), 116int,
{
    let (s1, left) = sp_and(s);
    match left {
        Err(m) => (s1, Err(m)),
        Ok(left) => if s1.tokens.len() <= s.tokens.len() {
            sp_or_rest(s1, left)
        } else {
            (s1, Err(Seq::empty()))
        },
    }
}

/// Each `or` and its right operand, after `left`.
pub open spec fn sp_or_rest(s: ParseState, left: ExprView) -> Step<ExprView>
    decreases s.tokens.len(), 115int,
{
    if sp_check(s, TokenType::Or) {
        let (s1, operator) = sp_take(sp_advance(s));
        match operator {
            Err(m) => (s1, Err(m)),
            Ok(operator) => {
                let (s2, right) = sp_and(s1);
                match right {
                    Err(m) => (s2, Err(m)),
                    Ok(right) => {
                        let (s3, id) = sp_id(s2);
                        if s3.tokens.len() < s.tokens.len() {
                            sp_or_rest(
                                s3,
                                ExprView::Logical {
                                    id,
                                    left: Box::new(left),
                                    operator,
                                    right: Box::new(right),
                                },
                            )
                        } else {
                            (s3, Err(Seq::empty()))
                        }
                    },
                }
            },
        }
    } else {
        (s, Ok(left))
    }
}

pub open spec fn sp_and(s: ParseState) -> Step<ExprView>
    decreases s.tokens.len(), 114int,
{
    let (s1, left) = sp_binary(s, 0);
    match left {
        Err(m) => (s1, Err(m)),
        Ok(left) => if s1.tokens.len() <= s.tokens.len() {
            sp_and_rest(s1, left)
        } else {
            (s1, Err(Seq::empty()))
        },
    }
}

/// Each `and` and its right operand, after `left`.
pub open spec fn sp_and_rest(s: ParseState, left: ExprView) -> Step<ExprView>
    decreases s.tokens.len(), 113int,
{
    if sp_check(s, TokenType::And) {
        let (s1, operator) = sp_take(sp_advance(s));
        match operator {
            Err(m) => (s1, Err(m)),
            Ok(operator) => {
                let (s2, right) = sp_binary(s1, 0);
                match right {
                    Err(m) => (s2, Err(m)),
                    Ok(right) => {
                        let (s3, id) = sp_id(s2);
                        if s3.tokens.len() < s.tokens.len() {
                            sp_and_rest(
                                s3,
                                ExprView::Logical {
                                    id,
                                    left: Box::new(left),
                                    operator,
                                    right: Box::new(right),
                                },
                            )
                        } else {
                            (s3, Err(Seq::empty()))
                        }
                    },
                }
            },
        }
    } else {
        (s, Ok(left))
    }
}

/// The binary operators of level `level` (0 equality, 1 comparison, 2 term,
/// 3 factor) and the operators they stand for.
pub open spec fn level_types(level: int) -> Seq<TokenType> {
    if level == 0 {
        equality_types()
    } else if level == 1 {
        comparison_types()
    } else if level == 2 {
        term_types()
    } else {
        factor_types()
    }
}

/// A binary expression of level `level`: operands of the next level joined by
/// the level's operators, grouped from the left.
pub open spec fn sp_binary(s: ParseState, level: int) -> Step<ExprView>
    decreases s.tokens.len(), 112 - 2 * level,
{
    if 0 <= level <= 3 {
        let (s1, left) = if level < 3 {
            sp_binary(s, level + 1)
        } else {
            sp_unary(s)
        };
        match left {
            Err(m) => (s1, Err(m)),
            Ok(left) => if s1.tokens.len() <= s.tokens.len() {
                sp_binary_rest(s1, level, left)
            } else {
                (s1, Err(Seq::empty()))
            },
        }
    } else {
        (s, Err(Seq::empty()))
    }
}

/// Each operator of level `level` and its right operand, after `left`.
pub open spec fn sp_binary_rest(s: ParseState, level: int, left: ExprView) -> Step<ExprView>
    decreases s.tokens.len(), 111 - 2 * level,
{
    if 0 <= level <= 3 && sp_check_any(s, level_types(level)) {
        let (s1, operator) = sp_take(sp_advance(s));
        match operator {
            Err(m) => (s1, Err(m)),
            Ok(operator) => {
                let (s2, right) = if level < 3 {
                    sp_binary(s1, level + 1)
                } else {
                    sp_unary(s1)
                };
                match right {
                    Err(m) => (s2, Err(m)),
                    Ok(right) => {
                        let (s3, id) = sp_id(s2);
                        if s3.tokens.len() < s.tokens.len() {
                            sp_binary_rest(
                                s3,
                                level,
                                ExprView::Binary {
                                    id,
                                    left: Box::new(left),
                                    operator,
                                    right: Box::new(right),
                                },
                            )
                        } else {
                            (s3, Err(Seq::empty()))
                        }
                    },
                }
            },
        }
    } else {
        (s, Ok(left))
    }
}

pub open spec fn sp_unary(s: ParseState) -> Step<ExprView>
    decreases s.tokens.len(), 104int,
{
    if sp_check_any(s, unary_types()) {
        let (s1, operator) = sp_take(sp_advance(s));
        match operator {
            Err(m) => (s1, Err(m)),
            Ok(operator) => if s1.tokens.len() < s.tokens.len() {
                let (s2, right) = sp_unary(s1);
                match right {
                    Err(m) => (s2, Err(m)),
                    Ok(right) => {
                        let (s3, id) = sp_id(s2);
                        (s3, Ok(ExprView::Unary { id, operator, right: Box::new(right) }))
                    },
                }
            } else {
                (s1, Err(Seq::empty()))
            },
        }
    } else {
        sp_call(s)
    }
}

pub open spec fn sp_call(s: ParseState) -> Step<ExprView>
    decreases s.tokens.len(), 102int,
{
    let (s1, expr) = sp_primary(s);
    match expr {
        Err(m) => (s1, Err(m)),
        Ok(expr) => if s1.tokens.len() <= s.tokens.len() {
            sp_call_rest(s1, expr)
        } else {
            (s1, Err(Seq::empty()))
        },
    }
}

/// Each call's arguments, or property name, after `expr`.
pub open spec fn sp_call_rest(s: ParseState, expr: ExprView) -> Step<ExprView>
    decreases s.tokens.len(), 101int,
{
    if sp_check(s, TokenType::LeftParen) {
        let (s1, call) = sp_finish_call(sp_advance(s), expr);
        match call {
            Err(m) => (s1, Err(m)),
            Ok(call) => if s1.tokens.len() < s.tokens.len() {
                sp_call_rest(s1, call)
            } else {
                (s1, Err(Seq::empty()))
            },
        }
    } else if sp_check(s, TokenType::Dot) {
        let (s1, dot) = sp_take(sp_advance(s));
        let (s2, r2) = sp_consume(s1, TokenType::Identifier, "Expect property name after '.'"@);
        match r2 {
            Ok(_) => {
                let (s3, name) = sp_take(s2);
                match name {
                    Err(m) => (s3, Err(m)),
                    Ok(name) => {
                        let (s4, id) = sp_id(s3);
                        if s4.tokens.len() < s.tokens.len() {
                            sp_call_rest(s4, ExprView::Get { id, object: Box::new(expr), name })
                        } else {
                            (s4, Err(Seq::empty()))
                        }
                    },
                }
            },
            Err(m) => if !s2.allow_invalid_call {
                (s2, Err(m))
            } else {
                match dot {
                    Err(m2) => (s2, Err(m2)),
                    Ok(dot) => {
                        let (s4, id) = sp_id(s2);
                        if s4.tokens.len() < s.tokens.len() {
                            sp_call_rest(
                                s4,
                                ExprView::InvalidGet { id, object: Box::new(expr), name: dot },
                            )
                        } else {
                            (s4, Err(Seq::empty()))
                        }
                    },
                }
            },
        }
    } else {
        (s, Ok(expr))
    }
}

/// The arguments of a call after its `(`, and the `)`.
pub open spec fn sp_finish_call(s: ParseState, callee: ExprView) -> Step<ExprView>
    decreases s.tokens.len(), 122int,
{
    let (s1, arguments) = if !sp_check(s, TokenType::RightParen) {
        sp_arguments(s, Seq::empty())
    } else {
        (s, Ok(Seq::empty()))
    };
    match arguments {
        Err(m) => (s1, Err(m)),
        Ok(arguments) => {
            let (s2, r2) = sp_consume(
                s1,
                TokenType::RightParen,
                "Expect ')' after function arguments"@,
            );
            if let Err(m) = r2 {
                (s2, Err(m))
            } else {
                let (s3, paren) = sp_take(s2);
                match paren {
                    Err(m) => (s3, Err(m)),
                    Ok(paren) => {
                        let (s4, id) = sp_id(s3);
                        (s4, Ok(ExprView::Call { id, callee: Box::new(callee), paren, arguments }))
                    },
                }
            }
        },
    }
}

/// The arguments of a call, separated by commas.  Beyond 255 of them each
/// further one is reported, and parsing goes on.
pub open spec fn sp_arguments(s: ParseState, done: Seq<ExprView>) -> Step<Seq<ExprView>>
    decreases s.tokens.len(), 121int,
{
    let s0 = if done.len() > 255 {
        sp_diagnose(s, "Cannot have more than 255 arguments"@)
    } else {
        s
    };
    let (s1, e) = sp_expression(s0);
    match e {
        Err(m) => (s1, Err(m)),
        Ok(e) => if sp_check(s1, TokenType::Comma) && s1.tokens.len() <= s.tokens.len() {
            sp_arguments(sp_advance(s1), done.push(e))
        } else {
            (s1, Ok(done.push(e)))
        },
    }
}

pub open spec fn sp_primary(s: ParseState) -> Step<ExprView>
    decreases s.tokens.len(), 100int,
{
    if sp_check_any(s, primary_types()) {
        let (s1, value) = sp_take(sp_advance(s));
        match value {
            Err(m) => (s1, Err(m)),
            Ok(value) => {
                let (s2, id) = sp_id(s1);
                (s2, Ok(ExprView::Literal { id, value }))
            },
        }
    } else if sp_check(s, TokenType::Super) {
        let (s1, keyword) = sp_take(sp_advance(s));
        match keyword {
            Err(m) => (s1, Err(m)),
            Ok(keyword) => {
                let (s2, r2) = sp_consume(s1, TokenType::Dot, "Expect '.' after 'super'"@);
                if let Err(m) = r2 {
                    (s2, Err(m))
                } else {
                    let (s3, dot) = sp_take(s2);
                    let (s4, r4) = sp_consume(
                        s3,
                        TokenType::Identifier,
                        "Expect superclass method name"@,
                    );
                    match r4 {
                        Ok(_) => {
                            let (s5, method) = sp_take(s4);
                            match method {
                                Err(m) => (s5, Err(m)),
                                Ok(method) => {
                                    let (s6, id) = sp_id(s5);
                                    (s6, Ok(ExprView::Super { id, keyword, method }))
                                },
                            }
                        },
                        Err(m) => if !s4.allow_invalid_call {
                            (s4, Err(m))
                        } else {
                            match dot {
                                Err(m2) => (s4, Err(m2)),
                                Ok(dot) => {
                                    let (s6, id) = sp_id(s4);
                                    (s6, Ok(ExprView::InvalidSuper { id, keyword, method: dot }))
                                },
                            }
                        },
                    }
                }
            },
        }
    } else if sp_check(s, TokenType::This) {
        let (s1, keyword) = sp_take(sp_advance(s));
        match keyword {
            Err(m) => (s1, Err(m)),
            Ok(keyword) => {
                let (s2, id) = sp_id(s1);
                (s2, Ok(ExprView::This { id, keyword }))
            },
        }
    } else if sp_check(s, TokenType::Identifier) {
        let (s1, name) = sp_take(sp_advance(s));
        match name {
            Err(m) => (s1, Err(m)),
            Ok(name) => {
                let (s2, id) = sp_id(s1);
                (s2, Ok(ExprView::Variable { id, name }))
            },
        }
    } else if sp_check(s, TokenType::LeftParen) {
        let (s1, expr) = sp_expression(sp_advance(s));
        match expr {
            Err(m) => (s1, Err(m)),
            Ok(expr) => {
                let (s2, r2) = sp_consume(
                    s1,
                    TokenType::RightParen,
                    "Expect ')' after expression"@,
                );
                if let Err(m) = r2 {
                    (s2, Err(m))
                } else {
                    let (s3, id) = sp_id(s2);
                    (s3, Ok(ExprView::Grouping { id, expression: Box::new(expr) }))
                }
            },
        }
    } else {
        (sp_diagnose(s, "Expect expression"@), Err("Expect expression"@))
    }
}

} // verus!
