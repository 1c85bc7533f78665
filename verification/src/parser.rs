pub mod expressions;
pub mod grammar;
pub mod statements;

use crate::expr::{
    Expr,
    ExprView,
    IdSource,
    view_expr,
    view_exprs,
    lemma_view_exprs_push,
};
use crate::scanner::tokens_view;
use crate::stmt::{
    StmtView,
    view_stmt,
    view_stmts,
    lemma_view_stmts_push,
};
use crate::token::TokenView;
use grammar::{
    ParseState,
    parsed,
    start_state,
    sp_advance,
    sp_check,
    sp_check_any,
    sp_consume,
    sp_diagnose,
    sp_nearby,
    sp_skip_to_boundary,
    sp_synchronize,
    sp_take,
};
use crate::location::FileLocation;
use crate::reporter::{
    forward,
    Collector,
    Reporter,
};
use crate::stmt::Stmt;
use crate::token::{
    Token,
    TokenType,
};
use vstd::prelude::*;

verus! {

pub const MAX_NUMBER_OF_ARGUMENTS: usize = 255;

pub struct ParseError {
    pub message: String,
}

/// The token types that each level of the expression grammar looks for.
pub struct Data {
    pub equality_tokens: Vec<TokenType>,
    pub comparison_tokens: Vec<TokenType>,
    pub factor_tokens: Vec<TokenType>,
    pub term_tokens: Vec<TokenType>,
    pub unary_tokens: Vec<TokenType>,
    pub primary_tokens: Vec<TokenType>,
}

impl Data {
    pub open spec fn wf(&self) -> bool {
        &&& self.equality_tokens@ == seq![TokenType::BangEqual, TokenType::EqualEqual]
        &&& self.comparison_tokens@ == seq![
            TokenType::Greater,
            TokenType::GreaterEqual,
            TokenType::Less,
            TokenType::LessEqual,
        ]
        &&& self.factor_tokens@ == seq![TokenType::Slash, TokenType::Star]
        &&& self.term_tokens@ == seq![TokenType::Minus, TokenType::Plus]
        &&& self.unary_tokens@ == seq![TokenType::Bang, TokenType::Minus]
        &&& self.primary_tokens@ == seq![
            TokenType::False,
            TokenType::True,
            TokenType::Nil,
            TokenType::Number,
            TokenType::String,
        ]
    }

    pub fn new() -> (d: Self)
        ensures
            d.wf(),
    {
        let equality_tokens = vec![TokenType::BangEqual, TokenType::EqualEqual];
        let comparison_tokens = vec![
            TokenType::Greater,
            TokenType::GreaterEqual,
            TokenType::Less,
            TokenType::LessEqual,
        ];
        let factor_tokens = vec![TokenType::Slash, TokenType::Star];
        let term_tokens = vec![TokenType::Minus, TokenType::Plus];
        let unary_tokens = vec![TokenType::Bang, TokenType::Minus];
        let primary_tokens = vec![
            TokenType::False,
            TokenType::True,
            TokenType::Nil,
            TokenType::Number,
            TokenType::String,
        ];
        Data {
            equality_tokens,
            comparison_tokens,
            factor_tokens,
            term_tokens,
            unary_tokens,
            primary_tokens,
        }
    }
}

/// A recursive descent parser.  It holds the token it consumed last
/// (`current_token`, until taken) and the tokens still to read, the next one
/// last.  A declaration that fails makes it skip ahead (`synchronize`).
pub struct Parser {
    pub current_token: Option<Token>,
    pub last_location: Option<FileLocation>,
    pub tokens: Vec<Token>,
    pub allow_invalid_call: bool,
    pub ids: IdSource,
    pub reports: Collector,
}

/// Builds "`prefix``kind``suffix`".
pub fn message3(prefix: &str, kind: &str, suffix: &str) -> (s: String)
    ensures
        s@ == prefix@ + kind@ + suffix@,
{
    let mut s = String::from_str(prefix);
    s.append(kind);
    s.append(suffix);
    s
}

pub proof fn lemma_view_stmts_any_push(ss: Seq<Stmt>)
    ensures
        forall|s: Stmt| #[trigger] view_stmts(ss.push(s)) == view_stmts(ss).push(view_stmt(s)),
{
    assert forall|s: Stmt| #[trigger] view_stmts(ss.push(s)) == view_stmts(ss).push(view_stmt(s)) by {
        lemma_view_stmts_push(ss, s);
    }
}

pub proof fn lemma_view_exprs_any_push(es: Seq<Expr>)
    ensures
        forall|e: Expr| #[trigger] view_exprs(es.push(e)) == view_exprs(es).push(view_expr(e)),
{
    assert forall|e: Expr| #[trigger] view_exprs(es.push(e)) == view_exprs(es).push(view_expr(e)) by {
        lemma_view_exprs_push(es, e);
    }
}

pub proof fn lemma_tokens_view_any_push(ts: Seq<Token>)
    ensures
        forall|t: Token| #[trigger] tokens_view(ts.push(t)) == tokens_view(ts).push(t@),
{
    assert forall|t: Token| #[trigger] tokens_view(ts.push(t)) == tokens_view(ts).push(t@) by {
        assert(tokens_view(ts.push(t)) =~= tokens_view(ts).push(t@));
    }
}

pub open spec fn opt_token_view(t: Option<Token>) -> Option<TokenView> {
    match t {
        Some(t) => Some(t@),
        None => None,
    }
}

pub open spec fn expr_result(r: Result<Expr, ParseError>) -> Result<ExprView, Seq<char>> {
    match r {
        Ok(e) => Ok(view_expr(e)),
        Err(e) => Err(e.message@),
    }
}

pub open spec fn stmt_result(r: Result<Stmt, ParseError>) -> Result<StmtView, Seq<char>> {
    match r {
        Ok(s) => Ok(view_stmt(s)),
        Err(e) => Err(e.message@),
    }
}

pub open spec fn unit_result(r: Result<(), ParseError>) -> Result<(), Seq<char>> {
    match r {
        Ok(_) => Ok(()),
        Err(e) => Err(e.message@),
    }
}

pub open spec fn token_result(r: Result<Token, ParseError>) -> Result<TokenView, Seq<char>> {
    match r {
        Ok(t) => Ok(t@),
        Err(e) => Err(e.message@),
    }
}

impl Parser {
    /// The next token to read.
    pub open spec fn peek(&self) -> Option<Token> {
        if self.tokens.len() > 0 {
            Some(self.tokens@.last())
        } else {
            None
        }
    }

    pub open spec fn spec_is_at_end(&self) -> bool {
        match self.peek() {
            Some(t) => t.token_type == TokenType::Eof,
            None => true,
        }
    }

    /// Whether there is a next token and it has type `t`.
    pub open spec fn spec_check(&self, t: TokenType) -> bool {
        self.peek() is Some && self.peek().unwrap().token_type == t
    }

    pub open spec fn remaining(&self) -> nat {
        self.tokens.len() as nat
    }

    /// The parser's state as the grammar sees it.
    pub open spec fn view(&self) -> ParseState {
        ParseState {
            current: opt_token_view(self.current_token),
            last: self.last_location,
            tokens: tokens_view(self.tokens@),
            allow_invalid_call: self.allow_invalid_call,
            next_id: self.ids.next,
            reports: self.reports.reports(),
        }
    }

    pub fn new(tokens: Vec<Token>, allow_invalid_call: bool) -> (p: Self)
        ensures
            p.tokens@ == tokens@.reverse(),
            p.current_token is None,
            p.last_location is None,
            p.allow_invalid_call == allow_invalid_call,
            p.ids.next == 1,
            p.reports.reports() == Seq::<crate::reporter::ReportView>::empty(),
    {
        let mut tokens = tokens;
        let mut reversed: Vec<Token> = Vec::new();
        let ghost given = tokens@;
        while tokens.len() > 0
            invariant
                reversed@ + tokens@.reverse() == given.reverse(),
            decreases tokens.len(),
        {
            let ghost before = tokens@;
            let t = tokens.pop().unwrap();
            reversed.push(t);
            assert(before.reverse() =~= seq![t] + tokens@.reverse());
            assert(reversed@ + tokens@.reverse() =~= given.reverse());
        }
        assert(reversed@ =~= given.reverse());
        Parser {
            current_token: None,
            last_location: None,
            tokens: reversed,
            allow_invalid_call,
            ids: IdSource::new(),
            reports: Collector::new(),
        }
    }

    pub fn take_current_token(&mut self) -> (r: Result<Token, ParseError>)
        ensures
            final(self).current_token is None,
            final(self).tokens == old(self).tokens,
            final(self).last_location == old(self).last_location,
            final(self).ids == old(self).ids,
            final(self).reports == old(self).reports,
            final(self).allow_invalid_call == old(self).allow_invalid_call,
            old(self).current_token is Some <==> r is Ok,
            r is Ok ==> r->Ok_0 == old(self).current_token->0,
            (final(self).view(), token_result(r)) == sp_take(old(self).view()),
    {
        match self.current_token.take() {
            Some(token) => Ok(token),
            None => Err(ParseError { message: String::from_str("no current token") }),
        }
    }

    pub fn is_at_end(&self) -> (r: bool)
        ensures
            r == self.spec_is_at_end(),
    {
        if self.tokens.len() > 0 {
            self.tokens[self.tokens.len() - 1].token_type == TokenType::Eof
        } else {
            true
        }
    }

    pub fn check_next_token(&self, type_to_check: &TokenType) -> (r: bool)
        ensures
            r == self.spec_check(*type_to_check),
    {
        if self.tokens.len() > 0 {
            self.tokens[self.tokens.len() - 1].token_type == *type_to_check
        } else {
            false
        }
    }

    /// Reads the next token into `current_token`.
    pub fn advance(&mut self)
        ensures
            final(self).ids == old(self).ids,
            final(self).reports == old(self).reports,
            final(self).allow_invalid_call == old(self).allow_invalid_call,
            old(self).tokens.len() > 0 ==> {
                &&& final(self).tokens@ == old(self).tokens@.drop_last()
                &&& final(self).current_token == Some(old(self).tokens@.last())
                &&& final(self).last_location == Some(old(self).tokens@.last().start)
            },
            old(self).tokens.len() == 0 ==> {
                &&& final(self).tokens@ == old(self).tokens@
                &&& final(self).current_token is None
                &&& final(self).last_location == old(self).last_location
            },
            final(self).view() == sp_advance(old(self).view()),
    {
        self.current_token = self.tokens.pop();
        match &self.current_token {
            Some(t) => {
                self.last_location = Some(t.start);
            },
            None => {},
        }
        proof {
            if old(self).tokens.len() > 0 {
                assert(tokens_view(self.tokens@) =~= tokens_view(old(self).tokens@).drop_last());
            }
        }
    }

    pub fn get_nearby_location(&self) -> (r: Option<FileLocation>)
        ensures
            match r {
                Some(l) => l == sp_nearby(self.view()),
                None => sp_nearby(self.view()) == FileLocation { line_number: 0, line_offset: 0 },
            },
            r == (match self.last_location {
                Some(l) => Some(l),
                None => match self.peek() {
                    Some(t) => Some(t.start),
                    None => None,
                },
            }),
    {
        if let Some(location) = &self.last_location {
            return Some(*location);
        }
        if self.tokens.len() > 0 {
            return Some(self.tokens[self.tokens.len() - 1].start);
        }
        None
    }

    /// Reports `message` at the nearest known location and fails with it.
    pub fn add_diagnostic(&mut self, message: &str) -> (r: Result<Expr, ParseError>)
        ensures
            final(self).tokens == old(self).tokens,
            final(self).current_token == old(self).current_token,
            final(self).last_location == old(self).last_location,
            final(self).ids == old(self).ids,
            final(self).allow_invalid_call == old(self).allow_invalid_call,
            r is Err,
            r->Err_0.message@ == message@,
            final(self).view() == sp_diagnose(old(self).view(), message@),
    {
        let location = match self.get_nearby_location() {
            Some(l) => l,
            None => FileLocation::new(0, 0),
        };
        self.reports.add_diagnostic(&location, &location, message);
        Err(ParseError { message: String::from_str(message) })
    }

    /// Reads the next token when it has the type `token_to_consume`; otherwise
    /// reports `message` and fails.
    pub fn consume_token(&mut self, token_to_consume: &TokenType, message: &str) -> (r: Result<(), ParseError>)
        ensures
            final(self).ids == old(self).ids,
            final(self).allow_invalid_call == old(self).allow_invalid_call,
            r is Ok <==> old(self).spec_check(*token_to_consume),
            r is Ok ==> {
                &&& final(self).tokens@ == old(self).tokens@.drop_last()
                &&& final(self).current_token == old(self).peek()
                &&& final(self).current_token->0.token_type == *token_to_consume
                &&& final(self).reports == old(self).reports
            },
            r is Err ==> {
                &&& final(self).tokens == old(self).tokens
                &&& final(self).current_token == old(self).current_token
                &&& r->Err_0.message@ == message@
            },
            (final(self).view(), unit_result(r)) == sp_consume(
                old(self).view(),
                *token_to_consume,
                message@,
            ),
    {
        if self.check_next_token(token_to_consume) {
            self.advance();
            return Ok(());
        }
        match self.add_diagnostic(message) {
            Err(e) => Err(e),
            Ok(_) => Ok(()),
        }
    }

    pub fn consume_semicolon(&mut self, message: &str) -> (r: Result<(), ParseError>)
        ensures
            final(self).ids == old(self).ids,
            final(self).allow_invalid_call == old(self).allow_invalid_call,
            r is Ok <==> old(self).spec_check(TokenType::Semicolon),
            r is Ok ==> final(self).tokens@ == old(self).tokens@.drop_last(),
            r is Err ==> final(self).tokens == old(self).tokens && r->Err_0.message@ == message@,
            (final(self).view(), unit_result(r)) == sp_consume(
                old(self).view(),
                TokenType::Semicolon,
                message@,
            ),
    {
        self.consume_token(&TokenType::Semicolon, message)
    }

    /// Reads the next token when its type is one of `token_types`.
    pub fn consume_any_matching_token(&mut self, token_types: &[TokenType]) -> (r: bool)
        ensures
            final(self).ids == old(self).ids,
            final(self).reports == old(self).reports,
            final(self).allow_invalid_call == old(self).allow_invalid_call,
            r == exists|i: int| 0 <= i < token_types@.len() && old(self).spec_check(#[trigger] token_types@[i]),
            r ==> final(self).tokens@ == old(self).tokens@.drop_last()
                && final(self).current_token == old(self).peek(),
            !r ==> final(self).tokens == old(self).tokens
                && final(self).current_token == old(self).current_token
                && final(self).last_location == old(self).last_location,
            r == sp_check_any(old(self).view(), token_types@),
            final(self).view() == (if r {
                sp_advance(old(self).view())
            } else {
                old(self).view()
            }),
    {
        let mut i: usize = 0;
        while i < token_types.len()
            invariant
                0 <= i <= token_types.len(),
                *self == *old(self),
                forall|j: int| 0 <= j < i ==> !self.spec_check(#[trigger] token_types@[j]),
            decreases token_types.len() - i,
        {
            if self.check_next_token(&token_types[i]) {
                self.advance();
                return true;
            }
            i = i + 1;
        }
        false
    }

    /// Reads the next token when it has the type `token_type`.
    pub fn consume_matching_token(&mut self, token_type: &TokenType) -> (r: bool)
        ensures
            r == sp_check(old(self).view(), *token_type),
            final(self).view() == (if r {
                sp_advance(old(self).view())
            } else {
                old(self).view()
            }),
            final(self).ids == old(self).ids,
            final(self).reports == old(self).reports,
            final(self).allow_invalid_call == old(self).allow_invalid_call,
            r == old(self).spec_check(*token_type),
            r ==> final(self).tokens@ == old(self).tokens@.drop_last()
                && final(self).current_token == old(self).peek(),
            !r ==> final(self).tokens == old(self).tokens
                && final(self).current_token == old(self).current_token
                && final(self).last_location == old(self).last_location,
    {
        if self.check_next_token(token_type) {
            self.advance();
            true
        } else {
            false
        }
    }

    /// After an error, reads at least one token (unless at the end), then
    /// skips tokens until the one read last is a `;`, or the next one starts a
    /// declaration or statement, or the end is reached.
    pub fn synchronize(&mut self)
        ensures
            final(self).tokens.len() <= old(self).tokens.len(),
            !old(self).spec_is_at_end() ==> final(self).tokens.len() < old(self).tokens.len(),
            final(self).ids == old(self).ids,
            final(self).reports == old(self).reports,
            final(self).allow_invalid_call == old(self).allow_invalid_call,
            final(self).view() == sp_synchronize(old(self).view()),
    {
        if self.is_at_end() {
            return;
        }
        self.advance();
        while !self.is_at_end()
            invariant
                sp_skip_to_boundary(self.view()) == sp_synchronize(old(self).view()),
                self.tokens.len() < old(self).tokens.len(),
                self.ids == old(self).ids,
                self.reports == old(self).reports,
                self.allow_invalid_call == old(self).allow_invalid_call,
            decreases self.tokens.len(),
        {
            match &self.current_token {
                Some(t) => {
                    if t.token_type == TokenType::Semicolon {
                        return;
                    }
                },
                None => {},
            }
            match self.tokens[self.tokens.len() - 1].token_type {
                TokenType::Class | TokenType::Fun | TokenType::Var | TokenType::For
                | TokenType::If | TokenType::While | TokenType::Print | TokenType::Return => {
                    return;
                },
                _ => {},
            }
            self.advance();
        }
    }

}

/// Parses the tokens into statements, reporting each syntax error.
pub fn parse<R: Reporter>(reporter: &mut R, tokens: Vec<Token>) -> (statements: Vec<Stmt>)
    ensures
        view_stmts(statements@) == parsed(tokens_view(tokens@), false).0,
        final(reporter).reports() == old(reporter).reports() + parsed(tokens_view(tokens@), false).1,
{
    let ghost listed = tokens_view(tokens@);
    let mut parser = Parser::new(tokens, false);
    proof {
        lemma_tokens_view_reverse(tokens@);
    }
    assert(parser.view() == start_state(listed, false));
    let statements = parser.parse();
    forward(reporter, &parser.reports);
    statements
}

/// Parses like `parse`, but also keeps an expression statement without its
/// `;`, a property access without its name, and a `super` access without its
/// method name (as the language services need while text is being typed).
pub fn parse_allow_invalid_call<R: Reporter>(reporter: &mut R, tokens: Vec<Token>) -> (statements: Vec<Stmt>)
    ensures
        view_stmts(statements@) == parsed(tokens_view(tokens@), true).0,
        final(reporter).reports() == old(reporter).reports() + parsed(tokens_view(tokens@), true).1,
{
    let ghost listed = tokens_view(tokens@);
    let mut parser = Parser::new(tokens, true);
    proof {
        lemma_tokens_view_reverse(tokens@);
    }
    assert(parser.view() == start_state(listed, true));
    let statements = parser.parse();
    forward(reporter, &parser.reports);
    statements
}

proof fn lemma_tokens_view_reverse(ts: Seq<Token>)
    ensures
        tokens_view(ts.reverse()) == tokens_view(ts).reverse(),
{
    assert(tokens_view(ts.reverse()) =~= tokens_view(ts).reverse());
}

} // verus!
