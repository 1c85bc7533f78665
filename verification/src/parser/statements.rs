use super::grammar::{
    sp_check,
    sp_block,
    sp_block_items,
    sp_class,
    sp_class_body,
    sp_class_methods,
    sp_declaration,
    sp_expression_statement,
    sp_for,
    sp_for_condition,
    sp_for_increment,
    sp_function,
    sp_function_rest,
    sp_if,
    sp_params,
    sp_parse,
    sp_print,
    sp_return,
    sp_statement,
    sp_var,
    sp_while,
};
use super::{
    Data,
    ParseError,
    Parser,
    MAX_NUMBER_OF_ARGUMENTS,
    lemma_tokens_view_any_push,
    lemma_view_stmts_any_push,
    message3,
    stmt_result,
};
use crate::expr::{
    Expr,
    ExprView,
    view_expr,
};
use crate::location::FileLocation;
use crate::reporter::Reporter;
use crate::scanner::tokens_view;
use crate::stmt::{
    Stmt,
    StmtView,
    view_opt_expr,
    view_opt_stmt,
    view_stmt,
    view_stmts,
};
use crate::token::{
    Literal,
    Token,
    TokenType,
    TokenView,
};
use vstd::prelude::*;

verus! {

proof fn lemma_view_stmts_pair(ss: Seq<Stmt>)
    requires
        ss.len() == 2,
    ensures
        view_stmts(ss) == seq![view_stmt(ss[0]), view_stmt(ss[1])],
{
    assert(ss.drop_last().drop_last() =~= Seq::<Stmt>::empty());
    let a = ss.drop_last();
    assert(a.drop_last() =~= Seq::<Stmt>::empty());
    assert(view_stmts(a.drop_last()) == Seq::<StmtView>::empty());
    assert(a.last() == ss[0]);
    assert(view_stmts(a) =~= seq![view_stmt(ss[0])]);
}

/// A `for` loop as a block holding the initialiser and a `while` loop whose
/// body ends with the increment.
fn desugar_for(initialiser: Option<Stmt>, condition: Expr, increment: Option<Expr>, body: Stmt) -> (s:
    Stmt)
    ensures
        view_stmt(s) == crate::parser::grammar::for_loop(
            view_opt_stmt(initialiser),
            view_expr(condition),
            view_opt_expr(increment),
            view_stmt(body),
        ),
{
    let ghost initialiser_view = view_opt_stmt(initialiser);
    let ghost condition_view = view_expr(condition);
    let ghost increment_view = view_opt_expr(increment);
    let ghost body_view = view_stmt(body);
    let body = match increment {
        Some(increment) => {
            let mut statements: Vec<Stmt> = Vec::new();
            statements.push(body);
            statements.push(Stmt::Expression { expression: increment });
            proof {
                lemma_view_stmts_pair(statements@);
                assert(view_stmt(statements@[1]) == StmtView::Expression {
                    expression: view_expr(increment),
                });
            }
            let b = Stmt::Block { statements };
            assert(view_stmt(b) == StmtView::Block {
                statements: seq![body_view, StmtView::Expression { expression: view_expr(increment) }],
            });
            b
        },
        None => body,
    };
    let ghost looped_view = match increment_view {
        Some(increment) => StmtView::Block {
            statements: seq![body_view, StmtView::Expression { expression: increment }],
        },
        None => body_view,
    };
    assert(view_stmt(body) == looped_view);
    let body = Stmt::While { condition, body: Box::new(body) };
    assert(view_stmt(body) == StmtView::While { condition: condition_view, body: Box::new(looped_view) });
    let ghost while_view = view_stmt(body);
    let s = match initialiser {
        Some(initialiser) => {
            let mut statements: Vec<Stmt> = Vec::new();
            statements.push(initialiser);
            statements.push(body);
            proof {
                lemma_view_stmts_pair(statements@);
            }
            let b = Stmt::Block { statements };
            assert(view_stmt(b) == StmtView::Block {
                statements: seq![view_stmt(initialiser), while_view],
            });
            b
        },
        None => body,
    };
    assert(view_stmt(s) == crate::parser::grammar::for_loop(
        initialiser_view,
        condition_view,
        increment_view,
        body_view,
    ));
    s
}

impl Parser {
    /// Parses declarations up to the end of the tokens.  A declaration that
    /// fails is reported as a message, and parsing goes on after the point
    /// where `synchronize` stopped.  A further declaration is read only where
    /// the one before it read some token.
    #[verifier::rlimit(100)]
    #[verifier::spinoff_prover]
    pub fn parse(&mut self) -> (statements: Vec<Stmt>)
        ensures
            (final(self).view(), view_stmts(statements@)) == sp_parse(old(self).view(), Seq::empty()),
    {
        let data = Data::new();
        let mut statements: Vec<Stmt> = Vec::new();
        proof {
            assert(view_stmts(statements@) =~= Seq::<StmtView>::empty());
        }
        while !self.is_at_end()
            invariant_except_break
                sp_parse(old(self).view(), Seq::empty()) == sp_parse(self.view(), view_stmts(statements@)),
            invariant
                data.wf(),
            ensures
                sp_parse(old(self).view(), Seq::empty()) == (self.view(), view_stmts(statements@)),
            decreases self.tokens.len(),
        {
            proof {
                lemma_view_stmts_any_push(statements@);
            }
            let before = self.tokens.len();
            match self.declaration(&data) {
                Ok(stmt) => statements.push(stmt),
                Err(err) => self.reports.add_message(err.message.as_str()),
            }
            if self.tokens.len() >= before {
                break ;
            }
        }
        statements
    }

    #[verifier::rlimit(100)]
    #[verifier::spinoff_prover]
    pub fn declaration(&mut self, data: &Data) -> (r: Result<Stmt, ParseError>)
        requires
            data.wf(),
        ensures
            final(self).tokens.len() <= old(self).tokens.len(),
            r is Ok ==> final(self).tokens.len() < old(self).tokens.len(),
            final(self).allow_invalid_call == old(self).allow_invalid_call,
            (final(self).view(), stmt_result(r)) == sp_declaration(old(self).view()),
        decreases old(self).tokens.len(), 49int,
    {
        let result = if self.consume_matching_token(&TokenType::Class) {
            self.class_declaration(data)
        } else if self.consume_matching_token(&TokenType::Fun) {
            self.function_declaration(data, "function")
        } else if self.consume_matching_token(&TokenType::Var) {
            self.variable_declaration(data)
        } else {
            self.statement(data)
        };
        if result.is_err() {
            self.synchronize();
        }
        result
    }

    #[verifier::rlimit(100)]
    #[verifier::spinoff_prover]
    pub fn class_declaration(&mut self, data: &Data) -> (r: Result<Stmt, ParseError>)
        requires
            data.wf(),
        ensures
            final(self).tokens.len() <= old(self).tokens.len(),
            r is Ok ==> final(self).tokens.len() < old(self).tokens.len(),
            final(self).allow_invalid_call == old(self).allow_invalid_call,
            (final(self).view(), stmt_result(r)) == sp_class(old(self).view()),
        decreases old(self).tokens.len(), 47int,
    {
        if let Err(e) = self.consume_token(&TokenType::Identifier, "Expect class name") {
            return Err(e);
        }
        let name = match self.take_current_token() {
            Ok(t) => t,
            Err(e) => return Err(e),
        };
        let superclass = if self.consume_matching_token(&TokenType::Less) {
            if let Err(e) = self.consume_token(&TokenType::Identifier, "Expect superclass name") {
                return Err(e);
            }
            let superclass_name = match self.take_current_token() {
                Ok(t) => t,
                Err(e) => return Err(e),
            };
            Some(Expr::new_variable(&mut self.ids, superclass_name))
        } else {
            None
        };
        if let Err(e) = self.consume_token(&TokenType::LeftBrace, "Expect '{{' before class body") {
            return Err(e);
        }
        let mut methods: Vec<Stmt> = Vec::new();
        let ghost body_start = self.view();
        let ghost superclass_view = match &superclass {
            Some(e) => Some(view_expr(*e)),
            None => None,
        };
        assert(sp_class(old(self).view()) == sp_class_body(body_start, name@, superclass_view));
        assert(view_stmts(methods@) =~= Seq::<StmtView>::empty());
        while !self.check_next_token(&TokenType::RightBrace) && !self.is_at_end()
            invariant
                data.wf(),
                sp_class(old(self).view()) == sp_class_body(body_start, name@, superclass_view),
                superclass_view == (match superclass {
                    Some(e) => Some(view_expr(e)),
                    None => None::<ExprView>,
                }),
                self.tokens.len() < old(self).tokens.len(),
                self.allow_invalid_call == old(self).allow_invalid_call,
                sp_class_methods(body_start, Seq::empty()) == sp_class_methods(
                    self.view(),
                    view_stmts(methods@),
                ),
            decreases self.tokens.len(),
        {
            proof {
                lemma_view_stmts_any_push(methods@);
            }
            match self.function_declaration(data, "method") {
                Ok(m) => methods.push(m),
                Err(e) => return Err(e),
            }
        }
        if let Err(e) = self.consume_token(&TokenType::RightBrace, "Expect '}}' after class body") {
            return Err(e);
        }
        Ok(Stmt::Class { name, superclass, methods })
    }

    #[verifier::rlimit(100)]
    #[verifier::spinoff_prover]
    pub fn function_declaration(&mut self, data: &Data, kind: &str) -> (r: Result<Stmt, ParseError>)
        requires
            data.wf(),
        ensures
            final(self).tokens.len() <= old(self).tokens.len(),
            r is Ok ==> final(self).tokens.len() < old(self).tokens.len(),
            final(self).allow_invalid_call == old(self).allow_invalid_call,
            (final(self).view(), stmt_result(r)) == sp_function(old(self).view(), kind@),
        decreases old(self).tokens.len(), 47int,
    {
        let m = message3("Expect ", kind, " name");
        if let Err(e) = self.consume_token(&TokenType::Identifier, m.as_str()) {
            return Err(e);
        }
        let name = match self.take_current_token() {
            Ok(t) => t,
            Err(e) => return Err(e),
        };
        let m = message3("Expect '(' after ", kind, " name");
        if let Err(e) = self.consume_token(&TokenType::LeftParen, m.as_str()) {
            return Err(e);
        }
        let mut params: Vec<Token> = Vec::new();
        let ghost params_start = self.view();
        assert(sp_function(old(self).view(), kind@) == sp_function_rest(params_start, kind@, name@));
        assert(tokens_view(params@) =~= Seq::<TokenView>::empty());
        if !self.check_next_token(&TokenType::RightParen) {
            loop
                invariant_except_break
                    sp_params(params_start, Seq::empty()) == sp_params(
                        self.view(),
                        tokens_view(params@),
                    ),
                invariant
                    sp_function(old(self).view(), kind@) == sp_function_rest(
                        params_start,
                        kind@,
                        name@,
                    ),
                    !sp_check(params_start, TokenType::RightParen),
                    params_start.tokens.len() < old(self).tokens.len(),
                    self.tokens.len() < old(self).tokens.len(),
                    self.allow_invalid_call == old(self).allow_invalid_call,
                ensures
                    sp_params(params_start, Seq::empty()) == (
                        self.view(),
                        Ok::<Seq<TokenView>, Seq<char>>(tokens_view(params@)),
                    ),
                decreases self.tokens.len(),
            {
                proof {
                    lemma_tokens_view_any_push(params@);
                }
                if params.len() > MAX_NUMBER_OF_ARGUMENTS {
                    // Only reported; parsing goes on.
                    let _ = self.add_diagnostic("Cannot have more than 255 parameters");
                }
                if let Err(e) = self.consume_token(&TokenType::Identifier, "Expect parameter name") {
                    return Err(e);
                }
                match self.take_current_token() {
                    Ok(t) => params.push(t),
                    Err(e) => return Err(e),
                }
                if !self.consume_matching_token(&TokenType::Comma) {
                    break ;
                }
            }
        }
        let m = message3("Expect ')' after ", kind, " parameters");
        if let Err(e) = self.consume_token(&TokenType::RightParen, m.as_str()) {
            return Err(e);
        }
        let m = message3("Expect '{' before ", kind, " body");
        if let Err(e) = self.consume_token(&TokenType::LeftBrace, m.as_str()) {
            return Err(e);
        }
        match self.block_statement(data) {
            Ok(Stmt::Block { statements }) => Ok(Stmt::new_function(name, params, statements)),
            Ok(_) => Err(ParseError { message: message3("Expect a block ", kind, " body") }),
            Err(e) => Err(e),
        }
    }

    #[verifier::rlimit(100)]
    #[verifier::spinoff_prover]
    pub fn variable_declaration(&mut self, data: &Data) -> (r: Result<Stmt, ParseError>)
        requires
            data.wf(),
        ensures
            final(self).tokens.len() <= old(self).tokens.len(),
            r is Ok ==> final(self).tokens.len() < old(self).tokens.len(),
            final(self).allow_invalid_call == old(self).allow_invalid_call,
            (final(self).view(), stmt_result(r)) == sp_var(old(self).view()),
        decreases old(self).tokens.len(), 47int,
    {
        if let Err(e) = self.consume_token(&TokenType::Identifier, "Expect a variable name") {
            return Err(e);
        }
        let name = match self.take_current_token() {
            Ok(t) => t,
            Err(e) => return Err(e),
        };
        let initialiser = if self.consume_matching_token(&TokenType::Equal) {
            match self.expression(data) {
                Ok(e) => Some(e),
                Err(e) => return Err(e),
            }
        } else {
            None
        };
        if let Err(e) = self.consume_semicolon("Expect ';' after variable declaration") {
            return Err(e);
        }
        Ok(Stmt::Var { name, initialiser })
    }

    #[verifier::rlimit(100)]
    #[verifier::spinoff_prover]
    pub fn statement(&mut self, data: &Data) -> (r: Result<Stmt, ParseError>)
        requires
            data.wf(),
        ensures
            final(self).tokens.len() <= old(self).tokens.len(),
            r is Ok ==> final(self).tokens.len() < old(self).tokens.len(),
            final(self).allow_invalid_call == old(self).allow_invalid_call,
            (final(self).view(), stmt_result(r)) == sp_statement(old(self).view()),
        decreases old(self).tokens.len(), 48int,
    {
        if self.consume_matching_token(&TokenType::For) {
            self.for_statement(data)
        } else if self.consume_matching_token(&TokenType::If) {
            self.if_statement(data)
        } else if self.consume_matching_token(&TokenType::Print) {
            self.print_statement(data)
        } else if self.consume_matching_token(&TokenType::Return) {
            self.return_statement(data)
        } else if self.consume_matching_token(&TokenType::While) {
            self.while_statement(data)
        } else if self.consume_matching_token(&TokenType::LeftBrace) {
            self.block_statement(data)
        } else {
            self.expression_statement(data)
        }
    }

    #[verifier::rlimit(100)]
    #[verifier::spinoff_prover]
    pub fn if_statement(&mut self, data: &Data) -> (r: Result<Stmt, ParseError>)
        requires
            data.wf(),
        ensures
            final(self).tokens.len() <= old(self).tokens.len(),
            r is Ok ==> final(self).tokens.len() < old(self).tokens.len(),
            final(self).allow_invalid_call == old(self).allow_invalid_call,
            (final(self).view(), stmt_result(r)) == sp_if(old(self).view()),
        decreases old(self).tokens.len(), 47int,
    {
        if let Err(e) = self.consume_token(&TokenType::LeftParen, "Expect '(' after 'if'") {
            return Err(e);
        }
        let condition = match self.expression(data) {
            Ok(e) => e,
            Err(e) => return Err(e),
        };
        if let Err(e) = self.consume_token(&TokenType::RightParen, "Expect ')' after 'if' condition") {
            return Err(e);
        }
        let then_branch = match self.statement(data) {
            Ok(s) => s,
            Err(e) => return Err(e),
        };
        let mut else_branch = None;
        if self.consume_matching_token(&TokenType::Else) {
            match self.statement(data) {
                Ok(s) => {
                    else_branch = Some(s);
                },
                Err(e) => return Err(e),
            }
        }
        Ok(Stmt::If { condition, then_branch: Box::new(then_branch), else_branch: Box::new(else_branch) })
    }

    #[verifier::rlimit(100)]
    #[verifier::spinoff_prover]
    pub fn print_statement(&mut self, data: &Data) -> (r: Result<Stmt, ParseError>)
        requires
            data.wf(),
        ensures
            final(self).tokens.len() <= old(self).tokens.len(),
            r is Ok ==> final(self).tokens.len() < old(self).tokens.len(),
            final(self).allow_invalid_call == old(self).allow_invalid_call,
            (final(self).view(), stmt_result(r)) == sp_print(old(self).view()),
        decreases old(self).tokens.len(), 47int,
    {
        let value = match self.expression(data) {
            Ok(e) => e,
            Err(e) => return Err(e),
        };
        if let Err(e) = self.consume_semicolon("Expect ';' after value") {
            return Err(e);
        }
        Ok(Stmt::Print { value })
    }

    #[verifier::rlimit(100)]
    #[verifier::spinoff_prover]
    pub fn return_statement(&mut self, data: &Data) -> (r: Result<Stmt, ParseError>)
        requires
            data.wf(),
        ensures
            final(self).tokens.len() <= old(self).tokens.len(),
            r is Ok ==> final(self).tokens.len() < old(self).tokens.len(),
            final(self).allow_invalid_call == old(self).allow_invalid_call,
            (final(self).view(), stmt_result(r)) == sp_return(old(self).view()),
        decreases old(self).tokens.len(), 47int,
    {
        let keyword = match self.take_current_token() {
            Ok(t) => t,
            Err(e) => return Err(e),
        };
        let value = if !self.check_next_token(&TokenType::Semicolon) {
            match self.expression(data) {
                Ok(e) => Some(e),
                Err(e) => return Err(e),
            }
        } else {
            None
        };
        if let Err(e) = self.consume_semicolon("Expect ';' after return value") {
            return Err(e);
        }
        Ok(Stmt::Return { keyword, value })
    }

    #[verifier::rlimit(100)]
    #[verifier::spinoff_prover]
    pub fn while_statement(&mut self, data: &Data) -> (r: Result<Stmt, ParseError>)
        requires
            data.wf(),
        ensures
            final(self).tokens.len() <= old(self).tokens.len(),
            r is Ok ==> final(self).tokens.len() < old(self).tokens.len(),
            final(self).allow_invalid_call == old(self).allow_invalid_call,
            (final(self).view(), stmt_result(r)) == sp_while(old(self).view()),
        decreases old(self).tokens.len(), 47int,
    {
        if let Err(e) = self.consume_token(&TokenType::LeftParen, "Expect '(' after 'while'") {
            return Err(e);
        }
        let condition = match self.expression(data) {
            Ok(e) => e,
            Err(e) => return Err(e),
        };
        if let Err(e) = self.consume_token(&TokenType::RightParen, "Expect ')' after 'while' condition") {
            return Err(e);
        }
        let body = match self.statement(data) {
            Ok(s) => s,
            Err(e) => return Err(e),
        };
        Ok(Stmt::While { condition, body: Box::new(body) })
    }

    /// A `for` loop, rewritten as a block holding the initialiser and a
    /// `while` loop whose body ends with the increment.
    #[verifier::rlimit(100)]
    #[verifier::spinoff_prover]
    pub fn for_statement(&mut self, data: &Data) -> (r: Result<Stmt, ParseError>)
        requires
            data.wf(),
        ensures
            final(self).tokens.len() <= old(self).tokens.len(),
            r is Ok ==> final(self).tokens.len() < old(self).tokens.len(),
            final(self).allow_invalid_call == old(self).allow_invalid_call,
            (final(self).view(), stmt_result(r)) == sp_for(old(self).view()),
        decreases old(self).tokens.len(), 47int,
    {
        if let Err(e) = self.consume_token(&TokenType::LeftParen, "Expect '(' after 'for'") {
            return Err(e);
        }
        let initialiser = if self.consume_matching_token(&TokenType::Semicolon) {
            None
        } else if self.consume_matching_token(&TokenType::Var) {
            match self.variable_declaration(data) {
                Ok(s) => Some(s),
                Err(e) => return Err(e),
            }
        } else {
            match self.expression_statement(data) {
                Ok(s) => Some(s),
                Err(e) => return Err(e),
            }
        };
        self.for_condition(data, initialiser)
    }

    /// The condition, increment and body of a `for` loop, after its initialiser.
    #[verifier::rlimit(100)]
    #[verifier::spinoff_prover]
    pub fn for_condition(&mut self, data: &Data, initialiser: Option<Stmt>) -> (r: Result<
        Stmt,
        ParseError,
    >)
        requires
            data.wf(),
        ensures
            final(self).tokens.len() <= old(self).tokens.len(),
            r is Ok ==> final(self).tokens.len() < old(self).tokens.len(),
            final(self).allow_invalid_call == old(self).allow_invalid_call,
            (final(self).view(), stmt_result(r)) == sp_for_condition(
                old(self).view(),
                view_opt_stmt(initialiser),
            ),
        decreases old(self).tokens.len(), 47int,
    {
        let condition = if !self.check_next_token(&TokenType::Semicolon) {
            match self.expression(data) {
                Ok(e) => e,
                Err(e) => return Err(e),
            }
        } else {
            let start = match self.get_nearby_location() {
                Some(l) => l,
                None => FileLocation::new(0, 0),
            };
            let end = match self.get_nearby_location() {
                Some(l) => l,
                None => FileLocation::new(0, 0),
            };
            Expr::new_literal(
                &mut self.ids,
                Token::new(TokenType::True, "true", start, end, Some(Literal::True)),
            )
        };
        if let Err(e) = self.consume_token(&TokenType::Semicolon, "Expect ';' after 'for' loop condition") {
            return Err(e);
        }
        assert(sp_for_condition(old(self).view(), view_opt_stmt(initialiser)) == sp_for_increment(
            self.view(),
            view_opt_stmt(initialiser),
            view_expr(condition),
        ));
        self.for_increment(data, initialiser, condition)
    }

    /// The increment and body of a `for` loop, after its condition.
    #[verifier::rlimit(100)]
    #[verifier::spinoff_prover]
    pub fn for_increment(&mut self, data: &Data, initialiser: Option<Stmt>, condition: Expr) -> (r:
        Result<Stmt, ParseError>)
        requires
            data.wf(),
        ensures
            final(self).tokens.len() <= old(self).tokens.len(),
            r is Ok ==> final(self).tokens.len() < old(self).tokens.len(),
            final(self).allow_invalid_call == old(self).allow_invalid_call,
            (final(self).view(), stmt_result(r)) == sp_for_increment(
                old(self).view(),
                view_opt_stmt(initialiser),
                view_expr(condition),
            ),
        decreases old(self).tokens.len(), 46int,
    {
        let increment = if !self.check_next_token(&TokenType::RightParen) {
            match self.expression(data) {
                Ok(e) => Some(e),
                Err(e) => return Err(e),
            }
        } else {
            None
        };
        if let Err(e) = self.consume_token(&TokenType::RightParen, "Expect ')' after 'for' clauses") {
            return Err(e);
        }
        let body = match self.statement(data) {
            Ok(s) => s,
            Err(e) => return Err(e),
        };
        Ok(desugar_for(initialiser, condition, increment, body))
    }

    #[verifier::rlimit(100)]
    #[verifier::spinoff_prover]
    pub fn block_statement(&mut self, data: &Data) -> (r: Result<Stmt, ParseError>)
        requires
            data.wf(),
        ensures
            final(self).tokens.len() <= old(self).tokens.len(),
            r is Ok ==> final(self).tokens.len() < old(self).tokens.len(),
            r is Ok ==> r->Ok_0 is Block,
            final(self).allow_invalid_call == old(self).allow_invalid_call,
            (final(self).view(), stmt_result(r)) == sp_block(old(self).view()),
        decreases old(self).tokens.len(), 50int,
    {
        let mut statements: Vec<Stmt> = Vec::new();
        assert(view_stmts(statements@) =~= Seq::<StmtView>::empty());
        while !self.check_next_token(&TokenType::RightBrace) && !self.is_at_end()
            invariant
                data.wf(),
                self.tokens.len() <= old(self).tokens.len(),
                self.allow_invalid_call == old(self).allow_invalid_call,
                sp_block_items(old(self).view(), Seq::empty()) == sp_block_items(
                    self.view(),
                    view_stmts(statements@),
                ),
            decreases self.tokens.len(),
        {
            proof {
                lemma_view_stmts_any_push(statements@);
            }
            match self.declaration(data) {
                Ok(s) => statements.push(s),
                Err(e) => return Err(e),
            }
        }
        if let Err(e) = self.consume_token(&TokenType::RightBrace, "Expect '}' after block") {
            return Err(e);
        }
        Ok(Stmt::Block { statements })
    }

    #[verifier::rlimit(100)]
    #[verifier::spinoff_prover]
    pub fn expression_statement(&mut self, data: &Data) -> (r: Result<Stmt, ParseError>)
        requires
            data.wf(),
        ensures
            final(self).tokens.len() <= old(self).tokens.len(),
            r is Ok ==> final(self).tokens.len() < old(self).tokens.len(),
            final(self).allow_invalid_call == old(self).allow_invalid_call,
            (final(self).view(), stmt_result(r)) == sp_expression_statement(old(self).view()),
        decreases old(self).tokens.len(), 47int,
    {
        let expression = match self.expression(data) {
            Ok(e) => e,
            Err(e) => return Err(e),
        };
        let error = self.consume_semicolon("Expect ';' after expression");
        match error {
            Ok(()) => Ok(Stmt::Expression { expression }),
            Err(e) => {
                if !self.allow_invalid_call {
                    Err(e)
                } else {
                    Ok(Stmt::Expression { expression })
                }
            },
        }
    }
}

} // verus!
