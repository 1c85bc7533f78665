use super::grammar::{
    sp_check,
    sp_and,
    sp_and_rest,
    sp_arguments,
    sp_assignment,
    sp_binary,
    sp_binary_rest,
    sp_call,
    sp_call_rest,
    sp_expression,
    sp_finish_call,
    sp_or,
    sp_or_rest,
    sp_primary,
    sp_unary,
};
use super::{
    Data,
    ParseError,
    Parser,
    MAX_NUMBER_OF_ARGUMENTS,
    expr_result,
    lemma_view_exprs_any_push,
};
use crate::expr::{
    Expr,
    ExprView,
    view_expr,
    view_exprs,
};
use crate::location::FileLocation;
use crate::reporter::Reporter;
use crate::scanner::tokens_view;

use crate::token::TokenType;
use vstd::prelude::*;

verus! {

impl Parser {
    pub fn expression(&mut self, data: &Data) -> (r: Result<Expr, ParseError>)
        requires
            data.wf(),
        ensures
            final(self).tokens.len() <= old(self).tokens.len(),
            r is Ok ==> final(self).tokens.len() < old(self).tokens.len(),
            final(self).allow_invalid_call == old(self).allow_invalid_call,
            (final(self).view(), expr_result(r)) == sp_expression(old(self).view()),
        decreases old(self).tokens.len(), 46int,
    {
        self.assignment_expression(data)
    }

    #[verifier::rlimit(100)]
    #[verifier::spinoff_prover]
    pub fn assignment_expression(&mut self, data: &Data) -> (r: Result<Expr, ParseError>)
        requires
            data.wf(),
        ensures
            final(self).tokens.len() <= old(self).tokens.len(),
            r is Ok ==> final(self).tokens.len() < old(self).tokens.len(),
            final(self).allow_invalid_call == old(self).allow_invalid_call,
            (final(self).view(), expr_result(r)) == sp_assignment(old(self).view()),
        decreases old(self).tokens.len(), 45int,
    {
        let expr = match self.or_expression(data) {
            Ok(e) => e,
            Err(e) => return Err(e),
        };
        if self.consume_matching_token(&TokenType::Equal) {
            let value = match self.assignment_expression(data) {
                Ok(e) => e,
                Err(e) => return Err(e),
            };
            match expr {
                Expr::Variable { name, .. } => {
                    return Ok(Expr::new_assign(&mut self.ids, name, value));
                },
                Expr::Get { object, name, .. } => {
                    return Ok(Expr::new_set(&mut self.ids, *object, name, value));
                },
                _ => {
                    let _ = self.add_diagnostic("Invalid assignment target");
                    return Ok(expr);
                },
            }
        }
        Ok(expr)
    }

    #[verifier::rlimit(100)]
    #[verifier::spinoff_prover]
    pub fn or_expression(&mut self, data: &Data) -> (r: Result<Expr, ParseError>)
        requires
            data.wf(),
        ensures
            final(self).tokens.len() <= old(self).tokens.len(),
            r is Ok ==> final(self).tokens.len() < old(self).tokens.len(),
            final(self).allow_invalid_call == old(self).allow_invalid_call,
            (final(self).view(), expr_result(r)) == sp_or(old(self).view()),
        decreases old(self).tokens.len(), 44int,
    {
        let mut expr = match self.and_expression(data) {
            Ok(e) => e,
            Err(e) => return Err(e),
        };
        while self.consume_matching_token(&TokenType::Or)
            invariant
                data.wf(),
                self.tokens.len() < old(self).tokens.len(),
                self.allow_invalid_call == old(self).allow_invalid_call,
                sp_or(old(self).view()) == sp_or_rest(self.view(), view_expr(expr)),
            decreases self.tokens.len(),
        {
            let operator = match self.take_current_token() {
                Ok(t) => t,
                Err(e) => return Err(e),
            };
            let right = match self.and_expression(data) {
                Ok(e) => e,
                Err(e) => return Err(e),
            };
            expr = Expr::new_logical(&mut self.ids, expr, operator, right);
        }
        Ok(expr)
    }

    #[verifier::rlimit(100)]
    #[verifier::spinoff_prover]
    pub fn and_expression(&mut self, data: &Data) -> (r: Result<Expr, ParseError>)
        requires
            data.wf(),
        ensures
            final(self).tokens.len() <= old(self).tokens.len(),
            r is Ok ==> final(self).tokens.len() < old(self).tokens.len(),
            final(self).allow_invalid_call == old(self).allow_invalid_call,
            (final(self).view(), expr_result(r)) == sp_and(old(self).view()),
        decreases old(self).tokens.len(), 43int,
    {
        let mut expr = match self.equality_expression(data) {
            Ok(e) => e,
            Err(e) => return Err(e),
        };
        while self.consume_matching_token(&TokenType::And)
            invariant
                data.wf(),
                self.tokens.len() < old(self).tokens.len(),
                self.allow_invalid_call == old(self).allow_invalid_call,
                sp_and(old(self).view()) == sp_and_rest(self.view(), view_expr(expr)),
            decreases self.tokens.len(),
        {
            let operator = match self.take_current_token() {
                Ok(t) => t,
                Err(e) => return Err(e),
            };
            let right = match self.equality_expression(data) {
                Ok(e) => e,
                Err(e) => return Err(e),
            };
            expr = Expr::new_logical(&mut self.ids, expr, operator, right);
        }
        Ok(expr)
    }

    #[verifier::rlimit(100)]
    #[verifier::spinoff_prover]
    pub fn equality_expression(&mut self, data: &Data) -> (r: Result<Expr, ParseError>)
        requires
            data.wf(),
        ensures
            final(self).tokens.len() <= old(self).tokens.len(),
            r is Ok ==> final(self).tokens.len() < old(self).tokens.len(),
            final(self).allow_invalid_call == old(self).allow_invalid_call,
            (final(self).view(), expr_result(r)) == sp_binary(old(self).view(), 0),
        decreases old(self).tokens.len(), 42int,
    {
        let mut expr = match self.comparison_expression(data) {
            Ok(e) => e,
            Err(e) => return Err(e),
        };
        while self.consume_any_matching_token(data.equality_tokens.as_slice())
            invariant
                data.wf(),
                self.tokens.len() < old(self).tokens.len(),
                self.allow_invalid_call == old(self).allow_invalid_call,
                sp_binary(old(self).view(), 0) == sp_binary_rest(self.view(), 0, view_expr(expr)),
            decreases self.tokens.len(),
        {
            let operator = match self.take_current_token() {
                Ok(t) => t,
                Err(e) => return Err(e),
            };
            let right = match self.comparison_expression(data) {
                Ok(e) => e,
                Err(e) => return Err(e),
            };
            expr = Expr::new_binary(&mut self.ids, expr, operator, right);
        }
        Ok(expr)
    }

    #[verifier::rlimit(100)]
    #[verifier::spinoff_prover]
    pub fn comparison_expression(&mut self, data: &Data) -> (r: Result<Expr, ParseError>)
        requires
            data.wf(),
        ensures
            final(self).tokens.len() <= old(self).tokens.len(),
            r is Ok ==> final(self).tokens.len() < old(self).tokens.len(),
            final(self).allow_invalid_call == old(self).allow_invalid_call,
            (final(self).view(), expr_result(r)) == sp_binary(old(self).view(), 1),
        decreases old(self).tokens.len(), 41int,
    {
        let mut expr = match self.term_expression(data) {
            Ok(e) => e,
            Err(e) => return Err(e),
        };
        while self.consume_any_matching_token(data.comparison_tokens.as_slice())
            invariant
                data.wf(),
                self.tokens.len() < old(self).tokens.len(),
                self.allow_invalid_call == old(self).allow_invalid_call,
                sp_binary(old(self).view(), 1) == sp_binary_rest(self.view(), 1, view_expr(expr)),
            decreases self.tokens.len(),
        {
            let operator = match self.take_current_token() {
                Ok(t) => t,
                Err(e) => return Err(e),
            };
            let right = match self.term_expression(data) {
                Ok(e) => e,
                Err(e) => return Err(e),
            };
            expr = Expr::new_binary(&mut self.ids, expr, operator, right);
        }
        Ok(expr)
    }

    #[verifier::rlimit(100)]
    #[verifier::spinoff_prover]
    pub fn term_expression(&mut self, data: &Data) -> (r: Result<Expr, ParseError>)
        requires
            data.wf(),
        ensures
            final(self).tokens.len() <= old(self).tokens.len(),
            r is Ok ==> final(self).tokens.len() < old(self).tokens.len(),
            final(self).allow_invalid_call == old(self).allow_invalid_call,
            (final(self).view(), expr_result(r)) == sp_binary(old(self).view(), 2),
        decreases old(self).tokens.len(), 40int,
    {
        let mut expr = match self.factor_expression(data) {
            Ok(e) => e,
            Err(e) => return Err(e),
        };
        while self.consume_any_matching_token(data.term_tokens.as_slice())
            invariant
                data.wf(),
                self.tokens.len() < old(self).tokens.len(),
                self.allow_invalid_call == old(self).allow_invalid_call,
                sp_binary(old(self).view(), 2) == sp_binary_rest(self.view(), 2, view_expr(expr)),
            decreases self.tokens.len(),
        {
            let operator = match self.take_current_token() {
                Ok(t) => t,
                Err(e) => return Err(e),
            };
            let right = match self.factor_expression(data) {
                Ok(e) => e,
                Err(e) => return Err(e),
            };
            expr = Expr::new_binary(&mut self.ids, expr, operator, right);
        }
        Ok(expr)
    }

    #[verifier::rlimit(100)]
    #[verifier::spinoff_prover]
    pub fn factor_expression(&mut self, data: &Data) -> (r: Result<Expr, ParseError>)
        requires
            data.wf(),
        ensures
            final(self).tokens.len() <= old(self).tokens.len(),
            r is Ok ==> final(self).tokens.len() < old(self).tokens.len(),
            final(self).allow_invalid_call == old(self).allow_invalid_call,
            (final(self).view(), expr_result(r)) == sp_binary(old(self).view(), 3),
        decreases old(self).tokens.len(), 39int,
    {
        let mut expr = match self.unary_expression(data) {
            Ok(e) => e,
            Err(e) => return Err(e),
        };
        while self.consume_any_matching_token(data.factor_tokens.as_slice())
            invariant
                data.wf(),
                self.tokens.len() < old(self).tokens.len(),
                self.allow_invalid_call == old(self).allow_invalid_call,
                sp_binary(old(self).view(), 3) == sp_binary_rest(self.view(), 3, view_expr(expr)),
            decreases self.tokens.len(),
        {
            let operator = match self.take_current_token() {
                Ok(t) => t,
                Err(e) => return Err(e),
            };
            let right = match self.unary_expression(data) {
                Ok(e) => e,
                Err(e) => return Err(e),
            };
            expr = Expr::new_binary(&mut self.ids, expr, operator, right);
        }
        Ok(expr)
    }

    #[verifier::rlimit(100)]
    #[verifier::spinoff_prover]
    pub fn unary_expression(&mut self, data: &Data) -> (r: Result<Expr, ParseError>)
        requires
            data.wf(),
        ensures
            final(self).tokens.len() <= old(self).tokens.len(),
            r is Ok ==> final(self).tokens.len() < old(self).tokens.len(),
            final(self).allow_invalid_call == old(self).allow_invalid_call,
            (final(self).view(), expr_result(r)) == sp_unary(old(self).view()),
        decreases old(self).tokens.len(), 38int,
    {
        if self.consume_any_matching_token(data.unary_tokens.as_slice()) {
            let operator = match self.take_current_token() {
                Ok(t) => t,
                Err(e) => return Err(e),
            };
            let right = match self.unary_expression(data) {
                Ok(e) => e,
                Err(e) => return Err(e),
            };
            return Ok(Expr::new_unary(&mut self.ids, operator, right));
        }
        self.call_expression(data)
    }

    #[verifier::rlimit(100)]
    #[verifier::spinoff_prover]
    pub fn call_expression(&mut self, data: &Data) -> (r: Result<Expr, ParseError>)
        requires
            data.wf(),
        ensures
            final(self).tokens.len() <= old(self).tokens.len(),
            r is Ok ==> final(self).tokens.len() < old(self).tokens.len(),
            final(self).allow_invalid_call == old(self).allow_invalid_call,
            (final(self).view(), expr_result(r)) == sp_call(old(self).view()),
        decreases old(self).tokens.len(), 37int,
    {
        let mut expr = match self.primary_expression(data) {
            Ok(e) => e,
            Err(e) => return Err(e),
        };
        loop
            invariant
                data.wf(),
                self.tokens.len() < old(self).tokens.len(),
                self.allow_invalid_call == old(self).allow_invalid_call,
                sp_call(old(self).view()) == sp_call_rest(self.view(), view_expr(expr)),
            ensures
                self.tokens.len() < old(self).tokens.len(),
                self.allow_invalid_call == old(self).allow_invalid_call,
                sp_call(old(self).view()) == (
                    self.view(),
                    Ok::<ExprView, Seq<char>>(view_expr(expr)),
                ),
            decreases self.tokens.len(),
        {
            let ghost top = self.view();
            if self.consume_matching_token(&TokenType::LeftParen) {
                expr = match self.finish_call(data, expr) {
                    Ok(e) => e,
                    Err(e) => return Err(e),
                };
            } else if self.consume_matching_token(&TokenType::Dot) {
                let dot = self.take_current_token();
                let error = self.consume_token(&TokenType::Identifier, "Expect property name after '.'");
                match error {
                    Ok(()) => {
                        let name = match self.take_current_token() {
                            Ok(t) => t,
                            Err(e) => return Err(e),
                        };
                        expr = Expr::new_get(&mut self.ids, expr, name);
                    },
                    Err(e) => {
                        if !self.allow_invalid_call {
                            return Err(e);
                        } else {
                            match dot {
                                Ok(dot) => {
                                    expr = Expr::new_invalid_get(&mut self.ids, expr, dot);
                                },
                                Err(e) => return Err(e),
                            }
                        }
                    },
                }
            } else {
                assert(self.view() == top);
                assert(!sp_check(top, TokenType::LeftParen) && !sp_check(top, TokenType::Dot));
                break ;
            }
        }
        Ok(expr)
    }

    #[verifier::rlimit(100)]
    #[verifier::spinoff_prover]
    pub fn finish_call(&mut self, data: &Data, callee: Expr) -> (r: Result<Expr, ParseError>)
        requires
            data.wf(),
        ensures
            final(self).tokens.len() <= old(self).tokens.len(),
            r is Ok ==> final(self).tokens.len() < old(self).tokens.len(),
            final(self).allow_invalid_call == old(self).allow_invalid_call,
            (final(self).view(), expr_result(r)) == sp_finish_call(old(self).view(), view_expr(callee)),
        decreases old(self).tokens.len(), 47int,
    {
        let mut arguments: Vec<Expr> = Vec::new();
        assert(view_exprs(arguments@) =~= Seq::<ExprView>::empty());
        if !self.check_next_token(&TokenType::RightParen) {
            loop
                invariant_except_break
                    sp_arguments(old(self).view(), Seq::empty()) == sp_arguments(
                        self.view(),
                        view_exprs(arguments@),
                    ),
                invariant
                    data.wf(),
                    !sp_check(old(self).view(), TokenType::RightParen),
                    self.tokens.len() <= old(self).tokens.len(),
                    arguments.len() > 0 ==> self.tokens.len() < old(self).tokens.len(),
                    self.allow_invalid_call == old(self).allow_invalid_call,
                ensures
                    sp_arguments(old(self).view(), Seq::empty()) == (
                        self.view(),
                        Ok::<Seq<ExprView>, Seq<char>>(view_exprs(arguments@)),
                    ),
                decreases self.tokens.len(),
            {
                proof {
                    lemma_view_exprs_any_push(arguments@);
                    crate::expr::lemma_view_exprs_len(arguments@);
                }
                if arguments.len() > MAX_NUMBER_OF_ARGUMENTS {
                    // Only reported; parsing goes on.
                    let _ = self.add_diagnostic("Cannot have more than 255 arguments");
                }
                match self.expression(data) {
                    Ok(e) => arguments.push(e),
                    Err(e) => return Err(e),
                }
                if !self.check_next_token(&TokenType::Comma) {
                    break ;
                }
                self.advance();
            }
        }
        if let Err(e) = self.consume_token(&TokenType::RightParen, "Expect ')' after function arguments") {
            return Err(e);
        }
        let paren = match self.take_current_token() {
            Ok(t) => t,
            Err(e) => return Err(e),
        };
        Ok(Expr::new_call(&mut self.ids, callee, paren, arguments))
    }

    #[verifier::rlimit(100)]
    #[verifier::spinoff_prover]
    pub fn primary_expression(&mut self, data: &Data) -> (r: Result<Expr, ParseError>)
        requires
            data.wf(),
        ensures
            final(self).tokens.len() <= old(self).tokens.len(),
            r is Ok ==> final(self).tokens.len() < old(self).tokens.len(),
            final(self).allow_invalid_call == old(self).allow_invalid_call,
            (final(self).view(), expr_result(r)) == sp_primary(old(self).view()),
        decreases old(self).tokens.len(), 36int,
    {
        if self.consume_any_matching_token(data.primary_tokens.as_slice()) {
            let value = match self.take_current_token() {
                Ok(t) => t,
                Err(e) => return Err(e),
            };
            return Ok(Expr::new_literal(&mut self.ids, value));
        }
        if self.consume_matching_token(&TokenType::Super) {
            let keyword = match self.take_current_token() {
                Ok(t) => t,
                Err(e) => return Err(e),
            };
            if let Err(e) = self.consume_token(&TokenType::Dot, "Expect '.' after 'super'") {
                return Err(e);
            }
            let dot = self.take_current_token();
            let error = self.consume_token(&TokenType::Identifier, "Expect superclass method name");
            match error {
                Ok(()) => {
                    let method = match self.take_current_token() {
                        Ok(t) => t,
                        Err(e) => return Err(e),
                    };
                    return Ok(Expr::new_super(&mut self.ids, keyword, method));
                },
                Err(e) => {
                    if !self.allow_invalid_call {
                        return Err(e);
                    } else {
                        match dot {
                            Ok(dot) => {
                                return Ok(Expr::new_invalid_super(&mut self.ids, keyword, dot));
                            },
                            Err(e) => return Err(e),
                        }
                    }
                },
            }
        }
        if self.consume_matching_token(&TokenType::This) {
            let keyword = match self.take_current_token() {
                Ok(t) => t,
                Err(e) => return Err(e),
            };
            return Ok(Expr::new_this(&mut self.ids, keyword));
        }
        if self.consume_matching_token(&TokenType::Identifier) {
            let name = match self.take_current_token() {
                Ok(t) => t,
                Err(e) => return Err(e),
            };
            return Ok(Expr::new_variable(&mut self.ids, name));
        }
        if self.consume_matching_token(&TokenType::LeftParen) {
            let expr = match self.expression(data) {
                Ok(e) => e,
                Err(e) => return Err(e),
            };
            if let Err(e) = self.consume_token(&TokenType::RightParen, "Expect ')' after expression") {
                return Err(e);
            }
            return Ok(Expr::new_grouping(&mut self.ids, expr));
        }
        self.add_diagnostic("Expect expression")
    }
}

} // verus!
