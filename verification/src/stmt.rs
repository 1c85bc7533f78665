use crate::expr::{Expr, ExprView, view_expr};
use crate::scanner::tokens_view;
use crate::token::{Token, TokenView};
use vstd::prelude::*;

verus! {

/// A function declaration: its name, parameters and body.
pub struct Function {
    pub name: Token,
    pub params: Vec<Token>,
    pub body: Vec<Stmt>,
}

impl Function {
    pub fn new(name: Token, params: Vec<Token>, body: Vec<Stmt>) -> (f: Self)
        ensures
            f == (Function { name, params, body }),
    {
        Function { name, params, body }
    }

    pub fn name(&self) -> (r: &Token)
        ensures
            *r == self.name,
    {
        &self.name
    }

    pub fn params(&self) -> (r: &Vec<Token>)
        ensures
            *r == self.params,
    {
        &self.params
    }

    pub fn body(&self) -> (r: &Vec<Stmt>)
        ensures
            *r == self.body,
    {
        &self.body
    }
}

#[allow(inconsistent_fields)]
pub enum Stmt {
    Block { statements: Vec<Stmt> },
    Class { name: Token, superclass: Option<Expr>, methods: Vec<Stmt> },
    Expression { expression: Expr },
    Function { function: Function },
    If { condition: Expr, then_branch: Box<Stmt>, else_branch: Box<Option<Stmt>> },
    Print { value: Expr },
    Return { keyword: Token, value: Option<Expr> },
    Var { name: Token, initialiser: Option<Expr> },
    While { condition: Expr, body: Box<Stmt> },
}

impl Stmt {
    pub fn new_function(name: Token, params: Vec<Token>, body: Vec<Stmt>) -> (s: Self)
        ensures
            s == (Stmt::Function { function: Function { name, params, body } }),
    {
        Stmt::Function { function: Function::new(name, params, body) }
    }
}

/// A function declaration with its tokens and statements as views.
pub struct FunctionView {
    pub name: TokenView,
    pub params: Seq<TokenView>,
    pub body: Seq<StmtView>,
}

/// A statement with its tokens and expressions as views.
#[allow(inconsistent_fields)]
pub enum StmtView {
    Block { statements: Seq<StmtView> },
    Class { name: TokenView, superclass: Option<ExprView>, methods: Seq<StmtView> },
    Expression { expression: ExprView },
    Function { function: FunctionView },
    If { condition: ExprView, then_branch: Box<StmtView>, else_branch: Option<Box<StmtView>> },
    Print { value: ExprView },
    Return { keyword: TokenView, value: Option<ExprView> },
    Var { name: TokenView, initialiser: Option<ExprView> },
    While { condition: ExprView, body: Box<StmtView> },
}

pub open spec fn view_opt_stmt(s: Option<Stmt>) -> Option<StmtView> {
    match s {
        Some(s) => Some(view_stmt(s)),
        None => None,
    }
}

pub open spec fn view_opt_expr(e: Option<Expr>) -> Option<ExprView> {
    match e {
        Some(e) => Some(view_expr(e)),
        None => None,
    }
}

pub open spec fn view_stmt(s: Stmt) -> StmtView
    decreases s,
{
    match s {
        Stmt::Block { statements } => StmtView::Block { statements: view_stmts(statements@) },
        Stmt::Class { name, superclass, methods } => StmtView::Class {
            name: name@,
            superclass: view_opt_expr(superclass),
            methods: view_stmts(methods@),
        },
        Stmt::Expression { expression } => StmtView::Expression { expression: view_expr(expression) },
        Stmt::Function { function } => StmtView::Function {
            function: FunctionView {
                name: function.name@,
                params: tokens_view(function.params@),
                body: view_stmts(function.body@),
            },
        },
        Stmt::If { condition, then_branch, else_branch } => StmtView::If {
            condition: view_expr(condition),
            then_branch: Box::new(view_stmt(*then_branch)),
            else_branch: match *else_branch {
                Some(e) => Some(Box::new(view_stmt(e))),
                None => None,
            },
        },
        Stmt::Print { value } => StmtView::Print { value: view_expr(value) },
        Stmt::Return { keyword, value } => StmtView::Return {
            keyword: keyword@,
            value: view_opt_expr(value),
        },
        Stmt::Var { name, initialiser } => StmtView::Var {
            name: name@,
            initialiser: view_opt_expr(initialiser),
        },
        Stmt::While { condition, body } => StmtView::While {
            condition: view_expr(condition),
            body: Box::new(view_stmt(*body)),
        },
    }
}

pub open spec fn view_stmts(ss: Seq<Stmt>) -> Seq<StmtView>
    decreases ss,
{
    if ss.len() == 0 {
        Seq::empty()
    } else {
        view_stmts(ss.drop_last()).push(view_stmt(ss.last()))
    }
}

pub proof fn lemma_view_stmts_len(ss: Seq<Stmt>)
    ensures
        view_stmts(ss).len() == ss.len(),
    decreases ss.len(),
{
    if ss.len() > 0 {
        lemma_view_stmts_len(ss.drop_last());
    }
}

pub proof fn lemma_view_stmts_push(ss: Seq<Stmt>, s: Stmt)
    ensures
        view_stmts(ss.push(s)) == view_stmts(ss).push(view_stmt(s)),
{
    assert(ss.push(s).drop_last() =~= ss);
}

} // verus!
