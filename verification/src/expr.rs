use crate::location::FileLocation;
use crate::token::{Token, TokenView};
use vstd::prelude::*;

verus! {

/// Hands out the identifiers of expressions, one after the other.
pub struct IdSource {
    pub next: usize,
}

impl IdSource {
    pub fn new() -> (s: Self)
        ensures
            s.next == 1,
    {
        IdSource { next: 1 }
    }

    /// The next identifier (identifiers wrap around after `usize::MAX`).
    pub fn get_id(&mut self) -> (id: usize)
        ensures
            id == old(self).next,
            final(self).next == (if old(self).next == usize::MAX { 0 } else { old(self).next + 1 }),
    {
        let id = self.next;
        self.next = if self.next == usize::MAX { 0 } else { self.next + 1 };
        id
    }
}

#[allow(inconsistent_fields)]
pub enum Expr {
    Assign { id: usize, name: Token, value: Box<Expr> },
    Binary { id: usize, left: Box<Expr>, operator: Token, right: Box<Expr> },
    Call { id: usize, callee: Box<Expr>, paren: Token, arguments: Vec<Expr> },
    Get { id: usize, object: Box<Expr>, name: Token },
    Grouping { id: usize, expression: Box<Expr> },
    /// A property access with no property name; `name` is the dot.
    InvalidGet { id: usize, object: Box<Expr>, name: Token },
    /// A `super` access with no method name; `method` is the dot.
    InvalidSuper { id: usize, keyword: Token, method: Token },
    Literal { id: usize, value: Token },
    Logical { id: usize, left: Box<Expr>, operator: Token, right: Box<Expr> },
    SetProperty { id: usize, object: Box<Expr>, name: Token, value: Box<Expr> },
    Super { id: usize, keyword: Token, method: Token },
    This { id: usize, keyword: Token },
    Unary { id: usize, operator: Token, right: Box<Expr> },
    Variable { id: usize, name: Token },
}

impl Expr {
    pub open spec fn id(self) -> usize {
        match self {
            Expr::Assign { id, .. } => id,
            Expr::Binary { id, .. } => id,
            Expr::Call { id, .. } => id,
            Expr::Get { id, .. } => id,
            Expr::Grouping { id, .. } => id,
            Expr::InvalidGet { id, .. } => id,
            Expr::InvalidSuper { id, .. } => id,
            Expr::Literal { id, .. } => id,
            Expr::Logical { id, .. } => id,
            Expr::SetProperty { id, .. } => id,
            Expr::Super { id, .. } => id,
            Expr::This { id, .. } => id,
            Expr::Unary { id, .. } => id,
            Expr::Variable { id, .. } => id,
        }
    }

    pub fn get_id(&self) -> (id: usize)
        ensures
            id == self.id(),
    {
        match self {
            Expr::Assign { id, .. } => *id,
            Expr::Binary { id, .. } => *id,
            Expr::Call { id, .. } => *id,
            Expr::Get { id, .. } => *id,
            Expr::Grouping { id, .. } => *id,
            Expr::InvalidGet { id, .. } => *id,
            Expr::InvalidSuper { id, .. } => *id,
            Expr::Literal { id, .. } => *id,
            Expr::Logical { id, .. } => *id,
            Expr::SetProperty { id, .. } => *id,
            Expr::Super { id, .. } => *id,
            Expr::This { id, .. } => *id,
            Expr::Unary { id, .. } => *id,
            Expr::Variable { id, .. } => *id,
        }
    }

    pub fn new_assign(ids: &mut IdSource, name: Token, value: Expr) -> (e: Self)
        ensures
            e == (Expr::Assign { id: old(ids).next, name, value: Box::new(value) }),
            final(ids).next == next_id(old(ids).next),
    {
        Expr::Assign { id: ids.get_id(), name, value: Box::new(value) }
    }

    pub fn new_binary(ids: &mut IdSource, left: Expr, operator: Token, right: Expr) -> (e: Self)
        ensures
            e == (Expr::Binary {
                id: old(ids).next,
                left: Box::new(left),
                operator,
                right: Box::new(right),
            }),
            final(ids).next == next_id(old(ids).next),
    {
        Expr::Binary { id: ids.get_id(), left: Box::new(left), operator, right: Box::new(right) }
    }

    pub fn new_call(ids: &mut IdSource, callee: Expr, paren: Token, arguments: Vec<Expr>) -> (e: Self)
        ensures
            e == (Expr::Call { id: old(ids).next, callee: Box::new(callee), paren, arguments }),
            final(ids).next == next_id(old(ids).next),
    {
        Expr::Call { id: ids.get_id(), callee: Box::new(callee), paren, arguments }
    }

    pub fn new_get(ids: &mut IdSource, object: Expr, name: Token) -> (e: Self)
        ensures
            e == (Expr::Get { id: old(ids).next, object: Box::new(object), name }),
            final(ids).next == next_id(old(ids).next),
    {
        Expr::Get { id: ids.get_id(), object: Box::new(object), name }
    }

    pub fn new_invalid_get(ids: &mut IdSource, object: Expr, name: Token) -> (e: Self)
        ensures
            e == (Expr::InvalidGet { id: old(ids).next, object: Box::new(object), name }),
            final(ids).next == next_id(old(ids).next),
    {
        Expr::InvalidGet { id: ids.get_id(), object: Box::new(object), name }
    }

    pub fn new_grouping(ids: &mut IdSource, expression: Expr) -> (e: Self)
        ensures
            e == (Expr::Grouping { id: old(ids).next, expression: Box::new(expression) }),
            final(ids).next == next_id(old(ids).next),
    {
        Expr::Grouping { id: ids.get_id(), expression: Box::new(expression) }
    }

    pub fn new_literal(ids: &mut IdSource, value: Token) -> (e: Self)
        ensures
            e == (Expr::Literal { id: old(ids).next, value }),
            final(ids).next == next_id(old(ids).next),
    {
        Expr::Literal { id: ids.get_id(), value }
    }

    pub fn new_logical(ids: &mut IdSource, left: Expr, operator: Token, right: Expr) -> (e: Self)
        ensures
            e == (Expr::Logical {
                id: old(ids).next,
                left: Box::new(left),
                operator,
                right: Box::new(right),
            }),
            final(ids).next == next_id(old(ids).next),
    {
        Expr::Logical { id: ids.get_id(), left: Box::new(left), operator, right: Box::new(right) }
    }

    pub fn new_set(ids: &mut IdSource, object: Expr, name: Token, value: Expr) -> (e: Self)
        ensures
            e == (Expr::SetProperty {
                id: old(ids).next,
                object: Box::new(object),
                name,
                value: Box::new(value),
            }),
            final(ids).next == next_id(old(ids).next),
    {
        Expr::SetProperty { id: ids.get_id(), object: Box::new(object), name, value: Box::new(value) }
    }

    pub fn new_super(ids: &mut IdSource, keyword: Token, method: Token) -> (e: Self)
        ensures
            e == (Expr::Super { id: old(ids).next, keyword, method }),
            final(ids).next == next_id(old(ids).next),
    {
        Expr::Super { id: ids.get_id(), keyword, method }
    }

    pub fn new_invalid_super(ids: &mut IdSource, keyword: Token, method: Token) -> (e: Self)
        ensures
            e == (Expr::InvalidSuper { id: old(ids).next, keyword, method }),
            final(ids).next == next_id(old(ids).next),
    {
        Expr::InvalidSuper { id: ids.get_id(), keyword, method }
    }

    pub fn new_this(ids: &mut IdSource, keyword: Token) -> (e: Self)
        ensures
            e == (Expr::This { id: old(ids).next, keyword }),
            final(ids).next == next_id(old(ids).next),
    {
        Expr::This { id: ids.get_id(), keyword }
    }

    pub fn new_unary(ids: &mut IdSource, operator: Token, right: Expr) -> (e: Self)
        ensures
            e == (Expr::Unary { id: old(ids).next, operator, right: Box::new(right) }),
            final(ids).next == next_id(old(ids).next),
    {
        Expr::Unary { id: ids.get_id(), operator, right: Box::new(right) }
    }

    pub fn new_variable(ids: &mut IdSource, name: Token) -> (e: Self)
        ensures
            e == (Expr::Variable { id: old(ids).next, name }),
            final(ids).next == next_id(old(ids).next),
    {
        Expr::Variable { id: ids.get_id(), name }
    }
}

/// An expression with its tokens as views.
#[allow(inconsistent_fields)]
pub enum ExprView {
    Assign { id: usize, name: TokenView, value: Box<ExprView> },
    Binary { id: usize, left: Box<ExprView>, operator: TokenView, right: Box<ExprView> },
    Call { id: usize, callee: Box<ExprView>, paren: TokenView, arguments: Seq<ExprView> },
    Get { id: usize, object: Box<ExprView>, name: TokenView },
    Grouping { id: usize, expression: Box<ExprView> },
    InvalidGet { id: usize, object: Box<ExprView>, name: TokenView },
    InvalidSuper { id: usize, keyword: TokenView, method: TokenView },
    Literal { id: usize, value: TokenView },
    Logical { id: usize, left: Box<ExprView>, operator: TokenView, right: Box<ExprView> },
    SetProperty { id: usize, object: Box<ExprView>, name: TokenView, value: Box<ExprView> },
    Super { id: usize, keyword: TokenView, method: TokenView },
    This { id: usize, keyword: TokenView },
    Unary { id: usize, operator: TokenView, right: Box<ExprView> },
    Variable { id: usize, name: TokenView },
}

pub open spec fn view_expr(e: Expr) -> ExprView
    decreases e,
{
    match e {
        Expr::Assign { id, name, value } => ExprView::Assign {
            id,
            name: name@,
            value: Box::new(view_expr(*value)),
        },
        Expr::Binary { id, left, operator, right } => ExprView::Binary {
            id,
            left: Box::new(view_expr(*left)),
            operator: operator@,
            right: Box::new(view_expr(*right)),
        },
        Expr::Call { id, callee, paren, arguments } => ExprView::Call {
            id,
            callee: Box::new(view_expr(*callee)),
            paren: paren@,
            arguments: view_exprs(arguments@),
        },
        Expr::Get { id, object, name } => ExprView::Get {
            id,
            object: Box::new(view_expr(*object)),
            name: name@,
        },
        Expr::Grouping { id, expression } => ExprView::Grouping {
            id,
            expression: Box::new(view_expr(*expression)),
        },
        Expr::InvalidGet { id, object, name } => ExprView::InvalidGet {
            id,
            object: Box::new(view_expr(*object)),
            name: name@,
        },
        Expr::InvalidSuper { id, keyword, method } => ExprView::InvalidSuper {
            id,
            keyword: keyword@,
            method: method@,
        },
        Expr::Literal { id, value } => ExprView::Literal { id, value: value@ },
        Expr::Logical { id, left, operator, right } => ExprView::Logical {
            id,
            left: Box::new(view_expr(*left)),
            operator: operator@,
            right: Box::new(view_expr(*right)),
        },
        Expr::SetProperty { id, object, name, value } => ExprView::SetProperty {
            id,
            object: Box::new(view_expr(*object)),
            name: name@,
            value: Box::new(view_expr(*value)),
        },
        Expr::Super { id, keyword, method } => ExprView::Super {
            id,
            keyword: keyword@,
            method: method@,
        },
        Expr::This { id, keyword } => ExprView::This { id, keyword: keyword@ },
        Expr::Unary { id, operator, right } => ExprView::Unary {
            id,
            operator: operator@,
            right: Box::new(view_expr(*right)),
        },
        Expr::Variable { id, name } => ExprView::Variable { id, name: name@ },
    }
}

pub open spec fn view_exprs(es: Seq<Expr>) -> Seq<ExprView>
    decreases es,
{
    if es.len() == 0 {
        Seq::empty()
    } else {
        view_exprs(es.drop_last()).push(view_expr(es.last()))
    }
}

pub proof fn lemma_view_exprs_len(es: Seq<Expr>)
    ensures
        view_exprs(es).len() == es.len(),
    decreases es.len(),
{
    if es.len() > 0 {
        lemma_view_exprs_len(es.drop_last());
    }
}

pub proof fn lemma_view_exprs_push(es: Seq<Expr>, e: Expr)
    ensures
        view_exprs(es.push(e)) == view_exprs(es).push(view_expr(e)),
{
    assert(es.push(e).drop_last() =~= es);
}

/// The identifier handed out after `id`.
pub open spec fn next_id(id: usize) -> usize {
    if id == usize::MAX { 0 } else { (id + 1) as usize }
}

/// Where an expression starts in the source.
pub open spec fn spec_start(expr: Expr) -> FileLocation
    decreases expr,
{
    match expr {
        Expr::Assign { name, .. } => name.start,
        Expr::Binary { left, .. } => spec_start(*left),
        Expr::Call { callee, .. } => spec_start(*callee),
        Expr::Get { object, .. } => spec_start(*object),
        Expr::Grouping { expression, .. } => spec_start(*expression),
        Expr::InvalidGet { object, .. } => spec_start(*object),
        Expr::InvalidSuper { keyword, .. } => keyword.start,
        Expr::Literal { value, .. } => value.start,
        Expr::Logical { left, .. } => spec_start(*left),
        Expr::SetProperty { object, .. } => spec_start(*object),
        Expr::Super { keyword, .. } => keyword.start,
        Expr::This { keyword, .. } => keyword.start,
        Expr::Unary { operator, .. } => operator.start,
        Expr::Variable { name, .. } => name.start,
    }
}

/// Where an expression ends in the source.
pub open spec fn spec_end(expr: Expr) -> FileLocation
    decreases expr,
{
    match expr {
        Expr::Assign { value, .. } => spec_end(*value),
        Expr::Binary { right, .. } => spec_end(*right),
        Expr::Call { paren, .. } => paren.end,
        Expr::Grouping { expression, .. } => spec_end(*expression),
        Expr::Get { name, .. } => name.end,
        Expr::InvalidGet { name, .. } => name.end,
        Expr::InvalidSuper { method, .. } => method.end,
        Expr::Literal { value, .. } => value.end,
        Expr::Logical { right, .. } => spec_end(*right),
        Expr::SetProperty { value, .. } => spec_end(*value),
        Expr::Super { method, .. } => method.end,
        Expr::This { keyword, .. } => keyword.end,
        Expr::Unary { right, .. } => spec_end(*right),
        Expr::Variable { name, .. } => name.end,
    }
}

pub fn get_start_location(expr: &Expr) -> (r: &FileLocation)
    ensures
        *r == spec_start(*expr),
    decreases expr,
{
    match expr {
        Expr::Assign { name, .. } => &name.start,
        Expr::Binary { left, .. } => get_start_location(left),
        Expr::Call { callee, .. } => get_start_location(callee),
        Expr::Get { object, .. } => get_start_location(object),
        Expr::Grouping { expression, .. } => get_start_location(expression),
        Expr::InvalidGet { object, .. } => get_start_location(object),
        Expr::InvalidSuper { keyword, .. } => &keyword.start,
        Expr::Literal { value, .. } => &value.start,
        Expr::Logical { left, .. } => get_start_location(left),
        Expr::SetProperty { object, .. } => get_start_location(object),
        Expr::Super { keyword, .. } => &keyword.start,
        Expr::This { keyword, .. } => &keyword.start,
        Expr::Unary { operator, .. } => &operator.start,
        Expr::Variable { name, .. } => &name.start,
    }
}

pub fn get_end_location(expr: &Expr) -> (r: &FileLocation)
    ensures
        *r == spec_end(*expr),
    decreases expr,
{
    match expr {
        Expr::Assign { value, .. } => get_end_location(value),
        Expr::Binary { right, .. } => get_end_location(right),
        Expr::Call { paren, .. } => &paren.end,
        Expr::Grouping { expression, .. } => get_end_location(expression),
        Expr::Get { name, .. } => &name.end,
        Expr::InvalidGet { name, .. } => &name.end,
        Expr::InvalidSuper { method, .. } => &method.end,
        Expr::Literal { value, .. } => &value.end,
        Expr::Logical { right, .. } => get_end_location(right),
        Expr::SetProperty { value, .. } => get_end_location(value),
        Expr::Super { method, .. } => &method.end,
        Expr::This { keyword, .. } => &keyword.end,
        Expr::Unary { right, .. } => get_end_location(right),
        Expr::Variable { name, .. } => &name.end,
    }
}

/// Something that occupies a stretch of the source.
pub trait ProvideLocation {
    spec fn spec_start_location(&self) -> FileLocation;

    spec fn spec_end_location(&self) -> FileLocation;

    fn start(&self) -> (r: &FileLocation)
        ensures
            *r == self.spec_start_location(),
    ;

    fn end(&self) -> (r: &FileLocation)
        ensures
            *r == self.spec_end_location(),
    ;
}

impl ProvideLocation for Expr {
    open spec fn spec_start_location(&self) -> FileLocation {
        spec_start(*self)
    }

    open spec fn spec_end_location(&self) -> FileLocation {
        spec_end(*self)
    }

    fn start(&self) -> (r: &FileLocation) {
        get_start_location(self)
    }

    fn end(&self) -> (r: &FileLocation) {
        get_end_location(self)
    }
}

impl ProvideLocation for Token {
    open spec fn spec_start_location(&self) -> FileLocation {
        self.start
    }

    open spec fn spec_end_location(&self) -> FileLocation {
        self.end
    }

    fn start(&self) -> (r: &FileLocation) {
        &self.start
    }

    fn end(&self) -> (r: &FileLocation) {
        &self.end
    }
}

} // verus!
