pub mod class;
pub mod environment;
pub mod function;
pub mod instance;
pub mod lox_type;
pub mod native_functions;
pub mod unwind;

use crate::expr::{Expr, ProvideLocation};
use crate::reporter::{ReportView, Reporter, extends, lemma_extends_trans};
use crate::stmt::Stmt;
use crate::text::append_str;
use crate::token::{Literal, Token, TokenType, str_equal};
use class::Class;
use environment::{Environment, FrameView, bind, spec_define};
use crate::location::FileLocation;
use function::Function;
use lox_type::{Heap, LoxType, NativeCallable, Number, ValueView, is_equal, is_truthy, spec_is_equal, spec_is_truthy};
use native_functions::Clock;
use std::collections::HashMap;
use unwind::Unwind;
use vstd::prelude::*;

verus! {

broadcast use {vstd::std_specs::hash::group_hash_axioms, vstd::std_specs::control_flow::group_control_flow_axioms};

/// How deeply calls may nest before a program is stopped.
pub const MAX_CALL_DEPTH: u64 = 200;

pub open spec fn max2(a: nat, b: nat) -> nat {
    if a < b {
        b
    } else {
        a
    }
}

/// The height of an expression tree.
pub open spec fn expr_height(e: Expr) -> nat
    decreases e,
{
    match e {
        Expr::Assign { value, .. } => 1 + expr_height(*value),
        Expr::Binary { left, right, .. } => 1 + max2(expr_height(*left), expr_height(*right)),
        Expr::Call { callee, arguments, .. } => 1 + max2(
            expr_height(*callee),
            exprs_height(arguments@),
        ),
        Expr::Get { object, .. } => 1 + expr_height(*object),
        Expr::Grouping { expression, .. } => 1 + expr_height(*expression),
        Expr::InvalidGet { object, .. } => 1 + expr_height(*object),
        Expr::InvalidSuper { .. } => 1,
        Expr::Literal { .. } => 1,
        Expr::Logical { left, right, .. } => 1 + max2(expr_height(*left), expr_height(*right)),
        Expr::SetProperty { object, value, .. } => 1 + max2(
            expr_height(*object),
            expr_height(*value),
        ),
        Expr::Super { .. } => 1,
        Expr::This { .. } => 1,
        Expr::Unary { right, .. } => 1 + expr_height(*right),
        Expr::Variable { .. } => 1,
    }
}

/// The greatest height among `es`.
pub open spec fn exprs_height(es: Seq<Expr>) -> nat
    decreases es,
{
    if es.len() == 0 {
        0
    } else {
        max2(exprs_height(es.drop_last()), expr_height(es.last()))
    }
}

pub open spec fn opt_expr_height(e: Option<Expr>) -> nat {
    match e {
        Some(e) => expr_height(e),
        None => 0,
    }
}

/// The height of a statement tree.
pub open spec fn stmt_height(s: Stmt) -> nat
    decreases s,
{
    match s {
        Stmt::Block { statements } => 1 + stmts_height(statements@),
        Stmt::Class { superclass, .. } => 1 + match superclass {
            Some(e) => expr_height(e),
            None => 0,
        },
        Stmt::Expression { expression } => 1 + expr_height(expression),
        Stmt::Function { .. } => 1,
        Stmt::If { condition, then_branch, else_branch } => 1 + max2(
            expr_height(condition),
            max2(
                stmt_height(*then_branch),
                match *else_branch {
                    Some(e) => stmt_height(e),
                    None => 0,
                },
            ),
        ),
        Stmt::Print { value } => 1 + expr_height(value),
        Stmt::Return { value, .. } => 1 + match value {
            Some(e) => expr_height(e),
            None => 0,
        },
        Stmt::Var { initialiser, .. } => 1 + match initialiser {
            Some(e) => expr_height(e),
            None => 0,
        },
        Stmt::While { condition, body } => 1 + max2(expr_height(condition), stmt_height(*body)),
    }
}

/// The greatest height among `ss`.
pub open spec fn stmts_height(ss: Seq<Stmt>) -> nat
    decreases ss,
{
    if ss.len() == 0 {
        0
    } else {
        max2(stmts_height(ss.drop_last()), stmt_height(ss.last()))
    }
}

pub open spec fn opt_stmt_height(s: Option<Stmt>) -> nat {
    match s {
        Some(s) => stmt_height(s),
        None => 0,
    }
}

pub proof fn lemma_exprs_height(es: Seq<Expr>, i: int)
    requires
        0 <= i < es.len(),
    ensures
        expr_height(es[i]) <= exprs_height(es),
    decreases es.len(),
{
    if i < es.len() - 1 {
        lemma_exprs_height(es.drop_last(), i);
    }
}

pub proof fn lemma_stmts_height(ss: Seq<Stmt>, i: int)
    requires
        0 <= i < ss.len(),
    ensures
        stmt_height(ss[i]) <= stmts_height(ss),
    decreases ss.len(),
{
    if i < ss.len() - 1 {
        lemma_stmts_height(ss.drop_last(), i);
    }
}

/// A diagnostic with message `m` was reported after `before`.
pub open spec fn error_reported(before: Seq<ReportView>, after: Seq<ReportView>, m: Seq<char>) -> bool {
    exists|i: int|
        before.len() <= i < after.len() && (#[trigger] after[i] matches ReportView::Diagnostic {
            message,
            ..
        } && message == m)
}

/// The message of a run-time error, if `r` is one.
pub open spec fn error_message<'a, N, T>(r: Result<T, Unwind<'a, N>>) -> Option<Seq<char>> {
    match r {
        Err(Unwind::WithError(m)) => Some(m@),
        _ => None,
    }
}

/// Reports were only added, and a run-time error was reported as a diagnostic
/// carrying its message.
pub open spec fn reported<'a, N, T>(
    before: Seq<ReportView>,
    after: Seq<ReportView>,
    r: Result<T, Unwind<'a, N>>,
) -> bool {
    &&& extends(before, after)
    &&& (error_message(r) matches Some(m) ==> error_reported(before, after, m))
}

/// `r` is the run-time error `m`, reported as one diagnostic at `at`.
pub open spec fn failed_at<'a, N, T>(
    r: Result<T, Unwind<'a, N>>,
    before: Seq<ReportView>,
    after: Seq<ReportView>,
    at: Expr,
    m: Seq<char>,
) -> bool {
    &&& error_message(r) == Some(m)
    &&& after == before.push(
        ReportView::Diagnostic { start: crate::expr::spec_start(at), end: crate::expr::spec_end(at), message: m },
    )
}

/// What an arithmetic or comparison operator of type `t` gives on `left` and
/// `right`: where both are numbers, a number or a truth value (its value is the
/// number type's) with nothing reported; otherwise an error.
pub open spec fn numeric_outcome<'a, N: Number>(
    t: TokenType,
    left: LoxType<'a, N>,
    right: LoxType<'a, N>,
    r: Result<LoxType<'a, N>, Unwind<'a, N>>,
    before: Seq<ReportView>,
    after: Seq<ReportView>,
    at: Expr,
) -> bool {
    match (left, right) {
        (LoxType::Number(a), LoxType::Number(b)) => if t == TokenType::Minus {
            r matches Ok(LoxType::Number(x)) && call_ensures(N::minus, (a, b), x) && after == before
        } else if t == TokenType::Slash {
            r matches Ok(LoxType::Number(x)) && call_ensures(N::divided_by, (a, b), x) && after
                == before
        } else if t == TokenType::Star {
            r matches Ok(LoxType::Number(x)) && call_ensures(N::times, (a, b), x) && after == before
        } else if t == TokenType::Greater {
            r matches Ok(LoxType::Boolean(x)) && call_ensures(N::greater, (a, b), x) && after
                == before
        } else if t == TokenType::GreaterEqual {
            r matches Ok(LoxType::Boolean(x)) && call_ensures(N::greater_equal, (a, b), x) && after
                == before
        } else if t == TokenType::Less {
            r matches Ok(LoxType::Boolean(x)) && call_ensures(N::less, (a, b), x) && after == before
        } else if t == TokenType::LessEqual {
            r matches Ok(LoxType::Boolean(x)) && call_ensures(N::less_equal, (a, b), x) && after
                == before
        } else {
            failed_at(r, before, after, at, "Unsupported operator"@)
        },
        _ => failed_at(r, before, after, at, "Operand should be a number"@),
    }
}

/// What a binary operator of type `t` gives on `left` and `right`: `+` adds two
/// numbers or joins two strings, `==` and `!=` compare (numbers by the number
/// type), and the others are arithmetic or comparisons.
pub open spec fn binary_outcome<'a, N: Number>(
    t: TokenType,
    left: LoxType<'a, N>,
    right: LoxType<'a, N>,
    r: Result<LoxType<'a, N>, Unwind<'a, N>>,
    before: Seq<ReportView>,
    after: Seq<ReportView>,
    at: Expr,
) -> bool {
    if t == TokenType::Plus {
        match (left, right) {
            (LoxType::Number(a), LoxType::Number(b)) => r matches Ok(LoxType::Number(x))
                && call_ensures(N::plus, (a, b), x) && after == before,
            (LoxType::String(a), LoxType::String(b)) => r matches Ok(LoxType::String(s)) && s@ == a@
                + b@ && after == before,
            _ => failed_at(r, before, after, at, "Operands must be two numbers or two strings"@),
        }
    } else if t == TokenType::EqualEqual || t == TokenType::BangEqual {
        &&& r matches Ok(LoxType::Boolean(b)) && match (left, right) {
            (LoxType::Number(x), LoxType::Number(y)) => call_ensures(
                N::equals,
                (x, y),
                b == (t == TokenType::EqualEqual),
            ),
            _ => b == (spec_is_equal(left.view(), right.view()) == (t == TokenType::EqualEqual)),
        }
        &&& after == before
    } else {
        numeric_outcome(t, left, right, r, before, after, at)
    }
}

/// An operator applied to two numbers gives what the number type's method of
/// that name gives with the left operand first and the right one second, and
/// reports nothing: `l >= r` is `l.greater_equal(r)`, `l < r` is `l.less(r)`,
/// `l - r` is `l.minus(r)`, `l == r` is `l.equals(r)`, `l != r` its negation.
pub proof fn law_number_operators_keep_operand_order<'a, N: Number>(
    t: TokenType,
    l: N,
    r: N,
    result: Result<LoxType<'a, N>, Unwind<'a, N>>,
    before: Seq<ReportView>,
    after: Seq<ReportView>,
    at: Expr,
)
    requires
        binary_outcome(t, LoxType::Number(l), LoxType::Number(r), result, before, after, at),
    ensures
        t == TokenType::Greater ==> (result matches Ok(LoxType::Boolean(b)) && call_ensures(
            N::greater,
            (l, r),
            b,
        )),
        t == TokenType::GreaterEqual ==> (result matches Ok(LoxType::Boolean(b)) && call_ensures(
            N::greater_equal,
            (l, r),
            b,
        )),
        t == TokenType::Less ==> (result matches Ok(LoxType::Boolean(b)) && call_ensures(
            N::less,
            (l, r),
            b,
        )),
        t == TokenType::LessEqual ==> (result matches Ok(LoxType::Boolean(b)) && call_ensures(
            N::less_equal,
            (l, r),
            b,
        )),
        t == TokenType::Plus ==> (result matches Ok(LoxType::Number(x)) && call_ensures(
            N::plus,
            (l, r),
            x,
        )),
        t == TokenType::Minus ==> (result matches Ok(LoxType::Number(x)) && call_ensures(
            N::minus,
            (l, r),
            x,
        )),
        t == TokenType::Star ==> (result matches Ok(LoxType::Number(x)) && call_ensures(
            N::times,
            (l, r),
            x,
        )),
        t == TokenType::Slash ==> (result matches Ok(LoxType::Number(x)) && call_ensures(
            N::divided_by,
            (l, r),
            x,
        )),
        t == TokenType::EqualEqual ==> (result matches Ok(LoxType::Boolean(b)) && call_ensures(
            N::equals,
            (l, r),
            b,
        )),
        t == TokenType::BangEqual ==> (result matches Ok(LoxType::Boolean(b)) && call_ensures(
            N::equals,
            (l, r),
            !b,
        )),
        t == TokenType::Greater || t == TokenType::GreaterEqual || t == TokenType::Less || t
            == TokenType::LessEqual || t == TokenType::Plus || t == TokenType::Minus || t
            == TokenType::Star || t == TokenType::Slash || t == TokenType::EqualEqual || t
            == TokenType::BangEqual ==> after == before,
{
}

/// Negating a number gives what the number type's `negated` gives on it.
pub proof fn law_negation_is_the_number_types<'a, N: Number>(
    n: N,
    result: Result<LoxType<'a, N>, Unwind<'a, N>>,
    before: Seq<ReportView>,
    after: Seq<ReportView>,
    at: Expr,
)
    requires
        unary_outcome(TokenType::Minus, LoxType::Number(n), result, before, after, at),
    ensures
        result matches Ok(LoxType::Number(x)) && call_ensures(N::negated, (n,), x),
        after == before,
{
}

/// What a unary operator of type `t` gives on `right`: `-` negates a number
/// (its value is the number type's), `!` gives whether `right` is falsey.
pub open spec fn unary_outcome<'a, N: Number>(
    t: TokenType,
    right: LoxType<'a, N>,
    r: Result<LoxType<'a, N>, Unwind<'a, N>>,
    before: Seq<ReportView>,
    after: Seq<ReportView>,
    at: Expr,
) -> bool {
    if t == TokenType::Minus {
        if let LoxType::Number(n) = right {
            r matches Ok(LoxType::Number(x)) && call_ensures(N::negated, (n,), x) && after == before
        } else {
            failed_at(r, before, after, at, "Operand should be a number"@)
        }
    } else if t == TokenType::Bang {
        r == Ok::<LoxType<'a, N>, Unwind<'a, N>>(LoxType::Boolean(!spec_is_truthy(right.view())))
            && after == before
    } else {
        failed_at(r, before, after, at, "Unsupported operand"@)
    }
}

/// What the literal `value` of expression `at` gives: its value (a number's
/// value is the number type's), or an error where it has none.
pub open spec fn literal_outcome<'a, N: Number>(
    value: Token,
    r: Result<LoxType<'a, N>, Unwind<'a, N>>,
    before: Seq<ReportView>,
    after: Seq<ReportView>,
    at: Expr,
) -> bool {
    match value.literal {
        Some(Literal::String(s)) => r matches Ok(LoxType::String(t)) && t@ == s@ && after == before,
        Some(Literal::True) => r == Ok::<LoxType<'a, N>, Unwind<'a, N>>(LoxType::Boolean(true))
            && after == before,
        Some(Literal::False) => r == Ok::<LoxType<'a, N>, Unwind<'a, N>>(LoxType::Boolean(false))
            && after == before,
        Some(Literal::Nil) => r == Ok::<LoxType<'a, N>, Unwind<'a, N>>(LoxType::Nil) && after
            == before,
        Some(Literal::Number(digits)) => r matches Ok(LoxType::Number(x)) && (exists|text: &str|
            text@ == digits@ && #[trigger] call_ensures(N::from_literal, (text,), x)) && after
            == before,
        None => failed_at(r, before, after, at, "Unhandled literal"@),
    }
}

/// What a run of a program has changed: the frames, classes and instances of
/// the heap, and the reports.
pub struct RunState<'a, N> {
    pub frames: Seq<FrameView<'a, N>>,
    pub classes: Seq<class::ClassView<'a, N>>,
    pub instances: Seq<Seq<(Seq<char>, ValueView<'a, N>)>>,
    pub reports: Seq<ReportView>,
}

pub open spec fn run_state<'a, N: Number>(heap: Heap<'a, N>, reports: Seq<ReportView>) -> RunState<
    'a,
    N,
> {
    RunState {
        frames: heap.frames_view(),
        classes: heap.classes_view(),
        instances: heap.instances_view(),
        reports,
    }
}

/// Whether `a` and `b` hold the same heap.
pub open spec fn same_heap<'a, N>(a: RunState<'a, N>, b: RunState<'a, N>) -> bool {
    a.frames == b.frames && a.classes == b.classes && a.instances == b.instances
}

/// How the evaluation of an expression or statement went: its outcome (a
/// statement that completes gives `nil`) and the state after it, with how its
/// parts went.
pub enum RunTrace<'a, N> {
    Leaf { result: Result<LoxType<'a, N>, Unwind<'a, N>>, state: RunState<'a, N> },
    Node {
        result: Result<LoxType<'a, N>, Unwind<'a, N>>,
        state: RunState<'a, N>,
        first: Box<RunTrace<'a, N>>,
        second: Box<RunTrace<'a, N>>,
    },
}

impl<'a, N> RunTrace<'a, N> {
    pub open spec fn result(self) -> Result<LoxType<'a, N>, Unwind<'a, N>> {
        match self {
            RunTrace::Leaf { result, .. } => result,
            RunTrace::Node { result, .. } => result,
        }
    }

    pub open spec fn state(self) -> RunState<'a, N> {
        match self {
            RunTrace::Leaf { state, .. } => state,
            RunTrace::Node { state, .. } => state,
        }
    }
}

/// How many scopes out the variable of expression `id` was resolved, if it was.
pub open spec fn depth_for(depths: Map<usize, usize>, id: usize) -> Option<usize> {
    if depths.contains_key(id) {
        Some(depths[id])
    } else {
        None
    }
}

/// The value of `name` as seen from `environment`, or the message for an
/// undefined variable.
pub open spec fn look_up<'a, N>(
    depths: Map<usize, usize>,
    environment: Environment,
    frames: Seq<FrameView<'a, N>>,
    id: usize,
    name: Seq<char>,
) -> Result<ValueView<'a, N>, Seq<char>> {
    match environment.target(frames, depth_for(depths, id)) {
        Some(t) => match environment::binding_value(frames[t].values, name) {
            Some(v) => Ok(v),
            None => Err(environment::undefined_variable(name)),
        },
        None => Err(environment::undefined_variable(name)),
    }
}

/// A variable read from `before`: its value, or an error reported from `start`
/// to `end`; the heap is left alone.
pub open spec fn read_outcome<'a, N: Number>(
    looked_up: Result<ValueView<'a, N>, Seq<char>>,
    before: RunState<'a, N>,
    r: Result<LoxType<'a, N>, Unwind<'a, N>>,
    after: RunState<'a, N>,
    start: FileLocation,
    end: FileLocation,
) -> bool {
    &&& same_heap(before, after)
    &&& match looked_up {
        Ok(v) => r matches Ok(x) && x.view() == v && after.reports == before.reports,
        Err(m) => error_message(r) == Some(m) && after.reports == before.reports.push(
            ReportView::Diagnostic { start, end, message: m },
        ),
    }
}

/// Reading property `name` of `v` from state `before`, errors reported at
/// `at`: a field of an instance, or else a method of its class bound to it (in
/// a new frame that binds `this`); an error where there is none or `v` is not
/// an instance.
pub open spec fn get_outcome<'a, N: Number>(
    v: LoxType<'a, N>,
    name: Seq<char>,
    before: RunState<'a, N>,
    r: Result<LoxType<'a, N>, Unwind<'a, N>>,
    after: RunState<'a, N>,
    at: Expr,
) -> bool {
    &&& after.classes == before.classes
    &&& after.instances == before.instances
    &&& match v {
        LoxType::Instance { instance } => match instance::spec_property(
            before.instances,
            before.classes,
            instance,
            name,
        ) {
            Some(p) => {
                &&& r matches Ok(x) && x.view() == instance::bound_value(before.frames.len(), p)
                &&& after.frames == instance::bound_frames(before.frames, p, instance)
                &&& after.reports == before.reports
            },
            None => after.frames == before.frames && failed_at(
                r,
                before.reports,
                after.reports,
                at,
                instance::undefined_property(name),
            ),
        },
        _ => after.frames == before.frames && failed_at(
            r,
            before.reports,
            after.reports,
            at,
            "Only instances have fields"@,
        ),
    }
}

/// Setting property `name` of `object` to `v` from state `before`, errors
/// reported at `at`: an instance binds it among its fields and the result is
/// `v`; anything else is an error.
pub open spec fn set_outcome<'a, N: Number>(
    object: LoxType<'a, N>,
    name: Seq<char>,
    v: LoxType<'a, N>,
    before: RunState<'a, N>,
    r: Result<LoxType<'a, N>, Unwind<'a, N>>,
    after: RunState<'a, N>,
    at: Expr,
) -> bool {
    &&& after.frames == before.frames
    &&& after.classes == before.classes
    &&& match object {
        LoxType::Instance { instance } => {
            &&& r == Ok::<LoxType<'a, N>, Unwind<'a, N>>(v)
            &&& after.reports == before.reports
            &&& after.instances == (if instance.id < before.instances.len() {
                before.instances.update(
                    instance.id as int,
                    environment::spec_bind(before.instances[instance.id as int], name, v.view()),
                )
            } else {
                before.instances
            })
        },
        _ => after.instances == before.instances && failed_at(
            r,
            before.reports,
            after.reports,
            at,
            "Only instances have fields"@,
        ),
    }
}

/// The variable `name` read `depth` frames out from `environment` (globally
/// where `depth` is `None`): its value, or the error message.
pub open spec fn look_up_at<'a, N>(
    environment: Environment,
    frames: Seq<FrameView<'a, N>>,
    depth: Option<usize>,
    name: Seq<char>,
) -> Result<ValueView<'a, N>, Seq<char>> {
    match environment.target(frames, depth) {
        Some(t) => match environment::binding_value(frames[t].values, name) {
            Some(v) => Ok(v),
            None => Err(environment::undefined_variable(name)),
        },
        None => Err(environment::undefined_variable(name)),
    }
}

/// An error with message `m`, reported at `token`, the heap left alone.
pub open spec fn failed_at_token<'a, N>(
    r: Result<LoxType<'a, N>, Unwind<'a, N>>,
    before: RunState<'a, N>,
    after: RunState<'a, N>,
    token: Token,
    m: Seq<char>,
) -> bool {
    &&& after.frames == before.frames
    &&& error_message(r) == Some(m)
    &&& after.reports == before.reports.push(
        ReportView::Diagnostic { start: token.start, end: token.end, message: m },
    )
}

/// Reading `super.method` (resolved as expression `id`) from state `before`:
/// `super` is read where the resolver placed it and `this` one frame further
/// in; the method of that class or its superclasses is bound to `this` (a
/// function in a new frame that binds `this`).  A missing variable, a
/// `super` that is not a class and a missing method are errors at `method`.
pub open spec fn super_outcome<'a, N: Number>(
    depths: Map<usize, usize>,
    environment: Environment,
    id: usize,
    method: Token,
    before: RunState<'a, N>,
    r: Result<LoxType<'a, N>, Unwind<'a, N>>,
    after: RunState<'a, N>,
) -> bool {
    let depth = depth_for(depths, id);
    let this_depth = match depth {
        Some(d) => Some(if d > 0 { (d - 1) as usize } else { d }),
        None => None,
    };
    &&& after.classes == before.classes
    &&& after.instances == before.instances
    &&& match look_up_at(environment, before.frames, depth, "super"@) {
        Err(m) => failed_at_token(r, before, after, method, m),
        Ok(sv) => match look_up_at(environment, before.frames, this_depth, "this"@) {
            Err(m) => failed_at_token(r, before, after, method, m),
            Ok(object) => match sv {
                ValueView::Class(c) => match class::spec_find_method(
                    before.classes,
                    c.id as int,
                    method.lexeme@,
                    before.classes.len(),
                ) {
                    Some(ValueView::Function(f)) => {
                        &&& r matches Ok(x) && x.view() == ValueView::<N>::Function(
                            function::Function {
                                declaration: f.declaration,
                                closure: Environment {
                                    frame: before.frames.len() as usize,
                                    global: f.closure.global,
                                },
                                is_initialiser: f.is_initialiser,
                            },
                        )
                        &&& after.frames == before.frames.push(
                            FrameView {
                                enclosing: Some(f.closure.frame),
                                values: seq![("this"@, object)],
                            },
                        )
                        &&& after.reports == before.reports
                    },
                    Some(v) => {
                        &&& r matches Ok(x) && x.view() == v
                        &&& after.frames == before.frames
                        &&& after.reports == before.reports
                    },
                    None => failed_at_token(
                        r,
                        before,
                        after,
                        method,
                        instance::undefined_property(method.lexeme@),
                    ),
                },
                _ => failed_at_token(r, before, after, method, "Superclass must be a class"@),
            },
        },
    }
}

/// Whether `t` is how evaluating `e` in `environment`, from state `before`,
/// goes.  Operands are evaluated from the left, an error stops the
/// evaluation, `or` and `and` evaluate their right operand only where the left
/// one does not decide, variables are read and assigned where the resolver
/// placed them, and calls evaluate the callee, then the arguments, then call
/// as `valid_call` says, properties are read and set as `get_outcome` and
/// `set_outcome` say, and `super` as `super_outcome` says.  Of numbers, the
/// values are left to the number type.
pub open spec fn valid_expr<'a, N: Number>(
    depths: Map<usize, usize>,
    environment: Environment,
    e: Expr,
    before: RunState<'a, N>,
    t: RunTrace<'a, N>,
    fuel: nat,
) -> bool
    decreases fuel, expr_height(e), 0int,
{
    match e {
        Expr::Literal { value, .. } => same_heap(before, t.state()) && literal_outcome(
            value,
            t.result(),
            before.reports,
            t.state().reports,
            e,
        ),
        Expr::Grouping { expression, .. } => valid_expr(depths, environment, *expression, before, t, fuel),
        Expr::Unary { operator, right, .. } => match t {
            RunTrace::Node { result, state, first, .. } => valid_expr(
                depths,
                environment,
                *right,
                before,
                *first, fuel,
            ) && match first.result() {
                Ok(v) => same_heap(first.state(), state) && unary_outcome(
                    operator.token_type,
                    v,
                    result,
                    first.state().reports,
                    state.reports,
                    e,
                ),
                Err(u) => result == Err::<LoxType<'a, N>, Unwind<'a, N>>(u) && state
                    == first.state(),
            },
            _ => false,
        },
        Expr::Binary { left, operator, right, .. } => match t {
            RunTrace::Node { result, state, first, second } => valid_expr(
                depths,
                environment,
                *left,
                before,
                *first, fuel,
            ) && match first.result() {
                Err(u) => result == Err::<LoxType<'a, N>, Unwind<'a, N>>(u) && state
                    == first.state(),
                Ok(l) => valid_expr(depths, environment, *right, first.state(), *second, fuel)
                    && match second.result() {
                    Err(u) => result == Err::<LoxType<'a, N>, Unwind<'a, N>>(u) && state
                        == second.state(),
                    Ok(v) => same_heap(second.state(), state) && binary_outcome(
                        operator.token_type,
                        l,
                        v,
                        result,
                        second.state().reports,
                        state.reports,
                        e,
                    ),
                },
            },
            _ => false,
        },
        Expr::Logical { left, operator, right, .. } => match t {
            RunTrace::Node { result, state, first, second } => valid_expr(
                depths,
                environment,
                *left,
                before,
                *first, fuel,
            ) && match first.result() {
                Err(u) => result == Err::<LoxType<'a, N>, Unwind<'a, N>>(u) && state
                    == first.state(),
                Ok(l) => if (operator.token_type == TokenType::Or) == spec_is_truthy(l.view()) {
                    result == Ok::<LoxType<'a, N>, Unwind<'a, N>>(l) && state == first.state()
                } else {
                    valid_expr(depths, environment, *right, first.state(), *second, fuel) && result
                        == second.result() && state == second.state()
                },
            },
            _ => false,
        },
        Expr::Call { callee, arguments, .. } => match t {
            RunTrace::Node { result, state, first, second } => valid_expr(
                depths,
                environment,
                *callee,
                before,
                *first,
                fuel,
            ) && match first.result() {
                Err(u) => result == Err::<LoxType<'a, N>, Unwind<'a, N>>(u) && state
                    == first.state(),
                Ok(c) => match *second {
                    RunTrace::Node { first: args_trace, second: call_trace, .. } => valid_exprs(
                        depths,
                        environment,
                        arguments@,
                        first.state(),
                        *args_trace,
                        fuel,
                    ) && match args_trace.result() {
                        Err(u) => result == Err::<LoxType<'a, N>, Unwind<'a, N>>(u) && state
                            == args_trace.state(),
                        Ok(_) => valid_call(
                            depths,
                            c,
                            *callee,
                            argument_values(*args_trace, arguments@.len()),
                            args_trace.state(),
                            *call_trace,
                            fuel,
                        ) && result == call_trace.result() && state == call_trace.state(),
                    },
                    _ => false,
                },
            },
            _ => false,
        },
        Expr::Get { object, name, .. } => match t {
            RunTrace::Node { result, state, first, .. } => valid_expr(
                depths,
                environment,
                *object,
                before,
                *first,
                fuel,
            ) && match first.result() {
                Err(u) => result == Err::<LoxType<'a, N>, Unwind<'a, N>>(u) && state
                    == first.state(),
                Ok(v) => get_outcome(v, name.lexeme@, first.state(), result, state, *object),
            },
            _ => false,
        },
        Expr::InvalidGet { object, name, .. } => match t {
            RunTrace::Node { result, state, first, .. } => valid_expr(
                depths,
                environment,
                *object,
                before,
                *first,
                fuel,
            ) && match first.result() {
                Err(u) => result == Err::<LoxType<'a, N>, Unwind<'a, N>>(u) && state
                    == first.state(),
                Ok(v) => get_outcome(v, name.lexeme@, first.state(), result, state, *object),
            },
            _ => false,
        },
        Expr::SetProperty { object, name, value, .. } => match t {
            RunTrace::Node { result, state, first, second } => valid_expr(
                depths,
                environment,
                *object,
                before,
                *first,
                fuel,
            ) && match first.result() {
                Err(u) => result == Err::<LoxType<'a, N>, Unwind<'a, N>>(u) && state
                    == first.state(),
                Ok(o) => valid_expr(depths, environment, *value, first.state(), *second, fuel)
                    && match second.result() {
                    Err(u) => result == Err::<LoxType<'a, N>, Unwind<'a, N>>(u) && state
                        == second.state(),
                    Ok(v) => set_outcome(o, name.lexeme@, v, second.state(), result, state, *object),
                },
            },
            _ => false,
        },
        Expr::Super { id, method, .. } => super_outcome(
            depths,
            environment,
            id,
            method,
            before,
            t.result(),
            t.state(),
        ),
        Expr::InvalidSuper { id, method, .. } => super_outcome(
            depths,
            environment,
            id,
            method,
            before,
            t.result(),
            t.state(),
        ),
        Expr::Variable { id, name } => read_outcome(
            look_up(depths, environment, before.frames, id, name.lexeme@),
            before,
            t.result(),
            t.state(),
            crate::expr::spec_start(e),
            crate::expr::spec_end(e),
        ),
        Expr::This { id, keyword } => read_outcome(
            look_up(depths, environment, before.frames, id, keyword.lexeme@),
            before,
            t.result(),
            t.state(),
            keyword.start,
            keyword.end,
        ),
        Expr::Assign { id, name, value } => match t {
            RunTrace::Node { result, state, first, .. } => valid_expr(
                depths,
                environment,
                *value,
                before,
                *first, fuel,
            ) && match first.result() {
                Err(u) => result == Err::<LoxType<'a, N>, Unwind<'a, N>>(u) && state
                    == first.state(),
                Ok(v) => {
                    let frames = first.state().frames;
                    &&& state.classes == first.state().classes
                    &&& state.instances == first.state().instances
                    &&& match environment.target(frames, depth_for(depths, id)) {
                        Some(f) if environment::has_binding(frames[f].values, name.lexeme@) => {
                            &&& result == Ok::<LoxType<'a, N>, Unwind<'a, N>>(v)
                            &&& state.reports == first.state().reports
                            &&& state.frames == environment::spec_define(
                                frames,
                                f,
                                name.lexeme@,
                                v.view(),
                            )
                        },
                        _ => {
                            &&& state.frames == frames
                            &&& failed_at(
                                result,
                                first.state().reports,
                                state.reports,
                                e,
                                environment::undefined_variable(name.lexeme@),
                            )
                        },
                    }
                },
            },
            _ => false,
        },
    }
}

/// Whether `t` is how evaluating the expressions `es` in turn goes, from state
/// `before`, until one fails; completing gives `nil`.
pub open spec fn valid_exprs<'a, N: Number>(
    depths: Map<usize, usize>,
    environment: Environment,
    es: Seq<Expr>,
    before: RunState<'a, N>,
    t: RunTrace<'a, N>,
    fuel: nat,
) -> bool
    decreases fuel, exprs_height(es), es.len() + 1,
{
    if es.len() == 0 {
        t.result() == Ok::<LoxType<'a, N>, Unwind<'a, N>>(LoxType::Nil) && t.state() == before
    } else {
        match t {
            RunTrace::Node { result, state, first, second } => valid_exprs(
                depths,
                environment,
                es.drop_last(),
                before,
                *first,
                fuel,
            ) && match first.result() {
                Err(u) => result == Err::<LoxType<'a, N>, Unwind<'a, N>>(u) && state
                    == first.state(),
                Ok(_) => valid_expr(depths, environment, es[es.len() - 1], first.state(), *second, fuel)
                    && match second.result() {
                    Err(u) => result == Err::<LoxType<'a, N>, Unwind<'a, N>>(u) && state
                        == second.state(),
                    Ok(_) => result == Ok::<LoxType<'a, N>, Unwind<'a, N>>(LoxType::Nil) && state
                        == second.state(),
                },
            },
            _ => false,
        }
    }
}

/// The values of the first `n` expressions on a trace of `valid_exprs`.
pub open spec fn argument_values<'a, N>(t: RunTrace<'a, N>, n: nat) -> Seq<LoxType<'a, N>>
    decreases n,
{
    if n == 0 {
        Seq::empty()
    } else {
        match t {
            RunTrace::Node { first, second, .. } => argument_values(*first, (n - 1) as nat).push(
                match second.result() {
                    Ok(v) => v,
                    Err(_) => LoxType::Nil,
                },
            ),
            _ => Seq::empty(),
        }
    }
}

/// `frames` with the first `n` of `params` bound, in order, to the values in
/// `args` in frame `f`.
pub open spec fn bind_params<'a, N: Number>(
    frames: Seq<FrameView<'a, N>>,
    f: int,
    params: Seq<Token>,
    args: Seq<LoxType<'a, N>>,
    n: nat,
) -> Seq<FrameView<'a, N>>
    decreases n,
{
    if n == 0 {
        frames
    } else {
        environment::spec_define(
            bind_params(frames, f, params, args, (n - 1) as nat),
            f,
            params[n - 1].lexeme@,
            args[n - 1].view(),
        )
    }
}

/// The environment a call of `function` runs its body in: a new frame, added
/// last, nested in its closure.
pub open spec fn call_environment<'a, N>(function: function::Function<'a>, before: RunState<'a, N>) -> Environment {
    Environment { frame: before.frames.len() as usize, global: function.closure.global }
}

/// `before` with the frame of a call of `function` added, its parameters bound
/// to `args`.
pub open spec fn call_state<'a, N: Number>(
    function: function::Function<'a>,
    args: Seq<LoxType<'a, N>>,
    before: RunState<'a, N>,
) -> RunState<'a, N> {
    let params = function.declaration.params@;
    RunState {
        frames: bind_params(
            before.frames.push(FrameView { enclosing: Some(function.closure.frame), values: Seq::empty() }),
            before.frames.len() as int,
            params,
            args,
            if params.len() <= args.len() { params.len() } else { args.len() },
        ),
        ..before
    }
}

/// What a call of `function` from state `before` gives back, its body having
/// left `frames`: the `this` bound around an initialiser, else `default`.
pub open spec fn returned<'a, N>(
    function: function::Function<'a>,
    before: RunState<'a, N>,
    frames: Seq<FrameView<'a, N>>,
    default: ValueView<'a, N>,
) -> ValueView<'a, N> {
    if function.is_initialiser {
        match call_environment(function, before).target(frames, Some(1)) {
            Some(f) => match environment::binding_value(frames[f].values, "this"@) {
                Some(v) => v,
                None => default,
            },
            None => default,
        }
    } else {
        default
    }
}

/// How a call of `function` from state `before` ends, its body having run as
/// `body`: an error stops it and adds its message, `return` gives its value,
/// and falling off the end gives `nil` (an initialiser gives its `this`).
pub open spec fn call_ended<'a, N: Number>(
    function: function::Function<'a>,
    before: RunState<'a, N>,
    body: RunTrace<'a, N>,
    result: Result<LoxType<'a, N>, Unwind<'a, N>>,
    after: RunState<'a, N>,
) -> bool {
    match body.result() {
        Err(Unwind::WithError(m)) => result == Err::<LoxType<'a, N>, Unwind<'a, N>>(
            Unwind::WithError(m),
        ) && after == RunState {
            reports: body.state().reports.push(crate::reporter::message(m@)),
            ..body.state()
        },
        Err(Unwind::WithResult(v)) => after == body.state() && (result matches Ok(x) && x.view()
            == returned(function, before, body.state().frames, v.view())),
        Ok(_) => after == body.state() && (result matches Ok(x) && x.view() == returned(
            function,
            before,
            body.state().frames,
            ValueView::Nil,
        )),
    }
}

/// Whether `t` is how calling `class` with `args` goes from state `before`:
/// a new instance of it, with no fields, is made; where the class or a
/// superclass has an `init` method, it runs on the instance with `args` (its
/// error stops the call); the instance is the result.
pub open spec fn valid_class_call<'a, N: Number>(
    depths: Map<usize, usize>,
    class: Class<'a>,
    args: Seq<LoxType<'a, N>>,
    before: RunState<'a, N>,
    t: RunTrace<'a, N>,
    fuel: nat,
) -> bool
    decreases fuel, 0nat, 0int,
{
    let instance = instance::Instance { id: before.instances.len() as usize, class };
    let made = RunState { instances: before.instances.push(Seq::empty()), ..before };
    match class::spec_find_method(before.classes, class.id as int, "init"@, before.classes.len()) {
        Some(ValueView::Function(f)) => {
            let init = function::Function {
                declaration: f.declaration,
                closure: Environment { frame: before.frames.len() as usize, global: f.closure.global },
                is_initialiser: f.is_initialiser,
            };
            let bound = RunState {
                frames: before.frames.push(
                    FrameView {
                        enclosing: Some(f.closure.frame),
                        values: seq![("this"@, ValueView::Instance(instance))],
                    },
                ),
                ..made
            };
            fuel > 0 && match t {
                RunTrace::Node { result, state, first, second } => valid_stmts(
                    depths,
                    call_environment(init, bound),
                    init.declaration.body@,
                    call_state(init, args, bound),
                    *first,
                    (fuel - 1) as nat,
                ) && call_ended(init, bound, *first, second.result(), state) && match second.result() {
                    Err(Unwind::WithError(m)) => result == Err::<LoxType<'a, N>, Unwind<'a, N>>(
                        Unwind::WithError(m),
                    ),
                    _ => result matches Ok(LoxType::Instance { instance: i }) && i == instance,
                },
                _ => false,
            }
        },
        _ => t.result() matches Ok(LoxType::Instance { instance: i }) && i == instance && t.state()
            == made,
    }
}

/// Whether `t` is how calling `callee` with `args` goes from state `before`,
/// errors reported at `at`.  A value that is not callable, or a number of
/// arguments that is not the callee's, is an error; `clock` gives a number; a
/// function runs its body, `fuel` calls deep at most ("Stack overflow"
/// beyond); a class makes an instance as `valid_class_call` says.
pub open spec fn valid_call<'a, N: Number>(
    depths: Map<usize, usize>,
    callee: LoxType<'a, N>,
    at: Expr,
    args: Seq<LoxType<'a, N>>,
    before: RunState<'a, N>,
    t: RunTrace<'a, N>,
    fuel: nat,
) -> bool
    decreases fuel, expr_height(at), 0int,
{
    match callee_arity(before.classes, callee) {
        None => same_heap(before, t.state()) && failed_at(
            t.result(),
            before.reports,
            t.state().reports,
            at,
            "Can only call functions and classes"@,
        ),
        Some(n) => if n != args.len() {
            same_heap(before, t.state()) && failed_at(
                t.result(),
                before.reports,
                t.state().reports,
                at,
                arity_message(n, args.len()),
            )
        } else {
            match callee {
                LoxType::NativeFunction { .. } => t.result() matches Ok(LoxType::Number(x))
                    && call_ensures(N::now, (), x) && t.state() == before,
                LoxType::Function { function } => if fuel == 0 {
                    same_heap(before, t.state()) && failed_at(
                        t.result(),
                        before.reports,
                        t.state().reports,
                        at,
                        "Stack overflow"@,
                    )
                } else {
                    match t {
                        RunTrace::Node { result, state, first, .. } => valid_stmts(
                            depths,
                            call_environment(function, before),
                            function.declaration.body@,
                            call_state(function, args, before),
                            *first,
                            (fuel - 1) as nat,
                        ) && call_ended(function, before, *first, result, state),
                        _ => false,
                    }
                },
                LoxType::Class { class } => if fuel == 0 {
                    same_heap(before, t.state()) && failed_at(
                        t.result(),
                        before.reports,
                        t.state().reports,
                        at,
                        "Stack overflow"@,
                    )
                } else {
                    valid_class_call(depths, class, args, before, t, fuel)
                },
                _ => false,
            }
        },
    }
}

/// What calling `callee` with `args` may give, and the state after it: those
/// of some call as `valid_call` describes it.
pub open spec fn call_outcome<'a, N: Number>(
    depths: Map<usize, usize>,
    callee: LoxType<'a, N>,
    at: Expr,
    args: Seq<LoxType<'a, N>>,
    before: RunState<'a, N>,
    r: Result<LoxType<'a, N>, Unwind<'a, N>>,
    after: RunState<'a, N>,
    fuel: nat,
) -> bool {
    exists|t: RunTrace<'a, N>|
        #[trigger] valid_call(depths, callee, at, args, before, t, fuel) && t.result() == r
            && t.state() == after
}

/// Where evaluating the first `k` of `es` stopped on `t`, it is also how
/// evaluating all of `es` goes.
proof fn lemma_exprs_stop<'a, N: Number>(
    depths: Map<usize, usize>,
    environment: Environment,
    es: Seq<Expr>,
    k: int,
    before: RunState<'a, N>,
    t: RunTrace<'a, N>,
    fuel: nat,
) -> (t2: RunTrace<'a, N>)
    requires
        0 < k <= es.len(),
        valid_exprs(depths, environment, es.take(k), before, t, fuel),
        t.result() is Err,
    ensures
        valid_exprs(depths, environment, es, before, t2, fuel),
        t2.result() == t.result(),
        t2.state() == t.state(),
    decreases es.len() - k,
{
    if k == es.len() {
        assert(es.take(k) =~= es);
        t
    } else {
        let t1 = RunTrace::Node {
            result: t.result(),
            state: t.state(),
            first: Box::new(t),
            second: Box::new(t),
        };
        assert(es.take(k + 1).drop_last() =~= es.take(k));
        assert(valid_exprs(depths, environment, es.take(k + 1), before, t1, fuel));
        lemma_exprs_stop(depths, environment, es, k + 1, before, t1, fuel)
    }
}

/// In a binary expression the left operand is evaluated first, from the state
/// before, and the right one from where the left one left off; where both give
/// numbers, an order-sensitive operator applies the number type's method to
/// the left value first: `a >= b` is `a.greater_equal(b)`, `a - b` is
/// `a.minus(b)`, and so on.
pub proof fn law_binary_operands_in_order<'a, N: Number>(
    depths: Map<usize, usize>,
    environment: Environment,
    e: Expr,
    before: RunState<'a, N>,
    t: RunTrace<'a, N>,
    fuel: nat,
)
    requires
        e is Binary,
        valid_expr(depths, environment, e, before, t, fuel),
    ensures
        t matches RunTrace::Node { first, second, .. } && valid_expr(
            depths,
            environment,
            *e->Binary_left,
            before,
            *first,
            fuel,
        ) && (first.result() matches Ok(LoxType::Number(l)) ==> valid_expr(
            depths,
            environment,
            *e->Binary_right,
            first.state(),
            *second,
            fuel,
        ) && (second.result() matches Ok(LoxType::Number(r)) ==> {
            let op = e->Binary_operator.token_type;
            &&& op == TokenType::GreaterEqual ==> (t.result() matches Ok(LoxType::Boolean(b))
                && call_ensures(N::greater_equal, (l, r), b))
            &&& op == TokenType::Greater ==> (t.result() matches Ok(LoxType::Boolean(b))
                && call_ensures(N::greater, (l, r), b))
            &&& op == TokenType::LessEqual ==> (t.result() matches Ok(LoxType::Boolean(b))
                && call_ensures(N::less_equal, (l, r), b))
            &&& op == TokenType::Less ==> (t.result() matches Ok(LoxType::Boolean(b)) && call_ensures(
                N::less,
                (l, r),
                b,
            ))
            &&& op == TokenType::Minus ==> (t.result() matches Ok(LoxType::Number(x)) && call_ensures(
                N::minus,
                (l, r),
                x,
            ))
            &&& op == TokenType::Slash ==> (t.result() matches Ok(LoxType::Number(x))
                && call_ensures(N::divided_by, (l, r), x))
        })),
{
}

/// What evaluating `e` in `environment` from state `before` may give, and the
/// state after it: those of some evaluation as `valid_expr` describes it.
pub open spec fn expr_outcome<'a, N: Number>(
    depths: Map<usize, usize>,
    environment: Environment,
    e: Expr,
    before: RunState<'a, N>,
    r: Result<LoxType<'a, N>, Unwind<'a, N>>,
    after: RunState<'a, N>,
    fuel: nat,
) -> bool {
    exists|t: RunTrace<'a, N>|
        #[trigger] valid_expr(depths, environment, e, before, t, fuel) && t.result() == r && t.state()
            == after
}

/// A statement's outcome as a trace records it: completing gives `nil`.
pub open spec fn stmt_result<'a, N>(r: Result<(), Unwind<'a, N>>) -> Result<LoxType<'a, N>, Unwind<'a, N>> {
    match r {
        Ok(_) => Ok(LoxType::Nil),
        Err(u) => Err(u),
    }
}

/// `before` with `name` bound to `v` in the frame of `environment`.
pub open spec fn defined<'a, N: Number>(
    before: RunState<'a, N>,
    environment: Environment,
    name: Seq<char>,
    v: ValueView<'a, N>,
) -> RunState<'a, N> {
    RunState {
        frames: environment::spec_define(before.frames, environment.frame as int, name, v),
        ..before
    }
}

/// The environment of a block entered from `environment` in state `before`:
/// a new frame, added last.
pub open spec fn block_environment<'a, N>(environment: Environment, before: RunState<'a, N>) -> Environment {
    Environment { frame: before.frames.len() as usize, global: environment.global }
}

/// `before` with the new frame of a block entered from `environment`.
pub open spec fn block_state<'a, N>(environment: Environment, before: RunState<'a, N>) -> RunState<'a, N> {
    RunState {
        frames: before.frames.push(FrameView { enclosing: Some(environment.frame), values: Seq::empty() }),
        ..before
    }
}

/// Where a list of statements stopped on `t` (the first `k` statements of
/// `ss`), it is also how running all of `ss` goes.
proof fn lemma_stmts_stop<'a, N: Number>(
    depths: Map<usize, usize>,
    environment: Environment,
    ss: Seq<Stmt>,
    k: int,
    before: RunState<'a, N>,
    t: RunTrace<'a, N>,
    fuel: nat,
) -> (t2: RunTrace<'a, N>)
    requires
        0 < k <= ss.len(),
        valid_stmts(depths, environment, ss.take(k), before, t, fuel),
        t.result() is Err,
    ensures
        valid_stmts(depths, environment, ss, before, t2, fuel),
        t2.result() == t.result(),
        t2.state() == t.state(),
    decreases ss.len() - k,
{
    if k == ss.len() {
        assert(ss.take(k) =~= ss);
        t
    } else {
        let t1 = RunTrace::Node {
            result: t.result(),
            state: t.state(),
            first: Box::new(t),
            second: Box::new(t),
        };
        assert(ss.take(k + 1).drop_last() =~= ss.take(k));
        reveal(valid_stmt);
        reveal(valid_stmts);
        assert(valid_stmts(depths, environment, ss.take(k + 1), before, t1, fuel));
        lemma_stmts_stop(depths, environment, ss, k + 1, before, t1, fuel)
    }
}

/// Whether `t` is how a `while` loop with `condition` and `body` goes from
/// state `before`, `n` iterations having run: the condition is evaluated; a
/// false one ends the loop, a true one runs the body and the loop again.  An
/// error stops it, and after `u64::MAX` iterations a true condition is an
/// error ("Loop ran too many times").
pub open spec fn valid_loop<'a, N: Number>(
    depths: Map<usize, usize>,
    environment: Environment,
    condition: Expr,
    body: Stmt,
    before: RunState<'a, N>,
    t: RunTrace<'a, N>,
    fuel: nat,
    n: nat,
) -> bool
    decreases fuel, max2(expr_height(condition), stmt_height(body)), if n <= u64::MAX {
        u64::MAX - n + 1
    } else {
        1
    },
{
    match t {
        RunTrace::Node { result, state, first, second } => valid_expr(
            depths,
            environment,
            condition,
            before,
            *first,
            fuel,
        ) && match first.result() {
            Err(u) => result == Err::<LoxType<'a, N>, Unwind<'a, N>>(u) && state == first.state(),
            Ok(v) => if !spec_is_truthy(v.view()) {
                result == Ok::<LoxType<'a, N>, Unwind<'a, N>>(LoxType::Nil) && state == first.state()
            } else if n >= u64::MAX {
                same_heap(first.state(), state) && failed_at(
                    result,
                    first.state().reports,
                    state.reports,
                    condition,
                    "Loop ran too many times"@,
                )
            } else {
                match *second {
                    RunTrace::Node { first: body_trace, second: rest, .. } => valid_stmt(
                        depths,
                        environment,
                        body,
                        first.state(),
                        *body_trace,
                        fuel,
                    ) && match body_trace.result() {
                        Err(u) => result == Err::<LoxType<'a, N>, Unwind<'a, N>>(u) && state
                            == body_trace.state(),
                        Ok(_) => valid_loop(
                            depths,
                            environment,
                            condition,
                            body,
                            body_trace.state(),
                            *rest,
                            fuel,
                            n + 1,
                        ) && result == rest.result() && state == rest.state(),
                    },
                    _ => false,
                }
            },
        },
        _ => false,
    }
}

/// The state a loop is in after the iterations `iterations` (each the trace
/// of the condition and that of the body) ran from `before`.
pub open spec fn loop_state<'a, N>(
    iterations: Seq<(RunTrace<'a, N>, RunTrace<'a, N>)>,
    before: RunState<'a, N>,
) -> RunState<'a, N> {
    if iterations.len() == 0 {
        before
    } else {
        iterations.last().1.state()
    }
}

/// Whether each of `iterations` is a run of the condition to a true value and
/// then of the body to completion, each from where the one before ended.
pub open spec fn loop_iterations<'a, N: Number>(
    depths: Map<usize, usize>,
    environment: Environment,
    condition: Expr,
    body: Stmt,
    before: RunState<'a, N>,
    iterations: Seq<(RunTrace<'a, N>, RunTrace<'a, N>)>,
    fuel: nat,
) -> bool {
    forall|j: int|
        0 <= j < iterations.len() ==> {
            let c = #[trigger] iterations[j].0;
            let b = iterations[j].1;
            &&& valid_expr(depths, environment, condition, loop_state(iterations.take(j), before), c, fuel)
            &&& c.result() matches Ok(v) && spec_is_truthy(v.view())
            &&& valid_stmt(depths, environment, body, c.state(), b, fuel)
            &&& b.result() is Ok
        }
}

/// The trace of a loop whose first iterations ran as `iterations` and which
/// went on as `rest`.
pub open spec fn nest_loop<'a, N>(
    iterations: Seq<(RunTrace<'a, N>, RunTrace<'a, N>)>,
    rest: RunTrace<'a, N>,
) -> RunTrace<'a, N>
    decreases iterations.len(),
{
    if iterations.len() == 0 {
        rest
    } else {
        let c = iterations.last().0;
        let b = iterations.last().1;
        nest_loop(
            iterations.drop_last(),
            RunTrace::Node {
                result: rest.result(),
                state: rest.state(),
                first: Box::new(c),
                second: Box::new(
                    RunTrace::Node {
                        result: rest.result(),
                        state: rest.state(),
                        first: Box::new(b),
                        second: Box::new(rest),
                    },
                ),
            },
        )
    }
}

/// A loop that went on as `rest` after `iterations` went, from its start, as
/// the nesting of the two.
proof fn lemma_nest_loop<'a, N: Number>(
    depths: Map<usize, usize>,
    environment: Environment,
    condition: Expr,
    body: Stmt,
    before: RunState<'a, N>,
    iterations: Seq<(RunTrace<'a, N>, RunTrace<'a, N>)>,
    rest: RunTrace<'a, N>,
    fuel: nat,
)
    requires
        iterations.len() <= u64::MAX,
        loop_iterations(depths, environment, condition, body, before, iterations, fuel),
        valid_loop(
            depths,
            environment,
            condition,
            body,
            loop_state(iterations, before),
            rest,
            fuel,
            iterations.len(),
        ),
    ensures
        valid_loop(depths, environment, condition, body, before, nest_loop(iterations, rest), fuel, 0),
        nest_loop(iterations, rest).result() == rest.result(),
        nest_loop(iterations, rest).state() == rest.state(),
    decreases iterations.len(),
{
    if iterations.len() > 0 {
        let k = iterations.len() - 1;
        let c = iterations.last().0;
        let b = iterations.last().1;
        let wrapped = RunTrace::Node {
            result: rest.result(),
            state: rest.state(),
            first: Box::new(c),
            second: Box::new(
                RunTrace::Node {
                    result: rest.result(),
                    state: rest.state(),
                    first: Box::new(b),
                    second: Box::new(rest),
                },
            ),
        };
        let shorter = iterations.drop_last();
        reveal(valid_stmt);
        reveal(valid_stmts);
        assert(c == iterations[k].0 && b == iterations[k].1);
        assert(iterations.take(k) =~= shorter);
        assert(loop_state(shorter, before) == loop_state(iterations.take(k), before));
        assert(valid_expr(depths, environment, condition, loop_state(iterations.take(k), before), c, fuel));
        assert(loop_state(iterations, before) == b.state());
        assert(valid_loop(depths, environment, condition, body, loop_state(shorter, before), wrapped, fuel, k as nat));
        assert forall|j: int| 0 <= j < shorter.len() implies {
            let c = #[trigger] shorter[j].0;
            let b = shorter[j].1;
            &&& valid_expr(depths, environment, condition, loop_state(shorter.take(j), before), c, fuel)
            &&& c.result() matches Ok(v) && spec_is_truthy(v.view())
            &&& valid_stmt(depths, environment, body, c.state(), b, fuel)
            &&& b.result() is Ok
        } by {
            assert(shorter.take(j) =~= iterations.take(j));
            assert(shorter[j] == iterations[j]);
        }
        lemma_nest_loop(depths, environment, condition, body, before, shorter, wrapped, fuel);
    }
}

/// The method table of a class whose body declares `methods`, each closing
/// over `environment`: each method bound in turn by its name, `init` marked as
/// the initialiser.
pub open spec fn method_table<'a, N: Number>(
    methods: Seq<Stmt>,
    environment: Environment,
) -> Seq<(Seq<char>, ValueView<'a, N>)>
    decreases methods.len(),
{
    if methods.len() == 0 {
        Seq::empty()
    } else {
        let rest = method_table(methods.drop_last(), environment);
        match methods.last() {
            Stmt::Function { function } => environment::spec_bind(
                rest,
                function.name.lexeme@,
                ValueView::Function(
                    function::Function {
                        declaration: &function,
                        closure: environment,
                        is_initialiser: function.name.lexeme@ == "init"@,
                    },
                ),
            ),
            _ => rest,
        }
    }
}

/// The frames after a class named `name` is declared in `environment`, from
/// `frames`: its name bound to `nil`, then (with a superclass) a new frame,
/// nested in it, that binds `super`.
pub open spec fn class_frames<'a, N>(
    environment: Environment,
    name: Seq<char>,
    superclass: Option<Class<'a>>,
    frames: Seq<FrameView<'a, N>>,
) -> Seq<FrameView<'a, N>> {
    let named = environment::spec_define(frames, environment.frame as int, name, ValueView::Nil);
    match superclass {
        Some(c) => environment::spec_define(
            named.push(FrameView { enclosing: Some(environment.frame), values: Seq::empty() }),
            named.len() as int,
            "super"@,
            ValueView::Class(c),
        ),
        None => named,
    }
}

/// The environment the methods of a class declared in `environment` close
/// over, the frames having been `frames`.
pub open spec fn method_environment<'a, N>(
    environment: Environment,
    superclass: Option<Class<'a>>,
    frames: Seq<FrameView<'a, N>>,
) -> Environment {
    match superclass {
        Some(_) => Environment { frame: frames.len() as usize, global: environment.global },
        None => environment,
    }
}

/// Declaring class `name` with `superclass` and `methods` in `environment`,
/// from `before`: the class is added to the heap's classes with its methods,
/// and the name is assigned it.
pub open spec fn class_declared<'a, N: Number>(
    environment: Environment,
    name: Token,
    superclass: Option<Class<'a>>,
    methods: Seq<Stmt>,
    before: RunState<'a, N>,
    result: Result<LoxType<'a, N>, Unwind<'a, N>>,
    after: RunState<'a, N>,
) -> bool {
    let frames = class_frames(environment, name.lexeme@, superclass, before.frames);
    &&& result == Ok::<LoxType<'a, N>, Unwind<'a, N>>(LoxType::Nil)
    &&& after.reports == before.reports
    &&& after.instances == before.instances
    &&& exists|c: Class<'a>|
        #![trigger c.name]
        {
            &&& c.id == before.classes.len()
            &&& *c.name == name
            &&& after.classes == before.classes.push(
                class::ClassView {
                    superclass,
                    methods: method_table(methods, method_environment(environment, superclass, before.frames)),
                },
            )
            &&& after.frames == match environment.target(frames, Some(0)) {
                Some(f) if environment::has_binding(frames[f].values, name.lexeme@) => environment::spec_define(
                    frames,
                    f,
                    name.lexeme@,
                    ValueView::Class(c),
                ),
                _ => frames,
            }
        }
}

/// Whether `t` is how running `ss` in `environment`, from state `before`, goes:
/// each statement in turn, until one does not complete.
#[verifier::opaque]
pub open spec fn valid_stmts<'a, N: Number>(
    depths: Map<usize, usize>,
    environment: Environment,
    ss: Seq<Stmt>,
    before: RunState<'a, N>,
    t: RunTrace<'a, N>,
    fuel: nat,
) -> bool
    decreases fuel, stmts_height(ss), ss.len() + 1,
{
    if ss.len() == 0 {
        t.result() == Ok::<LoxType<'a, N>, Unwind<'a, N>>(LoxType::Nil) && t.state() == before
    } else {
        match t {
            RunTrace::Node { result, state, first, second } => valid_stmts(
                depths,
                environment,
                ss.drop_last(),
                before,
                *first, fuel,
            ) && match first.result() {
                Err(u) => result == Err::<LoxType<'a, N>, Unwind<'a, N>>(u) && state
                    == first.state(),
                Ok(_) => valid_stmt(depths, environment, ss[ss.len() - 1], first.state(), *second, fuel)
                    && result == second.result() && state == second.state(),
            },
            _ => false,
        }
    }
}

/// Whether `t` is how running `s` in `environment`, from state `before`, goes.
/// `print` reports `[print] ` and how its value is shown, `var` and `fun`
/// bind a name in the environment's frame, a block runs in a new frame nested
/// in it, `if` runs the branch its condition picks, `while` runs as
/// `valid_loop` says, a class is declared as `class_declared` says, `return`
/// unwinds with its value, and an error stops the run.
#[verifier::opaque]
pub open spec fn valid_stmt<'a, N: Number>(
    depths: Map<usize, usize>,
    environment: Environment,
    s: Stmt,
    before: RunState<'a, N>,
    t: RunTrace<'a, N>,
    fuel: nat,
) -> bool
    decreases fuel, stmt_height(s), 0int,
{
    match s {
        Stmt::Block { statements } => valid_stmts(
            depths,
            block_environment(environment, before),
            statements@,
            block_state(environment, before),
            t, fuel,
        ),
        Stmt::Expression { expression } => match t {
            RunTrace::Node { result, state, first, .. } => valid_expr(
                depths,
                environment,
                expression,
                before,
                *first, fuel,
            ) && state == first.state() && match first.result() {
                Ok(_) => result == Ok::<LoxType<'a, N>, Unwind<'a, N>>(LoxType::Nil),
                Err(u) => result == Err::<LoxType<'a, N>, Unwind<'a, N>>(u),
            },
            _ => false,
        },
        Stmt::Print { value } => match t {
            RunTrace::Node { result, state, first, .. } => valid_expr(
                depths,
                environment,
                value,
                before,
                *first, fuel,
            ) && match first.result() {
                Ok(v) => {
                    &&& result == Ok::<LoxType<'a, N>, Unwind<'a, N>>(LoxType::Nil)
                    &&& same_heap(first.state(), state)
                    &&& exists|shown: Seq<char>|
                        state.reports == first.state().reports.push(
                            crate::reporter::message("[print] "@ + shown),
                        ) && (!(v is Number) ==> shown == lox_type::spec_display(v.view())) && (
                        v matches LoxType::Number(n) ==> exists|s: String|
                            #[trigger] call_ensures(N::to_text, (n,), s) && shown == s@)
                },
                Err(u) => result == Err::<LoxType<'a, N>, Unwind<'a, N>>(u) && state
                    == first.state(),
            },
            _ => false,
        },
        Stmt::Var { name, initialiser } => match initialiser {
            Some(e) => match t {
                RunTrace::Node { result, state, first, .. } => valid_expr(
                    depths,
                    environment,
                    e,
                    before,
                    *first, fuel,
                ) && match first.result() {
                    Ok(v) => result == Ok::<LoxType<'a, N>, Unwind<'a, N>>(LoxType::Nil) && state
                        == defined(first.state(), environment, name.lexeme@, v.view()),
                    Err(u) => result == Err::<LoxType<'a, N>, Unwind<'a, N>>(u) && state
                        == first.state(),
                },
                _ => false,
            },
            None => t.result() == Ok::<LoxType<'a, N>, Unwind<'a, N>>(LoxType::Nil) && t.state()
                == defined(before, environment, name.lexeme@, ValueView::Nil),
        },
        Stmt::Function { function } => {
            &&& t.result() == Ok::<LoxType<'a, N>, Unwind<'a, N>>(LoxType::Nil)
            &&& exists|f: function::Function<'a>|
                *f.declaration == function && f.closure == environment && !f.is_initialiser
                    && t.state() == defined(
                    before,
                    environment,
                    function.name.lexeme@,
                    ValueView::Function(f),
                )
        },
        Stmt::If { condition, then_branch, else_branch } => match t {
            RunTrace::Node { result, state, first, second } => valid_expr(
                depths,
                environment,
                condition,
                before,
                *first, fuel,
            ) && match first.result() {
                Err(u) => result == Err::<LoxType<'a, N>, Unwind<'a, N>>(u) && state
                    == first.state(),
                Ok(v) => if spec_is_truthy(v.view()) {
                    valid_stmt(depths, environment, *then_branch, first.state(), *second, fuel) && result
                        == second.result() && state == second.state()
                } else {
                    match *else_branch {
                        Some(b) => valid_stmt(depths, environment, b, first.state(), *second, fuel)
                            && result == second.result() && state == second.state(),
                        None => result == Ok::<LoxType<'a, N>, Unwind<'a, N>>(LoxType::Nil)
                            && state == first.state(),
                    }
                },
            },
            _ => false,
        },
        Stmt::Class { name, superclass, methods } => match superclass {
            Some(e) => match t {
                RunTrace::Node { result, state, first, .. } => valid_expr(
                    depths,
                    environment,
                    e,
                    before,
                    *first,
                    fuel,
                ) && match first.result() {
                    Err(u) => result == Err::<LoxType<'a, N>, Unwind<'a, N>>(u) && state
                        == first.state(),
                    Ok(LoxType::Class { class }) => class_declared(
                        environment,
                        name,
                        Some(class),
                        methods@,
                        first.state(),
                        result,
                        state,
                    ),
                    Ok(_) => same_heap(first.state(), state) && failed_at(
                        result,
                        first.state().reports,
                        state.reports,
                        e,
                        "Superclass must be a class"@,
                    ),
                },
                _ => false,
            },
            None => class_declared(environment, name, None, methods@, before, t.result(), t.state()),
        },
        Stmt::While { condition, body } => valid_loop(
            depths,
            environment,
            condition,
            *body,
            before,
            t,
            fuel,
            0,
        ),
        Stmt::Return { value, .. } => match value {
            Some(e) => match t {
                RunTrace::Node { result, state, first, .. } => valid_expr(
                    depths,
                    environment,
                    e,
                    before,
                    *first, fuel,
                ) && state == first.state() && match first.result() {
                    Ok(v) => result == Err::<LoxType<'a, N>, Unwind<'a, N>>(Unwind::WithResult(v)),
                    Err(u) => result == Err::<LoxType<'a, N>, Unwind<'a, N>>(u),
                },
                _ => false,
            },
            None => t.result() == Err::<LoxType<'a, N>, Unwind<'a, N>>(
                Unwind::WithResult(LoxType::Nil),
            ) && t.state() == before,
        },
    }
}

/// What running `s` may give, and the state after it: those of some run as
/// `valid_stmt` describes it.
pub open spec fn stmt_outcome<'a, N: Number>(
    depths: Map<usize, usize>,
    environment: Environment,
    s: Stmt,
    before: RunState<'a, N>,
    r: Result<LoxType<'a, N>, Unwind<'a, N>>,
    after: RunState<'a, N>,
    fuel: nat,
) -> bool {
    exists|t: RunTrace<'a, N>|
        #[trigger] valid_stmt(depths, environment, s, before, t, fuel) && t.result() == r && t.state()
            == after
}

/// What running `ss` may give, and the state after it; a run-time error also
/// ends the reports with its message.
pub open spec fn stmts_outcome<'a, N: Number>(
    depths: Map<usize, usize>,
    environment: Environment,
    ss: Seq<Stmt>,
    before: RunState<'a, N>,
    r: Result<LoxType<'a, N>, Unwind<'a, N>>,
    after: RunState<'a, N>,
    fuel: nat,
) -> bool {
    exists|t: RunTrace<'a, N>|
        #[trigger] valid_stmts(depths, environment, ss, before, t, fuel) && t.result() == r && match r {
            Err(Unwind::WithError(m)) => after == RunState {
                reports: t.state().reports.push(crate::reporter::message(m@)),
                ..t.state()
            },
            _ => after == t.state(),
        }
}

/// The state a program starts from: a global frame that binds `clock`, no
/// classes or instances, and the reports so far.
pub open spec fn start_state<'a: 'a, N>(reports: Seq<ReportView>) -> RunState<'a, N> {
    RunState {
        frames: environment::spec_define(
            seq![FrameView { enclosing: None, values: Seq::empty() }],
            0,
            "clock"@,
            ValueView::NativeFunction("clock"@),
        ),
        classes: Seq::empty(),
        instances: Seq::empty(),
        reports,
    }
}

/// Whether running `statements`, resolved as `depths`, may turn the reports
/// `before` into `after`.
pub open spec fn program_run<'a: 'a, N: Number>(
    depths: Map<usize, usize>,
    statements: Seq<Stmt>,
    before: Seq<ReportView>,
    after: Seq<ReportView>,
) -> bool {
    exists|r: Result<LoxType<'a, N>, Unwind<'a, N>>, end: RunState<'a, N>|
        #[trigger] stmts_outcome(
            depths,
            Environment { frame: 0, global: 0 },
            statements,
            start_state(before),
            r,
            end,
            MAX_CALL_DEPTH as nat,
        ) && end.reports == after
}

/// An `if` whose condition fails stops with that failure.
proof fn lemma_if_stops<'a, N: Number>(
    depths: Map<usize, usize>,
    environment: Environment,
    condition: Expr,
    then_branch: Box<Stmt>,
    else_branch: Box<Option<Stmt>>,
    before: RunState<'a, N>,
    t1: RunTrace<'a, N>,
    fuel: nat,
)
    requires
        valid_expr(depths, environment, condition, before, t1, fuel),
        t1.result() is Err,
    ensures
        stmt_outcome(
            depths,
            environment,
            Stmt::If { condition, then_branch, else_branch },
            before,
            t1.result(),
            t1.state(), fuel,
        ),
{
    let t = RunTrace::Node {
        result: t1.result(),
        state: t1.state(),
        first: Box::new(t1),
        second: Box::new(t1),
    };
    reveal(valid_stmt);
    reveal(valid_stmts);
    assert(valid_stmt(depths, environment, Stmt::If { condition, then_branch, else_branch }, before, t, fuel));
}

/// An `if` whose condition gives a value runs the branch it picks.
proof fn lemma_if_runs<'a, N: Number>(
    depths: Map<usize, usize>,
    environment: Environment,
    condition: Expr,
    then_branch: Box<Stmt>,
    else_branch: Box<Option<Stmt>>,
    before: RunState<'a, N>,
    t1: RunTrace<'a, N>,
    t2: RunTrace<'a, N>,
    fuel: nat,
)
    requires
        valid_expr(depths, environment, condition, before, t1, fuel),
        t1.result() is Ok,
        spec_is_truthy(t1.result()->Ok_0.view()) ==> valid_stmt(
            depths,
            environment,
            *then_branch,
            t1.state(),
            t2, fuel,
        ),
        !spec_is_truthy(t1.result()->Ok_0.view()) && (*else_branch) is Some ==> valid_stmt(
            depths,
            environment,
            (*else_branch)->Some_0,
            t1.state(),
            t2, fuel,
        ),
        !spec_is_truthy(t1.result()->Ok_0.view()) && (*else_branch) is None ==> t2.result()
            == Ok::<LoxType<'a, N>, Unwind<'a, N>>(LoxType::Nil) && t2.state() == t1.state(),
    ensures
        stmt_outcome(
            depths,
            environment,
            Stmt::If { condition, then_branch, else_branch },
            before,
            t2.result(),
            t2.state(), fuel,
        ),
{
    let t = RunTrace::Node {
        result: t2.result(),
        state: t2.state(),
        first: Box::new(t1),
        second: Box::new(t2),
    };
    reveal(valid_stmt);
    reveal(valid_stmts);
    assert(valid_stmt(depths, environment, Stmt::If { condition, then_branch, else_branch }, before, t, fuel));
}

/// The message for a call with `count` arguments of a callee that takes `arity`.
pub open spec fn arity_message(arity: nat, count: nat) -> Seq<char> {
    "Expected "@ + lox_type::decimal(arity) + " arguments but got "@ + lox_type::decimal(count)
}

/// How many arguments `callee` takes, where it can be called: a function its
/// parameters, `clock` none, a class those of its initialiser (or none).
pub open spec fn callee_arity<'a, N>(classes: Seq<class::ClassView<'a, N>>, callee: LoxType<'a, N>) -> Option<
    nat,
> {
    match callee {
        LoxType::Function { function } => Some(function.declaration.params@.len()),
        LoxType::NativeFunction { .. } => Some(0),
        LoxType::Class { class } => Some(class::spec_class_arity(classes, class)),
        _ => None,
    }
}

pub proof fn lemma_error_stays(
    a: Seq<ReportView>,
    b: Seq<ReportView>,
    c: Seq<ReportView>,
    m: Seq<char>,
)
    requires
        extends(a, b),
        extends(b, c),
        error_reported(a, b, m),
    ensures
        error_reported(a, c, m),
{
    let i = choose|i: int|
        a.len() <= i < b.len() && (#[trigger] b[i] matches ReportView::Diagnostic {
            message,
            ..
        } && message == m);
    assert(c[i] == b[i]);
}

pub proof fn lemma_error_later(
    a: Seq<ReportView>,
    b: Seq<ReportView>,
    c: Seq<ReportView>,
    m: Seq<char>,
)
    requires
        extends(a, b),
        extends(b, c),
        error_reported(b, c, m),
    ensures
        error_reported(a, c, m),
{
    let i = choose|i: int|
        b.len() <= i < c.len() && (#[trigger] c[i] matches ReportView::Diagnostic {
            message,
            ..
        } && message == m);
    assert(a.len() <= i);
}

/// Runs a resolved program: `depths` gives, for each resolved expression, how
/// many scopes out its variable lives.
pub struct Interpreter<'d> {
    pub depths: &'d HashMap<usize, usize>,
}

/// Runs `statements` in a new global environment that binds `clock`.
/// A run-time error stops the program; it is reported as a diagnostic and as a
/// message.
pub fn interpret<'a, N: Number, R: Reporter>(
    reporter: &mut R,
    depths: &HashMap<usize, usize>,
    statements: &'a Vec<Stmt>,
)
    ensures
        extends(old(reporter).reports(), final(reporter).reports()),
        program_run::<'a, N>(depths@, statements@, old(reporter).reports(), final(reporter).reports()),
{
    let mut heap: Heap<'a, N> = Heap::new();
    let environment = Environment::new(&mut heap);
    proof {
        assert(heap.frames_view() =~= seq![FrameView::<'a, N> { enclosing: None, values: Seq::empty() }]);
    }
    Interpreter::define_native_functions(&mut heap, &environment);
    let ghost st0 = run_state(heap, reporter.reports());
    proof {
        assert(st0 == start_state::<'a, N>(reporter.reports()));
        assert(environment == Environment { frame: 0, global: 0 });
    }
    let interpreter = Interpreter::new(depths);
    let r = interpreter.interpret_statements(
        &mut heap,
        reporter,
        environment,
        statements,
        MAX_CALL_DEPTH,
    );
    proof {
        let end = run_state(heap, reporter.reports());
        assert(stmts_outcome(depths@, Environment { frame: 0, global: 0 }, statements@, st0, stmt_result(r), end, MAX_CALL_DEPTH as nat));
    }
}

/// Reports `[print] ` and how `value` is shown (a number as its type shows it).
fn print_value<'a, N: Number, R: Reporter>(reporter: &mut R, value: &LoxType<'a, N>)
    ensures
        exists|shown: Seq<char>|
            final(reporter).reports() == old(reporter).reports().push(
                crate::reporter::message("[print] "@ + shown),
            ) && (!(value is Number) ==> shown == lox_type::spec_display(value.view())) && (
            *value matches LoxType::Number(n) ==> exists|s: String|
                #[trigger] call_ensures(N::to_text, (n,), s) && shown == s@),
{
    let mut text = String::from_str("[print] ");
    let shown = value.to_display_string();
    text.append(shown.as_str());
    reporter.add_message(text.as_str());
    assert(text@ == "[print] "@ + shown@);
}

impl<'d> Interpreter<'d> {
    pub fn new(depths: &'d HashMap<usize, usize>) -> (i: Self)
        ensures
            i.depths == depths,
    {
        Interpreter { depths }
    }

    /// Binds the native functions in `environment`.
    pub fn define_native_functions<'a, N: Number>(heap: &mut Heap<'a, N>, environment: &Environment)
        ensures
            final(heap).frames_view() == spec_define(
                old(heap).frames_view(),
                environment.frame as int,
                "clock"@,
                ValueView::NativeFunction("clock"@),
            ),
            final(heap).classes_view() == old(heap).classes_view(),
            final(heap).instances_view() == old(heap).instances_view(),
    {
        environment.define(heap, "clock", native_functions::clock());
    }

    /// How many scopes out the variable of expression `id` was resolved, if it was.
    fn depth_of(&self, id: usize) -> (r: Option<usize>)
        ensures
            r == (if self.depths@.contains_key(id) {
                Some(self.depths@[id])
            } else {
                None
            }),
    {
        assert(vstd::std_specs::hash::obeys_key_model::<usize>());
        match self.depths.get(&id) {
            Some(d) => Some(*d),
            None => None,
        }
    }

    /// Reports a diagnostic at `provider` and gives the run-time error that carries it.
    fn add_diagnostic<P: ProvideLocation, R: Reporter, 'a, N: Number>(
        &self,
        reporter: &mut R,
        provider: &P,
        message: String,
    ) -> (u: Unwind<'a, N>)
        ensures
            final(reporter).reports() == old(reporter).reports().push(
                ReportView::Diagnostic {
                    start: provider.spec_start_location(),
                    end: provider.spec_end_location(),
                    message: message@,
                },
            ),
            u matches Unwind::WithError(m) && m@ == message@,
            error_reported(old(reporter).reports(), final(reporter).reports(), message@),
            extends(old(reporter).reports(), final(reporter).reports()),
    {
        reporter.add_diagnostic(provider.start(), provider.end(), message.as_str());
        proof {
            let n = old(reporter).reports().len() as int;
            assert(reporter.reports()[n] matches ReportView::Diagnostic { message: m, .. } && m
                == message@);
        }
        Unwind::WithError(message)
    }

    /// The number in `value`; an error, reported at `expression`, for any other value.
    pub fn check_number_operand<'a, N: Number, R: Reporter>(
        &self,
        reporter: &mut R,
        expression: &Expr,
        value: &LoxType<'a, N>,
    ) -> (r: Result<N, Unwind<'a, N>>)
        ensures
            match value {
                LoxType::Number(n) => r == Ok::<N, Unwind<'a, N>>(*n) && final(reporter).reports()
                    == old(reporter).reports(),
                _ => failed_at(
                    r,
                    old(reporter).reports(),
                    final(reporter).reports(),
                    *expression,
                    "Operand should be a number"@,
                ),
            },
            reported(old(reporter).reports(), final(reporter).reports(), r),
    {
        match value {
            LoxType::Number(n) => Ok(*n),
            _ => Err(
                self.add_diagnostic(
                    reporter,
                    expression,
                    String::from_str("Operand should be a number"),
                ),
            ),
        }
    }

    /// The string in `value`; an error, reported at `expression`, for any other value.
    pub fn check_string_operand<'a, 'v, N: Number, R: Reporter>(
        &self,
        reporter: &mut R,
        expression: &Expr,
        value: &'v LoxType<'a, N>,
    ) -> (r: Result<&'v str, Unwind<'a, N>>)
        ensures
            match value {
                LoxType::String(s) => r matches Ok(t) && t@ == s@ && final(reporter).reports()
                    == old(reporter).reports(),
                _ => error_message(r) == Some("Operand should be a string"@),
            },
            reported(old(reporter).reports(), final(reporter).reports(), r),
    {
        match value {
            LoxType::String(s) => Ok(s.as_str()),
            _ => Err(
                self.add_diagnostic(
                    reporter,
                    expression,
                    String::from_str("Operand should be a string"),
                ),
            ),
        }
    }
}

impl<'d> Interpreter<'d> {
    /// Runs `statements` in `environment`, stopping at the first that does not
    /// complete.  A run-time error is also reported as a message.
    pub fn interpret_statements<'a, N: Number, R: Reporter>(
        &self,
        heap: &mut Heap<'a, N>,
        reporter: &mut R,
        environment: Environment,
        statements: &'a Vec<Stmt>,
        fuel: u64,
    ) -> (r: Result<(), Unwind<'a, N>>)
        ensures
            reported(old(reporter).reports(), final(reporter).reports(), r),
            error_message(r) matches Some(m) ==> final(reporter).reports().last()
                == crate::reporter::message(m),
            stmts_outcome(
                self.depths@,
                environment,
                statements@,
                run_state(*old(heap), old(reporter).reports()),
                stmt_result(r),
                run_state(*final(heap), final(reporter).reports()), fuel as nat,
            ),
        decreases fuel, 1 + stmts_height(statements@), 1int,
    {
        let ghost st0 = run_state(*heap, reporter.reports());
        let ghost start = reporter.reports();
        let ghost mut tr: RunTrace<'a, N> = RunTrace::Leaf {
            result: Ok::<LoxType<'a, N>, Unwind<'a, N>>(LoxType::Nil),
            state: st0,
        };
        proof {
            reveal(valid_stmts);
            assert(statements@.take(0) =~= Seq::<Stmt>::empty());
        }
        let mut i: usize = 0;
        while i < statements.len()
            invariant
                0 <= i <= statements.len(),
                extends(start, reporter.reports()),
                start == old(reporter).reports(),
                st0 == run_state(*old(heap), old(reporter).reports()),
                valid_stmts(self.depths@, environment, statements@.take(i as int), st0, tr, fuel as nat),
                tr.result() == Ok::<LoxType<'a, N>, Unwind<'a, N>>(LoxType::Nil),
                tr.state() == run_state(*heap, reporter.reports()),
            decreases statements.len() - i,
        {
            proof {
                lemma_stmts_height(statements@, i as int);
            }
            let ghost before = reporter.reports();
            let ghost sti = run_state(*heap, reporter.reports());
            let r = self.evaluate_stmt(heap, reporter, environment, &statements[i], fuel);
            proof {
                let ti = choose|t: RunTrace<'a, N>| valid_stmt(self.depths@, environment, statements@[i as int], sti, t, fuel as nat) && t.result() == stmt_result(r) && t.state() == run_state(*heap, reporter.reports());
                let next = RunTrace::Node {
                    result: stmt_result(r),
                    state: run_state(*heap, reporter.reports()),
                    first: Box::new(tr),
                    second: Box::new(ti),
                };
                reveal(valid_stmts);
                reveal(valid_stmt);
                assert(statements@.take(i + 1).drop_last() =~= statements@.take(i as int));
                assert(statements@.take(i + 1)[i as int] == statements@[i as int]);
                assert(valid_stmts(self.depths@, environment, statements@.take(i + 1), st0, next, fuel as nat));
                tr = next;
            }
            match r {
                Err(Unwind::WithError(message)) => {
                    let ghost mid = reporter.reports();
                    reporter.add_message(message.as_str());
                    proof {
                        lemma_extends_trans(start, before, mid);
                        lemma_error_later(start, before, mid, message@);
                        lemma_error_stays(start, mid, reporter.reports(), message@);
                        lemma_extends_trans(start, mid, reporter.reports());
                        let full = lemma_stmts_stop(self.depths@, environment, statements@, i + 1, st0, tr, fuel as nat);
                        assert(full.result() == Err::<LoxType<'a, N>, Unwind<'a, N>>(Unwind::WithError(message)));
                        assert(run_state(*heap, reporter.reports()) == RunState {
                            reports: full.state().reports.push(crate::reporter::message(message@)),
                            ..full.state()
                        });
                        assert(valid_stmts(self.depths@, environment, statements@, st0, full, fuel as nat));
                    }
                    return Err(Unwind::WithError(message));
                },
                Err(Unwind::WithResult(value)) => {
                    proof {
                        lemma_extends_trans(start, before, reporter.reports());
                        let full = lemma_stmts_stop(self.depths@, environment, statements@, i + 1, st0, tr, fuel as nat);
                        assert(full.result() == Err::<LoxType<'a, N>, Unwind<'a, N>>(Unwind::WithResult(value)));
                        assert(valid_stmts(self.depths@, environment, statements@, st0, full, fuel as nat));
                    }
                    return Err(Unwind::WithResult(value));
                },
                Ok(()) => {
                    proof {
                        lemma_extends_trans(start, before, reporter.reports());
                    }
                },
            }
            i = i + 1;
        }
        proof {
            assert(statements@.take(i as int) =~= statements@);
        }
        Ok(())
    }

    fn evaluate_stmt<'a, N: Number, R: Reporter>(
        &self,
        heap: &mut Heap<'a, N>,
        reporter: &mut R,
        environment: Environment,
        statement: &'a Stmt,
        fuel: u64,
    ) -> (r: Result<(), Unwind<'a, N>>)
        ensures
            reported(old(reporter).reports(), final(reporter).reports(), r),
            stmt_outcome(
                self.depths@,
                environment,
                *statement,
                run_state(*old(heap), old(reporter).reports()),
                stmt_result(r),
                run_state(*final(heap), final(reporter).reports()), fuel as nat,
            ),
        decreases fuel, stmt_height(*statement), 2int,
    {
        let ghost st0 = run_state(*heap, reporter.reports());
        let r = match statement {
            Stmt::Block { statements } => self.evaluate_stmt_block(
                heap,
                reporter,
                environment,
                statements,
                fuel,
            ),
            Stmt::Class { name, superclass, methods } => self.evaluate_stmt_class(
                heap,
                reporter,
                environment,
                statement,
                name,
                superclass,
                methods,
                fuel,
            ),
            Stmt::Expression { expression } => self.evaluate_stmt_expression(
                heap,
                reporter,
                environment,
                expression,
                fuel,
            ),
            Stmt::Function { function } => {
                self.evaluate_stmt_function(heap, environment, function);
                proof {
                    let f = Function { declaration: function, closure: environment, is_initialiser: false };
                    assert(run_state(*heap, reporter.reports()) == defined(
                        st0,
                        environment,
                        function.name.lexeme@,
                        ValueView::Function(f),
                    ));
                    let t: RunTrace<'a, N> = RunTrace::Leaf {
                        result: Ok::<LoxType<'a, N>, Unwind<'a, N>>(LoxType::Nil),
                        state: run_state(*heap, reporter.reports()),
                    };
                    reveal(valid_stmt);
                    reveal(valid_stmts);
                    assert(valid_stmt(self.depths@, environment, *statement, st0, t, fuel as nat));
                }
                Ok(())
            },
            Stmt::If { condition, then_branch, else_branch } => self.evaluate_stmt_if(
                heap,
                reporter,
                environment,
                condition,
                then_branch,
                else_branch,
                fuel,
            ),
            Stmt::Print { value } => self.evaluate_stmt_print(
                heap,
                reporter,
                environment,
                value,
                fuel,
            ),
            Stmt::Return { keyword, value } => self.evaluate_stmt_return(
                heap,
                reporter,
                environment,
                keyword,
                value,
                fuel,
            ),
            Stmt::Var { name, initialiser } => self.evaluate_stmt_var(
                heap,
                reporter,
                environment,
                name,
                initialiser,
                fuel,
            ),
            Stmt::While { condition, body } => {
                let r = self.evaluate_stmt_while(
                    heap,
                    reporter,
                    environment,
                    condition,
                    body,
                    fuel,
                );
                proof {
                    let t = choose|t: RunTrace<'a, N>| valid_loop(self.depths@, environment, *condition, **body, st0, t, fuel as nat, 0) && t.result() == stmt_result(r) && t.state() == run_state(*heap, reporter.reports());
                    reveal(valid_stmt);
                    reveal(valid_stmts);
                    assert(valid_stmt(self.depths@, environment, *statement, st0, t, fuel as nat));
                }
                r
            },
        };
        r
    }

    /// Runs `statements` in a new scope nested in `environment`.
    fn evaluate_stmt_block<'a, N: Number, R: Reporter>(
        &self,
        heap: &mut Heap<'a, N>,
        reporter: &mut R,
        environment: Environment,
        statements: &'a Vec<Stmt>,
        fuel: u64,
    ) -> (r: Result<(), Unwind<'a, N>>)
        ensures
            reported(old(reporter).reports(), final(reporter).reports(), r),
            stmt_outcome(
                self.depths@,
                environment,
                Stmt::Block { statements: *statements },
                run_state(*old(heap), old(reporter).reports()),
                stmt_result(r),
                run_state(*final(heap), final(reporter).reports()), fuel as nat,
            ),
        decreases fuel, 1 + stmts_height(statements@), 1int,
    {
        let ghost st0 = run_state(*heap, reporter.reports());
        let outer = environment;
        let inner = Environment::new_with_enclosing(heap, &outer);
        let ghost st1 = run_state(*heap, reporter.reports());
        proof {
            assert(st1 == block_state(outer, st0));
            assert(inner == block_environment(outer, st0));
        }
        let ghost start = reporter.reports();
        let ghost mut tr: RunTrace<'a, N> = RunTrace::Leaf {
            result: Ok::<LoxType<'a, N>, Unwind<'a, N>>(LoxType::Nil),
            state: st1,
        };
        proof {
            reveal(valid_stmts);
            assert(statements@.take(0) =~= Seq::<Stmt>::empty());
        }
        let mut i: usize = 0;
        while i < statements.len()
            invariant
                0 <= i <= statements.len(),
                extends(start, reporter.reports()),
                start == old(reporter).reports(),
                valid_stmts(self.depths@, inner, statements@.take(i as int), st1, tr, fuel as nat),
                tr.result() == Ok::<LoxType<'a, N>, Unwind<'a, N>>(LoxType::Nil),
                tr.state() == run_state(*heap, reporter.reports()),
                st1 == block_state(outer, st0),
                inner == block_environment(outer, st0),
                outer == environment,
                st0 == run_state(*old(heap), old(reporter).reports()),
            decreases statements.len() - i,
        {
            proof {
                lemma_stmts_height(statements@, i as int);
            }
            let ghost before = reporter.reports();
            let ghost sti = run_state(*heap, reporter.reports());
            let r = self.evaluate_stmt(heap, reporter, inner, &statements[i], fuel);
            proof {
                lemma_extends_trans(start, before, reporter.reports());
                if let Some(m) = error_message(r) {
                    lemma_error_later(start, before, reporter.reports(), m);
                }
                let ti = choose|t: RunTrace<'a, N>| valid_stmt(self.depths@, inner, statements@[i as int], sti, t, fuel as nat) && t.result() == stmt_result(r) && t.state() == run_state(*heap, reporter.reports());
                let next = RunTrace::Node {
                    result: stmt_result(r),
                    state: run_state(*heap, reporter.reports()),
                    first: Box::new(tr),
                    second: Box::new(ti),
                };
                reveal(valid_stmts);
                reveal(valid_stmt);
                assert(statements@.take(i + 1).drop_last() =~= statements@.take(i as int));
                assert(statements@.take(i + 1)[i as int] == statements@[i as int]);
                assert(valid_stmts(self.depths@, inner, statements@.take(i + 1), st1, next, fuel as nat));
                tr = next;
            }
            match r {
                Ok(()) => {},
                Err(u) => {
                    proof {
                        let full = lemma_stmts_stop(self.depths@, inner, statements@, i + 1, st1, tr, fuel as nat);
                        reveal(valid_stmt);
                        reveal(valid_stmts);
                        assert(valid_stmt(self.depths@, outer, Stmt::Block { statements: *statements }, st0, full, fuel as nat));
                        assert(full.result() == Err::<LoxType<'a, N>, Unwind<'a, N>>(u));
                        assert(full.state() == run_state(*heap, reporter.reports()));
                    }
                    return Err(u);
                },
            }
            i = i + 1;
        }
        proof {
            assert(statements@.take(i as int) =~= statements@);
            reveal(valid_stmt);
            reveal(valid_stmts);
            assert(valid_stmt(self.depths@, outer, Stmt::Block { statements: *statements }, st0, tr, fuel as nat));
        }
        Ok(())
    }

    /// Declares a class: binds its name, then the class with its superclass and methods.
    fn evaluate_stmt_class<'a, N: Number, R: Reporter>(
        &self,
        heap: &mut Heap<'a, N>,
        reporter: &mut R,
        environment: Environment,
        statement: &'a Stmt,
        name: &'a Token,
        superclass: &'a Option<Expr>,
        methods: &'a Vec<Stmt>,
        fuel: u64,
    ) -> (r: Result<(), Unwind<'a, N>>)
        requires
            statement matches Stmt::Class { name: n, superclass: s, methods: m } && n == *name && s
                == *superclass && m == *methods,
        ensures
            reported(old(reporter).reports(), final(reporter).reports(), r),
            stmt_outcome(
                self.depths@,
                environment,
                *statement,
                run_state(*old(heap), old(reporter).reports()),
                stmt_result(r),
                run_state(*final(heap), final(reporter).reports()),
                fuel as nat,
            ),
        decreases fuel, 1 + opt_expr_height(*superclass), 1int,
    {
        let ghost st0 = run_state(*heap, reporter.reports());
        let ghost mut tc: RunTrace<'a, N> = RunTrace::Leaf { result: Ok(LoxType::Nil), state: st0 };
        let superclass_value = match superclass {
            Some(expression) => {
                let ghost before = reporter.reports();
                let value = self.evaluate_expr(heap, reporter, environment, expression, fuel);
                proof {
                    tc = choose|t: RunTrace<'a, N>| valid_expr(self.depths@, environment, *expression, st0, t, fuel as nat) && t.result() == value && t.state() == run_state(*heap, reporter.reports());
                }
                match value {
                    Err(u) => {
                        proof {
                            let t = RunTrace::Node { result: Err(u), state: tc.state(), first: Box::new(tc), second: Box::new(tc) };
                            reveal(valid_stmt);
                            reveal(valid_stmts);
                            assert(valid_stmt(self.depths@, environment, *statement, st0, t, fuel as nat));
                        }
                        return Err(u);
                    },
                    Ok(LoxType::Class { class }) => Some(class),
                    Ok(_) => {
                        let ghost mid = reporter.reports();
                        let u = self.add_diagnostic(
                            reporter,
                            expression,
                            String::from_str("Superclass must be a class"),
                        );
                        proof {
                            lemma_extends_trans(before, mid, reporter.reports());
                            lemma_error_later(before, mid, reporter.reports(), "Superclass must be a class"@);
                            let t = RunTrace::Node { result: Err(u), state: run_state(*heap, reporter.reports()), first: Box::new(tc), second: Box::new(tc) };
                            reveal(valid_stmt);
                            reveal(valid_stmts);
                            assert(valid_stmt(self.depths@, environment, *statement, st0, t, fuel as nat));
                        }
                        return Err(u);
                    },
                }
            },
            None => None,
        };
        let ghost st1 = run_state(*heap, reporter.reports());
        environment.define(heap, name.lexeme.as_str(), LoxType::Nil);
        let methods_closure = match superclass_value {
            Some(class) => {
                let e = Environment::new_with_enclosing(heap, &environment);
                e.define(heap, "super", LoxType::Class { class });
                e
            },
            None => environment,
        };
        proof {
            assert(heap.frames_view() == class_frames(environment, name.lexeme@, superclass_value, st1.frames));
            assert(methods_closure == method_environment(environment, superclass_value, st1.frames));
        }
        let mut table: Vec<(String, LoxType<'a, N>)> = Vec::new();
        let mut i: usize = 0;
        proof {
            assert(methods@.take(0) =~= Seq::<Stmt>::empty());
            assert(environment::bindings_view(table@) =~= Seq::<(Seq<char>, ValueView<'a, N>)>::empty());
        }
        while i < methods.len()
            invariant
                0 <= i <= methods.len(),
                environment::bindings_view(table@) == method_table::<'a, N>(methods@.take(i as int), methods_closure),
            decreases methods.len() - i,
        {
            proof {
                assert(methods@.take(i + 1).drop_last() =~= methods@.take(i as int));
                assert(methods@.take(i + 1).last() == methods@[i as int]);
            }
            match &methods[i] {
                Stmt::Function { function } => {
                    let is_initialiser = str_equal(function.name.lexeme.as_str(), "init");
                    let method = Function::new(&methods_closure, function, is_initialiser);
                    bind(&mut table, function.name.lexeme.as_str(), LoxType::Function { function: method });
                },
                _ => {},
            }
            i = i + 1;
        }
        proof {
            assert(methods@.take(i as int) =~= methods@);
        }
        let class = Class::new(heap, name, superclass_value, table);
        let _ = environment.assign_at(heap, Some(0), name.lexeme.as_str(), LoxType::Class { class });
        proof {
            assert(class_declared(environment, *name, superclass_value, methods@, st1, Ok(LoxType::Nil), run_state(*heap, reporter.reports())));
            let t = match superclass {
                Some(_) => RunTrace::Node { result: Ok(LoxType::Nil), state: run_state(*heap, reporter.reports()), first: Box::new(tc), second: Box::new(tc) },
                None => RunTrace::Leaf { result: Ok(LoxType::Nil), state: run_state(*heap, reporter.reports()) },
            };
            reveal(valid_stmt);
            reveal(valid_stmts);
            assert(valid_stmt(self.depths@, environment, *statement, st0, t, fuel as nat));
        }
        Ok(())
    }

    fn evaluate_stmt_expression<'a, N: Number, R: Reporter>(
        &self,
        heap: &mut Heap<'a, N>,
        reporter: &mut R,
        environment: Environment,
        expression: &'a Expr,
        fuel: u64,
    ) -> (r: Result<(), Unwind<'a, N>>)
        ensures
            reported(old(reporter).reports(), final(reporter).reports(), r),
            stmt_outcome(
                self.depths@,
                environment,
                Stmt::Expression { expression: *expression },
                run_state(*old(heap), old(reporter).reports()),
                stmt_result(r),
                run_state(*final(heap), final(reporter).reports()), fuel as nat,
            ),
        decreases fuel, 1 + expr_height(*expression), 1int,
    {
        let ghost st0 = run_state(*heap, reporter.reports());
        let vr = self.evaluate_expr(heap, reporter, environment, expression, fuel);
        let ghost vr_view = vr;
        let r = match vr {
            Ok(_) => Ok(()),
            Err(u) => Err(u),
        };
        proof {
            let st1 = run_state(*heap, reporter.reports());
            let t1 = choose|t: RunTrace<'a, N>| valid_expr(self.depths@, environment, *expression, st0, t, fuel as nat) && t.result() == vr_view && t.state() == st1;
            let t = RunTrace::Node {
                result: stmt_result(r),
                state: st1,
                first: Box::new(t1),
                second: Box::new(t1),
            };
            reveal(valid_stmt);
            reveal(valid_stmts);
            assert(valid_stmt(self.depths@, environment, Stmt::Expression { expression: *expression }, st0, t, fuel as nat));
        }
        r
    }

    /// Declares a function: binds its name to a function closing over `environment`.
    fn evaluate_stmt_function<'a, N: Number>(
        &self,
        heap: &mut Heap<'a, N>,
        environment: Environment,
        function: &'a crate::stmt::Function,
    )
        ensures
            final(heap).frames_view() == environment::spec_define(
                old(heap).frames_view(),
                environment.frame as int,
                function.name.lexeme@,
                lox_type::ValueView::Function(
                    Function { declaration: function, closure: environment, is_initialiser: false },
                ),
            ),
            final(heap).classes_view() == old(heap).classes_view(),
            final(heap).instances_view() == old(heap).instances_view(),
    {
        let value = Function::new(&environment, function, false);
        environment.define(heap, function.name.lexeme.as_str(), LoxType::Function { function: value });
    }

    fn evaluate_stmt_if<'a, N: Number, R: Reporter>(
        &self,
        heap: &mut Heap<'a, N>,
        reporter: &mut R,
        environment: Environment,
        condition: &'a Expr,
        then_branch: &'a Box<Stmt>,
        else_branch: &'a Box<Option<Stmt>>,
        fuel: u64,
    ) -> (r: Result<(), Unwind<'a, N>>)
        ensures
            reported(old(reporter).reports(), final(reporter).reports(), r),
            stmt_outcome(
                self.depths@,
                environment,
                Stmt::If { condition: *condition, then_branch: *then_branch, else_branch: *else_branch },
                run_state(*old(heap), old(reporter).reports()),
                stmt_result(r),
                run_state(*final(heap), final(reporter).reports()), fuel as nat,
            ),
        decreases fuel, 1 + max2(
            expr_height(*condition),
            max2(stmt_height(**then_branch), opt_stmt_height(**else_branch)),
        ), 1int,
    {
        let ghost start = reporter.reports();
        let ghost st0 = run_state(*heap, reporter.reports());
        let cr = self.evaluate_expr(heap, reporter, environment, condition, fuel);
        let ghost cr_view = cr;
        let ghost st1 = run_state(*heap, reporter.reports());
        let ghost t1 = choose|t: RunTrace<'a, N>| valid_expr(self.depths@, environment, *condition, st0, t, fuel as nat) && t.result() == cr_view && t.state() == st1;
        let value = match cr {
            Ok(v) => v,
            Err(u) => {
                proof {
                    lemma_if_stops(self.depths@, environment, *condition, *then_branch, *else_branch, st0, t1, fuel as nat);
                }
                return Err(u);
            },
        };
        let ghost mid = reporter.reports();
        let r = if is_truthy(&value) {
            self.evaluate_stmt(heap, reporter, environment, then_branch, fuel)
        } else {
            match &**else_branch {
                Some(branch) => self.evaluate_stmt(heap, reporter, environment, branch, fuel),
                None => Ok(()),
            }
        };
        proof {
            lemma_extends_trans(start, mid, reporter.reports());
            if let Some(m) = error_message(r) {
                lemma_error_later(start, mid, reporter.reports(), m);
            }
            let st2 = run_state(*heap, reporter.reports());
            let t2 = if spec_is_truthy(value.view()) {
                choose|t: RunTrace<'a, N>| valid_stmt(self.depths@, environment, **then_branch, st1, t, fuel as nat) && t.result() == stmt_result(r) && t.state() == st2
            } else if (**else_branch) is Some {
                choose|t: RunTrace<'a, N>| valid_stmt(self.depths@, environment, (**else_branch)->Some_0, st1, t, fuel as nat) && t.result() == stmt_result(r) && t.state() == st2
            } else {
                RunTrace::Leaf { result: stmt_result(r), state: st2 }
            };
            lemma_if_runs(self.depths@, environment, *condition, *then_branch, *else_branch, st0, t1, t2, fuel as nat);
        }
        r
    }

    /// Prints a value: reports `[print] ` and how the value is shown.
    fn evaluate_stmt_print<'a, N: Number, R: Reporter>(
        &self,
        heap: &mut Heap<'a, N>,
        reporter: &mut R,
        environment: Environment,
        expression: &'a Expr,
        fuel: u64,
    ) -> (r: Result<(), Unwind<'a, N>>)
        ensures
            reported(old(reporter).reports(), final(reporter).reports(), r),
            stmt_outcome(
                self.depths@,
                environment,
                Stmt::Print { value: *expression },
                run_state(*old(heap), old(reporter).reports()),
                stmt_result(r),
                run_state(*final(heap), final(reporter).reports()), fuel as nat,
            ),
        decreases fuel, 1 + expr_height(*expression), 1int,
    {
        let ghost start = reporter.reports();
        let ghost st0 = run_state(*heap, reporter.reports());
        let vr = self.evaluate_expr(heap, reporter, environment, expression, fuel);
        let ghost vr_view = vr;
        let ghost st1 = run_state(*heap, reporter.reports());
        let ghost t1 = choose|t: RunTrace<'a, N>| valid_expr(self.depths@, environment, *expression, st0, t, fuel as nat) && t.result() == vr_view && t.state() == st1;
        let value = match vr {
            Ok(v) => v,
            Err(u) => {
                proof {
                    let t = RunTrace::Node {
                        result: vr_view,
                        state: st1,
                        first: Box::new(t1),
                        second: Box::new(t1),
                    };
                    reveal(valid_stmt);
                    reveal(valid_stmts);
                    reveal(valid_stmt);
            reveal(valid_stmts);
            assert(valid_stmt(self.depths@, environment, Stmt::Print { value: *expression }, st0, t, fuel as nat));
                }
                return Err(u);
            },
        };
        let ghost mid = reporter.reports();
        print_value(reporter, &value);
        proof {
            lemma_extends_trans(start, mid, reporter.reports());
            let t = RunTrace::Node {
                result: Ok::<LoxType<'a, N>, Unwind<'a, N>>(LoxType::Nil),
                state: run_state(*heap, reporter.reports()),
                first: Box::new(t1),
                second: Box::new(t1),
            };
            reveal(valid_stmt);
            reveal(valid_stmts);
            assert(valid_stmt(self.depths@, environment, Stmt::Print { value: *expression }, st0, t, fuel as nat));
        }
        Ok(())
    }

    /// Leaves the function with the value of `value`, or `nil`.
    fn evaluate_stmt_return<'a, N: Number, R: Reporter>(
        &self,
        heap: &mut Heap<'a, N>,
        reporter: &mut R,
        environment: Environment,
        keyword: &'a Token,
        value: &'a Option<Expr>,
        fuel: u64,
    ) -> (r: Result<(), Unwind<'a, N>>)
        ensures
            reported(old(reporter).reports(), final(reporter).reports(), r),
            r is Err,
            stmt_outcome(
                self.depths@,
                environment,
                Stmt::Return { keyword: *keyword, value: *value },
                run_state(*old(heap), old(reporter).reports()),
                stmt_result(r),
                run_state(*final(heap), final(reporter).reports()), fuel as nat,
            ),
        decreases fuel, 1 + opt_expr_height(*value), 1int,
    {
        let ghost st0 = run_state(*heap, reporter.reports());
        let ghost whole = Stmt::Return { keyword: *keyword, value: *value };
        match value {
            Some(expression) => {
                let vr = self.evaluate_expr(heap, reporter, environment, expression, fuel);
                let ghost vr_view = vr;
                let ghost st1 = run_state(*heap, reporter.reports());
                let ghost t1 = choose|t: RunTrace<'a, N>| valid_expr(self.depths@, environment, *expression, st0, t, fuel as nat) && t.result() == vr_view && t.state() == st1;
                let r = match vr {
                    Ok(v) => Err(Unwind::WithResult(v)),
                    Err(u) => Err(u),
                };
                proof {
                    let t = RunTrace::Node {
                        result: stmt_result(r),
                        state: st1,
                        first: Box::new(t1),
                        second: Box::new(t1),
                    };
                    reveal(valid_stmt);
                    reveal(valid_stmts);
                    assert(valid_stmt(self.depths@, environment, whole, st0, t, fuel as nat));
                }
                r
            },
            None => {
                let r = Err(Unwind::WithResult(LoxType::Nil));
                proof {
                    let t: RunTrace<'a, N> = RunTrace::Leaf { result: stmt_result(r), state: st0 };
                    reveal(valid_stmt);
                    reveal(valid_stmts);
                    assert(valid_stmt(self.depths@, environment, whole, st0, t, fuel as nat));
                }
                r
            },
        }
    }

    /// Declares a variable, with the value of its initialiser or `nil`.
    fn evaluate_stmt_var<'a, N: Number, R: Reporter>(
        &self,
        heap: &mut Heap<'a, N>,
        reporter: &mut R,
        environment: Environment,
        name: &'a Token,
        initialiser: &'a Option<Expr>,
        fuel: u64,
    ) -> (r: Result<(), Unwind<'a, N>>)
        ensures
            reported(old(reporter).reports(), final(reporter).reports(), r),
            stmt_outcome(
                self.depths@,
                environment,
                Stmt::Var { name: *name, initialiser: *initialiser },
                run_state(*old(heap), old(reporter).reports()),
                stmt_result(r),
                run_state(*final(heap), final(reporter).reports()), fuel as nat,
            ),
        decreases fuel, 1 + opt_expr_height(*initialiser), 1int,
    {
        let ghost st0 = run_state(*heap, reporter.reports());
        let ghost whole = Stmt::Var { name: *name, initialiser: *initialiser };
        match initialiser {
            Some(expression) => {
                let vr = self.evaluate_expr(heap, reporter, environment, expression, fuel);
                let ghost vr_view = vr;
                let ghost st1 = run_state(*heap, reporter.reports());
                let ghost t1 = choose|t: RunTrace<'a, N>| valid_expr(self.depths@, environment, *expression, st0, t, fuel as nat) && t.result() == vr_view && t.state() == st1;
                let value = match vr {
                    Ok(v) => v,
                    Err(u) => {
                        proof {
                            let t = RunTrace::Node {
                                result: vr_view,
                                state: st1,
                                first: Box::new(t1),
                                second: Box::new(t1),
                            };
                            reveal(valid_stmt);
                            reveal(valid_stmts);
                            assert(valid_stmt(self.depths@, environment, whole, st0, t, fuel as nat));
                        }
                        return Err(u);
                    },
                };
                let ghost v = value.view();
                environment.define(heap, name.lexeme.as_str(), value);
                proof {
                    let t = RunTrace::Node {
                        result: Ok::<LoxType<'a, N>, Unwind<'a, N>>(LoxType::Nil),
                        state: run_state(*heap, reporter.reports()),
                        first: Box::new(t1),
                        second: Box::new(t1),
                    };
                    assert(run_state(*heap, reporter.reports()) == defined(st1, environment, name.lexeme@, v));
                    reveal(valid_stmt);
                    reveal(valid_stmts);
                    assert(valid_stmt(self.depths@, environment, whole, st0, t, fuel as nat));
                }
                Ok(())
            },
            None => {
                environment.define(heap, name.lexeme.as_str(), LoxType::Nil);
                proof {
                    let t: RunTrace<'a, N> = RunTrace::Leaf {
                        result: Ok::<LoxType<'a, N>, Unwind<'a, N>>(LoxType::Nil),
                        state: run_state(*heap, reporter.reports()),
                    };
                    assert(run_state(*heap, reporter.reports()) == defined(st0, environment, name.lexeme@, ValueView::Nil));
                    reveal(valid_stmt);
                    reveal(valid_stmts);
                    assert(valid_stmt(self.depths@, environment, whole, st0, t, fuel as nat));
                }
                Ok(())
            },
        }
    }

    /// Runs `body` while `condition` is truthy.
    fn evaluate_stmt_while<'a, N: Number, R: Reporter>(
        &self,
        heap: &mut Heap<'a, N>,
        reporter: &mut R,
        environment: Environment,
        condition: &'a Expr,
        body: &'a Box<Stmt>,
        fuel: u64,
    ) -> (r: Result<(), Unwind<'a, N>>)
        ensures
            reported(old(reporter).reports(), final(reporter).reports(), r),
            exists|t: RunTrace<'a, N>|
                valid_loop(
                    self.depths@,
                    environment,
                    *condition,
                    **body,
                    run_state(*old(heap), old(reporter).reports()),
                    t,
                    fuel as nat,
                    0,
                ) && t.result() == stmt_result(r) && t.state() == run_state(
                    *final(heap),
                    final(reporter).reports(),
                ),
        decreases fuel, 1 + max2(expr_height(*condition), stmt_height(**body)), 1int,
    {
        let ghost start = reporter.reports();
        let ghost st0 = run_state(*heap, reporter.reports());
        let ghost mut iterations: Seq<(RunTrace<'a, N>, RunTrace<'a, N>)> = Seq::empty();
        let mut budget: u64 = u64::MAX;
        loop
            invariant
                extends(start, reporter.reports()),
                start == old(reporter).reports(),
                st0 == run_state(*old(heap), old(reporter).reports()),
                iterations.len() == u64::MAX - budget,
                loop_iterations(self.depths@, environment, *condition, **body, st0, iterations, fuel as nat),
                loop_state(iterations, st0) == run_state(*heap, reporter.reports()),
            decreases budget,
        {
            let ghost before = reporter.reports();
            let ghost sti = run_state(*heap, reporter.reports());
            let value = self.evaluate_expr(heap, reporter, environment, condition, fuel);
            proof {
                lemma_extends_trans(start, before, reporter.reports());
                if let Some(m) = error_message(value) {
                    lemma_error_later(start, before, reporter.reports(), m);
                }
            }
            let ghost tc = choose|t: RunTrace<'a, N>| valid_expr(self.depths@, environment, *condition, sti, t, fuel as nat) && t.result() == value && t.state() == run_state(*heap, reporter.reports());
            let v = match value {
                Ok(v) => v,
                Err(u) => {
                    proof {
                        let rest = RunTrace::Node { result: Err(u), state: tc.state(), first: Box::new(tc), second: Box::new(tc) };
                        lemma_nest_loop(self.depths@, environment, *condition, **body, st0, iterations, rest, fuel as nat);
                    }
                    return Err(u);
                },
            };
            if !is_truthy(&v) {
                proof {
                    let rest = RunTrace::Node { result: Ok(LoxType::Nil), state: tc.state(), first: Box::new(tc), second: Box::new(tc) };
                    lemma_nest_loop(self.depths@, environment, *condition, **body, st0, iterations, rest, fuel as nat);
                }
                return Ok(());
            }
            if budget == 0 {
                let ghost mid = reporter.reports();
                let u = self.add_diagnostic(
                    reporter,
                    condition,
                    String::from_str("Loop ran too many times"),
                );
                proof {
                    lemma_extends_trans(start, mid, reporter.reports());
                    lemma_error_later(start, mid, reporter.reports(), "Loop ran too many times"@);
                    let rest = RunTrace::Node { result: Err(u), state: run_state(*heap, reporter.reports()), first: Box::new(tc), second: Box::new(tc) };
                    lemma_nest_loop(self.depths@, environment, *condition, **body, st0, iterations, rest, fuel as nat);
                }
                return Err(u);
            }
            let ghost before_body = reporter.reports();
            let ghost stb = run_state(*heap, reporter.reports());
            let r = self.evaluate_stmt(heap, reporter, environment, body, fuel);
            proof {
                lemma_extends_trans(start, before_body, reporter.reports());
                if let Some(m) = error_message(r) {
                    lemma_error_later(start, before_body, reporter.reports(), m);
                }
            }
            let ghost tb = choose|t: RunTrace<'a, N>| valid_stmt(self.depths@, environment, **body, stb, t, fuel as nat) && t.result() == stmt_result(r) && t.state() == run_state(*heap, reporter.reports());
            match r {
                Ok(()) => {},
                Err(u) => {
                    proof {
                        let inner = RunTrace::Node { result: Err(u), state: tb.state(), first: Box::new(tb), second: Box::new(tb) };
                        let rest = RunTrace::Node { result: Err(u), state: tb.state(), first: Box::new(tc), second: Box::new(inner) };
                        reveal(valid_stmt);
                        reveal(valid_stmts);
                        lemma_nest_loop(self.depths@, environment, *condition, **body, st0, iterations, rest, fuel as nat);
                    }
                    return Err(u);
                },
            }
            proof {
                let next = iterations.push((tc, tb));
                assert forall|j: int| 0 <= j < next.len() implies {
                    let c = #[trigger] next[j].0;
                    let b = next[j].1;
                    &&& valid_expr(self.depths@, environment, *condition, loop_state(next.take(j), st0), c, fuel as nat)
                    &&& c.result() matches Ok(v) && spec_is_truthy(v.view())
                    &&& valid_stmt(self.depths@, environment, **body, c.state(), b, fuel as nat)
                    &&& b.result() is Ok
                } by {
                    if j < iterations.len() {
                        assert(next.take(j) =~= iterations.take(j));
                        assert(next[j] == iterations[j]);
                    } else {
                        assert(next.take(j) =~= iterations);
                    }
                }
                iterations = next;
            }
            budget = budget - 1;
        }
    }
}

impl<'d> Interpreter<'d> {
    /// The value of `expression`.
    pub fn evaluate_expr<'a, N: Number, R: Reporter>(
        &self,
        heap: &mut Heap<'a, N>,
        reporter: &mut R,
        environment: Environment,
        expression: &'a Expr,
        fuel: u64,
    ) -> (r: Result<LoxType<'a, N>, Unwind<'a, N>>)
        ensures
            reported(old(reporter).reports(), final(reporter).reports(), r),
            !(r matches Err(Unwind::WithResult(_))),
            expr_outcome(
                self.depths@,
                environment,
                *expression,
                run_state(*old(heap), old(reporter).reports()),
                r,
                run_state(*final(heap), final(reporter).reports()), fuel as nat,
            ),
        decreases fuel, expr_height(*expression), 2int,
    {
        let ghost before = run_state(*heap, reporter.reports());
        let r = match expression {
            Expr::Assign { id, name, value } => self.evaluate_expr_assign(
                heap,
                reporter,
                environment,
                expression,
                *id,
                name,
                value,
                fuel,
            ),
            Expr::Binary { left, operator, right, .. } => self.evaluate_expr_binary(
                heap,
                reporter,
                environment,
                expression,
                left,
                operator,
                right,
                fuel,
            ),
            Expr::Call { callee, arguments, .. } => self.evaluate_expr_call(
                heap,
                reporter,
                environment,
                expression,
                callee,
                arguments,
                fuel,
            ),
            Expr::Get { object, name, .. } => self.evaluate_expr_get(
                heap,
                reporter,
                environment,
                expression,
                object,
                name,
                fuel,
            ),
            Expr::Grouping { expression: inner, .. } => {
                let r = self.evaluate_expr(heap, reporter, environment, inner, fuel);
                proof {
                    let t = choose|t: RunTrace<'a, N>| valid_expr(self.depths@, environment, **inner, before, t, fuel as nat) && t.result() == r && t.state() == run_state(*heap, reporter.reports());
                    assert(valid_expr(self.depths@, environment, *expression, before, t, fuel as nat));
                }
                r
            },
            Expr::InvalidGet { object, name, .. } => self.evaluate_expr_get(
                heap,
                reporter,
                environment,
                expression,
                object,
                name,
                fuel,
            ),
            Expr::InvalidSuper { id, method, .. } => self.evaluate_expr_super(
                heap,
                reporter,
                environment,
                *id,
                method,
            ),
            Expr::Literal { value, .. } => self.evaluate_expr_literal(reporter, expression, value),
            Expr::Logical { left, operator, right, .. } => self.evaluate_expr_logical(
                heap,
                reporter,
                environment,
                expression,
                left,
                operator,
                right,
                fuel,
            ),
            Expr::SetProperty { object, name, value, .. } => self.evaluate_expr_set(
                heap,
                reporter,
                environment,
                expression,
                object,
                name,
                value,
                fuel,
            ),
            Expr::Super { id, method, .. } => self.evaluate_expr_super(
                heap,
                reporter,
                environment,
                *id,
                method,
            ),
            Expr::This { id, keyword } => self.evaluate_expr_this(
                heap,
                reporter,
                environment,
                *id,
                keyword,
            ),
            Expr::Unary { operator, right, .. } => self.evaluate_expr_unary(
                heap,
                reporter,
                environment,
                expression,
                operator,
                right,
                fuel,
            ),
            Expr::Variable { id, name } => self.evaluate_expr_var(
                heap,
                reporter,
                environment,
                expression,
                *id,
                name,
            ),
        };
        proof {
            if expression is Super || expression is InvalidSuper || expression is Literal || expression is Variable
                || expression is This {
                let t: RunTrace<'a, N> = RunTrace::Leaf {
                    result: r,
                    state: run_state(*heap, reporter.reports()),
                };
                assert(valid_expr(self.depths@, environment, *expression, before, t, fuel as nat));
            }
        }
        r
    }

    /// Assigns the value of `value` to the variable `name`, and gives that value.
    fn evaluate_expr_assign<'a, N: Number, R: Reporter>(
        &self,
        heap: &mut Heap<'a, N>,
        reporter: &mut R,
        environment: Environment,
        expression: &'a Expr,
        id: usize,
        name: &'a Token,
        value: &'a Box<Expr>,
        fuel: u64,
    ) -> (r: Result<LoxType<'a, N>, Unwind<'a, N>>)
        requires
            expression matches Expr::Assign { id: i, name: n, value: v } && i == id && n == *name
                && v == *value,
        ensures
            reported(old(reporter).reports(), final(reporter).reports(), r),
            !(r matches Err(Unwind::WithResult(_))),
            expr_outcome(
                self.depths@,
                environment,
                *expression,
                run_state(*old(heap), old(reporter).reports()),
                r,
                run_state(*final(heap), final(reporter).reports()), fuel as nat,
            ),
        decreases fuel, 1 + expr_height(**value), 1int,
    {
        let ghost start = reporter.reports();
        let ghost st0 = run_state(*heap, reporter.reports());
        let vr = self.evaluate_expr(heap, reporter, environment, value, fuel);
        let ghost vr_view = vr;
        let ghost st1 = run_state(*heap, reporter.reports());
        let ghost t1 = choose|t: RunTrace<'a, N>|
            valid_expr(self.depths@, environment, **value, st0, t, fuel as nat) && t.result() == vr_view
                && t.state() == st1;
        let value = match vr {
            Ok(v) => v,
            Err(u) => {
                proof {
                    let t = RunTrace::Node {
                        result: vr_view,
                        state: st1,
                        first: Box::new(t1),
                        second: Box::new(t1),
                    };
                    assert(valid_expr(self.depths@, environment, *expression, st0, t, fuel as nat));
                }
                return Err(u);
            },
        };
        let depth = self.depth_of(id);
        let r = match environment.assign_at(heap, depth, name.lexeme.as_str(), value.clone_value()) {
            Err(Unwind::WithError(message)) => {
                let ghost mid = reporter.reports();
                let u = self.add_diagnostic(reporter, expression, message);
                proof {
                    lemma_extends_trans(start, mid, reporter.reports());
                    lemma_error_later(start, mid, reporter.reports(), u->WithError_0@);
                }
                Err(u)
            },
            _ => Ok(value),
        };
        proof {
            let t = RunTrace::Node {
                result: r,
                state: run_state(*heap, reporter.reports()),
                first: Box::new(t1),
                second: Box::new(t1),
            };
            assert(valid_expr(self.depths@, environment, *expression, st0, t, fuel as nat));
        }
        r
    }

    /// Reports an error at `expression` and gives it.
    fn fail<'a, N: Number, R: Reporter, T>(
        &self,
        reporter: &mut R,
        expression: &Expr,
        message: &str,
    ) -> (r: Result<T, Unwind<'a, N>>)
        ensures
            reported(old(reporter).reports(), final(reporter).reports(), r),
            failed_at(r, old(reporter).reports(), final(reporter).reports(), *expression, message@),
    {
        Err(self.add_diagnostic(reporter, expression, message.to_owned()))
    }

    /// Applies an arithmetic or comparison operator to two numbers; an error,
    /// reported at `expression`, where an operand is not a number.
    fn evaluate_numeric<'a, N: Number, R: Reporter>(
        &self,
        reporter: &mut R,
        expression: &Expr,
        operator: &Token,
        left: &LoxType<'a, N>,
        right: &LoxType<'a, N>,
    ) -> (r: Result<LoxType<'a, N>, Unwind<'a, N>>)
        ensures
            reported(old(reporter).reports(), final(reporter).reports(), r),
            !(r matches Err(Unwind::WithResult(_))),
            numeric_outcome(
                operator.token_type,
                *left,
                *right,
                r,
                old(reporter).reports(),
                final(reporter).reports(),
                *expression,
            ),
    {
        let r = match self.check_number_operand(reporter, expression, right) {
            Ok(n) => n,
            Err(u) => {
                return Err(u);
            },
        };
        let l = match self.check_number_operand(reporter, expression, left) {
            Ok(n) => n,
            Err(u) => {
                return Err(u);
            },
        };
        match operator.token_type {
            TokenType::Minus => Ok(LoxType::Number(l.minus(r))),
            TokenType::Slash => Ok(LoxType::Number(l.divided_by(r))),
            TokenType::Star => Ok(LoxType::Number(l.times(r))),
            TokenType::Greater => Ok(LoxType::Boolean(l.greater(r))),
            TokenType::GreaterEqual => Ok(LoxType::Boolean(l.greater_equal(r))),
            TokenType::Less => Ok(LoxType::Boolean(l.less(r))),
            TokenType::LessEqual => Ok(LoxType::Boolean(l.less_equal(r))),
            _ => self.fail(reporter, expression, "Unsupported operator"),
        }
    }

    /// Applies `operator` to the values `left` and `right`.
    fn apply_binary<'a, N: Number, R: Reporter>(
        &self,
        reporter: &mut R,
        expression: &Expr,
        operator: &Token,
        left: &LoxType<'a, N>,
        right: &LoxType<'a, N>,
    ) -> (r: Result<LoxType<'a, N>, Unwind<'a, N>>)
        ensures
            reported(old(reporter).reports(), final(reporter).reports(), r),
            !(r matches Err(Unwind::WithResult(_))),
            binary_outcome(
                operator.token_type,
                *left,
                *right,
                r,
                old(reporter).reports(),
                final(reporter).reports(),
                *expression,
            ),
    {
        match operator.token_type {
            TokenType::Plus => match (left, right) {
                (LoxType::Number(l), LoxType::Number(r)) => Ok(LoxType::Number(l.plus(*r))),
                (LoxType::String(l), LoxType::String(r)) => {
                    let mut s = String::new();
                    s.append(l.as_str());
                    s.append(r.as_str());
                    Ok(LoxType::String(s))
                },
                _ => self.fail(reporter, expression, "Operands must be two numbers or two strings"),
            },
            TokenType::EqualEqual => Ok(LoxType::Boolean(is_equal(left, right))),
            TokenType::BangEqual => Ok(LoxType::Boolean(!is_equal(left, right))),
            _ => self.evaluate_numeric(reporter, expression, operator, left, right),
        }
    }

    fn evaluate_expr_binary<'a, N: Number, R: Reporter>(
        &self,
        heap: &mut Heap<'a, N>,
        reporter: &mut R,
        environment: Environment,
        expression: &'a Expr,
        left: &'a Box<Expr>,
        operator: &'a Token,
        right: &'a Box<Expr>,
        fuel: u64,
    ) -> (r: Result<LoxType<'a, N>, Unwind<'a, N>>)
        requires
            expression matches Expr::Binary { left: l, operator: o, right: rt, .. } && l == *left
                && o == *operator && rt == *right,
        ensures
            reported(old(reporter).reports(), final(reporter).reports(), r),
            !(r matches Err(Unwind::WithResult(_))),
            expr_outcome(
                self.depths@,
                environment,
                *expression,
                run_state(*old(heap), old(reporter).reports()),
                r,
                run_state(*final(heap), final(reporter).reports()), fuel as nat,
            ),
        decreases fuel, 1 + max2(expr_height(**left), expr_height(**right)), 1int,
    {
        let ghost start = reporter.reports();
        let ghost st0 = run_state(*heap, reporter.reports());
        let lr = self.evaluate_expr(heap, reporter, environment, left, fuel);
        let ghost lr_view = lr;
        let ghost mid = reporter.reports();
        let ghost st1 = run_state(*heap, reporter.reports());
        let left_value = match lr {
            Ok(v) => v,
            Err(u) => {
                proof {
                    if true {
                        let t1 = choose|t: RunTrace<'a, N>| valid_expr(self.depths@, environment, **left, st0, t, fuel as nat) && t.result() == lr_view && t.state() == st1;
                        let t = RunTrace::Node {
                            result: lr_view,
                            state: st1,
                            first: Box::new(t1),
                            second: Box::new(t1),
                        };
                        assert(valid_expr(self.depths@, environment, *expression, st0, t, fuel as nat));
                    }
                }
                return Err(u);
            },
        };
        let rr = self.evaluate_expr(heap, reporter, environment, right, fuel);
        let ghost rr_view = rr;
        let ghost mid2 = reporter.reports();
        let ghost st2 = run_state(*heap, reporter.reports());
        proof {
            lemma_extends_trans(start, mid, mid2);
            if let Some(m) = error_message(rr) {
                lemma_error_later(start, mid, mid2, m);
            }
        }
        let right_value = match rr {
            Ok(v) => v,
            Err(u) => {
                proof {
                    if true {
                        let t1 = choose|t: RunTrace<'a, N>| valid_expr(self.depths@, environment, **left, st0, t, fuel as nat) && t.result() == lr_view && t.state() == st1;
                        let t2 = choose|t: RunTrace<'a, N>| valid_expr(self.depths@, environment, **right, st1, t, fuel as nat) && t.result() == rr_view && t.state() == st2;
                        let t = RunTrace::Node {
                            result: rr_view,
                            state: st2,
                            first: Box::new(t1),
                            second: Box::new(t2),
                        };
                        assert(valid_expr(self.depths@, environment, *expression, st0, t, fuel as nat));
                    }
                }
                return Err(u);
            },
        };
        let r = self.apply_binary(reporter, expression, operator, &left_value, &right_value);
        proof {
            lemma_extends_trans(start, mid2, reporter.reports());
            if let Some(m) = error_message(r) {
                lemma_error_later(start, mid2, reporter.reports(), m);
            }
            if true {
                let t1 = choose|t: RunTrace<'a, N>| valid_expr(self.depths@, environment, **left, st0, t, fuel as nat) && t.result() == lr_view && t.state() == st1;
                let t2 = choose|t: RunTrace<'a, N>| valid_expr(self.depths@, environment, **right, st1, t, fuel as nat) && t.result() == rr_view && t.state() == st2;
                let t = RunTrace::Node {
                    result: r,
                    state: run_state(*heap, reporter.reports()),
                    first: Box::new(t1),
                    second: Box::new(t2),
                };
                assert(valid_expr(self.depths@, environment, *expression, st0, t, fuel as nat));
            }
        }
        r
    }
}

impl<'d> Interpreter<'d> {
    /// Calls the value of `callee` with the values of `arguments`.
    fn evaluate_expr_call<'a, N: Number, R: Reporter>(
        &self,
        heap: &mut Heap<'a, N>,
        reporter: &mut R,
        environment: Environment,
        expression: &'a Expr,
        callee: &'a Box<Expr>,
        arguments: &'a Vec<Expr>,
        fuel: u64,
    ) -> (r: Result<LoxType<'a, N>, Unwind<'a, N>>)
        requires
            expression matches Expr::Call { callee: c, arguments: a, .. } && c == *callee && a
                == *arguments,
        ensures
            reported(old(reporter).reports(), final(reporter).reports(), r),
            !(r matches Err(Unwind::WithResult(_))),
            expr_outcome(
                self.depths@,
                environment,
                *expression,
                run_state(*old(heap), old(reporter).reports()),
                r,
                run_state(*final(heap), final(reporter).reports()),
                fuel as nat,
            ),
        decreases fuel, 1 + max2(expr_height(**callee), exprs_height(arguments@)), 1int,
    {
        let ghost start = reporter.reports();
        let ghost st0 = run_state(*heap, reporter.reports());
        let callee_value = self.evaluate_expr(heap, reporter, environment, callee, fuel);
        let ghost st1 = run_state(*heap, reporter.reports());
        let ghost tc = choose|t: RunTrace<'a, N>| valid_expr(self.depths@, environment, **callee, st0, t, fuel as nat) && t.result() == callee_value && t.state() == st1;
        let actual_callee = match callee_value {
            Ok(v) => v,
            Err(u) => {
                proof {
                    let t = RunTrace::Node { result: Err(u), state: st1, first: Box::new(tc), second: Box::new(tc) };
                    assert(valid_expr(self.depths@, environment, *expression, st0, t, fuel as nat));
                }
                return Err(u);
            },
        };
        let mut args: Vec<LoxType<'a, N>> = Vec::new();
        let ghost mut ta: RunTrace<'a, N> = RunTrace::Leaf {
            result: Ok::<LoxType<'a, N>, Unwind<'a, N>>(LoxType::Nil),
            state: st1,
        };
        proof {
            assert(arguments@.take(0) =~= Seq::<Expr>::empty());
            assert(args@ =~= argument_values(ta, 0));
        }
        let mut i: usize = 0;
        while i < arguments.len()
            invariant
                0 <= i <= arguments.len(),
                extends(start, reporter.reports()),
                start == old(reporter).reports(),
                st0 == run_state(*old(heap), old(reporter).reports()),
                expression matches Expr::Call { callee: c, arguments: a, .. } && c == *callee && a
                    == *arguments,
                valid_expr(self.depths@, environment, **callee, st0, tc, fuel as nat),
                tc.result() == Ok::<LoxType<'a, N>, Unwind<'a, N>>(actual_callee),
                tc.state() == st1,
                valid_exprs(self.depths@, environment, arguments@.take(i as int), st1, ta, fuel as nat),
                ta.result() == Ok::<LoxType<'a, N>, Unwind<'a, N>>(LoxType::Nil),
                ta.state() == run_state(*heap, reporter.reports()),
                args@ == argument_values(ta, i as nat),
            decreases arguments.len() - i,
        {
            proof {
                lemma_exprs_height(arguments@, i as int);
            }
            let ghost before = reporter.reports();
            let ghost sti = run_state(*heap, reporter.reports());
            let value = self.evaluate_expr(heap, reporter, environment, &arguments[i], fuel);
            proof {
                lemma_extends_trans(start, before, reporter.reports());
                if let Some(m) = error_message(value) {
                    lemma_error_later(start, before, reporter.reports(), m);
                }
                let ti = choose|t: RunTrace<'a, N>| valid_expr(self.depths@, environment, arguments@[i as int], sti, t, fuel as nat) && t.result() == value && t.state() == run_state(*heap, reporter.reports());
                let next = RunTrace::Node {
                    result: if value is Ok {
                        Ok::<LoxType<'a, N>, Unwind<'a, N>>(LoxType::Nil)
                    } else {
                        value
                    },
                    state: run_state(*heap, reporter.reports()),
                    first: Box::new(ta),
                    second: Box::new(ti),
                };
                assert(arguments@.take(i + 1).drop_last() =~= arguments@.take(i as int));
                assert(arguments@.take(i + 1)[i as int] == arguments@[i as int]);
                assert(valid_exprs(self.depths@, environment, arguments@.take(i + 1), st1, next, fuel as nat));
                ta = next;
            }
            match value {
                Ok(v) => {
                    args.push(v);
                    proof {
                        assert(args@ =~= argument_values(ta, (i + 1) as nat));
                    }
                },
                Err(u) => {
                    proof {
                        let full = lemma_exprs_stop(self.depths@, environment, arguments@, i + 1, st1, ta, fuel as nat);
                        let inner = RunTrace::Node { result: Err(u), state: full.state(), first: Box::new(full), second: Box::new(full) };
                        let t = RunTrace::Node { result: Err(u), state: full.state(), first: Box::new(tc), second: Box::new(inner) };
                        assert(valid_expr(self.depths@, environment, *expression, st0, t, fuel as nat));
                    }
                    return Err(u);
                },
            }
            i = i + 1;
        }
        proof {
            assert(arguments@.take(i as int) =~= arguments@);
        }
        let ghost before = reporter.reports();
        let ghost st2 = run_state(*heap, reporter.reports());
        let r = self.call_function(heap, reporter, actual_callee, callee, args, fuel);
        proof {
            lemma_extends_trans(start, before, reporter.reports());
            if let Some(m) = error_message(r) {
                lemma_error_later(start, before, reporter.reports(), m);
            }
            let tcall = choose|t: RunTrace<'a, N>| valid_call(self.depths@, actual_callee, **callee, argument_values(ta, arguments@.len()), st2, t, fuel as nat) && t.result() == r && t.state() == run_state(*heap, reporter.reports());
            let inner = RunTrace::Node { result: r, state: tcall.state(), first: Box::new(ta), second: Box::new(tcall) };
            let t = RunTrace::Node { result: r, state: tcall.state(), first: Box::new(tc), second: Box::new(inner) };
            assert(valid_expr(self.depths@, environment, *expression, st0, t, fuel as nat));
        }
        r
    }

    /// An error, reported at `expression`, where `arity` arguments were expected
    /// but `count` were given.
    fn check_arity<'a, N: Number, R: Reporter>(
        &self,
        reporter: &mut R,
        expression: &Expr,
        arity: usize,
        count: usize,
    ) -> (r: Result<(), Unwind<'a, N>>)
        ensures
            reported(old(reporter).reports(), final(reporter).reports(), r),
            arity == count <==> r is Ok,
            arity == count ==> final(reporter).reports() == old(reporter).reports(),
            arity != count ==> failed_at(
                r,
                old(reporter).reports(),
                final(reporter).reports(),
                *expression,
                arity_message(arity as nat, count as nat),
            ),
    {
        if arity != count {
            let mut message = String::from_str("Expected ");
            lox_type::push_decimal(&mut message, arity);
            message.append(" arguments but got ");
            lox_type::push_decimal(&mut message, count);
            Err(self.add_diagnostic(reporter, expression, message))
        } else {
            Ok(())
        }
    }

    /// Calls `callee` with `arguments`: a function, a native function or a class.
    /// An error, reported at `expression`, for any other value, where the number of
    /// arguments is not the callee's, or where calls nest too deeply.
    fn call_function<'a, N: Number, R: Reporter>(
        &self,
        heap: &mut Heap<'a, N>,
        reporter: &mut R,
        callee: LoxType<'a, N>,
        expression: &'a Expr,
        arguments: Vec<LoxType<'a, N>>,
        fuel: u64,
    ) -> (r: Result<LoxType<'a, N>, Unwind<'a, N>>)
        ensures
            reported(old(reporter).reports(), final(reporter).reports(), r),
            !(r matches Err(Unwind::WithResult(_))),
            match callee_arity(old(heap).classes_view(), callee) {
                Some(n) => n != arguments.len() ==> {
                    &&& failed_at(
                        r,
                        old(reporter).reports(),
                        final(reporter).reports(),
                        *expression,
                        arity_message(n, arguments.len() as nat),
                    )
                    &&& *final(heap) == *old(heap)
                },
                None => {
                    &&& failed_at(
                        r,
                        old(reporter).reports(),
                        final(reporter).reports(),
                        *expression,
                        "Can only call functions and classes"@,
                    )
                    &&& *final(heap) == *old(heap)
                },
            },
            call_outcome(
                self.depths@,
                callee,
                *expression,
                arguments@,
                run_state(*old(heap), old(reporter).reports()),
                r,
                run_state(*final(heap), final(reporter).reports()),
                fuel as nat,
            ),
        decreases fuel, 0nat, 2int,
    {
        let ghost st0 = run_state(*heap, reporter.reports());
        let r = match callee {
            LoxType::Function { function } => {
                match self.check_arity(reporter, expression, function.arity(), arguments.len()) {
                    Err(u) => Err(u),
                    Ok(()) => if fuel == 0 {
                        self.fail(reporter, expression, "Stack overflow")
                    } else {
                        let r = self.call_lox_function(heap, reporter, function, &arguments, fuel);
                        proof {
                            let tb = choose|t: RunTrace<'a, N>| valid_stmts(self.depths@, call_environment(function, st0), function.declaration.body@, call_state(function, arguments@, st0), t, (fuel - 1) as nat) && call_ended(function, st0, t, r, run_state(*heap, reporter.reports()));
                            let t = RunTrace::Node { result: r, state: run_state(*heap, reporter.reports()), first: Box::new(tb), second: Box::new(tb) };
                            reveal(valid_stmts);
                            reveal(valid_stmt);
                            assert(valid_call(self.depths@, callee, *expression, arguments@, st0, t, fuel as nat));
                        }
                        return r;
                    },
                }
            },
            LoxType::NativeFunction { callable, .. } => {
                match self.check_arity(reporter, expression, <Clock as NativeCallable<'a, N>>::arity(&callable), arguments.len()) {
                    Err(u) => Err(u),
                    Ok(()) => match <Clock as NativeCallable<'a, N>>::call(&callable, arguments) {
                        Ok(v) => Ok(v),
                        Err(Unwind::WithResult(v)) => Ok(v),
                        Err(Unwind::WithError(m)) => Err(self.add_diagnostic(reporter, expression, m)),
                    },
                }
            },
            LoxType::Class { class } => {
                match self.check_arity(reporter, expression, class.arity(heap), arguments.len()) {
                    Err(u) => Err(u),
                    Ok(()) => if fuel == 0 {
                        self.fail(reporter, expression, "Stack overflow")
                    } else {
                        let r = self.call_class(heap, reporter, class, &arguments, fuel);
                        proof {
                            let t = choose|t: RunTrace<'a, N>| valid_class_call(self.depths@, class, arguments@, st0, t, fuel as nat) && t.result() == r && t.state() == run_state(*heap, reporter.reports());
                            reveal(valid_stmts);
                            reveal(valid_stmt);
                            assert(valid_call(self.depths@, callee, *expression, arguments@, st0, t, fuel as nat));
                        }
                        return r;
                    },
                }
            },
            _ => self.fail(reporter, expression, "Can only call functions and classes"),
        };
        proof {
            let t = RunTrace::Leaf { result: r, state: run_state(*heap, reporter.reports()) };
            assert(valid_call(self.depths@, callee, *expression, arguments@, st0, t, fuel as nat));
        }
        r
    }

    /// Runs the body of `function` in a new frame, nested in its closure, that
    /// binds its parameters to `arguments`.  Gives what it returns; an
    /// initialiser gives its instance.
    fn call_lox_function<'a, N: Number, R: Reporter>(
        &self,
        heap: &mut Heap<'a, N>,
        reporter: &mut R,
        function: Function<'a>,
        arguments: &Vec<LoxType<'a, N>>,
        fuel: u64,
    ) -> (r: Result<LoxType<'a, N>, Unwind<'a, N>>)
        requires
            fuel > 0,
        ensures
            reported(old(reporter).reports(), final(reporter).reports(), r),
            !(r matches Err(Unwind::WithResult(_))),
            exists|t: RunTrace<'a, N>|
                valid_stmts(
                    self.depths@,
                    call_environment(function, run_state(*old(heap), old(reporter).reports())),
                    function.declaration.body@,
                    call_state(function, arguments@, run_state(*old(heap), old(reporter).reports())),
                    t,
                    (fuel - 1) as nat,
                ) && call_ended(
                    function,
                    run_state(*old(heap), old(reporter).reports()),
                    t,
                    r,
                    run_state(*final(heap), final(reporter).reports()),
                ),
        decreases fuel, 0nat, 0int,
    {
        let ghost st0 = run_state(*heap, reporter.reports());
        let environment = Environment::new_with_enclosing(heap, &function.closure);
        let params = &function.declaration.params;
        let ghost frames0 = st0.frames.push(FrameView { enclosing: Some(function.closure.frame), values: Seq::empty() });
        let mut i: usize = 0;
        while i < params.len() && i < arguments.len()
            invariant
                0 <= i <= params.len(),
                i <= arguments.len(),
                params == &function.declaration.params,
                environment == call_environment(function, st0),
                heap.frames_view() == bind_params(frames0, st0.frames.len() as int, params@, arguments@, i as nat),
                heap.classes_view() == st0.classes,
                heap.instances_view() == st0.instances,
                reporter.reports() == st0.reports,
                st0.frames.len() <= usize::MAX,
            decreases params.len() - i,
        {
            let value = arguments[i].clone_value();
            environment.define(heap, params[i].lexeme.as_str(), value);
            proof {
                assert(environment.frame as int == st0.frames.len());
                assert(value.view() == arguments@[i as int].view());
            }
            i = i + 1;
        }
        proof {
            assert(run_state(*heap, reporter.reports()) == call_state(function, arguments@, st0));
        }
        let result = self.interpret_statements(
            heap,
            reporter,
            environment,
            &function.declaration.body,
            fuel - 1,
        );
        let r = match result {
            Err(Unwind::WithError(message)) => Err(Unwind::WithError(message)),
            Err(Unwind::WithResult(value)) => Ok(
                self.return_this_or(heap, &function, &environment, value),
            ),
            Ok(()) => Ok(self.return_this_or(heap, &function, &environment, LoxType::Nil)),
        };
        proof {
            let t = choose|t: RunTrace<'a, N>| valid_stmts(self.depths@, environment, function.declaration.body@, call_state(function, arguments@, st0), t, (fuel - 1) as nat) && t.result() == stmt_result(result) && match stmt_result(result) {
                Err(Unwind::WithError(m)) => run_state(*heap, reporter.reports()) == RunState {
                    reports: t.state().reports.push(crate::reporter::message(m@)),
                    ..t.state()
                },
                _ => run_state(*heap, reporter.reports()) == t.state(),
            };
            assert(call_ended(function, st0, t, r, run_state(*heap, reporter.reports())));
        }
        r
    }

    /// What a call of `function` gives back: `this` for an initialiser, else `default`.
    fn return_this_or<'a, N: Number>(
        &self,
        heap: &Heap<'a, N>,
        function: &Function<'a>,
        environment: &Environment,
        default: LoxType<'a, N>,
    ) -> (r: LoxType<'a, N>)
        ensures
            r.view() == (if function.is_initialiser {
                match environment.target(heap.frames_view(), Some(1)) {
                    Some(f) => match environment::binding_value(heap.frames_view()[f].values, "this"@) {
                        Some(v) => v,
                        None => default.view(),
                    },
                    None => default.view(),
                }
            } else {
                default.view()
            }),
    {
        if function.is_initialiser {
            match environment.get_at(heap, Some(1), "this") {
                Ok(this) => this,
                Err(_) => default,
            }
        } else {
            default
        }
    }

    /// Makes an instance of `class` and runs its initialiser, if it has one, on it.
    fn call_class<'a, N: Number, R: Reporter>(
        &self,
        heap: &mut Heap<'a, N>,
        reporter: &mut R,
        class: Class<'a>,
        arguments: &Vec<LoxType<'a, N>>,
        fuel: u64,
    ) -> (r: Result<LoxType<'a, N>, Unwind<'a, N>>)
        requires
            fuel > 0,
        ensures
            reported(old(reporter).reports(), final(reporter).reports(), r),
            !(r matches Err(Unwind::WithResult(_))),
            r is Ok ==> (r matches Ok(LoxType::Instance { instance }) && instance.class == class),
            exists|t: RunTrace<'a, N>|
                valid_class_call(
                    self.depths@,
                    class,
                    arguments@,
                    run_state(*old(heap), old(reporter).reports()),
                    t,
                    fuel as nat,
                ) && t.result() == r && t.state() == run_state(*final(heap), final(reporter).reports()),
        decreases fuel, 0nat, 1int,
    {
        let ghost st0 = run_state(*heap, reporter.reports());
        let instance = instance::Instance::new(heap, class);
        let value = LoxType::Instance { instance };
        let found = LoxType::find_instance_method(heap, &value, "init");
        match found {
            Some(LoxType::Function { function }) => {
                let ghost bound = run_state(*heap, reporter.reports());
                let r2 = self.call_lox_function(heap, reporter, function, arguments, fuel);
                let r = match r2 {
                    Err(Unwind::WithError(message)) => Err(Unwind::WithError(message)),
                    _ => Ok(value),
                };
                proof {
                    let tb = choose|t: RunTrace<'a, N>| valid_stmts(self.depths@, call_environment(function, bound), function.declaration.body@, call_state(function, arguments@, bound), t, (fuel - 1) as nat) && call_ended(function, bound, t, r2, run_state(*heap, reporter.reports()));
                    let t = RunTrace::Node {
                        result: r,
                        state: run_state(*heap, reporter.reports()),
                        first: Box::new(tb),
                        second: Box::new(RunTrace::Leaf { result: r2, state: run_state(*heap, reporter.reports()) }),
                    };
                    reveal(valid_stmts);
                    reveal(valid_stmt);
                    assert(valid_class_call(self.depths@, class, arguments@, st0, t, fuel as nat));
                }
                r
            },
            _ => {
                proof {
                    let t = RunTrace::Leaf { result: Ok(value), state: run_state(*heap, reporter.reports()) };
                    assert(valid_class_call(self.depths@, class, arguments@, st0, t, fuel as nat));
                }
                Ok(value)
            },
        }
    }

    /// The property `name` of the value of `object`; an error, reported at `object`,
    /// where it is not an instance or has no such property.
    fn evaluate_expr_get<'a, N: Number, R: Reporter>(
        &self,
        heap: &mut Heap<'a, N>,
        reporter: &mut R,
        environment: Environment,
        expression: &'a Expr,
        object: &'a Box<Expr>,
        name: &'a Token,
        fuel: u64,
    ) -> (r: Result<LoxType<'a, N>, Unwind<'a, N>>)
        requires
            (expression matches Expr::Get { object: o, name: n, .. } && o == *object && n == *name)
                || (expression matches Expr::InvalidGet { object: o, name: n, .. } && o == *object
                && n == *name),
        ensures
            reported(old(reporter).reports(), final(reporter).reports(), r),
            !(r matches Err(Unwind::WithResult(_))),
            expr_outcome(
                self.depths@,
                environment,
                *expression,
                run_state(*old(heap), old(reporter).reports()),
                r,
                run_state(*final(heap), final(reporter).reports()),
                fuel as nat,
            ),
        decreases fuel, 1 + expr_height(**object), 1int,
    {
        let ghost start = reporter.reports();
        let ghost st0 = run_state(*heap, reporter.reports());
        let value = self.evaluate_expr(heap, reporter, environment, object, fuel);
        let ghost st1 = run_state(*heap, reporter.reports());
        let ghost tc = choose|t: RunTrace<'a, N>| valid_expr(self.depths@, environment, **object, st0, t, fuel as nat) && t.result() == value && t.state() == st1;
        let value = match value {
            Ok(v) => v,
            Err(u) => {
                proof {
                    let t = RunTrace::Node { result: Err(u), state: st1, first: Box::new(tc), second: Box::new(tc) };
                    assert(valid_expr(self.depths@, environment, *expression, st0, t, fuel as nat));
                }
                return Err(u);
            },
        };
        let got = LoxType::get_instance_value(heap, &value, name.lexeme.as_str());
        let r = match got {
            Ok(v) => Ok(v),
            Err(Unwind::WithResult(v)) => Ok(v),
            Err(Unwind::WithError(message)) => {
                let ghost mid = reporter.reports();
                let u = self.add_diagnostic(reporter, &**object, message);
                proof {
                    lemma_extends_trans(start, mid, reporter.reports());
                    lemma_error_later(start, mid, reporter.reports(), u->WithError_0@);
                }
                Err(u)
            },
        };
        proof {
            let t = RunTrace::Node { result: r, state: run_state(*heap, reporter.reports()), first: Box::new(tc), second: Box::new(tc) };
            assert(get_outcome(value, name.lexeme@, st1, r, run_state(*heap, reporter.reports()), **object));
            assert(valid_expr(self.depths@, environment, *expression, st0, t, fuel as nat));
        }
        r
    }

    /// The value a literal token carries.
    fn evaluate_expr_literal<'a, N: Number, R: Reporter>(
        &self,
        reporter: &mut R,
        expression: &'a Expr,
        token: &'a Token,
    ) -> (r: Result<LoxType<'a, N>, Unwind<'a, N>>)
        ensures
            reported(old(reporter).reports(), final(reporter).reports(), r),
            !(r matches Err(Unwind::WithResult(_))),
            literal_outcome(*token, r, old(reporter).reports(), final(reporter).reports(), *expression),
            match token.literal {
                Some(Literal::String(s)) => r matches Ok(LoxType::String(t)) && t@ == s@,
                Some(Literal::True) => r matches Ok(LoxType::Boolean(b)) && b,
                Some(Literal::False) => r matches Ok(LoxType::Boolean(b)) && !b,
                Some(Literal::Nil) => r matches Ok(LoxType::Nil),
                Some(Literal::Number(_)) => r matches Ok(LoxType::Number(_)),
                None => error_message(r) == Some("Unhandled literal"@),
            },
    {
        match &token.literal {
            Some(Literal::Number(digits)) => {
                let text = digits.as_str();
                let n = N::from_literal(text);
                proof {
                    assert(text@ == digits@ && call_ensures(N::from_literal, (text,), n));
                    assert(exists|t: &str| t@ == digits@ && #[trigger] call_ensures(N::from_literal, (t,), n));
                }
                let r: Result<LoxType<'a, N>, Unwind<'a, N>> = Ok(LoxType::Number(n));
                assert(token.literal == Some(Literal::Number(*digits)));
                assert(r matches Ok(LoxType::Number(x)) && x == n);
                assert(exists|t: &str| t@ == (*digits)@ && #[trigger] call_ensures(N::from_literal, (t,), n));
                assert(literal_outcome(*token, r, reporter.reports(), reporter.reports(), *expression));
                r
            },
            Some(Literal::String(s)) => Ok(LoxType::String(s.clone())),
            Some(Literal::True) => Ok(LoxType::Boolean(true)),
            Some(Literal::False) => Ok(LoxType::Boolean(false)),
            Some(Literal::Nil) => Ok(LoxType::Nil),
            None => self.fail(reporter, expression, "Unhandled literal"),
        }
    }

    /// `or` gives its left value where that is truthy, `and` where it is not;
    /// otherwise each gives its right value.
    fn evaluate_expr_logical<'a, N: Number, R: Reporter>(
        &self,
        heap: &mut Heap<'a, N>,
        reporter: &mut R,
        environment: Environment,
        expression: &'a Expr,
        left: &'a Box<Expr>,
        operator: &'a Token,
        right: &'a Box<Expr>,
        fuel: u64,
    ) -> (r: Result<LoxType<'a, N>, Unwind<'a, N>>)
        requires
            expression matches Expr::Logical { left: l, operator: o, right: rt, .. } && l == *left
                && o == *operator && rt == *right,
        ensures
            reported(old(reporter).reports(), final(reporter).reports(), r),
            !(r matches Err(Unwind::WithResult(_))),
            expr_outcome(
                self.depths@,
                environment,
                *expression,
                run_state(*old(heap), old(reporter).reports()),
                r,
                run_state(*final(heap), final(reporter).reports()), fuel as nat,
            ),
        decreases fuel, 1 + max2(expr_height(**left), expr_height(**right)), 1int,
    {
        let ghost start = reporter.reports();
        let ghost st0 = run_state(*heap, reporter.reports());
        let lr = self.evaluate_expr(heap, reporter, environment, left, fuel);
        let ghost lr_view = lr;
        let ghost mid = reporter.reports();
        let ghost st1 = run_state(*heap, reporter.reports());
        let left_value = match lr {
            Ok(v) => v,
            Err(u) => {
                proof {
                    if true {
                        let t1 = choose|t: RunTrace<'a, N>| valid_expr(self.depths@, environment, **left, st0, t, fuel as nat) && t.result() == lr_view && t.state() == st1;
                        let t = RunTrace::Node {
                            result: lr_view,
                            state: st1,
                            first: Box::new(t1),
                            second: Box::new(t1),
                        };
                        assert(valid_expr(self.depths@, environment, *expression, st0, t, fuel as nat));
                    }
                }
                return Err(u);
            },
        };
        let decided = if operator.token_type == TokenType::Or {
            is_truthy(&left_value)
        } else {
            !is_truthy(&left_value)
        };
        if decided {
            proof {
                if true {
                    let t1 = choose|t: RunTrace<'a, N>| valid_expr(self.depths@, environment, **left, st0, t, fuel as nat) && t.result() == lr_view && t.state() == st1;
                    let t = RunTrace::Node {
                        result: lr_view,
                        state: st1,
                        first: Box::new(t1),
                        second: Box::new(t1),
                    };
                    assert(valid_expr(self.depths@, environment, *expression, st0, t, fuel as nat));
                }
            }
            return Ok(left_value);
        }
        let r = self.evaluate_expr(heap, reporter, environment, right, fuel);
        proof {
            lemma_extends_trans(start, mid, reporter.reports());
            if let Some(m) = error_message(r) {
                lemma_error_later(start, mid, reporter.reports(), m);
            }
            if true {
                let t1 = choose|t: RunTrace<'a, N>| valid_expr(self.depths@, environment, **left, st0, t, fuel as nat) && t.result() == lr_view && t.state() == st1;
                let t2 = choose|t: RunTrace<'a, N>| valid_expr(self.depths@, environment, **right, st1, t, fuel as nat) && t.result() == r && t.state() == run_state(*heap, reporter.reports());
                let t = RunTrace::Node {
                    result: r,
                    state: run_state(*heap, reporter.reports()),
                    first: Box::new(t1),
                    second: Box::new(t2),
                };
                assert(valid_expr(self.depths@, environment, *expression, st0, t, fuel as nat));
            }
        }
        r
    }

    /// Sets the field `name` of the value of `object` to the value of `value`, and
    /// gives that value; an error, reported at `object`, where it is not an instance.
    fn evaluate_expr_set<'a, N: Number, R: Reporter>(
        &self,
        heap: &mut Heap<'a, N>,
        reporter: &mut R,
        environment: Environment,
        expression: &'a Expr,
        object: &'a Box<Expr>,
        name: &'a Token,
        value: &'a Box<Expr>,
        fuel: u64,
    ) -> (r: Result<LoxType<'a, N>, Unwind<'a, N>>)
        requires
            expression matches Expr::SetProperty { object: o, name: n, value: v, .. } && o
                == *object && n == *name && v == *value,
        ensures
            reported(old(reporter).reports(), final(reporter).reports(), r),
            !(r matches Err(Unwind::WithResult(_))),
            expr_outcome(
                self.depths@,
                environment,
                *expression,
                run_state(*old(heap), old(reporter).reports()),
                r,
                run_state(*final(heap), final(reporter).reports()),
                fuel as nat,
            ),
        decreases fuel, 1 + max2(expr_height(**object), expr_height(**value)), 1int,
    {
        let ghost start = reporter.reports();
        let ghost st0 = run_state(*heap, reporter.reports());
        let instance = self.evaluate_expr(heap, reporter, environment, object, fuel);
        let ghost st1 = run_state(*heap, reporter.reports());
        let ghost tc = choose|t: RunTrace<'a, N>| valid_expr(self.depths@, environment, **object, st0, t, fuel as nat) && t.result() == instance && t.state() == st1;
        let instance = match instance {
            Ok(v) => v,
            Err(u) => {
                proof {
                    let t = RunTrace::Node { result: Err(u), state: st1, first: Box::new(tc), second: Box::new(tc) };
                    assert(valid_expr(self.depths@, environment, *expression, st0, t, fuel as nat));
                }
                return Err(u);
            },
        };
        let ghost mid = reporter.reports();
        let new_value = self.evaluate_expr(heap, reporter, environment, value, fuel);
        proof {
            lemma_extends_trans(start, mid, reporter.reports());
            if let Some(m) = error_message(new_value) {
                lemma_error_later(start, mid, reporter.reports(), m);
            }
        }
        let ghost st2 = run_state(*heap, reporter.reports());
        let ghost tv = choose|t: RunTrace<'a, N>| valid_expr(self.depths@, environment, **value, st1, t, fuel as nat) && t.result() == new_value && t.state() == st2;
        let new_value = match new_value {
            Ok(v) => v,
            Err(u) => {
                proof {
                    let t = RunTrace::Node { result: Err(u), state: st2, first: Box::new(tc), second: Box::new(tv) };
                    assert(valid_expr(self.depths@, environment, *expression, st0, t, fuel as nat));
                }
                return Err(u);
            },
        };
        let copy = new_value.clone_value();
        let r = match LoxType::set_instance_value(heap, &instance, name.lexeme.as_str(), copy) {
            Err(Unwind::WithError(message)) => {
                let ghost before = reporter.reports();
                let u = self.add_diagnostic(reporter, &**object, message);
                proof {
                    lemma_extends_trans(start, before, reporter.reports());
                    lemma_error_later(start, before, reporter.reports(), u->WithError_0@);
                }
                Err(u)
            },
            _ => Ok(new_value),
        };
        proof {
            let t = RunTrace::Node { result: r, state: run_state(*heap, reporter.reports()), first: Box::new(tc), second: Box::new(tv) };
            assert(set_outcome(instance, name.lexeme@, new_value, st2, r, run_state(*heap, reporter.reports()), **object));
            assert(valid_expr(self.depths@, environment, *expression, st0, t, fuel as nat));
        }
        r
    }

    /// The method `method` of the superclass, bound to `this`; an error, reported
    /// at `method`, where there is none.
    fn evaluate_expr_super<'a, N: Number, R: Reporter>(
        &self,
        heap: &mut Heap<'a, N>,
        reporter: &mut R,
        environment: Environment,
        id: usize,
        method: &'a Token,
    ) -> (r: Result<LoxType<'a, N>, Unwind<'a, N>>)
        ensures
            reported(old(reporter).reports(), final(reporter).reports(), r),
            !(r matches Err(Unwind::WithResult(_))),
            super_outcome(
                self.depths@,
                environment,
                id,
                *method,
                run_state(*old(heap), old(reporter).reports()),
                r,
                run_state(*final(heap), final(reporter).reports()),
            ),
    {
        let depth = self.depth_of(id);
        let superclass = match environment.get_at(heap, depth, "super") {
            Ok(v) => v,
            Err(Unwind::WithResult(v)) => v,
            Err(Unwind::WithError(message)) => {
                return Err(self.add_diagnostic(reporter, method, message));
            },
        };
        let this_depth = match depth {
            Some(d) => if d > 0 {
                Some(d - 1)
            } else {
                Some(d)
            },
            None => None,
        };
        let object = match environment.get_at(heap, this_depth, "this") {
            Ok(v) => v,
            Err(Unwind::WithResult(v)) => v,
            Err(Unwind::WithError(message)) => {
                return Err(self.add_diagnostic(reporter, method, message));
            },
        };
        match superclass {
            LoxType::Class { class } => match class.find_method(heap, method.lexeme.as_str()) {
                Some(LoxType::Function { function }) => Ok(
                    LoxType::Function { function: function.bind_this(heap, object) },
                ),
                Some(other) => Ok(other),
                None => Err(
                    self.add_diagnostic(
                        reporter,
                        method,
                        environment::quoted_message("Undefined property '", method.lexeme.as_str()),
                    ),
                ),
            },
            _ => Err(
                self.add_diagnostic(
                    reporter,
                    method,
                    String::from_str("Superclass must be a class"),
                ),
            ),
        }
    }

    /// The instance that `this` refers to; an error, reported at `keyword`, where
    /// there is none.
    fn evaluate_expr_this<'a, N: Number, R: Reporter>(
        &self,
        heap: &mut Heap<'a, N>,
        reporter: &mut R,
        environment: Environment,
        id: usize,
        keyword: &'a Token,
    ) -> (r: Result<LoxType<'a, N>, Unwind<'a, N>>)
        ensures
            reported(old(reporter).reports(), final(reporter).reports(), r),
            !(r matches Err(Unwind::WithResult(_))),
            read_outcome(
                look_up(self.depths@, environment, old(heap).frames_view(), id, keyword.lexeme@),
                run_state(*old(heap), old(reporter).reports()),
                r,
                run_state(*final(heap), final(reporter).reports()),
                keyword.start,
                keyword.end,
            ),
    {
        match self.look_up_variable(heap, environment, id, keyword) {
            Ok(value) => Ok(value),
            Err(Unwind::WithResult(value)) => Ok(value),
            Err(Unwind::WithError(message)) => Err(self.add_diagnostic(reporter, keyword, message)),
        }
    }

    /// `-` negates a number, `!` gives whether its operand is not truthy.
    /// Applies `operator` to the value `right`: `-` negates a number, `!` gives
    /// whether the value is falsey.
    fn apply_unary<'a, N: Number, R: Reporter>(
        &self,
        reporter: &mut R,
        expression: &Expr,
        operator: &Token,
        right: &LoxType<'a, N>,
    ) -> (r: Result<LoxType<'a, N>, Unwind<'a, N>>)
        ensures
            reported(old(reporter).reports(), final(reporter).reports(), r),
            !(r matches Err(Unwind::WithResult(_))),
            unary_outcome(
                operator.token_type,
                *right,
                r,
                old(reporter).reports(),
                final(reporter).reports(),
                *expression,
            ),
    {
        match operator.token_type {
            TokenType::Minus => match self.check_number_operand(reporter, expression, right) {
                Ok(n) => Ok(LoxType::Number(n.negated())),
                Err(u) => Err(u),
            },
            TokenType::Bang => Ok(LoxType::Boolean(!is_truthy(right))),
            _ => self.fail(reporter, expression, "Unsupported operand"),
        }
    }

    fn evaluate_expr_unary<'a, N: Number, R: Reporter>(
        &self,
        heap: &mut Heap<'a, N>,
        reporter: &mut R,
        environment: Environment,
        expression: &'a Expr,
        operator: &'a Token,
        right: &'a Box<Expr>,
        fuel: u64,
    ) -> (r: Result<LoxType<'a, N>, Unwind<'a, N>>)
        requires
            expression matches Expr::Unary { operator: o, right: rt, .. } && o == *operator && rt
                == *right,
        ensures
            reported(old(reporter).reports(), final(reporter).reports(), r),
            !(r matches Err(Unwind::WithResult(_))),
            expr_outcome(
                self.depths@,
                environment,
                *expression,
                run_state(*old(heap), old(reporter).reports()),
                r,
                run_state(*final(heap), final(reporter).reports()), fuel as nat,
            ),
        decreases fuel, 1 + expr_height(**right), 1int,
    {
        let ghost start = reporter.reports();
        let ghost st0 = run_state(*heap, reporter.reports());
        let rr = self.evaluate_expr(heap, reporter, environment, right, fuel);
        let ghost rr_view = rr;
        let ghost mid = reporter.reports();
        let ghost st1 = run_state(*heap, reporter.reports());
        let right_value = match rr {
            Ok(v) => v,
            Err(u) => {
                proof {
                    if true {
                        let t1 = choose|t: RunTrace<'a, N>| valid_expr(self.depths@, environment, **right, st0, t, fuel as nat) && t.result() == rr_view && t.state() == st1;
                        let t = RunTrace::Node {
                            result: rr_view,
                            state: st1,
                            first: Box::new(t1),
                            second: Box::new(t1),
                        };
                        assert(valid_expr(self.depths@, environment, *expression, st0, t, fuel as nat));
                    }
                }
                return Err(u);
            },
        };
        let r = self.apply_unary(reporter, expression, operator, &right_value);
        proof {
            lemma_extends_trans(start, mid, reporter.reports());
            if let Some(m) = error_message(r) {
                lemma_error_later(start, mid, reporter.reports(), m);
            }
            if true {
                let t1 = choose|t: RunTrace<'a, N>| valid_expr(self.depths@, environment, **right, st0, t, fuel as nat) && t.result() == rr_view && t.state() == st1;
                let t = RunTrace::Node {
                    result: r,
                    state: run_state(*heap, reporter.reports()),
                    first: Box::new(t1),
                    second: Box::new(t1),
                };
                assert(valid_expr(self.depths@, environment, *expression, st0, t, fuel as nat));
            }
        }
        r
    }

    /// The value of the variable `name`; an error, reported at `expression`,
    /// where it is not defined.
    fn evaluate_expr_var<'a, N: Number, R: Reporter>(
        &self,
        heap: &mut Heap<'a, N>,
        reporter: &mut R,
        environment: Environment,
        expression: &'a Expr,
        id: usize,
        name: &'a Token,
    ) -> (r: Result<LoxType<'a, N>, Unwind<'a, N>>)
        ensures
            reported(old(reporter).reports(), final(reporter).reports(), r),
            !(r matches Err(Unwind::WithResult(_))),
            read_outcome(
                look_up(self.depths@, environment, old(heap).frames_view(), id, name.lexeme@),
                run_state(*old(heap), old(reporter).reports()),
                r,
                run_state(*final(heap), final(reporter).reports()),
                crate::expr::spec_start(*expression),
                crate::expr::spec_end(*expression),
            ),
    {
        match self.look_up_variable(heap, environment, id, name) {
            Ok(value) => Ok(value),
            Err(Unwind::WithResult(value)) => Ok(value),
            Err(Unwind::WithError(message)) => Err(
                self.add_diagnostic(reporter, expression, message),
            ),
        }
    }

    /// The value of `name` where the resolver found it (in the global frame
    /// where it was not resolved).
    pub fn look_up_variable<'a, N: Number>(
        &self,
        heap: &Heap<'a, N>,
        environment: Environment,
        id: usize,
        name: &Token,
    ) -> (r: Result<LoxType<'a, N>, Unwind<'a, N>>)
        ensures
            unwind::outcome(r) == match environment.target(
                heap.frames_view(),
                if self.depths@.contains_key(id) {
                    Some(self.depths@[id])
                } else {
                    None
                },
            ) {
                Some(t) => match environment::binding_value(
                    heap.frames_view()[t].values,
                    name.lexeme@,
                ) {
                    Some(v) => Ok(v),
                    None => Err(
                        unwind::UnwindView::<'a, N>::WithError(environment::undefined_variable(name.lexeme@)),
                    ),
                },
                None => Err(
                    unwind::UnwindView::<'a, N>::WithError(environment::undefined_variable(name.lexeme@)),
                ),
            },
    {
        let depth = self.depth_of(id);
        environment.get_at(heap, depth, name.lexeme.as_str())
    }
}

} // verus!
