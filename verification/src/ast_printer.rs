use crate::expr::Expr;
use crate::stmt::Stmt;
use vstd::prelude::*;

pub mod internal;

verus! {

/// Shows a statement as an s-expression, one line per statement.
pub fn print_stmt(stmt: &Stmt) -> (s: String)
    ensures
        s@ == internal::spec_print_stmt(0, *stmt),
{
    internal::print_stmt(0, stmt)
}

/// Shows an expression as an s-expression.
pub fn print_expr(expr: &Expr) -> (s: String)
    ensures
        s@ == internal::spec_print_expr(*expr),
{
    internal::print_expr(expr)
}

} // verus!
