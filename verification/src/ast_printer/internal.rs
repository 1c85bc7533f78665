use crate::expr::Expr;
use crate::stmt::{Function, Stmt};
use crate::text::{chars_of, push_char, string_of};
use crate::token::{Literal, Token};
use vstd::prelude::*;

verus! {

/// Four spaces for each level of indentation.
pub open spec fn spaces(indent: nat) -> Seq<char> {
    Seq::new(4 * indent, |i: int| ' ')
}

/// The indentation of nested statements.
pub open spec fn next_indent(indent: usize) -> usize {
    if indent < usize::MAX {
        (indent + 1) as usize
    } else {
        indent
    }
}

/// The lexemes of `tokens`, separated by single spaces.
pub open spec fn join_lexemes(tokens: Seq<Token>) -> Seq<char>
    decreases tokens.len(),
{
    if tokens.len() == 0 {
        Seq::empty()
    } else if tokens.len() == 1 {
        tokens[0].lexeme@
    } else {
        join_lexemes(tokens.drop_last()) + " "@ + tokens.last().lexeme@
    }
}

pub open spec fn drop_leading_zeros(s: Seq<char>) -> Seq<char>
    decreases s.len(),
{
    if s.len() > 0 && s[0] == '0' {
        drop_leading_zeros(s.drop_first())
    } else {
        s
    }
}

pub open spec fn drop_trailing_zeros(s: Seq<char>) -> Seq<char>
    decreases s.len(),
{
    if s.len() > 0 && s.last() == '0' {
        drop_trailing_zeros(s.drop_last())
    } else {
        s
    }
}

/// The index of the first `.` in `s` at or after `from`, or `s.len()`.
pub open spec fn dot_index(s: Seq<char>, from: int) -> int
    decreases s.len() - from,
{
    if from >= s.len() {
        s.len() as int
    } else if s[from] == '.' {
        from
    } else {
        dot_index(s, from + 1)
    }
}

/// A number literal in its shortest decimal form: the integer part without
/// leading zeros (`0` when nothing is left), and the fraction, if any digit
/// other than a trailing zero is left of it.  This is how a floating-point
/// number of at most fifteen significant digits is shown.
pub open spec fn canonical_number(lexeme: Seq<char>) -> Seq<char> {
    let dot = dot_index(lexeme, 0);
    let int_part = drop_leading_zeros(lexeme.subrange(0, dot));
    let int_text = if int_part.len() == 0 { seq!['0'] } else { int_part };
    let frac = if dot < lexeme.len() {
        drop_trailing_zeros(lexeme.subrange(dot + 1, lexeme.len() as int))
    } else {
        Seq::empty()
    };
    if frac.len() == 0 {
        int_text
    } else {
        int_text + seq!['.'] + frac
    }
}

/// How a literal token is shown.
pub open spec fn spec_literal_text(value: Token) -> Seq<char> {
    match value.literal {
        Some(Literal::Number(n)) => canonical_number(n@),
        Some(Literal::String(s)) => "\""@ + s@ + "\""@,
        Some(Literal::Nil) => "Nil"@,
        Some(Literal::False) => "false"@,
        Some(Literal::True) => "true"@,
        None => "None"@,
    }
}

pub open spec fn paren1(name: Seq<char>, e: Seq<char>) -> Seq<char> {
    "("@ + name + " "@ + e + ")"@
}

pub open spec fn paren2(name: Seq<char>, l: Seq<char>, r: Seq<char>) -> Seq<char> {
    "("@ + name + " "@ + l + " "@ + r + ")"@
}

/// Expressions shown one after the other, separated by single spaces.
pub open spec fn spec_print_exprs(es: Seq<Expr>) -> Seq<char>
    decreases es,
{
    if es.len() == 0 {
        Seq::empty()
    } else if es.len() == 1 {
        spec_print_expr(es[0])
    } else {
        spec_print_exprs(es.drop_last()) + " "@ + spec_print_expr(es.last())
    }
}

/// How an expression is shown.
pub open spec fn spec_print_expr(e: Expr) -> Seq<char>
    decreases e,
{
    match e {
        Expr::Assign { name, value, .. } => "(= "@ + name.lexeme@ + " "@ + spec_print_expr(*value)
            + ")"@,
        Expr::Binary { left, operator, right, .. } => paren2(
            operator.lexeme@,
            spec_print_expr(*left),
            spec_print_expr(*right),
        ),
        Expr::Call { callee, arguments, .. } => "(call "@ + spec_print_expr(*callee) + (if arguments.len()
            > 0 {
            " "@
        } else {
            Seq::empty()
        }) + spec_print_exprs(arguments@) + ")"@,
        Expr::Get { object, name, .. } => "("@ + spec_print_expr(*object) + "."@ + name.lexeme@
            + ")"@,
        Expr::Grouping { expression, .. } => paren1("group"@, spec_print_expr(*expression)),
        Expr::InvalidGet { object, name, .. } => "("@ + spec_print_expr(*object) + "."@
            + name.lexeme@ + ")"@,
        Expr::InvalidSuper { method, .. } => "(super "@ + method.lexeme@ + ")"@,
        Expr::Literal { value, .. } => spec_literal_text(value),
        Expr::Logical { left, operator, right, .. } => paren2(
            operator.lexeme@,
            spec_print_expr(*left),
            spec_print_expr(*right),
        ),
        Expr::SetProperty { object, name, value, .. } => "(= "@ + spec_print_expr(*object) + " "@
            + name.lexeme@ + " "@ + spec_print_expr(*value),
        Expr::Super { method, .. } => "(super "@ + method.lexeme@ + ")"@,
        Expr::This { .. } => "this"@,
        Expr::Unary { operator, right, .. } => paren1(operator.lexeme@, spec_print_expr(*right)),
        Expr::Variable { name, .. } => name.lexeme@,
    }
}

/// Statements shown one after the other.
pub open spec fn spec_print_stmts(indent: usize, ss: Seq<Stmt>) -> Seq<char>
    decreases ss,
{
    if ss.len() == 0 {
        Seq::empty()
    } else {
        spec_print_stmts(indent, ss.drop_last()) + spec_print_stmt(indent, ss.last())
    }
}

/// How a statement is shown at the given indentation.
pub open spec fn spec_print_stmt(indent: usize, s: Stmt) -> Seq<char>
    decreases s,
{
    let pad = spaces(indent as nat);
    let inner = next_indent(indent);
    match s {
        Stmt::Block { statements } => pad + "(block\n"@ + spec_print_stmts(inner, statements@) + pad
            + ")\n"@,
        Stmt::Class { name, superclass, methods } => pad + "(class "@ + name.lexeme@ + (match superclass {
            Some(sc) => " < "@ + spec_print_expr(sc),
            None => Seq::empty(),
        }) + "\n"@ + spec_print_stmts(inner, methods@) + pad + ")\n"@,
        Stmt::Expression { expression } => pad + paren1(";"@, spec_print_expr(expression)) + "\n"@,
        Stmt::Function { function } => pad + "(fun "@ + function.name.lexeme@ + "("@ + join_lexemes(
            function.params@,
        ) + ")\n"@ + spec_print_stmts(inner, function.body@) + pad + ")\n"@,
        Stmt::If { condition, then_branch, else_branch } => pad + "(if"@ + (if *else_branch is Some {
            "-else"@
        } else {
            Seq::empty()
        }) + " "@ + spec_print_expr(condition) + "\n"@ + spec_print_stmt(inner, *then_branch) + (
        match *else_branch {
            Some(e) => spec_print_stmt(inner, e),
            None => Seq::empty(),
        }) + pad + ")\n"@,
        Stmt::Print { value } => pad + paren1("print"@, spec_print_expr(value)) + "\n"@,
        Stmt::Return { value, .. } => pad + (match value {
            Some(v) => paren1("return"@, spec_print_expr(v)),
            None => "(return)"@,
        }) + "\n"@,
        Stmt::Var { name, initialiser } => pad + "(var "@ + name.lexeme@ + (match initialiser {
            Some(e) => " = "@ + spec_print_expr(e),
            None => Seq::empty(),
        }) + ")\n"@,
        Stmt::While { condition, body } => pad + "(while "@ + spec_print_expr(condition) + "\n"@
            + spec_print_stmt(inner, *body) + pad + ")\n"@,
    }
}

pub fn indent_string(indent: usize) -> (s: String)
    ensures
        s@ == spaces(indent as nat),
{
    let mut s = String::new();
    let mut i: usize = 0;
    while i < indent
        invariant
            0 <= i <= indent,
            s@ == spaces(i as nat),
        decreases indent - i,
    {
        push_char(&mut s, ' ');
        push_char(&mut s, ' ');
        push_char(&mut s, ' ');
        push_char(&mut s, ' ');
        assert(s@ =~= spaces((i + 1) as nat));
        i = i + 1;
    }
    s
}

fn inner_indent(indent: usize) -> (r: usize)
    ensures
        r == next_indent(indent),
{
    if indent < usize::MAX {
        indent + 1
    } else {
        indent
    }
}

/// Builds "(`name` `parts...`)" from the shown parts.
pub fn parenthesize(name: &str, parts: Vec<String>) -> (s: String)
    requires
        1 <= parts.len() <= 2,
    ensures
        parts.len() == 1 ==> s@ == paren1(name@, parts@[0]@),
        parts.len() == 2 ==> s@ == paren2(name@, parts@[0]@, parts@[1]@),
{
    let mut s = String::from_str("(");
    s.append(name);
    s.append(" ");
    s.append(parts[0].as_str());
    if parts.len() == 2 {
        s.append(" ");
        s.append(parts[1].as_str());
    }
    s.append(")");
    s
}

pub fn canonical_number_text(lexeme: &str) -> (s: String)
    ensures
        s@ == canonical_number(lexeme@),
{
    let cs = chars_of(lexeme);
    let n = cs.len();
    let mut dot: usize = 0;
    while dot < n && cs[dot] != '.'
        invariant
            0 <= dot <= n == cs.len(),
            dot_index(cs@, dot as int) == dot_index(cs@, 0),
        decreases n - dot,
    {
        dot = dot + 1;
    }
    let mut start: usize = 0;
    assert(cs@.subrange(0, dot as int).subrange(0, dot as int) =~= cs@.subrange(0, dot as int));
    while start < dot && cs[start] == '0'
        invariant
            0 <= start <= dot <= n == cs.len(),
            drop_leading_zeros(cs@.subrange(start as int, dot as int)) == drop_leading_zeros(
                cs@.subrange(0, dot as int),
            ),
        decreases dot - start,
    {
        assert(cs@.subrange(start as int, dot as int).drop_first() =~= cs@.subrange(start + 1, dot as int));
        start = start + 1;
    }
    assert(drop_leading_zeros(cs@.subrange(start as int, dot as int)) == cs@.subrange(start as int, dot as int));
    let mut s = if start == dot {
        let mut z = String::new();
        push_char(&mut z, '0');
        z
    } else {
        string_of(&cs, start, dot)
    };
    assert(start == dot ==> s@ =~= seq!['0']);
    if dot < n {
        let mut end: usize = n;
        assert(cs@.subrange(dot + 1, n as int) =~= cs@.subrange(dot + 1, end as int));
        while end > dot + 1 && cs[end - 1] == '0'
            invariant
                dot < n == cs.len(),
                dot + 1 <= end <= n,
                drop_trailing_zeros(cs@.subrange(dot + 1, end as int)) == drop_trailing_zeros(
                    cs@.subrange(dot + 1, n as int),
                ),
            decreases end,
        {
            assert(cs@.subrange(dot + 1, end as int).drop_last() =~= cs@.subrange(dot + 1, end - 1));
            end = end - 1;
        }
        assert(drop_trailing_zeros(cs@.subrange(dot + 1, end as int)) == cs@.subrange(dot + 1, end as int));
        if end > dot + 1 {
            push_char(&mut s, '.');
            let frac = string_of(&cs, dot + 1, end);
            s.append(frac.as_str());
        }
    }
    s
}

pub fn print_expr_literal(value: &Token) -> (s: String)
    ensures
        s@ == spec_literal_text(*value),
{
    match &value.literal {
        Some(Literal::Number(n)) => canonical_number_text(n.as_str()),
        Some(Literal::String(s)) => {
            let mut r = String::from_str("\"");
            r.append(s.as_str());
            r.append("\"");
            r
        },
        Some(Literal::Nil) => String::from_str("Nil"),
        Some(Literal::False) => String::from_str("false"),
        Some(Literal::True) => String::from_str("true"),
        None => String::from_str("None"),
    }
}

fn print_expr_assign(name: &Token, value: String) -> (s: String)
    ensures
        s@ == "(= "@ + name.lexeme@ + " "@ + value@ + ")"@,
{
    let mut s = String::from_str("(= ");
    s.append(name.lexeme.as_str());
    s.append(" ");
    s.append(value.as_str());
    s.append(")");
    s
}

fn print_expr_get(object: String, name: &Token) -> (s: String)
    ensures
        s@ == "("@ + object@ + "."@ + name.lexeme@ + ")"@,
{
    let mut s = String::from_str("(");
    s.append(object.as_str());
    s.append(".");
    s.append(name.lexeme.as_str());
    s.append(")");
    s
}

fn print_expr_set(object: String, name: &Token, value: String) -> (s: String)
    ensures
        s@ == "(= "@ + object@ + " "@ + name.lexeme@ + " "@ + value@,
{
    let mut s = String::from_str("(= ");
    s.append(object.as_str());
    s.append(" ");
    s.append(name.lexeme.as_str());
    s.append(" ");
    s.append(value.as_str());
    s
}

fn print_expr_super(method: &Token) -> (s: String)
    ensures
        s@ == "(super "@ + method.lexeme@ + ")"@,
{
    let mut s = String::from_str("(super ");
    s.append(method.lexeme.as_str());
    s.append(")");
    s
}

fn print_expr_variable(name: &Token) -> (s: String)
    ensures
        s@ == name.lexeme@,
{
    name.lexeme.clone()
}

fn print_expr_this() -> (s: String)
    ensures
        s@ == "this"@,
{
    String::from_str("this")
}

fn two(a: String, b: String) -> (v: Vec<String>)
    ensures
        v.len() == 2,
        v@[0]@ == a@,
        v@[1]@ == b@,
{
    let mut v = Vec::new();
    v.push(a);
    v.push(b);
    v
}

fn one(a: String) -> (v: Vec<String>)
    ensures
        v.len() == 1,
        v@[0]@ == a@,
{
    let mut v = Vec::new();
    v.push(a);
    v
}

/// Shows the expressions one after the other, separated by single spaces.
pub fn print_exprs(exprs: &Vec<Expr>) -> (s: String)
    ensures
        s@ == spec_print_exprs(exprs@),
    decreases exprs,
{
    let mut s = String::new();
    let mut i: usize = 0;
    while i < exprs.len()
        invariant
            0 <= i <= exprs.len(),
            s@ == spec_print_exprs(exprs@.take(i as int)),
        decreases exprs.len() - i,
    {
        proof {
            vstd::std_specs::vec::axiom_vec_index_decreases(*exprs, i as int);
        }
        let a = print_expr(&exprs[i]);
        if i > 0 {
            s.append(" ");
        }
        s.append(a.as_str());
        assert(exprs@.take(i + 1).drop_last() =~= exprs@.take(i as int));
        assert(s@ =~= spec_print_exprs(exprs@.take(i + 1)));
        i = i + 1;
    }
    assert(exprs@.take(exprs.len() as int) =~= exprs@);
    s
}

pub fn print_expr(expr: &Expr) -> (s: String)
    ensures
        s@ == spec_print_expr(*expr),
    decreases expr,
{
    match expr {
        Expr::Assign { name, value, .. } => print_expr_assign(name, print_expr(value)),
        Expr::Binary { left, operator, right, .. } => parenthesize(
            operator.lexeme.as_str(),
            two(print_expr(left), print_expr(right)),
        ),
        Expr::Call { callee, arguments, .. } => {
            let mut s = String::from_str("(call ");
            let c = print_expr(callee);
            s.append(c.as_str());
            if arguments.len() > 0 {
                s.append(" ");
            }
            let a = print_exprs(arguments);
            s.append(a.as_str());
            s.append(")");
            s
        },
        Expr::Get { object, name, .. } => print_expr_get(print_expr(object), name),
        Expr::Grouping { expression, .. } => parenthesize("group", one(print_expr(expression))),
        Expr::InvalidGet { object, name, .. } => print_expr_get(print_expr(object), name),
        Expr::InvalidSuper { method, .. } => print_expr_super(method),
        Expr::Literal { value, .. } => print_expr_literal(value),
        Expr::Logical { left, operator, right, .. } => parenthesize(
            operator.lexeme.as_str(),
            two(print_expr(left), print_expr(right)),
        ),
        Expr::SetProperty { object, name, value, .. } => print_expr_set(
            print_expr(object),
            name,
            print_expr(value),
        ),
        Expr::Super { method, .. } => print_expr_super(method),
        Expr::This { .. } => print_expr_this(),
        Expr::Unary { operator, right, .. } => parenthesize(
            operator.lexeme.as_str(),
            one(print_expr(right)),
        ),
        Expr::Variable { name, .. } => print_expr_variable(name),
    }
}

fn closing(pad: &String) -> (s: String)
    ensures
        s@ == pad@ + ")\n"@,
{
    let mut s = pad.clone();
    s.append(")\n");
    s
}

fn print_stmt_expr(pad: &String, expr: &Expr) -> (s: String)
    ensures
        s@ == pad@ + paren1(";"@, spec_print_expr(*expr)) + "\n"@,
{
    let mut s = pad.clone();
    let p = parenthesize(";", one(print_expr(expr)));
    s.append(p.as_str());
    s.append("\n");
    s
}

fn print_stmt_print(pad: &String, expr: &Expr) -> (s: String)
    ensures
        s@ == pad@ + paren1("print"@, spec_print_expr(*expr)) + "\n"@,
{
    let mut s = pad.clone();
    let p = parenthesize("print", one(print_expr(expr)));
    s.append(p.as_str());
    s.append("\n");
    s
}

fn print_stmt_return(pad: &String, value: &Option<Expr>) -> (s: String)
    ensures
        s@ == pad@ + (match *value {
            Some(v) => paren1("return"@, spec_print_expr(v)),
            None => "(return)"@,
        }) + "\n"@,
{
    let mut s = pad.clone();
    match value {
        Some(v) => {
            let p = parenthesize("return", one(print_expr(v)));
            s.append(p.as_str());
        },
        None => {
            s.append("(return)");
        },
    }
    s.append("\n");
    s
}

fn print_stmt_variable(pad: &String, name: &Token, initialiser: &Option<Expr>) -> (s: String)
    ensures
        s@ == pad@ + "(var "@ + name.lexeme@ + (match *initialiser {
            Some(e) => " = "@ + spec_print_expr(e),
            None => Seq::empty(),
        }) + ")\n"@,
{
    let mut s = pad.clone();
    s.append("(var ");
    s.append(name.lexeme.as_str());
    match initialiser {
        Some(e) => {
            s.append(" = ");
            let p = print_expr(e);
            s.append(p.as_str());
        },
        None => {},
    }
    s.append(")\n");
    s
}

fn print_stmt_class_header(pad: &String, name: &Token, superclass: &Option<Expr>) -> (s: String)
    ensures
        s@ == pad@ + "(class "@ + name.lexeme@ + (match *superclass {
            Some(sc) => " < "@ + spec_print_expr(sc),
            None => Seq::empty(),
        }) + "\n"@,
{
    let mut s = pad.clone();
    s.append("(class ");
    s.append(name.lexeme.as_str());
    match superclass {
        Some(sc) => {
            s.append(" < ");
            let p = print_expr(sc);
            s.append(p.as_str());
        },
        None => {},
    }
    s.append("\n");
    s
}

fn print_stmt_function_header(pad: &String, function: &Function) -> (s: String)
    ensures
        s@ == pad@ + "(fun "@ + function.name.lexeme@ + "("@ + join_lexemes(function.params@)
            + ")\n"@,
{
    let mut s = pad.clone();
    s.append("(fun ");
    s.append(function.name().lexeme.as_str());
    s.append("(");
    let ghost prefix = s@;
    let params = function.params();
    let mut i: usize = 0;
    while i < params.len()
        invariant
            0 <= i <= params.len(),
            *params == function.params,
            s@ == prefix + join_lexemes(params@.take(i as int)),
        decreases params.len() - i,
    {
        if i > 0 {
            s.append(" ");
        }
        s.append(params[i].lexeme.as_str());
        assert(params@.take(i + 1).drop_last() =~= params@.take(i as int));
        assert(s@ =~= prefix + join_lexemes(params@.take(i + 1)));
        i = i + 1;
    }
    assert(params@.take(params.len() as int) =~= params@);
    s.append(")\n");
    s
}

fn print_stmt_if_header(pad: &String, condition: &Expr, has_else: bool) -> (s: String)
    ensures
        s@ == pad@ + "(if"@ + (if has_else {
            "-else"@
        } else {
            Seq::empty()
        }) + " "@ + spec_print_expr(*condition) + "\n"@,
{
    let mut s = pad.clone();
    s.append("(if");
    if has_else {
        s.append("-else");
    }
    s.append(" ");
    let p = print_expr(condition);
    s.append(p.as_str());
    s.append("\n");
    s
}

fn print_stmt_while_header(pad: &String, condition: &Expr) -> (s: String)
    ensures
        s@ == pad@ + "(while "@ + spec_print_expr(*condition) + "\n"@,
{
    let mut s = pad.clone();
    s.append("(while ");
    let p = print_expr(condition);
    s.append(p.as_str());
    s.append("\n");
    s
}

/// Shows the statements one after the other at the given indentation.
pub fn print_stmt_block(indent: usize, statements: &Vec<Stmt>) -> (s: String)
    ensures
        s@ == spec_print_stmts(indent, statements@),
    decreases statements,
{
    let mut s = String::new();
    let mut i: usize = 0;
    while i < statements.len()
        invariant
            0 <= i <= statements.len(),
            s@ == spec_print_stmts(indent, statements@.take(i as int)),
        decreases statements.len() - i,
    {
        proof {
            vstd::std_specs::vec::axiom_vec_index_decreases(*statements, i as int);
        }
        let p = print_stmt(indent, &statements[i]);
        s.append(p.as_str());
        assert(statements@.take(i + 1).drop_last() =~= statements@.take(i as int));
        i = i + 1;
    }
    assert(statements@.take(statements.len() as int) =~= statements@);
    s
}

pub fn print_stmt(indent: usize, stmt: &Stmt) -> (s: String)
    ensures
        s@ == spec_print_stmt(indent, *stmt),
    decreases stmt,
{
    let pad = indent_string(indent);
    let inner = inner_indent(indent);
    match stmt {
        Stmt::Block { statements } => {
            let mut s = pad.clone();
            s.append("(block\n");
            let body = print_stmt_block(inner, statements);
            s.append(body.as_str());
            let c = closing(&pad);
            s.append(c.as_str());
            s
        },
        Stmt::Class { name, superclass, methods } => {
            let mut s = print_stmt_class_header(&pad, name, superclass);
            let body = print_stmt_block(inner, methods);
            s.append(body.as_str());
            let c = closing(&pad);
            s.append(c.as_str());
            s
        },
        Stmt::Expression { expression } => print_stmt_expr(&pad, expression),
        Stmt::Function { function } => {
            let mut s = print_stmt_function_header(&pad, function);
            let body = print_stmt_block(inner, function.body());
            s.append(body.as_str());
            let c = closing(&pad);
            s.append(c.as_str());
            s
        },
        Stmt::If { condition, then_branch, else_branch } => {
            let else_ref: &Option<Stmt> = else_branch;
            let mut s = print_stmt_if_header(&pad, condition, else_ref.is_some());
            let t = print_stmt(inner, then_branch);
            s.append(t.as_str());
            match else_ref {
                Some(e) => {
                    let p = print_stmt(inner, e);
                    s.append(p.as_str());
                },
                None => {},
            }
            let c = closing(&pad);
            s.append(c.as_str());
            s
        },
        Stmt::Print { value } => print_stmt_print(&pad, value),
        Stmt::Return { value, .. } => print_stmt_return(&pad, value),
        Stmt::Var { name, initialiser } => print_stmt_variable(&pad, name, initialiser),
        Stmt::While { condition, body } => {
            let mut s = print_stmt_while_header(&pad, condition);
            let b = print_stmt(inner, body);
            s.append(b.as_str());
            let c = closing(&pad);
            s.append(c.as_str());
            s
        },
    }
}

} // verus!
