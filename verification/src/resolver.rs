use crate::expr::Expr;
use crate::location::FileLocation;
use crate::reporter::{diagnostic, forward, Collector, ReportView, Reporter};
use crate::stmt::{Function, Stmt};
use crate::token::{str_equal, Token};
use std::collections::HashMap;
use vstd::prelude::*;

verus! {

broadcast use vstd::std_specs::hash::group_hash_axioms;

/// A scope: names, each marked as defined (`true`) or only declared (`false`).
/// Later entries take precedence over earlier ones with the same name.
pub struct Scope {
    pub entries: Vec<(String, bool)>,
}

pub open spec fn entries_map(es: Seq<(String, bool)>) -> Map<Seq<char>, bool>
    decreases es.len(),
{
    if es.len() == 0 {
        Map::empty()
    } else {
        entries_map(es.drop_last()).insert(es.last().0@, es.last().1)
    }
}

proof fn lemma_entries_map_lookup(es: Seq<(String, bool)>, name: Seq<char>, i: int)
    requires
        0 <= i < es.len(),
        es[i].0@ == name,
        forall|j: int| i < j < es.len() ==> es[j].0@ != name,
    ensures
        entries_map(es).contains_key(name),
        entries_map(es)[name] == es[i].1,
    decreases es.len(),
{
    if i < es.len() - 1 {
        lemma_entries_map_lookup(es.drop_last(), name, i);
    }
}

proof fn lemma_entries_map_absent(es: Seq<(String, bool)>, name: Seq<char>)
    requires
        forall|j: int| 0 <= j < es.len() ==> es[j].0@ != name,
    ensures
        !entries_map(es).contains_key(name),
    decreases es.len(),
{
    if es.len() > 0 {
        lemma_entries_map_absent(es.drop_last(), name);
    }
}

impl Scope {
    pub open spec fn view(&self) -> Map<Seq<char>, bool> {
        entries_map(self.entries@)
    }

    pub fn new() -> (s: Self)
        ensures
            s.view() == Map::<Seq<char>, bool>::empty(),
    {
        Scope { entries: Vec::new() }
    }

    /// The mark of `name`, if the scope holds it.
    pub fn get(&self, name: &str) -> (r: Option<bool>)
        ensures
            r == (if self.view().contains_key(name@) {
                Some(self.view()[name@])
            } else {
                None
            }),
    {
        let mut i = self.entries.len();
        while i > 0
            invariant
                0 <= i <= self.entries.len(),
                forall|j: int| i <= j < self.entries.len() ==> self.entries@[j].0@ != name@,
            decreases i,
        {
            i = i - 1;
            if str_equal(self.entries[i].0.as_str(), name) {
                proof {
                    lemma_entries_map_lookup(self.entries@, name@, i as int);
                }
                return Some(self.entries[i].1);
            }
        }
        proof {
            lemma_entries_map_absent(self.entries@, name@);
        }
        None
    }

    pub fn insert(&mut self, name: &str, value: bool)
        ensures
            final(self).view() == old(self).view().insert(name@, value),
    {
        self.entries.push((String::from_str(name), value));
        assert(self.entries@.drop_last() =~= old(self).entries@);
    }
}

/// The innermost scope comes last.
pub open spec fn scopes_view(scopes: Seq<Scope>) -> Seq<Map<Seq<char>, bool>> {
    scopes.map_values(|s: Scope| s.view())
}

/// How many scopes out from the innermost one holds `name`.
pub open spec fn spec_find_depth(scopes: Seq<Map<Seq<char>, bool>>, name: Seq<char>) -> Option<usize>
    decreases scopes.len(),
{
    if scopes.len() == 0 {
        None
    } else if scopes.last().contains_key(name) {
        Some(0)
    } else {
        match spec_find_depth(scopes.drop_last(), name) {
            Some(d) => Some((d + 1) as usize),
            None => None,
        }
    }
}

proof fn lemma_find_depth_bound(scopes: Seq<Map<Seq<char>, bool>>, name: Seq<char>)
    requires
        scopes.len() <= usize::MAX,
    ensures
        spec_find_depth(scopes, name) matches Some(d) ==> d < scopes.len(),
    decreases scopes.len(),
{
    if scopes.len() > 0 {
        lemma_find_depth_bound(scopes.drop_last(), name);
    }
}

pub open spec fn already_declared_message(name: Seq<char>) -> Seq<char> {
    "Already a variable with the name '"@ + name + "' is in scope"@
}

/// The scopes of local names; the global scope is not kept.
pub struct Scopes {
    pub scopes: Vec<Scope>,
}

pub struct ResolverError<'t> {
    pub token: &'t Token,
    pub message: String,
}

impl<'t> ResolverError<'t> {
    pub fn new(token: &'t Token, message: String) -> (e: Self)
        ensures
            e.token == token,
            e.message == message,
    {
        Self { token, message }
    }
}

impl Scopes {
    pub open spec fn view(&self) -> Seq<Map<Seq<char>, bool>> {
        scopes_view(self.scopes@)
    }

    pub fn new() -> (s: Self)
        ensures
            s.view() == Seq::<Map<Seq<char>, bool>>::empty(),
    {
        let s = Self { scopes: Vec::new() };
        assert(s.view() =~= Seq::<Map<Seq<char>, bool>>::empty());
        s
    }

    pub fn begin(&mut self)
        ensures
            final(self).view() == old(self).view().push(Map::empty()),
    {
        self.scopes.push(Scope::new());
        assert(self.view() =~= old(self).view().push(Map::empty()));
    }

    pub fn end(&mut self)
        ensures
            final(self).view() == (if old(self).view().len() > 0 {
                old(self).view().drop_last()
            } else {
                old(self).view()
            }),
    {
        let _ = self.scopes.pop();
        assert(self.view() =~= (if old(self).view().len() > 0 {
            old(self).view().drop_last()
        } else {
            old(self).view()
        }));
    }

    /// Marks `name` as declared but not yet defined in the innermost scope;
    /// fails when that scope already holds it.
    pub fn declare<'t>(&mut self, name: &'t Token) -> (r: Result<(), ResolverError<'t>>)
        ensures
            r is Err <==> (old(self).view().len() > 0 && old(self).view().last().contains_key(
                name.lexeme@,
            )),
            r is Err ==> final(self).view() == old(self).view() && r->Err_0.token == name
                && r->Err_0.message@ == already_declared_message(name.lexeme@),
            r is Ok ==> final(self).view() == spec_mark(old(self).view(), name.lexeme@, false),
    {
        let n = self.scopes.len();
        if n > 0 {
            match self.scopes[n - 1].get(name.lexeme.as_str()) {
                Some(_) => {
                    let mut message = String::from_str("Already a variable with the name '");
                    message.append(name.lexeme.as_str());
                    message.append("' is in scope");
                    return Err(ResolverError::new(name, message));
                },
                None => {},
            }
        }
        self.mark(name.lexeme.as_str(), false);
        Ok(())
    }

    fn mark(&mut self, name: &str, value: bool)
        ensures
            final(self).view() == spec_mark(old(self).view(), name@, value),
    {
        let n = self.scopes.len();
        if n > 0 {
            let mut scope = self.scopes.pop().unwrap();
            scope.insert(name, value);
            self.scopes.push(scope);
            assert(self.view() =~= spec_mark(old(self).view(), name@, value));
        }
    }

    /// Marks `name` as defined in the innermost scope.
    pub fn define(&mut self, name: &str)
        ensures
            final(self).view() == spec_mark(old(self).view(), name@, true),
    {
        self.mark(name, true)
    }

    /// Whether the innermost scope holds `name` as declared but not yet defined.
    pub fn is_declared_in_current_scope(&self, name: &str) -> (r: bool)
        ensures
            r == spec_declared_only(self.view(), name@),
    {
        let n = self.scopes.len();
        if n == 0 {
            return false;
        }
        match self.scopes[n - 1].get(name) {
            Some(defined) => !defined,
            None => false,
        }
    }

    pub fn find_depth(&self, name: &str) -> (r: Option<usize>)
        ensures
            r == spec_find_depth(self.view(), name@),
    {
        let n = self.scopes.len();
        let mut i: usize = 0;
        assert(self.view().take(n as int) =~= self.view());
        proof {
            lemma_find_depth_bound(self.view(), name@);
        }
        while i < n
            invariant
                0 <= i <= n == self.scopes.len(),
                spec_find_depth(self.view(), name@) == (match spec_find_depth(
                    self.view().take(n - i),
                    name@,
                ) {
                    Some(d) => Some((d + i) as usize),
                    None => None,
                }),
            decreases n - i,
        {
            let ghost v = self.view().take(n - i);
            assert(v.drop_last() =~= self.view().take(n - i - 1));
            proof {
                lemma_find_depth_bound(v.drop_last(), name@);
            }
            assert(v.last() == self.scopes@[n - 1 - i].view());
            if self.scopes[n - 1 - i].get(name).is_some() {
                return Some(i);
            }
            i = i + 1;
        }
        assert(self.view().take(0) =~= Seq::<Map<Seq<char>, bool>>::empty());
        None
    }
}

/// Sets the mark of `name` in the innermost scope, if there is one.
pub open spec fn spec_mark(scopes: Seq<Map<Seq<char>, bool>>, name: Seq<char>, value: bool) -> Seq<
    Map<Seq<char>, bool>,
> {
    if scopes.len() > 0 {
        scopes.update(scopes.len() - 1, scopes.last().insert(name, value))
    } else {
        scopes
    }
}

pub open spec fn spec_declared_only(scopes: Seq<Map<Seq<char>, bool>>, name: Seq<char>) -> bool {
    scopes.len() > 0 && scopes.last().contains_key(name) && !scopes.last()[name]
}

#[derive(Copy, Clone, PartialEq, Eq, Structural)]
pub enum FunctionType {
    Outside,
    Function,
    Initialiser,
    Method,
}

#[derive(Copy, Clone, PartialEq, Eq, Structural)]
pub enum ClassType {
    Outside,
    Class,
    Subclass,
}

/// What the resolver knows at a point of its walk.
pub struct ResolveState {
    pub scopes: Seq<Map<Seq<char>, bool>>,
    pub depths: Map<usize, usize>,
    pub current_function: FunctionType,
    pub current_class: ClassType,
    pub reports: Seq<ReportView>,
}

pub open spec fn sp_begin(st: ResolveState) -> ResolveState {
    ResolveState { scopes: st.scopes.push(Map::empty()), ..st }
}

pub open spec fn sp_end(st: ResolveState) -> ResolveState {
    ResolveState {
        scopes: if st.scopes.len() > 0 {
            st.scopes.drop_last()
        } else {
            st.scopes
        },
        ..st
    }
}

pub open spec fn sp_define(st: ResolveState, name: Seq<char>) -> ResolveState {
    ResolveState { scopes: spec_mark(st.scopes, name, true), ..st }
}

pub open spec fn sp_report(st: ResolveState, token: Token, message: Seq<char>) -> ResolveState {
    ResolveState { reports: st.reports.push(diagnostic(token.start, token.end, message)), ..st }
}

/// Declares `name`, reporting a name already held by the innermost scope.
pub open spec fn sp_declare(st: ResolveState, name: Token) -> ResolveState {
    if st.scopes.len() > 0 && st.scopes.last().contains_key(name.lexeme@) {
        sp_report(st, name, already_declared_message(name.lexeme@))
    } else {
        ResolveState { scopes: spec_mark(st.scopes, name.lexeme@, false), ..st }
    }
}

/// Records how far out the scope holding `name` is, for the expression `id`.
pub open spec fn sp_resolve_local(st: ResolveState, id: usize, name: Seq<char>) -> ResolveState {
    match spec_find_depth(st.scopes, name) {
        Some(d) => ResolveState { depths: st.depths.insert(id, d), ..st },
        None => st,
    }
}

pub open spec fn sp_resolve_super(st: ResolveState, id: usize, keyword: Token) -> ResolveState {
    let st1 = if st.current_class == ClassType::Outside {
        sp_report(st, keyword, "Cannot use 'super' outside of a class"@)
    } else if st.current_class != ClassType::Subclass {
        sp_report(st, keyword, "Cannot use 'super' in a class with no superclass"@)
    } else {
        st
    };
    sp_resolve_local(st1, id, keyword.lexeme@)
}

pub open spec fn sp_resolve_exprs(st: ResolveState, es: Seq<Expr>) -> ResolveState
    decreases es,
{
    if es.len() == 0 {
        st
    } else {
        sp_resolve_expr(sp_resolve_exprs(st, es.drop_last()), es.last())
    }
}

/// What resolving an expression does.
pub open spec fn sp_resolve_expr(st: ResolveState, e: Expr) -> ResolveState
    decreases e,
{
    match e {
        Expr::Assign { id, name, value } => sp_resolve_local(
            sp_resolve_expr(st, *value),
            id,
            name.lexeme@,
        ),
        Expr::Binary { left, right, .. } => sp_resolve_expr(sp_resolve_expr(st, *left), *right),
        Expr::Call { callee, arguments, .. } => sp_resolve_exprs(
            sp_resolve_expr(st, *callee),
            arguments@,
        ),
        Expr::Get { object, .. } => sp_resolve_expr(st, *object),
        Expr::Grouping { expression, .. } => sp_resolve_expr(st, *expression),
        Expr::InvalidGet { object, .. } => sp_resolve_expr(st, *object),
        Expr::InvalidSuper { id, keyword, .. } => sp_resolve_super(st, id, keyword),
        Expr::Literal { .. } => st,
        Expr::Logical { left, right, .. } => sp_resolve_expr(sp_resolve_expr(st, *left), *right),
        Expr::SetProperty { object, value, .. } => sp_resolve_expr(
            sp_resolve_expr(st, *object),
            *value,
        ),
        Expr::Super { id, keyword, .. } => sp_resolve_super(st, id, keyword),
        Expr::This { id, keyword } => {
            let st1 = if st.current_class == ClassType::Outside {
                sp_report(st, keyword, "Cannot use 'this' outside of a class"@)
            } else {
                st
            };
            sp_resolve_local(st1, id, keyword.lexeme@)
        },
        Expr::Unary { right, .. } => sp_resolve_expr(st, *right),
        Expr::Variable { id, name } => {
            let st1 = if spec_declared_only(st.scopes, name.lexeme@) {
                sp_report(st, name, "Cannot read local variable in its own initialiser"@)
            } else {
                st
            };
            sp_resolve_local(st1, id, name.lexeme@)
        },
    }
}

pub open spec fn sp_declare_params(st: ResolveState, params: Seq<Token>) -> ResolveState
    decreases params.len(),
{
    if params.len() == 0 {
        st
    } else {
        let p = params.last();
        sp_define(sp_declare(sp_declare_params(st, params.drop_last()), p), p.lexeme@)
    }
}

pub open spec fn sp_resolve_function(st: ResolveState, function_type: FunctionType, f: Function) -> ResolveState
    decreases f,
{
    let st1 = sp_begin(ResolveState { current_function: function_type, ..st });
    let st2 = sp_declare_params(st1, f.params@);
    let st3 = sp_resolve_stmts(st2, f.body@);
    let st4 = sp_end(st3);
    ResolveState { current_function: st.current_function, ..st4 }
}

pub open spec fn sp_resolve_methods(st: ResolveState, methods: Seq<Stmt>) -> ResolveState
    decreases methods,
{
    if methods.len() == 0 {
        st
    } else {
        let st1 = sp_resolve_methods(st, methods.drop_last());
        match methods.last() {
            Stmt::Function { function } => sp_resolve_function(
                st1,
                if function.name.lexeme@ == "init"@ {
                    FunctionType::Initialiser
                } else {
                    FunctionType::Method
                },
                function,
            ),
            _ => st1,
        }
    }
}

pub open spec fn sp_resolve_stmts(st: ResolveState, ss: Seq<Stmt>) -> ResolveState
    decreases ss,
{
    if ss.len() == 0 {
        st
    } else {
        sp_resolve_stmt(sp_resolve_stmts(st, ss.drop_last()), ss.last())
    }
}

pub open spec fn sp_resolve_superclass(st: ResolveState, class_name: Token, superclass: Expr) -> ResolveState {
    let st1 = match superclass {
        Expr::Variable { name, .. } => if class_name.lexeme@ == name.lexeme@ {
            sp_report(st, name, "A class cannot inherit from itself"@)
        } else {
            st
        },
        _ => st,
    };
    sp_resolve_expr(ResolveState { current_class: ClassType::Subclass, ..st1 }, superclass)
}

/// What resolving a statement does.
pub open spec fn sp_resolve_stmt(st: ResolveState, s: Stmt) -> ResolveState
    decreases s,
{
    match s {
        Stmt::Block { statements } => sp_end(sp_resolve_stmts(sp_begin(st), statements@)),
        Stmt::Class { name, superclass, methods } => {
            let st1 = ResolveState { current_class: ClassType::Class, ..st };
            let st2 = sp_define(sp_declare(st1, name), name.lexeme@);
            let st3 = match superclass {
                Some(sc) => sp_define(sp_begin(sp_resolve_superclass(st2, name, sc)), "super"@),
                None => st2,
            };
            let st4 = sp_define(sp_begin(st3), "this"@);
            let st5 = sp_end(sp_resolve_methods(st4, methods@));
            let st6 = if superclass is Some {
                sp_end(st5)
            } else {
                st5
            };
            ResolveState { current_class: st.current_class, ..st6 }
        },
        Stmt::Expression { expression } => sp_resolve_expr(st, expression),
        Stmt::Function { function } => sp_resolve_function(
            sp_define(sp_declare(st, function.name), function.name.lexeme@),
            FunctionType::Function,
            function,
        ),
        Stmt::If { condition, then_branch, else_branch } => {
            let st1 = sp_resolve_stmt(sp_resolve_expr(st, condition), *then_branch);
            match *else_branch {
                Some(e) => sp_resolve_stmt(st1, e),
                None => st1,
            }
        },
        Stmt::Print { value } => sp_resolve_expr(st, value),
        Stmt::Return { keyword, value } => {
            let st1 = if st.current_function == FunctionType::Outside {
                sp_report(st, keyword, "Cannot return from top-level code"@)
            } else {
                st
            };
            match value {
                Some(v) => {
                    let st2 = if st1.current_function == FunctionType::Initialiser {
                        sp_report(st1, keyword, "Cannot return a value from an initialiser"@)
                    } else {
                        st1
                    };
                    sp_resolve_expr(st2, v)
                },
                None => st1,
            }
        },
        Stmt::Var { name, initialiser } => {
            let st1 = sp_declare(st, name);
            let st2 = match initialiser {
                Some(e) => sp_resolve_expr(st1, e),
                None => st1,
            };
            sp_define(st2, name.lexeme@)
        },
        Stmt::While { condition, body } => sp_resolve_stmt(sp_resolve_expr(st, condition), *body),
    }
}

pub open spec fn initial_resolve_state() -> ResolveState {
    ResolveState {
        scopes: Seq::empty(),
        depths: Map::empty(),
        current_function: FunctionType::Outside,
        current_class: ClassType::Outside,
        reports: Seq::empty(),
    }
}

/// The depths (by expression identifier) and the diagnostics that resolving
/// `statements` gives.
pub open spec fn spec_resolve(statements: Seq<Stmt>) -> ResolveState {
    sp_resolve_stmts(initial_resolve_state(), statements)
}

pub struct Resolver {
    pub reports: Collector,
    pub scopes: Scopes,
    pub depths: HashMap<usize, usize>,
    pub current_function: FunctionType,
    pub current_class: ClassType,
}

/// Works out, for each variable, assignment, `this` and `super` expression
/// whose name a local scope holds, how many scopes out that scope is, and
/// reports misuses of names, `return`, `this` and `super`.
pub fn resolve<R: Reporter>(reporter: &mut R, statements: &Vec<Stmt>) -> (depths: HashMap<usize, usize>)
    ensures
        depths@ == spec_resolve(statements@).depths,
        final(reporter).reports() == old(reporter).reports() + spec_resolve(statements@).reports,
{
    let mut resolver = Resolver::new();
    resolver.resolve_stmts(statements);
    forward(reporter, &resolver.reports);
    resolver.depths
}

impl Resolver {
    pub open spec fn view(&self) -> ResolveState {
        ResolveState {
            scopes: self.scopes.view(),
            depths: self.depths@,
            current_function: self.current_function,
            current_class: self.current_class,
            reports: self.reports.reports(),
        }
    }

    pub fn new() -> (r: Self)
        ensures
            r.view() == initial_resolve_state(),
    {
        Self {
            reports: Collector::new(),
            scopes: Scopes::new(),
            depths: HashMap::new(),
            current_function: FunctionType::Outside,
            current_class: ClassType::Outside,
        }
    }

    fn add_diagnostic(&mut self, t: &Token, message: &str)
        ensures
            final(self).view() == sp_report(old(self).view(), *t, message@),
    {
        self.reports.add_diagnostic(&t.start, &t.end, message);
    }

    fn declare(&mut self, name: &Token)
        ensures
            final(self).view() == sp_declare(old(self).view(), *name),
    {
        match self.scopes.declare(name) {
            Err(e) => {
                let token = e.token;
                self.reports.add_diagnostic(&token.start, &token.end, e.message.as_str());
            },
            Ok(()) => {},
        }
    }

    fn define(&mut self, name: &str)
        ensures
            final(self).view() == sp_define(old(self).view(), name@),
    {
        self.scopes.define(name);
    }

    pub fn resolve_stmts(&mut self, statements: &Vec<Stmt>)
        ensures
            final(self).view() == sp_resolve_stmts(old(self).view(), statements@),
        decreases statements, 0int,
    {
        let mut i: usize = 0;
        while i < statements.len()
            invariant
                0 <= i <= statements.len(),
                self.view() == sp_resolve_stmts(old(self).view(), statements@.take(i as int)),
            decreases statements.len() - i,
        {
            proof {
                vstd::std_specs::vec::axiom_vec_index_decreases(*statements, i as int);
            }
            self.resolve_stmt(&statements[i]);
            assert(statements@.take(i + 1).drop_last() =~= statements@.take(i as int));
            i = i + 1;
        }
        assert(statements@.take(statements.len() as int) =~= statements@);
    }

    pub fn resolve_stmt(&mut self, statement: &Stmt)
        ensures
            final(self).view() == sp_resolve_stmt(old(self).view(), *statement),
        decreases statement, 2int,
    {
        match statement {
            Stmt::Block { statements } => self.resolve_stmt_block(statements),
            Stmt::Class { name, superclass, methods } => self.resolve_stmt_class(
                name,
                superclass,
                methods,
            ),
            Stmt::Expression { expression } => self.resolve_stmt_expression(expression),
            Stmt::Function { function } => self.resolve_stmt_function(function),
            Stmt::If { condition, then_branch, else_branch } => {
                self.resolve_expr(condition);
                self.resolve_stmt(then_branch);
                let else_ref: &Option<Stmt> = else_branch;
                match else_ref {
                    Some(s) => self.resolve_stmt(s),
                    None => {},
                }
            },
            Stmt::Print { value } => self.resolve_stmt_print(value),
            Stmt::Return { keyword, value } => self.resolve_stmt_return(keyword, value),
            Stmt::Var { name, initialiser } => self.resolve_stmt_var(name, initialiser),
            Stmt::While { condition, body } => {
                self.resolve_expr(condition);
                self.resolve_stmt(body);
            },
        }
    }

    pub fn resolve_stmt_block(&mut self, statements: &Vec<Stmt>)
        ensures
            final(self).view() == sp_end(sp_resolve_stmts(sp_begin(old(self).view()), statements@)),
        decreases statements, 1int,
    {
        self.scopes.begin();
        self.resolve_stmts(statements);
        self.scopes.end();
    }

    pub fn resolve_stmt_class(&mut self, name: &Token, superclass: &Option<Expr>, methods: &Vec<Stmt>)
        ensures
            final(self).view() == ({
                let st = old(self).view();
                let st1 = ResolveState { current_class: ClassType::Class, ..st };
                let st2 = sp_define(sp_declare(st1, *name), name.lexeme@);
                let st3 = match *superclass {
                    Some(sc) => sp_define(
                        sp_begin(sp_resolve_superclass(st2, *name, sc)),
                        "super"@,
                    ),
                    None => st2,
                };
                let st4 = sp_define(sp_begin(st3), "this"@);
                let st5 = sp_end(sp_resolve_methods(st4, methods@));
                let st6 = if superclass is Some {
                    sp_end(st5)
                } else {
                    st5
                };
                ResolveState { current_class: st.current_class, ..st6 }
            }),
        decreases methods, 1int,
    {
        let enclosing_class = self.current_class;
        self.current_class = ClassType::Class;
        self.declare(name);
        self.define(name.lexeme.as_str());
        match superclass {
            Some(sc) => {
                self.resolve_superclass(name, sc);
                self.scopes.begin();
                self.define("super");
            },
            None => {},
        }
        self.scopes.begin();
        self.define("this");
        self.resolve_methods(methods);
        self.scopes.end();
        if superclass.is_some() {
            self.scopes.end();
        }
        self.current_class = enclosing_class;
    }

    fn resolve_methods(&mut self, methods: &Vec<Stmt>)
        ensures
            final(self).view() == sp_resolve_methods(old(self).view(), methods@),
        decreases methods, 0int,
    {
        let mut i: usize = 0;
        while i < methods.len()
            invariant
                0 <= i <= methods.len(),
                self.view() == sp_resolve_methods(old(self).view(), methods@.take(i as int)),
            decreases methods.len() - i,
        {
            proof {
                vstd::std_specs::vec::axiom_vec_index_decreases(*methods, i as int);
            }
            match &methods[i] {
                Stmt::Function { function } => {
                    let function_type = if str_equal(function.name().lexeme.as_str(), "init") {
                        FunctionType::Initialiser
                    } else {
                        FunctionType::Method
                    };
                    self.resolve_function(function_type, function);
                },
                _ => {},
            }
            assert(methods@.take(i + 1).drop_last() =~= methods@.take(i as int));
            i = i + 1;
        }
        assert(methods@.take(methods.len() as int) =~= methods@);
    }

    pub fn resolve_superclass(&mut self, class_name: &Token, superclass: &Expr)
        ensures
            final(self).view() == sp_resolve_superclass(old(self).view(), *class_name, *superclass),
    {
        match superclass {
            Expr::Variable { name, .. } => {
                if str_equal(class_name.lexeme.as_str(), name.lexeme.as_str()) {
                    self.add_diagnostic(name, "A class cannot inherit from itself");
                }
            },
            _ => {},
        }
        self.current_class = ClassType::Subclass;
        self.resolve_expr(superclass);
    }

    pub fn resolve_stmt_expression(&mut self, expression: &Expr)
        ensures
            final(self).view() == sp_resolve_expr(old(self).view(), *expression),
    {
        self.resolve_expr(expression);
    }

    pub fn resolve_stmt_function(&mut self, function: &Function)
        ensures
            final(self).view() == sp_resolve_function(
                sp_define(sp_declare(old(self).view(), function.name), function.name.lexeme@),
                FunctionType::Function,
                *function,
            ),
        decreases function, 1int,
    {
        self.declare(function.name());
        self.define(function.name().lexeme.as_str());
        self.resolve_function(FunctionType::Function, function);
    }

    pub fn resolve_stmt_print(&mut self, expression: &Expr)
        ensures
            final(self).view() == sp_resolve_expr(old(self).view(), *expression),
    {
        self.resolve_expr(expression);
    }

    pub fn resolve_stmt_return(&mut self, keyword: &Token, expression: &Option<Expr>)
        ensures
            final(self).view() == sp_resolve_stmt(
                old(self).view(),
                Stmt::Return { keyword: *keyword, value: *expression },
            ),
    {
        if self.current_function == FunctionType::Outside {
            self.add_diagnostic(keyword, "Cannot return from top-level code");
        }
        match expression {
            Some(expression) => {
                if self.current_function == FunctionType::Initialiser {
                    self.add_diagnostic(keyword, "Cannot return a value from an initialiser");
                }
                self.resolve_expr(expression);
            },
            None => {},
        }
    }

    pub fn resolve_stmt_var(&mut self, name: &Token, initialiser: &Option<Expr>)
        ensures
            final(self).view() == sp_resolve_stmt(
                old(self).view(),
                Stmt::Var { name: *name, initialiser: *initialiser },
            ),
    {
        self.declare(name);
        match initialiser {
            Some(e) => self.resolve_expr(e),
            None => {},
        }
        self.define(name.lexeme.as_str());
    }

    pub fn resolve_exprs(&mut self, exprs: &Vec<Expr>)
        ensures
            final(self).view() == sp_resolve_exprs(old(self).view(), exprs@),
        decreases exprs,
    {
        let mut i: usize = 0;
        while i < exprs.len()
            invariant
                0 <= i <= exprs.len(),
                self.view() == sp_resolve_exprs(old(self).view(), exprs@.take(i as int)),
            decreases exprs.len() - i,
        {
            proof {
                vstd::std_specs::vec::axiom_vec_index_decreases(*exprs, i as int);
            }
            self.resolve_expr(&exprs[i]);
            assert(exprs@.take(i + 1).drop_last() =~= exprs@.take(i as int));
            i = i + 1;
        }
        assert(exprs@.take(exprs.len() as int) =~= exprs@);
    }

    pub fn resolve_expr(&mut self, expression: &Expr)
        ensures
            final(self).view() == sp_resolve_expr(old(self).view(), *expression),
        decreases expression,
    {
        match expression {
            Expr::Assign { id, name, value } => {
                self.resolve_expr(value);
                self.resolve_local(*id, name);
            },
            Expr::Binary { left, right, .. } => {
                self.resolve_expr(left);
                self.resolve_expr(right);
            },
            Expr::Call { callee, arguments, .. } => {
                self.resolve_expr(callee);
                self.resolve_exprs(arguments);
            },
            Expr::Get { object, .. } => self.resolve_expr(object),
            Expr::Grouping { expression, .. } => self.resolve_expr(expression),
            Expr::InvalidGet { object, .. } => self.resolve_expr(object),
            Expr::InvalidSuper { id, keyword, .. } => self.resolve_expr_super(*id, keyword),
            Expr::Literal { .. } => {},
            Expr::Logical { left, right, .. } => {
                self.resolve_expr(left);
                self.resolve_expr(right);
            },
            Expr::SetProperty { object, value, .. } => {
                self.resolve_expr(object);
                self.resolve_expr(value);
            },
            Expr::Super { id, keyword, .. } => self.resolve_expr_super(*id, keyword),
            Expr::This { id, keyword } => self.resolve_expr_this(*id, keyword),
            Expr::Unary { right, .. } => self.resolve_expr(right),
            Expr::Variable { id, name } => self.resolve_expr_variable(*id, name),
        }
    }

    pub fn resolve_expr_super(&mut self, id: usize, keyword: &Token)
        ensures
            final(self).view() == sp_resolve_super(old(self).view(), id, *keyword),
    {
        if self.current_class == ClassType::Outside {
            self.add_diagnostic(keyword, "Cannot use 'super' outside of a class");
        } else if self.current_class != ClassType::Subclass {
            self.add_diagnostic(keyword, "Cannot use 'super' in a class with no superclass");
        }
        self.resolve_local(id, keyword);
    }

    pub fn resolve_expr_this(&mut self, id: usize, keyword: &Token)
        ensures
            final(self).view() == sp_resolve_expr(
                old(self).view(),
                Expr::This { id, keyword: *keyword },
            ),
    {
        if self.current_class == ClassType::Outside {
            self.add_diagnostic(keyword, "Cannot use 'this' outside of a class");
        }
        self.resolve_local(id, keyword);
    }

    pub fn resolve_expr_variable(&mut self, id: usize, name: &Token)
        ensures
            final(self).view() == sp_resolve_expr(old(self).view(), Expr::Variable { id, name: *name }),
    {
        if self.scopes.is_declared_in_current_scope(name.lexeme.as_str()) {
            self.add_diagnostic(name, "Cannot read local variable in its own initialiser");
        }
        self.resolve_local(id, name);
    }

    pub fn resolve_local(&mut self, id: usize, name: &Token)
        ensures
            final(self).view() == sp_resolve_local(old(self).view(), id, name.lexeme@),
    {
        match self.scopes.find_depth(name.lexeme.as_str()) {
            Some(d) => {
                self.depths.insert(id, d);
            },
            None => {},
        }
    }

    fn declare_params(&mut self, params: &Vec<Token>)
        ensures
            final(self).view() == sp_declare_params(old(self).view(), params@),
    {
        let mut i: usize = 0;
        while i < params.len()
            invariant
                0 <= i <= params.len(),
                self.view() == sp_declare_params(old(self).view(), params@.take(i as int)),
            decreases params.len() - i,
        {
            self.declare(&params[i]);
            self.define(params[i].lexeme.as_str());
            assert(params@.take(i + 1).drop_last() =~= params@.take(i as int));
            i = i + 1;
        }
        assert(params@.take(params.len() as int) =~= params@);
    }

    pub fn resolve_function(&mut self, function_type: FunctionType, function: &Function)
        ensures
            final(self).view() == sp_resolve_function(old(self).view(), function_type, *function),
        decreases function, 0int,
    {
        let enclosing_function = self.current_function;
        self.current_function = function_type;
        self.scopes.begin();
        self.declare_params(function.params());
        self.resolve_stmts(function.body());
        self.scopes.end();
        self.current_function = enclosing_function;
    }
}

/// Declaring a name reports "Already a variable with the name ... is in scope",
/// at the name, exactly when the innermost scope already holds that name.  A
/// name that only enclosing scopes hold (or none) is declared without a
/// report, the enclosing scopes are left as they were, and the name is from
/// then on found in the innermost scope.
pub proof fn law_declare_reports_only_a_name_of_the_innermost_scope(st: ResolveState, name: Token)
    ensures
        st.scopes.len() > 0 && st.scopes.last().contains_key(name.lexeme@) ==> sp_declare(
            st,
            name,
        ).reports == st.reports.push(
            diagnostic(name.start, name.end, already_declared_message(name.lexeme@)),
        ),
        !(st.scopes.len() > 0 && st.scopes.last().contains_key(name.lexeme@)) ==> sp_declare(
            st,
            name,
        ).reports == st.reports,
        st.scopes.len() > 0 ==> spec_find_depth(sp_declare(st, name).scopes, name.lexeme@) == Some(
            0usize,
        ),
        sp_declare(st, name).scopes.len() == st.scopes.len(),
        forall|j: int|
            0 <= j < st.scopes.len() - 1 ==> #[trigger] sp_declare(st, name).scopes[j] == st.scopes[j],
        sp_declare(st, name).depths == st.depths,
{
}

/// A local name held by an enclosing scope but not by the innermost one is
/// shadowed without a report: afterwards it is found in the innermost scope.
pub proof fn law_shadowing_an_enclosing_local_is_allowed(st: ResolveState, name: Token)
    requires
        st.scopes.len() > 1,
        !st.scopes.last().contains_key(name.lexeme@),
        spec_find_depth(st.scopes, name.lexeme@) is Some,
    ensures
        sp_declare(st, name).reports == st.reports,
        spec_find_depth(sp_declare(st, name).scopes, name.lexeme@) == Some(0usize),
{
}

} // verus!
