use crate::expr::ExprView;
use crate::location::FileLocation;
use crate::stmt::{FunctionView, StmtView};
use crate::token::TokenView;
use vstd::prelude::*;

verus! {

/// The kind of a completion that names a method.
pub const COMPLETION_TYPE_METHOD: u32 = 1;

/// The kind of a completion that names a property.
pub const COMPLETION_TYPE_PROPERTY: u32 = 9;

/// A class: its name, the name of its superclass, its methods and the
/// properties assigned on its instances.
pub struct ClassModel {
    pub name: TokenView,
    pub superclass: Option<Seq<char>>,
    pub methods: Seq<TokenView>,
    pub properties: Seq<TokenView>,
}

/// What one scope declares: identifiers, the class of each variable known to
/// hold an instance, and classes.
pub struct ScopeModel {
    pub identifiers: Seq<TokenView>,
    pub types: Seq<(Seq<char>, Seq<char>)>,
    pub classes: Seq<ClassModel>,
}

/// Where a walk of a program stands: the open scopes (the innermost last), the
/// class being declared, and the definitions and completions found so far.
pub struct WalkState {
    pub scopes: Seq<ScopeModel>,
    pub current_class: Option<Seq<char>>,
    pub definitions: Seq<TokenView>,
    pub completions: Seq<(Seq<char>, u32)>,
}

/// Whether `location` comes at or before `position`.
pub open spec fn starts_before(location: FileLocation, position: FileLocation) -> bool {
    location.line_number < position.line_number || (location.line_number == position.line_number
        && location.line_offset <= position.line_offset)
}

/// Whether `location` comes at or after `position`.
pub open spec fn ends_after(location: FileLocation, position: FileLocation) -> bool {
    location.line_number > position.line_number || (location.line_number == position.line_number
        && location.line_offset >= position.line_offset)
}

/// Whether a token spans `position`.
pub open spec fn token_at(token: TokenView, position: FileLocation) -> bool {
    starts_before(token.start, position) && ends_after(token.end, position)
}

/// Whether `i` is the first position of `name` in `keys`.
pub open spec fn is_first(keys: Seq<Seq<char>>, name: Seq<char>, i: int) -> bool {
    &&& 0 <= i < keys.len()
    &&& keys[i] == name
    &&& forall|j: int| 0 <= j < i ==> keys[j] != name
}

/// The first position of `name` in `keys`.
pub open spec fn key_index(keys: Seq<Seq<char>>, name: Seq<char>) -> Option<int> {
    if exists|i: int| is_first(keys, name, i) {
        Some(choose|i: int| is_first(keys, name, i))
    } else {
        None
    }
}

pub open spec fn lexemes(tokens: Seq<TokenView>) -> Seq<Seq<char>> {
    tokens.map_values(|t: TokenView| t.lexeme)
}

pub open spec fn type_names(types: Seq<(Seq<char>, Seq<char>)>) -> Seq<Seq<char>> {
    types.map_values(|p: (Seq<char>, Seq<char>)| p.0)
}

pub open spec fn class_names(classes: Seq<ClassModel>) -> Seq<Seq<char>> {
    classes.map_values(|c: ClassModel| c.name.lexeme)
}

/// `s` with the item at `i` replaced by `x`, or with `x` added where there is
/// no such item.
pub open spec fn set_or_push<T>(s: Seq<T>, i: Option<int>, x: T) -> Seq<T> {
    match i {
        Some(i) => s.update(i, x),
        None => s.push(x),
    }
}

/// `scopes` with the innermost one replaced by `scope`, where there is one.
pub open spec fn with_innermost(scopes: Seq<ScopeModel>, scope: ScopeModel) -> Seq<ScopeModel> {
    if scopes.len() > 0 {
        scopes.update(scopes.len() - 1, scope)
    } else {
        scopes
    }
}

/// Declares `token` in the innermost scope, in place of a declaration of the same name.
pub open spec fn define_identifier(scopes: Seq<ScopeModel>, token: TokenView) -> Seq<ScopeModel> {
    let s = scopes.last();
    let ids = set_or_push(s.identifiers, key_index(lexemes(s.identifiers), token.lexeme), token);
    with_innermost(scopes, ScopeModel { identifiers: ids, ..s })
}

/// Records, in the innermost scope, that `name` holds an instance of `typ`.
pub open spec fn define_type(scopes: Seq<ScopeModel>, name: Seq<char>, typ: Seq<char>) -> Seq<
    ScopeModel,
> {
    let s = scopes.last();
    let types = set_or_push(s.types, key_index(type_names(s.types), name), (name, typ));
    with_innermost(scopes, ScopeModel { types, ..s })
}

pub open spec fn new_class(name: TokenView, superclass: Option<Seq<char>>) -> ClassModel {
    ClassModel { name, superclass, methods: Seq::empty(), properties: Seq::empty() }
}

/// Declares a class in the innermost scope, in place of one of the same name.
pub open spec fn define_class(
    scopes: Seq<ScopeModel>,
    name: TokenView,
    superclass: Option<Seq<char>>,
) -> Seq<ScopeModel> {
    let s = scopes.last();
    let classes = set_or_push(
        s.classes,
        key_index(class_names(s.classes), name.lexeme),
        new_class(name, superclass),
    );
    with_innermost(scopes, ScopeModel { classes, ..s })
}

/// Where the innermost class named `name` is: its scope and its place there.
pub open spec fn class_position(scopes: Seq<ScopeModel>, name: Seq<char>) -> Option<(int, int)>
    decreases scopes.len(),
{
    if scopes.len() == 0 {
        None
    } else {
        match key_index(class_names(scopes.last().classes), name) {
            Some(i) => Some(((scopes.len() - 1) as int, i)),
            None => class_position(scopes.drop_last(), name),
        }
    }
}

/// The innermost class named `name`.
pub open spec fn find_class(scopes: Seq<ScopeModel>, name: Seq<char>) -> Option<ClassModel> {
    match class_position(scopes, name) {
        Some((n, i)) => Some(scopes[n].classes[i]),
        None => None,
    }
}

/// `scopes` with the class at `(n, i)` replaced by `c`.
pub open spec fn with_class(scopes: Seq<ScopeModel>, n: int, i: int, c: ClassModel) -> Seq<
    ScopeModel,
> {
    scopes.update(n, ScopeModel { classes: scopes[n].classes.update(i, c), ..scopes[n] })
}

/// Adds `method` to the innermost class named `class_name`, in place of a
/// method of the same name.
pub open spec fn add_method(scopes: Seq<ScopeModel>, class_name: Seq<char>, method: TokenView) -> Seq<
    ScopeModel,
> {
    match class_position(scopes, class_name) {
        Some((n, i)) => {
            let c = scopes[n].classes[i];
            let methods = set_or_push(c.methods, key_index(lexemes(c.methods), method.lexeme), method);
            with_class(scopes, n, i, ClassModel { methods, ..c })
        },
        None => scopes,
    }
}

/// Adds `property` to the innermost class named `class_name`, unless it has a
/// property of that name already.
pub open spec fn add_property(
    scopes: Seq<ScopeModel>,
    class_name: Seq<char>,
    property: TokenView,
) -> Seq<ScopeModel> {
    match class_position(scopes, class_name) {
        Some((n, i)) => {
            let c = scopes[n].classes[i];
            if key_index(lexemes(c.properties), property.lexeme) is Some {
                scopes
            } else {
                with_class(scopes, n, i, ClassModel { properties: c.properties.push(property), ..c })
            }
        },
        None => scopes,
    }
}

/// The declaration of `name` in the innermost scope that declares it: an
/// identifier, or else a class.
pub open spec fn find_declaration(scopes: Seq<ScopeModel>, name: Seq<char>) -> Option<TokenView>
    decreases scopes.len(),
{
    if scopes.len() == 0 {
        None
    } else {
        let s = scopes.last();
        match key_index(lexemes(s.identifiers), name) {
            Some(i) => Some(s.identifiers[i]),
            None => match key_index(class_names(s.classes), name) {
                Some(i) => Some(s.classes[i].name),
                None => find_declaration(scopes.drop_last(), name),
            },
        }
    }
}

/// The class recorded for the variable `name` in the innermost scope that records one.
pub open spec fn find_type(scopes: Seq<ScopeModel>, name: Seq<char>) -> Option<Seq<char>>
    decreases scopes.len(),
{
    if scopes.len() == 0 {
        None
    } else {
        match key_index(type_names(scopes.last().types), name) {
            Some(i) => Some(scopes.last().types[i].1),
            None => find_type(scopes.drop_last(), name),
        }
    }
}

/// The number of classes declared in all scopes, at most `usize::MAX`.
pub open spec fn class_count(scopes: Seq<ScopeModel>) -> nat
    decreases scopes.len(),
{
    if scopes.len() == 0 {
        0
    } else {
        let c = class_count(scopes.drop_last()) + scopes.last().classes.len();
        if c > usize::MAX {
            usize::MAX as nat
        } else {
            c
        }
    }
}

/// The method or property `name` of class `c` or, failing that, of its
/// superclasses, following at most `steps` superclasses.
pub open spec fn find_member_of(c: ClassModel, scopes: Seq<ScopeModel>, name: Seq<char>, steps: nat) -> Option<
    TokenView,
>
    decreases steps,
{
    match key_index(lexemes(c.methods), name) {
        Some(i) => Some(c.methods[i]),
        None => match key_index(lexemes(c.properties), name) {
            Some(i) => Some(c.properties[i]),
            None => if steps == 0 {
                None
            } else {
                match c.superclass {
                    Some(s) => match find_class(scopes, s) {
                        Some(sc) => find_member_of(sc, scopes, name, (steps - 1) as nat),
                        None => None,
                    },
                    None => None,
                }
            },
        },
    }
}

/// Each token named, with `kind`.
pub open spec fn named(tokens: Seq<TokenView>, kind: u32) -> Seq<(Seq<char>, u32)> {
    tokens.map_values(|t: TokenView| (t.lexeme, kind))
}

/// The methods of class `c`, its properties too where asked, and the methods
/// of its superclasses, following at most `steps` superclasses.
pub open spec fn completions_of(
    c: ClassModel,
    scopes: Seq<ScopeModel>,
    include_properties: bool,
    steps: nat,
) -> Seq<(Seq<char>, u32)>
    decreases steps,
{
    let own = named(c.methods, COMPLETION_TYPE_METHOD) + if include_properties {
        named(c.properties, COMPLETION_TYPE_PROPERTY)
    } else {
        Seq::empty()
    };
    if steps > 0 {
        match c.superclass {
            Some(s) => match find_class(scopes, s) {
                Some(sc) => own + completions_of(sc, scopes, false, (steps - 1) as nat),
                None => own,
            },
            None => own,
        }
    } else {
        own
    }
}

pub open spec fn empty_scope() -> ScopeModel {
    ScopeModel { identifiers: Seq::empty(), types: Seq::empty(), classes: Seq::empty() }
}

/// A walk that has found nothing yet, with one scope open.
pub open spec fn start_walk() -> WalkState {
    WalkState {
        scopes: seq![empty_scope()],
        current_class: None,
        definitions: Seq::empty(),
        completions: Seq::empty(),
    }
}

pub open spec fn begin(w: WalkState) -> WalkState {
    WalkState { scopes: w.scopes.push(empty_scope()), ..w }
}

pub open spec fn end(w: WalkState) -> WalkState {
    if w.scopes.len() > 0 {
        WalkState { scopes: w.scopes.drop_last(), ..w }
    } else {
        w
    }
}

/// The class of the instance that `e` gives, where it can be told: a variable
/// recorded as holding an instance, a call of a class, or `this`.
pub open spec fn class_for_expr(w: WalkState, e: ExprView) -> Option<ClassModel> {
    match e {
        ExprView::Variable { name, .. } => match find_type(w.scopes, name.lexeme) {
            Some(t) => find_class(w.scopes, t),
            None => None,
        },
        ExprView::Call { callee, .. } => match *callee {
            ExprView::Variable { name, .. } => find_class(w.scopes, name.lexeme),
            _ => None,
        },
        ExprView::This { .. } => match w.current_class {
            Some(c) => find_class(w.scopes, c),
            None => None,
        },
        _ => None,
    }
}

/// The member `name` of the class of `object`, where it can be told.
pub open spec fn find_member(w: WalkState, object: ExprView, name: Seq<char>) -> Option<TokenView> {
    match class_for_expr(w, object) {
        Some(c) => find_member_of(c, w.scopes, name, class_count(w.scopes)),
        None => None,
    }
}

/// The completions for the class of `object`, where it can be told.
pub open spec fn member_completions(w: WalkState, object: ExprView) -> Seq<(Seq<char>, u32)> {
    match class_for_expr(w, object) {
        Some(c) => completions_of(c, w.scopes, true, class_count(w.scopes)),
        None => Seq::empty(),
    }
}

/// The superclass of the class being declared, where it can be told.
pub open spec fn current_superclass(w: WalkState) -> Option<ClassModel> {
    match w.current_class {
        Some(c) => match find_class(w.scopes, c) {
            Some(class) => match class.superclass {
                Some(s) => find_class(w.scopes, s),
                None => None,
            },
            None => None,
        },
        None => None,
    }
}

pub open spec fn add_definition(w: WalkState, d: Option<TokenView>) -> WalkState {
    match d {
        Some(t) => WalkState { definitions: w.definitions.push(t), ..w },
        None => w,
    }
}

pub open spec fn add_completions(w: WalkState, cs: Seq<(Seq<char>, u32)>) -> WalkState {
    WalkState { completions: w.completions + cs, ..w }
}

/// Where `name` spans `position`, its declaration is a definition.
pub open spec fn resolve_local(w: WalkState, position: FileLocation, name: TokenView) -> WalkState {
    if token_at(name, position) {
        add_definition(w, find_declaration(w.scopes, name.lexeme))
    } else {
        w
    }
}

/// Declares each of `params` in the innermost scope, in order.
pub open spec fn define_params(scopes: Seq<ScopeModel>, params: Seq<TokenView>) -> Seq<ScopeModel>
    decreases params.len(),
{
    if params.len() == 0 {
        scopes
    } else {
        define_identifier(define_params(scopes, params.drop_last()), params.last())
    }
}

pub open spec fn walk_stmts(w: WalkState, position: FileLocation, ss: Seq<StmtView>) -> WalkState
    decreases ss,
{
    if ss.len() == 0 {
        w
    } else {
        walk_stmt(walk_stmts(w, position, ss.drop_last()), position, ss[ss.len() - 1])
    }
}

pub open spec fn walk_stmt(w: WalkState, position: FileLocation, s: StmtView) -> WalkState
    decreases s,
{
    match s {
        StmtView::Block { statements } => end(walk_stmts(begin(w), position, statements)),
        StmtView::Class { name, superclass, methods } => {
            let superclass_name = match superclass {
                Some(ExprView::Variable { name: n, .. }) => Some(n.lexeme),
                _ => None,
            };
            let w1 = WalkState {
                scopes: define_class(w.scopes, name, superclass_name),
                current_class: Some(name.lexeme),
                ..w
            };
            let w2 = match superclass {
                Some(e) => begin(walk_expr(w1, position, e)),
                None => w1,
            };
            let w3 = end(walk_methods(begin(w2), position, name.lexeme, methods));
            let w4 = if superclass is Some {
                end(w3)
            } else {
                w3
            };
            WalkState { current_class: w.current_class, ..w4 }
        },
        StmtView::Expression { expression } => walk_expr(w, position, expression),
        StmtView::Function { function } => walk_function(
            WalkState { scopes: define_identifier(w.scopes, function.name), ..w },
            position,
            function,
        ),
        StmtView::If { condition, then_branch, else_branch } => {
            let w1 = walk_stmt(walk_expr(w, position, condition), position, *then_branch);
            match else_branch {
                Some(b) => walk_stmt(w1, position, *b),
                None => w1,
            }
        },
        StmtView::Print { value } => walk_expr(w, position, value),
        StmtView::Return { value, .. } => match value {
            Some(e) => walk_expr(w, position, e),
            None => w,
        },
        StmtView::Var { name, initialiser } => {
            let w1 = WalkState { scopes: define_identifier(w.scopes, name), ..w };
            match initialiser {
                Some(e) => {
                    let w2 = match e {
                        ExprView::Call { callee, .. } => match *callee {
                            ExprView::Variable { name: class, .. } => if find_class(
                                w1.scopes,
                                class.lexeme,
                            ) is Some {
                                WalkState {
                                    scopes: define_type(w1.scopes, name.lexeme, class.lexeme),
                                    ..w1
                                }
                            } else {
                                w1
                            },
                            _ => w1,
                        },
                        _ => w1,
                    };
                    walk_expr(w2, position, e)
                },
                None => w1,
            }
        },
        StmtView::While { condition, body } => walk_stmt(
            walk_expr(w, position, condition),
            position,
            *body,
        ),
    }
}

/// The methods of the class `class_name`, each added to it and walked.
pub open spec fn walk_methods(
    w: WalkState,
    position: FileLocation,
    class_name: Seq<char>,
    ms: Seq<StmtView>,
) -> WalkState
    decreases ms,
{
    if ms.len() == 0 {
        w
    } else {
        let w1 = walk_methods(w, position, class_name, ms.drop_last());
        match ms[ms.len() - 1] {
            StmtView::Function { function } => walk_function(
                WalkState { scopes: add_method(w1.scopes, class_name, function.name), ..w1 },
                position,
                function,
            ),
            _ => w1,
        }
    }
}

/// The parameters of a function declared in a new scope, and its body walked.
pub open spec fn walk_function(w: WalkState, position: FileLocation, f: FunctionView) -> WalkState
    decreases f,
{
    let w1 = begin(w);
    let w2 = WalkState { scopes: define_params(w1.scopes, f.params), ..w1 };
    end(walk_stmts(w2, position, f.body))
}

pub open spec fn walk_exprs(w: WalkState, position: FileLocation, es: Seq<ExprView>) -> WalkState
    decreases es,
{
    if es.len() == 0 {
        w
    } else {
        walk_expr(walk_exprs(w, position, es.drop_last()), position, es[es.len() - 1])
    }
}

pub open spec fn walk_expr(w: WalkState, position: FileLocation, e: ExprView) -> WalkState
    decreases e,
{
    match e {
        ExprView::Assign { name, value, .. } => resolve_local(
            walk_expr(w, position, *value),
            position,
            name,
        ),
        ExprView::Binary { left, right, .. } => walk_expr(
            walk_expr(w, position, *left),
            position,
            *right,
        ),
        ExprView::Call { callee, arguments, .. } => walk_exprs(
            walk_expr(w, position, *callee),
            position,
            arguments,
        ),
        ExprView::Get { object, name, .. } => if token_at(name, position) {
            add_definition(w, find_member(w, *object, name.lexeme))
        } else {
            walk_expr(resolve_local(w, position, name), position, *object)
        },
        ExprView::Grouping { expression, .. } => walk_expr(w, position, *expression),
        ExprView::InvalidGet { object, name, .. } => if token_at(name, position) {
            add_completions(w, member_completions(w, *object))
        } else {
            walk_expr(resolve_local(w, position, name), position, *object)
        },
        ExprView::InvalidSuper { method, .. } => if token_at(method, position) {
            add_completions(
                w,
                match current_superclass(w) {
                    Some(sc) => completions_of(sc, w.scopes, true, class_count(w.scopes)),
                    None => Seq::empty(),
                },
            )
        } else {
            w
        },
        ExprView::Literal { .. } => w,
        ExprView::Logical { left, right, .. } => walk_expr(
            walk_expr(w, position, *left),
            position,
            *right,
        ),
        ExprView::SetProperty { object, name, value, .. } => {
            let w1 = match class_for_expr(w, *object) {
                Some(c) => WalkState { scopes: add_property(w.scopes, c.name.lexeme, name), ..w },
                None => w,
            };
            if token_at(name, position) {
                add_definition(w1, find_member(w1, *object, name.lexeme))
            } else {
                walk_expr(
                    resolve_local(walk_expr(w1, position, *object), position, name),
                    position,
                    *value,
                )
            }
        },
        ExprView::Super { method, .. } => if token_at(method, position) {
            add_definition(
                w,
                match current_superclass(w) {
                    Some(sc) => find_member_of(sc, w.scopes, method.lexeme, class_count(w.scopes)),
                    None => None,
                },
            )
        } else {
            w
        },
        ExprView::This { .. } => w,
        ExprView::Unary { right, .. } => walk_expr(w, position, *right),
        ExprView::Variable { name, .. } => resolve_local(w, position, name),
    }
}

/// Every completion is of one of the two kinds.
pub open spec fn kinds_known(completions: Seq<(Seq<char>, u32)>) -> bool {
    forall|i: int|
        0 <= i < completions.len() ==> #[trigger] completions[i].1 == COMPLETION_TYPE_METHOD
            || completions[i].1 == COMPLETION_TYPE_PROPERTY
}

proof fn lemma_named_kinds(tokens: Seq<TokenView>, kind: u32)
    requires
        kind == COMPLETION_TYPE_METHOD || kind == COMPLETION_TYPE_PROPERTY,
    ensures
        kinds_known(named(tokens, kind)),
{
}

proof fn lemma_append_kinds(a: Seq<(Seq<char>, u32)>, b: Seq<(Seq<char>, u32)>)
    requires
        kinds_known(a),
        kinds_known(b),
    ensures
        kinds_known(a + b),
{
    assert forall|i: int| 0 <= i < (a + b).len() implies #[trigger] (a + b)[i].1
        == COMPLETION_TYPE_METHOD || (a + b)[i].1 == COMPLETION_TYPE_PROPERTY by {
        if i < a.len() {
            assert((a + b)[i] == a[i]);
        } else {
            assert((a + b)[i] == b[i - a.len()]);
        }
    }
}

/// The completions of a class are methods and properties.
pub proof fn lemma_completions_of_kinds(
    c: ClassModel,
    scopes: Seq<ScopeModel>,
    include_properties: bool,
    steps: nat,
)
    ensures
        kinds_known(completions_of(c, scopes, include_properties, steps)),
    decreases steps,
{
    lemma_named_kinds(c.methods, COMPLETION_TYPE_METHOD);
    lemma_named_kinds(c.properties, COMPLETION_TYPE_PROPERTY);
    let own = named(c.methods, COMPLETION_TYPE_METHOD) + if include_properties {
        named(c.properties, COMPLETION_TYPE_PROPERTY)
    } else {
        Seq::empty()
    };
    lemma_append_kinds(
        named(c.methods, COMPLETION_TYPE_METHOD),
        if include_properties {
            named(c.properties, COMPLETION_TYPE_PROPERTY)
        } else {
            Seq::empty()
        },
    );
    if steps > 0 {
        if let Some(s) = c.superclass {
            if let Some(sc) = find_class(scopes, s) {
                lemma_completions_of_kinds(sc, scopes, false, (steps - 1) as nat);
                lemma_append_kinds(own, completions_of(sc, scopes, false, (steps - 1) as nat));
            }
        }
    }
}

proof fn lemma_add_completions_kinds(w: WalkState, cs: Seq<(Seq<char>, u32)>)
    requires
        kinds_known(w.completions),
        kinds_known(cs),
    ensures
        kinds_known(add_completions(w, cs).completions),
{
    lemma_append_kinds(w.completions, cs);
}

proof fn lemma_walk_stmts_kinds(w: WalkState, position: FileLocation, ss: Seq<StmtView>)
    requires
        kinds_known(w.completions),
    ensures
        kinds_known(walk_stmts(w, position, ss).completions),
    decreases ss,
{
    if ss.len() > 0 {
        lemma_walk_stmts_kinds(w, position, ss.drop_last());
        lemma_walk_stmt_kinds(walk_stmts(w, position, ss.drop_last()), position, ss[ss.len() - 1]);
    }
}

proof fn lemma_walk_stmt_kinds(w: WalkState, position: FileLocation, s: StmtView)
    requires
        kinds_known(w.completions),
    ensures
        kinds_known(walk_stmt(w, position, s).completions),
    decreases s,
{
    match s {
        StmtView::Block { statements } => {
            lemma_walk_stmts_kinds(begin(w), position, statements);
        },
        StmtView::Class { name, superclass, methods } => {
            let superclass_name = match superclass {
                Some(ExprView::Variable { name: n, .. }) => Some(n.lexeme),
                _ => None,
            };
            let w1 = WalkState {
                scopes: define_class(w.scopes, name, superclass_name),
                current_class: Some(name.lexeme),
                ..w
            };
            let w2 = match superclass {
                Some(e) => {
                    lemma_walk_expr_kinds(w1, position, e);
                    begin(walk_expr(w1, position, e))
                },
                None => w1,
            };
            lemma_walk_methods_kinds(begin(w2), position, name.lexeme, methods);
        },
        StmtView::Expression { expression } => lemma_walk_expr_kinds(w, position, expression),
        StmtView::Function { function } => lemma_walk_function_kinds(
            WalkState { scopes: define_identifier(w.scopes, function.name), ..w },
            position,
            function,
        ),
        StmtView::If { condition, then_branch, else_branch } => {
            lemma_walk_expr_kinds(w, position, condition);
            lemma_walk_stmt_kinds(walk_expr(w, position, condition), position, *then_branch);
            let w1 = walk_stmt(walk_expr(w, position, condition), position, *then_branch);
            if let Some(b) = else_branch {
                lemma_walk_stmt_kinds(w1, position, *b);
            }
        },
        StmtView::Print { value } => lemma_walk_expr_kinds(w, position, value),
        StmtView::Return { value, .. } => {
            if let Some(e) = value {
                lemma_walk_expr_kinds(w, position, e);
            }
        },
        StmtView::Var { name, initialiser } => {
            let w1 = WalkState { scopes: define_identifier(w.scopes, name), ..w };
            if let Some(e) = initialiser {
                let w2 = match e {
                    ExprView::Call { callee, .. } => match *callee {
                        ExprView::Variable { name: class, .. } => if find_class(
                            w1.scopes,
                            class.lexeme,
                        ) is Some {
                            WalkState {
                                scopes: define_type(w1.scopes, name.lexeme, class.lexeme),
                                ..w1
                            }
                        } else {
                            w1
                        },
                        _ => w1,
                    },
                    _ => w1,
                };
                lemma_walk_expr_kinds(w2, position, e);
            }
        },
        StmtView::While { condition, body } => {
            lemma_walk_expr_kinds(w, position, condition);
            lemma_walk_stmt_kinds(walk_expr(w, position, condition), position, *body);
        },
    }
}

proof fn lemma_walk_methods_kinds(
    w: WalkState,
    position: FileLocation,
    class_name: Seq<char>,
    ms: Seq<StmtView>,
)
    requires
        kinds_known(w.completions),
    ensures
        kinds_known(walk_methods(w, position, class_name, ms).completions),
    decreases ms,
{
    if ms.len() > 0 {
        lemma_walk_methods_kinds(w, position, class_name, ms.drop_last());
        let w1 = walk_methods(w, position, class_name, ms.drop_last());
        if let StmtView::Function { function } = ms[ms.len() - 1] {
            lemma_walk_function_kinds(
                WalkState { scopes: add_method(w1.scopes, class_name, function.name), ..w1 },
                position,
                function,
            );
        }
    }
}

proof fn lemma_walk_function_kinds(w: WalkState, position: FileLocation, f: FunctionView)
    requires
        kinds_known(w.completions),
    ensures
        kinds_known(walk_function(w, position, f).completions),
    decreases f,
{
    let w1 = begin(w);
    lemma_walk_stmts_kinds(
        WalkState { scopes: define_params(w1.scopes, f.params), ..w1 },
        position,
        f.body,
    );
}

proof fn lemma_walk_exprs_kinds(w: WalkState, position: FileLocation, es: Seq<ExprView>)
    requires
        kinds_known(w.completions),
    ensures
        kinds_known(walk_exprs(w, position, es).completions),
    decreases es,
{
    if es.len() > 0 {
        lemma_walk_exprs_kinds(w, position, es.drop_last());
        lemma_walk_expr_kinds(walk_exprs(w, position, es.drop_last()), position, es[es.len() - 1]);
    }
}

proof fn lemma_walk_expr_kinds(w: WalkState, position: FileLocation, e: ExprView)
    requires
        kinds_known(w.completions),
    ensures
        kinds_known(walk_expr(w, position, e).completions),
    decreases e,
{
    match e {
        ExprView::Assign { value, .. } => lemma_walk_expr_kinds(w, position, *value),
        ExprView::Binary { left, right, .. } => {
            lemma_walk_expr_kinds(w, position, *left);
            lemma_walk_expr_kinds(walk_expr(w, position, *left), position, *right);
        },
        ExprView::Call { callee, arguments, .. } => {
            lemma_walk_expr_kinds(w, position, *callee);
            lemma_walk_exprs_kinds(walk_expr(w, position, *callee), position, arguments);
        },
        ExprView::Get { object, name, .. } => {
            if !token_at(name, position) {
                lemma_walk_expr_kinds(resolve_local(w, position, name), position, *object);
            }
        },
        ExprView::Grouping { expression, .. } => lemma_walk_expr_kinds(w, position, *expression),
        ExprView::InvalidGet { object, name, .. } => {
            if token_at(name, position) {
                if let Some(c) = class_for_expr(w, *object) {
                    lemma_completions_of_kinds(c, w.scopes, true, class_count(w.scopes));
                }
                lemma_add_completions_kinds(w, member_completions(w, *object));
            } else {
                lemma_walk_expr_kinds(resolve_local(w, position, name), position, *object);
            }
        },
        ExprView::InvalidSuper { method, .. } => {
            if token_at(method, position) {
                let cs = match current_superclass(w) {
                    Some(sc) => {
                        lemma_completions_of_kinds(sc, w.scopes, true, class_count(w.scopes));
                        completions_of(sc, w.scopes, true, class_count(w.scopes))
                    },
                    None => Seq::empty(),
                };
                lemma_add_completions_kinds(w, cs);
            }
        },
        ExprView::Logical { left, right, .. } => {
            lemma_walk_expr_kinds(w, position, *left);
            lemma_walk_expr_kinds(walk_expr(w, position, *left), position, *right);
        },
        ExprView::SetProperty { object, name, value, .. } => {
            let w1 = match class_for_expr(w, *object) {
                Some(c) => WalkState { scopes: add_property(w.scopes, c.name.lexeme, name), ..w },
                None => w,
            };
            if !token_at(name, position) {
                lemma_walk_expr_kinds(w1, position, *object);
                lemma_walk_expr_kinds(
                    resolve_local(walk_expr(w1, position, *object), position, name),
                    position,
                    *value,
                );
            }
        },
        ExprView::Unary { right, .. } => lemma_walk_expr_kinds(w, position, *right),
        _ => {},
    }
}

/// A walk only ever collects completions that name a method or a property.
pub proof fn law_walk_completion_kinds(position: FileLocation, statements: Seq<StmtView>)
    ensures
        kinds_known(walk_stmts(start_walk(), position, statements).completions),
{
    lemma_walk_stmts_kinds(start_walk(), position, statements);
}

/// Where `name` occurs in `keys`, its first position is what `key_index` gives;
/// where it does not, there is none.
proof fn lemma_key_index(keys: Seq<Seq<char>>, name: Seq<char>, k: int)
    requires
        0 <= k < keys.len(),
        keys[k] == name,
    ensures
        key_index(keys, name) matches Some(i) && is_first(keys, name, i) && i <= k,
    decreases k,
{
    if forall|j: int| 0 <= j < k ==> keys[j] != name {
        assert(is_first(keys, name, k));
        let i = key_index(keys, name)->Some_0;
        assert(is_first(keys, name, i));
        if i > k {
            assert(keys[k] != name);
        }
    } else {
        let j = choose|j: int| 0 <= j < k && keys[j] == name;
        lemma_key_index(keys, name, j);
    }
}

proof fn lemma_key_index_absent(keys: Seq<Seq<char>>, name: Seq<char>)
    requires
        forall|j: int| 0 <= j < keys.len() ==> keys[j] != name,
    ensures
        key_index(keys, name) is None,
{
    if exists|i: int| is_first(keys, name, i) {
        let i = choose|i: int| is_first(keys, name, i);
        assert(keys[i] == name);
    }
}

/// Whether no identifier and no class of `scope` is named `name`.
pub open spec fn declares_nothing_named(scope: ScopeModel, name: Seq<char>) -> bool {
    &&& forall|k: int| 0 <= k < scope.identifiers.len() ==> scope.identifiers[k].lexeme != name
    &&& forall|k: int| 0 <= k < scope.classes.len() ==> scope.classes[k].name.lexeme != name
}

/// A name is found in the nearest enclosing scope that declares it.  Where
/// that scope (scope `i`) declares it by a class statement and by no
/// identifier, the declaration found is the name token of that scope's first
/// class of that name.
pub proof fn law_find_declaration_gives_the_nearest_class(
    scopes: Seq<ScopeModel>,
    name: Seq<char>,
    i: int,
    k: int,
)
    requires
        0 <= i < scopes.len(),
        0 <= k < scopes[i].classes.len(),
        scopes[i].classes[k].name.lexeme == name,
        forall|m: int|
            0 <= m < scopes[i].identifiers.len() ==> scopes[i].identifiers[m].lexeme != name,
        forall|j: int| i < j < scopes.len() ==> declares_nothing_named(#[trigger] scopes[j], name),
    ensures
        exists|c: int|
            0 <= c <= k && find_declaration(scopes, name) == Some(scopes[i].classes[c].name)
                && scopes[i].classes[c].name.lexeme == name && forall|m: int|
                0 <= m < c ==> scopes[i].classes[m].name.lexeme != name,
    decreases scopes.len(),
{
    let s = scopes.last();
    if i == scopes.len() - 1 {
        lemma_key_index_absent(lexemes(s.identifiers), name);
        lemma_key_index(class_names(s.classes), name, k);
        let c = key_index(class_names(s.classes), name)->Some_0;
        assert(find_declaration(scopes, name) == Some(s.classes[c].name));
        assert forall|m: int| 0 <= m < c implies scopes[i].classes[m].name.lexeme != name by {
            assert(class_names(s.classes)[m] != name);
        }
    } else {
        assert(declares_nothing_named(scopes[scopes.len() - 1], name));
        lemma_key_index_absent(lexemes(s.identifiers), name);
        lemma_key_index_absent(class_names(s.classes), name);
        let rest = scopes.drop_last();
        assert forall|j: int| i < j < rest.len() implies declares_nothing_named(#[trigger] rest[j], name) by {
            assert(rest[j] == scopes[j]);
        }
        law_find_declaration_gives_the_nearest_class(rest, name, i, k);
    }
}

/// Where scope `i` is the nearest to declare `name` by an identifier, the
/// declaration found is that scope's first identifier of that name.
pub proof fn law_find_declaration_gives_the_nearest_identifier(
    scopes: Seq<ScopeModel>,
    name: Seq<char>,
    i: int,
    k: int,
)
    requires
        0 <= i < scopes.len(),
        0 <= k < scopes[i].identifiers.len(),
        scopes[i].identifiers[k].lexeme == name,
        forall|j: int| i < j < scopes.len() ==> declares_nothing_named(#[trigger] scopes[j], name),
    ensures
        exists|c: int|
            0 <= c <= k && find_declaration(scopes, name) == Some(scopes[i].identifiers[c])
                && scopes[i].identifiers[c].lexeme == name && forall|m: int|
                0 <= m < c ==> scopes[i].identifiers[m].lexeme != name,
    decreases scopes.len(),
{
    let s = scopes.last();
    if i == scopes.len() - 1 {
        lemma_key_index(lexemes(s.identifiers), name, k);
        let c = key_index(lexemes(s.identifiers), name)->Some_0;
        assert forall|m: int| 0 <= m < c implies scopes[i].identifiers[m].lexeme != name by {
            assert(lexemes(s.identifiers)[m] != name);
        }
    } else {
        assert(declares_nothing_named(scopes[scopes.len() - 1], name));
        lemma_key_index_absent(lexemes(s.identifiers), name);
        lemma_key_index_absent(class_names(s.classes), name);
        let rest = scopes.drop_last();
        assert forall|j: int| i < j < rest.len() implies declares_nothing_named(#[trigger] rest[j], name) by {
            assert(rest[j] == scopes[j]);
        }
        law_find_declaration_gives_the_nearest_identifier(rest, name, i, k);
    }
}

/// A name that no scope declares is not found.
pub proof fn law_find_declaration_of_an_undeclared_name(scopes: Seq<ScopeModel>, name: Seq<char>)
    requires
        forall|j: int| 0 <= j < scopes.len() ==> declares_nothing_named(#[trigger] scopes[j], name),
    ensures
        find_declaration(scopes, name) is None,
    decreases scopes.len(),
{
    if scopes.len() > 0 {
        let s = scopes.last();
        assert(declares_nothing_named(scopes[scopes.len() - 1], name));
        lemma_key_index_absent(lexemes(s.identifiers), name);
        lemma_key_index_absent(class_names(s.classes), name);
        let rest = scopes.drop_last();
        assert forall|j: int| 0 <= j < rest.len() implies declares_nothing_named(#[trigger] rest[j], name) by {
            assert(rest[j] == scopes[j]);
        }
        law_find_declaration_of_an_undeclared_name(rest, name);
    }
}

/// The class recorded for a variable comes from the nearest enclosing scope
/// that records one for it (scope `i`), whatever the scopes inside it: that
/// scope's first record for the name.
pub proof fn law_find_type_gives_the_nearest_record(
    scopes: Seq<ScopeModel>,
    name: Seq<char>,
    i: int,
    k: int,
)
    requires
        0 <= i < scopes.len(),
        0 <= k < scopes[i].types.len(),
        scopes[i].types[k].0 == name,
        forall|j: int, m: int|
            i < j < scopes.len() && 0 <= m < scopes[j].types.len() ==> #[trigger] scopes[j].types[m].0
                != name,
    ensures
        exists|c: int|
            0 <= c <= k && find_type(scopes, name) == Some(scopes[i].types[c].1) && scopes[i].types[c].0
                == name && forall|m: int| 0 <= m < c ==> scopes[i].types[m].0 != name,
    decreases scopes.len(),
{
    let s = scopes.last();
    if i == scopes.len() - 1 {
        lemma_key_index(type_names(s.types), name, k);
        let c = key_index(type_names(s.types), name)->Some_0;
        assert forall|m: int| 0 <= m < c implies scopes[i].types[m].0 != name by {
            assert(type_names(s.types)[m] != name);
        }
    } else {
        assert forall|m: int| 0 <= m < type_names(s.types).len() implies type_names(s.types)[m] != name by {
            assert(scopes[scopes.len() - 1].types[m].0 != name);
        }
        lemma_key_index_absent(type_names(s.types), name);
        let rest = scopes.drop_last();
        assert forall|j: int, m: int| i < j < rest.len() && 0 <= m < rest[j].types.len() implies #[trigger] rest[j].types[m].0 != name by {
            assert(rest[j] == scopes[j]);
        }
        law_find_type_gives_the_nearest_record(rest, name, i, k);
    }
}

/// `set_or_push` at the first position of `name` puts `x` where a lookup of
/// `name` then finds it.
proof fn lemma_set_or_push_found<T>(items: Seq<T>, keys: Seq<Seq<char>>, name: Seq<char>, x: T, new_keys: Seq<Seq<char>>)
    requires
        keys.len() == items.len(),
        new_keys.len() == set_or_push(items, key_index(keys, name), x).len(),
        forall|j: int| 0 <= j < keys.len() && key_index(keys, name) != Some(j) ==> #[trigger] new_keys[j] == keys[j],
        key_index(keys, name) matches Some(i) ==> new_keys[i] == name,
        key_index(keys, name) is None ==> new_keys[keys.len() as int] == name,
    ensures
        key_index(new_keys, name) matches Some(i) && set_or_push(items, key_index(keys, name), x)[i] == x,
{
    match key_index(keys, name) {
        Some(i) => {
            assert(is_first(keys, name, i));
            lemma_key_index(new_keys, name, i);
            let f = key_index(new_keys, name)->Some_0;
            if f < i {
                assert(new_keys[f] == keys[f]);
            }
        },
        None => {
            let n = keys.len() as int;
            lemma_key_index(new_keys, name, n);
            let f = key_index(new_keys, name)->Some_0;
            if f < n {
                assert(new_keys[f] == keys[f]);
                assert(is_first(keys, name, f) || exists|g: int| 0 <= g < f && keys[g] == name);
                if exists|g: int| 0 <= g < f && keys[g] == name {
                    let g = choose|g: int| 0 <= g < f && keys[g] == name;
                    lemma_key_index(keys, name, g);
                } else {
                    assert(is_first(keys, name, f));
                }
            }
        },
    }
}

/// After a class statement declares `name` in the innermost scope, where no
/// identifier of the innermost scope has that name, looking the name up finds
/// the class's name token.
pub proof fn law_declared_class_is_found(
    scopes: Seq<ScopeModel>,
    name: TokenView,
    superclass: Option<Seq<char>>,
)
    requires
        scopes.len() > 0,
        forall|m: int|
            0 <= m < scopes.last().identifiers.len() ==> scopes.last().identifiers[m].lexeme
                != name.lexeme,
    ensures
        find_declaration(define_class(scopes, name, superclass), name.lexeme) == Some(name),
{
    let s = scopes.last();
    let after = define_class(scopes, name, superclass);
    let t = after.last();
    lemma_set_or_push_found(s.classes, class_names(s.classes), name.lexeme, new_class(name, superclass), class_names(t.classes));
    lemma_key_index_absent(lexemes(t.identifiers), name.lexeme);
}

/// After an identifier is declared in the innermost scope, looking its name up
/// finds it.
pub proof fn law_declared_identifier_is_found(scopes: Seq<ScopeModel>, token: TokenView)
    requires
        scopes.len() > 0,
    ensures
        find_declaration(define_identifier(scopes, token), token.lexeme) == Some(token),
{
    let s = scopes.last();
    let after = define_identifier(scopes, token);
    lemma_set_or_push_found(s.identifiers, lexemes(s.identifiers), token.lexeme, token, lexemes(after.last().identifiers));
}

/// After the innermost scope records that `name` holds an instance of `typ`,
/// the class found for `name` is `typ`.
pub proof fn law_recorded_type_is_found(scopes: Seq<ScopeModel>, name: Seq<char>, typ: Seq<char>)
    requires
        scopes.len() > 0,
    ensures
        find_type(define_type(scopes, name, typ), name) == Some(typ),
{
    let s = scopes.last();
    let after = define_type(scopes, name, typ);
    lemma_set_or_push_found(s.types, type_names(s.types), name, (name, typ), type_names(after.last().types));
}

} // verus!
