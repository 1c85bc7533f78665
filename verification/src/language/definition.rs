use super::completion::{
    completions_view,
    sort_unique,
    strictly_sorted,
};
use super::model::{
    ClassModel,
    ScopeModel,
    WalkState,
    add_method as spec_add_method,
    add_property as spec_add_property,
    class_count as spec_class_count,
    class_names,
    class_position,
    completions_of,
    define_class as spec_define_class,
    define_identifier as spec_define_identifier,
    define_type as spec_define_type,
    empty_scope,
    ends_after,
    find_class as spec_find_class,
    find_declaration,
    find_member_of,
    find_type,
    is_first,
    kinds_known,
    law_walk_completion_kinds,
    key_index,
    lexemes,
    named,
    new_class,
    set_or_push,
    start_walk,
    starts_before,
    type_names,
    walk_exprs,
    walk_expr,
    walk_function,
    walk_methods,
    walk_stmt,
    walk_stmts,
    define_params,
    class_for_expr,
    token_at,
    add_completions as spec_add_completions,
    add_definition as spec_add_definition,
    current_superclass as spec_current_superclass,
    find_member as spec_find_member,
    member_completions as spec_member_completions,
    resolve_local as spec_resolve_local,
};
use crate::expr::{
    Expr,
    ExprView,
    ProvideLocation,
    lemma_view_exprs_push,
    view_expr,
    view_exprs,
};
use crate::interpreter::{
    expr_height,
    exprs_height,
    lemma_exprs_height,
};
use crate::location::FileLocation;
use crate::parser::grammar::parsed;
use crate::parser::{
    opt_token_view,
    parse_allow_invalid_call,
};
use crate::reporter::Collector;
use crate::scanner::{
    scan_tokens,
    spec_scan,
    spec_scannable,
    tokens_view,
};
use crate::stmt::{
    Function,
    FunctionView,
    Stmt,
    StmtView,
    lemma_view_stmts_push,
    view_opt_expr,
    view_stmt,
    view_stmts,
};
use crate::token::{
    str_equal,
    Token,
    TokenView,
};
use vstd::prelude::*;

pub use super::model::{
    COMPLETION_TYPE_METHOD,
    COMPLETION_TYPE_PROPERTY,
};

verus! {

/// What a walk of `source` for `position` finds.
pub open spec fn walked(position: FileLocation, source: Seq<char>) -> WalkState {
    walk_stmts(start_walk(), position, parsed(spec_scan(source).0, true).0)
}

/// The tokens that declare the thing named at `position` in `source`: a
/// variable, function, parameter, class, method or property.
pub fn provide_definition(position: &FileLocation, source: &str) -> (definitions: Vec<Token>)
    requires
        spec_scannable(source@),
    ensures
        tokens_view(definitions@) == walked(*position, source@).definitions,
{
    let mut reporter = Collector::new();
    let tokens = scan_tokens(&mut reporter, source);
    let ast = parse_allow_invalid_call(&mut reporter, tokens);
    definition_for_position(position, &ast)
}

/// The methods and properties that may follow the `.` at `position` in
/// `source`, each once, ordered by name and then kind.
pub fn provide_completions(position: &FileLocation, source: &str) -> (completions: Vec<
    (String, u32),
>)
    requires
        spec_scannable(source@),
    ensures
        strictly_sorted(completions_view(completions@)),
        forall|c: (Seq<char>, u32)|
            completions_view(completions@).contains(c) <==> walked(
                *position,
                source@,
            ).completions.contains(c),
        kinds_known(completions_view(completions@)),
{
    let mut reporter = Collector::new();
    let tokens = scan_tokens(&mut reporter, source);
    let ast = parse_allow_invalid_call(&mut reporter, tokens);
    completions_for_position(position, &ast)
}

fn definition_for_position(position: &FileLocation, ast: &Vec<Stmt>) -> (definitions: Vec<Token>)
    ensures
        tokens_view(definitions@) == walk_stmts(start_walk(), *position, view_stmts(ast@)).definitions,
{
    let mut resolver = Resolver::new(position);
    resolver.resolve_stmts(ast);
    resolver.definitions
}

fn completions_for_position(position: &FileLocation, ast: &Vec<Stmt>) -> (completions: Vec<
    (String, u32),
>)
    ensures
        strictly_sorted(completions_view(completions@)),
        forall|c: (Seq<char>, u32)|
            completions_view(completions@).contains(c) <==> walk_stmts(
                start_walk(),
                *position,
                view_stmts(ast@),
            ).completions.contains(c),
        kinds_known(completions_view(completions@)),
{
    let mut resolver = Resolver::new(position);
    resolver.resolve_stmts(ast);
    let found = resolver.completions_for_position;
    let ghost walked_completions = completions_view(found@);
    let result = sort_unique(found);
    proof {
        law_walk_completion_kinds(*position, view_stmts(ast@));
        let rv = completions_view(result@);
        assert forall|i: int| 0 <= i < rv.len() implies #[trigger] rv[i].1 == COMPLETION_TYPE_METHOD
            || rv[i].1 == COMPLETION_TYPE_PROPERTY by {
            assert(rv.contains(rv[i]));
            let j = choose|j: int| 0 <= j < walked_completions.len() && walked_completions[j] == rv[i];
            assert(walked_completions[j].1 == COMPLETION_TYPE_METHOD || walked_completions[j].1
                == COMPLETION_TYPE_PROPERTY);
        }
    }
    result
}

pub open spec fn ref_tokens_view<'t>(ts: Seq<&'t Token>) -> Seq<TokenView> {
    ts.map_values(|t: &'t Token| t@)
}

pub open spec fn opt_str_view<'t>(s: Option<&'t str>) -> Option<Seq<char>> {
    match s {
        Some(s) => Some(s@),
        None => None,
    }
}

pub open spec fn opt_index(r: Option<usize>) -> Option<int> {
    match r {
        Some(i) => Some(i as int),
        None => None,
    }
}

/// Where `i` is the first position of `name` in `keys`, `key_index` gives it.
proof fn lemma_key_index_found(keys: Seq<Seq<char>>, name: Seq<char>, i: int)
    requires
        is_first(keys, name, i),
    ensures
        key_index(keys, name) == Some(i),
{
    let j = choose|j: int| is_first(keys, name, j);
    assert(is_first(keys, name, j));
    assert(!(j < i) && !(i < j));
}

/// Where `name` is nowhere in `keys`, `key_index` gives nothing.
proof fn lemma_key_index_absent(keys: Seq<Seq<char>>, name: Seq<char>)
    requires
        forall|j: int| 0 <= j < keys.len() ==> keys[j] != name,
    ensures
        key_index(keys, name) is None,
{
}

/// The first position in `tokens` whose lexeme is `name`.
fn find_token(tokens: &Vec<&Token>, name: &str) -> (r: Option<usize>)
    ensures
        opt_index(r) == key_index(lexemes(ref_tokens_view(tokens@)), name@),
{
    let ghost keys = lexemes(ref_tokens_view(tokens@));
    let mut i: usize = 0;
    while i < tokens.len()
        invariant
            0 <= i <= tokens.len(),
            keys == lexemes(ref_tokens_view(tokens@)),
            keys.len() == tokens.len(),
            forall|j: int| 0 <= j < i ==> keys[j] != name@,
        decreases tokens.len() - i,
    {
        assert(keys[i as int] == tokens@[i as int].lexeme@);
        if str_equal(tokens[i].lexeme.as_str(), name) {
            proof {
                lemma_key_index_found(keys, name@, i as int);
            }
            return Some(i);
        }
        i = i + 1;
    }
    proof {
        lemma_key_index_absent(keys, name@);
    }
    None
}

/// A class as the language services know it: its name, the name of its
/// superclass, its methods and the properties assigned on its instances.
pub struct Class<'t> {
    pub name: &'t Token,
    pub superclass: Option<&'t str>,
    pub methods: Vec<&'t Token>,
    pub properties: Vec<&'t Token>,
}

pub open spec fn opt_class_view<'a, 't>(c: Option<&'a Class<'t>>) -> Option<ClassModel> {
    match c {
        Some(c) => Some(c.view()),
        None => None,
    }
}

pub open spec fn opt_ref_token_view<'t>(t: Option<&'t Token>) -> Option<TokenView> {
    match t {
        Some(t) => Some(t@),
        None => None,
    }
}

impl<'t> Class<'t> {
    pub open spec fn view(&self) -> ClassModel {
        ClassModel {
            name: self.name@,
            superclass: opt_str_view(self.superclass),
            methods: ref_tokens_view(self.methods@),
            properties: ref_tokens_view(self.properties@),
        }
    }

    pub fn new(name: &'t Token, superclass: Option<&'t str>) -> (c: Self)
        ensures
            c.view() == new_class(name@, opt_str_view(superclass)),
    {
        let c = Class { name, superclass, methods: Vec::new(), properties: Vec::new() };
        assert(ref_tokens_view(c.methods@) =~= Seq::<TokenView>::empty());
        c
    }

    /// Adds a method; it takes the place of a method of the same name.
    pub fn add_method(&mut self, method: &'t Token)
        ensures
            final(self).view() == (ClassModel {
                methods: set_or_push(
                    old(self).view().methods,
                    key_index(lexemes(old(self).view().methods), method.lexeme@),
                    method@,
                ),
                ..old(self).view()
            }),
    {
        match find_token(&self.methods, method.lexeme.as_str()) {
            Some(i) => {
                self.methods.set(i, method);
                assert(ref_tokens_view(self.methods@) =~= ref_tokens_view(old(self).methods@).update(
                    i as int,
                    method@,
                ));
            },
            None => {
                self.methods.push(method);
                assert(ref_tokens_view(self.methods@) =~= ref_tokens_view(old(self).methods@).push(
                    method@,
                ));
            },
        }
    }

    /// Adds a property, unless it already has one of that name.
    pub fn add_property(&mut self, property: &'t Token)
        ensures
            final(self).view() == (if key_index(
                lexemes(old(self).view().properties),
                property.lexeme@,
            ) is Some {
                old(self).view()
            } else {
                ClassModel { properties: old(self).view().properties.push(property@), ..old(self).view() }
            }),
    {
        if find_token(&self.properties, property.lexeme.as_str()).is_none() {
            self.properties.push(property);
            assert(ref_tokens_view(self.properties@) =~= ref_tokens_view(old(self).properties@).push(
                property@,
            ));
        }
    }

    /// The method or property `name` of this class or, failing that, of its
    /// superclasses, following at most `steps` superclasses.
    pub fn find_definition(&self, scopes: &Scopes<'t>, name: &str, steps: usize) -> (r: Option<
        &'t Token,
    >)
        ensures
            opt_ref_token_view(r) == find_member_of(self.view(), scopes.view(), name@, steps as nat),
        decreases steps,
    {
        match find_token(&self.methods, name) {
            Some(i) => {
                return Some(self.methods[i]);
            },
            None => {},
        }
        match find_token(&self.properties, name) {
            Some(i) => {
                return Some(self.properties[i]);
            },
            None => {},
        }
        if steps == 0 {
            return None;
        }
        match self.superclass {
            Some(superclass) => match scopes.find_class(superclass) {
                Some(class) => class.find_definition(scopes, name, steps - 1),
                None => None,
            },
            None => None,
        }
    }

    /// The methods of this class, the properties too where asked, and the
    /// methods of its superclasses, following at most `steps` superclasses.
    pub fn get_completions(&self, scopes: &Scopes<'t>, include_properties: bool, steps: usize) -> (r:
        Vec<(String, u32)>)
        ensures
            completions_view(r@) == completions_of(
                self.view(),
                scopes.view(),
                include_properties,
                steps as nat,
            ),
        decreases steps,
    {
        let mut completions: Vec<(String, u32)> = Vec::new();
        let ghost methods = self.view().methods;
        let ghost properties = self.view().properties;
        let mut i: usize = 0;
        while i < self.methods.len()
            invariant
                0 <= i <= self.methods.len(),
                methods == ref_tokens_view(self.methods@),
                completions_view(completions@) == named(methods.take(i as int), COMPLETION_TYPE_METHOD),
            decreases self.methods.len() - i,
        {
            completions.push((self.methods[i].lexeme.clone(), COMPLETION_TYPE_METHOD));
            assert(named(methods.take(i + 1), COMPLETION_TYPE_METHOD) =~= named(
                methods.take(i as int),
                COMPLETION_TYPE_METHOD,
            ).push((methods[i as int].lexeme, COMPLETION_TYPE_METHOD)));
            assert(completions_view(completions@) =~= named(
                methods.take(i as int),
                COMPLETION_TYPE_METHOD,
            ).push((methods[i as int].lexeme, COMPLETION_TYPE_METHOD)));
            i = i + 1;
        }
        assert(methods.take(i as int) =~= methods);
        let ghost own_methods = completions_view(completions@);
        if include_properties {
            let mut i: usize = 0;
            while i < self.properties.len()
                invariant
                    0 <= i <= self.properties.len(),
                    properties == ref_tokens_view(self.properties@),
                    completions_view(completions@) == own_methods + named(
                        properties.take(i as int),
                        COMPLETION_TYPE_PROPERTY,
                    ),
                decreases self.properties.len() - i,
            {
                let ghost prev = completions_view(completions@);
                completions.push((self.properties[i].lexeme.clone(), COMPLETION_TYPE_PROPERTY));
                assert(completions_view(completions@) =~= prev.push(
                    (properties[i as int].lexeme, COMPLETION_TYPE_PROPERTY),
                ));
                assert(named(properties.take(i + 1), COMPLETION_TYPE_PROPERTY) =~= named(
                    properties.take(i as int),
                    COMPLETION_TYPE_PROPERTY,
                ).push((properties[i as int].lexeme, COMPLETION_TYPE_PROPERTY)));
                assert(completions_view(completions@) =~= own_methods + named(
                    properties.take(i as int),
                    COMPLETION_TYPE_PROPERTY,
                ).push((properties[i as int].lexeme, COMPLETION_TYPE_PROPERTY)));
                i = i + 1;
            }
            assert(properties.take(i as int) =~= properties);
        } else {
            assert(own_methods =~= own_methods + Seq::<(Seq<char>, u32)>::empty());
        }
        if steps > 0 {
            match self.superclass {
                Some(superclass) => match scopes.find_class(superclass) {
                    Some(class) => {
                        let mut inherited = class.get_completions(scopes, false, steps - 1);
                        let ghost before = completions_view(completions@);
                        let ghost added = completions_view(inherited@);
                        completions.append(&mut inherited);
                        assert(completions_view(completions@) =~= before + added);
                    },
                    None => {},
                },
                None => {},
            }
        }
        completions
    }
}

/// What one scope declares: identifiers, the classes of variables that hold
/// instances, and classes.
pub struct Scope<'t> {
    pub identifiers: Vec<&'t Token>,
    pub types: Vec<(&'t str, &'t str)>,
    pub classes: Vec<Class<'t>>,
}

pub open spec fn types_view<'t>(types: Seq<(&'t str, &'t str)>) -> Seq<(Seq<char>, Seq<char>)> {
    types.map_values(|p: (&'t str, &'t str)| (p.0@, p.1@))
}

pub open spec fn classes_view<'t>(classes: Seq<Class<'t>>) -> Seq<ClassModel> {
    classes.map_values(|c: Class<'t>| c.view())
}

impl<'t> Scope<'t> {
    pub open spec fn view(&self) -> ScopeModel {
        ScopeModel {
            identifiers: ref_tokens_view(self.identifiers@),
            types: types_view(self.types@),
            classes: classes_view(self.classes@),
        }
    }

    pub fn new() -> (s: Self)
        ensures
            s.view() == empty_scope(),
    {
        let s = Scope { identifiers: Vec::new(), types: Vec::new(), classes: Vec::new() };
        assert(s.view().identifiers =~= Seq::<TokenView>::empty());
        assert(s.view().types =~= Seq::<(Seq<char>, Seq<char>)>::empty());
        assert(s.view().classes =~= Seq::<ClassModel>::empty());
        s
    }

    /// The position of the class named `name`.
    fn class_index(&self, name: &str) -> (r: Option<usize>)
        ensures
            opt_index(r) == key_index(class_names(self.view().classes), name@),
            r matches Some(i) ==> i < self.classes.len(),
    {
        let ghost keys = class_names(self.view().classes);
        let mut i: usize = 0;
        while i < self.classes.len()
            invariant
                0 <= i <= self.classes.len(),
                keys == class_names(classes_view(self.classes@)),
                keys.len() == self.classes.len(),
                forall|j: int| 0 <= j < i ==> keys[j] != name@,
            decreases self.classes.len() - i,
        {
            assert(keys[i as int] == self.classes@[i as int].name.lexeme@);
            if str_equal(self.classes[i].name.lexeme.as_str(), name) {
                proof {
                    lemma_key_index_found(keys, name@, i as int);
                }
                return Some(i);
            }
            i = i + 1;
        }
        proof {
            lemma_key_index_absent(keys, name@);
        }
        None
    }

    /// The position of the type recorded for `name`.
    fn type_index(&self, name: &str) -> (r: Option<usize>)
        ensures
            opt_index(r) == key_index(type_names(self.view().types), name@),
            r matches Some(i) ==> i < self.types.len(),
    {
        let ghost keys = type_names(self.view().types);
        let mut i: usize = 0;
        while i < self.types.len()
            invariant
                0 <= i <= self.types.len(),
                keys == type_names(types_view(self.types@)),
                keys.len() == self.types.len(),
                forall|j: int| 0 <= j < i ==> keys[j] != name@,
            decreases self.types.len() - i,
        {
            assert(keys[i as int] == self.types@[i as int].0@);
            if str_equal(self.types[i].0, name) {
                proof {
                    lemma_key_index_found(keys, name@, i as int);
                }
                return Some(i);
            }
            i = i + 1;
        }
        proof {
            lemma_key_index_absent(keys, name@);
        }
        None
    }
}

/// The first `n` scopes end with the `n`-th, after the first `n - 1`.
proof fn lemma_take_last(v: Seq<ScopeModel>, n: int)
    requires
        0 < n <= v.len(),
    ensures
        v.take(n).last() == v[n - 1],
        v.take(n).drop_last() == v.take(n - 1),
        v.take(n).len() == n,
{
    assert(v.take(n).drop_last() =~= v.take(n - 1));
}

/// The scopes open at a point of the program, the innermost last.
pub struct Scopes<'t> {
    pub scopes: Vec<Scope<'t>>,
}

pub open spec fn scopes_view<'t>(scopes: Seq<Scope<'t>>) -> Seq<ScopeModel> {
    scopes.map_values(|s: Scope<'t>| s.view())
}

impl<'t> Scopes<'t> {
    pub open spec fn view(&self) -> Seq<ScopeModel> {
        scopes_view(self.scopes@)
    }

    pub fn new() -> (s: Self)
        ensures
            s.view() == Seq::<ScopeModel>::empty(),
    {
        let s = Scopes { scopes: Vec::new() };
        assert(s.view() =~= Seq::<ScopeModel>::empty());
        s
    }

    /// Opens a new innermost scope.
    pub fn begin(&mut self)
        ensures
            final(self).view() == old(self).view().push(empty_scope()),
    {
        self.scopes.push(Scope::new());
        assert(self.view() =~= old(self).view().push(empty_scope()));
    }

    /// Closes the innermost scope, if there is one.
    pub fn end(&mut self)
        ensures
            final(self).view() == (if old(self).view().len() > 0 {
                old(self).view().drop_last()
            } else {
                old(self).view()
            }),
    {
        if self.scopes.len() > 0 {
            let _ = self.scopes.pop();
            assert(self.view() =~= old(self).view().drop_last());
        }
    }

    /// The number of classes declared in all scopes, at most `usize::MAX`.
    pub fn class_count(&self) -> (r: usize)
        ensures
            r == spec_class_count(self.view()),
    {
        let ghost v = self.view();
        let mut count: usize = 0;
        let mut i: usize = 0;
        while i < self.scopes.len()
            invariant
                0 <= i <= self.scopes.len(),
                v == self.view(),
                v.len() == self.scopes.len(),
                count == spec_class_count(v.take(i as int)),
            decreases self.scopes.len() - i,
        {
            proof {
                lemma_take_last(v, i + 1);
            }
            assert(v[i as int].classes.len() == self.scopes@[i as int].classes.len());
            count = count.saturating_add(self.scopes[i].classes.len());
            i = i + 1;
        }
        assert(v.take(i as int) =~= v);
        count
    }

    /// Declares `token` in the innermost scope.
    pub fn define_identifier(&mut self, token: &'t Token)
        ensures
            final(self).view() == spec_define_identifier(old(self).view(), token@),
    {
        if self.scopes.len() > 0 {
            let last = self.scopes.len() - 1;
            let ghost s = old(self).view().last();
            match find_token(&self.scopes[last].identifiers, token.lexeme.as_str()) {
                Some(i) => {
                    self.scopes[last].identifiers.set(i, token);
                    assert(ref_tokens_view(self.scopes@[last as int].identifiers@) =~= s.identifiers.update(
                        i as int,
                        token@,
                    ));
                },
                None => {
                    self.scopes[last].identifiers.push(token);
                    assert(ref_tokens_view(self.scopes@[last as int].identifiers@) =~= s.identifiers.push(
                        token@,
                    ));
                },
            }
            assert(self.view() =~= spec_define_identifier(old(self).view(), token@));
        }
    }

    /// Records, in the innermost scope, that `name` holds an instance of class `typ`.
    pub fn define_type_for_identifier(&mut self, name: &'t str, typ: &'t str)
        ensures
            final(self).view() == spec_define_type(old(self).view(), name@, typ@),
    {
        if self.scopes.len() > 0 {
            let last = self.scopes.len() - 1;
            let ghost s = old(self).view().last();
            match self.scopes[last].type_index(name) {
                Some(i) => {
                    self.scopes[last].types.set(i, (name, typ));
                    assert(types_view(self.scopes@[last as int].types@) =~= s.types.update(
                        i as int,
                        (name@, typ@),
                    ));
                },
                None => {
                    self.scopes[last].types.push((name, typ));
                    assert(types_view(self.scopes@[last as int].types@) =~= s.types.push(
                        (name@, typ@),
                    ));
                },
            }
            assert(self.view() =~= spec_define_type(old(self).view(), name@, typ@));
        }
    }

    /// Declares the class `class`, with the superclass named `superclass`, in the innermost scope.
    pub fn define_class(&mut self, class: &'t Token, superclass: Option<&'t str>)
        ensures
            final(self).view() == spec_define_class(
                old(self).view(),
                class@,
                opt_str_view(superclass),
            ),
    {
        if self.scopes.len() > 0 {
            let last = self.scopes.len() - 1;
            let ghost s = old(self).view().last();
            let ghost c = new_class(class@, opt_str_view(superclass));
            match self.scopes[last].class_index(class.lexeme.as_str()) {
                Some(i) => {
                    self.scopes[last].classes.set(i, Class::new(class, superclass));
                    assert(classes_view(self.scopes@[last as int].classes@) =~= s.classes.update(
                        i as int,
                        c,
                    ));
                },
                None => {
                    self.scopes[last].classes.push(Class::new(class, superclass));
                    assert(classes_view(self.scopes@[last as int].classes@) =~= s.classes.push(c));
                },
            }
            assert(self.view() =~= spec_define_class(
                old(self).view(),
                class@,
                opt_str_view(superclass),
            ));
        }
    }

    /// Where the innermost class named `name` is.
    fn class_location(&self, name: &str) -> (r: Option<(usize, usize)>)
        ensures
            match r {
                Some((n, i)) => {
                    &&& n < self.scopes.len()
                    &&& i < self.scopes@[n as int].classes.len()
                    &&& class_position(self.view(), name@) == Some((n as int, i as int))
                },
                None => class_position(self.view(), name@) is None,
            },
    {
        let ghost v = self.view();
        assert(v.take(v.len() as int) =~= v);
        let mut n = self.scopes.len();
        while n > 0
            invariant
                n <= self.scopes.len(),
                v == self.view(),
                v.len() == self.scopes.len(),
                class_position(v, name@) == class_position(v.take(n as int), name@),
            decreases n,
        {
            proof {
                lemma_take_last(v, n as int);
            }
            match self.scopes[n - 1].class_index(name) {
                Some(i) => {
                    return Some((n - 1, i));
                },
                None => {},
            }
            n = n - 1;
        }
        None
    }

    /// Adds `method` to the innermost class named `class_name`.
    pub fn add_method_to_class(&mut self, class_name: &str, method: &'t Token)
        ensures
            final(self).view() == spec_add_method(old(self).view(), class_name@, method@),
    {
        match self.class_location(class_name) {
            Some((n, i)) => {
                let ghost v = self.view();
                self.scopes[n].classes[i].add_method(method);
                assert(classes_view(self.scopes@[n as int].classes@) =~= v[n as int].classes.update(
                    i as int,
                    self.scopes@[n as int].classes@[i as int].view(),
                ));
                assert(self.view() =~= spec_add_method(old(self).view(), class_name@, method@));
            },
            None => {},
        }
    }

    /// Adds `property` to the innermost class named `class_name`.
    pub fn add_property_to_class(&mut self, class_name: &str, property: &'t Token)
        ensures
            final(self).view() == spec_add_property(old(self).view(), class_name@, property@),
    {
        match self.class_location(class_name) {
            Some((n, i)) => {
                let ghost v = self.view();
                let ghost c = v[n as int].classes[i as int];
                self.scopes[n].classes[i].add_property(property);
                proof {
                    if key_index(lexemes(c.properties), property@.lexeme) is Some {
                        assert(self.scopes@[n as int].classes@[i as int].view() == c);
                        assert(classes_view(self.scopes@[n as int].classes@) =~= v[n as int].classes);
                        assert(self.scopes@[n as int].view() == v[n as int]);
                        assert(self.view() =~= v);
                    } else {
                        assert(classes_view(self.scopes@[n as int].classes@) =~= v[n as int].classes.update(
                            i as int,
                            self.scopes@[n as int].classes@[i as int].view(),
                        ));
                        assert(self.view() =~= spec_add_property(old(self).view(), class_name@, property@));
                    }
                }
            },
            None => {},
        }
    }

    /// The token that declares `name` in the innermost scope that declares it:
    /// an identifier, or a class.
    pub fn find(&self, name: &str) -> (r: Option<&'t Token>)
        ensures
            opt_ref_token_view(r) == find_declaration(self.view(), name@),
    {
        let ghost v = self.view();
        assert(v.take(v.len() as int) =~= v);
        let mut n = self.scopes.len();
        while n > 0
            invariant
                n <= self.scopes.len(),
                v == self.view(),
                v.len() == self.scopes.len(),
                find_declaration(v, name@) == find_declaration(v.take(n as int), name@),
            decreases n,
        {
            proof {
                lemma_take_last(v, n as int);
            }
            let scope = &self.scopes[n - 1];
            match find_token(&scope.identifiers, name) {
                Some(i) => {
                    return Some(scope.identifiers[i]);
                },
                None => {},
            }
            match scope.class_index(name) {
                Some(i) => {
                    return Some(scope.classes[i].name);
                },
                None => {},
            }
            n = n - 1;
        }
        None
    }

    /// The innermost class named `name`.
    pub fn find_class(&self, name: &str) -> (r: Option<&Class<'t>>)
        ensures
            opt_class_view(r) == spec_find_class(self.view(), name@),
    {
        match self.class_location(name) {
            Some((n, i)) => Some(&self.scopes[n].classes[i]),
            None => None,
        }
    }

    /// The class recorded for the variable `name` in the innermost scope that records one.
    pub fn find_type_for_identifier(&self, name: &str) -> (r: Option<&'t str>)
        ensures
            opt_str_view(r) == find_type(self.view(), name@),
    {
        let ghost v = self.view();
        assert(v.take(v.len() as int) =~= v);
        let mut n = self.scopes.len();
        while n > 0
            invariant
                n <= self.scopes.len(),
                v == self.view(),
                v.len() == self.scopes.len(),
                find_type(v, name@) == find_type(v.take(n as int), name@),
            decreases n,
        {
            proof {
                lemma_take_last(v, n as int);
            }
            match self.scopes[n - 1].type_index(name) {
                Some(i) => {
                    return Some(self.scopes[n - 1].types[i].1);
                },
                None => {},
            }
            n = n - 1;
        }
        None
    }
}

/// Walks a program to find what is declared where, and collects the
/// definitions of, and the completions after, the thing at `position`.
pub struct Resolver<'a> {
    pub position: &'a FileLocation,
    pub scopes: Scopes<'a>,
    pub current_class: Option<&'a str>,
    pub definitions: Vec<Token>,
    pub completions_for_position: Vec<(String, u32)>,
}

/// Walking `ss` and then `s` is walking `ss` with `s` at its end.
proof fn lemma_walk_stmts_push(w: WalkState, position: FileLocation, ss: Seq<StmtView>, s: StmtView)
    ensures
        walk_stmts(w, position, ss.push(s)) == walk_stmt(walk_stmts(w, position, ss), position, s),
{
    assert(ss.push(s).drop_last() =~= ss);
}

proof fn lemma_walk_exprs_push(w: WalkState, position: FileLocation, es: Seq<ExprView>, e: ExprView)
    ensures
        walk_exprs(w, position, es.push(e)) == walk_expr(walk_exprs(w, position, es), position, e),
{
    assert(es.push(e).drop_last() =~= es);
}

proof fn lemma_walk_methods_push(
    w: WalkState,
    position: FileLocation,
    class_name: Seq<char>,
    ms: Seq<StmtView>,
    m: StmtView,
)
    ensures
        walk_methods(w, position, class_name, ms.push(m)) == (match m {
            StmtView::Function { function } => walk_function(
                WalkState {
                    scopes: spec_add_method(
                        walk_methods(w, position, class_name, ms).scopes,
                        class_name,
                        function.name,
                    ),
                    ..walk_methods(w, position, class_name, ms)
                },
                position,
                function,
            ),
            _ => walk_methods(w, position, class_name, ms),
        }),
{
    assert(ms.push(m).drop_last() =~= ms);
}

impl<'a> Resolver<'a> {
    pub open spec fn view(&self) -> WalkState {
        WalkState {
            scopes: self.scopes.view(),
            current_class: opt_str_view(self.current_class),
            definitions: tokens_view(self.definitions@),
            completions: completions_view(self.completions_for_position@),
        }
    }

    pub fn new(position: &'a FileLocation) -> (r: Self)
        ensures
            r.view() == start_walk(),
            r.position == position,
    {
        let mut scopes = Scopes::new();
        scopes.begin();
        let r = Resolver {
            position,
            scopes,
            current_class: None,
            definitions: Vec::new(),
            completions_for_position: Vec::new(),
        };
        assert(r.view().scopes =~= seq![empty_scope()]);
        assert(r.view().definitions =~= Seq::<TokenView>::empty());
        assert(r.view().completions =~= Seq::<(Seq<char>, u32)>::empty());
        r
    }

    pub fn resolve_stmts(&mut self, statements: &'a Vec<Stmt>)
        ensures
            final(self).view() == walk_stmts(old(self).view(), *old(self).position, view_stmts(statements@)),
            final(self).position == old(self).position,
        decreases statements, 0int,
    {
        let mut i: usize = 0;
        assert(view_stmts(statements@.take(0)) =~= Seq::<StmtView>::empty());
        while i < statements.len()
            invariant
                0 <= i <= statements.len(),
                self.position == old(self).position,
                self.view() == walk_stmts(
                    old(self).view(),
                    *self.position,
                    view_stmts(statements@.take(i as int)),
                ),
            decreases statements.len() - i,
        {
            proof {
                vstd::std_specs::vec::axiom_vec_index_decreases(*statements, i as int);
                assert(statements@.take(i + 1) =~= statements@.take(i as int).push(statements@[i as int]));
                lemma_view_stmts_push(statements@.take(i as int), statements@[i as int]);
                lemma_walk_stmts_push(
                    old(self).view(),
                    *self.position,
                    view_stmts(statements@.take(i as int)),
                    view_stmt(statements@[i as int]),
                );
            }
            self.resolve_stmt(&statements[i]);
            i = i + 1;
        }
        assert(statements@.take(i as int) =~= statements@);
    }

    fn resolve_stmt(&mut self, statement: &'a Stmt)
        ensures
            final(self).view() == walk_stmt(old(self).view(), *old(self).position, view_stmt(*statement)),
            final(self).position == old(self).position,
        decreases statement, 2int,
    {
        match statement {
            Stmt::Block { statements } => {
                self.scopes.begin();
                self.resolve_stmts(statements);
                self.scopes.end();
            },
            Stmt::Class { name, superclass, methods } => self.resolve_stmt_class(
                name,
                superclass,
                methods,
            ),
            Stmt::Expression { expression } => self.resolve_expr(expression),
            Stmt::Function { function } => {
                self.scopes.define_identifier(&function.name);
                self.resolve_function(function);
            },
            Stmt::If { condition, then_branch, else_branch } => {
                self.resolve_expr(condition);
                self.resolve_stmt(then_branch);
                match &**else_branch {
                    Some(branch) => self.resolve_stmt(branch),
                    None => {},
                }
            },
            Stmt::Print { value } => self.resolve_expr(value),
            Stmt::Return { value, .. } => match value {
                Some(expression) => self.resolve_expr(expression),
                None => {},
            },
            Stmt::Var { name, initialiser } => self.resolve_stmt_var(name, initialiser),
            Stmt::While { condition, body } => {
                self.resolve_expr(condition);
                self.resolve_stmt(body);
            },
        }
    }

    /// Declares a class and its methods, and walks the methods' bodies.
    fn resolve_stmt_class(
        &mut self,
        name: &'a Token,
        superclass: &'a Option<Expr>,
        methods: &'a Vec<Stmt>,
    )
        ensures
            final(self).view() == walk_stmt(
                old(self).view(),
                *old(self).position,
                StmtView::Class {
                    name: name@,
                    superclass: view_opt_expr(*superclass),
                    methods: view_stmts(methods@),
                },
            ),
            final(self).position == old(self).position,
        decreases methods, 1int,
    {
        let superclass_name: Option<&'a str> = match superclass {
            Some(Expr::Variable { name: superclass_name, .. }) => Some(
                superclass_name.lexeme.as_str(),
            ),
            _ => None,
        };
        self.scopes.define_class(name, superclass_name);
        let enclosing_class = self.current_class;
        self.current_class = Some(name.lexeme.as_str());
        match superclass {
            Some(expression) => {
                self.resolve_expr(expression);
                self.scopes.begin();
            },
            None => {},
        }
        self.scopes.begin();
        let ghost start = self.view();
        assert(view_stmts(methods@.take(0)) =~= Seq::<StmtView>::empty());
        let mut i: usize = 0;
        while i < methods.len()
            invariant
                0 <= i <= methods.len(),
                self.position == old(self).position,
                self.view() == walk_methods(
                    start,
                    *self.position,
                    name.lexeme@,
                    view_stmts(methods@.take(i as int)),
                ),
            decreases methods.len() - i,
        {
            proof {
                vstd::std_specs::vec::axiom_vec_index_decreases(*methods, i as int);
                assert(methods@.take(i + 1) =~= methods@.take(i as int).push(methods@[i as int]));
                lemma_view_stmts_push(methods@.take(i as int), methods@[i as int]);
                lemma_walk_methods_push(
                    start,
                    *self.position,
                    name.lexeme@,
                    view_stmts(methods@.take(i as int)),
                    view_stmt(methods@[i as int]),
                );
            }
            match &methods[i] {
                Stmt::Function { function } => {
                    self.scopes.add_method_to_class(name.lexeme.as_str(), &function.name);
                    self.resolve_function(function);
                },
                _ => {},
            }
            i = i + 1;
        }
        assert(methods@.take(i as int) =~= methods@);
        self.scopes.end();
        if superclass.is_some() {
            self.scopes.end();
        }
        self.current_class = enclosing_class;
    }

    /// Declares a variable; where it is initialised by calling a class, records
    /// that it holds an instance of that class.
    fn resolve_stmt_var(&mut self, name: &'a Token, initialiser: &'a Option<Expr>)
        ensures
            final(self).view() == walk_stmt(
                old(self).view(),
                *old(self).position,
                StmtView::Var { name: name@, initialiser: view_opt_expr(*initialiser) },
            ),
            final(self).position == old(self).position,
    {
        self.scopes.define_identifier(name);
        let ghost w1 = self.view();
        match initialiser {
            Some(expression) => {
                let ghost e = view_expr(*expression);
                match expression {
                    Expr::Call { callee, .. } => match &**callee {
                        Expr::Variable { name: class, .. } => {
                            assert(e matches ExprView::Call { callee: c, .. } && *c
                                == view_expr(**callee));
                            if self.scopes.find_class(class.lexeme.as_str()).is_some() {
                                self.scopes.define_type_for_identifier(
                                    name.lexeme.as_str(),
                                    class.lexeme.as_str(),
                                );
                            }
                        },
                        _ => {},
                    },
                    _ => {},
                }
                self.resolve_expr(expression);
            },
            None => {},
        }
    }

    /// Declares the parameters of a function in a new scope and walks its body.
    fn resolve_function(&mut self, function: &'a Function)
        ensures
            final(self).view() == walk_function(
                old(self).view(),
                *old(self).position,
                FunctionView {
                    name: function.name@,
                    params: tokens_view(function.params@),
                    body: view_stmts(function.body@),
                },
            ),
            final(self).position == old(self).position,
        decreases function, 0int,
    {
        self.scopes.begin();
        let ghost start = self.view();
        let ghost params = tokens_view(function.params@);
        assert(params.take(0) =~= Seq::<TokenView>::empty());
        let mut i: usize = 0;
        while i < function.params.len()
            invariant
                0 <= i <= function.params.len(),
                params == tokens_view(function.params@),
                self.position == old(self).position,
                self.view() == (WalkState {
                    scopes: define_params(start.scopes, params.take(i as int)),
                    ..start
                }),
            decreases function.params.len() - i,
        {
            assert(params.take(i + 1).drop_last() =~= params.take(i as int));
            self.scopes.define_identifier(&function.params[i]);
            i = i + 1;
        }
        assert(params.take(i as int) =~= params);
        self.resolve_stmts(&function.body);
        self.scopes.end();
    }

    fn resolve_exprs(&mut self, exprs: &'a Vec<Expr>)
        ensures
            final(self).view() == walk_exprs(old(self).view(), *old(self).position, view_exprs(exprs@)),
            final(self).position == old(self).position,
        decreases exprs_height(exprs@) + 1, 0int,
    {
        let mut i: usize = 0;
        assert(view_exprs(exprs@.take(0)) =~= Seq::<ExprView>::empty());
        while i < exprs.len()
            invariant
                0 <= i <= exprs.len(),
                self.position == old(self).position,
                self.view() == walk_exprs(
                    old(self).view(),
                    *self.position,
                    view_exprs(exprs@.take(i as int)),
                ),
            decreases exprs.len() - i,
        {
            proof {
                lemma_exprs_height(exprs@, i as int);
                assert(exprs@.take(i + 1) =~= exprs@.take(i as int).push(exprs@[i as int]));
                lemma_view_exprs_push(exprs@.take(i as int), exprs@[i as int]);
                lemma_walk_exprs_push(
                    old(self).view(),
                    *self.position,
                    view_exprs(exprs@.take(i as int)),
                    view_expr(exprs@[i as int]),
                );
            }
            self.resolve_expr(&exprs[i]);
            i = i + 1;
        }
        assert(exprs@.take(i as int) =~= exprs@);
    }

    fn resolve_expr(&mut self, expression: &'a Expr)
        ensures
            final(self).view() == walk_expr(old(self).view(), *old(self).position, view_expr(*expression)),
            final(self).position == old(self).position,
        decreases expr_height(*expression), 1int,
    {
        match expression {
            Expr::Assign { name, value, .. } => {
                self.resolve_expr(value);
                self.resolve_local(name);
            },
            Expr::Binary { left, right, .. } => {
                self.resolve_expr(left);
                self.resolve_expr(right);
            },
            Expr::Call { callee, arguments, .. } => {
                self.resolve_expr(callee);
                self.resolve_exprs(arguments);
            },
            Expr::Get { .. } => self.resolve_expr_get(expression),
            Expr::Grouping { expression, .. } => self.resolve_expr(expression),
            Expr::InvalidGet { .. } => self.resolve_invalid_expr_get(expression),
            Expr::InvalidSuper { method, .. } => self.resolve_expr_invalid_super(method),
            Expr::Literal { .. } => {},
            Expr::Logical { left, right, .. } => {
                self.resolve_expr(left);
                self.resolve_expr(right);
            },
            Expr::SetProperty { .. } => self.resolve_expr_set(expression),
            Expr::Super { method, .. } => self.resolve_expr_super(method),
            Expr::This { .. } => {},
            Expr::Unary { right, .. } => self.resolve_expr(right),
            Expr::Variable { name, .. } => self.resolve_local(name),
        }
    }

    /// The class of the instance that `expression` gives, where it can be told:
    /// a variable recorded as holding an instance, a call of a class, or `this`.
    fn find_class_for_expr(&self, expression: &Expr) -> (r: Option<&Class<'a>>)
        ensures
            opt_class_view(r) == class_for_expr(self.view(), view_expr(*expression)),
    {
        match expression {
            Expr::Variable { name: target, .. } => {
                assert(view_expr(*expression) matches ExprView::Variable { name: n, .. } && n.lexeme
                    == target.lexeme@);
                match self.scopes.find_type_for_identifier(target.lexeme.as_str()) {
                    Some(t) => {
                        assert(find_type(self.view().scopes, target.lexeme@) == Some(t@));
                        self.scopes.find_class(t)
                    },
                    None => None,
                }
            },
            Expr::Call { callee, .. } => {
                assert(view_expr(*expression) matches ExprView::Call { callee: c, .. } && *c
                    == view_expr(**callee));
                match &**callee {
                    Expr::Variable { name: target, .. } => self.scopes.find_class(
                        target.lexeme.as_str(),
                    ),
                    _ => None,
                }
            },
            Expr::This { .. } => match self.current_class {
                Some(c) => self.scopes.find_class(c),
                None => None,
            },
            _ => None,
        }
    }

    /// The method or property `name` of the class of `object`, where it can be told.
    fn find_member(&self, object: &Expr, name: &str) -> (r: Option<Token>)
        ensures
            opt_token_view(r) == spec_find_member(self.view(), view_expr(*object), name@),
    {
        match self.find_class_for_expr(object) {
            Some(class) => match class.find_definition(
                &self.scopes,
                name,
                self.scopes.class_count(),
            ) {
                Some(token) => Some(token.clone_token()),
                None => None,
            },
            None => None,
        }
    }

    /// The completions for the class of `object`, where it can be told.
    fn member_completions(&self, object: &Expr) -> (r: Vec<(String, u32)>)
        ensures
            completions_view(r@) == spec_member_completions(self.view(), view_expr(*object)),
    {
        match self.find_class_for_expr(object) {
            Some(class) => class.get_completions(&self.scopes, true, self.scopes.class_count()),
            None => {
                let r: Vec<(String, u32)> = Vec::new();
                assert(completions_view(r@) =~= Seq::empty());
                r
            },
        }
    }

    /// Adds completions to those collected.
    fn add_completions(&mut self, completions: Vec<(String, u32)>)
        ensures
            final(self).view() == spec_add_completions(old(self).view(), completions_view(completions@)),
            final(self).position == old(self).position,
    {
        let mut completions = completions;
        let ghost before = completions_view(self.completions_for_position@);
        let ghost added = completions_view(completions@);
        self.completions_for_position.append(&mut completions);
        assert(completions_view(self.completions_for_position@) =~= before + added);
    }

    /// Adds a definition, where there is one.
    fn add_definition(&mut self, definition: Option<Token>)
        ensures
            final(self).view() == spec_add_definition(old(self).view(), opt_token_view(definition)),
            final(self).position == old(self).position,
    {
        match definition {
            Some(token) => {
                let ghost before = tokens_view(self.definitions@);
                let ghost added = token@;
                self.definitions.push(token);
                assert(tokens_view(self.definitions@) =~= before.push(added));
            },
            None => {},
        }
    }

    fn resolve_expr_get(&mut self, expression: &'a Expr)
        requires
            expression is Get,
        ensures
            final(self).view() == walk_expr(old(self).view(), *old(self).position, view_expr(*expression)),
            final(self).position == old(self).position,
        decreases expr_height(*expression), 0int,
    {
        if let Expr::Get { object, name, .. } = expression {
            if self.is_at_position(name) {
                let found = self.find_member(object, name.lexeme.as_str());
                self.add_definition(found);
            } else {
                self.resolve_local(name);
                self.resolve_expr(object);
            }
        }
    }

    fn resolve_invalid_expr_get(&mut self, expression: &'a Expr)
        requires
            expression is InvalidGet,
        ensures
            final(self).view() == walk_expr(old(self).view(), *old(self).position, view_expr(*expression)),
            final(self).position == old(self).position,
        decreases expr_height(*expression), 0int,
    {
        if let Expr::InvalidGet { object, name, .. } = expression {
            if self.is_at_position(name) {
                let completions = self.member_completions(object);
                self.add_completions(completions);
            } else {
                self.resolve_local(name);
                self.resolve_expr(object);
            }
        }
    }

    /// Records a property assigned on an instance of a known class, then walks
    /// the assignment.
    fn resolve_expr_set(&mut self, expression: &'a Expr)
        requires
            expression is SetProperty,
        ensures
            final(self).view() == walk_expr(old(self).view(), *old(self).position, view_expr(*expression)),
            final(self).position == old(self).position,
        decreases expr_height(*expression), 0int,
    {
        if let Expr::SetProperty { object, name, value, .. } = expression {
            let class_name: Option<&'a str> = match self.find_class_for_expr(object) {
                Some(c) => Some(c.name.lexeme.as_str()),
                None => None,
            };
            match class_name {
                Some(class_name) => self.scopes.add_property_to_class(class_name, name),
                None => {},
            }
            if self.is_at_position(name) {
                let found = self.find_member(object, name.lexeme.as_str());
                self.add_definition(found);
            } else {
                self.resolve_expr(object);
                self.resolve_local(name);
                self.resolve_expr(value);
            }
        }
    }

    /// The superclass of the class being declared, where it can be told.
    fn current_superclass(&self) -> (r: Option<&Class<'a>>)
        ensures
            opt_class_view(r) == spec_current_superclass(self.view()),
    {
        match self.current_class {
            Some(c) => match self.scopes.find_class(c) {
                Some(class) => match class.superclass {
                    Some(s) => self.scopes.find_class(s),
                    None => None,
                },
                None => None,
            },
            None => None,
        }
    }

    fn resolve_expr_super(&mut self, method: &'a Token)
        ensures
            final(self).view() == (if token_at(method@, *old(self).position) {
                spec_add_definition(
                    old(self).view(),
                    match spec_current_superclass(old(self).view()) {
                        Some(sc) => find_member_of(
                            sc,
                            old(self).view().scopes,
                            method.lexeme@,
                            spec_class_count(old(self).view().scopes),
                        ),
                        None => None,
                    },
                )
            } else {
                old(self).view()
            }),
            final(self).position == old(self).position,
    {
        if self.is_at_position(method) {
            let found = match self.current_superclass() {
                Some(superclass) => match superclass.find_definition(
                    &self.scopes,
                    method.lexeme.as_str(),
                    self.scopes.class_count(),
                ) {
                    Some(token) => Some(token.clone_token()),
                    None => None,
                },
                None => None,
            };
            self.add_definition(found);
        }
    }

    fn resolve_expr_invalid_super(&mut self, method: &'a Token)
        ensures
            final(self).view() == (if token_at(method@, *old(self).position) {
                spec_add_completions(
                    old(self).view(),
                    match spec_current_superclass(old(self).view()) {
                        Some(sc) => completions_of(
                            sc,
                            old(self).view().scopes,
                            true,
                            spec_class_count(old(self).view().scopes),
                        ),
                        None => Seq::empty(),
                    },
                )
            } else {
                old(self).view()
            }),
            final(self).position == old(self).position,
    {
        if self.is_at_position(method) {
            let completions = match self.current_superclass() {
                Some(superclass) => superclass.get_completions(
                    &self.scopes,
                    true,
                    self.scopes.class_count(),
                ),
                None => {
                    let r: Vec<(String, u32)> = Vec::new();
                    assert(completions_view(r@) =~= Seq::empty());
                    r
                },
            };
            self.add_completions(completions);
        }
    }

    /// Where `name` spans the position, its declaration is a definition.
    fn resolve_local(&mut self, name: &Token)
        ensures
            final(self).view() == spec_resolve_local(old(self).view(), *old(self).position, name@),
            final(self).position == old(self).position,
    {
        if self.is_at_position(name) {
            let found = match self.scopes.find(name.lexeme.as_str()) {
                Some(token) => Some(token.clone_token()),
                None => None,
            };
            self.add_definition(found);
        }
    }

    /// Whether `provider` spans the position.
    fn is_at_position<P: ProvideLocation>(&self, provider: &P) -> (r: bool)
        ensures
            r == (starts_before(provider.spec_start_location(), *self.position) && ends_after(
                provider.spec_end_location(),
                *self.position,
            )),
    {
        self.is_starts_before_position(provider) && self.is_ends_after_position(provider)
    }

    fn is_starts_before_position<P: ProvideLocation>(&self, provider: &P) -> (r: bool)
        ensures
            r == starts_before(provider.spec_start_location(), *self.position),
    {
        let start = provider.start();
        start.line_number < self.position.line_number || (start.line_number
            == self.position.line_number && start.line_offset <= self.position.line_offset)
    }

    fn is_ends_after_position<P: ProvideLocation>(&self, provider: &P) -> (r: bool)
        ensures
            r == ends_after(provider.spec_end_location(), *self.position),
    {
        let end = provider.end();
        end.line_number > self.position.line_number || (end.line_number
            == self.position.line_number && end.line_offset >= self.position.line_offset)
    }
}

} // verus!
