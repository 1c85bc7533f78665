use super::environment::{bindings_view, binding_value, find_binding, lemma_first_binding_unique, first_binding};
use super::lox_type::{Heap, LoxType, Number, ValueView};
use crate::token::Token;
use vstd::prelude::*;

verus! {

/// A class: its place among the heap's classes, and the token that names it.
#[derive(Clone, Copy)]
pub struct Class<'a> {
    pub id: usize,
    pub name: &'a Token,
}

/// What the heap keeps of a class: its superclass and its methods by name.
pub struct ClassData<'a, N> {
    pub superclass: Option<Class<'a>>,
    pub methods: Vec<(String, LoxType<'a, N>)>,
}

pub struct ClassView<'a, N> {
    pub superclass: Option<Class<'a>>,
    pub methods: Seq<(Seq<char>, ValueView<'a, N>)>,
}

impl<'a, N: Number> ClassData<'a, N> {
    pub open spec fn view(&self) -> ClassView<'a, N> {
        ClassView { superclass: self.superclass, methods: bindings_view(self.methods@) }
    }
}

/// The method `name` of class `id` or, failing that, of its superclasses, following at most
/// `steps` classes.
pub open spec fn spec_find_method<'a, N>(
    classes: Seq<ClassView<'a, N>>,
    id: int,
    name: Seq<char>,
    steps: nat,
) -> Option<ValueView<'a, N>>
    decreases steps,
{
    if steps == 0 || !(0 <= id < classes.len()) {
        None
    } else {
        match binding_value(classes[id].methods, name) {
            Some(v) => Some(v),
            None => match classes[id].superclass {
                Some(sc) => spec_find_method(classes, sc.id as int, name, (steps - 1) as nat),
                None => None,
            },
        }
    }
}

/// The number of arguments a call of a class takes: those of its `init` method, if it has one.
pub open spec fn spec_class_arity<'a, N>(classes: Seq<ClassView<'a, N>>, class: Class<'a>) -> nat {
    match spec_find_method(classes, class.id as int, "init"@, classes.len()) {
        Some(ValueView::Function(f)) => f.declaration.params@.len(),
        _ => 0,
    }
}

impl<'a> Class<'a> {
    /// Adds a class with the given superclass and methods to the heap.
    pub fn new<N: Number>(
        heap: &mut Heap<'a, N>,
        name: &'a Token,
        superclass: Option<Class<'a>>,
        methods: Vec<(String, LoxType<'a, N>)>,
    ) -> (c: Self)
        ensures
            c.id == old(heap).classes.len(),
            c.name == name,
            final(heap).classes_view() == old(heap).classes_view().push(
                ClassView { superclass, methods: bindings_view(methods@) },
            ),
            final(heap).frames_view() == old(heap).frames_view(),
            final(heap).instances_view() == old(heap).instances_view(),
    {
        let id = heap.classes.len();
        heap.classes.push(ClassData { superclass, methods });
        proof {
            assert(heap.classes_view() =~= old(heap).classes_view().push(
                ClassView { superclass, methods: bindings_view(methods@) },
            ));
        }
        Class { id, name }
    }

    pub fn name(&self) -> (r: &str)
        ensures
            r@ == self.name.lexeme@,
    {
        self.name.lexeme.as_str()
    }

    /// The method `name` of this class or of its nearest superclass that has one.
    pub fn find_method<N: Number>(&self, heap: &Heap<'a, N>, name: &str) -> (r: Option<LoxType<'a, N>>)
        ensures
            match r {
                Some(v) => spec_find_method(
                    heap.classes_view(),
                    self.id as int,
                    name@,
                    heap.classes.len() as nat,
                ) == Some(v.view()),
                None => spec_find_method(
                    heap.classes_view(),
                    self.id as int,
                    name@,
                    heap.classes.len() as nat,
                ) is None,
            },
    {
        let ghost classes = heap.classes_view();
        let ghost total = heap.classes.len() as nat;
        let mut id = self.id;
        let mut steps = heap.classes.len();
        loop
            invariant
                classes == heap.classes_view(),
                total == heap.classes.len(),
                spec_find_method(classes, id as int, name@, steps as nat) == spec_find_method(
                    classes,
                    self.id as int,
                    name@,
                    total,
                ),
            decreases steps,
        {
            if steps == 0 || id >= heap.classes.len() {
                return None;
            }
            let ghost methods = classes[id as int].methods;
            match find_binding(&heap.classes[id].methods, name) {
                Some(i) => {
                    proof {
                        lemma_first_binding_unique(methods, name@, i as int, first_binding(methods, name@));
                    }
                    return Some(heap.classes[id].methods[i].1.clone_value());
                },
                None => match heap.classes[id].superclass {
                    Some(sc) => {
                        id = sc.id;
                        steps = steps - 1;
                    },
                    None => {
                        return None;
                    },
                },
            }
        }
    }

    /// The number of arguments a call of this class takes.
    pub fn arity<N: Number>(&self, heap: &Heap<'a, N>) -> (n: usize)
        ensures
            n == spec_class_arity(heap.classes_view(), *self),
    {
        match self.find_method(heap, "init") {
            Some(LoxType::Function { function }) => function.arity(),
            _ => 0,
        }
    }
}

} // verus!
