use super::class::{Class, ClassView, spec_find_method};
use super::environment::{
    Environment,
    FrameView,
    bind,
    bindings_view,
    binding_value,
    find_binding,
    first_binding,
    has_binding,
    lemma_first_binding_unique,
    quoted_message,
    spec_bind,
};
use super::function::Function;
use super::lox_type::{Heap, LoxType, Number, ValueView};
use super::unwind::{outcome, Unwind, UnwindView};
use vstd::prelude::*;

verus! {

/// An instance: its place among the heap's instances, and its class.
#[derive(Clone, Copy)]
pub struct Instance<'a> {
    pub id: usize,
    pub class: Class<'a>,
}

/// What the heap keeps of an instance: its fields by name.
pub struct InstanceData<'a, N> {
    pub fields: Vec<(String, LoxType<'a, N>)>,
}

pub open spec fn undefined_property(name: Seq<char>) -> Seq<char> {
    "Undefined property '"@ + name + "'"@
}

/// What property `name` of `instance` holds: its field of that name, or else
/// the method of its class.
pub open spec fn spec_property<'a, N>(
    instances: Seq<Seq<(Seq<char>, ValueView<'a, N>)>>,
    classes: Seq<ClassView<'a, N>>,
    instance: Instance<'a>,
    name: Seq<char>,
) -> Option<ValueView<'a, N>> {
    if 0 <= instance.id < instances.len() && has_binding(instances[instance.id as int], name) {
        binding_value(instances[instance.id as int], name)
    } else {
        spec_find_method(classes, instance.class.id as int, name, classes.len())
    }
}

/// The frames after `v` was bound to `instance`: a function gets a new frame binding `this`.
pub open spec fn bound_frames<'a, N>(
    frames: Seq<FrameView<'a, N>>,
    v: ValueView<'a, N>,
    instance: Instance<'a>,
) -> Seq<FrameView<'a, N>> {
    match v {
        ValueView::Function(f) => frames.push(
            FrameView {
                enclosing: Some(f.closure.frame),
                values: seq![("this"@, ValueView::Instance(instance))],
            },
        ),
        _ => frames,
    }
}

/// `v` bound to `instance`, where the new frame is frame `frame`: a function
/// closes over that frame, anything else stays as it is.
pub open spec fn bound_value<'a, N>(frame: nat, v: ValueView<'a, N>) -> ValueView<'a, N> {
    match v {
        ValueView::Function(f) => ValueView::Function(
            Function {
                declaration: f.declaration,
                closure: Environment { frame: frame as usize, global: f.closure.global },
                is_initialiser: f.is_initialiser,
            },
        ),
        _ => v,
    }
}

impl<'a> Instance<'a> {
    /// A new instance of `class`, with no fields.
    pub fn new<N: Number>(heap: &mut Heap<'a, N>, class: Class<'a>) -> (i: Self)
        ensures
            i == (Instance { id: old(heap).instances.len(), class }),
            final(heap).instances_view() == old(heap).instances_view().push(Seq::empty()),
            final(heap).frames_view() == old(heap).frames_view(),
            final(heap).classes_view() == old(heap).classes_view(),
    {
        let id = heap.instances.len();
        heap.instances.push(InstanceData { fields: Vec::new() });
        proof {
            assert(bindings_view(heap.instances@[id as int].fields@) =~= Seq::<
                (Seq<char>, ValueView<'a, N>),
            >::empty());
            assert(heap.instances_view() =~= old(heap).instances_view().push(Seq::empty()));
        }
        Instance { id, class }
    }

    pub fn class_name(&self) -> (r: &str)
        ensures
            r@ == self.class.name.lexeme@,
    {
        self.class.name()
    }

    /// Binds a function to this instance; any other value is returned as it is.
    fn bind_this<N: Number>(&self, heap: &mut Heap<'a, N>, value: LoxType<'a, N>) -> (r: LoxType<
        'a,
        N,
    >)
        ensures
            r.view() == bound_value(old(heap).frames.len() as nat, value.view()),
            final(heap).frames_view() == bound_frames(old(heap).frames_view(), value.view(), *self),
            final(heap).classes_view() == old(heap).classes_view(),
            final(heap).instances_view() == old(heap).instances_view(),
    {
        match value {
            LoxType::Function { function } => {
                let bound = function.bind_this(heap, LoxType::Instance { instance: *self });
                LoxType::Function { function: bound }
            },
            _ => value,
        }
    }

    /// The field `name` of this instance or else the method `name` of its
    /// class, bound to this instance; an error where there is neither.
    pub fn get<N: Number>(&self, heap: &mut Heap<'a, N>, name: &str) -> (r: Result<
        LoxType<'a, N>,
        Unwind<'a, N>,
    >)
        ensures
            match spec_property(
                old(heap).instances_view(),
                old(heap).classes_view(),
                *self,
                name@,
            ) {
                Some(v) => {
                    &&& outcome(r) == Ok::<ValueView<'a, N>, UnwindView<'a, N>>(
                        bound_value(old(heap).frames.len() as nat, v),
                    )
                    &&& final(heap).frames_view() == bound_frames(old(heap).frames_view(), v, *self)
                },
                None => {
                    &&& outcome(r) == Err::<ValueView<'a, N>, UnwindView<'a, N>>(
                        UnwindView::WithError(undefined_property(name@)),
                    )
                    &&& final(heap).frames_view() == old(heap).frames_view()
                },
            },
            final(heap).classes_view() == old(heap).classes_view(),
            final(heap).instances_view() == old(heap).instances_view(),
    {
        let mut field: Option<LoxType<'a, N>> = None;
        if self.id < heap.instances.len() {
            let ghost fields = heap.instances_view()[self.id as int];
            match find_binding(&heap.instances[self.id].fields, name) {
                Some(i) => {
                    proof {
                        lemma_first_binding_unique(fields, name@, i as int, first_binding(fields, name@));
                    }
                    field = Some(heap.instances[self.id].fields[i].1.clone_value());
                },
                None => {},
            }
        }
        let value = match field {
            Some(v) => v,
            None => match self.class.find_method(heap, name) {
                Some(m) => m,
                None => {
                    return Err(Unwind::WithError(quoted_message("Undefined property '", name)));
                },
            },
        };
        Ok(self.bind_this(heap, value))
    }

    /// The method `name` of this instance's class, bound to this instance.
    pub fn find_method<N: Number>(&self, heap: &mut Heap<'a, N>, name: &str) -> (r: Option<
        LoxType<'a, N>,
    >)
        ensures
            match spec_find_method(
                old(heap).classes_view(),
                self.class.id as int,
                name@,
                old(heap).classes.len() as nat,
            ) {
                Some(v) => {
                    &&& r matches Some(b) && b.view() == bound_value(old(heap).frames.len() as nat, v)
                    &&& final(heap).frames_view() == bound_frames(old(heap).frames_view(), v, *self)
                },
                None => {
                    &&& r is None
                    &&& final(heap).frames_view() == old(heap).frames_view()
                },
            },
            final(heap).classes_view() == old(heap).classes_view(),
            final(heap).instances_view() == old(heap).instances_view(),
    {
        match self.class.find_method(heap, name) {
            Some(m) => Some(self.bind_this(heap, m)),
            None => None,
        }
    }

    /// Sets the field `name` of this instance to `value`.
    pub fn set<N: Number>(&self, heap: &mut Heap<'a, N>, name: &str, value: LoxType<'a, N>)
        ensures
            final(heap).instances_view() == (if self.id < old(heap).instances.len() {
                old(heap).instances_view().update(
                    self.id as int,
                    spec_bind(old(heap).instances_view()[self.id as int], name@, value.view()),
                )
            } else {
                old(heap).instances_view()
            }),
            final(heap).frames_view() == old(heap).frames_view(),
            final(heap).classes_view() == old(heap).classes_view(),
    {
        if self.id < heap.instances.len() {
            let ghost v = value.view();
            bind(&mut heap.instances[self.id].fields, name, value);
            proof {
                assert(heap.instances_view() =~= old(heap).instances_view().update(
                    self.id as int,
                    spec_bind(old(heap).instances_view()[self.id as int], name@, v),
                ));
            }
        }
    }
}


/// Reading a field of an instance after setting it gives the value set.
pub proof fn law_get_after_set<'a, N>(
    instances: Seq<Seq<(Seq<char>, ValueView<'a, N>)>>,
    classes: Seq<ClassView<'a, N>>,
    instance: Instance<'a>,
    name: Seq<char>,
    v: ValueView<'a, N>,
)
    requires
        instance.id < instances.len(),
    ensures
        spec_property(
            instances.update(instance.id as int, spec_bind(instances[instance.id as int], name, v)),
            classes,
            instance,
            name,
        ) == Some(v),
{
    super::environment::lemma_bind(instances[instance.id as int], name, v, name);
}

} // verus!
