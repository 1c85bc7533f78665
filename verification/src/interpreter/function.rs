use super::environment::{Environment, FrameView, spec_define};
use super::lox_type::{Heap, LoxType, Number};
use crate::stmt;
use vstd::prelude::*;

verus! {

/// A function value: its declaration, the environment it closes over, and
/// whether it is a class's initialiser.
#[derive(Clone, Copy)]
pub struct Function<'a> {
    pub declaration: &'a stmt::Function,
    pub closure: Environment,
    pub is_initialiser: bool,
}

impl<'a> Function<'a> {
    pub fn new(closure: &Environment, declaration: &'a stmt::Function, is_initialiser: bool) -> (f:
        Self)
        ensures
            f == (Function { declaration, closure: *closure, is_initialiser }),
    {
        Function { declaration, closure: *closure, is_initialiser }
    }

    pub fn name(&self) -> (r: &str)
        ensures
            r@ == self.declaration.name.lexeme@,
    {
        self.declaration.name.lexeme.as_str()
    }

    pub fn arity(&self) -> (n: usize)
        ensures
            n == self.declaration.params@.len(),
    {
        self.declaration.params.len()
    }

    /// The same function closing over a new frame, nested in its closure, that binds `this`.
    pub fn bind_this<N: Number>(&self, heap: &mut Heap<'a, N>, this: LoxType<'a, N>) -> (f: Self)
        ensures
            f == (Function {
                declaration: self.declaration,
                closure: Environment { frame: old(heap).frames.len(), global: self.closure.global },
                is_initialiser: self.is_initialiser,
            }),
            final(heap).frames_view() == old(heap).frames_view().push(
                FrameView { enclosing: Some(self.closure.frame), values: seq![("this"@, this.view())] },
            ),
            final(heap).classes_view() == old(heap).classes_view(),
            final(heap).instances_view() == old(heap).instances_view(),
    {
        let closure = Environment::new_with_enclosing(heap, &self.closure);
        let ghost v = this.view();
        closure.define(heap, "this", this);
        proof {
            let frames = old(heap).frames_view().push(
                FrameView { enclosing: Some(self.closure.frame), values: Seq::empty() },
            );
            assert(spec_define(frames, closure.frame as int, "this"@, v) =~= old(heap).frames_view().push(
                FrameView { enclosing: Some(self.closure.frame), values: seq![("this"@, v)] },
            )) by {
                assert(!super::environment::has_binding(Seq::<(Seq<char>, super::lox_type::ValueView<'a, N>)>::empty(), "this"@));
                assert(super::environment::spec_bind(Seq::<(Seq<char>, super::lox_type::ValueView<'a, N>)>::empty(), "this"@, v) =~= seq![("this"@, v)]);
            }
        }
        Function { declaration: self.declaration, closure, is_initialiser: self.is_initialiser }
    }
}

} // verus!
