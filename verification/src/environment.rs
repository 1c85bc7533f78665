use crate::interpreter::environment::{
    binding_value,
    first_binding,
    has_binding,
    is_first_binding,
    lemma_bind,
    lemma_first_binding_exists,
    lemma_first_binding_unique,
    quoted_message,
    spec_bind,
    undefined_variable,
};
use crate::token::{str_equal, Token};
use vstd::prelude::*;

verus! {

/// A run-time error and its message.
#[derive(Debug, PartialEq)]
pub struct RuntimeError {
    pub message: String,
}

/// One frame of named values.
pub struct Frame<V> {
    pub values: Vec<(String, V)>,
}

pub open spec fn frame_view<V>(values: Seq<(String, V)>) -> Seq<(Seq<char>, V)> {
    values.map_values(|b: (String, V)| (b.0@, b.1))
}

impl<V> Frame<V> {
    pub open spec fn view(&self) -> Seq<(Seq<char>, V)> {
        frame_view(self.values@)
    }

    pub fn new() -> (f: Self)
        ensures
            f.view() == Seq::<(Seq<char>, V)>::empty(),
    {
        let f = Frame { values: Vec::new() };
        assert(f.view() =~= Seq::<(Seq<char>, V)>::empty());
        f
    }

    /// The position of the first binding of `name`.
    fn find(&self, name: &str) -> (r: Option<usize>)
        ensures
            match r {
                Some(i) => is_first_binding(self.view(), name@, i as int),
                None => !has_binding(self.view(), name@),
            },
    {
        let mut i: usize = 0;
        while i < self.values.len()
            invariant
                0 <= i <= self.values.len(),
                forall|j: int| 0 <= j < i ==> #[trigger] self.view()[j].0 != name@,
            decreases self.values.len() - i,
        {
            if str_equal(self.values[i].0.as_str(), name) {
                assert(is_first_binding(self.view(), name@, i as int));
                return Some(i);
            }
            i = i + 1;
        }
        assert forall|k: int| !is_first_binding(self.view(), name@, k) by {
            if 0 <= k < self.view().len() {
                assert(self.view()[k].0 != name@);
            }
        }
        None
    }

    /// Binds `name` to `value`.
    fn define(&mut self, name: &str, value: V)
        ensures
            final(self).view() == spec_bind(old(self).view(), name@, value),
    {
        let ghost before = self.view();
        match self.find(name) {
            Some(i) => {
                proof {
                    lemma_first_binding_unique(before, name@, i as int, first_binding(before, name@));
                }
                self.values.set(i, (name.to_owned(), value));
                assert(self.view() =~= before.update(i as int, (name@, value)));
            },
            None => {
                self.values.push((name.to_owned(), value));
                assert(self.view() =~= before.push((name@, value)));
            },
        }
    }
}

/// The value of `name` in the innermost frame that binds it (frames are
/// listed from the outermost to the innermost).
pub open spec fn spec_get<V>(frames: Seq<Seq<(Seq<char>, V)>>, name: Seq<char>) -> Option<V>
    decreases frames.len(),
{
    if frames.len() == 0 {
        None
    } else if has_binding(frames.last(), name) {
        binding_value(frames.last(), name)
    } else {
        spec_get(frames.drop_last(), name)
    }
}

/// The innermost frame that binds `name`.
pub open spec fn spec_binding_frame<V>(frames: Seq<Seq<(Seq<char>, V)>>, name: Seq<char>) -> Option<
    int,
>
    decreases frames.len(),
{
    if frames.len() == 0 {
        None
    } else if has_binding(frames.last(), name) {
        Some(frames.len() - 1)
    } else {
        spec_binding_frame(frames.drop_last(), name)
    }
}

/// The frames after `name` is rebound to `v` in the innermost frame that binds it.
pub open spec fn spec_assign<V>(frames: Seq<Seq<(Seq<char>, V)>>, name: Seq<char>, v: V) -> Option<
    Seq<Seq<(Seq<char>, V)>>,
> {
    match spec_binding_frame(frames, name) {
        Some(f) => Some(frames.update(f, spec_bind(frames[f], name, v))),
        None => None,
    }
}

/// Frames of named values, each nested in the one before it.
pub struct Environment<V> {
    pub frames: Vec<Frame<V>>,
}

impl<V: Clone> Environment<V> {
    pub open spec fn view(&self) -> Seq<Seq<(Seq<char>, V)>> {
        self.frames@.map_values(|f: Frame<V>| f.view())
    }

    /// An environment with one, empty, frame.
    pub fn new() -> (e: Self)
        ensures
            e.view() == seq![Seq::<(Seq<char>, V)>::empty()],
    {
        let mut frames: Vec<Frame<V>> = Vec::new();
        frames.push(Frame::new());
        let e = Environment { frames };
        assert(e.view() =~= seq![Seq::<(Seq<char>, V)>::empty()]);
        e
    }

    /// Opens a new, empty, innermost frame.
    pub fn new_frame(&mut self)
        ensures
            final(self).view() == old(self).view().push(Seq::empty()),
    {
        self.frames.push(Frame::new());
        assert(self.view() =~= old(self).view().push(Seq::empty()));
    }

    /// Closes the innermost frame, if there is one.
    pub fn pop_frame(&mut self)
        ensures
            final(self).view() == (if old(self).view().len() == 0 {
                old(self).view()
            } else {
                old(self).view().drop_last()
            }),
    {
        if self.frames.len() > 0 {
            let _ = self.frames.pop();
            assert(self.view() =~= old(self).view().drop_last());
        }
    }

    /// Binds `name` to a clone of `value` in the innermost frame.
    pub fn define(&mut self, name: &str, value: &V)
        requires
            old(self).view().len() > 0,
        ensures
            final(self).view().len() == old(self).view().len(),
            exists|c: V|
                cloned(*value, c) && final(self).view() == old(self).view().update(
                    old(self).view().len() - 1,
                    spec_bind(old(self).view().last(), name@, c),
                ),
    {
        let last = self.frames.len() - 1;
        let c = value.clone();
        let ghost gc = c;
        assert(cloned(*value, gc));
        self.frames[last].define(name, c);
        assert(self.view() =~= old(self).view().update(
            old(self).view().len() - 1,
            spec_bind(old(self).view().last(), name@, gc),
        ));
    }

    /// The position of the innermost frame that binds `name`.
    fn binding_frame(&self, name: &str) -> (r: Option<usize>)
        ensures
            match r {
                Some(f) => f < self.view().len() && spec_binding_frame(self.view(), name@) == Some(
                    f as int,
                ),
                None => spec_binding_frame(self.view(), name@) is None,
            },
    {
        let ghost frames = self.view();
        let mut n = self.frames.len();
        assert(frames.take(n as int) =~= frames);
        while n > 0
            invariant
                n <= self.frames.len(),
                frames == self.view(),
                spec_binding_frame(frames.take(n as int), name@) == spec_binding_frame(frames, name@),
            decreases n,
        {
            assert(frames.take(n as int).last() == frames[n - 1]);
            assert(frames.take(n as int).drop_last() =~= frames.take(n - 1));
            match self.frames[n - 1].find(name) {
                Some(_) => {
                    return Some(n - 1);
                },
                None => {
                    n = n - 1;
                },
            }
        }
        None
    }

    /// Rebinds `name`, in the innermost frame that binds it, to a clone of
    /// `value`; an error where no frame binds it.
    pub fn assign(&mut self, name: &Token, value: &V) -> (r: Result<(), RuntimeError>)
        ensures
            match spec_binding_frame(old(self).view(), name.lexeme@) {
                Some(f) => r is Ok && exists|c: V|
                    cloned(*value, c) && final(self).view() == old(self).view().update(
                        f,
                        spec_bind(old(self).view()[f], name.lexeme@, c),
                    ),
                None => {
                    &&& r matches Err(e) && e.message@ == undefined_variable(name.lexeme@)
                    &&& final(self).view() == old(self).view()
                },
            },
    {
        match self.binding_frame(name.lexeme.as_str()) {
            Some(f) => {
                let c = value.clone();
                let ghost gc = c;
                assert(cloned(*value, gc));
                self.frames[f].define(name.lexeme.as_str(), c);
                assert(self.view() =~= old(self).view().update(
                    f as int,
                    spec_bind(old(self).view()[f as int], name.lexeme@, gc),
                ));
                Ok(())
            },
            None => Err(
                RuntimeError {
                    message: quoted_message("Undefined variable '", name.lexeme.as_str()),
                },
            ),
        }
    }

    /// A clone of the value of `name` in the innermost frame that binds it; an
    /// error where no frame binds it.
    pub fn get(&self, name: &Token) -> (r: Result<V, RuntimeError>)
        ensures
            match spec_get(self.view(), name.lexeme@) {
                Some(v) => r matches Ok(c) && cloned(v, c),
                None => r matches Err(e) && e.message@ == undefined_variable(name.lexeme@),
            },
    {
        proof {
            lemma_get_at_binding_frame(self.view(), name.lexeme@);
        }
        match self.binding_frame(name.lexeme.as_str()) {
            Some(f) => {
                let frame = &self.frames[f];
                let i = frame.find(name.lexeme.as_str()).unwrap();
                proof {
                    lemma_first_binding_unique(
                        frame.view(),
                        name.lexeme@,
                        i as int,
                        first_binding(frame.view(), name.lexeme@),
                    );
                }
                Ok(frame.values[i].1.clone())
            },
            None => Err(
                RuntimeError {
                    message: quoted_message("Undefined variable '", name.lexeme.as_str()),
                },
            ),
        }
    }
}

/// A name's value is its binding in the innermost frame that binds it.
pub proof fn lemma_get_at_binding_frame<V>(frames: Seq<Seq<(Seq<char>, V)>>, name: Seq<char>)
    ensures
        match spec_binding_frame(frames, name) {
            Some(f) => 0 <= f < frames.len() && has_binding(frames[f], name) && spec_get(
                frames,
                name,
            ) == binding_value(frames[f], name),
            None => spec_get(frames, name) is None,
        },
    decreases frames.len(),
{
    if frames.len() > 0 && !has_binding(frames.last(), name) {
        lemma_get_at_binding_frame(frames.drop_last(), name);
    }
}

/// After a value is defined in the innermost frame, its name gives that value,
/// and every other name gives what it gave before.
pub proof fn law_get_after_define<V>(
    frames: Seq<Seq<(Seq<char>, V)>>,
    name: Seq<char>,
    v: V,
    other: Seq<char>,
)
    requires
        frames.len() > 0,
    ensures
        ({
            let defined = frames.update(frames.len() - 1, spec_bind(frames.last(), name, v));
            &&& spec_get(defined, name) == Some(v)
            &&& other != name ==> spec_get(defined, other) == spec_get(frames, other)
        }),
{
    let defined = frames.update(frames.len() - 1, spec_bind(frames.last(), name, v));
    lemma_bind(frames.last(), name, v, other);
    assert(defined.last() == spec_bind(frames.last(), name, v));
    assert(defined.drop_last() =~= frames.drop_last());
    lemma_bound_iff_value(defined.last(), name);
    lemma_bound_iff_value(defined.last(), other);
    lemma_bound_iff_value(frames.last(), other);
}

/// A name is bound exactly where it has a value.
pub proof fn lemma_bound_iff_value<V>(values: Seq<(Seq<char>, V)>, name: Seq<char>)
    ensures
        has_binding(values, name) <==> binding_value(values, name) is Some,
{
}

/// After a successful assignment, the name gives the assigned value.
pub proof fn law_get_after_assign<V>(frames: Seq<Seq<(Seq<char>, V)>>, name: Seq<char>, v: V)
    requires
        spec_assign(frames, name, v) is Some,
    ensures
        spec_get(spec_assign(frames, name, v)->0, name) == Some(v),
    decreases frames.len(),
{
    let f = spec_binding_frame(frames, name)->0;
    let assigned = frames.update(f, spec_bind(frames[f], name, v));
    lemma_get_at_binding_frame(frames, name);
    lemma_bind(frames[f], name, v, name);
    lemma_bound_iff_value(assigned[f], name);
    if f == frames.len() - 1 {
        assert(assigned.last() == spec_bind(frames[f], name, v));
    } else {
        assert(assigned.last() == frames.last());
        assert(spec_binding_frame(frames.drop_last(), name) == Some(f));
        assert(assigned.drop_last() =~= frames.drop_last().update(
            f,
            spec_bind(frames.drop_last()[f], name, v),
        ));
        law_get_after_assign(frames.drop_last(), name, v);
    }
}

/// An empty frame changes no lookup.
pub proof fn law_new_frame_keeps_values<V>(frames: Seq<Seq<(Seq<char>, V)>>, name: Seq<char>)
    ensures
        spec_get(frames.push(Seq::empty()), name) == spec_get(frames, name),
{
    assert(!has_binding(Seq::<(Seq<char>, V)>::empty(), name));
    assert(frames.push(Seq::empty()).drop_last() =~= frames);
}

/// Closing a frame forgets what was defined in it: opening a frame, defining a
/// value there and closing the frame again leaves the frames as they were.
pub proof fn law_pop_forgets_define<V>(frames: Seq<Seq<(Seq<char>, V)>>, name: Seq<char>, v: V)
    ensures
        ({
            let opened = frames.push(Seq::empty());
            opened.update(opened.len() - 1, spec_bind(opened.last(), name, v)).drop_last()
                == frames
        }),
{
    let opened = frames.push(Seq::empty());
    assert(opened.update(opened.len() - 1, spec_bind(opened.last(), name, v)).drop_last()
        =~= frames);
}

} // verus!
