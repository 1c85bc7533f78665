use super::lox_type::{Heap, LoxType, Number, ValueView};
use super::unwind::{outcome, Unwind, UnwindView};
use crate::text::append_str;
use crate::token::str_equal;
use vstd::prelude::*;

verus! {

/// A frame of variables, with the frame it is nested in.
pub struct Frame<'a, N> {
    pub enclosing: Option<usize>,
    pub values: Vec<(String, LoxType<'a, N>)>,
}

pub struct FrameView<'a, N> {
    pub enclosing: Option<usize>,
    pub values: Seq<(Seq<char>, ValueView<'a, N>)>,
}

impl<'a, N: Number> Frame<'a, N> {
    pub open spec fn view(&self) -> FrameView<'a, N> {
        FrameView { enclosing: self.enclosing, values: bindings_view(self.values@) }
    }
}

/// Named values with names and values as views.
pub open spec fn bindings_view<'a, N: Number>(values: Seq<(String, LoxType<'a, N>)>) -> Seq<
    (Seq<char>, ValueView<'a, N>),
> {
    values.map_values(|b: (String, LoxType<'a, N>)| (b.0@, b.1.view()))
}

/// `i` is the first position that binds `name`.
pub open spec fn is_first_binding<V>(values: Seq<(Seq<char>, V)>, name: Seq<char>, i: int) -> bool {
    &&& 0 <= i < values.len()
    &&& values[i].0 == name
    &&& forall|j: int| 0 <= j < i ==> #[trigger] values[j].0 != name
}

pub open spec fn has_binding<V>(values: Seq<(Seq<char>, V)>, name: Seq<char>) -> bool {
    exists|i: int| is_first_binding(values, name, i)
}

pub open spec fn first_binding<V>(values: Seq<(Seq<char>, V)>, name: Seq<char>) -> int {
    choose|i: int| is_first_binding(values, name, i)
}

/// The value bound to `name`, if any.
pub open spec fn binding_value<V>(values: Seq<(Seq<char>, V)>, name: Seq<char>) -> Option<V> {
    if has_binding(values, name) {
        Some(values[first_binding(values, name)].1)
    } else {
        None
    }
}

/// Binds `name` to `v`: replaces its binding, or adds one at the end.
pub open spec fn spec_bind<V>(values: Seq<(Seq<char>, V)>, name: Seq<char>, v: V) -> Seq<
    (Seq<char>, V),
> {
    if has_binding(values, name) {
        values.update(first_binding(values, name), (name, v))
    } else {
        values.push((name, v))
    }
}

pub proof fn lemma_first_binding_unique<V>(values: Seq<(Seq<char>, V)>, name: Seq<char>, i: int, k: int)
    requires
        is_first_binding(values, name, i),
        is_first_binding(values, name, k),
    ensures
        i == k,
{
    if i < k {
        assert(values[i].0 != name);
    } else if k < i {
        assert(values[k].0 != name);
    }
}

/// A name bound somewhere has a first binding.
pub proof fn lemma_first_binding_exists<V>(values: Seq<(Seq<char>, V)>, name: Seq<char>, j: int)
    requires
        0 <= j < values.len(),
        values[j].0 == name,
    ensures
        has_binding(values, name),
    decreases j,
{
    if exists|k: int| 0 <= k < j && #[trigger] values[k].0 == name {
        let k = choose|k: int| 0 <= k < j && #[trigger] values[k].0 == name;
        lemma_first_binding_exists(values, name, k);
    } else {
        assert(is_first_binding(values, name, j));
    }
}

/// After binding `name`, it holds the new value, and every other name keeps its own.
pub proof fn lemma_bind<V>(values: Seq<(Seq<char>, V)>, name: Seq<char>, v: V, other: Seq<char>)
    ensures
        binding_value(spec_bind(values, name, v), name) == Some(v),
        other != name ==> binding_value(spec_bind(values, name, v), other) == binding_value(
            values,
            other,
        ),
{
    let nv = spec_bind(values, name, v);
    if has_binding(values, name) {
        let i = first_binding(values, name);
        assert(is_first_binding(nv, name, i));
        lemma_first_binding_unique(nv, name, i, first_binding(nv, name));
        if other != name {
            if has_binding(values, other) {
                let k = first_binding(values, other);
                assert forall|j: int| 0 <= j < k implies #[trigger] nv[j].0 != other by {
                    assert(values[j].0 != other);
                }
                assert(is_first_binding(nv, other, k));
                lemma_first_binding_unique(nv, other, k, first_binding(nv, other));
            } else {
                if has_binding(nv, other) {
                    let k = first_binding(nv, other);
                    assert forall|j: int| 0 <= j < k implies #[trigger] values[j].0 != other by {
                        assert(nv[j].0 != other);
                    }
                    assert(is_first_binding(values, other, k));
                }
            }
        }
    } else {
        let i = values.len() as int;
        assert forall|j: int| 0 <= j < i implies #[trigger] nv[j].0 != name by {
            if values[j].0 == name {
                lemma_first_binding_exists(values, name, j);
            }
        }
        assert(is_first_binding(nv, name, i));
        lemma_first_binding_unique(nv, name, i, first_binding(nv, name));
        if other != name {
            if has_binding(values, other) {
                let k = first_binding(values, other);
                assert forall|j: int| 0 <= j < k implies #[trigger] nv[j].0 != other by {
                    assert(values[j].0 != other);
                }
                assert(is_first_binding(nv, other, k));
                lemma_first_binding_unique(nv, other, k, first_binding(nv, other));
            } else {
                if has_binding(nv, other) {
                    let k = first_binding(nv, other);
                    assert forall|j: int| 0 <= j < k implies #[trigger] values[j].0 != other by {
                        assert(nv[j].0 != other);
                    }
                    assert(is_first_binding(values, other, k));
                }
            }
        }
    }
}

/// The position of the first binding of `name`.
pub fn find_binding<'a, N: Number>(values: &Vec<(String, LoxType<'a, N>)>, name: &str) -> (r: Option<
    usize,
>)
    ensures
        match r {
            Some(i) => is_first_binding(bindings_view(values@), name@, i as int),
            None => !has_binding(bindings_view(values@), name@),
        },
{
    let ghost bv = bindings_view(values@);
    let mut i: usize = 0;
    while i < values.len()
        invariant
            0 <= i <= values.len(),
            bv == bindings_view(values@),
            forall|j: int| 0 <= j < i ==> #[trigger] bv[j].0 != name@,
        decreases values.len() - i,
    {
        if str_equal(values[i].0.as_str(), name) {
            assert(is_first_binding(bv, name@, i as int));
            return Some(i);
        }
        i = i + 1;
    }
    assert forall|k: int| !is_first_binding(bv, name@, k) by {
        if 0 <= k < bv.len() {
            assert(bv[k].0 != name@);
        }
    }
    None
}

/// Binds `name` to `value`: replaces its binding, or adds one at the end.
pub fn bind<'a, N: Number>(values: &mut Vec<(String, LoxType<'a, N>)>, name: &str, value: LoxType<'a, N>)
    ensures
        bindings_view(final(values)@) == spec_bind(bindings_view(old(values)@), name@, value.view()),
{
    let ghost bv = bindings_view(values@);
    match find_binding(values, name) {
        Some(i) => {
            proof {
                lemma_first_binding_unique(bv, name@, i as int, first_binding(bv, name@));
            }
            values.set(i, (name.to_owned(), value));
            assert(bindings_view(values@) =~= bv.update(i as int, (name@, value.view())));
        },
        None => {
            values.push((name.to_owned(), value));
            assert(bindings_view(values@) =~= bv.push((name@, value.view())));
        },
    }
}

/// `prefix`, then `name`, then a closing quote.
pub fn quoted_message(prefix: &str, name: &str) -> (s: String)
    ensures
        s@ == prefix@ + name@ + "'"@,
{
    let mut s = String::new();
    append_str(&mut s, prefix);
    append_str(&mut s, name);
    append_str(&mut s, "'");
    s
}

pub open spec fn undefined_variable(name: Seq<char>) -> Seq<char> {
    "Undefined variable '"@ + name + "'"@
}

/// The frame `depth` steps out from `frame`, if there is one.
pub open spec fn spec_ancestor<'a, N>(frames: Seq<FrameView<'a, N>>, frame: int, depth: nat) -> Option<
    int,
>
    decreases depth,
{
    if !(0 <= frame < frames.len()) {
        None
    } else if depth == 0 {
        Some(frame)
    } else {
        match frames[frame].enclosing {
            Some(e) => spec_ancestor(frames, e as int, (depth - 1) as nat),
            None => None,
        }
    }
}

/// `frames` with `name` bound to `v` in frame `f`.
pub open spec fn spec_define<'a, N>(
    frames: Seq<FrameView<'a, N>>,
    f: int,
    name: Seq<char>,
    v: ValueView<'a, N>,
) -> Seq<FrameView<'a, N>> {
    if 0 <= f < frames.len() {
        frames.update(
            f,
            FrameView { enclosing: frames[f].enclosing, values: spec_bind(frames[f].values, name, v) },
        )
    } else {
        frames
    }
}

/// Where the variables of a scope live: its own frame and the global frame.
#[derive(Clone, Copy)]
pub struct Environment {
    pub frame: usize,
    pub global: usize,
}

impl Environment {
    /// The frame that a variable resolved at `depth` lives in (the global
    /// frame where it was not resolved).
    pub open spec fn target<'a, N>(&self, frames: Seq<FrameView<'a, N>>, depth: Option<usize>) -> Option<
        int,
    > {
        match depth {
            None => spec_ancestor(frames, self.global as int, 0),
            Some(d) => spec_ancestor(frames, self.frame as int, d as nat),
        }
    }

    /// A new global environment, in a new frame.
    pub fn new<'a, N: Number>(heap: &mut Heap<'a, N>) -> (e: Self)
        ensures
            final(heap).frames_view() == old(heap).frames_view().push(
                FrameView { enclosing: None, values: Seq::empty() },
            ),
            final(heap).classes_view() == old(heap).classes_view(),
            final(heap).instances_view() == old(heap).instances_view(),
            e.frame == old(heap).frames.len(),
            e.global == old(heap).frames.len(),
    {
        let frame = heap.frames.len();
        heap.frames.push(Frame { enclosing: None, values: Vec::new() });
        proof {
            assert(bindings_view(heap.frames@[frame as int].values@) =~= Seq::<
                (Seq<char>, ValueView<'a, N>),
            >::empty());
            assert(heap.frames_view() =~= old(heap).frames_view().push(
                FrameView { enclosing: None, values: Seq::empty() },
            ));
        }
        Environment { frame, global: frame }
    }

    /// A new environment, in a new frame nested in the frame of `enclosing`.
    pub fn new_with_enclosing<'a, N: Number>(heap: &mut Heap<'a, N>, enclosing: &Environment) -> (e:
        Self)
        ensures
            final(heap).frames_view() == old(heap).frames_view().push(
                FrameView { enclosing: Some(enclosing.frame), values: Seq::empty() },
            ),
            final(heap).classes_view() == old(heap).classes_view(),
            final(heap).instances_view() == old(heap).instances_view(),
            e.frame == old(heap).frames.len(),
            e.global == enclosing.global,
    {
        let frame = heap.frames.len();
        heap.frames.push(Frame { enclosing: Some(enclosing.frame), values: Vec::new() });
        proof {
            assert(bindings_view(heap.frames@[frame as int].values@) =~= Seq::<
                (Seq<char>, ValueView<'a, N>),
            >::empty());
            assert(heap.frames_view() =~= old(heap).frames_view().push(
                FrameView { enclosing: Some(enclosing.frame), values: Seq::empty() },
            ));
        }
        Environment { frame, global: enclosing.global }
    }

    /// Binds `name` to `value` in this environment's own frame.
    pub fn define<'a, N: Number>(&self, heap: &mut Heap<'a, N>, name: &str, value: LoxType<'a, N>)
        ensures
            final(heap).frames_view() == spec_define(
                old(heap).frames_view(),
                self.frame as int,
                name@,
                value.view(),
            ),
            final(heap).classes_view() == old(heap).classes_view(),
            final(heap).instances_view() == old(heap).instances_view(),
    {
        if self.frame < heap.frames.len() {
            let ghost v = value.view();
            bind(&mut heap.frames[self.frame].values, name, value);
            proof {
                assert(heap.frames_view() =~= spec_define(
                    old(heap).frames_view(),
                    self.frame as int,
                    name@,
                    v,
                ));
            }
        }
    }

    /// The frame `depth` steps out (the global frame for no depth).
    fn locate<'a, N: Number>(&self, heap: &Heap<'a, N>, depth: Option<usize>) -> (r: Option<usize>)
        ensures
            match r {
                Some(t) => t < heap.frames.len() && self.target(heap.frames_view(), depth) == Some(
                    t as int,
                ),
                None => self.target(heap.frames_view(), depth) is None,
            },
    {
        let ghost frames = heap.frames_view();
        let (start, steps) = match depth {
            None => (self.global, 0usize),
            Some(d) => (self.frame, d),
        };
        let mut f = start;
        let mut d = steps;
        loop
            invariant
                frames == heap.frames_view(),
                spec_ancestor(frames, f as int, d as nat) == self.target(frames, depth),
            decreases d,
        {
            if f >= heap.frames.len() {
                return None;
            }
            if d == 0 {
                return Some(f);
            }
            match heap.frames[f].enclosing {
                Some(e) => {
                    f = e;
                    d = d - 1;
                },
                None => {
                    return None;
                },
            }
        }
    }

    /// Rebinds `name` in the frame `depth` steps out; an error where it is not bound there.
    pub fn assign_at<'a, N: Number>(
        &self,
        heap: &mut Heap<'a, N>,
        depth: Option<usize>,
        name: &str,
        value: LoxType<'a, N>,
    ) -> (r: Result<(), Unwind<'a, N>>)
        ensures
            final(heap).classes_view() == old(heap).classes_view(),
            final(heap).instances_view() == old(heap).instances_view(),
            match self.target(old(heap).frames_view(), depth) {
                Some(t) if has_binding(old(heap).frames_view()[t].values, name@) => {
                    &&& r is Ok
                    &&& final(heap).frames_view() == spec_define(
                        old(heap).frames_view(),
                        t,
                        name@,
                        value.view(),
                    )
                },
                _ => {
                    &&& r matches Err(Unwind::WithError(m)) && m@ == undefined_variable(name@)
                    &&& final(heap).frames_view() == old(heap).frames_view()
                },
            },
    {
        match self.locate(heap, depth) {
            Some(t) => {
                let ghost v = value.view();
                match find_binding(&heap.frames[t].values, name) {
                    Some(_) => {
                        bind(&mut heap.frames[t].values, name, value);
                        proof {
                            assert(heap.frames_view() =~= spec_define(
                                old(heap).frames_view(),
                                t as int,
                                name@,
                                v,
                            ));
                        }
                        Ok(())
                    },
                    None => Err(Unwind::WithError(quoted_message("Undefined variable '", name))),
                }
            },
            None => Err(Unwind::WithError(quoted_message("Undefined variable '", name))),
        }
    }

    /// The value of `name` in the frame `depth` steps out; an error where it is not bound there.
    pub fn get_at<'a, N: Number>(&self, heap: &Heap<'a, N>, depth: Option<usize>, name: &str) -> (r:
        Result<LoxType<'a, N>, Unwind<'a, N>>)
        ensures
            outcome(r) == match self.target(heap.frames_view(), depth) {
                Some(t) => match binding_value(heap.frames_view()[t].values, name@) {
                    Some(v) => Ok(v),
                    None => Err(UnwindView::<'a, N>::WithError(undefined_variable(name@))),
                },
                None => Err(UnwindView::<'a, N>::WithError(undefined_variable(name@))),
            },
    {
        match self.locate(heap, depth) {
            Some(t) => {
                let ghost bv = heap.frames_view()[t as int].values;
                match find_binding(&heap.frames[t].values, name) {
                    Some(i) => {
                        proof {
                            lemma_first_binding_unique(bv, name@, i as int, first_binding(bv, name@));
                        }
                        Ok(heap.frames[t].values[i].1.clone_value())
                    },
                    None => Err(Unwind::WithError(quoted_message("Undefined variable '", name))),
                }
            },
            None => Err(Unwind::WithError(quoted_message("Undefined variable '", name))),
        }
    }
}

/// Which frame encloses which does not depend on the values the frames hold.
pub proof fn lemma_ancestor_same_shape<'a, N>(
    frames: Seq<FrameView<'a, N>>,
    other: Seq<FrameView<'a, N>>,
    frame: int,
    depth: nat,
)
    requires
        frames.len() == other.len(),
        forall|i: int| 0 <= i < frames.len() ==> #[trigger] frames[i].enclosing == other[i].enclosing,
    ensures
        spec_ancestor(frames, frame, depth) == spec_ancestor(other, frame, depth),
    decreases depth,
{
    if 0 <= frame < frames.len() && depth > 0 {
        assert(frames[frame].enclosing == other[frame].enclosing);
        if let Some(e) = frames[frame].enclosing {
            lemma_ancestor_same_shape(frames, other, e as int, (depth - 1) as nat);
        }
    }
}

/// A value defined in a scope is read back, at depth zero, from that scope.
pub proof fn law_get_after_define<'a, N>(
    frames: Seq<FrameView<'a, N>>,
    environment: Environment,
    name: Seq<char>,
    v: ValueView<'a, N>,
)
    requires
        environment.frame < frames.len(),
    ensures
        ({
            let defined = spec_define(frames, environment.frame as int, name, v);
            &&& environment.target(defined, Some(0)) == Some(environment.frame as int)
            &&& binding_value(defined[environment.frame as int].values, name) == Some(v)
        }),
{
    let f = environment.frame as int;
    lemma_bind(frames[f].values, name, v, name);
}

/// After an assignment succeeds, reading the variable at the same depth gives
/// the assigned value.
pub proof fn law_get_after_assign<'a, N>(
    frames: Seq<FrameView<'a, N>>,
    environment: Environment,
    depth: Option<usize>,
    name: Seq<char>,
    v: ValueView<'a, N>,
)
    requires
        environment.target(frames, depth) matches Some(t) && has_binding(frames[t].values, name),
    ensures
        ({
            let t = environment.target(frames, depth)->0;
            let assigned = spec_define(frames, t, name, v);
            &&& environment.target(assigned, depth) == Some(t)
            &&& binding_value(assigned[t].values, name) == Some(v)
        }),
{
    let t = environment.target(frames, depth)->0;
    let assigned = spec_define(frames, t, name, v);
    lemma_target_in_bounds(frames, environment, depth);
    assert forall|i: int| 0 <= i < frames.len() implies #[trigger] frames[i].enclosing
        == assigned[i].enclosing by {}
    match depth {
        None => lemma_ancestor_same_shape(frames, assigned, environment.global as int, 0),
        Some(d) => lemma_ancestor_same_shape(frames, assigned, environment.frame as int, d as nat),
    }
    lemma_bind(frames[t].values, name, v, name);
}

pub proof fn lemma_ancestor_in_bounds<'a, N>(frames: Seq<FrameView<'a, N>>, frame: int, depth: nat)
    ensures
        spec_ancestor(frames, frame, depth) matches Some(t) ==> 0 <= t < frames.len(),
    decreases depth,
{
    if 0 <= frame < frames.len() && depth > 0 {
        if let Some(e) = frames[frame].enclosing {
            lemma_ancestor_in_bounds(frames, e as int, (depth - 1) as nat);
        }
    }
}

pub proof fn lemma_target_in_bounds<'a, N>(
    frames: Seq<FrameView<'a, N>>,
    environment: Environment,
    depth: Option<usize>,
)
    ensures
        environment.target(frames, depth) matches Some(t) ==> 0 <= t < frames.len(),
{
    match depth {
        None => lemma_ancestor_in_bounds(frames, environment.global as int, 0),
        Some(d) => lemma_ancestor_in_bounds(frames, environment.frame as int, d as nat),
    }
}


/// Whether every frame encloses only frames that exist.
pub open spec fn frames_closed<'a, N>(frames: Seq<FrameView<'a, N>>) -> bool {
    forall|i: int|
        0 <= i < frames.len() ==> (#[trigger] frames[i].enclosing matches Some(e) ==> e < frames.len())
}

/// Adding a frame does not change which frames the existing ones enclose.
proof fn lemma_ancestor_push<'a, N>(frames: Seq<FrameView<'a, N>>, x: FrameView<'a, N>, g: int, d: nat)
    requires
        frames_closed(frames),
        0 <= g < frames.len(),
    ensures
        spec_ancestor(frames.push(x), g, d) == spec_ancestor(frames, g, d),
    decreases d,
{
    assert(frames.push(x)[g] == frames[g]);
    if d > 0 {
        if let Some(e) = frames[g].enclosing {
            lemma_ancestor_push(frames, x, e as int, (d - 1) as nat);
        }
    }
}

/// A frame nested in frame `f` sees, one level further out, what `f` sees.
pub proof fn law_nested_frame_encloses<'a, N>(frames: Seq<FrameView<'a, N>>, f: usize, d: nat)
    requires
        frames_closed(frames),
        f < frames.len(),
    ensures
        spec_ancestor(
            frames.push(FrameView { enclosing: Some(f), values: Seq::empty() }),
            frames.len() as int,
            d + 1,
        ) == spec_ancestor(frames, f as int, d),
{
    let x = FrameView { enclosing: Some(f), values: Seq::empty() };
    lemma_ancestor_push(frames, x, f as int, d);
}

} // verus!
