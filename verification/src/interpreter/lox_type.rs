use super::class::{Class, ClassData, ClassView, spec_find_method};
use super::environment::{Frame, FrameView, bindings_view, spec_bind};
use super::function::Function;
use super::instance::{Instance, InstanceData, bound_frames, bound_value, spec_property, undefined_property};
use super::native_functions::Clock;
use super::unwind::{outcome, Unwind, UnwindView};
use crate::text::push_char;
use crate::token::str_equal;
use vstd::prelude::*;

verus! {

/// The numbers of the language.  The library carries numbers through and
/// leaves their arithmetic, comparison and display to the implementation.
pub trait Number: Copy {
    /// The number that a number literal (digits, maybe with a fraction) spells.
    fn from_literal(text: &str) -> Self;

    fn plus(self, other: Self) -> Self;

    fn minus(self, other: Self) -> Self;

    fn times(self, other: Self) -> Self;

    fn divided_by(self, other: Self) -> Self;

    /// The number multiplied by minus one.
    fn negated(self) -> Self;

    fn less(self, other: Self) -> bool;

    fn less_equal(self, other: Self) -> bool;

    fn greater(self, other: Self) -> bool;

    fn greater_equal(self, other: Self) -> bool;

    fn equals(self, other: Self) -> bool;

    /// How the number is shown.
    fn to_text(self) -> String;

    /// The seconds since the Unix epoch.
    fn now() -> Self;
}

/// A function provided by the host rather than written in Lox.
pub trait NativeCallable<'a, N: Number> {
    fn call(&self, arguments: Vec<LoxType<'a, N>>) -> Result<LoxType<'a, N>, Unwind<'a, N>>;

    /// How many arguments the function takes.
    spec fn spec_arity(&self) -> usize;

    fn arity(&self) -> (n: usize)
        ensures
            n == self.spec_arity(),
    ;
}

/// A run-time value.  Classes, functions and instances refer to the heap.
pub enum LoxType<'a, N> {
    Boolean(bool),
    Class { class: Class<'a> },
    Function { function: Function<'a> },
    Instance { instance: Instance<'a> },
    Number(N),
    NativeFunction { name: String, callable: Clock },
    Nil,
    String(String),
}

/// A value with its strings as character sequences.
pub enum ValueView<'a, N> {
    Boolean(bool),
    Class(Class<'a>),
    Function(Function<'a>),
    Instance(Instance<'a>),
    Number(N),
    NativeFunction(Seq<char>),
    Nil,
    String(Seq<char>),
}

impl<'a, N: Number> LoxType<'a, N> {
    pub open spec fn view(&self) -> ValueView<'a, N> {
        match self {
            LoxType::Boolean(b) => ValueView::Boolean(*b),
            LoxType::Class { class } => ValueView::Class(*class),
            LoxType::Function { function } => ValueView::Function(*function),
            LoxType::Instance { instance } => ValueView::Instance(*instance),
            LoxType::Number(n) => ValueView::Number(*n),
            LoxType::NativeFunction { name, .. } => ValueView::NativeFunction(name@),
            LoxType::Nil => ValueView::Nil,
            LoxType::String(s) => ValueView::String(s@),
        }
    }

    pub fn clone_value(&self) -> (r: Self)
        ensures
            r.view() == self.view(),
    {
        match self {
            LoxType::Boolean(b) => LoxType::Boolean(*b),
            LoxType::Class { class } => LoxType::Class { class: *class },
            LoxType::Function { function } => LoxType::Function { function: *function },
            LoxType::Instance { instance } => LoxType::Instance { instance: *instance },
            LoxType::Number(n) => LoxType::Number(*n),
            LoxType::NativeFunction { name, .. } => LoxType::NativeFunction {
                name: name.clone(),
                callable: Clock,
            },
            LoxType::Nil => LoxType::Nil,
            LoxType::String(s) => LoxType::String(s.clone()),
        }
    }
}

/// Whether a value counts as true: everything but `nil` and `false`.
pub open spec fn spec_is_truthy<'a, N>(v: ValueView<'a, N>) -> bool {
    match v {
        ValueView::Nil => false,
        ValueView::Boolean(b) => b,
        _ => true,
    }
}

/// Whether two values are equal under `==`: booleans, strings and `nil` by
/// value; classes by name; functions by their name token; instances by identity;
/// native functions by name.  Numbers compare as the number type does.
pub open spec fn spec_values_equal<'a, N>(l: ValueView<'a, N>, r: ValueView<'a, N>) -> bool {
    match (l, r) {
        (ValueView::Boolean(a), ValueView::Boolean(b)) => a == b,
        (ValueView::Class(a), ValueView::Class(b)) => a.name.lexeme@ == b.name.lexeme@,
        (ValueView::Function(a), ValueView::Function(b)) => {
            let ta = a.declaration.name;
            let tb = b.declaration.name;
            &&& ta.token_type == tb.token_type
            &&& ta.lexeme@ == tb.lexeme@
            &&& ta.start == tb.start
            &&& ta.end == tb.end
        },
        (ValueView::Instance(a), ValueView::Instance(b)) => a.id == b.id,
        (ValueView::NativeFunction(a), ValueView::NativeFunction(b)) => a == b,
        (ValueView::Nil, ValueView::Nil) => true,
        (ValueView::String(a), ValueView::String(b)) => a == b,
        _ => false,
    }
}

/// Whether the interpreter's `==` holds: only booleans, strings, `nil` and
/// numbers are ever equal.
pub open spec fn spec_is_equal<'a, N>(l: ValueView<'a, N>, r: ValueView<'a, N>) -> bool {
    match (l, r) {
        (ValueView::Boolean(a), ValueView::Boolean(b)) => a == b,
        (ValueView::String(a), ValueView::String(b)) => a == b,
        (ValueView::Nil, ValueView::Nil) => true,
        _ => false,
    }
}

/// How a value is printed.  A number is shown as the number type shows it.
pub open spec fn spec_display<'a, N>(v: ValueView<'a, N>) -> Seq<char> {
    match v {
        ValueView::Boolean(b) => if b {
            "true"@
        } else {
            "false"@
        },
        ValueView::Class(c) => "\"class "@ + c.name.lexeme@ + "\""@,
        ValueView::Function(f) => "\"fun "@ + f.declaration.name.lexeme@ + "\""@,
        ValueView::Instance(i) => "\"instance of "@ + i.class.name.lexeme@ + "\""@,
        ValueView::NativeFunction(name) => "\"native fun "@ + name + "\""@,
        ValueView::Nil => "nil"@,
        ValueView::String(s) => "\""@ + s + "\""@,
        ValueView::Number(_) => Seq::empty(),
    }
}

pub fn is_truthy<'a, N: Number>(value: &LoxType<'a, N>) -> (r: bool)
    ensures
        r == spec_is_truthy(value.view()),
{
    match value {
        LoxType::Nil => false,
        LoxType::Boolean(b) => *b,
        _ => true,
    }
}

pub fn is_equal<'a, N: Number>(left: &LoxType<'a, N>, right: &LoxType<'a, N>) -> (r: bool)
    ensures
        !(left is Number && right is Number) ==> r == spec_is_equal(left.view(), right.view()),
        *left matches LoxType::Number(a) ==> (*right matches LoxType::Number(b) ==> call_ensures(
            N::equals,
            (a, b),
            r,
        )),
{
    match (left, right) {
        (LoxType::Boolean(a), LoxType::Boolean(b)) => *a == *b,
        (LoxType::String(a), LoxType::String(b)) => str_equal(a.as_str(), b.as_str()),
        (LoxType::Nil, LoxType::Nil) => true,
        (LoxType::Number(a), LoxType::Number(b)) => a.equals(*b),
        _ => false,
    }
}

impl<'a, N: Number> LoxType<'a, N> {
    /// Whether two values are the same value.
    pub fn equals(&self, other: &Self) -> (r: bool)
        ensures
            !(self is Number && other is Number) ==> r == spec_values_equal(self.view(), other.view()),
    {
        match (self, other) {
            (LoxType::Boolean(a), LoxType::Boolean(b)) => *a == *b,
            (LoxType::Class { class: a }, LoxType::Class { class: b }) => str_equal(a.name(), b.name()),
            (LoxType::Function { function: a }, LoxType::Function { function: b }) => {
                let ta = &a.declaration.name;
                let tb = &b.declaration.name;
                ta.token_type == tb.token_type && str_equal(ta.lexeme.as_str(), tb.lexeme.as_str())
                    && ta.start == tb.start && ta.end == tb.end
            },
            (LoxType::Instance { instance: a }, LoxType::Instance { instance: b }) => a.id == b.id,
            (LoxType::NativeFunction { name: a, .. }, LoxType::NativeFunction { name: b, .. }) => {
                str_equal(a.as_str(), b.as_str())
            },
            (LoxType::Nil, LoxType::Nil) => true,
            (LoxType::Number(a), LoxType::Number(b)) => a.equals(*b),
            (LoxType::String(a), LoxType::String(b)) => str_equal(a.as_str(), b.as_str()),
            _ => false,
        }
    }

    /// How the value is printed.
    pub fn to_display_string(&self) -> (s: String)
        ensures
            !(self is Number) ==> s@ == spec_display(self.view()),
            *self matches LoxType::Number(n) ==> call_ensures(N::to_text, (n,), s),
    {
        match self {
            LoxType::Boolean(b) => if *b {
                String::from_str("true")
            } else {
                String::from_str("false")
            },
            LoxType::Class { class } => {
                let mut s = String::from_str("\"class ");
                s.append(class.name());
                s.append("\"");
                s
            },
            LoxType::Function { function } => {
                let mut s = String::from_str("\"fun ");
                s.append(function.name());
                s.append("\"");
                s
            },
            LoxType::Instance { instance } => {
                let mut s = String::from_str("\"instance of ");
                s.append(instance.class_name());
                s.append("\"");
                s
            },
            LoxType::NativeFunction { name, .. } => {
                let mut s = String::from_str("\"native fun ");
                s.append(name.as_str());
                s.append("\"");
                s
            },
            LoxType::Nil => String::from_str("nil"),
            LoxType::Number(n) => n.to_text(),
            LoxType::String(t) => {
                let mut s = String::from_str("\"");
                s.append(t.as_str());
                s.append("\"");
                s
            },
        }
    }

    /// The method `name` of an instance, bound to it; nothing for any other value.
    pub fn find_instance_method(heap: &mut Heap<'a, N>, instance: &LoxType<'a, N>, name: &str) -> (r:
        Option<LoxType<'a, N>>)
        ensures
            match instance {
                LoxType::Instance { instance } => match spec_find_method(
                    old(heap).classes_view(),
                    instance.class.id as int,
                    name@,
                    old(heap).classes.len() as nat,
                ) {
                    Some(v) => {
                        &&& r matches Some(b) && b.view() == bound_value(
                            old(heap).frames.len() as nat,
                            v,
                        )
                        &&& final(heap).frames_view() == bound_frames(
                            old(heap).frames_view(),
                            v,
                            *instance,
                        )
                    },
                    None => r is None && final(heap).frames_view() == old(heap).frames_view(),
                },
                _ => r is None && final(heap).frames_view() == old(heap).frames_view(),
            },
            final(heap).classes_view() == old(heap).classes_view(),
            final(heap).instances_view() == old(heap).instances_view(),
    {
        match instance {
            LoxType::Instance { instance } => instance.find_method(heap, name),
            _ => None,
        }
    }

    /// Property `name` of an instance; an error for any other value.
    pub fn get_instance_value(heap: &mut Heap<'a, N>, instance: &LoxType<'a, N>, name: &str) -> (r:
        Result<LoxType<'a, N>, Unwind<'a, N>>)
        ensures
            match instance {
                LoxType::Instance { instance } => match spec_property(
                    old(heap).instances_view(),
                    old(heap).classes_view(),
                    *instance,
                    name@,
                ) {
                    Some(v) => {
                        &&& outcome(r) == Ok::<ValueView<'a, N>, UnwindView<'a, N>>(
                            bound_value(old(heap).frames.len() as nat, v),
                        )
                        &&& final(heap).frames_view() == bound_frames(
                            old(heap).frames_view(),
                            v,
                            *instance,
                        )
                    },
                    None => {
                        &&& outcome(r) == Err::<ValueView<'a, N>, UnwindView<'a, N>>(
                            UnwindView::WithError(undefined_property(name@)),
                        )
                        &&& final(heap).frames_view() == old(heap).frames_view()
                    },
                },
                _ => {
                    &&& outcome(r) == Err::<ValueView<'a, N>, UnwindView<'a, N>>(
                        UnwindView::WithError("Only instances have fields"@),
                    )
                    &&& final(heap).frames_view() == old(heap).frames_view()
                },
            },
            final(heap).classes_view() == old(heap).classes_view(),
            final(heap).instances_view() == old(heap).instances_view(),
    {
        match instance {
            LoxType::Instance { instance } => instance.get(heap, name),
            _ => Err(Unwind::WithError(String::from_str("Only instances have fields"))),
        }
    }

    /// Sets field `name` of an instance; an error for any other value.
    pub fn set_instance_value(
        heap: &mut Heap<'a, N>,
        instance: &LoxType<'a, N>,
        name: &str,
        value: LoxType<'a, N>,
    ) -> (r: Result<(), Unwind<'a, N>>)
        ensures
            match instance {
                LoxType::Instance { instance } => {
                    &&& r is Ok
                    &&& final(heap).instances_view() == (if instance.id < old(heap).instances.len() {
                        old(heap).instances_view().update(
                            instance.id as int,
                            spec_bind(old(heap).instances_view()[instance.id as int], name@, value.view()),
                        )
                    } else {
                        old(heap).instances_view()
                    })
                },
                _ => {
                    &&& r matches Err(Unwind::WithError(m)) && m@ == "Only instances have fields"@
                    &&& final(heap).instances_view() == old(heap).instances_view()
                },
            },
            final(heap).frames_view() == old(heap).frames_view(),
            final(heap).classes_view() == old(heap).classes_view(),
    {
        match instance {
            LoxType::Instance { instance } => {
                instance.set(heap, name, value);
                Ok(())
            },
            _ => Err(Unwind::WithError(String::from_str("Only instances have fields"))),
        }
    }
}

/// Everything the running program has made: the frames of variables, the
/// classes and the instances.  Values refer to these by index.
pub struct Heap<'a, N> {
    pub frames: Vec<Frame<'a, N>>,
    pub classes: Vec<ClassData<'a, N>>,
    pub instances: Vec<InstanceData<'a, N>>,
}

impl<'a, N: Number> Heap<'a, N> {
    pub open spec fn frames_view(&self) -> Seq<FrameView<'a, N>> {
        self.frames@.map_values(|f: Frame<'a, N>| f.view())
    }

    pub open spec fn classes_view(&self) -> Seq<ClassView<'a, N>> {
        self.classes@.map_values(|c: ClassData<'a, N>| c.view())
    }

    pub open spec fn instances_view(&self) -> Seq<Seq<(Seq<char>, ValueView<'a, N>)>> {
        self.instances@.map_values(|i: InstanceData<'a, N>| bindings_view(i.fields@))
    }

    /// An empty heap.
    pub fn new() -> (h: Self)
        ensures
            h.frames_view() == Seq::<FrameView<'a, N>>::empty(),
            h.classes_view() == Seq::<ClassView<'a, N>>::empty(),
            h.instances_view() == Seq::<Seq<(Seq<char>, ValueView<'a, N>)>>::empty(),
    {
        let h = Heap { frames: Vec::new(), classes: Vec::new(), instances: Vec::new() };
        proof {
            assert(h.frames_view() =~= Seq::<FrameView<'a, N>>::empty());
            assert(h.classes_view() =~= Seq::<ClassView<'a, N>>::empty());
            assert(h.instances_view() =~= Seq::<Seq<(Seq<char>, ValueView<'a, N>)>>::empty());
        }
        h
    }
}

/// The decimal digits of `n`.
pub open spec fn decimal(n: nat) -> Seq<char>
    decreases n,
{
    if n < 10 {
        seq![digit_char(n)]
    } else {
        decimal(n / 10) + seq![digit_char(n % 10)]
    }
}

pub open spec fn digit_char(d: nat) -> char {
    if d == 0 {
        '0'
    } else if d == 1 {
        '1'
    } else if d == 2 {
        '2'
    } else if d == 3 {
        '3'
    } else if d == 4 {
        '4'
    } else if d == 5 {
        '5'
    } else if d == 6 {
        '6'
    } else if d == 7 {
        '7'
    } else if d == 8 {
        '8'
    } else {
        '9'
    }
}

fn digit(d: usize) -> (c: char)
    requires
        d < 10,
    ensures
        c == digit_char(d as nat),
{
    if d == 0 {
        '0'
    } else if d == 1 {
        '1'
    } else if d == 2 {
        '2'
    } else if d == 3 {
        '3'
    } else if d == 4 {
        '4'
    } else if d == 5 {
        '5'
    } else if d == 6 {
        '6'
    } else if d == 7 {
        '7'
    } else if d == 8 {
        '8'
    } else {
        '9'
    }
}

/// Appends the decimal digits of `n` to `s`.
pub fn push_decimal(s: &mut String, n: usize)
    ensures
        final(s)@ == old(s)@ + decimal(n as nat),
    decreases n,
{
    if n < 10 {
        push_char(s, digit(n));
        assert(decimal(n as nat) == seq![digit_char(n as nat)]);
    } else {
        push_decimal(s, n / 10);
        push_char(s, digit(n % 10));
        assert(final(s)@ =~= old(s)@ + decimal(n as nat));
    }
}


/// Equality of values other than numbers does not depend on the order of the two.
pub proof fn law_values_equal_symmetric<'a, N>(a: ValueView<'a, N>, b: ValueView<'a, N>)
    ensures
        spec_values_equal(a, b) == spec_values_equal(b, a),
        spec_is_equal(a, b) == spec_is_equal(b, a),
{
}

} // verus!
