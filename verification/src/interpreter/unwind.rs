use super::lox_type::{LoxType, Number, ValueView};
use vstd::prelude::*;

verus! {

/// Why evaluation stopped early: a `return` carrying its value, or a
/// run-time error carrying its message.
pub enum Unwind<'a, N> {
    WithResult(LoxType<'a, N>),
    WithError(String),
}

pub enum UnwindView<'a, N> {
    WithResult(ValueView<'a, N>),
    WithError(Seq<char>),
}

impl<'a, N: Number> Unwind<'a, N> {
    pub open spec fn view(&self) -> UnwindView<'a, N> {
        match self {
            Unwind::WithResult(v) => UnwindView::WithResult(v.view()),
            Unwind::WithError(m) => UnwindView::WithError(m@),
        }
    }
}

/// The outcome of an evaluation, with values and messages as views.
pub open spec fn outcome<'a, N: Number>(r: Result<LoxType<'a, N>, Unwind<'a, N>>) -> Result<
    ValueView<'a, N>,
    UnwindView<'a, N>,
> {
    match r {
        Ok(v) => Ok(v.view()),
        Err(u) => Err(u.view()),
    }
}

} // verus!
