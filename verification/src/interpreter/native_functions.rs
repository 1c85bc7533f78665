use super::lox_type::{LoxType, NativeCallable, Number};
use super::unwind::Unwind;
use vstd::prelude::*;

verus! {

/// The native function `clock`: the seconds since the Unix epoch.
pub struct Clock;

impl<'a, N: Number> NativeCallable<'a, N> for Clock {
    /// Gives the current time as a number; which number depends on the clock.
    fn call(&self, arguments: Vec<LoxType<'a, N>>) -> (r: Result<LoxType<'a, N>, Unwind<'a, N>>)
        ensures
            r matches Ok(LoxType::Number(x)) && call_ensures(N::now, (), x),
    {
        Ok(LoxType::Number(N::now()))
    }

    /// `clock` takes no arguments.
    open spec fn spec_arity(&self) -> usize {
        0
    }

    fn arity(&self) -> (n: usize) {
        0
    }
}

/// The value bound to `clock` in the global environment.
pub fn clock<'a, N: Number>() -> (v: LoxType<'a, N>)
    ensures
        v matches LoxType::NativeFunction { name, .. } && name@ == "clock"@,
{
    LoxType::NativeFunction { name: String::from_str("clock"), callable: Clock }
}

} // verus!
