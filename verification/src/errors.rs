//! Failures while a script runs.
use vstd::prelude::*;
use crate::src_loc::{SrcLoc, SrcLocV};
use crate::value::{Value, ValueV};

verus! {

/// Why a call did not come back with a value.
#[derive(Debug)]
pub enum RunError {
    /// A broken invariant of the interpreter itself: a stack too short, an
    /// address out of range. Ends the call; no script can catch it.
    Panic(Option<SrcLoc>, String),
    /// A value thrown at a place in a script.
    ScriptException(SrcLoc, Value),
    /// A value thrown by a host function, which does not know the place it
    /// was called from. The caller turns it into a `ScriptException`.
    NativeException(Value),
}

/// The mathematical value of a [`RunError`].
pub enum RunErrorV {
    Panic(Option<SrcLocV>, Seq<char>),
    ScriptException(SrcLocV, ValueV),
    NativeException(ValueV),
}

impl View for RunError {
    type V = RunErrorV;

    open spec fn view(&self) -> RunErrorV {
        match *self {
            RunError::Panic(loc, msg) => RunErrorV::Panic(
                match loc {
                    Some(l) => Some(l@),
                    None => None,
                },
                msg@,
            ),
            RunError::ScriptException(loc, v) => RunErrorV::ScriptException(loc@, v@),
            RunError::NativeException(v) => RunErrorV::NativeException(v@),
        }
    }
}

impl RunErrorV {
    /// A `NativeException` becomes a `ScriptException` at `loc`; any other
    /// error stays what it is.
    pub open spec fn native_to_script(self, loc: SrcLocV) -> RunErrorV {
        match self {
            RunErrorV::NativeException(v) => RunErrorV::ScriptException(loc, v),
            x => x,
        }
    }

    /// A script exception at `loc` whose value is the string `msg`.
    pub open spec fn script(loc: SrcLocV, msg: Seq<char>) -> RunErrorV {
        RunErrorV::ScriptException(loc, ValueV::String(msg))
    }

    /// A panic without a place.
    pub open spec fn panic(msg: Seq<char>) -> RunErrorV {
        RunErrorV::Panic(None, msg)
    }
}

impl RunError {
    /// A `ScriptException` at `loc` that throws the string `msg`.
    pub fn new_script(loc: SrcLoc, msg: &str) -> (r: RunError)
        ensures
            r@ == RunErrorV::script(loc@, msg@),
    {
        RunError::ScriptException(loc, Value::String(String::from_str(msg)))
    }

    /// A `NativeException` that throws the string `msg`.
    pub fn new_native_str(msg: &str) -> (r: RunError)
        ensures
            r@ == RunErrorV::NativeException(ValueV::String(msg@)),
    {
        RunError::NativeException(Value::String(String::from_str(msg)))
    }

    /// A `NativeException` that throws `val`.
    pub fn new_native_val(val: Value) -> (r: RunError)
        ensures
            r == RunError::NativeException(val),
    {
        RunError::NativeException(val)
    }

    /// A `Panic` with the message `msg`.
    pub fn new_panic(loc: Option<SrcLoc>, msg: &str) -> (r: RunError)
        ensures
            r matches RunError::Panic(l, m) && l == loc && m@ == msg@,
    {
        RunError::Panic(loc, String::from_str(msg))
    }

    /// A `NativeException` becomes a `ScriptException` at `loc`; any other
    /// error comes back as it is.
    pub fn native_to_script(self, loc: &SrcLoc) -> (r: RunError)
        ensures
            r@ == self@.native_to_script(loc@),
            !(self is NativeException) ==> r == self,
            self matches RunError::NativeException(v) ==> r == RunError::ScriptException(*loc, v),
    {
        match self {
            RunError::NativeException(v) => RunError::ScriptException(loc.clone(), v),
            x => x,
        }
    }
}

} // verus!

verus! {

/// A result with its error taken by its view.
pub open spec fn res_view<T>(r: Result<T, RunError>) -> Result<T, RunErrorV> {
    match r {
        Ok(v) => Ok(v),
        Err(e) => Err(e@),
    }
}

} // verus!
