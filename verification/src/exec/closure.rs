//! Closures of the tree-walking evaluator.
use std::rc::Rc;
use vstd::prelude::*;
use crate::errors::{RunError, RunErrorV, res_view};
use crate::exec::expressions::FuncDef;
use crate::exec::semantics::{apply, arity_text};
use crate::exec::statements::Completion;
use crate::native::NativeHost;
use crate::runtime::Runtime;
use crate::src_loc::SrcLoc;
use crate::text::push_decimal;
use crate::value::Value;

verus! {

/// A function together with the frame that was current where the function
/// literal was evaluated.
///
/// `id` is the identity of the closure: it is given once, when the closure
/// is made, and every copy keeps it. Two closures are the same closure
/// exactly when their identities agree.
#[derive(Debug)]
pub struct Closure {
    pub func: Rc<FuncDef>,
    pub env: usize,
    pub id: u64,
}

/// `Rc::clone` hands out another pointer to the same function; the function
/// is not copied and stays what it was.
#[verifier::external_body]
pub(crate) fn share_func(func: &Rc<FuncDef>) -> (r: Rc<FuncDef>)
    ensures
        r == *func,
{
    Rc::clone(func)
}

impl Clone for Closure {
    fn clone(&self) -> (r: Self)
        ensures
            r == *self,
    {
        Closure { func: share_func(&self.func), env: self.env, id: self.id }
    }
}

impl Closure {
    /// The closure of `func` over the frame `env`, with identity `id`.
    pub fn new(func: Rc<FuncDef>, env: usize, id: u64) -> (r: Closure)
        ensures
            r == (Closure { func, env, id }),
    {
        Closure { func, env, id }
    }
}

/// The exception for a call with `got` arguments of a function that takes
/// `expected`.
pub fn arity_error(loc: &SrcLoc, expected: usize, got: usize) -> (r: RunError)
    ensures
        r@ == RunErrorV::script(loc@, arity_text(expected, got as nat)),
{
    let mut msg = String::from_str("invalid number of arguments passed (expected ");
    push_decimal(&mut msg, expected as u64);
    msg.append(", got ");
    push_decimal(&mut msg, got as u64);
    msg.append(")");
    RunError::ScriptException(loc.clone(), Value::String(msg))
}

impl Closure {
    /// Calls the closure with `args`, for a call that stands at `loc`.
    pub fn apply<H: NativeHost>(
        &self,
        args: &[Value],
        loc: &SrcLoc,
        rt: &mut Runtime,
        depth: u64,
        host: &H,
    ) -> (r: Result<Value, RunError>)
        ensures
            (final(rt)@, res_view(r)) == apply(*host, *self, args@, old(rt)@, depth as nat, loc@),
            args@.len() != self.func.num_params ==> final(rt)@ == old(rt)@ && res_view(r) == Err::<
                Value,
                RunErrorV,
            >(RunErrorV::script(loc@, arity_text(self.func.num_params, args@.len()))),
        decreases 3 * depth, *self, 0nat,
    {
        if args.len() != self.func.num_params {
            return Err(arity_error(loc, self.func.num_params, args.len()));
        }
        if depth == 0 {
            return Err(RunError::new_panic(None, "evaluation budget exhausted"));
        }
        let frame = rt.env.new(self.env, args);
        match self.func.block.eval(rt, frame, depth - 1, host) {
            Err(e) => Err(e),
            Ok(Completion::Normal(v)) => Ok(v),
            Ok(Completion::Return(v)) => Ok(v),
            Ok(Completion::Break) => Err(RunError::new_panic(None, "'break' outside of a loop")),
        }
    }
}

} // verus!
