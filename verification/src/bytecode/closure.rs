//! Closures of the bytecode backend.
use vstd::prelude::*;
use crate::bytecode::Addr;

verus! {

/// Compiled code at `addr` that takes `num_params` arguments, together
/// with the frame that its free variables are found from.
///
/// `id` is the identity of the closure: two closures are the same closure
/// exactly when their identities agree.
#[derive(Clone, Copy, Debug)]
pub struct Closure {
    pub addr: Addr,
    pub num_params: usize,
    pub env: usize,
    pub id: u64,
}

impl Closure {
    pub fn new(addr: Addr, num_params: usize, env: usize, id: u64) -> (r: Closure)
        ensures
            r == (Closure { addr, num_params, env, id }),
    {
        Closure { addr, num_params, env, id }
    }
}

} // verus!
