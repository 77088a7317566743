//! The state that a running script reads and changes.
use vstd::prelude::*;
use crate::env::{Env, FrameV};
use crate::heap::{Heap, HeapV};
use crate::value::Value;

verus! {

/// The frames and the shared objects of a running script.
pub struct Runtime {
    pub env: Env,
    pub heap: Heap,
}

/// The mathematical value of a [`Runtime`].
pub struct RuntimeV {
    pub env: Seq<FrameV>,
    pub heap: HeapV,
}

impl View for Runtime {
    type V = RuntimeV;

    open spec fn view(&self) -> RuntimeV {
        RuntimeV { env: self.env@, heap: self.heap@ }
    }
}

impl RuntimeV {
    /// The state with one more frame, and the handle of that frame.
    pub open spec fn push_frame(self, parent: usize, vals: Seq<Value>) -> (RuntimeV, usize) {
        (
            RuntimeV { env: self.env.push(FrameV { parent: Some(parent), vals }), ..self },
            self.env.len() as usize,
        )
    }
}

impl Runtime {
    /// A state with an empty global frame and no objects.
    pub fn new() -> (r: Runtime)
        ensures
            r@.env == seq![FrameV { parent: None, vals: Seq::<Value>::empty() }],
            r@.heap == (HeapV { vecs: Seq::empty(), maps: Seq::empty(), next_id: 0 }),
    {
        Runtime { env: Env::new_global(), heap: Heap::new() }
    }
}

} // verus!
