//! Environments: where variables live while a script runs.
//!
//! A frame holds the slots of one lexical scope and names its parent frame.
//! Frames are shared: a call and every closure made during it may hold the
//! same frame. So the frames live together in an `Env` and are known by
//! their handles. The frame with handle 0 is the global frame; it alone has
//! no parent and it alone can grow.
use vstd::prelude::*;
use crate::errors::{RunError, RunErrorV, res_view};
use crate::text::{decimal, push_decimal};
use crate::value::Value;

verus! {

/// The slots of one scope and the handle of the enclosing scope's frame.
pub struct Frame {
    pub parent: Option<usize>,
    pub vals: Vec<Value>,
}

/// The mathematical value of a [`Frame`].
pub struct FrameV {
    pub parent: Option<usize>,
    pub vals: Seq<Value>,
}

impl View for Frame {
    type V = FrameV;

    open spec fn view(&self) -> FrameV {
        FrameV { parent: self.parent, vals: self.vals@ }
    }
}

/// Execution environment: all frames, by handle.
pub struct Env {
    frames: Vec<Frame>,
}

impl View for Env {
    type V = Seq<FrameV>;

    closed spec fn view(&self) -> Seq<FrameV> {
        Seq::new(self.frames@.len(), |i: int| self.frames@[i]@)
    }
}

/// The handle of the global frame.
pub const GLOBAL: usize = 0;

/// Why an address names no slot.
pub enum AddrFault {
    /// The walk reached a handle that no frame has.
    Frame,
    /// The walk reached a frame without a parent with this many links
    /// still to follow.
    Root(usize),
    /// The frame that the walk ended in has no such slot.
    Slot,
}

/// The frame that holds the slot at address `(val_index, env_index)` seen
/// from `frame`: follow `env_index` parent links, then look for the slot.
pub open spec fn locate(env: Seq<FrameV>, frame: usize, val_index: usize, env_index: usize)
    -> Result<usize, AddrFault>
    decreases env_index,
{
    if frame >= env.len() {
        Err(AddrFault::Frame)
    } else if env_index == 0 {
        if val_index < env[frame as int].vals.len() {
            Ok(frame)
        } else {
            Err(AddrFault::Slot)
        }
    } else {
        match env[frame as int].parent {
            Some(p) => locate(env, p, val_index, (env_index - 1) as usize),
            None => Err(AddrFault::Root(env_index)),
        }
    }
}

/// An address that names a slot names a slot of a frame that exists.
pub proof fn lemma_locate_in_range(
    env: Seq<FrameV>,
    frame: usize,
    val_index: usize,
    env_index: usize,
)
    ensures
        locate(env, frame, val_index, env_index) matches Ok(f) ==> f < env.len() && val_index
            < env[f as int].vals.len(),
    decreases env_index,
{
    if frame < env.len() && env_index != 0 {
        match env[frame as int].parent {
            Some(p) => lemma_locate_in_range(env, p, val_index, (env_index - 1) as usize),
            None => {},
        }
    }
}

/// A value that was written to an address is read back from it.
pub proof fn lemma_get_after_set(
    env: Seq<FrameV>,
    frame: usize,
    val_index: usize,
    env_index: usize,
    val: Value,
)
    requires
        locate(env, frame, val_index, env_index) is Ok,
    ensures
        env_get(env_set(env, frame, val_index, env_index, val), frame, val_index, env_index) == Ok::<
            Value,
            RunErrorV,
        >(val),
{
    lemma_locate_in_range(env, frame, val_index, env_index);
    let after = env_set(env, frame, val_index, env_index, val);
    lemma_locate_after_set(env, after, frame, val_index, env_index);
}

/// Writing to a slot changes no parent link and no number of slots, so
/// every address names the frame that it named before.
pub proof fn lemma_locate_after_set(
    env: Seq<FrameV>,
    after: Seq<FrameV>,
    frame: usize,
    val_index: usize,
    env_index: usize,
)
    requires
        same_shape(env, after),
    ensures
        locate(after, frame, val_index, env_index) == locate(env, frame, val_index, env_index),
    decreases env_index,
{
    if frame < env.len() && env_index != 0 {
        match env[frame as int].parent {
            Some(p) => lemma_locate_after_set(env, after, p, val_index, (env_index - 1) as usize),
            None => {},
        }
    }
}

/// Whether two environments have the same frames with the same parents
/// and the same numbers of slots.
pub open spec fn same_shape(a: Seq<FrameV>, b: Seq<FrameV>) -> bool {
    &&& a.len() == b.len()
    &&& forall|i: int|
        0 <= i < a.len() ==> (#[trigger] a[i]).parent == b[i].parent && a[i].vals.len()
            == b[i].vals.len()
}

/// Writing to a variable changes neither the number of frames, nor the
/// parent of a frame, nor the number of slots of a frame.
pub proof fn lemma_set_keeps_shape(
    env: Seq<FrameV>,
    frame: usize,
    val_index: usize,
    env_index: usize,
    val: Value,
)
    ensures
        same_shape(env, env_set(env, frame, val_index, env_index, val)),
{
    lemma_locate_in_range(env, frame, val_index, env_index);
}

/// A new frame leaves every frame that there was as it was, and growing the
/// global frame changes the number of slots of no other frame.
pub proof fn lemma_frames_are_kept(env: Seq<FrameV>, parent: usize, vals: Seq<Value>)
    ensures
        forall|i: int|
            0 <= i < env.len() ==> (#[trigger] env.push(FrameV { parent: Some(parent), vals })[i])
                == env[i],
        forall|i: int|
            1 <= i < env.len() ==> (#[trigger] env_grow(env)[i]) == env[i],
        env.len() > 0 ==> env_grow(env)[0].vals.len() == env[0].vals.len() + 1,
{
}

/// The message of the panic that reports `fault` during the operation `op`.
pub open spec fn fault_text(op: Seq<char>, fault: AddrFault, val_index: usize) -> Seq<char> {
    match fault {
        AddrFault::Frame => op + " with invalid frame"@,
        AddrFault::Root(left) => op
            + " with with invalid env_index: reached root with env_index = "@ + decimal(
            left as nat,
        ),
        AddrFault::Slot => op + " with invalid val_index: "@ + decimal(val_index as nat),
    }
}

/// What reading the address `(val_index, env_index)` from `frame` gives.
pub open spec fn env_get(env: Seq<FrameV>, frame: usize, val_index: usize, env_index: usize)
    -> Result<Value, RunErrorV> {
    match locate(env, frame, val_index, env_index) {
        Ok(f) => Ok(env[f as int].vals[val_index as int]),
        Err(fault) => Err(
            RunErrorV::panic(fault_text("Env::get_value()"@, fault, val_index)),
        ),
    }
}

/// The environment after `val` is written to the address
/// `(val_index, env_index)` seen from `frame`; unchanged where the address
/// names no slot.
pub open spec fn env_set(
    env: Seq<FrameV>,
    frame: usize,
    val_index: usize,
    env_index: usize,
    val: Value,
) -> Seq<FrameV> {
    match locate(env, frame, val_index, env_index) {
        Ok(f) => env.update(
            f as int,
            FrameV {
                parent: env[f as int].parent,
                vals: env[f as int].vals.update(val_index as int, val),
            },
        ),
        Err(_) => env,
    }
}

/// Whether writing to the address succeeds, and the panic where it does
/// not.
pub open spec fn env_set_result(
    env: Seq<FrameV>,
    frame: usize,
    val_index: usize,
    env_index: usize,
) -> Result<(), RunErrorV> {
    match locate(env, frame, val_index, env_index) {
        Ok(_) => Ok(()),
        Err(fault) => Err(
            RunErrorV::panic(fault_text("Env::set_value()"@, fault, val_index)),
        ),
    }
}

/// `vals` followed by as many nulls as it takes to reach `n_total` slots.
pub open spec fn padded(vals: Seq<Value>, n_total: nat) -> Seq<Value> {
    if vals.len() >= n_total {
        vals
    } else {
        vals + Seq::new((n_total - vals.len()) as nat, |i: int| Value::Null)
    }
}

/// The environment with one more null slot in its global frame.
pub open spec fn env_grow(env: Seq<FrameV>) -> Seq<FrameV> {
    if env.len() == 0 {
        env
    } else {
        env.update(0, FrameV { parent: env[0].parent, vals: env[0].vals.push(Value::Null) })
    }
}

/// The environment whose global frame has at least `n` slots: null slots
/// are added at its end as needed.
pub open spec fn grow_to(env: Seq<FrameV>, n: nat) -> Seq<FrameV> {
    if env.len() == 0 {
        env
    } else {
        env.update(0, FrameV { parent: env[0].parent, vals: padded(env[0].vals, n) })
    }
}

/// The environment after the global variable in `slot` was given the
/// value `val`: the global frame grows as far as it takes to have the
/// slot.
pub open spec fn define_global(env: Seq<FrameV>, slot: usize, val: Value) -> Seq<FrameV> {
    env_set(grow_to(env, (slot + 1) as nat), GLOBAL, slot, 0, val)
}

/// The number of slots of `frame`; 0 where there is no such frame.
pub open spec fn env_size(env: Seq<FrameV>, frame: usize) -> nat {
    if frame < env.len() {
        env[frame as int].vals.len()
    } else {
        0
    }
}

/// A copy of the values of a slice.
pub fn values_of(vals: &[Value]) -> (r: Vec<Value>)
    ensures
        r@ == vals@,
{
    let mut out: Vec<Value> = Vec::new();
    let mut i: usize = 0;
    while i < vals.len()
        invariant
            i <= vals.len(),
            out@ == vals@.subrange(0, i as int),
        decreases vals.len() - i,
    {
        out.push(vals[i].clone());
        assert(out@ =~= vals@.subrange(0, i + 1));
        i += 1;
    }
    assert(out@ =~= vals@);
    out
}

fn fault_error(op: &str, fault: AddrFault, val_index: usize) -> (r: RunError)
    ensures
        r@ == RunErrorV::panic(fault_text(op@, fault, val_index)),
{
    let mut msg = String::from_str(op);
    match fault {
        AddrFault::Frame => {
            msg.append(" with invalid frame");
        },
        AddrFault::Root(left) => {
            msg.append(" with with invalid env_index: reached root with env_index = ");
            push_decimal(&mut msg, left as u64);
        },
        AddrFault::Slot => {
            msg.append(" with invalid val_index: ");
            push_decimal(&mut msg, val_index as u64);
        },
    }
    RunError::Panic(None, msg)
}

impl Env {
    /// An environment that holds the global frame, with no slots, and
    /// nothing else.
    pub fn new_global() -> (r: Env)
        ensures
            r@ == seq![FrameV { parent: None, vals: Seq::<Value>::empty() }],
    {
        let mut frames: Vec<Frame> = Vec::new();
        frames.push(Frame { parent: None, vals: Vec::new() });
        let r = Env { frames };
        assert(r@ =~= seq![FrameV { parent: None, vals: Seq::<Value>::empty() }]);
        r
    }

    /// Makes a frame under `parent` whose slots hold `vals`, and returns
    /// its handle.
    pub fn new(&mut self, parent: usize, vals: &[Value]) -> (r: usize)
        ensures
            r == old(self)@.len(),
            final(self)@ == old(self)@.push(FrameV { parent: Some(parent), vals: vals@ }),
    {
        let r = self.frames.len();
        self.frames.push(Frame { parent: Some(parent), vals: values_of(vals) });
        assert(self@ =~= old(self)@.push(FrameV { parent: Some(parent), vals: vals@ }));
        r
    }

    /// Makes a frame of `n_total` slots under `parent`: the first slots hold
    /// `vals`, the others null. With fewer than `vals.len()` slots asked
    /// for, the frame has a slot for each of `vals`.
    pub fn new_partial(&mut self, parent: usize, vals: &[Value], n_total: usize) -> (r: usize)
        ensures
            r == old(self)@.len(),
            final(self)@ == old(self)@.push(
                FrameV { parent: Some(parent), vals: padded(vals@, n_total as nat) },
            ),
    {
        let r = self.frames.len();
        let mut slots = values_of(vals);
        while slots.len() < n_total
            invariant
                vals@.len() <= slots@.len(),
                slots@.len() <= n_total || slots@ == vals@,
                slots@ == vals@ + Seq::new((slots@.len() - vals@.len()) as nat, |i: int| Value::Null),
            decreases n_total - slots.len(),
        {
            slots.push(Value::Null);
            assert(slots@ =~= vals@ + Seq::new(
                (slots@.len() - vals@.len()) as nat,
                |i: int| Value::Null,
            ));
        }
        assert(slots@ =~= padded(vals@, n_total as nat));
        self.frames.push(Frame { parent: Some(parent), vals: slots });
        assert(self@ =~= old(self)@.push(
            FrameV { parent: Some(parent), vals: padded(vals@, n_total as nat) },
        ));
        r
    }

    /// The number of frames.
    pub fn frame_count(&self) -> (r: usize)
        ensures
            r == self@.len(),
    {
        self.frames.len()
    }

    /// The number of slots of `frame`; 0 where there is no such frame.
    pub fn size(&self, frame: usize) -> (r: usize)
        ensures
            r == env_size(self@, frame),
    {
        if frame < self.frames.len() {
            self.frames[frame].vals.len()
        } else {
            0
        }
    }

    /// The handle of the parent of `frame`; `None` for the global frame and
    /// where there is no such frame.
    pub fn parent(&self, frame: usize) -> (r: Option<usize>)
        ensures
            r == if frame < self@.len() {
                self@[frame as int].parent
            } else {
                None
            },
    {
        if frame < self.frames.len() {
            self.frames[frame].parent
        } else {
            None
        }
    }

    /// Appends one null slot to the global frame.
    pub fn grow(&mut self)
        ensures
            final(self)@ == env_grow(old(self)@),
    {
        if self.frames.len() > 0 {
            self.frames[0].vals.push(Value::Null);
            assert(self@ =~= env_grow(old(self)@));
        }
    }

    fn find(&self, frame: usize, val_index: usize, env_index: usize) -> (r: Result<
        usize,
        AddrFault,
    >)
        ensures
            r == locate(self@, frame, val_index, env_index),
    {
        let mut f = frame;
        let mut left = env_index;
        loop
            invariant
                locate(self@, frame, val_index, env_index) == locate(self@, f, val_index, left),
            decreases left,
        {
            if f >= self.frames.len() {
                return Err(AddrFault::Frame);
            }
            if left == 0 {
                if val_index < self.frames[f].vals.len() {
                    return Ok(f);
                } else {
                    return Err(AddrFault::Slot);
                }
            }
            match self.frames[f].parent {
                Some(p) => {
                    f = p;
                    left = left - 1;
                },
                None => {
                    return Err(AddrFault::Root(left));
                },
            }
        }
    }

    /// Writes `val` to the slot `val_index` of the frame `env_index` parent
    /// links up from `frame`. Fails with a panic, and changes nothing, where
    /// there is no such slot.
    pub fn set_value(&mut self, frame: usize, val_index: usize, env_index: usize, val: Value) -> (r:
        Result<(), RunError>)
        ensures
            final(self)@ == env_set(old(self)@, frame, val_index, env_index, val),
            res_view(r) == env_set_result(old(self)@, frame, val_index, env_index),
    {
        match self.find(frame, val_index, env_index) {
            Ok(f) => {
                proof {
                    lemma_locate_in_range(self@, frame, val_index, env_index);
                }
                self.frames[f].vals[val_index] = val;
                assert(self@ =~= env_set(old(self)@, frame, val_index, env_index, val));
                Ok(())
            },
            Err(fault) => Err(fault_error("Env::set_value()", fault, val_index)),
        }
    }

    /// Reads the slot `val_index` of the frame `env_index` parent links up
    /// from `frame`. Fails with a panic where there is no such slot.
    pub fn get_value(&self, frame: usize, val_index: usize, env_index: usize) -> (r: Result<
        Value,
        RunError,
    >)
        ensures
            res_view(r) == env_get(self@, frame, val_index, env_index),
    {
        match self.find(frame, val_index, env_index) {
            Ok(f) => {
                proof {
                    lemma_locate_in_range(self@, frame, val_index, env_index);
                }
                Ok(self.frames[f].vals[val_index].clone())
            },
            Err(fault) => Err(fault_error("Env::get_value()", fault, val_index)),
        }
    }

    /// Gives the global variable in `slot` the value `val`. The global
    /// frame grows as far as it takes to have the slot.
    pub fn set_global(&mut self, slot: usize, val: Value)
        ensures
            final(self)@ == define_global(old(self)@, slot, val),
    {
        if self.frames.len() == 0 {
            return ;
        }
        while self.frames[0].vals.len() <= slot
            invariant
                self.frames@.len() > 0,
                self@.len() == old(self)@.len(),
                grow_to(self@, (slot + 1) as nat) == grow_to(old(self)@, (slot + 1) as nat),
            decreases slot + 1 - self.frames@[0].vals@.len(),
        {
            let ghost before = self@;
            self.grow();
            assert(grow_to(self@, (slot + 1) as nat) =~= grow_to(before, (slot + 1) as nat)) by {
                assert(padded(self@[0].vals, (slot + 1) as nat) =~= padded(
                    before[0].vals,
                    (slot + 1) as nat,
                ));
            }
        }
        assert(grow_to(self@, (slot + 1) as nat) =~= self@) by {
            assert(padded(self@[0].vals, (slot + 1) as nat) =~= self@[0].vals);
        }
        let _ = self.set_value(GLOBAL, slot, 0, val);
    }
}

} // verus!
