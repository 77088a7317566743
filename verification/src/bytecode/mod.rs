//! The bytecode backend: instruction encoding, the code generator and the
//! stack machine.
use vstd::prelude::*;

pub mod opcodes;
pub mod instr;
pub mod closure;
pub mod gen;
pub mod run;
pub mod listing;
pub mod agree;
pub mod flow;
pub mod control;
pub mod whole;

pub use self::closure::Closure;
pub use self::gen::Program;

use crate::errors::{RunError, res_view};
use crate::native::NativeHost;
use crate::runtime::Runtime;
use crate::src_loc::SrcLoc;
use crate::value::Value;
use self::run::{Run, RunV, vm_call};

verus! {

/// Calls the bytecode closure `c` with `args` on a new machine, which
/// runs the code of `program` for at most `steps` steps.
pub fn run_closure<H: NativeHost>(
    c: &Closure,
    args: &[Value],
    loc: &SrcLoc,
    program: &Program,
    rt: &mut Runtime,
    steps: u64,
    depth: u64,
    host: &H,
) -> (r: Result<Value, RunError>)
    ensures
        (final(rt)@, res_view(r)) == vm_call(
            *host,
            *c,
            args@,
            loc@,
            program@.instr,
            program@.literals,
            RunV {
                ip: 0,
                env: c.env,
                env_stack: Seq::empty(),
                val_stack: Seq::empty(),
                ret_stack: Seq::empty(),
                flag_true: false,
            },
            old(rt)@,
            steps as nat,
            depth as nat,
        ),
{
    let mut run = Run::new(c.env);
    run.call_func(
        c,
        args,
        loc,
        program.instr().as_slice(),
        program.literals().as_slice(),
        rt,
        steps,
        depth,
        host,
    )
}

/// An address in the instruction stream.
pub type Addr = u32;

/// The address that no instruction has: all 32 bits set. The machine stops
/// when its instruction pointer holds it.
pub const INVALID_ADDR: Addr = 0xffff_ffff;

} // verus!
