//! The resolved tree and the evaluator that walks it.
//!
//! In a resolved tree every identifier has become an address: a slot and
//! the number of parent links to follow from the current frame.
pub mod expressions;
pub mod statements;
pub mod closure;
pub mod semantics;
pub mod scoping;
pub mod budget;

pub use self::closure::Closure;
pub use self::expressions::{
    BinaryOp, ElemAssign, Element, Expression, FuncCall, FuncDef, MapLiteral, PrefixOp, VarAssign,
    VecLiteral,
};
pub use self::statements::{Block, Completion, IfStatement, ReturnStatement, Statement, WhileStatement};

use vstd::prelude::*;
use crate::errors::{RunError, res_view};
use crate::exec::semantics::call_value;
use crate::native::NativeHost;
use crate::runtime::Runtime;
use crate::src_loc::SrcLoc;
use crate::value::Value;

verus! {

/// Calls the value `func` with `args`, for a call that stands at `loc` in
/// code that runs in `frame`.
pub fn run_function<H: NativeHost>(
    func: &Value,
    args: &[Value],
    rt: &mut Runtime,
    frame: usize,
    depth: u64,
    loc: &SrcLoc,
    host: &H,
) -> (r: Result<Value, RunError>)
    ensures
        (final(rt)@, res_view(r)) == call_value(
            *host,
            *func,
            args@,
            old(rt)@,
            frame,
            depth as nat,
            loc@,
        ),
    decreases 3 * depth + 1, *func, 0nat,
{
    match func {
        Value::ASTClosure(c) => c.apply(args, loc, rt, depth, host),
        Value::BCClosure(_) => Err(
            RunError::new_script(loc.clone(), "running Bytecode from AST is not implemented!"),
        ),
        Value::NativeFunc(f) => f.call(args, rt, frame, loc, host),
        _ => Err(RunError::new_script(loc.clone(), "trying to call non-function value")),
    }
}

} // verus!
