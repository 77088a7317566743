//! The stack machine that executes instructions.
//!
//! The machine holds an instruction pointer, the handle of the current
//! frame, a stack of values, a stack of frames to go back to, a stack of
//! addresses to return to, and one flag that `test` sets and the
//! conditional jumps read. One step decodes the instruction under the
//! instruction pointer and executes it. The machine has stopped when the
//! instruction pointer holds `INVALID_ADDR`.
use vstd::prelude::*;
use crate::bytecode::closure::Closure;
use crate::bytecode::instr::{
    d_op, d_op_12, d_op_12_12, d_op_26, opcode_of, operand_26, operand_hi, operand_lo,
};
use crate::bytecode::opcodes::{
    OP_ADD, OP_CALL, OP_DIV, OP_GETELEM, OP_GETVAR, OP_JF, OP_JMP, OP_JT, OP_MUL, OP_NEWENV,
    OP_POPENV, OP_POPVAL, OP_PUSHLIT, OP_RET, OP_SETELEM, OP_SETVAR, OP_SUB, OP_TEST,
};
use crate::bytecode::INVALID_ADDR;
use crate::env::{env_get, env_set, env_set_result, padded};
use crate::errors::{RunError, RunErrorV, res_view};
use crate::exec::semantics::{arity_text, call_value};
use crate::native::{
    FUNC_NUM_ADD, FUNC_NUM_DIV, FUNC_NUM_MUL, FUNC_NUM_SUB, NativeFunc, NativeHost, native_result,
};
use crate::runtime::{Runtime, RuntimeV};
use crate::src_loc::{SrcLoc, SrcLocV};
use crate::text::push_decimal;
use crate::value::{Value, element_of, store_element, store_result, truthy};

verus! {

/// The registers and stacks of the machine.
pub struct Run {
    pub ip: u32,
    pub env: usize,
    pub env_stack: Vec<usize>,
    pub val_stack: Vec<Value>,
    pub ret_stack: Vec<u32>,
    pub flag_true: bool,
}

/// The mathematical value of a [`Run`].
pub struct RunV {
    pub ip: u32,
    pub env: usize,
    pub env_stack: Seq<usize>,
    pub val_stack: Seq<Value>,
    pub ret_stack: Seq<u32>,
    pub flag_true: bool,
}

impl View for Run {
    type V = RunV;

    open spec fn view(&self) -> RunV {
        RunV {
            ip: self.ip,
            env: self.env,
            env_stack: self.env_stack@,
            val_stack: self.val_stack@,
            ret_stack: self.ret_stack@,
            flag_true: self.flag_true,
        }
    }
}

/// The outcome of a step: the state of the script, and the machine after
/// the step or the error that ended the run.
pub type StepOut = (RuntimeV, Result<RunV, RunErrorV>);

impl RunV {
    /// The machine with the instruction pointer on the next instruction.
    pub open spec fn next(self) -> RunV {
        RunV { ip: (self.ip + 1) as u32, ..self }
    }

    /// The machine with the instruction pointer at `addr`.
    pub open spec fn at(self, addr: u32) -> RunV {
        RunV { ip: addr, ..self }
    }

    /// The machine with `v` on top of the value stack.
    pub open spec fn push(self, v: Value) -> RunV {
        RunV { val_stack: self.val_stack.push(v), ..self }
    }

    /// The `n` values on top of the value stack, the topmost last.
    pub open spec fn top(self, n: nat) -> Seq<Value> {
        self.val_stack.subrange(self.val_stack.len() - n, self.val_stack.len() as int)
    }

    /// The machine without the `n` values on top of the value stack.
    pub open spec fn drop(self, n: nat) -> RunV {
        RunV { val_stack: self.val_stack.subrange(0, self.val_stack.len() - n), ..self }
    }

    /// The machine that has entered `frame`: the frame it was in is pushed
    /// on the frame stack.
    pub open spec fn enter(self, frame: usize) -> RunV {
        RunV { env: frame, env_stack: self.env_stack.push(self.env), ..self }
    }
}

/// The place that the machine gives to what goes wrong while it runs.
pub open spec fn bytecode_loc() -> SrcLocV {
    SrcLocV { filename: "(bytecode)"@, line_num: 0, col_num: 0 }
}

pub open spec fn fail(rt: RuntimeV, msg: Seq<char>) -> StepOut {
    (rt, Err(RunErrorV::panic(msg)))
}

/// `pushlit index`: pushes the literal.
pub open spec fn step_pushlit(literals: Seq<Value>, m: RunV, rt: RuntimeV, index: u32) -> StepOut {
    if index >= literals.len() {
        fail(rt, "pushlit with invalid literal index"@)
    } else {
        (rt, Ok(m.push(literals[index as int]).next()))
    }
}

/// `newenv n_args, n_total`: pops `n_args` values and enters a new frame of
/// `n_total` slots under the current one, whose first slots hold the
/// popped values.
pub open spec fn step_newenv(m: RunV, rt: RuntimeV, n_args: u16, n_total: u16) -> StepOut {
    if m.val_stack.len() < n_args {
        fail(rt, "newenv with not enough values in the val stack"@)
    } else {
        let (rt1, frame) = rt.push_frame(m.env, padded(m.top(n_args as nat), n_total as nat));
        (rt1, Ok(m.drop(n_args as nat).enter(frame).next()))
    }
}

/// `popenv n`: leaves `n` frames, the innermost first.
pub open spec fn step_popenv(m: RunV, rt: RuntimeV, n: u16) -> StepOut {
    if m.env_stack.len() < n {
        fail(rt, "popenv with empty stack"@)
    } else if n == 0 {
        (rt, Ok(m.next()))
    } else {
        (
            rt,
            Ok(
                RunV {
                    env: m.env_stack[m.env_stack.len() - n],
                    env_stack: m.env_stack.subrange(0, m.env_stack.len() - n),
                    ..m
                }.next(),
            ),
        )
    }
}

/// `popval n`: drops `n` values.
pub open spec fn step_popval(m: RunV, rt: RuntimeV, n: u16) -> StepOut {
    if m.val_stack.len() < n {
        fail(rt, "popval with empty stack"@)
    } else {
        (rt, Ok(m.drop(n as nat).next()))
    }
}

/// `getvar slot, depth`: pushes the variable.
pub open spec fn step_getvar(m: RunV, rt: RuntimeV, vi: u16, ei: u16) -> StepOut {
    match env_get(rt.env, m.env, vi as usize, ei as usize) {
        Ok(v) => (rt, Ok(m.push(v).next())),
        Err(e) => (rt, Err(e)),
    }
}

/// `setvar slot, depth`: writes the top of the stack to the variable and
/// leaves it on the stack.
pub open spec fn step_setvar(m: RunV, rt: RuntimeV, vi: u16, ei: u16) -> StepOut {
    if m.val_stack.len() < 1 {
        fail(rt, "setvar with empty val stack"@)
    } else {
        let val = m.val_stack.last();
        match env_set_result(rt.env, m.env, vi as usize, ei as usize) {
            Ok(_) => (
                RuntimeV { env: env_set(rt.env, m.env, vi as usize, ei as usize, val), ..rt },
                Ok(m.next()),
            ),
            Err(e) => (rt, Err(e)),
        }
    }
}

/// `getelem`: pops an index and a container and pushes the element.
pub open spec fn step_getelem(m: RunV, rt: RuntimeV) -> StepOut {
    if m.val_stack.len() < 2 {
        fail(rt, "getelem with not enough values in the val stack"@)
    } else {
        let index = m.val_stack[m.val_stack.len() - 1];
        let container = m.val_stack[m.val_stack.len() - 2];
        match element_of(container, rt.heap, index, bytecode_loc()) {
            Ok(v) => (rt, Ok(m.drop(2).push(v).next())),
            Err(e) => (rt, Err(e)),
        }
    }
}

/// `setelem`: pops a value, an index and a container, stores the value and
/// pushes it again.
pub open spec fn step_setelem(m: RunV, rt: RuntimeV) -> StepOut {
    if m.val_stack.len() < 3 {
        fail(rt, "setelem with not enough values in the val stack"@)
    } else {
        let val = m.val_stack[m.val_stack.len() - 1];
        let index = m.val_stack[m.val_stack.len() - 2];
        let container = m.val_stack[m.val_stack.len() - 3];
        match store_result(container, rt.heap, index, bytecode_loc()) {
            Ok(_) => (
                RuntimeV { heap: store_element(container, rt.heap, index, val), ..rt },
                Ok(m.drop(3).push(val).next()),
            ),
            Err(e) => (rt, Err(e)),
        }
    }
}

/// `call n_args`: the callee lies under its `n_args` arguments.
///
/// A bytecode closure must take exactly `n_args` parameters. The machine
/// enters a new frame that holds the arguments, under the frame of the
/// closure, notes the address after the call and goes on at the
/// closure's code. A host function and a closure of the evaluator are run
/// at once, and their result is pushed. Callee and arguments leave the
/// stack in each case.
pub open spec fn step_call<H: NativeHost>(
    host: H,
    m: RunV,
    rt: RuntimeV,
    depth: nat,
    n_args: u16,
) -> StepOut {
    if m.val_stack.len() < n_args + 1 {
        fail(rt, "call with not enough values in the val stack"@)
    } else {
        let func = m.val_stack[m.val_stack.len() - n_args - 1];
        let args = m.top(n_args as nat);
        let rest = m.drop((n_args + 1) as nat);
        match func {
            Value::BCClosure(c) => if c.num_params != n_args {
                fail(rt, arity_text(c.num_params, n_args as nat))
            } else {
                let (rt1, frame) = rt.push_frame(c.env, args);
                (
                    rt1,
                    Ok(
                        RunV {
                            ret_stack: m.ret_stack.push((m.ip + 1) as u32),
                            ..rest.enter(frame).at(c.addr)
                        },
                    ),
                )
            },
            Value::NativeFunc(f) => match native_result(
                host,
                f.index,
                args,
                rt,
                m.env,
                bytecode_loc(),
            ) {
                Ok(v) => (rt, Ok(rest.push(v).next())),
                Err(e) => (rt, Err(e)),
            },
            Value::ASTClosure(_) => {
                let (rt1, r) = call_value(host, func, args, rt, m.env, depth, bytecode_loc());
                match r {
                    Ok(v) => (rt1, Ok(rest.push(v).next())),
                    Err(e) => (rt1, Err(e)),
                }
            },
            _ => fail(rt, "call to invalid function"@),
        }
    }
}

/// `ret`: goes back to the frame and to the address on top of their
/// stacks.
pub open spec fn step_ret(m: RunV, rt: RuntimeV) -> StepOut {
    if m.env_stack.len() < 1 {
        fail(rt, "ret with empty env stack"@)
    } else if m.ret_stack.len() < 1 {
        fail(rt, "ret with empty ret stack"@)
    } else {
        (
            rt,
            Ok(
                RunV {
                    ip: m.ret_stack.last(),
                    env: m.env_stack.last(),
                    env_stack: m.env_stack.drop_last(),
                    ret_stack: m.ret_stack.drop_last(),
                    ..m
                },
            ),
        )
    }
}

/// `test`: pops a value and sets the flag to its truth.
pub open spec fn step_test(m: RunV, rt: RuntimeV) -> StepOut {
    if m.val_stack.len() < 1 {
        fail(rt, "test with empty val stack"@)
    } else {
        (rt, Ok(RunV { flag_true: truthy(m.val_stack.last()), ..m.drop(1) }.next()))
    }
}

/// The host function behind an arithmetic instruction.
pub open spec fn arith_func(op: u8) -> usize {
    if op == OP_ADD {
        FUNC_NUM_ADD
    } else if op == OP_SUB {
        FUNC_NUM_SUB
    } else if op == OP_MUL {
        FUNC_NUM_MUL
    } else {
        FUNC_NUM_DIV
    }
}

/// `add`, `sub`, `mul`, `div`: pops two values and pushes what the host's
/// function of that name makes of them.
pub open spec fn step_arith<H: NativeHost>(host: H, m: RunV, rt: RuntimeV, op: u8) -> StepOut {
    if m.val_stack.len() < 2 {
        fail(rt, "arithmetic op with not enough values in the val stack"@)
    } else {
        match native_result(host, arith_func(op), m.top(2), rt, m.env, bytecode_loc()) {
            Ok(v) => (rt, Ok(m.drop(2).push(v).next())),
            Err(e) => (rt, Err(e)),
        }
    }
}

/// One step of the machine, which has not stopped.
///
/// An instruction pointer outside the program is a panic. An operation
/// code that names no instruction stops the machine, as `halt` does.
pub open spec fn vm_step<H: NativeHost>(
    host: H,
    instr: Seq<u32>,
    literals: Seq<Value>,
    m: RunV,
    rt: RuntimeV,
    depth: nat,
) -> StepOut {
    if m.ip >= instr.len() {
        fail(rt, "instruction pointer out of range"@)
    } else {
        let word = instr[m.ip as int];
        let op = opcode_of(word);
        if op == OP_PUSHLIT {
            step_pushlit(literals, m, rt, operand_26(word))
        } else if op == OP_NEWENV {
            step_newenv(m, rt, operand_hi(word), operand_lo(word))
        } else if op == OP_POPENV {
            step_popenv(m, rt, operand_lo(word))
        } else if op == OP_POPVAL {
            step_popval(m, rt, operand_lo(word))
        } else if op == OP_GETVAR {
            step_getvar(m, rt, operand_hi(word), operand_lo(word))
        } else if op == OP_SETVAR {
            step_setvar(m, rt, operand_hi(word), operand_lo(word))
        } else if op == OP_GETELEM {
            step_getelem(m, rt)
        } else if op == OP_SETELEM {
            step_setelem(m, rt)
        } else if op == OP_CALL {
            step_call(host, m, rt, depth, operand_lo(word))
        } else if op == OP_RET {
            step_ret(m, rt)
        } else if op == OP_TEST {
            step_test(m, rt)
        } else if op == OP_JMP {
            (rt, Ok(m.at(operand_26(word))))
        } else if op == OP_JT {
            (
                rt,
                Ok(
                    if m.flag_true {
                        m.at(operand_26(word))
                    } else {
                        m.next()
                    },
                ),
            )
        } else if op == OP_JF {
            (
                rt,
                Ok(
                    if !m.flag_true {
                        m.at(operand_26(word))
                    } else {
                        m.next()
                    },
                ),
            )
        } else if op == OP_ADD || op == OP_SUB || op == OP_MUL || op == OP_DIV {
            step_arith(host, m, rt, op)
        } else {
            (rt, Ok(m.at(INVALID_ADDR)))
        }
    }
}

/// Up to `n` steps: the machine steps until it has stopped, a step fails
/// or `n` steps are done.
pub open spec fn vm_run<H: NativeHost>(
    host: H,
    instr: Seq<u32>,
    literals: Seq<Value>,
    m: RunV,
    rt: RuntimeV,
    depth: nat,
    n: nat,
) -> StepOut
    decreases n,
{
    if n == 0 || m.ip == INVALID_ADDR {
        (rt, Ok(m))
    } else {
        match vm_step(host, instr, literals, m, rt, depth) {
            (rt1, Ok(m1)) => vm_run(host, instr, literals, m1, rt1, depth, (n - 1) as nat),
            (rt1, Err(e)) => (rt1, Err(e)),
        }
    }
}

/// The machine after up to `n` steps: where a step fails, the machine
/// that the step found, which a failed step leaves as it is.
pub open spec fn vm_last<H: NativeHost>(
    host: H,
    instr: Seq<u32>,
    literals: Seq<Value>,
    m: RunV,
    rt: RuntimeV,
    depth: nat,
    n: nat,
) -> RunV
    decreases n,
{
    if n == 0 || m.ip == INVALID_ADDR {
        m
    } else {
        match vm_step(host, instr, literals, m, rt, depth) {
            (rt1, Ok(m1)) => vm_last(host, instr, literals, m1, rt1, depth, (n - 1) as nat),
            (_, Err(_)) => m,
        }
    }
}

/// The machine at the entry of a call of `c` with `args`, and the state
/// with the frame of the call. The frame of the closure is pushed as the
/// frame to go back to and `INVALID_ADDR` as the address to return to, so
/// that the `ret` of the called function stops the machine.
pub open spec fn vm_enter(c: Closure, args: Seq<Value>, m: RunV, rt: RuntimeV) -> (RuntimeV, RunV) {
    let (rt1, frame) = rt.push_frame(c.env, args);
    (
        rt1,
        RunV {
            ip: c.addr,
            env: frame,
            env_stack: m.env_stack.push(c.env),
            ret_stack: m.ret_stack.push(INVALID_ADDR),
            ..m
        },
    )
}

/// A call of the bytecode closure `c` from the host.
///
/// The number of arguments must be the number of parameters, or the call
/// is a panic, as it is for the `call` instruction. The machine runs for
/// at most `steps` steps. A machine that is still running then is a
/// panic. The value on
/// top of the stack of the stopped machine is the result; an empty stack
/// is a script exception.
pub open spec fn vm_call<H: NativeHost>(
    host: H,
    c: Closure,
    args: Seq<Value>,
    loc: SrcLocV,
    instr: Seq<u32>,
    literals: Seq<Value>,
    m: RunV,
    rt: RuntimeV,
    steps: nat,
    depth: nat,
) -> (RuntimeV, Result<Value, RunErrorV>) {
    if c.num_params != args.len() {
        (rt, Err(RunErrorV::panic(arity_text(c.num_params, args.len()))))
    } else {
        let (rt1, m1) = vm_enter(c, args, m, rt);
        match vm_run(host, instr, literals, m1, rt1, depth, steps) {
            (rt2, Err(e)) => (rt2, Err(e)),
            (rt2, Ok(m2)) => if m2.ip != INVALID_ADDR {
                (rt2, Err(RunErrorV::panic("step budget exhausted"@)))
            } else if m2.val_stack.len() == 0 {
                (
                    rt2,
                    Err(
                        RunErrorV::script(
                            bytecode_loc(),
                            "bytecode stopped with no return value on stack"@,
                        ),
                    ),
                )
            } else {
                (rt2, Ok(m2.val_stack.last()))
            },
        }
    }
}

/// Whether the machine `m`, the state `rt` and the result `r` are what the
/// outcome `out` of a step says. A failed step leaves the machine as it
/// was, which the functions that step say beside this.
pub open spec fn step_is(m: Run, rt: RuntimeV, r: Result<(), RunError>, out: StepOut) -> bool {
    &&& rt == out.0
    &&& match r {
        Ok(_) => out.1 == Ok::<RunV, RunErrorV>(m@),
        Err(e) => out.1 == Err::<RunV, RunErrorV>(e@),
    }
}

fn arity_panic(expected: usize, got: usize) -> (r: RunError)
    ensures
        r@ == RunErrorV::panic(arity_text(expected, got as nat)),
{
    let mut msg = String::from_str("invalid number of arguments passed (expected ");
    push_decimal(&mut msg, expected as u64);
    msg.append(", got ");
    push_decimal(&mut msg, got as u64);
    msg.append(")");
    RunError::Panic(None, msg)
}

fn top_values(stack: &Vec<Value>, n: usize) -> (r: Vec<Value>)
    requires
        n <= stack@.len(),
    ensures
        r@ == stack@.subrange(stack@.len() - n, stack@.len() as int),
{
    let start = stack.len() - n;
    let mut out: Vec<Value> = Vec::new();
    let mut i: usize = start;
    while i < stack.len()
        invariant
            start <= i <= stack.len(),
            start == stack@.len() - n,
            out@ == stack@.subrange(start as int, i as int),
        decreases stack.len() - i,
    {
        out.push(stack[i].clone());
        assert(out@ =~= stack@.subrange(start as int, i + 1));
        i += 1;
    }
    out
}

fn bytecode_src_loc() -> (r: SrcLoc)
    ensures
        r@ == bytecode_loc(),
{
    SrcLoc::new("(bytecode)", 0, 0)
}

impl Run {
    /// A machine that has not run yet, in `env`.
    pub fn new(env: usize) -> (r: Run)
        ensures
            r@ == (RunV {
                ip: 0,
                env,
                env_stack: Seq::empty(),
                val_stack: Seq::empty(),
                ret_stack: Seq::empty(),
                flag_true: false,
            }),
    {
        Run {
            env,
            ip: 0,
            env_stack: Vec::new(),
            val_stack: Vec::new(),
            ret_stack: Vec::new(),
            flag_true: false,
        }
    }

    /// Puts the machine back to where `new` leaves it.
    pub fn _reset(&mut self, env: usize)
        ensures
            final(self)@ == (RunV {
                ip: 0,
                env,
                env_stack: Seq::empty(),
                val_stack: Seq::empty(),
                ret_stack: Seq::empty(),
                flag_true: false,
            }),
    {
        self.env = env;
        self.ip = 0;
        self.env_stack.clear();
        self.val_stack.clear();
        self.ret_stack.clear();
        self.flag_true = false;
    }

    fn drop_values(&mut self, n: usize)
        requires
            n <= old(self)@.val_stack.len(),
        ensures
            final(self)@ == old(self)@.drop(n as nat),
    {
        let keep = self.val_stack.len() - n;
        self.val_stack.truncate(keep);
    }

    fn do_pushlit(&mut self, rt: &Runtime, literals: &[Value], index: u32) -> (r: Result<
        (),
        RunError,
    >)
        requires
            old(self).ip < INVALID_ADDR,
        ensures
            r is Err ==> final(self)@ == old(self)@,
            step_is(*final(self), rt@, r, step_pushlit(literals@, old(self)@, rt@, index)),
    {
        if (index as usize) >= literals.len() {
            return Err(RunError::new_panic(None, "pushlit with invalid literal index"));
        }
        self.val_stack.push(literals[index as usize].clone());
        self.ip = self.ip + 1;
        Ok(())
    }

    fn do_newenv(&mut self, rt: &mut Runtime, n_args: u16, n_total: u16) -> (r: Result<
        (),
        RunError,
    >)
        requires
            old(self).ip < INVALID_ADDR,
        ensures
            r is Err ==> final(self)@ == old(self)@,
            step_is(
                *final(self),
                final(rt)@,
                r,
                step_newenv(old(self)@, old(rt)@, n_args, n_total),
            ),
    {
        let n = n_args as usize;
        if self.val_stack.len() < n {
            return Err(
                RunError::new_panic(None, "newenv with not enough values in the val stack"),
            );
        }
        let args = top_values(&self.val_stack, n);
        let frame = rt.env.new_partial(self.env, args.as_slice(), n_total as usize);
        self.env_stack.push(self.env);
        self.env = frame;
        self.drop_values(n);
        self.ip = self.ip + 1;
        Ok(())
    }

    fn do_popenv(&mut self, rt: &Runtime, n: u16) -> (r: Result<(), RunError>)
        requires
            old(self).ip < INVALID_ADDR,
        ensures
            r is Err ==> final(self)@ == old(self)@,
            step_is(*final(self), rt@, r, step_popenv(old(self)@, rt@, n)),
    {
        let n = n as usize;
        if self.env_stack.len() < n {
            return Err(RunError::new_panic(None, "popenv with empty stack"));
        }
        if n > 0 {
            let keep = self.env_stack.len() - n;
            self.env = self.env_stack[keep];
            self.env_stack.truncate(keep);
        }
        self.ip = self.ip + 1;
        Ok(())
    }

    fn do_popval(&mut self, rt: &Runtime, n: u16) -> (r: Result<(), RunError>)
        requires
            old(self).ip < INVALID_ADDR,
        ensures
            r is Err ==> final(self)@ == old(self)@,
            step_is(*final(self), rt@, r, step_popval(old(self)@, rt@, n)),
    {
        let n = n as usize;
        if self.val_stack.len() < n {
            return Err(RunError::new_panic(None, "popval with empty stack"));
        }
        self.drop_values(n);
        self.ip = self.ip + 1;
        Ok(())
    }

    fn do_getvar(&mut self, rt: &Runtime, vi: u16, ei: u16) -> (r: Result<(), RunError>)
        requires
            old(self).ip < INVALID_ADDR,
        ensures
            r is Err ==> final(self)@ == old(self)@,
            step_is(*final(self), rt@, r, step_getvar(old(self)@, rt@, vi, ei)),
    {
        match rt.env.get_value(self.env, vi as usize, ei as usize) {
            Ok(v) => {
                self.val_stack.push(v);
            },
            Err(e) => {
                return Err(e);
            },
        }
        self.ip = self.ip + 1;
        Ok(())
    }

    fn do_setvar(&mut self, rt: &mut Runtime, vi: u16, ei: u16) -> (r: Result<(), RunError>)
        requires
            old(self).ip < INVALID_ADDR,
        ensures
            r is Err ==> final(self)@ == old(self)@,
            step_is(*final(self), final(rt)@, r, step_setvar(old(self)@, old(rt)@, vi, ei)),
    {
        if self.val_stack.len() < 1 {
            return Err(RunError::new_panic(None, "setvar with empty val stack"));
        }
        let val = self.val_stack[self.val_stack.len() - 1].clone();
        match rt.env.set_value(self.env, vi as usize, ei as usize, val) {
            Ok(()) => {},
            Err(e) => {
                return Err(e);
            },
        }
        self.ip = self.ip + 1;
        Ok(())
    }

    fn do_getelem(&mut self, rt: &Runtime) -> (r: Result<(), RunError>)
        requires
            old(self).ip < INVALID_ADDR,
        ensures
            r is Err ==> final(self)@ == old(self)@,
            step_is(*final(self), rt@, r, step_getelem(old(self)@, rt@)),
    {
        let len = self.val_stack.len();
        if len < 2 {
            return Err(
                RunError::new_panic(None, "getelem with not enough values in the val stack"),
            );
        }
        let val = match self.val_stack[len - 2].get_element(
            &rt.heap,
            &self.val_stack[len - 1],
            &bytecode_src_loc(),
        ) {
            Ok(v) => v,
            Err(e) => {
                return Err(e);
            },
        };
        self.drop_values(2);
        self.val_stack.push(val);
        self.ip = self.ip + 1;
        Ok(())
    }

    fn do_setelem(&mut self, rt: &mut Runtime) -> (r: Result<(), RunError>)
        requires
            old(self).ip < INVALID_ADDR,
        ensures
            r is Err ==> final(self)@ == old(self)@,
            step_is(*final(self), final(rt)@, r, step_setelem(old(self)@, old(rt)@)),
    {
        let len = self.val_stack.len();
        if len < 3 {
            return Err(
                RunError::new_panic(None, "setelem with not enough values in the val stack"),
            );
        }
        let val = self.val_stack[len - 1].clone();
        let index = self.val_stack[len - 2].clone();
        match self.val_stack[len - 3].set_element(
            &mut rt.heap,
            index,
            val.clone(),
            &bytecode_src_loc(),
        ) {
            Ok(()) => {},
            Err(e) => {
                return Err(e);
            },
        }
        self.drop_values(3);
        self.val_stack.push(val);
        self.ip = self.ip + 1;
        Ok(())
    }

    fn do_call<H: NativeHost>(&mut self, rt: &mut Runtime, depth: u64, n_args: u16, host: &H) -> (r:
        Result<(), RunError>)
        requires
            old(self).ip < INVALID_ADDR,
        ensures
            r is Err ==> final(self)@ == old(self)@,
            step_is(
                *final(self),
                final(rt)@,
                r,
                step_call(*host, old(self)@, old(rt)@, depth as nat, n_args),
            ),
    {
        let n = n_args as usize;
        if self.val_stack.len() < n + 1 {
            return Err(RunError::new_panic(None, "call with not enough values in the val stack"));
        }
        let func_pos = self.val_stack.len() - (n + 1);
        let args = top_values(&self.val_stack, n);
        let func = self.val_stack[func_pos].clone();
        let ret = match &func {
            Value::BCClosure(c) => {
                if c.num_params != n {
                    return Err(arity_panic(c.num_params, n));
                }
                let frame = rt.env.new(c.env, args.as_slice());
                self.env_stack.push(self.env);
                self.env = frame;
                self.ret_stack.push(self.ip + 1);
                self.ip = c.addr;
                None
            },
            Value::NativeFunc(f) => {
                let ret = match f.call(args.as_slice(), rt, self.env, &bytecode_src_loc(), host) {
                    Ok(v) => v,
                    Err(e) => {
                        return Err(e);
                    },
                };
                self.ip = self.ip + 1;
                Some(ret)
            },
            Value::ASTClosure(_) => {
                let ret = match crate::exec::run_function(
                    &func,
                    args.as_slice(),
                    rt,
                    self.env,
                    depth,
                    &bytecode_src_loc(),
                    host,
                ) {
                    Ok(v) => v,
                    Err(e) => {
                        return Err(e);
                    },
                };
                self.ip = self.ip + 1;
                Some(ret)
            },
            _ => {
                return Err(RunError::new_panic(None, "call to invalid function"));
            },
        };
        self.drop_values(n + 1);
        if let Some(ret) = ret {
            self.val_stack.push(ret);
        }
        Ok(())
    }

    fn do_ret(&mut self, rt: &Runtime) -> (r: Result<(), RunError>)
        ensures
            r is Err ==> final(self)@ == old(self)@,
            step_is(*final(self), rt@, r, step_ret(old(self)@, rt@)),
    {
        if self.env_stack.len() < 1 {
            return Err(RunError::new_panic(None, "ret with empty env stack"));
        }
        if self.ret_stack.len() < 1 {
            return Err(RunError::new_panic(None, "ret with empty ret stack"));
        }
        match self.env_stack.pop() {
            Some(e) => {
                self.env = e;
            },
            None => {},
        }
        match self.ret_stack.pop() {
            Some(addr) => {
                self.ip = addr;
            },
            None => {},
        }
        Ok(())
    }

    fn do_test(&mut self, rt: &Runtime) -> (r: Result<(), RunError>)
        requires
            old(self).ip < INVALID_ADDR,
        ensures
            r is Err ==> final(self)@ == old(self)@,
            step_is(*final(self), rt@, r, step_test(old(self)@, rt@)),
    {
        let val = match self.val_stack.pop() {
            Some(e) => e,
            None => {
                return Err(RunError::new_panic(None, "test with empty val stack"));
            },
        };
        self.flag_true = val.is_true();
        self.ip = self.ip + 1;
        Ok(())
    }

    fn do_arith<H: NativeHost>(&mut self, rt: &Runtime, op: u8, host: &H) -> (r: Result<
        (),
        RunError,
    >)
        requires
            old(self).ip < INVALID_ADDR,
            op == OP_ADD || op == OP_SUB || op == OP_MUL || op == OP_DIV,
        ensures
            r is Err ==> final(self)@ == old(self)@,
            step_is(*final(self), rt@, r, step_arith(*host, old(self)@, rt@, op)),
    {
        if self.val_stack.len() < 2 {
            return Err(
                RunError::new_panic(
                    None,
                    "arithmetic op with not enough values in the val stack",
                ),
            );
        }
        let args = top_values(&self.val_stack, 2);
        let func = NativeFunc::new(
            if op == OP_ADD {
                FUNC_NUM_ADD
            } else if op == OP_SUB {
                FUNC_NUM_SUB
            } else if op == OP_MUL {
                FUNC_NUM_MUL
            } else {
                FUNC_NUM_DIV
            },
        );
        let result = match func.call(args.as_slice(), rt, self.env, &bytecode_src_loc(), host) {
            Ok(v) => v,
            Err(e) => {
                return Err(e);
            },
        };
        self.drop_values(2);
        self.val_stack.push(result);
        self.ip = self.ip + 1;
        Ok(())
    }

    /// Executes the instruction under the instruction pointer.
    fn step<H: NativeHost>(
        &mut self,
        instr: &[u32],
        literals: &[Value],
        rt: &mut Runtime,
        depth: u64,
        host: &H,
    ) -> (r: Result<(), RunError>)
        requires
            old(self).ip != INVALID_ADDR,
        ensures
            r is Err ==> final(self)@ == old(self)@,
            step_is(
                *final(self),
                final(rt)@,
                r,
                vm_step(*host, instr@, literals@, old(self)@, old(rt)@, depth as nat),
            ),
    {
        if (self.ip as usize) >= instr.len() {
            return Err(RunError::new_panic(None, "instruction pointer out of range"));
        }
        let word = instr[self.ip as usize];
        let op = d_op(word);
        if op == OP_PUSHLIT {
            self.do_pushlit(rt, literals, d_op_26(word))
        } else if op == OP_NEWENV {
            let (n_args, n_total) = d_op_12_12(word);
            self.do_newenv(rt, n_args, n_total)
        } else if op == OP_POPENV {
            self.do_popenv(rt, d_op_12(word))
        } else if op == OP_POPVAL {
            self.do_popval(rt, d_op_12(word))
        } else if op == OP_GETVAR {
            let (vi, ei) = d_op_12_12(word);
            self.do_getvar(rt, vi, ei)
        } else if op == OP_SETVAR {
            let (vi, ei) = d_op_12_12(word);
            self.do_setvar(rt, vi, ei)
        } else if op == OP_GETELEM {
            self.do_getelem(rt)
        } else if op == OP_SETELEM {
            self.do_setelem(rt)
        } else if op == OP_CALL {
            self.do_call(rt, depth, d_op_12(word), host)
        } else if op == OP_RET {
            self.do_ret(rt)
        } else if op == OP_TEST {
            self.do_test(rt)
        } else if op == OP_JMP {
            self.ip = d_op_26(word);
            Ok(())
        } else if op == OP_JT {
            if self.flag_true {
                self.ip = d_op_26(word);
            } else {
                self.ip = self.ip + 1;
            }
            Ok(())
        } else if op == OP_JF {
            if !self.flag_true {
                self.ip = d_op_26(word);
            } else {
                self.ip = self.ip + 1;
            }
            Ok(())
        } else if op == OP_ADD || op == OP_SUB || op == OP_MUL || op == OP_DIV {
            self.do_arith(rt, op, host)
        } else {
            self.ip = INVALID_ADDR;
            Ok(())
        }
    }

    /// Executes up to `n` instructions: the machine steps until it has
    /// stopped, a step fails or `n` steps are done.
    pub fn exec_instr<H: NativeHost>(
        &mut self,
        n: u64,
        instr: &[u32],
        literals: &[Value],
        rt: &mut Runtime,
        depth: u64,
        host: &H,
    ) -> (r: Result<(), RunError>)
        ensures
            final(self)@ == vm_last(
                *host,
                instr@,
                literals@,
                old(self)@,
                old(rt)@,
                depth as nat,
                n as nat,
            ),
            step_is(
                *final(self),
                final(rt)@,
                r,
                vm_run(*host, instr@, literals@, old(self)@, old(rt)@, depth as nat, n as nat),
            ),
    {
        let ghost m0 = self@;
        let ghost rt0 = rt@;
        let mut left: u64 = n;
        while left > 0 && self.ip != INVALID_ADDR
            invariant
                m0 == old(self)@,
                rt0 == old(rt)@,
                vm_run(*host, instr@, literals@, m0, rt0, depth as nat, n as nat) == vm_run(
                    *host,
                    instr@,
                    literals@,
                    self@,
                    rt@,
                    depth as nat,
                    left as nat,
                ),
                vm_last(*host, instr@, literals@, m0, rt0, depth as nat, n as nat) == vm_last(
                    *host,
                    instr@,
                    literals@,
                    self@,
                    rt@,
                    depth as nat,
                    left as nat,
                ),
            decreases left,
        {
            match self.step(instr, literals, rt, depth, host) {
                Ok(()) => {},
                Err(e) => {
                    return Err(e);
                },
            }
            left = left - 1;
        }
        Ok(())
    }

    /// Calls the bytecode closure `closure` with `args` and runs the
    /// machine until the call has returned, for at most `steps` steps.
    pub fn call_func<H: NativeHost>(
        &mut self,
        closure: &Closure,
        args: &[Value],
        loc: &SrcLoc,
        instr: &[u32],
        literals: &[Value],
        rt: &mut Runtime,
        steps: u64,
        depth: u64,
        host: &H,
    ) -> (r: Result<Value, RunError>)
        ensures
            (final(rt)@, res_view(r)) == vm_call(
                *host,
                *closure,
                args@,
                loc@,
                instr@,
                literals@,
                old(self)@,
                old(rt)@,
                steps as nat,
                depth as nat,
            ),
            args@.len() != closure.num_params ==> final(rt)@ == old(rt)@ && final(self)@ == old(
                self,
            )@ && res_view(r) == Err::<Value, RunErrorV>(
                RunErrorV::panic(arity_text(closure.num_params, args@.len())),
            ),
            args@.len() == closure.num_params ==> final(self)@ == ({
                let m = vm_last(
                    *host,
                    instr@,
                    literals@,
                    vm_enter(*closure, args@, old(self)@, old(rt)@).1,
                    vm_enter(*closure, args@, old(self)@, old(rt)@).0,
                    depth as nat,
                    steps as nat,
                );
                if r is Ok {
                    m.drop(1)
                } else {
                    m
                }
            }),
    {
        if closure.num_params != args.len() {
            return Err(arity_panic(closure.num_params, args.len()));
        }
        self.env_stack.push(closure.env);
        self.env = rt.env.new(closure.env, args);
        self.ret_stack.push(INVALID_ADDR);
        self.ip = closure.addr;
        match self.exec_instr(steps, instr, literals, rt, depth, host) {
            Ok(()) => {},
            Err(e) => {
                return Err(e);
            },
        }
        if self.ip != INVALID_ADDR {
            return Err(RunError::new_panic(None, "step budget exhausted"));
        }
        match self.val_stack.pop() {
            Some(ret) => Ok(ret),
            None => Err(
                RunError::new_script(
                    bytecode_src_loc(),
                    "bytecode stopped with no return value on stack",
                ),
            ),
        }
    }
}

/// A `call` of a bytecode closure with a number of arguments that is not
/// the number of its parameters fails with a panic and changes nothing.
pub proof fn lemma_call_arity<H: NativeHost>(
    host: H,
    m: RunV,
    rt: RuntimeV,
    depth: nat,
    n_args: u16,
)
    requires
        m.val_stack.len() >= n_args + 1,
        m.val_stack[m.val_stack.len() - n_args - 1] matches Value::BCClosure(c) && c.num_params
            != n_args,
    ensures
        step_call(host, m, rt, depth, n_args) == fail(
            rt,
            arity_text(
                m.val_stack[m.val_stack.len() - n_args - 1]->BCClosure_0.num_params,
                n_args as nat,
            ),
        ),
{
}

/// Steps add up: running `a` steps and then `b` more is running `a + b`
/// steps.
pub proof fn lemma_run_adds<H: NativeHost>(
    host: H,
    instr: Seq<u32>,
    literals: Seq<Value>,
    m: RunV,
    rt: RuntimeV,
    depth: nat,
    a: nat,
    b: nat,
)
    ensures
        vm_run(host, instr, literals, m, rt, depth, a + b) == match vm_run(
            host,
            instr,
            literals,
            m,
            rt,
            depth,
            a,
        ) {
            (rt1, Ok(m1)) => vm_run(host, instr, literals, m1, rt1, depth, b),
            (rt1, Err(e)) => (rt1, Err(e)),
        },
    decreases a,
{
    if a > 0 && m.ip != INVALID_ADDR {
        match vm_step(host, instr, literals, m, rt, depth) {
            (rt1, Ok(m1)) => {
                lemma_run_adds(host, instr, literals, m1, rt1, depth, (a - 1) as nat, b);
            },
            (rt1, Err(e)) => {},
        }
    } else if a > 0 {
        lemma_run_stopped(host, instr, literals, m, rt, depth, b);
    }
}

/// A machine that has stopped stays as it is.
pub proof fn lemma_run_stopped<H: NativeHost>(
    host: H,
    instr: Seq<u32>,
    literals: Seq<Value>,
    m: RunV,
    rt: RuntimeV,
    depth: nat,
    n: nat,
)
    requires
        m.ip == INVALID_ADDR,
    ensures
        vm_run(host, instr, literals, m, rt, depth, n) == (rt, Ok::<RunV, RunErrorV>(m)),
{
}

} // verus!
