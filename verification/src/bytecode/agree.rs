//! Where the two backends agree.
//!
//! The compiler has instructions for literals, variables, elements,
//! attributes, operators, assignments and calls. For an expression that is
//! built from these, the code that the compiler emits does what the
//! evaluator does with the resolution of the expression: where the
//! evaluator computes a value, the machine that runs the code pushes that
//! value, and both leave the script in the same state.
use vstd::prelude::*;
use crate::ast::codegen::{
    compile_assign, compile_binary, compile_dot, compile_expr, compile_list, compile_prefix,
    push_literal,
};
use crate::ast::expressions::Expression;
use crate::ast::resolve::{Scopes, resolved_assign, resolved_dot, resolved_expr, resolved_list};
use crate::bytecode::gen::ProgramV;
use crate::bytecode::instr::{lemma_word_12_12, lemma_word_26, opcode_of, word_12_12, word_26};
use crate::bytecode::opcodes::{
    OP_CALL, OP_GETELEM, OP_GETVAR, OP_PUSHLIT, OP_SETELEM, OP_SETVAR,
};
use crate::bytecode::run::{RunV, bytecode_loc, lemma_run_adds, vm_run, vm_step};
use crate::env::{env_get, env_set, env_set_result};
use crate::errors::RunErrorV;
use crate::exec::semantics::{
    apply, call_value, eval_binary, eval_call, eval_elem_assign, eval_element, eval_expr,
    eval_list, eval_prefix, eval_var_assign,
};
use crate::exec::Expression as RExpr;
use crate::native::{NativeHost, native_result, raw_result};
use crate::runtime::RuntimeV;
use crate::src_loc::SrcLocV;
use crate::sym_tab::{lemma_lookup_in_range, lookup};
use crate::value::{Value, element_of, store_element, store_result};

verus! {

/// Whether the compiler has instructions for `e`: `e` is built from
/// literals, variables, elements, attributes, prefix and binary operators,
/// assignments to variables, elements and attributes, and calls with
/// fewer than 4096 arguments.
pub open spec fn is_compilable(e: Expression) -> bool
    decreases e, 0nat,
{
    match e {
        Expression::Number(_, _) => true,
        Expression::String(_, _) => true,
        Expression::Ident(_, _) => true,
        Expression::Element(el) => is_compilable(*el.container) && is_compilable(*el.index),
        Expression::BinaryOp(op) => if op.op@ == "="@ {
            is_compilable(*op.right) && match *op.left {
                Expression::Ident(_, _) => true,
                Expression::Element(el) => is_compilable(*el.container) && is_compilable(
                    *el.index,
                ),
                Expression::BinaryOp(dot) => dot.op@ == "."@ && *dot.right is Ident
                    && is_compilable(*dot.left),
                _ => false,
            }
        } else if op.op@ == "."@ {
            *op.right is Ident && is_compilable(*op.left)
        } else {
            is_compilable(*op.left) && is_compilable(*op.right)
        },
        Expression::PrefixOp(op) => is_compilable(*op.arg),
        Expression::FuncCall(f) => is_compilable(*f.func) && f.args@.len() < 0x1000
            && all_compilable(f.args@),
        _ => false,
    }
}

/// Whether the compiler has instructions for every expression of `es`.
pub open spec fn all_compilable(es: Seq<Expression>) -> bool
    decreases es, 0nat,
{
    forall|i: int| 0 <= i < es.len() ==> is_compilable(#[trigger] es[i])
}

/// Whether every address of the scopes fits the 12 bits that an
/// instruction has for a slot and for a depth.
pub open spec fn small(sym: Scopes) -> bool {
    &&& sym.len() <= 0x1000
    &&& forall|i: int| 0 <= i < sym.len() ==> (#[trigger] sym[i]).len() <= 0x1000
}

/// Whether the program that runs holds the instructions and literals that
/// were added on the way from `p` to `q`, where they were added.
pub open spec fn in_place(instr: Seq<u32>, literals: Seq<Value>, p: ProgramV, q: ProgramV) -> bool {
    &&& q.instr.len() <= instr.len()
    &&& forall|i: int| p.instr.len() <= i < q.instr.len() ==> instr[i] == q.instr[i]
    &&& q.literals.len() <= literals.len()
    &&& forall|i: int| p.literals.len() <= i < q.literals.len() ==> literals[i] == q.literals[i]
}

/// Whether `q` is `p` with more instructions and literals at the end, and
/// nothing else changed.
pub open spec fn extends(p: ProgramV, q: ProgramV) -> bool {
    &&& p.instr.len() <= q.instr.len()
    &&& forall|i: int| 0 <= i < p.instr.len() ==> q.instr[i] == p.instr[i]
    &&& p.literals.len() <= q.literals.len()
    &&& forall|i: int| 0 <= i < p.literals.len() ==> q.literals[i] == p.literals[i]
    &&& q == (ProgramV { instr: q.instr, literals: q.literals, ..p })
}

/// Compiling an expression that the compiler has instructions for only
/// adds instructions and literals at the end of the program.
pub proof fn lemma_expr_extends(e: Expression, sym: Scopes, p: ProgramV)
    requires
        is_compilable(e),
    ensures
        extends(p, compile_expr(e, sym, p).0),
    decreases e, 1nat,
{
    match e {
        Expression::Element(el) => {
            lemma_expr_extends(*el.container, sym, p);
            let (pa, ea) = compile_expr(*el.container, sym, p);
            lemma_expr_extends(*el.index, sym, pa);
            let (pb, eb) = compile_expr(*el.index, sym, pa);
            assert(extends(p, pb));
            assert(extends(p, pb.emit(word_26(OP_GETELEM, 0))));
        },
        Expression::BinaryOp(op) => {
            if op.op@ == "="@ {
                assert(compile_expr(e, sym, p) == compile_assign(op, sym, p));
                match *op.left {
                    Expression::Ident(id, _) => {
                        match lookup(sym, id@) {
                            None => {},
                            Some((vi, ei)) => {
                                lemma_expr_extends(*op.right, sym, p);
                                let (pa, ea) = compile_expr(*op.right, sym, p);
                                assert(extends(
                                    p,
                                    pa.emit(word_12_12(OP_SETVAR, vi as u16, ei as u16)),
                                ));
                            },
                        }
                    },
                    Expression::Element(el) => {
                        lemma_expr_extends(*el.container, sym, p);
                        let pa = compile_expr(*el.container, sym, p).0;
                        lemma_expr_extends(*el.index, sym, pa);
                        let pb = compile_expr(*el.index, sym, pa).0;
                        lemma_expr_extends(*op.right, sym, pb);
                        let pc = compile_expr(*op.right, sym, pb).0;
                        assert(extends(p, pb));
                        assert(extends(p, pc));
                        assert(extends(p, pc.emit(word_26(OP_SETELEM, 0))));
                    },
                    Expression::BinaryOp(dot) => {
                        lemma_expr_extends(*dot.left, sym, p);
                        let pa = compile_expr(*dot.left, sym, p).0;
                        let pb = push_literal(pa, Value::String(dot.right->Ident_0));
                        assert(extends(pa, pb));
                        lemma_expr_extends(*op.right, sym, pb);
                        let pc = compile_expr(*op.right, sym, pb).0;
                        assert(extends(p, pb));
                        assert(extends(p, pc));
                        assert(extends(p, pc.emit(word_26(OP_SETELEM, 0))));
                    },
                    _ => {},
                }
            } else if op.op@ == "."@ {
                assert(compile_expr(e, sym, p) == compile_dot(op, sym, p));
                lemma_expr_extends(*op.left, sym, p);
                let pa = compile_expr(*op.left, sym, p).0;
                let pb = push_literal(pa, Value::String(op.right->Ident_0));
                assert(extends(pa, pb));
                assert(extends(p, pb));
                assert(extends(p, pb.emit(word_26(OP_GETELEM, 0))));
            } else {
                assert(compile_expr(e, sym, p) == compile_binary(op, sym, p));
                match lookup(sym, op.op@) {
                    None => {},
                    Some((vi, ei)) => {
                        let pa = p.emit(word_12_12(OP_GETVAR, vi as u16, ei as u16));
                        lemma_expr_extends(*op.left, sym, pa);
                        let (pb, eb) = compile_expr(*op.left, sym, pa);
                        lemma_expr_extends(*op.right, sym, pb);
                        let (pc, ec) = compile_expr(*op.right, sym, pb);
                        assert(extends(p, pa));
                        assert(extends(p, pb));
                        assert(extends(p, pc));
                        assert(extends(p, pc.emit(word_12_12(OP_CALL, 0, 2))));
                    },
                }
            }
        },
        Expression::PrefixOp(op) => {
            assert(compile_expr(e, sym, p) == compile_prefix(op, sym, p));
            match lookup(sym, op.op@) {
                None => {},
                Some((vi, ei)) => {
                    let pa = p.emit(word_12_12(OP_GETVAR, vi as u16, ei as u16));
                    lemma_expr_extends(*op.arg, sym, pa);
                    let (pb, eb) = compile_expr(*op.arg, sym, pa);
                    assert(extends(p, pa));
                    assert(extends(p, pb));
                    assert(extends(p, pb.emit(word_12_12(OP_CALL, 0, 1))));
                },
            }
        },
        Expression::FuncCall(f) => {
            lemma_expr_extends(*f.func, sym, p);
            let (pa, ea) = compile_expr(*f.func, sym, p);
            lemma_list_extends(f.args@, f.args@.len(), sym, pa);
            let (pb, eb) = compile_list(f.args@, f.args@.len(), sym, pa);
            assert(extends(p, pb));
            assert(extends(p, pb.emit(word_12_12(OP_CALL, 0, f.args@.len() as u16))));
        },
        _ => {},
    }
}

/// Compiling a list of such expressions only adds instructions and
/// literals at the end of the program.
pub proof fn lemma_list_extends(es: Seq<Expression>, n: nat, sym: Scopes, p: ProgramV)
    requires
        all_compilable(es),
        n <= es.len(),
    ensures
        extends(p, compile_list(es, n, sym, p).0),
    decreases es, n,
{
    if n > 0 {
        lemma_list_extends(es, (n - 1) as nat, sym, p);
        let (pa, ea) = compile_list(es, (n - 1) as nat, sym, p);
        if ea is None {
            lemma_expr_extends(es[n - 1], sym, pa);
            assert(extends(p, compile_expr(es[n - 1], sym, pa).0));
        }
    }
}

/// Whether no instruction that was added on the way from `p` to `q` is a
/// jump.
pub open spec fn no_jumps(p: ProgramV, q: ProgramV) -> bool {
    forall|i: int|
        p.instr.len() <= i < q.instr.len() ==> opcode_of(#[trigger] q.instr[i])
            != crate::bytecode::opcodes::OP_JMP
}

/// The code of an expression holds no jump.
pub proof fn lemma_expr_no_jumps(e: Expression, sym: Scopes, p: ProgramV)
    requires
        is_compilable(e),
    ensures
        no_jumps(p, compile_expr(e, sym, p).0),
    decreases e, 1nat,
{
    lemma_expr_extends(e, sym, p);
    lemma_word_26(OP_PUSHLIT, p.literals.len() as u32);
    lemma_word_26(OP_GETELEM, 0);
    match e {
        Expression::Ident(id, _) => {
            match lookup(sym, id@) {
                Some((vi, ei)) => {
                    lemma_word_12_12(OP_GETVAR, vi as u16, ei as u16);
                },
                None => {},
            }
        },
        Expression::Element(el) => {
            lemma_expr_no_jumps(*el.container, sym, p);
            let pa = compile_expr(*el.container, sym, p).0;
            lemma_expr_no_jumps(*el.index, sym, pa);
            lemma_expr_extends(*el.container, sym, p);
            lemma_expr_extends(*el.index, sym, pa);
        },
        Expression::BinaryOp(op) => {
            if op.op@ == "="@ {
                assert(compile_expr(e, sym, p) == compile_assign(op, sym, p));
                lemma_word_26(OP_SETELEM, 0);
                match *op.left {
                    Expression::Ident(id, _) => {
                        match lookup(sym, id@) {
                            None => {},
                            Some((vi, ei)) => {
                                lemma_word_12_12(OP_SETVAR, vi as u16, ei as u16);
                                lemma_expr_no_jumps(*op.right, sym, p);
                                lemma_expr_extends(*op.right, sym, p);
                            },
                        }
                    },
                    Expression::Element(el) => {
                        lemma_expr_no_jumps(*el.container, sym, p);
                        lemma_expr_extends(*el.container, sym, p);
                        let pa = compile_expr(*el.container, sym, p).0;
                        lemma_expr_no_jumps(*el.index, sym, pa);
                        lemma_expr_extends(*el.index, sym, pa);
                        let pb = compile_expr(*el.index, sym, pa).0;
                        lemma_expr_no_jumps(*op.right, sym, pb);
                        lemma_expr_extends(*op.right, sym, pb);
                    },
                    Expression::BinaryOp(dot) => {
                        lemma_expr_no_jumps(*dot.left, sym, p);
                        lemma_expr_extends(*dot.left, sym, p);
                        let pa = compile_expr(*dot.left, sym, p).0;
                        lemma_word_26(OP_PUSHLIT, pa.literals.len() as u32);
                        let pb = push_literal(pa, Value::String(dot.right->Ident_0));
                        lemma_expr_no_jumps(*op.right, sym, pb);
                        lemma_expr_extends(*op.right, sym, pb);
                    },
                    _ => {},
                }
            } else if op.op@ == "."@ {
                assert(compile_expr(e, sym, p) == compile_dot(op, sym, p));
                lemma_expr_no_jumps(*op.left, sym, p);
                lemma_expr_extends(*op.left, sym, p);
                let pa = compile_expr(*op.left, sym, p).0;
                lemma_word_26(OP_PUSHLIT, pa.literals.len() as u32);
            } else {
                assert(compile_expr(e, sym, p) == compile_binary(op, sym, p));
                match lookup(sym, op.op@) {
                    None => {},
                    Some((vi, ei)) => {
                        lemma_word_12_12(OP_GETVAR, vi as u16, ei as u16);
                        lemma_word_12_12(OP_CALL, 0, 2);
                        let pa = p.emit(word_12_12(OP_GETVAR, vi as u16, ei as u16));
                        lemma_expr_no_jumps(*op.left, sym, pa);
                        lemma_expr_extends(*op.left, sym, pa);
                        let pb = compile_expr(*op.left, sym, pa).0;
                        lemma_expr_no_jumps(*op.right, sym, pb);
                        lemma_expr_extends(*op.right, sym, pb);
                    },
                }
            }
        },
        Expression::PrefixOp(op) => {
            assert(compile_expr(e, sym, p) == compile_prefix(op, sym, p));
            match lookup(sym, op.op@) {
                None => {},
                Some((vi, ei)) => {
                    lemma_word_12_12(OP_GETVAR, vi as u16, ei as u16);
                    lemma_word_12_12(OP_CALL, 0, 1);
                    let pa = p.emit(word_12_12(OP_GETVAR, vi as u16, ei as u16));
                    lemma_expr_no_jumps(*op.arg, sym, pa);
                    lemma_expr_extends(*op.arg, sym, pa);
                },
            }
        },
        Expression::FuncCall(f) => {
            lemma_word_12_12(OP_CALL, 0, f.args@.len() as u16);
            lemma_expr_no_jumps(*f.func, sym, p);
            lemma_expr_extends(*f.func, sym, p);
            let pa = compile_expr(*f.func, sym, p).0;
            lemma_list_no_jumps(f.args@, f.args@.len(), sym, pa);
            lemma_list_extends(f.args@, f.args@.len(), sym, pa);
        },
        _ => {},
    }
}

/// The code of a list of expressions holds no jump.
pub proof fn lemma_list_no_jumps(es: Seq<Expression>, n: nat, sym: Scopes, p: ProgramV)
    requires
        all_compilable(es),
        n <= es.len(),
    ensures
        no_jumps(p, compile_list(es, n, sym, p).0),
    decreases es, n,
{
    if n > 0 {
        lemma_list_no_jumps(es, (n - 1) as nat, sym, p);
        lemma_list_extends(es, (n - 1) as nat, sym, p);
        let (pa, ea) = compile_list(es, (n - 1) as nat, sym, p);
        if ea is None {
            lemma_expr_no_jumps(es[n - 1], sym, pa);
            lemma_expr_extends(es[n - 1], sym, pa);
        }
    }
}

/// The machine at the end of the code that was emitted on the way to `q`,
/// with `v` pushed.
pub open spec fn after(m: RunV, q: ProgramV, v: Value) -> RunV {
    RunV { ip: q.instr.len() as u32, val_stack: m.val_stack.push(v), ..m }
}

/// The machine at the end of the code that was emitted on the way to `q`,
/// with `vals` pushed.
pub open spec fn after_all(m: RunV, q: ProgramV, vals: Seq<Value>) -> RunV {
    RunV { ip: q.instr.len() as u32, val_stack: m.val_stack + vals, ..m }
}

proof fn lemma_fits_12(x: nat)
    requires
        x < 0x1000,
    ensures
        (x as u16) == x,
        (x as u16) < 0x1000,
        (x as u16) as usize == x,
{
}

/// An element that is found is found whatever the place of the access.
pub proof fn lemma_element_any_place(
    container: Value,
    heap: crate::heap::HeapV,
    index: Value,
    a: SrcLocV,
    b: SrcLocV,
)
    requires
        element_of(container, heap, index, a) is Ok,
    ensures
        element_of(container, heap, index, b) == element_of(container, heap, index, a),
{
}

/// A call that returns a value returns it whatever the place of the call.
pub proof fn lemma_call_any_place<H: NativeHost>(
    host: H,
    func: Value,
    args: Seq<Value>,
    rt: RuntimeV,
    frame: usize,
    depth: nat,
    a: SrcLocV,
    b: SrcLocV,
)
    requires
        call_value(host, func, args, rt, frame, depth, a).1 is Ok,
    ensures
        call_value(host, func, args, rt, frame, depth, b) == call_value(
            host,
            func,
            args,
            rt,
            frame,
            depth,
            a,
        ),
{
    match func {
        Value::ASTClosure(c) => {
            assert(apply(host, c, args, rt, depth, a).1 is Ok);
        },
        Value::NativeFunc(f) => {
            assert(native_result(host, f.index, args, rt, frame, a) is Ok);
            assert(raw_result(host, f.index, args, rt, frame) is Ok);
        },
        _ => {},
    }
}

/// The machine reads a variable as the evaluator does.
proof fn lemma_getvar_step<H: NativeHost>(
    host: H,
    instr: Seq<u32>,
    literals: Seq<Value>,
    m: RunV,
    rt: RuntimeV,
    depth: nat,
    slot: usize,
    up: usize,
    v: Value,
)
    requires
        m.ip < instr.len() <= u32::MAX,
        slot < 0x1000,
        up < 0x1000,
        instr[m.ip as int] == word_12_12(OP_GETVAR, slot as u16, up as u16),
        env_get(rt.env, m.env, slot, up) == Ok::<Value, RunErrorV>(v),
    ensures
        vm_run(host, instr, literals, m, rt, depth, 1) == (
            rt,
            Ok::<RunV, RunErrorV>(m.push(v).next()),
        ),
{
    lemma_word_12_12(OP_GETVAR, slot as u16, up as u16);
    let next = m.push(v).next();
    assert(vm_step(host, instr, literals, m, rt, depth) == (rt, Ok::<RunV, RunErrorV>(next)));
    assert(vm_run(host, instr, literals, next, rt, depth, 0) == (rt, Ok::<RunV, RunErrorV>(next)));
}

/// The machine writes a variable as the evaluator does, and keeps the
/// value on the stack.
proof fn lemma_setvar_step<H: NativeHost>(
    host: H,
    instr: Seq<u32>,
    literals: Seq<Value>,
    m: RunV,
    rt: RuntimeV,
    depth: nat,
    slot: usize,
    up: usize,
)
    requires
        m.ip < instr.len() <= u32::MAX,
        slot < 0x1000,
        up < 0x1000,
        instr[m.ip as int] == word_12_12(OP_SETVAR, slot as u16, up as u16),
        m.val_stack.len() > 0,
        env_set_result(rt.env, m.env, slot, up) is Ok,
    ensures
        vm_run(host, instr, literals, m, rt, depth, 1) == (
            RuntimeV { env: env_set(rt.env, m.env, slot, up, m.val_stack.last()), ..rt },
            Ok::<RunV, RunErrorV>(m.next()),
        ),
{
    lemma_word_12_12(OP_SETVAR, slot as u16, up as u16);
    let next = m.next();
    let rta = RuntimeV { env: env_set(rt.env, m.env, slot, up, m.val_stack.last()), ..rt };
    assert(vm_step(host, instr, literals, m, rt, depth) == (rta, Ok::<RunV, RunErrorV>(next)));
    assert(vm_run(host, instr, literals, next, rta, depth, 0) == (
        rta,
        Ok::<RunV, RunErrorV>(next),
    ));
}

/// The machine pushes a literal.
pub proof fn lemma_pushlit_step<H: NativeHost>(
    host: H,
    instr: Seq<u32>,
    literals: Seq<Value>,
    m: RunV,
    rt: RuntimeV,
    depth: nat,
    index: nat,
)
    requires
        m.ip < instr.len() <= u32::MAX,
        index < literals.len(),
        index < 0x0400_0000,
        instr[m.ip as int] == word_26(OP_PUSHLIT, index as u32),
    ensures
        vm_run(host, instr, literals, m, rt, depth, 1) == (
            rt,
            Ok::<RunV, RunErrorV>(m.push(literals[index as int]).next()),
        ),
{
    lemma_word_26(OP_PUSHLIT, index as u32);
    let next = m.push(literals[index as int]).next();
    assert(vm_step(host, instr, literals, m, rt, depth) == (rt, Ok::<RunV, RunErrorV>(next)));
    assert(vm_run(host, instr, literals, next, rt, depth, 0) == (rt, Ok::<RunV, RunErrorV>(next)));
}

/// The machine reads an element as the evaluator does.
proof fn lemma_getelem_step<H: NativeHost>(
    host: H,
    instr: Seq<u32>,
    literals: Seq<Value>,
    m: RunV,
    rt: RuntimeV,
    depth: nat,
    below: Seq<Value>,
    container: Value,
    index: Value,
    v: Value,
)
    requires
        m.ip < instr.len() <= u32::MAX,
        instr[m.ip as int] == word_26(OP_GETELEM, 0),
        m.val_stack == below.push(container).push(index),
        element_of(container, rt.heap, index, bytecode_loc()) == Ok::<Value, RunErrorV>(v),
    ensures
        vm_run(host, instr, literals, m, rt, depth, 1) == (
            rt,
            Ok::<RunV, RunErrorV>(RunV { val_stack: below.push(v), ..m }.next()),
        ),
{
    lemma_word_26(OP_GETELEM, 0);
    let next = RunV { val_stack: below.push(v), ..m }.next();
    assert(m.drop(2).val_stack =~= below);
    assert(vm_step(host, instr, literals, m, rt, depth) == (rt, Ok::<RunV, RunErrorV>(next)));
    assert(vm_run(host, instr, literals, next, rt, depth, 0) == (rt, Ok::<RunV, RunErrorV>(next)));
}

/// The machine calls a function of the host or a closure of the evaluator
/// as the evaluator does: where the call returns a value, the machine
/// pushes it in the place of the callee and the arguments.
proof fn lemma_call_step<H: NativeHost>(
    host: H,
    instr: Seq<u32>,
    literals: Seq<Value>,
    m: RunV,
    rt: RuntimeV,
    depth: nat,
    run_depth: nat,
    n_args: u16,
    below: Seq<Value>,
    func: Value,
    args: Seq<Value>,
    loc: SrcLocV,
)
    requires
        depth <= run_depth,
        m.ip < instr.len() <= u32::MAX,
        n_args < 0x1000,
        instr[m.ip as int] == word_12_12(OP_CALL, 0, n_args),
        args.len() == n_args,
        m.val_stack == below.push(func) + args,
        call_value(host, func, args, rt, m.env, depth, loc).1 is Ok,
    ensures
        vm_run(host, instr, literals, m, rt, run_depth, 1) == (
            call_value(host, func, args, rt, m.env, depth, loc).0,
            Ok::<RunV, RunErrorV>(
                RunV {
                    val_stack: below.push(
                        call_value(host, func, args, rt, m.env, depth, loc).1->Ok_0,
                    ),
                    ..m
                }.next(),
            ),
        ),
{
    lemma_word_12_12(OP_CALL, 0, n_args);
    crate::exec::budget::lemma_budget_call_value(
        host,
        func,
        args,
        rt,
        m.env,
        depth,
        run_depth,
        loc,
    );
    lemma_call_any_place(host, func, args, rt, m.env, run_depth, loc, bytecode_loc());
    let (rta, r) = call_value(host, func, args, rt, m.env, depth, loc);
    let v = r->Ok_0;
    let next = RunV { val_stack: below.push(v), ..m }.next();
    assert(m.top(n_args as nat) =~= args);
    assert(m.drop((n_args + 1) as nat).val_stack =~= below);
    assert(m.val_stack[m.val_stack.len() - n_args - 1] == func);
    match func {
        Value::NativeFunc(f) => {
            assert(rta == rt);
        },
        Value::ASTClosure(c) => {},
        _ => {},
    }
    assert(vm_step(host, instr, literals, m, rt, run_depth) == (
        rta,
        Ok::<RunV, RunErrorV>(next),
    ));
    assert(vm_run(host, instr, literals, next, rta, run_depth, 0) == (
        rta,
        Ok::<RunV, RunErrorV>(next),
    ));
}

/// The backends agree on expressions.
///
/// Let `out` be the resolution of an expression `e` that the compiler has
/// instructions for, and let the compiler have emitted the code of `e`
/// between the programs `p` and `q`, in the same scopes, whose addresses
/// fit an instruction. Let the evaluator compute a value for `out` in the
/// frame of the machine. Then a machine that stands at the start of the
/// code, with at least the budget of the evaluator for the closures that
/// it calls, runs to the end of the code in as many steps as the code has
/// instructions; it has then pushed that value, and has left the script in
/// the state in which the evaluator leaves it.
pub proof fn lemma_expr_agrees<H: NativeHost>(
    host: H,
    e: Expression,
    sym: Scopes,
    ctx: Seq<bool>,
    out: RExpr,
    p: ProgramV,
    instr: Seq<u32>,
    literals: Seq<Value>,
    m: RunV,
    rt: RuntimeV,
    depth: nat,
    run_depth: nat,
)
    requires
        is_compilable(e),
        small(sym),
        resolved_expr(e, sym, ctx, out),
        compile_expr(e, sym, p).1 is None,
        in_place(instr, literals, p, compile_expr(e, sym, p).0),
        instr.len() <= u32::MAX,
        literals.len() <= 0x0400_0000,
        m.ip == p.instr.len(),
        depth <= run_depth,
        eval_expr(host, out, rt, m.env, depth).1 is Ok,
    ensures
        vm_run(
            host,
            instr,
            literals,
            m,
            rt,
            run_depth,
            (compile_expr(e, sym, p).0.instr.len() - p.instr.len()) as nat,
        ) == (
            eval_expr(host, out, rt, m.env, depth).0,
            Ok::<RunV, RunErrorV>(
                after(m, compile_expr(e, sym, p).0, eval_expr(host, out, rt, m.env, depth).1->Ok_0),
            ),
        ),
    decreases e, 1nat,
{
    match e {
        Expression::Element(_) => {
            lemma_element_agrees(host, e, sym, ctx, out, p, instr, literals, m, rt, depth, run_depth);
        },
        Expression::BinaryOp(op) => {
            if op.op@ == "="@ {
                if *op.left is Ident {
                    lemma_assign_agrees(host, e, sym, ctx, out, p, instr, literals, m, rt, depth, run_depth);
                } else {
                    lemma_store_agrees(host, e, sym, ctx, out, p, instr, literals, m, rt, depth, run_depth);
                }
            } else if op.op@ == "."@ {
                lemma_dot_agrees(host, e, sym, ctx, out, p, instr, literals, m, rt, depth, run_depth);
            } else {
                lemma_binary_agrees(host, e, sym, ctx, out, p, instr, literals, m, rt, depth, run_depth);
            }
        },
        Expression::PrefixOp(_) => {
            lemma_prefix_agrees(host, e, sym, ctx, out, p, instr, literals, m, rt, depth, run_depth);
        },
        Expression::FuncCall(_) => {
            lemma_call_agrees(host, e, sym, ctx, out, p, instr, literals, m, rt, depth, run_depth);
        },
        _ => {
            lemma_leaf_agrees(host, e, sym, ctx, out, p, instr, literals, m, rt, depth, run_depth);
        },
    }
}

/// The backends agree on literals and variables.
proof fn lemma_leaf_agrees<H: NativeHost>(
    host: H,
    e: Expression,
    sym: Scopes,
    ctx: Seq<bool>,
    out: RExpr,
    p: ProgramV,
    instr: Seq<u32>,
    literals: Seq<Value>,
    m: RunV,
    rt: RuntimeV,
    depth: nat,
    run_depth: nat,
)
    requires
        is_compilable(e),
        small(sym),
        resolved_expr(e, sym, ctx, out),
        compile_expr(e, sym, p).1 is None,
        in_place(instr, literals, p, compile_expr(e, sym, p).0),
        instr.len() <= u32::MAX,
        literals.len() <= 0x0400_0000,
        m.ip == p.instr.len(),
        depth <= run_depth,
        eval_expr(host, out, rt, m.env, depth).1 is Ok,
        e is Number || e is String || e is Ident,
    ensures
        vm_run(
            host,
            instr,
            literals,
            m,
            rt,
            run_depth,
            (compile_expr(e, sym, p).0.instr.len() - p.instr.len()) as nat,
        ) == (
            eval_expr(host, out, rt, m.env, depth).0,
            Ok::<RunV, RunErrorV>(
                after(m, compile_expr(e, sym, p).0, eval_expr(host, out, rt, m.env, depth).1->Ok_0),
            ),
        ),
{
    let q = compile_expr(e, sym, p).0;
    let rtq = eval_expr(host, out, rt, m.env, depth).0;
    let v = eval_expr(host, out, rt, m.env, depth).1->Ok_0;
    lemma_expr_extends(e, sym, p);
    match e {
        Expression::Number(n, _) => {
            let index = p.literals.len();
            assert(q == push_literal(p, Value::Number(n)));
            assert(q.literals[index as int] == Value::Number(n));
            assert(instr[m.ip as int] == q.instr[m.ip as int]);
            lemma_pushlit_step(host, instr, literals, m, rt, run_depth, index);
            assert(m.push(literals[index as int]).next() == after(m, q, v));
        },
        Expression::String(s, _) => {
            let index = p.literals.len();
            assert(q == push_literal(p, Value::String(s)));
            assert(q.literals[index as int] == Value::String(s));
            assert(instr[m.ip as int] == q.instr[m.ip as int]);
            lemma_pushlit_step(host, instr, literals, m, rt, run_depth, index);
            assert(m.push(literals[index as int]).next() == after(m, q, v));
        },
        Expression::Ident(id, _) => {
            let slot = out->Variable_0;
            let up = out->Variable_1;
            lemma_lookup_in_range(sym, id@, sym.len());
            lemma_fits_12(slot as nat);
            lemma_fits_12(up as nat);
            assert(instr[m.ip as int] == q.instr[m.ip as int]);
            lemma_getvar_step(host, instr, literals, m, rt, run_depth, slot, up, v);
            assert(m.push(v).next() == after(m, q, v));
        },
        _ => {},
    }
}

/// The backends agree on the access to an element.
proof fn lemma_element_agrees<H: NativeHost>(
    host: H,
    e: Expression,
    sym: Scopes,
    ctx: Seq<bool>,
    out: RExpr,
    p: ProgramV,
    instr: Seq<u32>,
    literals: Seq<Value>,
    m: RunV,
    rt: RuntimeV,
    depth: nat,
    run_depth: nat,
)
    requires
        is_compilable(e),
        small(sym),
        resolved_expr(e, sym, ctx, out),
        compile_expr(e, sym, p).1 is None,
        in_place(instr, literals, p, compile_expr(e, sym, p).0),
        instr.len() <= u32::MAX,
        literals.len() <= 0x0400_0000,
        m.ip == p.instr.len(),
        depth <= run_depth,
        eval_expr(host, out, rt, m.env, depth).1 is Ok,
        e is Element,
    ensures
        vm_run(
            host,
            instr,
            literals,
            m,
            rt,
            run_depth,
            (compile_expr(e, sym, p).0.instr.len() - p.instr.len()) as nat,
        ) == (
            eval_expr(host, out, rt, m.env, depth).0,
            Ok::<RunV, RunErrorV>(
                after(m, compile_expr(e, sym, p).0, eval_expr(host, out, rt, m.env, depth).1->Ok_0),
            ),
        ),
    decreases e, 0nat,
{
    let q = compile_expr(e, sym, p).0;
    let rtq = eval_expr(host, out, rt, m.env, depth).0;
    let v = eval_expr(host, out, rt, m.env, depth).1->Ok_0;
    lemma_expr_extends(e, sym, p);
    let el = e->Element_0;
        let o = out->Element_0;
        let (pa, ea) = compile_expr(*el.container, sym, p);
        let (pb, eb) = compile_expr(*el.index, sym, pa);
        lemma_expr_extends(*el.container, sym, p);
        lemma_expr_extends(*el.index, sym, pa);
        assert(q == pb.emit(word_26(OP_GETELEM, 0)));
        assert(eval_expr(host, out, rt, m.env, depth) == eval_element(
            host,
            o,
            rt,
            m.env,
            depth,
        ));
        let (rta, c) = eval_expr(host, *o.container, rt, m.env, depth);
        assert(in_place(instr, literals, p, pa));
        lemma_expr_agrees(host, *el.container, sym, ctx, *o.container, p, instr, literals, m, rt, depth, run_depth);
        let cv = c->Ok_0;
        let ma = after(m, pa, cv);
        let (rtb, i) = eval_expr(host, *o.index, rta, m.env, depth);
        assert(in_place(instr, literals, pa, pb));
        lemma_expr_agrees(host, *el.index, sym, ctx, *o.index, pa, instr, literals, ma, rta, depth, run_depth);
        let iv = i->Ok_0;
        let mb = after(ma, pb, iv);
        lemma_element_any_place(cv, rtb.heap, iv, o.loc@, bytecode_loc());
        assert(instr[mb.ip as int] == q.instr[mb.ip as int]);
        lemma_getelem_step(host, instr, literals, mb, rtb, run_depth, m.val_stack, cv, iv, v);
        let done = RunV { val_stack: m.val_stack.push(v), ..mb }.next();
        assert(done == after(m, q, v));
        let na = (pa.instr.len() - p.instr.len()) as nat;
        let nb = (pb.instr.len() - pa.instr.len()) as nat;
        lemma_run_adds(host, instr, literals, m, rt, run_depth, na, nb);
        lemma_run_adds(host, instr, literals, m, rt, run_depth, na + nb, 1);
}

/// The backends agree on the assignment to a variable.
proof fn lemma_assign_agrees<H: NativeHost>(
    host: H,
    e: Expression,
    sym: Scopes,
    ctx: Seq<bool>,
    out: RExpr,
    p: ProgramV,
    instr: Seq<u32>,
    literals: Seq<Value>,
    m: RunV,
    rt: RuntimeV,
    depth: nat,
    run_depth: nat,
)
    requires
        is_compilable(e),
        small(sym),
        resolved_expr(e, sym, ctx, out),
        compile_expr(e, sym, p).1 is None,
        in_place(instr, literals, p, compile_expr(e, sym, p).0),
        instr.len() <= u32::MAX,
        literals.len() <= 0x0400_0000,
        m.ip == p.instr.len(),
        depth <= run_depth,
        eval_expr(host, out, rt, m.env, depth).1 is Ok,
        e matches Expression::BinaryOp(op) && op.op@ == "="@ && *op.left is Ident,
    ensures
        vm_run(
            host,
            instr,
            literals,
            m,
            rt,
            run_depth,
            (compile_expr(e, sym, p).0.instr.len() - p.instr.len()) as nat,
        ) == (
            eval_expr(host, out, rt, m.env, depth).0,
            Ok::<RunV, RunErrorV>(
                after(m, compile_expr(e, sym, p).0, eval_expr(host, out, rt, m.env, depth).1->Ok_0),
            ),
        ),
    decreases e, 0nat,
{
    let q = compile_expr(e, sym, p).0;
    let rtq = eval_expr(host, out, rt, m.env, depth).0;
    let v = eval_expr(host, out, rt, m.env, depth).1->Ok_0;
    lemma_expr_extends(e, sym, p);
    let op = e->BinaryOp_0;
    let a = out->VarAssign_0;
    let id = op.left->Ident_0;
    let slot = a.var_index;
    let up = a.env_index;
    assert(resolved_assign(op, sym, ctx, out));
    assert(compile_expr(e, sym, p) == compile_assign(op, sym, p));
    lemma_lookup_in_range(sym, id@, sym.len());
    lemma_fits_12(slot as nat);
    lemma_fits_12(up as nat);
    let (pa, ea) = compile_expr(*op.right, sym, p);
    lemma_expr_extends(*op.right, sym, p);
    assert(q == pa.emit(word_12_12(OP_SETVAR, slot as u16, up as u16)));
    assert(eval_expr(host, out, rt, m.env, depth) == eval_var_assign(
        host,
        a,
        rt,
        m.env,
        depth,
    ));
    let (rta, r) = eval_expr(host, *a.val, rt, m.env, depth);
    assert(in_place(instr, literals, p, pa));
    lemma_expr_agrees(host, *op.right, sym, ctx, *a.val, p, instr, literals, m, rt, depth, run_depth);
    let rv = r->Ok_0;
    let ma = after(m, pa, rv);
    assert(instr[ma.ip as int] == q.instr[ma.ip as int]);
    lemma_setvar_step(host, instr, literals, ma, rta, run_depth, slot, up);
    assert(ma.next() == after(m, q, v));
    let na = (pa.instr.len() - p.instr.len()) as nat;
    lemma_run_adds(host, instr, literals, m, rt, run_depth, na, 1);
}

/// Whether an assignment to an element succeeds does not depend on the
/// place of the assignment.
pub proof fn lemma_store_any_place(
    container: Value,
    heap: crate::heap::HeapV,
    index: Value,
    a: SrcLocV,
    b: SrcLocV,
)
    requires
        store_result(container, heap, index, a) is Ok,
    ensures
        store_result(container, heap, index, b) is Ok,
{
}

/// `setelem` stores the value on top of the stack in the container at the
/// index that lie under it, and leaves the value in their place.
proof fn lemma_setelem_step<H: NativeHost>(
    host: H,
    instr: Seq<u32>,
    literals: Seq<Value>,
    m: RunV,
    rt: RuntimeV,
    depth: nat,
    below: Seq<Value>,
    container: Value,
    index: Value,
    val: Value,
)
    requires
        m.ip < instr.len() <= u32::MAX,
        instr[m.ip as int] == word_26(OP_SETELEM, 0),
        m.val_stack == below.push(container).push(index).push(val),
        store_result(container, rt.heap, index, bytecode_loc()) is Ok,
    ensures
        vm_run(host, instr, literals, m, rt, depth, 1) == (
            RuntimeV { heap: store_element(container, rt.heap, index, val), ..rt },
            Ok::<RunV, RunErrorV>(RunV { val_stack: below.push(val), ..m }.next()),
        ),
{
    lemma_word_26(OP_SETELEM, 0);
    let rt1 = RuntimeV { heap: store_element(container, rt.heap, index, val), ..rt };
    let next = RunV { val_stack: below.push(val), ..m }.next();
    assert(m.drop(3).val_stack =~= below);
    assert(vm_step(host, instr, literals, m, rt, depth) == (rt1, Ok::<RunV, RunErrorV>(next)));
    assert(vm_run(host, instr, literals, next, rt1, depth, 0) == (rt1, Ok::<RunV, RunErrorV>(next)));
}

/// The backends agree on the assignment to an element and to an
/// attribute.
proof fn lemma_store_agrees<H: NativeHost>(
    host: H,
    e: Expression,
    sym: Scopes,
    ctx: Seq<bool>,
    out: RExpr,
    p: ProgramV,
    instr: Seq<u32>,
    literals: Seq<Value>,
    m: RunV,
    rt: RuntimeV,
    depth: nat,
    run_depth: nat,
)
    requires
        is_compilable(e),
        small(sym),
        resolved_expr(e, sym, ctx, out),
        compile_expr(e, sym, p).1 is None,
        in_place(instr, literals, p, compile_expr(e, sym, p).0),
        instr.len() <= u32::MAX,
        literals.len() <= 0x0400_0000,
        m.ip == p.instr.len(),
        depth <= run_depth,
        eval_expr(host, out, rt, m.env, depth).1 is Ok,
        e matches Expression::BinaryOp(op) && op.op@ == "="@ && !(*op.left is Ident),
    ensures
        vm_run(
            host,
            instr,
            literals,
            m,
            rt,
            run_depth,
            (compile_expr(e, sym, p).0.instr.len() - p.instr.len()) as nat,
        ) == (
            eval_expr(host, out, rt, m.env, depth).0,
            Ok::<RunV, RunErrorV>(
                after(m, compile_expr(e, sym, p).0, eval_expr(host, out, rt, m.env, depth).1->Ok_0),
            ),
        ),
    decreases e, 0nat,
{
    let q = compile_expr(e, sym, p).0;
    let v = eval_expr(host, out, rt, m.env, depth).1->Ok_0;
    lemma_expr_extends(e, sym, p);
    let op = e->BinaryOp_0;
    let a = out->ElemAssign_0;
    assert(resolved_assign(op, sym, ctx, out));
    assert(compile_expr(e, sym, p) == compile_assign(op, sym, p));
    assert(eval_expr(host, out, rt, m.env, depth) == eval_elem_assign(host, a, rt, m.env, depth));
    let (rta, c) = eval_expr(host, *a.container, rt, m.env, depth);
    let cv = c->Ok_0;
    let (rtb, i) = eval_expr(host, *a.index, rta, m.env, depth);
    let iv = i->Ok_0;
    let (rtc, r) = eval_expr(host, *a.val, rtb, m.env, depth);
    let rv = r->Ok_0;
    let (pa, pb) = match *op.left {
        Expression::Element(el) => {
            let pa = compile_expr(*el.container, sym, p).0;
            (pa, compile_expr(*el.index, sym, pa).0)
        },
        Expression::BinaryOp(dot) => {
            let pa = compile_expr(*dot.left, sym, p).0;
            (pa, push_literal(pa, Value::String(dot.right->Ident_0)))
        },
        _ => (p, p),
    };
    let pc = compile_expr(*op.right, sym, pb).0;
    let ma = after(m, pa, cv);
    let mb = after(ma, pb, iv);
    let na = (pa.instr.len() - p.instr.len()) as nat;
    let nb = (pb.instr.len() - pa.instr.len()) as nat;
    let nc = (pc.instr.len() - pb.instr.len()) as nat;
    match *op.left {
        Expression::Element(el) => {
            lemma_expr_extends(*el.container, sym, p);
            lemma_expr_extends(*el.index, sym, pa);
            lemma_expr_extends(*op.right, sym, pb);
            assert(q == pc.emit(word_26(OP_SETELEM, 0)));
            assert(in_place(instr, literals, p, pa));
            lemma_expr_agrees(host, *el.container, sym, ctx, *a.container, p, instr, literals, m, rt, depth, run_depth);
            assert(in_place(instr, literals, pa, pb));
            lemma_expr_agrees(host, *el.index, sym, ctx, *a.index, pa, instr, literals, ma, rta, depth, run_depth);
        },
        Expression::BinaryOp(dot) => {
            let name = dot.right->Ident_0;
            lemma_expr_extends(*dot.left, sym, p);
            assert(extends(pa, pb));
            lemma_expr_extends(*op.right, sym, pb);
            assert(q == pc.emit(word_26(OP_SETELEM, 0)));
            assert(in_place(instr, literals, p, pa));
            lemma_expr_agrees(host, *dot.left, sym, ctx, *a.container, p, instr, literals, m, rt, depth, run_depth);
            let index = pa.literals.len();
            assert(pb.literals[index as int] == Value::String(name));
            assert(pc.literals[index as int] == pb.literals[index as int]);
            assert(q.literals[index as int] == Value::String(name));
            assert(pb.instr[ma.ip as int] == word_26(OP_PUSHLIT, index as u32));
            assert(pc.instr[ma.ip as int] == pb.instr[ma.ip as int]);
            assert(instr[ma.ip as int] == q.instr[ma.ip as int]);
            lemma_pushlit_step(host, instr, literals, ma, rta, run_depth, index);
            assert(ma.push(literals[index as int]).next() == mb);
        },
        _ => {},
    }
    assert(vm_run(host, instr, literals, ma, rta, run_depth, nb) == (
        rtb,
        Ok::<RunV, RunErrorV>(mb),
    ));
    assert(in_place(instr, literals, pb, pc));
    lemma_expr_agrees(host, *op.right, sym, ctx, *a.val, pb, instr, literals, mb, rtb, depth, run_depth);
    let mc = after(mb, pc, rv);
    lemma_store_any_place(cv, rtc.heap, iv, a.loc@, bytecode_loc());
    assert(instr[mc.ip as int] == q.instr[mc.ip as int]);
    lemma_setelem_step(host, instr, literals, mc, rtc, run_depth, m.val_stack, cv, iv, rv);
    let done = RunV { val_stack: m.val_stack.push(rv), ..mc }.next();
    assert(done == after(m, q, v));
    lemma_run_adds(host, instr, literals, m, rt, run_depth, na, nb);
    lemma_run_adds(host, instr, literals, m, rt, run_depth, na + nb, nc);
    lemma_run_adds(host, instr, literals, m, rt, run_depth, na + nb + nc, 1);
}

/// The backends agree on the access to an attribute.
proof fn lemma_dot_agrees<H: NativeHost>(
    host: H,
    e: Expression,
    sym: Scopes,
    ctx: Seq<bool>,
    out: RExpr,
    p: ProgramV,
    instr: Seq<u32>,
    literals: Seq<Value>,
    m: RunV,
    rt: RuntimeV,
    depth: nat,
    run_depth: nat,
)
    requires
        is_compilable(e),
        small(sym),
        resolved_expr(e, sym, ctx, out),
        compile_expr(e, sym, p).1 is None,
        in_place(instr, literals, p, compile_expr(e, sym, p).0),
        instr.len() <= u32::MAX,
        literals.len() <= 0x0400_0000,
        m.ip == p.instr.len(),
        depth <= run_depth,
        eval_expr(host, out, rt, m.env, depth).1 is Ok,
        e matches Expression::BinaryOp(op) && op.op@ != "="@ && op.op@ == "."@,
    ensures
        vm_run(
            host,
            instr,
            literals,
            m,
            rt,
            run_depth,
            (compile_expr(e, sym, p).0.instr.len() - p.instr.len()) as nat,
        ) == (
            eval_expr(host, out, rt, m.env, depth).0,
            Ok::<RunV, RunErrorV>(
                after(m, compile_expr(e, sym, p).0, eval_expr(host, out, rt, m.env, depth).1->Ok_0),
            ),
        ),
    decreases e, 0nat,
{
    let q = compile_expr(e, sym, p).0;
    let v = eval_expr(host, out, rt, m.env, depth).1->Ok_0;
    lemma_expr_extends(e, sym, p);
    let op = e->BinaryOp_0;
    let o = out->Element_0;
    let name = op.right->Ident_0;
    assert(resolved_dot(op, sym, ctx, out));
    assert(compile_expr(e, sym, p) == compile_dot(op, sym, p));
    assert(eval_expr(host, out, rt, m.env, depth) == eval_element(host, o, rt, m.env, depth));
    let pa = compile_expr(*op.left, sym, p).0;
    let pb = push_literal(pa, Value::String(name));
    lemma_expr_extends(*op.left, sym, p);
    assert(extends(pa, pb));
    assert(q == pb.emit(word_26(OP_GETELEM, 0)));
    let (rta, c) = eval_expr(host, *o.container, rt, m.env, depth);
    let cv = c->Ok_0;
    let iv = Value::String(name);
    assert(eval_expr(host, *o.index, rta, m.env, depth) == (rta, Ok::<Value, RunErrorV>(iv)));
    assert(in_place(instr, literals, p, pa));
    lemma_expr_agrees(host, *op.left, sym, ctx, *o.container, p, instr, literals, m, rt, depth, run_depth);
    let ma = after(m, pa, cv);
    let index = pa.literals.len();
    assert(q.literals[index as int] == iv);
    assert(pb.instr[ma.ip as int] == word_26(OP_PUSHLIT, index as u32));
    assert(instr[ma.ip as int] == q.instr[ma.ip as int]);
    lemma_pushlit_step(host, instr, literals, ma, rta, run_depth, index);
    let mb = after(ma, pb, iv);
    assert(ma.push(literals[index as int]).next() == mb);
    lemma_element_any_place(cv, rta.heap, iv, o.loc@, bytecode_loc());
    assert(instr[mb.ip as int] == q.instr[mb.ip as int]);
    lemma_getelem_step(host, instr, literals, mb, rta, run_depth, m.val_stack, cv, iv, v);
    let done = RunV { val_stack: m.val_stack.push(v), ..mb }.next();
    assert(done == after(m, q, v));
    let na = (pa.instr.len() - p.instr.len()) as nat;
    lemma_run_adds(host, instr, literals, m, rt, run_depth, na, 1);
    lemma_run_adds(host, instr, literals, m, rt, run_depth, na + 1, 1);
}

/// The backends agree on the application of a binary operator.
proof fn lemma_binary_agrees<H: NativeHost>(
    host: H,
    e: Expression,
    sym: Scopes,
    ctx: Seq<bool>,
    out: RExpr,
    p: ProgramV,
    instr: Seq<u32>,
    literals: Seq<Value>,
    m: RunV,
    rt: RuntimeV,
    depth: nat,
    run_depth: nat,
)
    requires
        is_compilable(e),
        small(sym),
        resolved_expr(e, sym, ctx, out),
        compile_expr(e, sym, p).1 is None,
        in_place(instr, literals, p, compile_expr(e, sym, p).0),
        instr.len() <= u32::MAX,
        literals.len() <= 0x0400_0000,
        m.ip == p.instr.len(),
        depth <= run_depth,
        eval_expr(host, out, rt, m.env, depth).1 is Ok,
        e matches Expression::BinaryOp(op) && op.op@ != "="@ && op.op@ != "."@,
    ensures
        vm_run(
            host,
            instr,
            literals,
            m,
            rt,
            run_depth,
            (compile_expr(e, sym, p).0.instr.len() - p.instr.len()) as nat,
        ) == (
            eval_expr(host, out, rt, m.env, depth).0,
            Ok::<RunV, RunErrorV>(
                after(m, compile_expr(e, sym, p).0, eval_expr(host, out, rt, m.env, depth).1->Ok_0),
            ),
        ),
    decreases e, 0nat,
{
    let q = compile_expr(e, sym, p).0;
    let rtq = eval_expr(host, out, rt, m.env, depth).0;
    let v = eval_expr(host, out, rt, m.env, depth).1->Ok_0;
    lemma_expr_extends(e, sym, p);
    let op = e->BinaryOp_0;
    let o = out->BinaryOp_0;
    let slot = o.val_index;
    let up = o.env_index;
    lemma_lookup_in_range(sym, op.op@, sym.len());
    lemma_fits_12(slot as nat);
    lemma_fits_12(up as nat);
    assert(eval_expr(host, out, rt, m.env, depth) == eval_binary(
        host,
        o,
        rt,
        m.env,
        depth,
    ));
    let func = env_get(rt.env, m.env, slot, up)->Ok_0;
    let pa = p.emit(word_12_12(OP_GETVAR, slot as u16, up as u16));
    let (pb, eb) = compile_expr(*op.left, sym, pa);
    let (pc, ec) = compile_expr(*op.right, sym, pb);
    assert(compile_expr(e, sym, p) == compile_binary(op, sym, p));
    assert(q == pc.emit(word_12_12(OP_CALL, 0, 2)));
    lemma_expr_extends(*op.left, sym, pa);
    lemma_expr_extends(*op.right, sym, pb);
    assert(instr[m.ip as int] == q.instr[m.ip as int]);
    assert(q.instr[m.ip as int] == pa.instr[m.ip as int]);
    lemma_getvar_step(host, instr, literals, m, rt, run_depth, slot, up, func);
    let ma = m.push(func).next();
    let (rtb, l) = eval_expr(host, *o.left, rt, m.env, depth);
    assert(in_place(instr, literals, pa, pb));
    lemma_expr_agrees(host, *op.left, sym, ctx, *o.left, pa, instr, literals, ma, rt, depth, run_depth);
    let lv = l->Ok_0;
    let mb = after(ma, pb, lv);
    let (rtc, r) = eval_expr(host, *o.right, rtb, m.env, depth);
    assert(in_place(instr, literals, pb, pc));
    lemma_expr_agrees(host, *op.right, sym, ctx, *o.right, pb, instr, literals, mb, rtb, depth, run_depth);
    let rv = r->Ok_0;
    let mc = after(mb, pc, rv);
    let args = seq![lv, rv];
    assert(mc.val_stack =~= m.val_stack.push(func) + args);
    assert(instr[mc.ip as int] == q.instr[mc.ip as int]);
    lemma_call_step(host, instr, literals, mc, rtc, depth, run_depth, 2, m.val_stack, func, args, o.loc@);
    let done = RunV { val_stack: m.val_stack.push(v), ..mc }.next();
    assert(done == after(m, q, v));
    let nb = (pb.instr.len() - pa.instr.len()) as nat;
    let nc = (pc.instr.len() - pb.instr.len()) as nat;
    lemma_run_adds(host, instr, literals, m, rt, run_depth, 1, nb);
    lemma_run_adds(host, instr, literals, m, rt, run_depth, 1 + nb, nc);
    lemma_run_adds(host, instr, literals, m, rt, run_depth, 1 + nb + nc, 1);
}

/// The backends agree on the application of a prefix operator.
proof fn lemma_prefix_agrees<H: NativeHost>(
    host: H,
    e: Expression,
    sym: Scopes,
    ctx: Seq<bool>,
    out: RExpr,
    p: ProgramV,
    instr: Seq<u32>,
    literals: Seq<Value>,
    m: RunV,
    rt: RuntimeV,
    depth: nat,
    run_depth: nat,
)
    requires
        is_compilable(e),
        small(sym),
        resolved_expr(e, sym, ctx, out),
        compile_expr(e, sym, p).1 is None,
        in_place(instr, literals, p, compile_expr(e, sym, p).0),
        instr.len() <= u32::MAX,
        literals.len() <= 0x0400_0000,
        m.ip == p.instr.len(),
        depth <= run_depth,
        eval_expr(host, out, rt, m.env, depth).1 is Ok,
        e is PrefixOp,
    ensures
        vm_run(
            host,
            instr,
            literals,
            m,
            rt,
            run_depth,
            (compile_expr(e, sym, p).0.instr.len() - p.instr.len()) as nat,
        ) == (
            eval_expr(host, out, rt, m.env, depth).0,
            Ok::<RunV, RunErrorV>(
                after(m, compile_expr(e, sym, p).0, eval_expr(host, out, rt, m.env, depth).1->Ok_0),
            ),
        ),
    decreases e, 0nat,
{
    let q = compile_expr(e, sym, p).0;
    let rtq = eval_expr(host, out, rt, m.env, depth).0;
    let v = eval_expr(host, out, rt, m.env, depth).1->Ok_0;
    lemma_expr_extends(e, sym, p);
    let op = e->PrefixOp_0;
        let o = out->PrefixOp_0;
        let slot = o.val_index;
        let up = o.env_index;
        lemma_lookup_in_range(sym, op.op@, sym.len());
        lemma_fits_12(slot as nat);
        lemma_fits_12(up as nat);
        assert(eval_expr(host, out, rt, m.env, depth) == eval_prefix(
            host,
            o,
            rt,
            m.env,
            depth,
        ));
        let func = env_get(rt.env, m.env, slot, up)->Ok_0;
        let pa = p.emit(word_12_12(OP_GETVAR, slot as u16, up as u16));
        let (pb, eb) = compile_expr(*op.arg, sym, pa);
        assert(compile_expr(e, sym, p) == compile_prefix(op, sym, p));
        assert(q == pb.emit(word_12_12(OP_CALL, 0, 1)));
        lemma_expr_extends(*op.arg, sym, pa);
        assert(instr[m.ip as int] == q.instr[m.ip as int]);
        assert(q.instr[m.ip as int] == pa.instr[m.ip as int]);
        lemma_getvar_step(host, instr, literals, m, rt, run_depth, slot, up, func);
        let ma = m.push(func).next();
        let (rtb, a) = eval_expr(host, *o.arg, rt, m.env, depth);
        assert(in_place(instr, literals, pa, pb));
        lemma_expr_agrees(host, *op.arg, sym, ctx, *o.arg, pa, instr, literals, ma, rt, depth, run_depth);
        let av = a->Ok_0;
        let mb = after(ma, pb, av);
        let args = seq![av];
        assert(mb.val_stack =~= m.val_stack.push(func) + args);
        assert(instr[mb.ip as int] == q.instr[mb.ip as int]);
        lemma_call_step(host, instr, literals, mb, rtb, depth, run_depth, 1, m.val_stack, func, args, o.loc@);
        let done = RunV { val_stack: m.val_stack.push(v), ..mb }.next();
        assert(done == after(m, q, v));
        let nb = (pb.instr.len() - pa.instr.len()) as nat;
        lemma_run_adds(host, instr, literals, m, rt, run_depth, 1, nb);
        lemma_run_adds(host, instr, literals, m, rt, run_depth, 1 + nb, 1);
}

/// The backends agree on calls.
proof fn lemma_call_agrees<H: NativeHost>(
    host: H,
    e: Expression,
    sym: Scopes,
    ctx: Seq<bool>,
    out: RExpr,
    p: ProgramV,
    instr: Seq<u32>,
    literals: Seq<Value>,
    m: RunV,
    rt: RuntimeV,
    depth: nat,
    run_depth: nat,
)
    requires
        is_compilable(e),
        small(sym),
        resolved_expr(e, sym, ctx, out),
        compile_expr(e, sym, p).1 is None,
        in_place(instr, literals, p, compile_expr(e, sym, p).0),
        instr.len() <= u32::MAX,
        literals.len() <= 0x0400_0000,
        m.ip == p.instr.len(),
        depth <= run_depth,
        eval_expr(host, out, rt, m.env, depth).1 is Ok,
        e is FuncCall,
    ensures
        vm_run(
            host,
            instr,
            literals,
            m,
            rt,
            run_depth,
            (compile_expr(e, sym, p).0.instr.len() - p.instr.len()) as nat,
        ) == (
            eval_expr(host, out, rt, m.env, depth).0,
            Ok::<RunV, RunErrorV>(
                after(m, compile_expr(e, sym, p).0, eval_expr(host, out, rt, m.env, depth).1->Ok_0),
            ),
        ),
    decreases e, 0nat,
{
    let q = compile_expr(e, sym, p).0;
    let rtq = eval_expr(host, out, rt, m.env, depth).0;
    let v = eval_expr(host, out, rt, m.env, depth).1->Ok_0;
    lemma_expr_extends(e, sym, p);
    let f = e->FuncCall_0;
        let o = out->FuncCall_0;
        let (pa, ea) = compile_expr(*f.func, sym, p);
        let (pb, eb) = compile_list(f.args@, f.args@.len(), sym, pa);
        lemma_expr_extends(*f.func, sym, p);
        lemma_list_extends(f.args@, f.args@.len(), sym, pa);
        let n_args = f.args@.len() as u16;
        lemma_fits_12(f.args@.len());
        assert(q == pb.emit(word_12_12(OP_CALL, 0, n_args)));
        assert(eval_expr(host, out, rt, m.env, depth) == eval_call(host, o, rt, m.env, depth));
        let (rta, c) = eval_expr(host, *o.func, rt, m.env, depth);
        assert(in_place(instr, literals, p, pa));
        lemma_expr_agrees(host, *f.func, sym, ctx, *o.func, p, instr, literals, m, rt, depth, run_depth);
        let func = c->Ok_0;
        let ma = after(m, pa, func);
        assert(resolved_list(f.args@, sym, ctx, o.args@));
    assert(o.args@.len() == f.args@.len());
    let (rtb, a) = eval_list(host, o.args@, o.args@.len(), rta, m.env, depth);
        assert(in_place(instr, literals, pa, pb));
        lemma_list_agrees(
            host,
            f.args@,
            f.args@.len(),
            sym,
            ctx,
            o.args@,
            pa,
            instr,
            literals,
            ma,
            rta,
            depth,
            run_depth,
        );
        let args = a->Ok_0;
        lemma_list_length(host, o.args@, o.args@.len(), rta, m.env, depth);
        let mb = after_all(ma, pb, args);
        assert(mb.val_stack =~= m.val_stack.push(func) + args);
        assert(instr[mb.ip as int] == q.instr[mb.ip as int]);
        lemma_call_step(host, instr, literals, mb, rtb, depth, run_depth, n_args, m.val_stack, func, args, o.loc@);
        let done = RunV { val_stack: m.val_stack.push(v), ..mb }.next();
        assert(done == after(m, q, v));
        let na = (pa.instr.len() - p.instr.len()) as nat;
        let nb = (pb.instr.len() - pa.instr.len()) as nat;
        lemma_run_adds(host, instr, literals, m, rt, run_depth, na, nb);
        lemma_run_adds(host, instr, literals, m, rt, run_depth, na + nb, 1);
}

/// A list that the evaluator evaluates gives one value for each of its
/// expressions.
pub proof fn lemma_list_length<H: NativeHost>(
    host: H,
    es: Seq<RExpr>,
    n: nat,
    rt: RuntimeV,
    frame: usize,
    depth: nat,
)
    requires
        n <= es.len(),
    ensures
        eval_list(host, es, n, rt, frame, depth).1 matches Ok(vals) ==> vals.len() == n,
    decreases n,
{
    if n > 0 {
        lemma_list_length(host, es, (n - 1) as nat, rt, frame, depth);
    }
}

/// The backends agree on lists of expressions: the machine pushes the
/// values of the first `n` expressions in order.
pub proof fn lemma_list_agrees<H: NativeHost>(
    host: H,
    es: Seq<Expression>,
    n: nat,
    sym: Scopes,
    ctx: Seq<bool>,
    outs: Seq<RExpr>,
    p: ProgramV,
    instr: Seq<u32>,
    literals: Seq<Value>,
    m: RunV,
    rt: RuntimeV,
    depth: nat,
    run_depth: nat,
)
    requires
        all_compilable(es),
        n <= es.len(),
        small(sym),
        resolved_list(es, sym, ctx, outs),
        compile_list(es, n, sym, p).1 is None,
        in_place(instr, literals, p, compile_list(es, n, sym, p).0),
        instr.len() <= u32::MAX,
        literals.len() <= 0x0400_0000,
        m.ip == p.instr.len(),
        depth <= run_depth,
        eval_list(host, outs, n, rt, m.env, depth).1 is Ok,
    ensures
        vm_run(
            host,
            instr,
            literals,
            m,
            rt,
            run_depth,
            (compile_list(es, n, sym, p).0.instr.len() - p.instr.len()) as nat,
        ) == (
            eval_list(host, outs, n, rt, m.env, depth).0,
            Ok::<RunV, RunErrorV>(
                after_all(
                    m,
                    compile_list(es, n, sym, p).0,
                    eval_list(host, outs, n, rt, m.env, depth).1->Ok_0,
                ),
            ),
        ),
    decreases es, n,
{
    lemma_list_extends(es, n, sym, p);
    if n == 0 {
        assert(after_all(m, p, Seq::<Value>::empty()) == m) by {
            assert(m.val_stack + Seq::<Value>::empty() =~= m.val_stack);
        }
    } else {
        let k = (n - 1) as nat;
        let (pa, ea) = compile_list(es, k, sym, p);
        let q = compile_expr(es[n - 1], sym, pa).0;
        lemma_list_extends(es, k, sym, p);
        lemma_expr_extends(es[n - 1], sym, pa);
        let (rta, r) = eval_list(host, outs, k, rt, m.env, depth);
        assert(in_place(instr, literals, p, pa));
        lemma_list_agrees(host, es, k, sym, ctx, outs, p, instr, literals, m, rt, depth, run_depth);
        let vals = r->Ok_0;
        let ma = after_all(m, pa, vals);
        let (rtb, x) = eval_expr(host, outs[n - 1], rta, m.env, depth);
        assert(in_place(instr, literals, pa, q));
        assert(resolved_expr(es[n - 1], sym, ctx, outs[n - 1]));
        lemma_expr_agrees(host, es[n - 1], sym, ctx, outs[n - 1], pa, instr, literals, ma, rta, depth, run_depth);
        let xv = x->Ok_0;
        assert(after(ma, q, xv) == after_all(m, q, vals.push(xv))) by {
            assert((m.val_stack + vals).push(xv) =~= m.val_stack + vals.push(xv));
        }
        let na = (pa.instr.len() - p.instr.len()) as nat;
        let nb = (q.instr.len() - pa.instr.len()) as nat;
        lemma_run_adds(host, instr, literals, m, rt, run_depth, na, nb);
    }
}

} // verus!
