//! What evaluating a resolved tree means.
//!
//! Evaluation is a function from a tree, the state of the script and the
//! handle of the current frame to a new state and a result. Every call of
//! a closure and every round of a loop evaluates what it runs under a
//! budget that is one smaller than its own; with a budget of zero neither
//! is run, so evaluation always ends.
use std::rc::Rc;
use vstd::prelude::*;
use crate::env::{env_get, env_set, env_set_result};
use crate::errors::RunErrorV;
use crate::exec::closure::Closure;
use crate::exec::expressions::{
    BinaryOp, ElemAssign, Element, Expression, FuncCall, FuncDef, MapLiteral, PrefixOp, VarAssign,
    VecLiteral,
};
use crate::exec::statements::{
    Block, Completion, IfStatement, ReturnStatement, Statement, WhileStatement,
};
use crate::native::{NativeHost, native_result};
use crate::runtime::RuntimeV;
use crate::src_loc::SrcLocV;
use crate::text::decimal;
use crate::value::{Value, element_of, store_element, store_result, truthy};

verus! {

/// The message of the exception for a call with the wrong number of
/// arguments.
pub open spec fn arity_text(expected: usize, got: nat) -> Seq<char> {
    "invalid number of arguments passed (expected "@ + decimal(expected as nat) + ", got "@
        + decimal(got) + ")"@
}

/// The message of the panic that ends an evaluation whose budget is used
/// up.
pub open spec fn budget_text() -> Seq<char> {
    "evaluation budget exhausted"@
}

pub open spec fn eval_expr<H: NativeHost>(
    host: H,
    e: Expression,
    rt: RuntimeV,
    frame: usize,
    depth: nat,
) -> (RuntimeV, Result<Value, RunErrorV>)
    decreases 3 * depth + 2, e, 0nat,
{
    match e {
        Expression::Number(n, _) => (rt, Ok(Value::Number(n))),
        Expression::String(s, _) => (rt, Ok(Value::String(s))),
        Expression::Variable(vi, ei, _) => (rt, env_get(rt.env, frame, vi, ei)),
        Expression::Vec(v) => eval_vec(host, v, rt, frame, depth),
        Expression::Dict(m) => eval_map(host, m, rt, frame, depth),
        Expression::Element(el) => eval_element(host, el, rt, frame, depth),
        Expression::VarAssign(a) => eval_var_assign(host, a, rt, frame, depth),
        Expression::ElemAssign(a) => eval_elem_assign(host, a, rt, frame, depth),
        Expression::BinaryOp(op) => eval_binary(host, op, rt, frame, depth),
        Expression::PrefixOp(op) => eval_prefix(host, op, rt, frame, depth),
        Expression::FuncCall(f) => eval_call(host, f, rt, frame, depth),
        Expression::FuncDef(f) => eval_func_def(f, rt, frame),
    }
}

/// The values of the first `n` expressions of `es`, evaluated from left to
/// right; the first failure ends the evaluation.
pub open spec fn eval_list<H: NativeHost>(
    host: H,
    es: Seq<Expression>,
    n: nat,
    rt: RuntimeV,
    frame: usize,
    depth: nat,
) -> (RuntimeV, Result<Seq<Value>, RunErrorV>)
    decreases 3 * depth + 2, es, n,
{
    if n == 0 || n > es.len() {
        (rt, Ok(Seq::empty()))
    } else {
        let (rt1, r1) = eval_list(host, es, (n - 1) as nat, rt, frame, depth);
        match r1 {
            Err(e) => (rt1, Err(e)),
            Ok(vals) => {
                let (rt2, r2) = eval_expr(host, es[n - 1], rt1, frame, depth);
                match r2 {
                    Err(e) => (rt2, Err(e)),
                    Ok(v) => (rt2, Ok(vals.push(v))),
                }
            },
        }
    }
}

/// The first `n` entries of a map literal, each key with the value of its
/// expression.
pub open spec fn eval_entries<H: NativeHost>(
    host: H,
    es: Seq<(String, Expression)>,
    n: nat,
    rt: RuntimeV,
    frame: usize,
    depth: nat,
) -> (RuntimeV, Result<Seq<(Value, Value)>, RunErrorV>)
    decreases 3 * depth + 2, es, n,
{
    if n == 0 || n > es.len() {
        (rt, Ok(Seq::empty()))
    } else {
        let (rt1, r1) = eval_entries(host, es, (n - 1) as nat, rt, frame, depth);
        match r1 {
            Err(e) => (rt1, Err(e)),
            Ok(entries) => {
                let (rt2, r2) = eval_expr(host, es[n - 1].1, rt1, frame, depth);
                match r2 {
                    Err(e) => (rt2, Err(e)),
                    Ok(v) => (rt2, Ok(entries.push((Value::String(es[n - 1].0), v)))),
                }
            },
        }
    }
}

/// A vector literal makes a new vector of the values of its elements.
pub open spec fn eval_vec<H: NativeHost>(
    host: H,
    v: VecLiteral,
    rt: RuntimeV,
    frame: usize,
    depth: nat,
) -> (RuntimeV, Result<Value, RunErrorV>)
    decreases 3 * depth + 2, v, 0nat,
{
    let (rt1, r) = eval_list(host, v.vec@, v.vec@.len(), rt, frame, depth);
    match r {
        Err(e) => (rt1, Err(e)),
        Ok(vals) => (
            RuntimeV { heap: rt1.heap.with_vec(vals), ..rt1 },
            Ok(Value::Vec(rt1.heap.vecs.len() as usize)),
        ),
    }
}

/// A map literal makes a new map of its entries, in the order written.
pub open spec fn eval_map<H: NativeHost>(
    host: H,
    m: MapLiteral,
    rt: RuntimeV,
    frame: usize,
    depth: nat,
) -> (RuntimeV, Result<Value, RunErrorV>)
    decreases 3 * depth + 2, m, 0nat,
{
    let (rt1, r) = eval_entries(host, m.entries@, m.entries@.len(), rt, frame, depth);
    match r {
        Err(e) => (rt1, Err(e)),
        Ok(entries) => (
            RuntimeV { heap: rt1.heap.with_map(entries), ..rt1 },
            Ok(Value::Dict(rt1.heap.maps.len() as usize)),
        ),
    }
}

/// `container[index]`: the container, then the index, then the element.
pub open spec fn eval_element<H: NativeHost>(
    host: H,
    el: Element,
    rt: RuntimeV,
    frame: usize,
    depth: nat,
) -> (RuntimeV, Result<Value, RunErrorV>)
    decreases 3 * depth + 2, el, 0nat,
{
    let (rt1, c) = eval_expr(host, *el.container, rt, frame, depth);
    match c {
        Err(e) => (rt1, Err(e)),
        Ok(container) => {
            let (rt2, i) = eval_expr(host, *el.index, rt1, frame, depth);
            match i {
                Err(e) => (rt2, Err(e)),
                Ok(index) => (rt2, element_of(container, rt2.heap, index, el.loc@)),
            }
        },
    }
}

/// `variable = val`: the value is written to the address and is the value
/// of the assignment.
pub open spec fn eval_var_assign<H: NativeHost>(
    host: H,
    a: VarAssign,
    rt: RuntimeV,
    frame: usize,
    depth: nat,
) -> (RuntimeV, Result<Value, RunErrorV>)
    decreases 3 * depth + 2, a, 0nat,
{
    let (rt1, r) = eval_expr(host, *a.val, rt, frame, depth);
    match r {
        Err(e) => (rt1, Err(e)),
        Ok(val) => (
            RuntimeV { env: env_set(rt1.env, frame, a.var_index, a.env_index, val), ..rt1 },
            match env_set_result(rt1.env, frame, a.var_index, a.env_index) {
                Ok(_) => Ok(val),
                Err(e) => Err(e),
            },
        ),
    }
}

/// `container[index] = val`: the container, the index, the value, then
/// the store. The value is the value of the assignment.
pub open spec fn eval_elem_assign<H: NativeHost>(
    host: H,
    a: ElemAssign,
    rt: RuntimeV,
    frame: usize,
    depth: nat,
) -> (RuntimeV, Result<Value, RunErrorV>)
    decreases 3 * depth + 2, a, 0nat,
{
    let (rt1, c) = eval_expr(host, *a.container, rt, frame, depth);
    match c {
        Err(e) => (rt1, Err(e)),
        Ok(container) => {
            let (rt2, i) = eval_expr(host, *a.index, rt1, frame, depth);
            match i {
                Err(e) => (rt2, Err(e)),
                Ok(index) => {
                    let (rt3, v) = eval_expr(host, *a.val, rt2, frame, depth);
                    match v {
                        Err(e) => (rt3, Err(e)),
                        Ok(val) => (
                            RuntimeV {
                                heap: store_element(container, rt3.heap, index, val),
                                ..rt3
                            },
                            match store_result(container, rt3.heap, index, a.loc@) {
                                Ok(_) => Ok(val),
                                Err(e) => Err(e),
                            },
                        ),
                    }
                },
            }
        },
    }
}

/// `left op right`: the operator is read from its address, then the
/// operands are evaluated from left to right, then the operator is called.
pub open spec fn eval_binary<H: NativeHost>(
    host: H,
    op: BinaryOp,
    rt: RuntimeV,
    frame: usize,
    depth: nat,
) -> (RuntimeV, Result<Value, RunErrorV>)
    decreases 3 * depth + 2, op, 0nat,
{
    match env_get(rt.env, frame, op.val_index, op.env_index) {
        Err(e) => (rt, Err(e)),
        Ok(func) => {
            let (rt1, l) = eval_expr(host, *op.left, rt, frame, depth);
            match l {
                Err(e) => (rt1, Err(e)),
                Ok(left) => {
                    let (rt2, r) = eval_expr(host, *op.right, rt1, frame, depth);
                    match r {
                        Err(e) => (rt2, Err(e)),
                        Ok(right) => call_value(
                            host,
                            func,
                            seq![left, right],
                            rt2,
                            frame,
                            depth,
                            op.loc@,
                        ),
                    }
                },
            }
        },
    }
}

/// `op arg`: the operator is read from its address, then the operand is
/// evaluated, then the operator is called.
pub open spec fn eval_prefix<H: NativeHost>(
    host: H,
    op: PrefixOp,
    rt: RuntimeV,
    frame: usize,
    depth: nat,
) -> (RuntimeV, Result<Value, RunErrorV>)
    decreases 3 * depth + 2, op, 0nat,
{
    match env_get(rt.env, frame, op.val_index, op.env_index) {
        Err(e) => (rt, Err(e)),
        Ok(func) => {
            let (rt1, a) = eval_expr(host, *op.arg, rt, frame, depth);
            match a {
                Err(e) => (rt1, Err(e)),
                Ok(arg) => call_value(host, func, seq![arg], rt1, frame, depth, op.loc@),
            }
        },
    }
}

/// `func(args...)`: the callee, then the arguments from left to right,
/// then the call.
pub open spec fn eval_call<H: NativeHost>(
    host: H,
    f: FuncCall,
    rt: RuntimeV,
    frame: usize,
    depth: nat,
) -> (RuntimeV, Result<Value, RunErrorV>)
    decreases 3 * depth + 2, f, 0nat,
{
    let (rt1, c) = eval_expr(host, *f.func, rt, frame, depth);
    match c {
        Err(e) => (rt1, Err(e)),
        Ok(func) => {
            let (rt2, a) = eval_list(host, f.args@, f.args@.len(), rt1, frame, depth);
            match a {
                Err(e) => (rt2, Err(e)),
                Ok(args) => call_value(host, func, args, rt2, frame, depth, f.loc@),
            }
        },
    }
}

/// A function literal makes a closure over the current frame, with an
/// identity of its own.
pub open spec fn eval_func_def(f: Rc<FuncDef>, rt: RuntimeV, frame: usize) -> (
    RuntimeV,
    Result<Value, RunErrorV>,
) {
    if rt.heap.next_id == u64::MAX {
        (rt, Err(RunErrorV::panic("out of closure identities"@)))
    } else {
        (
            RuntimeV { heap: rt.heap.after_id(), ..rt },
            Ok(Value::ASTClosure(Closure { func: f, env: frame, id: rt.heap.next_id })),
        )
    }
}

/// A call of the value `func` at `loc`, from code that runs in `frame`.
pub open spec fn call_value<H: NativeHost>(
    host: H,
    func: Value,
    args: Seq<Value>,
    rt: RuntimeV,
    frame: usize,
    depth: nat,
    loc: SrcLocV,
) -> (RuntimeV, Result<Value, RunErrorV>)
    decreases 3 * depth + 1, func, 0nat,
{
    match func {
        Value::ASTClosure(c) => apply(host, c, args, rt, depth, loc),
        Value::BCClosure(_) => (
            rt,
            Err(RunErrorV::script(loc, "running Bytecode from AST is not implemented!"@)),
        ),
        Value::NativeFunc(f) => (rt, native_result(host, f.index, args, rt, frame, loc)),
        _ => (rt, Err(RunErrorV::script(loc, "trying to call non-function value"@))),
    }
}

/// A call of the closure `c`.
///
/// The number of arguments must be the number of parameters. The body
/// runs in a new frame that holds the arguments and whose parent is the
/// frame the closure was made in. What the body returns, by `return` or by
/// running to its end, is the value of the call.
pub open spec fn apply<H: NativeHost>(
    host: H,
    c: Closure,
    args: Seq<Value>,
    rt: RuntimeV,
    depth: nat,
    loc: SrcLocV,
) -> (RuntimeV, Result<Value, RunErrorV>)
    decreases 3 * depth, c, 0nat,
{
    if args.len() != c.func.num_params {
        (rt, Err(RunErrorV::script(loc, arity_text(c.func.num_params, args.len()))))
    } else if depth == 0 {
        (rt, Err(RunErrorV::panic(budget_text())))
    } else {
        let (rt1, frame1) = rt.push_frame(c.env, args);
        let (rt2, r) = eval_block(host, *c.func.block, rt1, frame1, (depth - 1) as nat);
        (
            rt2,
            match r {
                Err(e) => Err(e),
                Ok(Completion::Normal(v)) => Ok(v),
                Ok(Completion::Return(v)) => Ok(v),
                Ok(Completion::Break) => Err(RunErrorV::panic("'break' outside of a loop"@)),
            },
        )
    }
}

pub open spec fn eval_stmt<H: NativeHost>(
    host: H,
    s: Statement,
    rt: RuntimeV,
    frame: usize,
    depth: nat,
) -> (RuntimeV, Result<Completion, RunErrorV>)
    decreases 3 * depth + 2, s, 0nat,
{
    match s {
        Statement::Empty => (rt, Ok(Completion::Normal(Value::Null))),
        Statement::If(i) => eval_if(host, i, rt, frame, depth),
        Statement::While(w) => eval_while(host, w, rt, frame, depth),
        Statement::Break(_) => (rt, Ok(Completion::Break)),
        Statement::Return(r) => eval_return(host, r, rt, frame, depth),
        Statement::Block(b) => eval_block(host, b, rt, frame, depth),
        Statement::Expression(e) => {
            let (rt1, r) = eval_expr(host, e, rt, frame, depth);
            match r {
                Err(e) => (rt1, Err(e)),
                Ok(v) => (rt1, Ok(Completion::Normal(v))),
            }
        },
    }
}

/// The first `n` statements of `ss`, in order. A statement that fails,
/// returns or breaks ends the run, and its outcome is the outcome of the
/// run. A run that reaches its end completes with null.
pub open spec fn eval_stmts<H: NativeHost>(
    host: H,
    ss: Seq<Statement>,
    n: nat,
    rt: RuntimeV,
    frame: usize,
    depth: nat,
) -> (RuntimeV, Result<Completion, RunErrorV>)
    decreases 3 * depth + 2, ss, n,
{
    if n == 0 || n > ss.len() {
        (rt, Ok(Completion::Normal(Value::Null)))
    } else {
        let (rt1, r1) = eval_stmts(host, ss, (n - 1) as nat, rt, frame, depth);
        match r1 {
            Ok(Completion::Normal(_)) => {
                let (rt2, r2) = eval_stmt(host, ss[n - 1], rt1, frame, depth);
                match r2 {
                    Ok(Completion::Normal(_)) => (rt2, Ok(Completion::Normal(Value::Null))),
                    other => (rt2, other),
                }
            },
            other => (rt1, other),
        }
    }
}

/// A block. One that declares a variable evaluates the initializer in the
/// enclosing frame and runs its statements in a new frame whose single
/// slot holds that value, or null without an initializer.
pub open spec fn eval_block<H: NativeHost>(
    host: H,
    b: Block,
    rt: RuntimeV,
    frame: usize,
    depth: nat,
) -> (RuntimeV, Result<Completion, RunErrorV>)
    decreases 3 * depth + 2, b, 0nat,
{
    if b.has_var {
        let (rt1, r) = match b.var_val {
            Some(e) => eval_expr(host, *e, rt, frame, depth),
            None => (rt, Ok(Value::Null)),
        };
        match r {
            Err(e) => (rt1, Err(e)),
            Ok(val) => {
                let (rt2, frame2) = rt1.push_frame(frame, seq![val]);
                eval_stmts(host, b.stmts@, b.stmts@.len(), rt2, frame2, depth)
            },
        }
    } else {
        eval_stmts(host, b.stmts@, b.stmts@.len(), rt, frame, depth)
    }
}

/// `if`: the branch that the test selects; null where there is none.
pub open spec fn eval_if<H: NativeHost>(
    host: H,
    i: IfStatement,
    rt: RuntimeV,
    frame: usize,
    depth: nat,
) -> (RuntimeV, Result<Completion, RunErrorV>)
    decreases 3 * depth + 2, i, 0nat,
{
    let (rt1, t) = eval_expr(host, *i.test, rt, frame, depth);
    match t {
        Err(e) => (rt1, Err(e)),
        Ok(v) => if truthy(v) {
            eval_stmt(host, *i.true_stmt, rt1, frame, depth)
        } else {
            match i.false_stmt {
                Some(f) => eval_stmt(host, *f, rt1, frame, depth),
                None => (rt1, Ok(Completion::Normal(Value::Null))),
            }
        },
    }
}

/// `while`: as long as the test holds, the body runs. A `break` in the
/// body ends the loop, which then completes with null. A `return` in the
/// body ends the loop and is passed on. Each round runs under a budget one
/// smaller than the round before.
pub open spec fn eval_while<H: NativeHost>(
    host: H,
    w: WhileStatement,
    rt: RuntimeV,
    frame: usize,
    depth: nat,
) -> (RuntimeV, Result<Completion, RunErrorV>)
    decreases 3 * depth + 2, w, 0nat,
{
    if depth == 0 {
        (rt, Err(RunErrorV::panic(budget_text())))
    } else {
        let d = (depth - 1) as nat;
        let (rt1, t) = eval_expr(host, *w.test, rt, frame, d);
        match t {
            Err(e) => (rt1, Err(e)),
            Ok(v) => if !truthy(v) {
                (rt1, Ok(Completion::Normal(Value::Null)))
            } else {
                let (rt2, b) = eval_stmt(host, *w.stmt, rt1, frame, d);
                match b {
                    Err(e) => (rt2, Err(e)),
                    Ok(Completion::Break) => (rt2, Ok(Completion::Normal(Value::Null))),
                    Ok(Completion::Return(v)) => (rt2, Ok(Completion::Return(v))),
                    Ok(Completion::Normal(_)) => eval_while(host, w, rt2, frame, d),
                }
            },
        }
    }
}

/// `return`: completes with the value of the expression, or with null.
pub open spec fn eval_return<H: NativeHost>(
    host: H,
    r: ReturnStatement,
    rt: RuntimeV,
    frame: usize,
    depth: nat,
) -> (RuntimeV, Result<Completion, RunErrorV>)
    decreases 3 * depth + 2, r, 0nat,
{
    match r.expr {
        Some(e) => {
            let (rt1, v) = eval_expr(host, *e, rt, frame, depth);
            match v {
                Err(e) => (rt1, Err(e)),
                Ok(val) => (rt1, Ok(Completion::Return(val))),
            }
        },
        None => (rt, Ok(Completion::Return(Value::Null))),
    }
}

/// Once the evaluation of a list has failed, the rest of the list is not
/// evaluated.
pub proof fn lemma_list_fails<H: NativeHost>(
    host: H,
    es: Seq<Expression>,
    n: nat,
    m: nat,
    rt: RuntimeV,
    frame: usize,
    depth: nat,
)
    requires
        n <= m <= es.len(),
        eval_list(host, es, n, rt, frame, depth).1 is Err,
    ensures
        eval_list(host, es, m, rt, frame, depth) == eval_list(host, es, n, rt, frame, depth),
    decreases m,
{
    if n < m {
        lemma_list_fails(host, es, n, (m - 1) as nat, rt, frame, depth);
    }
}

/// Once the evaluation of the entries of a map literal has failed, the
/// rest of the entries are not evaluated.
pub proof fn lemma_entries_fail<H: NativeHost>(
    host: H,
    es: Seq<(String, Expression)>,
    n: nat,
    m: nat,
    rt: RuntimeV,
    frame: usize,
    depth: nat,
)
    requires
        n <= m <= es.len(),
        eval_entries(host, es, n, rt, frame, depth).1 is Err,
    ensures
        eval_entries(host, es, m, rt, frame, depth) == eval_entries(host, es, n, rt, frame, depth),
    decreases m,
{
    if n < m {
        lemma_entries_fail(host, es, n, (m - 1) as nat, rt, frame, depth);
    }
}

/// Once a statement of a run has failed, returned or broken out, the
/// statements after it are not run.
pub proof fn lemma_stmts_end<H: NativeHost>(
    host: H,
    ss: Seq<Statement>,
    n: nat,
    m: nat,
    rt: RuntimeV,
    frame: usize,
    depth: nat,
)
    requires
        n <= m <= ss.len(),
        !(eval_stmts(host, ss, n, rt, frame, depth).1 matches Ok(Completion::Normal(_))),
    ensures
        eval_stmts(host, ss, m, rt, frame, depth) == eval_stmts(host, ss, n, rt, frame, depth),
    decreases m,
{
    if n < m {
        lemma_stmts_end(host, ss, n, (m - 1) as nat, rt, frame, depth);
    }
}

/// A `break` never leaves a loop as a `break`: the loop that it ends
/// completes with null.
pub proof fn lemma_while_absorbs_break<H: NativeHost>(
    host: H,
    w: WhileStatement,
    rt: RuntimeV,
    frame: usize,
    depth: nat,
)
    ensures
        !(eval_while(host, w, rt, frame, depth).1 matches Ok(Completion::Break)),
    decreases depth,
{
    if depth > 0 {
        let d = (depth - 1) as nat;
        let (rt1, t) = eval_expr(host, *w.test, rt, frame, d);
        match t {
            Err(_) => {},
            Ok(v) => {
                if truthy(v) {
                    let (rt2, b) = eval_stmt(host, *w.stmt, rt1, frame, d);
                    match b {
                        Ok(Completion::Normal(_)) => {
                            lemma_while_absorbs_break(host, w, rt2, frame, d);
                        },
                        _ => {},
                    }
                }
            },
        }
    }
}

/// A call with the wrong number of arguments fails with an exception at
/// the place of the call and changes nothing, whatever the budget.
pub proof fn lemma_arity_mismatch<H: NativeHost>(
    host: H,
    c: Closure,
    args: Seq<Value>,
    rt: RuntimeV,
    depth: nat,
    loc: SrcLocV,
)
    requires
        args.len() != c.func.num_params,
    ensures
        apply(host, c, args, rt, depth, loc) == (
            rt,
            Err::<Value, RunErrorV>(
                RunErrorV::script(loc, arity_text(c.func.num_params, args.len())),
            ),
        ),
{
}

/// A `return` in the body of a function ends the call with the returned
/// value, from however deep in loops and blocks it comes; a body that runs
/// to its end gives its last value.
pub proof fn lemma_call_takes_return<H: NativeHost>(
    host: H,
    c: Closure,
    args: Seq<Value>,
    rt: RuntimeV,
    depth: nat,
    loc: SrcLocV,
)
    requires
        args.len() == c.func.num_params,
        depth > 0,
    ensures
        ({
            let (rt1, frame1) = rt.push_frame(c.env, args);
            let body = eval_block(host, *c.func.block, rt1, frame1, (depth - 1) as nat);
            let call = apply(host, c, args, rt, depth, loc);
            &&& call.0 == body.0
            &&& body.1 matches Ok(Completion::Return(v)) ==> call.1 == Ok::<Value, RunErrorV>(v)
            &&& body.1 matches Ok(Completion::Normal(v)) ==> call.1 == Ok::<Value, RunErrorV>(v)
            &&& body.1 matches Err(e) ==> call.1 == Err::<Value, RunErrorV>(e)
        }),
{
}

} // verus!
