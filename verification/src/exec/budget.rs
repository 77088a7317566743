//! The budget of an evaluation decides only whether the evaluation ends
//! for want of budget: an evaluation that gives a value, or completes,
//! under some budget does the same under every larger one.
use vstd::prelude::*;
use crate::exec::closure::Closure;
use crate::exec::expressions::{
    BinaryOp, ElemAssign, Element, Expression, FuncCall, PrefixOp, VarAssign,
};
use crate::exec::semantics::{
    apply, call_value, eval_binary, eval_block, eval_call, eval_elem_assign, eval_element,
    eval_entries, eval_expr, eval_if, eval_list, eval_map, eval_prefix, eval_return, eval_stmt,
    eval_stmts, eval_var_assign, eval_vec, eval_while,
};
use crate::exec::statements::{Block, Completion, IfStatement, Statement, WhileStatement};
use crate::env::env_get;
use crate::native::NativeHost;
use crate::runtime::RuntimeV;
use crate::src_loc::SrcLocV;
use crate::value::{Value, truthy};

verus! {

/// An expression that has a value under the budget `d` has the same value,
/// and leaves the same state, under every budget `b` from `d` on.
pub proof fn lemma_budget_expr<H: NativeHost>(
    host: H,
    e: Expression,
    rt: RuntimeV,
    frame: usize,
    d: nat,
    b: nat,
)
    requires
        d <= b,
        eval_expr(host, e, rt, frame, d).1 is Ok,
    ensures
        eval_expr(host, e, rt, frame, b) == eval_expr(host, e, rt, frame, d),
    decreases 3 * d + 2, e, 1nat,
{
    match e {
        Expression::Vec(v) => {
            lemma_budget_list(host, v.vec@, v.vec@.len(), rt, frame, d, b);
            assert(eval_expr(host, e, rt, frame, d) == eval_vec(host, v, rt, frame, d));
            assert(eval_expr(host, e, rt, frame, b) == eval_vec(host, v, rt, frame, b));
        },
        Expression::Dict(m) => {
            lemma_budget_entries(host, m.entries@, m.entries@.len(), rt, frame, d, b);
            assert(eval_expr(host, e, rt, frame, d) == eval_map(host, m, rt, frame, d));
            assert(eval_expr(host, e, rt, frame, b) == eval_map(host, m, rt, frame, b));
        },
        Expression::Element(el) => {
            lemma_budget_element(host, el, rt, frame, d, b);
        },
        Expression::VarAssign(a) => {
            assert(eval_expr(host, e, rt, frame, d) == eval_var_assign(host, a, rt, frame, d));
            assert(eval_expr(host, e, rt, frame, b) == eval_var_assign(host, a, rt, frame, b));
            lemma_budget_expr(host, *a.val, rt, frame, d, b);
        },
        Expression::ElemAssign(a) => {
            lemma_budget_elem_assign(host, a, rt, frame, d, b);
        },
        Expression::BinaryOp(op) => {
            lemma_budget_binary(host, op, rt, frame, d, b);
        },
        Expression::PrefixOp(op) => {
            lemma_budget_prefix(host, op, rt, frame, d, b);
        },
        Expression::FuncCall(f) => {
            lemma_budget_call(host, f, rt, frame, d, b);
        },
        _ => {},
    }
}

proof fn lemma_budget_list<H: NativeHost>(
    host: H,
    es: Seq<Expression>,
    n: nat,
    rt: RuntimeV,
    frame: usize,
    d: nat,
    b: nat,
)
    requires
        d <= b,
        eval_list(host, es, n, rt, frame, d).1 is Ok,
    ensures
        eval_list(host, es, n, rt, frame, b) == eval_list(host, es, n, rt, frame, d),
    decreases 3 * d + 2, es, n,
{
    if !(n == 0 || n > es.len()) {
        let (rta, ra) = eval_list(host, es, (n - 1) as nat, rt, frame, d);
        lemma_budget_list(host, es, (n - 1) as nat, rt, frame, d, b);
        lemma_budget_expr(host, es[n - 1], rta, frame, d, b);
    }
}

proof fn lemma_budget_entries<H: NativeHost>(
    host: H,
    es: Seq<(String, Expression)>,
    n: nat,
    rt: RuntimeV,
    frame: usize,
    d: nat,
    b: nat,
)
    requires
        d <= b,
        eval_entries(host, es, n, rt, frame, d).1 is Ok,
    ensures
        eval_entries(host, es, n, rt, frame, b) == eval_entries(host, es, n, rt, frame, d),
    decreases 3 * d + 2, es, n,
{
    if !(n == 0 || n > es.len()) {
        let (rta, ra) = eval_entries(host, es, (n - 1) as nat, rt, frame, d);
        lemma_budget_entries(host, es, (n - 1) as nat, rt, frame, d, b);
        lemma_budget_expr(host, es[n - 1].1, rta, frame, d, b);
    }
}

proof fn lemma_budget_element<H: NativeHost>(
    host: H,
    el: Element,
    rt: RuntimeV,
    frame: usize,
    d: nat,
    b: nat,
)
    requires
        d <= b,
        eval_element(host, el, rt, frame, d).1 is Ok,
    ensures
        eval_element(host, el, rt, frame, b) == eval_element(host, el, rt, frame, d),
    decreases 3 * d + 2, el, 0nat,
{
    let (rta, c) = eval_expr(host, *el.container, rt, frame, d);
    lemma_budget_expr(host, *el.container, rt, frame, d, b);
    lemma_budget_expr(host, *el.index, rta, frame, d, b);
}

proof fn lemma_budget_elem_assign<H: NativeHost>(
    host: H,
    a: ElemAssign,
    rt: RuntimeV,
    frame: usize,
    d: nat,
    b: nat,
)
    requires
        d <= b,
        eval_elem_assign(host, a, rt, frame, d).1 is Ok,
    ensures
        eval_elem_assign(host, a, rt, frame, b) == eval_elem_assign(host, a, rt, frame, d),
    decreases 3 * d + 2, a, 0nat,
{
    let (rta, c) = eval_expr(host, *a.container, rt, frame, d);
    lemma_budget_expr(host, *a.container, rt, frame, d, b);
    let (rtb, i) = eval_expr(host, *a.index, rta, frame, d);
    lemma_budget_expr(host, *a.index, rta, frame, d, b);
    lemma_budget_expr(host, *a.val, rtb, frame, d, b);
}

proof fn lemma_budget_binary<H: NativeHost>(
    host: H,
    op: BinaryOp,
    rt: RuntimeV,
    frame: usize,
    d: nat,
    b: nat,
)
    requires
        d <= b,
        eval_binary(host, op, rt, frame, d).1 is Ok,
    ensures
        eval_binary(host, op, rt, frame, b) == eval_binary(host, op, rt, frame, d),
    decreases 3 * d + 2, op, 0nat,
{
    let func = env_get(rt.env, frame, op.val_index, op.env_index)->Ok_0;
    let (rta, l) = eval_expr(host, *op.left, rt, frame, d);
    lemma_budget_expr(host, *op.left, rt, frame, d, b);
    let (rtb, r) = eval_expr(host, *op.right, rta, frame, d);
    lemma_budget_expr(host, *op.right, rta, frame, d, b);
    lemma_budget_call_value(host, func, seq![l->Ok_0, r->Ok_0], rtb, frame, d, b, op.loc@);
}

proof fn lemma_budget_prefix<H: NativeHost>(
    host: H,
    op: PrefixOp,
    rt: RuntimeV,
    frame: usize,
    d: nat,
    b: nat,
)
    requires
        d <= b,
        eval_prefix(host, op, rt, frame, d).1 is Ok,
    ensures
        eval_prefix(host, op, rt, frame, b) == eval_prefix(host, op, rt, frame, d),
    decreases 3 * d + 2, op, 0nat,
{
    let func = env_get(rt.env, frame, op.val_index, op.env_index)->Ok_0;
    let (rta, a) = eval_expr(host, *op.arg, rt, frame, d);
    lemma_budget_expr(host, *op.arg, rt, frame, d, b);
    lemma_budget_call_value(host, func, seq![a->Ok_0], rta, frame, d, b, op.loc@);
}

proof fn lemma_budget_call<H: NativeHost>(
    host: H,
    f: FuncCall,
    rt: RuntimeV,
    frame: usize,
    d: nat,
    b: nat,
)
    requires
        d <= b,
        eval_call(host, f, rt, frame, d).1 is Ok,
    ensures
        eval_call(host, f, rt, frame, b) == eval_call(host, f, rt, frame, d),
    decreases 3 * d + 2, f, 0nat,
{
    let (rta, c) = eval_expr(host, *f.func, rt, frame, d);
    lemma_budget_expr(host, *f.func, rt, frame, d, b);
    let (rtb, a) = eval_list(host, f.args@, f.args@.len(), rta, frame, d);
    lemma_budget_list(host, f.args@, f.args@.len(), rta, frame, d, b);
    lemma_budget_call_value(host, c->Ok_0, a->Ok_0, rtb, frame, d, b, f.loc@);
}

/// A call that returns a value under the budget `d` returns it under
/// every budget from `d` on.
pub proof fn lemma_budget_call_value<H: NativeHost>(
    host: H,
    func: Value,
    args: Seq<Value>,
    rt: RuntimeV,
    frame: usize,
    d: nat,
    b: nat,
    loc: SrcLocV,
)
    requires
        d <= b,
        call_value(host, func, args, rt, frame, d, loc).1 is Ok,
    ensures
        call_value(host, func, args, rt, frame, b, loc) == call_value(
            host,
            func,
            args,
            rt,
            frame,
            d,
            loc,
        ),
    decreases 3 * d + 1, func, 0nat,
{
    match func {
        Value::ASTClosure(c) => {
            lemma_budget_apply(host, c, args, rt, d, b, loc);
        },
        _ => {},
    }
}

proof fn lemma_budget_apply<H: NativeHost>(
    host: H,
    c: Closure,
    args: Seq<Value>,
    rt: RuntimeV,
    d: nat,
    b: nat,
    loc: SrcLocV,
)
    requires
        d <= b,
        apply(host, c, args, rt, d, loc).1 is Ok,
    ensures
        apply(host, c, args, rt, b, loc) == apply(host, c, args, rt, d, loc),
    decreases 3 * d, c, 0nat,
{
    let (rta, frame) = rt.push_frame(c.env, args);
    lemma_budget_block(
        host,
        *crate::exec::scoping::unshared(c.func).block,
        rta,
        frame,
        (d - 1) as nat,
        (b - 1) as nat,
    );
}

/// A statement that completes under the budget `d` completes in the same
/// way, and leaves the same state, under every budget from `d` on.
pub proof fn lemma_budget_stmt<H: NativeHost>(
    host: H,
    s: Statement,
    rt: RuntimeV,
    frame: usize,
    d: nat,
    b: nat,
)
    requires
        d <= b,
        eval_stmt(host, s, rt, frame, d).1 is Ok,
    ensures
        eval_stmt(host, s, rt, frame, b) == eval_stmt(host, s, rt, frame, d),
    decreases 3 * d + 2, s, 1nat,
{
    match s {
        Statement::If(i) => {
            lemma_budget_if(host, i, rt, frame, d, b);
        },
        Statement::While(w) => {
            lemma_budget_while(host, w, rt, frame, d, b);
        },
        Statement::Return(r) => {
            assert(eval_stmt(host, s, rt, frame, d) == eval_return(host, r, rt, frame, d));
            assert(eval_stmt(host, s, rt, frame, b) == eval_return(host, r, rt, frame, b));
            match r.expr {
                Some(e) => {
                    lemma_budget_expr(host, *e, rt, frame, d, b);
                },
                None => {},
            }
        },
        Statement::Block(blk) => {
            lemma_budget_block(host, blk, rt, frame, d, b);
        },
        Statement::Expression(e) => {
            lemma_budget_expr(host, e, rt, frame, d, b);
        },
        _ => {},
    }
}

proof fn lemma_budget_stmts<H: NativeHost>(
    host: H,
    ss: Seq<Statement>,
    n: nat,
    rt: RuntimeV,
    frame: usize,
    d: nat,
    b: nat,
)
    requires
        d <= b,
        eval_stmts(host, ss, n, rt, frame, d).1 is Ok,
    ensures
        eval_stmts(host, ss, n, rt, frame, b) == eval_stmts(host, ss, n, rt, frame, d),
    decreases 3 * d + 2, ss, n,
{
    if !(n == 0 || n > ss.len()) {
        let (rta, ra) = eval_stmts(host, ss, (n - 1) as nat, rt, frame, d);
        lemma_budget_stmts(host, ss, (n - 1) as nat, rt, frame, d, b);
        match ra {
            Ok(Completion::Normal(_)) => {
                lemma_budget_stmt(host, ss[n - 1], rta, frame, d, b);
            },
            _ => {},
        }
    }
}

proof fn lemma_budget_block<H: NativeHost>(
    host: H,
    blk: Block,
    rt: RuntimeV,
    frame: usize,
    d: nat,
    b: nat,
)
    requires
        d <= b,
        eval_block(host, blk, rt, frame, d).1 is Ok,
    ensures
        eval_block(host, blk, rt, frame, b) == eval_block(host, blk, rt, frame, d),
    decreases 3 * d + 2, blk, 0nat,
{
    if blk.has_var {
        match blk.var_val {
            Some(e) => {
                lemma_budget_expr(host, *e, rt, frame, d, b);
                let (rta, r) = eval_expr(host, *e, rt, frame, d);
                let (rtb, inner) = rta.push_frame(frame, seq![r->Ok_0]);
                lemma_budget_stmts(host, blk.stmts@, blk.stmts@.len(), rtb, inner, d, b);
            },
            None => {
                let (rtb, inner) = rt.push_frame(frame, seq![Value::Null]);
                lemma_budget_stmts(host, blk.stmts@, blk.stmts@.len(), rtb, inner, d, b);
            },
        }
    } else {
        lemma_budget_stmts(host, blk.stmts@, blk.stmts@.len(), rt, frame, d, b);
    }
}

proof fn lemma_budget_if<H: NativeHost>(
    host: H,
    i: IfStatement,
    rt: RuntimeV,
    frame: usize,
    d: nat,
    b: nat,
)
    requires
        d <= b,
        eval_if(host, i, rt, frame, d).1 is Ok,
    ensures
        eval_if(host, i, rt, frame, b) == eval_if(host, i, rt, frame, d),
    decreases 3 * d + 2, i, 0nat,
{
    let (rta, t) = eval_expr(host, *i.test, rt, frame, d);
    lemma_budget_expr(host, *i.test, rt, frame, d, b);
    if truthy(t->Ok_0) {
        lemma_budget_stmt(host, *i.true_stmt, rta, frame, d, b);
    } else {
        match i.false_stmt {
            Some(f) => {
                lemma_budget_stmt(host, *f, rta, frame, d, b);
            },
            None => {},
        }
    }
}

proof fn lemma_budget_while<H: NativeHost>(
    host: H,
    w: WhileStatement,
    rt: RuntimeV,
    frame: usize,
    d: nat,
    b: nat,
)
    requires
        d <= b,
        eval_while(host, w, rt, frame, d).1 is Ok,
    ensures
        eval_while(host, w, rt, frame, b) == eval_while(host, w, rt, frame, d),
    decreases 3 * d + 2, w, 0nat,
{
    let dd = (d - 1) as nat;
    let bb = (b - 1) as nat;
    let (rta, t) = eval_expr(host, *w.test, rt, frame, dd);
    lemma_budget_expr(host, *w.test, rt, frame, dd, bb);
    if truthy(t->Ok_0) {
        let (rtb, c) = eval_stmt(host, *w.stmt, rta, frame, dd);
        lemma_budget_stmt(host, *w.stmt, rta, frame, dd, bb);
        match c {
            Ok(Completion::Normal(_)) => {
                lemma_budget_while(host, w, rtb, frame, dd, bb);
            },
            _ => {},
        }
    }
}

} // verus!
