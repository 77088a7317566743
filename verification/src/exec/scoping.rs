//! Addresses and the frames they are used in.
//!
//! A shape gives, for the current frame and each of its ancestors, the
//! number of slots that the frame has at least, the current frame first. A
//! resolved tree is well scoped for a shape when every address in it names
//! a slot of the shape. The resolver makes only such trees, and such an
//! address names a slot in every environment that has the shape.
use vstd::prelude::*;
use crate::ast::resolve::{
    Scopes, resolved_assign, resolved_block, resolved_dot, resolved_entries, resolved_expr,
    resolved_func, resolved_list, resolved_stmt, resolved_stmts,
};
use crate::ast;
use crate::env::{FrameV, locate};
use crate::exec::expressions::{Expression, FuncDef};
use crate::exec::statements::{Block, Statement};
use crate::sym_tab::{lemma_lookup_in_range, lookup, names_view};

verus! {

/// What a shared pointer points to.
pub open spec fn unshared<T>(r: std::rc::Rc<T>) -> T {
    *r
}

/// Whether the address `(slot, depth)` names a slot of `shape`.
pub open spec fn addr_ok(slot: usize, depth: usize, shape: Seq<nat>) -> bool {
    depth < shape.len() && slot < shape[depth as int]
}

/// Whether every address in `e` names a slot of `shape`. The body of a
/// function literal runs in a frame that holds the parameters.
pub open spec fn well_scoped_expr(e: Expression, shape: Seq<nat>) -> bool
    decreases e, 0nat,
{
    match e {
        Expression::Number(_, _) => true,
        Expression::String(_, _) => true,
        Expression::Variable(vi, ei, _) => addr_ok(vi, ei, shape),
        Expression::Vec(v) => well_scoped_list(v.vec@, shape),
        Expression::Dict(m) => forall|i: int|
            0 <= i < m.entries@.len() ==> well_scoped_expr((#[trigger] m.entries@[i]).1, shape),
        Expression::Element(el) => well_scoped_expr(*el.container, shape) && well_scoped_expr(
            *el.index,
            shape,
        ),
        Expression::VarAssign(a) => addr_ok(a.var_index, a.env_index, shape) && well_scoped_expr(
            *a.val,
            shape,
        ),
        Expression::ElemAssign(a) => well_scoped_expr(*a.container, shape) && well_scoped_expr(
            *a.index,
            shape,
        ) && well_scoped_expr(*a.val, shape),
        Expression::BinaryOp(op) => addr_ok(op.val_index, op.env_index, shape) && well_scoped_expr(
            *op.left,
            shape,
        ) && well_scoped_expr(*op.right, shape),
        Expression::PrefixOp(op) => addr_ok(op.val_index, op.env_index, shape) && well_scoped_expr(
            *op.arg,
            shape,
        ),
        Expression::FuncCall(f) => well_scoped_expr(*f.func, shape) && well_scoped_list(
            f.args@,
            shape,
        ),
        Expression::FuncDef(f) => well_scoped_func(*f, shape),
    }
}

/// Whether every expression of `es` is well scoped for `shape`.
pub open spec fn well_scoped_list(es: Seq<Expression>, shape: Seq<nat>) -> bool
    decreases es, 0nat,
{
    forall|i: int| 0 <= i < es.len() ==> well_scoped_expr(#[trigger] es[i], shape)
}

/// Whether the body of `f` is well scoped in a frame that holds the
/// parameters, under the frames of `shape`.
pub open spec fn well_scoped_func(f: FuncDef, shape: Seq<nat>) -> bool
    decreases f, 0nat,
{
    well_scoped_block(*f.block, seq![f.num_params as nat] + shape)
}

/// Whether every address in `b` names a slot. The statements of a block
/// that declares a variable run in a frame of one slot.
pub open spec fn well_scoped_block(b: Block, shape: Seq<nat>) -> bool
    decreases b, 0nat,
{
    if b.has_var {
        (match b.var_val {
            Some(e) => well_scoped_expr(*e, shape),
            None => true,
        }) && well_scoped_stmts(b.stmts@, seq![1nat] + shape)
    } else {
        well_scoped_stmts(b.stmts@, shape)
    }
}

/// Whether every statement of `ss` is well scoped for `shape`.
pub open spec fn well_scoped_stmts(ss: Seq<Statement>, shape: Seq<nat>) -> bool
    decreases ss, 0nat,
{
    forall|i: int| 0 <= i < ss.len() ==> well_scoped_stmt(#[trigger] ss[i], shape)
}

/// Whether every address in `s` names a slot of `shape`.
pub open spec fn well_scoped_stmt(s: Statement, shape: Seq<nat>) -> bool
    decreases s, 0nat,
{
    match s {
        Statement::Empty => true,
        Statement::If(i) => well_scoped_expr(*i.test, shape) && well_scoped_stmt(
            *i.true_stmt,
            shape,
        ) && match i.false_stmt {
            Some(f) => well_scoped_stmt(*f, shape),
            None => true,
        },
        Statement::While(w) => well_scoped_expr(*w.test, shape) && well_scoped_stmt(
            *w.stmt,
            shape,
        ),
        Statement::Break(_) => true,
        Statement::Return(r) => match r.expr {
            Some(e) => well_scoped_expr(*e, shape),
            None => true,
        },
        Statement::Block(b) => well_scoped_block(b, shape),
        Statement::Expression(e) => well_scoped_expr(e, shape),
    }
}

/// The shape of the scopes `sym`: the number of names of each scope, the
/// innermost first.
pub open spec fn shape_of(sym: Scopes) -> Seq<nat> {
    Seq::new(sym.len(), |i: int| sym[sym.len() - 1 - i].len())
}

/// An address that a lookup finds names a slot of the shape of the
/// scopes.
pub proof fn lemma_lookup_addr_ok(sym: Scopes, name: Seq<char>, slot: usize, depth: usize)
    requires
        lookup(sym, name) == Some((slot as nat, depth as nat)),
    ensures
        addr_ok(slot, depth, shape_of(sym)),
{
    lemma_lookup_in_range(sym, name, sym.len());
}

proof fn lemma_shape_push(sym: Scopes, names: Seq<Seq<char>>)
    ensures
        shape_of(sym.push(names)) == seq![names.len()] + shape_of(sym),
{
    assert(shape_of(sym.push(names)) =~= seq![names.len()] + shape_of(sym));
}

/// The resolution of an expression is well scoped for the shape of the
/// scopes that it was resolved in.
pub proof fn lemma_resolved_expr_scoped(
    e: ast::Expression,
    sym: Scopes,
    ctx: Seq<bool>,
    out: Expression,
)
    requires
        resolved_expr(e, sym, ctx, out),
    ensures
        well_scoped_expr(out, shape_of(sym)),
    decreases e, 1nat,
{
    let shape = shape_of(sym);
    match e {
        ast::Expression::Number(_, _) => {},
        ast::Expression::String(_, _) => {},
        ast::Expression::Ident(id, _) => {
            lemma_lookup_addr_ok(sym, id@, out->Variable_0, out->Variable_1);
        },
        ast::Expression::Vec(v) => {
            let o = out->Vec_0;
            lemma_resolved_list_scoped(v.vec@, sym, ctx, o.vec@);
        },
        ast::Expression::Dict(m) => {
            let o = out->Dict_0;
            assert(resolved_entries(m.entries@, sym, ctx, o.entries@));
            assert forall|i: int| 0 <= i < o.entries@.len() implies well_scoped_expr(
                (#[trigger] o.entries@[i]).1,
                shape,
            ) by {
                assert(resolved_expr(m.entries@[i].1, sym, ctx, o.entries@[i].1));
                lemma_resolved_expr_scoped(m.entries@[i].1, sym, ctx, o.entries@[i].1);
            }
        },
        ast::Expression::Element(el) => {
            let o = out->Element_0;
            lemma_resolved_expr_scoped(*el.container, sym, ctx, *o.container);
            lemma_resolved_expr_scoped(*el.index, sym, ctx, *o.index);
        },
        ast::Expression::BinaryOp(op) => {
            if op.op@ == "="@ {
                assert(resolved_assign(op, sym, ctx, out));
                match *op.left {
                    ast::Expression::Ident(id, _) => {
                        let a = out->VarAssign_0;
                        lemma_lookup_addr_ok(sym, id@, a.var_index, a.env_index);
                        lemma_resolved_expr_scoped(*op.right, sym, ctx, *a.val);
                    },
                    ast::Expression::Element(el) => {
                        let a = out->ElemAssign_0;
                        lemma_resolved_expr_scoped(*el.container, sym, ctx, *a.container);
                        lemma_resolved_expr_scoped(*el.index, sym, ctx, *a.index);
                        lemma_resolved_expr_scoped(*op.right, sym, ctx, *a.val);
                    },
                    ast::Expression::BinaryOp(dot) => {
                        let a = out->ElemAssign_0;
                        lemma_resolved_expr_scoped(*dot.left, sym, ctx, *a.container);
                        lemma_resolved_expr_scoped(*op.right, sym, ctx, *a.val);
                        assert(well_scoped_expr(*a.index, shape));
                    },
                    _ => {},
                }
            } else if op.op@ == "."@ {
                assert(resolved_dot(op, sym, ctx, out));
                let o = out->Element_0;
                lemma_resolved_expr_scoped(*op.left, sym, ctx, *o.container);
                assert(well_scoped_expr(*o.index, shape));
            } else {
                let o = out->BinaryOp_0;
                lemma_lookup_addr_ok(sym, op.op@, o.val_index, o.env_index);
                lemma_resolved_expr_scoped(*op.left, sym, ctx, *o.left);
                lemma_resolved_expr_scoped(*op.right, sym, ctx, *o.right);
            }
        },
        ast::Expression::PrefixOp(op) => {
            let o = out->PrefixOp_0;
            lemma_lookup_addr_ok(sym, op.op@, o.val_index, o.env_index);
            lemma_resolved_expr_scoped(*op.arg, sym, ctx, *o.arg);
        },
        ast::Expression::FuncCall(f) => {
            let o = out->FuncCall_0;
            lemma_resolved_expr_scoped(*f.func, sym, ctx, *o.func);
            lemma_resolved_list_scoped(f.args@, sym, ctx, o.args@);
        },
        ast::Expression::FuncDef(f) => {
            let o = out->FuncDef_0;
            lemma_resolved_func_scoped(unshared(f), sym, ctx, unshared(o));
        },
    }
}

/// The resolutions of the expressions of a list are well scoped.
pub proof fn lemma_resolved_list_scoped(
    es: Seq<ast::Expression>,
    sym: Scopes,
    ctx: Seq<bool>,
    outs: Seq<Expression>,
)
    requires
        resolved_list(es, sym, ctx, outs),
    ensures
        well_scoped_list(outs, shape_of(sym)),
    decreases es, 0nat,
{
    assert forall|i: int| 0 <= i < outs.len() implies well_scoped_expr(
        #[trigger] outs[i],
        shape_of(sym),
    ) by {
        assert(resolved_expr(es[i], sym, ctx, outs[i]));
        lemma_resolved_expr_scoped(es[i], sym, ctx, outs[i]);
    }
}

/// The resolution of a function is well scoped for the shape of the
/// scopes that the function was resolved in.
pub proof fn lemma_resolved_func_scoped(f: ast::FuncDef, sym: Scopes, ctx: Seq<bool>, out: FuncDef)
    requires
        resolved_func(f, sym, ctx, out),
    ensures
        well_scoped_func(out, shape_of(sym)),
    decreases f, 0nat,
{
    let inner = sym.push(names_view(f.params@));
    assert(f.params.len() == f.params@.len());
    lemma_shape_push(sym, names_view(f.params@));
    assert(resolved_block(*f.block, inner, ctx.push(false), *out.block));
    lemma_resolved_stmts_scoped(
        f.block.stmts@,
        0,
        inner,
        ctx.push(false),
        out.block.stmts@,
        0,
    );
    assert(well_scoped_stmts(out.block.stmts@, shape_of(inner)));
}

/// The resolution of a statement is well scoped.
pub proof fn lemma_resolved_stmt_scoped(
    s: ast::Statement,
    sym: Scopes,
    ctx: Seq<bool>,
    out: Statement,
)
    requires
        resolved_stmt(s, sym, ctx, out),
    ensures
        well_scoped_stmt(out, shape_of(sym)),
    decreases s, 0nat,
{
    match s {
        ast::Statement::Empty => {},
        ast::Statement::VarDecl(_) => {},
        ast::Statement::Expression(e) => {
            lemma_resolved_expr_scoped(e, sym, ctx, out->Expression_0);
        },
        ast::Statement::Block(b) => {
            let o = out->Block_0;
            assert(resolved_block(b, sym, ctx, o));
            lemma_resolved_stmts_scoped(b.stmts@, 0, sym, ctx, o.stmts@, 0);
            assert(well_scoped_stmts(o.stmts@, shape_of(sym)));
            assert(well_scoped_block(o, shape_of(sym)));
        },
        ast::Statement::If(i) => {
            let o = out->If_0;
            lemma_resolved_expr_scoped(*i.test, sym, ctx, *o.test);
            lemma_resolved_stmt_scoped(*i.true_stmt, sym, ctx, *o.true_stmt);
            match i.false_stmt {
                Some(f) => {
                    lemma_resolved_stmt_scoped(*f, sym, ctx, *o.false_stmt->Some_0);
                },
                None => {},
            }
        },
        ast::Statement::While(w) => {
            let o = out->While_0;
            lemma_resolved_expr_scoped(*w.test, sym, ctx, *o.test);
            lemma_resolved_stmt_scoped(*w.stmt, sym, ctx.push(true), *o.stmt);
        },
        ast::Statement::Return(r) => {
            let o = out->Return_0;
            match r.expr {
                Some(e) => {
                    lemma_resolved_expr_scoped(*e, sym, ctx, *o.expr->Some_0);
                },
                None => {},
            }
        },
        ast::Statement::Break(_) => {},
    }
}

/// The resolutions of the statements of a block are well scoped: those
/// after a declaration for the shape with the frame of the declared
/// variable.
pub proof fn lemma_resolved_stmts_scoped(
    ss: Seq<ast::Statement>,
    i: nat,
    sym: Scopes,
    ctx: Seq<bool>,
    outs: Seq<Statement>,
    j: nat,
)
    requires
        resolved_stmts(ss, i, sym, ctx, outs, j),
    ensures
        forall|k: int| j <= k < outs.len() ==> well_scoped_stmt(#[trigger] outs[k], shape_of(sym)),
    decreases ss, ss.len() - i,
{
    if i < ss.len() {
        match ss[i as int] {
            ast::Statement::VarDecl(d) => {
                let b = outs[j as int]->Block_0;
                let inner = sym.push(seq![d.var@]);
                lemma_shape_push(sym, seq![d.var@]);
                match d.val {
                    Some(e) => {
                        lemma_resolved_expr_scoped(*e, sym, ctx, *b.var_val->Some_0);
                    },
                    None => {},
                }
                lemma_resolved_stmts_scoped(ss, i + 1, inner, ctx, b.stmts@, 0);
                assert(well_scoped_stmts(b.stmts@, shape_of(inner)));
                assert(well_scoped_block(b, shape_of(sym)));
            },
            s => {
                lemma_resolved_stmt_scoped(s, sym, ctx, outs[j as int]);
                lemma_resolved_stmts_scoped(ss, i + 1, sym, ctx, outs, j + 1);
            },
        }
    }
}

/// Whether the frame `frame` of `env` and its ancestors have the frames of
/// `shape`: each exists and has at least as many slots as the shape says.
pub open spec fn has_shape(env: Seq<FrameV>, frame: usize, shape: Seq<nat>) -> bool
    decreases shape.len(),
{
    if shape.len() == 0 {
        true
    } else {
        frame < env.len() && env[frame as int].vals.len() >= shape[0] && (shape.len() > 1
            ==> (env[frame as int].parent matches Some(p) && has_shape(
            env,
            p,
            shape.subrange(1, shape.len() as int),
        )))
    }
}

/// An address that names a slot of a shape names a slot in every
/// environment that has the shape.
pub proof fn lemma_addr_names_slot(
    env: Seq<FrameV>,
    frame: usize,
    shape: Seq<nat>,
    slot: usize,
    depth: usize,
)
    requires
        has_shape(env, frame, shape),
        addr_ok(slot, depth, shape),
    ensures
        locate(env, frame, slot, depth) is Ok,
    decreases depth,
{
    if depth > 0 {
        let p = env[frame as int].parent->Some_0;
        let rest = shape.subrange(1, shape.len() as int);
        assert(rest[depth - 1] == shape[depth as int]);
        lemma_addr_names_slot(env, p, rest, slot, (depth - 1) as usize);
    }
}

} // verus!
