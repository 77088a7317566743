//! What scope resolution means.
//!
//! Resolution turns a tree whose identifiers are names into a tree whose
//! identifiers are addresses. Two things are said of it here: which error,
//! if any, a tree has, and which tree is the resolution of a tree that has
//! none. Both depend on the scopes in force and on the nesting levels that
//! say whether `break` is allowed.
use vstd::prelude::*;
use crate::ast::expressions::{BinaryOp, Element, Expression, FuncCall, PrefixOp, raw_loc};
use crate::ast::statements::{Block, FuncDef, Statement, VarDecl, WhileStatement};
use crate::ast::analysis::no_state;
use crate::exec::expressions::expr_loc;
use crate::exec::Expression as RExpr;
use crate::exec::Statement as RStmt;
use crate::exec::Block as RBlock;
use crate::exec::FuncDef as RFuncDef;
use crate::parser::errors::ParseErrorV;
use crate::src_loc::SrcLocV;
use crate::sym_tab::{lookup, names_view};

verus! {

/// The scopes in force, the global one first.
pub type Scopes = Seq<Seq<Seq<char>>>;

/// The first of two possible errors.
pub open spec fn first(a: Option<ParseErrorV>, b: Option<ParseErrorV>) -> Option<ParseErrorV> {
    if a is Some {
        a
    } else {
        b
    }
}

/// `before`, then `name` between single quotes.
pub open spec fn quoted(before: Seq<char>, name: Seq<char>) -> Seq<char> {
    before + name + "'"@
}

/// The error of a `break` under the nesting levels `ctx`, if it has one:
/// `break` is allowed where the innermost level allows it.
pub open spec fn break_error(ctx: Seq<bool>, loc: SrcLocV) -> Option<ParseErrorV> {
    if ctx.len() == 0 {
        Some(no_state(loc))
    } else if ctx.last() {
        None
    } else {
        Some(ParseErrorV::at(loc, "'break' not allowed here"@))
    }
}

/// The first error of an expression, in the order in which its parts are
/// resolved.
pub open spec fn expr_error(e: Expression, sym: Scopes, ctx: Seq<bool>) -> Option<ParseErrorV>
    decreases e, 0nat,
{
    match e {
        Expression::Number(_, _) => None,
        Expression::String(_, _) => None,
        Expression::Ident(id, loc) => if lookup(sym, id@) is None {
            Some(ParseErrorV::at(loc@, quoted("name not declared: '"@, id@)))
        } else {
            None
        },
        Expression::Vec(v) => list_error(v.vec@, v.vec@.len(), sym, ctx),
        Expression::Dict(m) => entries_error(m.entries@, m.entries@.len(), sym, ctx),
        Expression::Element(el) => first(
            expr_error(*el.container, sym, ctx),
            expr_error(*el.index, sym, ctx),
        ),
        Expression::BinaryOp(op) => if op.op@ == "="@ {
            assign_error(op, sym, ctx)
        } else if op.op@ == "."@ {
            dot_error(op, sym, ctx)
        } else if lookup(sym, op.op@) is None {
            Some(ParseErrorV::at(op.loc@, quoted("operator doesn't exist: '"@, op.op@)))
        } else {
            first(expr_error(*op.left, sym, ctx), expr_error(*op.right, sym, ctx))
        },
        Expression::PrefixOp(op) => if lookup(sym, op.op@) is None {
            Some(ParseErrorV::at(op.loc@, quoted("operator doesn't exist: '"@, op.op@)))
        } else {
            expr_error(*op.arg, sym, ctx)
        },
        Expression::FuncCall(f) => first(
            expr_error(*f.func, sym, ctx),
            list_error(f.args@, f.args@.len(), sym, ctx),
        ),
        Expression::FuncDef(f) => func_error(*f, sym, ctx),
    }
}

/// The first error among the first `n` expressions of `es`.
pub open spec fn list_error(es: Seq<Expression>, n: nat, sym: Scopes, ctx: Seq<bool>) -> Option<
    ParseErrorV,
>
    decreases es, n,
{
    if n == 0 || n > es.len() {
        None
    } else {
        first(list_error(es, (n - 1) as nat, sym, ctx), expr_error(es[n - 1], sym, ctx))
    }
}

/// The first error among the first `n` entries of a map literal.
pub open spec fn entries_error(
    es: Seq<(String, Expression)>,
    n: nat,
    sym: Scopes,
    ctx: Seq<bool>,
) -> Option<ParseErrorV>
    decreases es, n,
{
    if n == 0 || n > es.len() {
        None
    } else {
        first(entries_error(es, (n - 1) as nat, sym, ctx), expr_error(es[n - 1].1, sym, ctx))
    }
}

/// The first error of the assignment `op.left = op.right`. The target
/// must be an identifier, an element `container[index]` or an attribute
/// `container.name`.
pub open spec fn assign_error(op: BinaryOp, sym: Scopes, ctx: Seq<bool>) -> Option<ParseErrorV>
    decreases op, 0nat,
{
    match *op.left {
        Expression::Ident(id, loc) => if lookup(sym, id@) is None {
            Some(ParseErrorV::at(loc@, quoted("assignment to undeclared variable '"@, id@)))
        } else {
            expr_error(*op.right, sym, ctx)
        },
        Expression::Element(el) => first(
            expr_error(*el.container, sym, ctx),
            first(expr_error(*el.index, sym, ctx), expr_error(*op.right, sym, ctx)),
        ),
        Expression::BinaryOp(dot) => if dot.op@ == "."@ && *dot.right is Ident {
            first(expr_error(*dot.left, sym, ctx), expr_error(*op.right, sym, ctx))
        } else {
            Some(ParseErrorV::at(op.loc@, "assignment to invalid target"@))
        },
        _ => Some(ParseErrorV::at(op.loc@, "assignment to invalid target"@)),
    }
}

/// The first error of the attribute access `op.left . op.right`. What
/// stands after the dot must be an identifier.
pub open spec fn dot_error(op: BinaryOp, sym: Scopes, ctx: Seq<bool>) -> Option<ParseErrorV>
    decreases op, 0nat,
{
    if *op.right is Ident {
        expr_error(*op.left, sym, ctx)
    } else {
        Some(ParseErrorV::at(raw_loc(*op.right)@, "attribute must be an identifier"@))
    }
}

/// The first error of a function: that of its body, in a new scope that
/// holds the parameters and at a new level that does not allow `break`.
pub open spec fn func_error(f: FuncDef, sym: Scopes, ctx: Seq<bool>) -> Option<ParseErrorV>
    decreases f, 0nat,
{
    stmts_error(f.block.stmts@, 0, sym.push(names_view(f.params@)), ctx.push(false))
}

/// The first error of a statement.
pub open spec fn stmt_error(s: Statement, sym: Scopes, ctx: Seq<bool>) -> Option<ParseErrorV>
    decreases s, 0nat,
{
    match s {
        Statement::Empty => None,
        Statement::VarDecl(d) => Some(
            ParseErrorV::at(d.loc@, "internal error: trying to parse variable declaration"@),
        ),
        Statement::Expression(e) => expr_error(e, sym, ctx),
        Statement::Block(b) => stmts_error(b.stmts@, 0, sym, ctx),
        Statement::If(i) => first(
            expr_error(*i.test, sym, ctx),
            first(
                stmt_error(*i.true_stmt, sym, ctx),
                match i.false_stmt {
                    Some(f) => stmt_error(*f, sym, ctx),
                    None => None,
                },
            ),
        ),
        Statement::While(w) => first(
            expr_error(*w.test, sym, ctx),
            stmt_error(*w.stmt, sym, ctx.push(true)),
        ),
        Statement::Return(r) => match r.expr {
            Some(e) => expr_error(*e, sym, ctx),
            None => None,
        },
        Statement::Break(l) => break_error(ctx, l@),
    }
}

/// The first error of the statements of a block from the `i`-th on. A
/// declaration opens a scope of one name for the statements after it; its
/// initializer is resolved outside that scope.
pub open spec fn stmts_error(ss: Seq<Statement>, i: nat, sym: Scopes, ctx: Seq<bool>) -> Option<
    ParseErrorV,
>
    decreases ss, ss.len() - i,
{
    if i >= ss.len() {
        None
    } else {
        match ss[i as int] {
            Statement::VarDecl(d) => first(
                match d.val {
                    Some(e) => expr_error(*e, sym, ctx),
                    None => None,
                },
                stmts_error(ss, i + 1, sym.push(seq![d.var@]), ctx),
            ),
            s => first(stmt_error(s, sym, ctx), stmts_error(ss, i + 1, sym, ctx)),
        }
    }
}

/// Whether `out` is the resolution of `e`.
pub open spec fn resolved_expr(e: Expression, sym: Scopes, ctx: Seq<bool>, out: RExpr) -> bool
    decreases e, 0nat,
{
    match e {
        Expression::Number(n, loc) => out == RExpr::Number(n, loc),
        Expression::String(s, loc) => out == RExpr::String(s, loc),
        Expression::Ident(id, loc) => out matches RExpr::Variable(vi, ei, l) && l == loc && lookup(
            sym,
            id@,
        ) == Some((vi as nat, ei as nat)),
        Expression::Vec(v) => out matches RExpr::Vec(o) && o.loc == v.loc && resolved_list(
            v.vec@,
            sym,
            ctx,
            o.vec@,
        ),
        Expression::Dict(m) => out matches RExpr::Dict(o) && o.loc == m.loc && resolved_entries(
            m.entries@,
            sym,
            ctx,
            o.entries@,
        ),
        Expression::Element(el) => out matches RExpr::Element(o) && o.loc == el.loc
            && resolved_expr(*el.container, sym, ctx, *o.container) && resolved_expr(
            *el.index,
            sym,
            ctx,
            *o.index,
        ),
        Expression::BinaryOp(op) => if op.op@ == "="@ {
            resolved_assign(op, sym, ctx, out)
        } else if op.op@ == "."@ {
            resolved_dot(op, sym, ctx, out)
        } else {
            out matches RExpr::BinaryOp(o) && lookup(sym, op.op@) == Some(
                (o.val_index as nat, o.env_index as nat),
            ) && o.loc == op.loc && resolved_expr(*op.left, sym, ctx, *o.left) && resolved_expr(
                *op.right,
                sym,
                ctx,
                *o.right,
            )
        },
        Expression::PrefixOp(op) => out matches RExpr::PrefixOp(o) && lookup(sym, op.op@) == Some(
            (o.val_index as nat, o.env_index as nat),
        ) && o.loc == op.loc && resolved_expr(*op.arg, sym, ctx, *o.arg),
        Expression::FuncCall(f) => out matches RExpr::FuncCall(o) && o.loc == expr_loc(*o.func)
            && resolved_expr(*f.func, sym, ctx, *o.func) && resolved_list(
            f.args@,
            sym,
            ctx,
            o.args@,
        ),
        Expression::FuncDef(f) => out matches RExpr::FuncDef(o) && resolved_func(*f, sym, ctx, *o),
    }
}

/// Whether `outs` are the resolutions of `es`, one for one.
pub open spec fn resolved_list(es: Seq<Expression>, sym: Scopes, ctx: Seq<bool>, outs: Seq<RExpr>)
    -> bool
    decreases es, 0nat,
{
    outs.len() == es.len() && forall|i: int|
        0 <= i < es.len() ==> resolved_expr(#[trigger] es[i], sym, ctx, outs[i])
}

/// Whether `outs` are the entries `es` with their values resolved.
pub open spec fn resolved_entries(
    es: Seq<(String, Expression)>,
    sym: Scopes,
    ctx: Seq<bool>,
    outs: Seq<(String, RExpr)>,
) -> bool
    decreases es, 0nat,
{
    outs.len() == es.len() && forall|i: int|
        0 <= i < es.len() ==> outs[i].0 == (#[trigger] es[i]).0 && resolved_expr(
            es[i].1,
            sym,
            ctx,
            outs[i].1,
        )
}

/// Whether `out` is the resolution of the assignment `op.left = op.right`:
/// an assignment to a variable, or to an element of a container. An
/// attribute `container.name` is the element of `container` at the string
/// `name`.
pub open spec fn resolved_assign(op: BinaryOp, sym: Scopes, ctx: Seq<bool>, out: RExpr) -> bool
    decreases op, 0nat,
{
    match *op.left {
        Expression::Ident(id, loc) => out matches RExpr::VarAssign(a) && lookup(sym, id@) == Some(
            (a.var_index as nat, a.env_index as nat),
        ) && a.loc == op.loc && resolved_expr(*op.right, sym, ctx, *a.val),
        Expression::Element(el) => out matches RExpr::ElemAssign(a) && a.loc == op.loc
            && resolved_expr(*el.container, sym, ctx, *a.container) && resolved_expr(
            *el.index,
            sym,
            ctx,
            *a.index,
        ) && resolved_expr(*op.right, sym, ctx, *a.val),
        Expression::BinaryOp(dot) => dot.op@ == "."@ && (*dot.right matches Expression::Ident(
            name,
            name_loc,
        ) && out matches RExpr::ElemAssign(a) && a.loc == op.loc && resolved_expr(
            *dot.left,
            sym,
            ctx,
            *a.container,
        ) && *a.index == RExpr::String(name, name_loc) && resolved_expr(
            *op.right,
            sym,
            ctx,
            *a.val,
        )),
        _ => false,
    }
}

/// Whether `out` is the resolution of the attribute access
/// `op.left . op.right`: the element of `op.left` at the string that is
/// the name after the dot.
pub open spec fn resolved_dot(op: BinaryOp, sym: Scopes, ctx: Seq<bool>, out: RExpr) -> bool
    decreases op, 0nat,
{
    *op.right matches Expression::Ident(name, name_loc) && out matches RExpr::Element(o) && o.loc
        == op.loc && resolved_expr(*op.left, sym, ctx, *o.container) && *o.index == RExpr::String(
        name,
        name_loc,
    )
}

/// Whether `out` is the resolution of the function `f`.
pub open spec fn resolved_func(f: FuncDef, sym: Scopes, ctx: Seq<bool>, out: RFuncDef) -> bool
    decreases f, 0nat,
{
    out.loc == f.loc && out.num_params == f.params@.len() && resolved_block(
        *f.block,
        sym.push(names_view(f.params@)),
        ctx.push(false),
        *out.block,
    )
}

/// Whether `out` is the resolution of the block `b`: a block that declares
/// nothing and holds the resolved statements.
pub open spec fn resolved_block(b: Block, sym: Scopes, ctx: Seq<bool>, out: RBlock) -> bool
    decreases b, 0nat,
{
    !out.has_var && out.var_val is None && out.loc == b.loc && resolved_stmts(
        b.stmts@,
        0,
        sym,
        ctx,
        out.stmts@,
        0,
    )
}

/// Whether `out` is the resolution of the statement `s`.
pub open spec fn resolved_stmt(s: Statement, sym: Scopes, ctx: Seq<bool>, out: RStmt) -> bool
    decreases s, 0nat,
{
    match s {
        Statement::Empty => out is Empty,
        Statement::VarDecl(_) => false,
        Statement::Expression(e) => out matches RStmt::Expression(o) && resolved_expr(
            e,
            sym,
            ctx,
            o,
        ),
        Statement::Block(b) => out matches RStmt::Block(o) && resolved_block(b, sym, ctx, o),
        Statement::If(i) => out matches RStmt::If(o) && o.loc == i.loc && resolved_expr(
            *i.test,
            sym,
            ctx,
            *o.test,
        ) && resolved_stmt(*i.true_stmt, sym, ctx, *o.true_stmt) && match i.false_stmt {
            Some(f) => o.false_stmt matches Some(of) && resolved_stmt(*f, sym, ctx, *of),
            None => o.false_stmt is None,
        },
        Statement::While(w) => out matches RStmt::While(o) && o.loc == w.loc && resolved_expr(
            *w.test,
            sym,
            ctx,
            *o.test,
        ) && resolved_stmt(*w.stmt, sym, ctx.push(true), *o.stmt),
        Statement::Return(r) => out matches RStmt::Return(o) && o.loc == r.loc && match r.expr {
            Some(e) => o.expr matches Some(oe) && resolved_expr(*e, sym, ctx, *oe),
            None => o.expr is None,
        },
        Statement::Break(l) => out == RStmt::Break(l),
    }
}

/// Whether the statements of `outs` from the `j`-th on are the resolution
/// of the statements of `ss` from the `i`-th on.
///
/// A statement that is no declaration resolves to one statement. A
/// declaration resolves to a block that declares one variable and holds
/// the resolution of all statements after the declaration, resolved in a
/// new scope that holds the declared name; that block is the last of
/// `outs`.
pub open spec fn resolved_stmts(
    ss: Seq<Statement>,
    i: nat,
    sym: Scopes,
    ctx: Seq<bool>,
    outs: Seq<RStmt>,
    j: nat,
) -> bool
    decreases ss, ss.len() - i,
{
    if i >= ss.len() {
        j == outs.len()
    } else {
        match ss[i as int] {
            Statement::VarDecl(d) => j + 1 == outs.len() && (outs[j as int] matches RStmt::Block(
                b,
            ) && b.has_var && b.loc == d.loc && match d.val {
                Some(e) => b.var_val matches Some(oe) && resolved_expr(*e, sym, ctx, *oe),
                None => b.var_val is None,
            } && resolved_stmts(ss, i + 1, sym.push(seq![d.var@]), ctx, b.stmts@, 0)),
            s => j < outs.len() && resolved_stmt(s, sym, ctx, outs[j as int]) && resolved_stmts(
                ss,
                i + 1,
                sym,
                ctx,
                outs,
                j + 1,
            ),
        }
    }
}

/// Whether `r` is what resolving `e` gives: the resolution of `e` where `e`
/// has no error, and the first error of `e` where it has one.
pub open spec fn expr_outcome(
    e: Expression,
    sym: Scopes,
    ctx: Seq<bool>,
    r: Result<RExpr, crate::parser::ParseError>,
) -> bool {
    match r {
        Ok(out) => expr_error(e, sym, ctx) is None && resolved_expr(e, sym, ctx, out),
        Err(err) => expr_error(e, sym, ctx) == Some(err@),
    }
}

/// Whether `r` is what resolving `s` gives.
pub open spec fn stmt_outcome(
    s: Statement,
    sym: Scopes,
    ctx: Seq<bool>,
    r: Result<RStmt, crate::parser::ParseError>,
) -> bool {
    match r {
        Ok(out) => stmt_error(s, sym, ctx) is None && resolved_stmt(s, sym, ctx, out),
        Err(err) => stmt_error(s, sym, ctx) == Some(err@),
    }
}

/// Whether `r` is what resolving the function `f` gives.
pub open spec fn func_outcome(
    f: FuncDef,
    sym: Scopes,
    ctx: Seq<bool>,
    r: Result<RFuncDef, crate::parser::ParseError>,
) -> bool {
    match r {
        Ok(out) => func_error(f, sym, ctx) is None && resolved_func(f, sym, ctx, out),
        Err(err) => func_error(f, sym, ctx) == Some(err@),
    }
}

/// An error among the first `n` expressions of a list is the first error
/// of any longer part of the list.
pub proof fn lemma_list_error_stays(
    es: Seq<Expression>,
    n: nat,
    m: nat,
    sym: Scopes,
    ctx: Seq<bool>,
)
    requires
        n <= m <= es.len(),
        list_error(es, n, sym, ctx) is Some,
    ensures
        list_error(es, m, sym, ctx) == list_error(es, n, sym, ctx),
    decreases m,
{
    if n < m {
        lemma_list_error_stays(es, n, (m - 1) as nat, sym, ctx);
    }
}

/// An error among the first `n` entries of a map literal is the first error
/// of any longer part of the entries.
pub proof fn lemma_entries_error_stays(
    es: Seq<(String, Expression)>,
    n: nat,
    m: nat,
    sym: Scopes,
    ctx: Seq<bool>,
)
    requires
        n <= m <= es.len(),
        entries_error(es, n, sym, ctx) is Some,
    ensures
        entries_error(es, m, sym, ctx) == entries_error(es, n, sym, ctx),
    decreases m,
{
    if n < m {
        lemma_entries_error_stays(es, n, (m - 1) as nat, sym, ctx);
    }
}

/// Statements that are no declarations resolve one by one: where those
/// from `start` up to `i` resolve to the first statements of `outs`, and
/// the rest of `outs` is the resolution of the statements from `i` on,
/// `outs` is the resolution of the statements from `start` on.
pub proof fn lemma_prefix_resolved(
    ss: Seq<Statement>,
    start: nat,
    i: nat,
    sym: Scopes,
    ctx: Seq<bool>,
    outs: Seq<RStmt>,
)
    requires
        start <= i <= ss.len(),
        forall|t: int|
            start <= t < i ==> !(#[trigger] ss[t] is VarDecl) && t - start < outs.len()
                && resolved_stmt(ss[t], sym, ctx, outs[t - start]),
        resolved_stmts(ss, i, sym, ctx, outs, (i - start) as nat),
    ensures
        resolved_stmts(ss, start, sym, ctx, outs, 0),
    decreases i - start,
{
    if start < i {
        let t = i - 1;
        assert(!(ss[t] is VarDecl));
        assert(resolved_stmt(ss[t], sym, ctx, outs[t - start]));
        assert(resolved_stmts(ss, (i - 1) as nat, sym, ctx, outs, (i - 1 - start) as nat));
        lemma_prefix_resolved(ss, start, (i - 1) as nat, sym, ctx, outs);
    }
}

/// `break` is an error at a level that does not allow it, and no error at
/// one that does.
pub proof fn lemma_break_needs_loop(l: crate::src_loc::SrcLoc, sym: Scopes, ctx: Seq<bool>)
    requires
        ctx.len() > 0,
    ensures
        !ctx.last() ==> stmt_error(Statement::Break(l), sym, ctx) == Some(
            ParseErrorV::at(l@, "'break' not allowed here"@),
        ),
        ctx.last() ==> stmt_error(Statement::Break(l), sym, ctx) is None,
{
}

/// The body of a `while` is resolved at a level that allows `break`, and
/// the body of a function at a level that does not, whatever the level
/// around them.
pub proof fn lemma_break_levels(w: WhileStatement, f: FuncDef, sym: Scopes, ctx: Seq<bool>)
    ensures
        stmt_error(Statement::While(w), sym, ctx) == first(
            expr_error(*w.test, sym, ctx),
            stmt_error(*w.stmt, sym, ctx.push(true)),
        ),
        ctx.push(true).last(),
        func_error(f, sym, ctx) == stmts_error(
            f.block.stmts@,
            0,
            sym.push(names_view(f.params@)),
            ctx.push(false),
        ),
        !ctx.push(false).last(),
{
}

/// Whether a `break` stands in `s` outside of every `while` of `s` and
/// outside of every function literal of `s`.
pub open spec fn has_stray_break(s: Statement) -> bool
    decreases s, 0nat,
{
    match s {
        Statement::Break(_) => true,
        Statement::Block(b) => stray_break_from(b.stmts@, 0),
        Statement::If(i) => has_stray_break(*i.true_stmt) || match i.false_stmt {
            Some(f) => has_stray_break(*f),
            None => false,
        },
        _ => false,
    }
}

/// Whether one of the statements of `ss` from the `i`-th on has a stray
/// `break`.
pub open spec fn stray_break_from(ss: Seq<Statement>, i: nat) -> bool
    decreases ss, ss.len() - i,
{
    if i >= ss.len() {
        false
    } else {
        has_stray_break(ss[i as int]) || stray_break_from(ss, i + 1)
    }
}

/// A statement with a `break` that stands in no loop does not resolve at
/// a level that does not allow `break`.
pub proof fn lemma_stray_break_fails(s: Statement, sym: Scopes, ctx: Seq<bool>)
    requires
        has_stray_break(s),
        ctx.len() > 0,
        !ctx.last(),
    ensures
        stmt_error(s, sym, ctx) is Some,
    decreases s, 0nat,
{
    match s {
        Statement::Block(b) => {
            lemma_stray_break_among(b.stmts@, 0, sym, ctx);
        },
        Statement::If(i) => {
            if has_stray_break(*i.true_stmt) {
                lemma_stray_break_fails(*i.true_stmt, sym, ctx);
            } else {
                lemma_stray_break_fails(*i.false_stmt->Some_0, sym, ctx);
            }
        },
        _ => {},
    }
}

/// Statements of which one has a `break` that stands in no loop do not
/// resolve at a level that does not allow `break`, whatever the scopes.
pub proof fn lemma_stray_break_among(ss: Seq<Statement>, i: nat, sym: Scopes, ctx: Seq<bool>)
    requires
        stray_break_from(ss, i),
        ctx.len() > 0,
        !ctx.last(),
    ensures
        stmts_error(ss, i, sym, ctx) is Some,
    decreases ss, ss.len() - i,
{
    if i < ss.len() {
        match ss[i as int] {
            Statement::VarDecl(d) => {
                assert(!has_stray_break(ss[i as int]));
                lemma_stray_break_among(ss, i + 1, sym.push(seq![d.var@]), ctx);
            },
            s => {
                if has_stray_break(s) {
                    lemma_stray_break_fails(s, sym, ctx);
                } else {
                    lemma_stray_break_among(ss, i + 1, sym, ctx);
                }
            },
        }
    }
}

/// A function whose body has a `break` that stands in no loop of the
/// body does not resolve, wherever the function itself stands: the level of
/// the body never allows `break`.
pub proof fn lemma_stray_break_in_function(f: FuncDef, sym: Scopes, ctx: Seq<bool>)
    requires
        stray_break_from(f.block.stmts@, 0),
    ensures
        func_error(f, sym, ctx) is Some,
{
    lemma_stray_break_among(
        f.block.stmts@,
        0,
        sym.push(names_view(f.params@)),
        ctx.push(false),
    );
}

} // verus!
