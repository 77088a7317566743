//! Where `break` may stand, as the compiler sees it.
//!
//! The compiler keeps the loops that are open in the program. Compiling
//! an expression, or a statement that compiles, leaves as many loops open
//! as there were. So a `break` that stands in no loop of a function is
//! compiled with no loop open, and the function does not compile.
use vstd::prelude::*;
use crate::ast::codegen::{
    compile_assign, compile_binary, compile_dot, compile_expr, compile_func, compile_list, compile_prefix,
    compile_stmt, compile_stmts, push_literal,
};
use crate::ast::expressions::{BinaryOp, Expression, PrefixOp};
use crate::ast::resolve::{Scopes, has_stray_break, stray_break_from};
use crate::ast::statements::{FuncDef, Statement};
use crate::bytecode::gen::ProgramV;
use crate::bytecode::instr::{word_12_12, word_26};
use crate::bytecode::opcodes::{OP_JF, OP_JMP, OP_NEWENV, OP_SETVAR, OP_TEST};
use crate::bytecode::{Addr, INVALID_ADDR};
use crate::sym_tab::{lookup, names_view, slot_after_add, with_name};
use crate::value::Value;

verus! {

/// Whether the same loops and functions are open in `q` as in `p`, with
/// the same jumps waiting.
pub open spec fn same_open(p: ProgramV, q: ProgramV) -> bool {
    q.while_ctx == p.while_ctx && q.func_ctx == p.func_ctx
}

/// Compiling an expression leaves the open loops and functions as they
/// are, whether it compiles or not.
pub proof fn lemma_expr_keeps_open(e: Expression, sym: Scopes, p: ProgramV)
    ensures
        same_open(p, compile_expr(e, sym, p).0),
    decreases e, 1nat,
{
    match e {
        Expression::Element(el) => {
            lemma_expr_keeps_open(*el.container, sym, p);
            let q1 = compile_expr(*el.container, sym, p).0;
            lemma_expr_keeps_open(*el.index, sym, q1);
        },
        Expression::BinaryOp(op) => {
            if op.op@ == "="@ {
                lemma_assign_keeps_open(op, sym, p);
            } else if op.op@ == "."@ {
                assert(compile_expr(e, sym, p) == compile_dot(op, sym, p));
                lemma_expr_keeps_open(*op.left, sym, p);
            } else {
                lemma_binary_keeps_open(op, sym, p);
            }
        },
        Expression::PrefixOp(op) => {
            lemma_prefix_keeps_open(op, sym, p);
        },
        Expression::FuncCall(f) => {
            lemma_expr_keeps_open(*f.func, sym, p);
            let q1 = compile_expr(*f.func, sym, p).0;
            lemma_list_keeps_open(f.args@, f.args@.len(), sym, q1);
        },
        _ => {},
    }
}

proof fn lemma_list_keeps_open(es: Seq<Expression>, n: nat, sym: Scopes, p: ProgramV)
    ensures
        same_open(p, compile_list(es, n, sym, p).0),
    decreases es, n,
{
    if n > 0 && n <= es.len() {
        lemma_list_keeps_open(es, (n - 1) as nat, sym, p);
        let q1 = compile_list(es, (n - 1) as nat, sym, p).0;
        lemma_expr_keeps_open(es[n - 1], sym, q1);
    }
}

proof fn lemma_binary_keeps_open(op: BinaryOp, sym: Scopes, p: ProgramV)
    ensures
        same_open(p, compile_binary(op, sym, p).0),
    decreases op, 0nat,
{
    match lookup(sym, op.op@) {
        Some((vi, ei)) => {
            let p0 = p.emit(word_12_12(crate::bytecode::opcodes::OP_GETVAR, vi as u16, ei as u16));
            lemma_expr_keeps_open(*op.left, sym, p0);
            let q1 = compile_expr(*op.left, sym, p0).0;
            lemma_expr_keeps_open(*op.right, sym, q1);
        },
        None => {},
    }
}

proof fn lemma_prefix_keeps_open(op: PrefixOp, sym: Scopes, p: ProgramV)
    ensures
        same_open(p, compile_prefix(op, sym, p).0),
    decreases op, 0nat,
{
    match lookup(sym, op.op@) {
        Some((vi, ei)) => {
            let p0 = p.emit(word_12_12(crate::bytecode::opcodes::OP_GETVAR, vi as u16, ei as u16));
            lemma_expr_keeps_open(*op.arg, sym, p0);
        },
        None => {},
    }
}

proof fn lemma_assign_keeps_open(op: BinaryOp, sym: Scopes, p: ProgramV)
    ensures
        same_open(p, compile_assign(op, sym, p).0),
    decreases op, 0nat,
{
    match *op.left {
        Expression::Ident(id, loc) => {
            lemma_expr_keeps_open(*op.right, sym, p);
        },
        Expression::Element(el) => {
            lemma_expr_keeps_open(*el.container, sym, p);
            let q1 = compile_expr(*el.container, sym, p).0;
            lemma_expr_keeps_open(*el.index, sym, q1);
            let q2 = compile_expr(*el.index, sym, q1).0;
            lemma_expr_keeps_open(*op.right, sym, q2);
        },
        Expression::BinaryOp(dot) => {
            if dot.op@ == "."@ && *dot.right is Ident {
                lemma_expr_keeps_open(*dot.left, sym, p);
                let q1 = compile_expr(*dot.left, sym, p).0;
                lemma_expr_keeps_open(
                    *op.right,
                    sym,
                    push_literal(q1, Value::String(dot.right->Ident_0)),
                );
            }
        },
        _ => {},
    }
}

/// A statement that compiles leaves as many loops open as there were.
pub proof fn lemma_stmt_keeps_loops(s: Statement, sym: Scopes, p: ProgramV)
    ensures
        compile_stmt(s, sym, p).1 is None ==> compile_stmt(s, sym, p).0.while_ctx.len()
            == p.while_ctx.len(),
    decreases s, 1nat,
{
    match s {
        Statement::Expression(e) => {
            lemma_expr_keeps_open(e, sym, p);
        },
        Statement::Block(b) => {
            lemma_stmts_keep_loops(b.stmts@, 0, sym, p, 0, 0);
        },
        Statement::If(i) => {
            lemma_expr_keeps_open(*i.test, sym, p);
            let q1 = compile_expr(*i.test, sym, p).0;
            let q3 = q1.emit(word_26(OP_TEST, 0)).emit(word_26(OP_JF, INVALID_ADDR));
            lemma_stmt_keeps_loops(*i.true_stmt, sym, q3);
            let q4 = compile_stmt(*i.true_stmt, sym, q3).0;
            match i.false_stmt {
                Some(f) => {
                    let q5 = q4.emit(word_26(OP_JMP, INVALID_ADDR));
                    let q6 = ProgramV {
                        instr: crate::bytecode::gen::patch_jump(
                            q5.instr,
                            q1.emit(word_26(OP_TEST, 0)).addr(),
                            q5.addr(),
                        ),
                        ..q5
                    };
                    lemma_stmt_keeps_loops(*f, sym, q6);
                },
                None => {},
            }
        },
        Statement::While(w) => {
            let p0 = p.open_while();
            lemma_expr_keeps_open(*w.test, sym, p0);
            let q1 = compile_expr(*w.test, sym, p0).0;
            let q3 = q1.emit(word_26(OP_TEST, 0)).emit(word_26(OP_JF, INVALID_ADDR));
            lemma_stmt_keeps_loops(*w.stmt, sym, q3);
        },
        Statement::Return(r) => {
            match r.expr {
                Some(e) => {
                    lemma_expr_keeps_open(*e, sym, p);
                },
                None => {},
            }
        },
        _ => {},
    }
}

proof fn lemma_stmts_keep_loops(
    ss: Seq<Statement>,
    i: nat,
    sym: Scopes,
    p: ProgramV,
    num_vars: u16,
    fix_addr: Addr,
)
    ensures
        compile_stmts(ss, i, sym, p, num_vars, fix_addr).1 is None ==> compile_stmts(
            ss,
            i,
            sym,
            p,
            num_vars,
            fix_addr,
        ).0.while_ctx.len() == p.while_ctx.len(),
    decreases ss, ss.len() - i,
{
    if i < ss.len() {
        match ss[i as int] {
            Statement::VarDecl(d) => {
                if num_vars < u16::MAX {
                    let q1 = match d.val {
                        Some(e) => {
                            lemma_expr_keeps_open(*e, sym, p);
                            compile_expr(*e, sym, p).0
                        },
                        None => push_literal(p, Value::Null),
                    };
                    if num_vars == 0 {
                        if q1.env_level < u32::MAX {
                            let q2 = q1.at_level((q1.env_level + 1) as u32);
                            lemma_stmts_keep_loops(
                                ss,
                                i + 1,
                                sym.push(seq![d.var@]),
                                q2.emit(word_12_12(OP_NEWENV, 1, 1)),
                                1,
                                q2.addr(),
                            );
                        }
                    } else {
                        lemma_stmts_keep_loops(
                            ss,
                            i + 1,
                            with_name(sym, d.var@),
                            q1.emit(
                                word_12_12(OP_SETVAR, slot_after_add(sym, d.var@) as u16, 0),
                            ),
                            (num_vars + 1) as u16,
                            fix_addr,
                        );
                    }
                }
            },
            s => {
                lemma_stmt_keeps_loops(s, sym, p);
                let q1 = compile_stmt(s, sym, p).0;
                lemma_stmts_keep_loops(ss, i + 1, sym, q1, num_vars, fix_addr);
            },
        }
    }
}

/// A statement with a `break` that stands in no loop does not compile
/// where no loop is open.
pub proof fn lemma_stray_break_stops(s: Statement, sym: Scopes, p: ProgramV)
    requires
        has_stray_break(s),
        p.while_ctx.len() == 0,
    ensures
        compile_stmt(s, sym, p).1 is Some,
    decreases s, 0nat,
{
    match s {
        Statement::Block(b) => {
            lemma_stray_break_stops_among(b.stmts@, 0, sym, p, 0, 0);
        },
        Statement::If(i) => {
            lemma_expr_keeps_open(*i.test, sym, p);
            let q1 = compile_expr(*i.test, sym, p).0;
            let q3 = q1.emit(word_26(OP_TEST, 0)).emit(word_26(OP_JF, INVALID_ADDR));
            if has_stray_break(*i.true_stmt) {
                lemma_stray_break_stops(*i.true_stmt, sym, q3);
            } else {
                lemma_stmt_keeps_loops(*i.true_stmt, sym, q3);
                let q4 = compile_stmt(*i.true_stmt, sym, q3).0;
                let f = i.false_stmt->Some_0;
                let q5 = q4.emit(word_26(OP_JMP, INVALID_ADDR));
                let q6 = ProgramV {
                    instr: crate::bytecode::gen::patch_jump(
                        q5.instr,
                        q1.emit(word_26(OP_TEST, 0)).addr(),
                        q5.addr(),
                    ),
                    ..q5
                };
                if compile_expr(*i.test, sym, p).1 is None && compile_stmt(
                    *i.true_stmt,
                    sym,
                    q3,
                ).1 is None {
                    lemma_stray_break_stops(*f, sym, q6);
                }
            }
        },
        _ => {},
    }
}

/// Statements of which one has a `break` that stands in no loop do not
/// compile where no loop is open.
pub proof fn lemma_stray_break_stops_among(
    ss: Seq<Statement>,
    i: nat,
    sym: Scopes,
    p: ProgramV,
    num_vars: u16,
    fix_addr: Addr,
)
    requires
        stray_break_from(ss, i),
        p.while_ctx.len() == 0,
    ensures
        compile_stmts(ss, i, sym, p, num_vars, fix_addr).1 is Some,
    decreases ss, ss.len() - i,
{
    if i < ss.len() {
        match ss[i as int] {
            Statement::VarDecl(d) => {
                assert(!has_stray_break(ss[i as int]));
                if num_vars < u16::MAX {
                    let q1 = match d.val {
                        Some(e) => {
                            lemma_expr_keeps_open(*e, sym, p);
                            compile_expr(*e, sym, p).0
                        },
                        None => push_literal(p, Value::Null),
                    };
                    if num_vars == 0 {
                        if q1.env_level < u32::MAX {
                            let q2 = q1.at_level((q1.env_level + 1) as u32);
                            lemma_stray_break_stops_among(
                                ss,
                                i + 1,
                                sym.push(seq![d.var@]),
                                q2.emit(word_12_12(OP_NEWENV, 1, 1)),
                                1,
                                q2.addr(),
                            );
                        }
                    } else {
                        lemma_stray_break_stops_among(
                            ss,
                            i + 1,
                            with_name(sym, d.var@),
                            q1.emit(
                                word_12_12(OP_SETVAR, slot_after_add(sym, d.var@) as u16, 0),
                            ),
                            (num_vars + 1) as u16,
                            fix_addr,
                        );
                    }
                }
            },
            s => {
                if has_stray_break(s) {
                    lemma_stray_break_stops(s, sym, p);
                } else {
                    lemma_stmt_keeps_loops(s, sym, p);
                    let q1 = compile_stmt(s, sym, p).0;
                    if compile_stmt(s, sym, p).1 is None {
                        lemma_stray_break_stops_among(ss, i + 1, sym, q1, num_vars, fix_addr);
                    }
                }
            },
        }
    }
}

/// A function whose body has a `break` that stands in no loop of the body
/// does not compile into a program in which no loop is open.
pub proof fn lemma_stray_break_not_compiled(f: FuncDef, sym: Scopes, p: ProgramV)
    requires
        stray_break_from(f.block.stmts@, 0),
        p.while_ctx.len() == 0,
    ensures
        compile_func(f, sym, p).1 is Some,
{
    let p0 = p.at_level(0).open_func();
    lemma_stray_break_stops_among(f.block.stmts@, 0, sym.push(names_view(f.params@)), p0, 0, 0);
}

/// `break` with no loop open is the error that says so, and with a loop
/// open it compiles.
pub proof fn lemma_break_needs_open_loop(loc: crate::src_loc::SrcLocV, p: ProgramV)
    ensures
        p.while_ctx.len() == 0 ==> crate::ast::codegen::compile_break(loc, p).1 == Some(
            crate::parser::errors::ParseErrorV::at(loc, "'break' not allowed here"@),
        ),
        p.while_ctx.len() > 0 && p.env_level >= p.while_ctx.last().start_env_level
            ==> crate::ast::codegen::compile_break(loc, p).1 is None,
{
}

} // verus!
