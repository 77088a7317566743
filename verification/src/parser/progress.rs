//! Parsing takes tokens: after each construct that was parsed, fewer
//! tokens wait than before it. The specification of the grammar tests
//! this wherever it goes on with the tokens that a construct left; by the
//! lemmas of this module those tests never fail.
use vstd::prelude::*;
use crate::ast::tree::{ExprV, StmtV};
use crate::parser::grammar::{
    Syntax, Toks, Waiting, arg_list, block, block_items, expr, expr_loop, func_def, ident_next,
    if_stmt, key_next, map_items, more_args, more_params, param_list, reduce, statement,
    token_place, var_decl, vec_items, waiting_op, while_stmt,
};
use crate::parser::token::{Keyword, TokenV};
use crate::parser::ops::Assoc;
use crate::src_loc::SrcLocV;

verus! {

/// Applying operators leaves operands only where there were operands.
pub proof fn lemma_reduce_needs_operands(opns: Seq<ExprV>, oprs: Seq<Waiting>, prec: i32)
    ensures
        reduce(opns, oprs, prec) matches Ok((left, _)) ==> (left.len() > 0 ==> opns.len() > 0),
    decreases oprs.len(),
{
    if oprs.len() > 0 {
        let o = oprs.last();
        let binds: int = if o.assoc == Assoc::Right {
            o.prec - 1
        } else {
            o.prec as int
        };
        if binds >= prec {
            if o.assoc == Assoc::Prefix {
                if opns.len() >= 1 {
                    lemma_reduce_needs_operands(
                        opns.drop_last().push(
                            ExprV::PrefixOp(o.name, Box::new(opns.last()), o.loc),
                        ),
                        oprs.drop_last(),
                        prec,
                    );
                }
            } else {
                if opns.len() >= 2 {
                    lemma_reduce_needs_operands(
                        opns.drop_last().drop_last().push(
                            ExprV::BinaryOp(
                                o.name,
                                Box::new(opns[opns.len() - 2]),
                                Box::new(opns.last()),
                                o.loc,
                            ),
                        ),
                        oprs.drop_last(),
                        prec,
                    );
                }
            }
        }
    }
}

/// A list of parameters takes tokens.
pub proof fn lemma_params_read(sx: Syntax, toks: Toks)
    ensures
        param_list(sx, toks) matches Ok((_, rest)) ==> rest.len() < toks.len(),
{
    if toks.len() > 0 {
        let t1 = toks.skip(1);
        if ident_next(t1) is Some {
            lemma_more_params_read(sx, t1.skip(1), seq![ident_next(t1)->Some_0.0]);
        }
    }
}

proof fn lemma_more_params_read(sx: Syntax, toks: Toks, names: Seq<Seq<char>>)
    ensures
        more_params(sx, toks, names) matches Ok((_, rest)) ==> rest.len() <= toks.len(),
    decreases toks.len(),
{
    if toks.len() > 0 {
        let t1 = toks.skip(1);
        if ident_next(t1) is Some {
            lemma_more_params_read(sx, t1.skip(1), names.push(ident_next(t1)->Some_0.0));
        }
    }
}

/// An expression takes tokens.
pub proof fn lemma_expr_reads(sx: Syntax, toks: Toks, consume_stop: bool, stop: Seq<char>)
    ensures
        expr(sx, toks, consume_stop, stop) matches Ok((_, rest)) ==> rest.len() < toks.len(),
    decreases toks.len(), 1nat,
{
    lemma_expr_loop_reads(
        sx,
        toks,
        consume_stop,
        stop,
        Seq::empty(),
        Seq::empty(),
        true,
        toks.len(),
    );
}

/// The rest of an expression leaves fewer tokens than `bound`, where no
/// more than `bound` tokens wait, and fewer once an operand waits.
proof fn lemma_expr_loop_reads(
    sx: Syntax,
    toks: Toks,
    consume_stop: bool,
    stop: Seq<char>,
    opns: Seq<ExprV>,
    oprs: Seq<Waiting>,
    expect_opn: bool,
    bound: nat,
)
    requires
        toks.len() <= bound,
        opns.len() > 0 ==> toks.len() < bound,
    ensures
        expr_loop(sx, toks, consume_stop, stop, opns, oprs, expect_opn) matches Ok((_, rest))
            ==> rest.len() < bound,
    decreases toks.len(), 0nat,
{
    if toks.len() > 0 && toks[0] is Ok {
        let rest = toks.skip(1);
        match toks[0]->Ok_0 {
            TokenV::Punct(ch, loc) => {
                if ch == '(' {
                    if expect_opn {
                        lemma_expr_reads(sx, rest, true, seq![')']);
                        match expr(sx, rest, true, seq![')']) {
                            Ok((e, t1)) => {
                                lemma_expr_loop_reads(
                                    sx,
                                    t1,
                                    consume_stop,
                                    stop,
                                    opns.push(e),
                                    oprs,
                                    false,
                                    bound,
                                );
                            },
                            Err(_) => {},
                        }
                    } else {
                        match reduce(opns, oprs, sx.call_prec) {
                            Ok((opns1, oprs1)) => {
                                if opns1.len() > 0 {
                                    lemma_arg_list_reads(sx, rest);
                                    match arg_list(sx, rest) {
                                        Ok((args, t1)) => {
                                            lemma_expr_loop_reads(
                                                sx,
                                                t1,
                                                consume_stop,
                                                stop,
                                                opns1.drop_last().push(
                                                    ExprV::FuncCall(Box::new(opns1.last()), args),
                                                ),
                                                oprs1,
                                                false,
                                                bound,
                                            );
                                        },
                                        Err(_) => {},
                                    }
                                }
                            },
                            Err(_) => {},
                        }
                    }
                } else if ch == '[' {
                    if expect_opn {
                        lemma_vec_items_read(sx, rest, loc, Seq::empty());
                        match vec_items(sx, rest, loc, Seq::empty()) {
                            Ok((v, t1)) => {
                                lemma_expr_loop_reads(
                                    sx,
                                    t1,
                                    consume_stop,
                                    stop,
                                    opns.push(v),
                                    oprs,
                                    false,
                                    bound,
                                );
                            },
                            Err(_) => {},
                        }
                    } else {
                        match reduce(opns, oprs, sx.index_prec) {
                            Ok((opns1, oprs1)) => {
                                if opns1.len() > 0 {
                                    lemma_expr_reads(sx, rest, true, seq![']']);
                                    match expr(sx, rest, true, seq![']']) {
                                        Ok((index, t1)) => {
                                            lemma_expr_loop_reads(
                                                sx,
                                                t1,
                                                consume_stop,
                                                stop,
                                                opns1.drop_last().push(
                                                    ExprV::Element(
                                                        Box::new(opns1.last()),
                                                        Box::new(index),
                                                        loc,
                                                    ),
                                                ),
                                                oprs1,
                                                false,
                                                bound,
                                            );
                                        },
                                        Err(_) => {},
                                    }
                                }
                            },
                            Err(_) => {},
                        }
                    }
                } else if ch == '{' {
                    if expect_opn {
                        lemma_map_items_read(sx, rest, loc, Seq::empty());
                        match map_items(sx, rest, loc, Seq::empty()) {
                            Ok((m, t1)) => {
                                lemma_expr_loop_reads(
                                    sx,
                                    t1,
                                    consume_stop,
                                    stop,
                                    opns.push(m),
                                    oprs,
                                    false,
                                    bound,
                                );
                            },
                            Err(_) => {},
                        }
                    }
                } else if stop.contains(ch) {
                    lemma_reduce_needs_operands(opns, oprs, i32::MIN);
                }
            },
            TokenV::Operator(name, loc) => {
                if expect_opn {
                    match sx.ops.prefix_of(name) {
                        Some(o) => {
                            lemma_expr_loop_reads(
                                sx,
                                rest,
                                consume_stop,
                                stop,
                                opns,
                                oprs.push(waiting_op(o, loc)),
                                true,
                                bound,
                            );
                        },
                        None => {},
                    }
                } else {
                    match sx.ops.binary_of(name) {
                        Some(o) => {
                            match reduce(opns, oprs, o.prec) {
                                Ok((opns1, oprs1)) => {
                                    lemma_expr_loop_reads(
                                        sx,
                                        rest,
                                        consume_stop,
                                        stop,
                                        opns1,
                                        oprs1.push(waiting_op(o, loc)),
                                        true,
                                        bound,
                                    );
                                },
                                Err(_) => {},
                            }
                        },
                        None => {},
                    }
                }
            },
            TokenV::Ident(name, loc) => {
                if expect_opn {
                    lemma_expr_loop_reads(
                        sx,
                        rest,
                        consume_stop,
                        stop,
                        opns.push(ExprV::Ident(name, loc)),
                        oprs,
                        false,
                        bound,
                    );
                }
            },
            TokenV::String(text, loc) => {
                if expect_opn {
                    lemma_expr_loop_reads(
                        sx,
                        rest,
                        consume_stop,
                        stop,
                        opns.push(ExprV::String(text, loc)),
                        oprs,
                        false,
                        bound,
                    );
                }
            },
            TokenV::Number(n, loc) => {
                if expect_opn {
                    lemma_expr_loop_reads(
                        sx,
                        rest,
                        consume_stop,
                        stop,
                        opns.push(ExprV::Number(n, loc)),
                        oprs,
                        false,
                        bound,
                    );
                }
            },
            TokenV::Keyword(k, loc) => {
                if k == Keyword::Function && expect_opn {
                    lemma_func_reads(sx, rest, loc);
                    match func_def(sx, rest, loc) {
                        Ok((f, t1)) => {
                            lemma_expr_loop_reads(
                                sx,
                                t1,
                                consume_stop,
                                stop,
                                opns.push(ExprV::FuncDef(Box::new(f))),
                                oprs,
                                false,
                                bound,
                            );
                        },
                        Err(_) => {},
                    }
                }
            },
        }
    }
}

proof fn lemma_arg_list_reads(sx: Syntax, toks: Toks)
    ensures
        arg_list(sx, toks) matches Ok((_, rest)) ==> rest.len() <= toks.len(),
    decreases toks.len(), 3nat,
{
    lemma_more_args_read(sx, toks, Seq::empty());
}

proof fn lemma_more_args_read(sx: Syntax, toks: Toks, args: Seq<ExprV>)
    ensures
        more_args(sx, toks, args) matches Ok((_, rest)) ==> rest.len() <= toks.len(),
    decreases toks.len(), 2nat,
{
    lemma_expr_reads(sx, toks, false, seq![',', ')']);
    match expr(sx, toks, false, seq![',', ')']) {
        Ok((e, t1)) => {
            if t1.len() > 0 {
                lemma_more_args_read(sx, t1.skip(1), args.push(e));
            }
        },
        Err(_) => {},
    }
}

proof fn lemma_vec_items_read(sx: Syntax, toks: Toks, loc: SrcLocV, items: Seq<ExprV>)
    ensures
        vec_items(sx, toks, loc, items) matches Ok((_, rest)) ==> rest.len() <= toks.len(),
    decreases toks.len(), 2nat,
{
    lemma_expr_reads(sx, toks, false, seq![']', ',']);
    match expr(sx, toks, false, seq![']', ',']) {
        Ok((e, t1)) => {
            if t1.len() > 0 {
                lemma_vec_items_read(sx, t1.skip(1), loc, items.push(e));
            }
        },
        Err(_) => {},
    }
}

proof fn lemma_map_items_read(
    sx: Syntax,
    toks: Toks,
    loc: SrcLocV,
    entries: Seq<(Seq<char>, ExprV)>,
)
    ensures
        map_items(sx, toks, loc, entries) matches Ok((_, rest)) ==> rest.len() <= toks.len(),
    decreases toks.len(), 2nat,
{
    if toks.len() > 0 && key_next(toks) is Some {
        let key = key_next(toks)->Some_0;
        let t0 = toks.skip(1);
        if t0.len() > 0 {
            lemma_expr_reads(sx, t0.skip(1), false, seq![',', '}']);
            match expr(sx, t0.skip(1), false, seq![',', '}']) {
                Ok((e, t1)) => {
                    if t1.len() > 0 {
                        lemma_map_items_read(sx, t1.skip(1), loc, entries.push((key, e)));
                    }
                },
                Err(_) => {},
            }
        }
    }
}

/// A statement takes tokens.
pub proof fn lemma_statement_reads(sx: Syntax, toks: Toks)
    ensures
        statement(sx, toks) matches Ok((_, rest)) ==> rest.len() < toks.len(),
    decreases toks.len(), 3nat,
{
    if toks.len() > 0 && toks[0] is Ok {
        let rest = toks.skip(1);
        lemma_block_reads(sx, toks);
        lemma_expr_reads(sx, toks, true, seq![';']);
        lemma_expr_reads(sx, rest, true, seq![';']);
        lemma_var_decl_reads(sx, rest);
        lemma_if_reads(sx, rest);
        lemma_while_reads(sx, rest);
    }
}

proof fn lemma_var_decl_reads(sx: Syntax, toks: Toks)
    ensures
        var_decl(sx, toks) matches Ok((_, rest)) ==> rest.len() < toks.len(),
    decreases toks.len(), 2nat,
{
    if toks.len() > 0 {
        let t1 = toks.skip(1);
        if t1.len() > 0 {
            lemma_expr_reads(sx, t1.skip(1), true, seq![';']);
        }
    }
}

proof fn lemma_if_reads(sx: Syntax, toks: Toks)
    ensures
        if_stmt(sx, toks) matches Ok((_, rest)) ==> rest.len() < toks.len(),
    decreases toks.len(), 2nat,
{
    if toks.len() > 0 {
        lemma_expr_reads(sx, toks.skip(1), true, seq![')']);
        match expr(sx, toks.skip(1), true, seq![')']) {
            Ok((_, t2)) => {
                if t2.len() < toks.len() {
                    lemma_statement_reads(sx, t2);
                    match statement(sx, t2) {
                        Ok((_, t3)) => {
                            if 0 < t3.len() <= toks.len() {
                                lemma_statement_reads(sx, t3.skip(1));
                            }
                        },
                        Err(_) => {},
                    }
                }
            },
            Err(_) => {},
        }
    }
}

proof fn lemma_while_reads(sx: Syntax, toks: Toks)
    ensures
        while_stmt(sx, toks) matches Ok((_, rest)) ==> rest.len() < toks.len(),
    decreases toks.len(), 2nat,
{
    if toks.len() > 0 {
        lemma_expr_reads(sx, toks.skip(1), true, seq![')']);
        match expr(sx, toks.skip(1), true, seq![')']) {
            Ok((_, t2)) => {
                if t2.len() < toks.len() {
                    lemma_statement_reads(sx, t2);
                }
            },
            Err(_) => {},
        }
    }
}

/// A block takes tokens.
pub proof fn lemma_block_reads(sx: Syntax, toks: Toks)
    ensures
        block(sx, toks) matches Ok((_, rest)) ==> rest.len() < toks.len(),
    decreases toks.len(), 0nat,
{
    if toks.len() > 0 && toks[0] is Ok {
        lemma_block_items_read(sx, toks.skip(1), token_place(toks[0]->Ok_0), Seq::empty());
    }
}

proof fn lemma_block_items_read(sx: Syntax, toks: Toks, loc: SrcLocV, stmts: Seq<StmtV>)
    ensures
        block_items(sx, toks, loc, stmts) matches Ok((_, rest)) ==> rest.len() <= toks.len(),
    decreases toks.len(), 4nat,
{
    if toks.len() > 0 && toks[0] is Ok {
        match statement(sx, toks) {
            Ok((s, t1)) => {
                if t1.len() < toks.len() {
                    lemma_block_items_read(sx, t1, loc, stmts.push(s));
                }
            },
            Err(_) => {},
        }
    }
}

/// A function takes tokens.
pub proof fn lemma_func_reads(sx: Syntax, toks: Toks, loc: SrcLocV)
    ensures
        func_def(sx, toks, loc) matches Ok((_, rest)) ==> rest.len() < toks.len(),
    decreases toks.len(), 1nat,
{
    lemma_params_read(sx, toks);
    match param_list(sx, toks) {
        Ok((_, t1)) => {
            lemma_block_reads(sx, t1);
        },
        Err(_) => {},
    }
}

} // verus!
