//! Precedence and associativity: which of two operators of an expression
//! takes its operands first.
use vstd::prelude::*;
use crate::ast::tree::ExprV;
use crate::parser::errors::ParseErrorV;
use crate::parser::grammar::{
    Syntax, Toks, Waiting, applied, binds, expr, expr_loop, lemma_reduce_rule, reduce, waiting_op,
};
use crate::parser::ops::{Assoc, Operator, find_op};
use crate::parser::token::TokenV;
use crate::src_loc::SrcLocV;

verus! {

/// An operator that is found under a name has that name.
pub proof fn lemma_found_name(ops: Seq<Operator>, name: Seq<char>, n: nat)
    ensures
        find_op(ops, name, n) matches Some(o) ==> o.name@ == name,
    decreases n,
{
    if n > 0 && n <= ops.len() && ops[n - 1].name@ != name {
        lemma_found_name(ops, name, (n - 1) as nat);
    }
}

/// The tokens of `a op1 b op2 c` and of what ends the expression, before
/// the tokens `rest`.
pub open spec fn two_operators(
    a: ExprV,
    op1: Waiting,
    b: ExprV,
    op2: Waiting,
    c: ExprV,
    end: char,
    end_loc: SrcLocV,
    rest: Toks,
) -> Toks {
    seq![
        Ok::<TokenV, ParseErrorV>(TokenV::Number(a->Number_0, a->Number_1)),
        Ok(TokenV::Operator(op1.name, op1.loc)),
        Ok(TokenV::Number(b->Number_0, b->Number_1)),
        Ok(TokenV::Operator(op2.name, op2.loc)),
        Ok(TokenV::Number(c->Number_0, c->Number_1)),
        Ok(TokenV::Punct(end, end_loc)),
    ] + rest
}

/// Of two binary operators between three numbers, the first takes its
/// operands first exactly when it binds at least as tightly as the
/// second: `a op1 b op2 c` is `(a op1 b) op2 c` then, and `a op1 (b op2 c)`
/// else. So an operator of higher precedence takes its operands before
/// one of lower precedence wherever it stands, operators of equal
/// precedence associate to the left, and a right-associative operator
/// gives way to an equal one that follows it.
pub proof fn lemma_precedence(
    sx: Syntax,
    a: ExprV,
    op1: Waiting,
    b: ExprV,
    op2: Waiting,
    c: ExprV,
    end: char,
    end_loc: SrcLocV,
    rest: Toks,
    stop: Seq<char>,
)
    requires
        a is Number,
        b is Number,
        c is Number,
        sx.ops.binary_of(op1.name) matches Some(o) && waiting_op(o, op1.loc) == op1,
        sx.ops.binary_of(op2.name) matches Some(o) && waiting_op(o, op2.loc) == op2,
        op1.assoc != Assoc::Prefix,
        op2.assoc != Assoc::Prefix,
        op1.prec > i32::MIN,
        op2.prec > i32::MIN,
        stop.contains(end),
        end != '(' && end != '[' && end != '{',
    ensures
        expr(sx, two_operators(a, op1, b, op2, c, end, end_loc, rest), true, stop) == Ok::<
            (ExprV, Toks),
            ParseErrorV,
        >(
            (
                if binds(op1) >= op2.prec {
                    ExprV::BinaryOp(
                        op2.name,
                        Box::new(ExprV::BinaryOp(op1.name, Box::new(a), Box::new(b), op1.loc)),
                        Box::new(c),
                        op2.loc,
                    )
                } else {
                    ExprV::BinaryOp(
                        op1.name,
                        Box::new(a),
                        Box::new(ExprV::BinaryOp(op2.name, Box::new(b), Box::new(c), op2.loc)),
                        op1.loc,
                    )
                },
                rest,
            ),
        ),
{
    let none = Seq::<ExprV>::empty();
    let idle = Seq::<Waiting>::empty();
    let t0 = two_operators(a, op1, b, op2, c, end, end_loc, rest);
    let t1 = t0.skip(1);
    let t2 = t1.skip(1);
    let t3 = t2.skip(1);
    let t4 = t3.skip(1);
    let t5 = t4.skip(1);
    assert(t5.skip(1) =~= rest);
    assert(t0[0] == Ok::<TokenV, ParseErrorV>(TokenV::Number(a->Number_0, a->Number_1)));
    assert(t1[0] == Ok::<TokenV, ParseErrorV>(TokenV::Operator(op1.name, op1.loc)));
    assert(t2[0] == Ok::<TokenV, ParseErrorV>(TokenV::Number(b->Number_0, b->Number_1)));
    assert(t3[0] == Ok::<TokenV, ParseErrorV>(TokenV::Operator(op2.name, op2.loc)));
    assert(t4[0] == Ok::<TokenV, ParseErrorV>(TokenV::Number(c->Number_0, c->Number_1)));
    assert(t5[0] == Ok::<TokenV, ParseErrorV>(TokenV::Punct(end, end_loc)));
    let goal = expr(sx, t0, true, stop);
    // a
    let s1 = none.push(a);
    assert(goal == expr_loop(sx, t1, true, stop, s1, idle, false));
    // op1: nothing waits, so it is pushed
    lemma_reduce_rule(s1, idle, op1.prec);
    let w1 = idle.push(op1);
    assert(goal == expr_loop(sx, t2, true, stop, s1, w1, true));
    // b
    let s2 = s1.push(b);
    assert(goal == expr_loop(sx, t3, true, stop, s2, w1, false));
    // op2
    lemma_reduce_rule(s2, w1, op2.prec);
    assert(w1.last() == op1);
    assert(w1.drop_last() =~= idle);
    let ab = ExprV::BinaryOp(op1.name, Box::new(a), Box::new(b), op1.loc);
    assert(applied(s2, op1) =~= none.push(ab));
    lemma_reduce_rule(none.push(ab), idle, op2.prec);
    if binds(op1) >= op2.prec {
        let s3 = none.push(ab);
        let w2 = idle.push(op2);
        assert(reduce(s2, w1, op2.prec) == Ok::<(Seq<ExprV>, Seq<Waiting>), ParseErrorV>(
            (s3, idle),
        ));
        assert(goal == expr_loop(sx, t4, true, stop, s3, w2, true));
        let s4 = s3.push(c);
        assert(goal == expr_loop(sx, t5, true, stop, s4, w2, false));
        lemma_reduce_rule(s4, w2, i32::MIN);
        assert(w2.last() == op2);
        assert(w2.drop_last() =~= idle);
        let all = ExprV::BinaryOp(op2.name, Box::new(ab), Box::new(c), op2.loc);
        assert(applied(s4, op2) =~= none.push(all));
        lemma_reduce_rule(none.push(all), idle, i32::MIN);
        assert(reduce(s4, w2, i32::MIN) == Ok::<(Seq<ExprV>, Seq<Waiting>), ParseErrorV>(
            (none.push(all), idle),
        ));
    } else {
        let w2 = w1.push(op2);
        assert(reduce(s2, w1, op2.prec) == Ok::<(Seq<ExprV>, Seq<Waiting>), ParseErrorV>(
            (s2, w1),
        ));
        assert(goal == expr_loop(sx, t4, true, stop, s2, w2, true));
        let s3 = s2.push(c);
        assert(goal == expr_loop(sx, t5, true, stop, s3, w2, false));
        lemma_reduce_rule(s3, w2, i32::MIN);
        assert(w2.last() == op2);
        assert(w2.drop_last() =~= w1);
        let bc = ExprV::BinaryOp(op2.name, Box::new(b), Box::new(c), op2.loc);
        let s4 = s1.push(bc);
        assert(applied(s3, op2) =~= s4);
        lemma_reduce_rule(s4, w1, i32::MIN);
        let all = ExprV::BinaryOp(op1.name, Box::new(a), Box::new(bc), op1.loc);
        assert(applied(s4, op1) =~= none.push(all));
        lemma_reduce_rule(none.push(all), idle, i32::MIN);
        assert(reduce(s3, w2, i32::MIN) == Ok::<(Seq<ExprV>, Seq<Waiting>), ParseErrorV>(
            (none.push(all), idle),
        ));
    }
}

} // verus!
