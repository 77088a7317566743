//! What the parser makes of tokens.
//!
//! Each function of this module takes the tokens that wait, the next one
//! first, and says what one construct of the language is parsed to and
//! which tokens wait after it, or which error ends the parsing. An error
//! that waits among the tokens is reported when the parser comes to it.
//!
//! Expressions are parsed by operator precedence. Operands and operators
//! wait on two stacks. An operator is applied to its operands as soon as
//! an operator comes that binds less tightly, or at the end of the
//! expression.
use vstd::prelude::*;
use crate::ast::tree::{BlockV, ExprV, FuncV, NamedFuncV, StmtV};
use crate::parser::errors::ParseErrorV;
use crate::native::NativeHost;
use crate::parser::lexing::{ScannedV, lex, lex_end};
use crate::parser::tokenizer::start_of;
use crate::readers::errors::ReadErrorV;
use crate::readers::Opened;
use crate::parser::ops::{Assoc, OpTable, Operator};
use crate::parser::token::{Keyword, TokenV, keyword_text};
use crate::src_loc::SrcLocV;

verus! {

/// What the parser knows besides the tokens: the operators, how tightly a
/// call and an index bind, and where the outermost source ends.
pub struct Syntax {
    pub ops: OpTable,
    pub call_prec: i32,
    pub index_prec: i32,
    pub end: SrcLocV,
}

/// The tokens that wait, the next one first.
pub type Toks = Seq<ScannedV>;

/// What was parsed and the tokens that wait after it, or the error.
pub type Parsed<T> = Result<(T, Toks), ParseErrorV>;

/// An operator that waits on the stack, and the place of its token.
pub struct Waiting {
    pub name: Seq<char>,
    pub prec: i32,
    pub assoc: Assoc,
    pub loc: SrcLocV,
}

/// The operator `o`, waiting for its operands since its token at `loc`.
pub open spec fn waiting_op(o: Operator, loc: SrcLocV) -> Waiting {
    Waiting { name: o.name@, prec: o.prec, assoc: o.assoc, loc }
}

/// The text of a token as error messages show it. Every number is shown
/// as `number`.
pub open spec fn token_text(t: TokenV) -> Seq<char> {
    match t {
        TokenV::Keyword(k, _) => keyword_text(k),
        TokenV::Punct(p, _) => seq![p],
        TokenV::Number(_, _) => "number"@,
        TokenV::String(s, _) => s,
        TokenV::Ident(s, _) => s,
        TokenV::Operator(s, _) => s,
    }
}

/// The place of a token.
pub open spec fn token_place(t: TokenV) -> SrcLocV {
    match t {
        TokenV::Keyword(_, l) => l,
        TokenV::Punct(_, l) => l,
        TokenV::Number(_, l) => l,
        TokenV::String(_, l) => l,
        TokenV::Ident(_, l) => l,
        TokenV::Operator(_, l) => l,
    }
}

/// The error for the text `any` at `loc` where `expected` was expected.
pub open spec fn found(loc: SrcLocV, any: Seq<char>, expected: Seq<char>) -> ParseErrorV {
    ParseErrorV::at(loc, "expected "@ + expected + ", found '"@ + any + "'"@)
}

/// The error for the end of the tokens where `expected` was expected.
pub open spec fn found_end(end: SrcLocV, expected: Seq<char>) -> ParseErrorV {
    ParseErrorV::at(end, "expected "@ + expected + ", found end of file"@)
}

/// The error for the next of `toks` where `expected` was expected: the
/// error that waits there, or the report of the token or of the end of
/// the tokens.
pub open spec fn refused(sx: Syntax, toks: Toks, expected: Seq<char>) -> ParseErrorV {
    if toks.len() == 0 {
        found_end(sx.end, expected)
    } else {
        match toks[0] {
            Err(e) => e,
            Ok(t) => found(token_place(t), token_text(t), expected),
        }
    }
}

/// The error of a specification that cannot go on. No parsing ends with
/// it: a parser never leaves more tokens than it was given.
pub open spec fn stuck() -> ParseErrorV {
    ParseErrorV::at(SrcLocV { filename: Seq::empty(), line_num: 0, col_num: 0 }, Seq::empty())
}

/// `c` between single quotes.
pub open spec fn quote(c: char) -> Seq<char> {
    seq!['\'', c, '\'']
}

/// Whether the next of `toks` is the punctuation `ch`.
pub open spec fn punct_next(toks: Toks, ch: char) -> bool {
    toks.len() > 0 && (toks[0] matches Ok(TokenV::Punct(p, _)) && p == ch)
}

/// Whether a token is the next of `toks`: not the end, and not an error.
pub open spec fn token_next(toks: Toks) -> bool {
    toks.len() > 0 && toks[0] is Ok
}

/// The identifier that is the next of `toks`, and its place.
pub open spec fn ident_next(toks: Toks) -> Option<(Seq<char>, SrcLocV)> {
    if toks.len() == 0 {
        None
    } else {
        match toks[0] {
            Ok(TokenV::Ident(name, loc)) => Some((name, loc)),
            _ => None,
        }
    }
}

/// The punctuation `punct`, and its place.
pub open spec fn expect_punct(sx: Syntax, toks: Toks, punct: char) -> Parsed<SrcLocV> {
    if punct_next(toks, punct) {
        Ok((token_place(toks[0]->Ok_0), toks.skip(1)))
    } else {
        Err(refused(sx, toks, quote(punct)))
    }
}

/// `( name, ... )`
pub open spec fn param_list(sx: Syntax, toks: Toks) -> Parsed<Seq<Seq<char>>> {
    if !punct_next(toks, '(') {
        Err(refused(sx, toks, quote('(')))
    } else {
        let t1 = toks.skip(1);
        if punct_next(t1, ')') {
            Ok((Seq::empty(), t1.skip(1)))
        } else if ident_next(t1) is Some {
            more_params(sx, t1.skip(1), seq![ident_next(t1)->Some_0.0])
        } else {
            Err(refused(sx, t1, "')' or parameter name"@))
        }
    }
}

/// What follows a parameter: `)`, or `,` and one more parameter.
pub open spec fn more_params(sx: Syntax, toks: Toks, names: Seq<Seq<char>>) -> Parsed<
    Seq<Seq<char>>,
>
    decreases toks.len(),
{
    if punct_next(toks, ')') {
        Ok((names, toks.skip(1)))
    } else if punct_next(toks, ',') {
        let t1 = toks.skip(1);
        if ident_next(t1) is Some {
            more_params(sx, t1.skip(1), names.push(ident_next(t1)->Some_0.0))
        } else {
            Err(refused(sx, t1, "parameter name"@))
        }
    } else {
        Err(refused(sx, toks, "',' or ')'"@))
    }
}

/// Applies the operators on top of `oprs` that bind at least as tightly
/// as `prec`, each to the operands on top of `opns`. A right-associative
/// operator gives way to an equal one that follows it.
pub open spec fn reduce(opns: Seq<ExprV>, oprs: Seq<Waiting>, prec: i32) -> Result<
    (Seq<ExprV>, Seq<Waiting>),
    ParseErrorV,
>
    decreases oprs.len(),
{
    if oprs.len() == 0 {
        Ok((opns, oprs))
    } else {
        let o = oprs.last();
        let binds: int = if o.assoc == Assoc::Right {
            o.prec - 1
        } else {
            o.prec as int
        };
        if binds < prec {
            Ok((opns, oprs))
        } else if o.assoc == Assoc::Prefix {
            if opns.len() < 1 {
                Err(ParseErrorV::at(o.loc, "syntax error"@))
            } else {
                reduce(
                    opns.drop_last().push(ExprV::PrefixOp(o.name, Box::new(opns.last()), o.loc)),
                    oprs.drop_last(),
                    prec,
                )
            }
        } else {
            if opns.len() < 2 {
                Err(ParseErrorV::at(o.loc, "syntax error"@))
            } else {
                reduce(
                    opns.drop_last().drop_last().push(
                        ExprV::BinaryOp(
                            o.name,
                            Box::new(opns[opns.len() - 2]),
                            Box::new(opns.last()),
                            o.loc,
                        ),
                    ),
                    oprs.drop_last(),
                    prec,
                )
            }
        }
    }
}

/// How tightly the waiting operator `o` holds its operands against an
/// operator that follows it: a right-associative operator gives way to an
/// equal one.
pub open spec fn binds(o: Waiting) -> int {
    if o.assoc == Assoc::Right {
        o.prec - 1
    } else {
        o.prec as int
    }
}

/// The operands after the operator `o` was applied to the operands on top
/// of `opns`: a prefix operator takes one, any other takes two, the deeper
/// one as its left operand.
pub open spec fn applied(opns: Seq<ExprV>, o: Waiting) -> Seq<ExprV> {
    if o.assoc == Assoc::Prefix {
        opns.drop_last().push(ExprV::PrefixOp(o.name, Box::new(opns.last()), o.loc))
    } else {
        opns.drop_last().drop_last().push(
            ExprV::BinaryOp(o.name, Box::new(opns[opns.len() - 2]), Box::new(opns.last()), o.loc),
        )
    }
}

/// The rule of the operator stack. The operator on top is applied exactly
/// when it binds at least as tightly as `prec`, and then the rule is
/// applied again to what is left; else the stacks stay as they are. An
/// operator that is applied without its operands is a syntax error at its
/// place.
pub proof fn lemma_reduce_rule(opns: Seq<ExprV>, oprs: Seq<Waiting>, prec: i32)
    ensures
        oprs.len() == 0 ==> reduce(opns, oprs, prec) == Ok::<
            (Seq<ExprV>, Seq<Waiting>),
            ParseErrorV,
        >((opns, oprs)),
        oprs.len() > 0 && binds(oprs.last()) < prec ==> reduce(opns, oprs, prec) == Ok::<
            (Seq<ExprV>, Seq<Waiting>),
            ParseErrorV,
        >((opns, oprs)),
        oprs.len() > 0 && binds(oprs.last()) >= prec ==> reduce(opns, oprs, prec) == if opns.len()
            < (if oprs.last().assoc == Assoc::Prefix {
            1nat
        } else {
            2nat
        }) {
            Err::<(Seq<ExprV>, Seq<Waiting>), ParseErrorV>(
                ParseErrorV::at(oprs.last().loc, "syntax error"@),
            )
        } else {
            reduce(applied(opns, oprs.last()), oprs.drop_last(), prec)
        },
{
}

/// A right-associative operator stays on the stack when an operator of
/// the same precedence follows it, and a left-associative one is applied.
pub proof fn lemma_equal_precedence(opns: Seq<ExprV>, oprs: Seq<Waiting>)
    requires
        oprs.len() > 0,
        opns.len() >= 2,
    ensures
        oprs.last().assoc == Assoc::Right ==> reduce(opns, oprs, oprs.last().prec) == Ok::<
            (Seq<ExprV>, Seq<Waiting>),
            ParseErrorV,
        >((opns, oprs)),
        oprs.last().assoc == Assoc::Left ==> reduce(opns, oprs, oprs.last().prec) == reduce(
            applied(opns, oprs.last()),
            oprs.drop_last(),
            oprs.last().prec,
        ),
{
}

/// An expression that ends before one of the characters of `stop`, which
/// is taken too where `consume_stop` is set.
pub open spec fn expr(sx: Syntax, toks: Toks, consume_stop: bool, stop: Seq<char>) -> Parsed<ExprV>
    decreases toks.len(), 1nat,
{
    expr_loop(sx, toks, consume_stop, stop, Seq::empty(), Seq::empty(), true)
}

/// The rest of an expression, with the operands `opns` and the operators
/// `oprs` waiting, where an operand is expected next or an operator.
pub open spec fn expr_loop(
    sx: Syntax,
    toks: Toks,
    consume_stop: bool,
    stop: Seq<char>,
    opns: Seq<ExprV>,
    oprs: Seq<Waiting>,
    expect_opn: bool,
) -> Parsed<ExprV>
    decreases toks.len(), 0nat,
{
    if !token_next(toks) {
        Err(refused(sx, toks, "expression"@))
    } else {
        let rest = toks.skip(1);
        match toks[0]->Ok_0 {
            TokenV::Punct(ch, loc) => {
                if ch == '(' {
                    if expect_opn {
                        match expr(sx, rest, true, seq![')']) {
                            Err(e) => Err(e),
                            Ok((e, t1)) => if t1.len() <= rest.len() {
                                expr_loop(sx, t1, consume_stop, stop, opns.push(e), oprs, false)
                            } else {
                                Err(stuck())
                            },
                        }
                    } else {
                        match reduce(opns, oprs, sx.call_prec) {
                            Err(e) => Err(e),
                            Ok((opns1, oprs1)) => if opns1.len() == 0 {
                                Err(ParseErrorV::at(loc, "syntax error (no function on stack!)"@))
                            } else {
                                match arg_list(sx, rest) {
                                    Err(e) => Err(e),
                                    Ok((args, t1)) => if t1.len() <= rest.len() {
                                        expr_loop(
                                            sx,
                                            t1,
                                            consume_stop,
                                            stop,
                                            opns1.drop_last().push(
                                                ExprV::FuncCall(Box::new(opns1.last()), args),
                                            ),
                                            oprs1,
                                            false,
                                        )
                                    } else {
                                        Err(stuck())
                                    },
                                }
                            },
                        }
                    }
                } else if ch == '[' {
                    if expect_opn {
                        match vec_items(sx, rest, loc, Seq::empty()) {
                            Err(e) => Err(e),
                            Ok((v, t1)) => if t1.len() <= rest.len() {
                                expr_loop(sx, t1, consume_stop, stop, opns.push(v), oprs, false)
                            } else {
                                Err(stuck())
                            },
                        }
                    } else {
                        match reduce(opns, oprs, sx.index_prec) {
                            Err(e) => Err(e),
                            Ok((opns1, oprs1)) => if opns1.len() == 0 {
                                Err(ParseErrorV::at(loc, "syntax error (no container on stack!)"@))
                            } else {
                                match expr(sx, rest, true, seq![']']) {
                                    Err(e) => Err(e),
                                    Ok((index, t1)) => if t1.len() <= rest.len() {
                                        expr_loop(
                                            sx,
                                            t1,
                                            consume_stop,
                                            stop,
                                            opns1.drop_last().push(
                                                ExprV::Element(
                                                    Box::new(opns1.last()),
                                                    Box::new(index),
                                                    loc,
                                                ),
                                            ),
                                            oprs1,
                                            false,
                                        )
                                    } else {
                                        Err(stuck())
                                    },
                                }
                            },
                        }
                    }
                } else if ch == '{' {
                    if expect_opn {
                        match map_items(sx, rest, loc, Seq::empty()) {
                            Err(e) => Err(e),
                            Ok((m, t1)) => if t1.len() <= rest.len() {
                                expr_loop(sx, t1, consume_stop, stop, opns.push(m), oprs, false)
                            } else {
                                Err(stuck())
                            },
                        }
                    } else {
                        Err(refused(sx, toks, "operator"@))
                    }
                } else if stop.contains(ch) {
                    match reduce(opns, oprs, i32::MIN) {
                        Err(e) => Err(e),
                        Ok((opns1, oprs1)) => if opns1.len() == 0 {
                            Err(ParseErrorV::at(loc, "expected expression"@))
                        } else if opns1.len() == 1 {
                            Ok(
                                (
                                    opns1[0],
                                    if consume_stop {
                                        rest
                                    } else {
                                        toks
                                    },
                                ),
                            )
                        } else {
                            Err(ParseErrorV::at(loc, "syntax error (stack not empty!)"@))
                        },
                    }
                } else {
                    Err(refused(sx, toks, "expression"@))
                }
            },
            TokenV::Operator(name, loc) => {
                if expect_opn {
                    match sx.ops.prefix_of(name) {
                        Some(o) => expr_loop(
                            sx,
                            rest,
                            consume_stop,
                            stop,
                            opns,
                            oprs.push(waiting_op(o, loc)),
                            true,
                        ),
                        None => Err(refused(sx, toks, "expression"@)),
                    }
                } else {
                    match sx.ops.binary_of(name) {
                        Some(o) => match reduce(opns, oprs, o.prec) {
                            Err(e) => Err(e),
                            Ok((opns1, oprs1)) => expr_loop(
                                sx,
                                rest,
                                consume_stop,
                                stop,
                                opns1,
                                oprs1.push(waiting_op(o, loc)),
                                true,
                            ),
                        },
                        None => Err(refused(sx, toks, "'(' or operator"@)),
                    }
                }
            },
            TokenV::Ident(name, loc) => {
                if expect_opn {
                    expr_loop(
                        sx,
                        rest,
                        consume_stop,
                        stop,
                        opns.push(ExprV::Ident(name, loc)),
                        oprs,
                        false,
                    )
                } else {
                    Err(refused(sx, toks, "'(' or operator"@))
                }
            },
            TokenV::String(text, loc) => {
                if expect_opn {
                    expr_loop(
                        sx,
                        rest,
                        consume_stop,
                        stop,
                        opns.push(ExprV::String(text, loc)),
                        oprs,
                        false,
                    )
                } else {
                    Err(refused(sx, toks, "'(' or operator"@))
                }
            },
            TokenV::Number(n, loc) => {
                if expect_opn {
                    expr_loop(
                        sx,
                        rest,
                        consume_stop,
                        stop,
                        opns.push(ExprV::Number(n, loc)),
                        oprs,
                        false,
                    )
                } else {
                    Err(refused(sx, toks, "'(' or operator"@))
                }
            },
            TokenV::Keyword(k, loc) => {
                if k == Keyword::Function {
                    if expect_opn {
                        match func_def(sx, rest, loc) {
                            Err(e) => Err(e),
                            Ok((f, t1)) => if t1.len() <= rest.len() {
                                expr_loop(
                                    sx,
                                    t1,
                                    consume_stop,
                                    stop,
                                    opns.push(ExprV::FuncDef(Box::new(f))),
                                    oprs,
                                    false,
                                )
                            } else {
                                Err(stuck())
                            },
                        }
                    } else {
                        Err(refused(sx, toks, "'(' or operator"@))
                    }
                } else {
                    Err(refused(sx, toks, "expression"@))
                }
            },
        }
    }
}

/// The arguments of a call, after its `(`: `)`, or expressions between
/// commas and `)`.
pub open spec fn arg_list(sx: Syntax, toks: Toks) -> Parsed<Seq<ExprV>>
    decreases toks.len(), 3nat,
{
    if punct_next(toks, ')') {
        Ok((Seq::empty(), toks.skip(1)))
    } else if !token_next(toks) {
        Err(refused(sx, toks, "')' or expression"@))
    } else {
        more_args(sx, toks, Seq::empty())
    }
}

/// One more argument and what follows it.
pub open spec fn more_args(sx: Syntax, toks: Toks, args: Seq<ExprV>) -> Parsed<Seq<ExprV>>
    decreases toks.len(), 2nat,
{
    match expr(sx, toks, false, seq![',', ')']) {
        Err(e) => Err(e),
        Ok((e, t1)) => if punct_next(t1, ')') {
            Ok((args.push(e), t1.skip(1)))
        } else if punct_next(t1, ',') {
            if t1.len() <= toks.len() {
                more_args(sx, t1.skip(1), args.push(e))
            } else {
                Err(stuck())
            }
        } else {
            Err(refused(sx, t1, "',' or ')'"@))
        },
    }
}

/// The elements of a vector literal, after its `[` at `loc` and the
/// elements `items`: `]`, or one more element and what follows it.
pub open spec fn vec_items(sx: Syntax, toks: Toks, loc: SrcLocV, items: Seq<ExprV>) -> Parsed<ExprV>
    decreases toks.len(), 2nat,
{
    if punct_next(toks, ']') {
        Ok((ExprV::Vec(items, loc), toks.skip(1)))
    } else if !token_next(toks) {
        Err(refused(sx, toks, "']' or expression"@))
    } else {
        match expr(sx, toks, false, seq![']', ',']) {
            Err(e) => Err(e),
            Ok((e, t1)) => if punct_next(t1, ']') {
                Ok((ExprV::Vec(items.push(e), loc), t1.skip(1)))
            } else if punct_next(t1, ',') {
                if t1.len() <= toks.len() {
                    vec_items(sx, t1.skip(1), loc, items.push(e))
                } else {
                    Err(stuck())
                }
            } else {
                Err(refused(sx, t1, "',' or ']'"@))
            },
        }
    }
}

/// The key of an entry of a map literal: an identifier or a string.
pub open spec fn key_next(toks: Toks) -> Option<Seq<char>> {
    if toks.len() == 0 {
        None
    } else {
        match toks[0] {
            Ok(TokenV::Ident(s, _)) => Some(s),
            Ok(TokenV::String(s, _)) => Some(s),
            _ => None,
        }
    }
}

/// The entries of a map literal, after its `{` at `loc` and the entries
/// `entries`: `}`, or one more entry `key: value` and what follows it.
pub open spec fn map_items(
    sx: Syntax,
    toks: Toks,
    loc: SrcLocV,
    entries: Seq<(Seq<char>, ExprV)>,
) -> Parsed<ExprV>
    decreases toks.len(), 2nat,
{
    if punct_next(toks, '}') {
        Ok((ExprV::Dict(entries, loc), toks.skip(1)))
    } else {
        match key_next(toks) {
            None => Err(refused(sx, toks, "identifier or string"@)),
            Some(key) => {
                let t0 = toks.skip(1);
                if !punct_next(t0, ':') {
                    Err(refused(sx, t0, quote(':')))
                } else {
                    match expr(sx, t0.skip(1), false, seq![',', '}']) {
                        Err(e) => Err(e),
                        Ok((e, t1)) => if punct_next(t1, '}') {
                            Ok((ExprV::Dict(entries.push((key, e)), loc), t1.skip(1)))
                        } else if punct_next(t1, ',') {
                            if t1.len() <= toks.len() {
                                map_items(sx, t1.skip(1), loc, entries.push((key, e)))
                            } else {
                                Err(stuck())
                            }
                        } else {
                            Err(refused(sx, t1, "',' or '}'"@))
                        },
                    }
                }
            },
        }
    }
}

/// A declaration, after its `var`: `name;` or `name = expression;`.
pub open spec fn var_decl(sx: Syntax, toks: Toks) -> Parsed<StmtV>
    decreases toks.len(), 2nat,
{
    if ident_next(toks) is Some {
        let (name, loc) = ident_next(toks)->Some_0;
        let t1 = toks.skip(1);
        if t1.len() > 0 && (t1[0] matches Ok(TokenV::Operator(op, _)) && op == "="@) {
            match expr(sx, t1.skip(1), true, seq![';']) {
                Err(e) => Err(e),
                Ok((e, t2)) => Ok((StmtV::VarDecl(name, Some(e), loc), t2)),
            }
        } else if punct_next(t1, ';') {
            Ok((StmtV::VarDecl(name, None, loc), t1.skip(1)))
        } else {
            Err(refused(sx, t1, "'=' or ';'"@))
        }
    } else {
        Err(refused(sx, toks, "identifier"@))
    }
}

/// An expression statement: `expression;`.
pub open spec fn expr_stmt(sx: Syntax, toks: Toks) -> Parsed<StmtV>
    decreases toks.len(), 2nat,
{
    match expr(sx, toks, true, seq![';']) {
        Err(e) => Err(e),
        Ok((e, t1)) => Ok((StmtV::Expression(e), t1)),
    }
}

/// An `if`, after the keyword: `(test) statement`, and `else statement`
/// where an `else` follows. Its place is the place of the `(`.
pub open spec fn if_stmt(sx: Syntax, toks: Toks) -> Parsed<StmtV>
    decreases toks.len(), 2nat,
{
    if !punct_next(toks, '(') {
        Err(refused(sx, toks, quote('(')))
    } else {
        let loc = token_place(toks[0]->Ok_0);
        match expr(sx, toks.skip(1), true, seq![')']) {
            Err(e) => Err(e),
            Ok((test, t2)) => if t2.len() >= toks.len() {
                Err(stuck())
            } else {
                match statement(sx, t2) {
                    Err(e) => Err(e),
                    Ok((first, t3)) => if t3.len() > 0 && (t3[0] matches Ok(
                        TokenV::Keyword(k, _),
                    ) && k == Keyword::Else) {
                        if t3.len() > toks.len() {
                            Err(stuck())
                        } else {
                            match statement(sx, t3.skip(1)) {
                                Err(e) => Err(e),
                                Ok((second, t4)) => Ok(
                                    (
                                        StmtV::If(
                                            test,
                                            Box::new(first),
                                            Some(Box::new(second)),
                                            loc,
                                        ),
                                        t4,
                                    ),
                                ),
                            }
                        }
                    } else if t3.len() > 0 && t3[0] is Err {
                        Err(t3[0]->Err_0)
                    } else {
                        Ok((StmtV::If(test, Box::new(first), None, loc), t3))
                    },
                }
            },
        }
    }
}

/// A `while`, after the keyword: `(test) statement`. Its place is the
/// place of the `(`.
pub open spec fn while_stmt(sx: Syntax, toks: Toks) -> Parsed<StmtV>
    decreases toks.len(), 2nat,
{
    if !punct_next(toks, '(') {
        Err(refused(sx, toks, quote('(')))
    } else {
        let loc = token_place(toks[0]->Ok_0);
        match expr(sx, toks.skip(1), true, seq![')']) {
            Err(e) => Err(e),
            Ok((test, t2)) => if t2.len() >= toks.len() {
                Err(stuck())
            } else {
                match statement(sx, t2) {
                    Err(e) => Err(e),
                    Ok((body, t3)) => Ok((StmtV::While(test, Box::new(body), loc), t3)),
                }
            },
        }
    }
}

/// A `return`, after the keyword at `loc`: `;` or `expression;`. At the
/// end of the tokens it returns nothing.
pub open spec fn return_stmt(sx: Syntax, toks: Toks, loc: SrcLocV) -> Parsed<StmtV>
    decreases toks.len(), 2nat,
{
    if toks.len() == 0 {
        Ok((StmtV::Return(None, loc), toks))
    } else if toks[0] is Err {
        Err(toks[0]->Err_0)
    } else if punct_next(toks, ';') {
        Ok((StmtV::Return(None, loc), toks.skip(1)))
    } else {
        match expr(sx, toks, true, seq![';']) {
            Err(e) => Err(e),
            Ok((e, t1)) => Ok((StmtV::Return(Some(e), loc), t1)),
        }
    }
}

/// A statement.
pub open spec fn statement(sx: Syntax, toks: Toks) -> Parsed<StmtV>
    decreases toks.len(), 3nat,
{
    if !token_next(toks) {
        Err(refused(sx, toks, "statement"@))
    } else {
        let rest = toks.skip(1);
        match toks[0]->Ok_0 {
            TokenV::Punct(p, loc) => if p == ';' {
                Ok((StmtV::Empty, rest))
            } else if p == '{' {
                match block(sx, toks) {
                    Err(e) => Err(e),
                    Ok((b, t1)) => Ok((StmtV::Block(b), t1)),
                }
            } else {
                expr_stmt(sx, toks)
            },
            TokenV::Keyword(k, loc) => match k {
                Keyword::Var => var_decl(sx, rest),
                Keyword::If => if_stmt(sx, rest),
                Keyword::While => while_stmt(sx, rest),
                Keyword::Break => match expect_punct(sx, rest, ';') {
                    Err(e) => Err(e),
                    Ok((_, t1)) => Ok((StmtV::Break(loc), t1)),
                },
                Keyword::Return => return_stmt(sx, rest, loc),
                _ => expr_stmt(sx, toks),
            },
            _ => expr_stmt(sx, toks),
        }
    }
}

/// A block: `{ statement ... }`. Its place is the place of the `{`.
pub open spec fn block(sx: Syntax, toks: Toks) -> Parsed<BlockV>
    decreases toks.len(), 0nat,
{
    if !punct_next(toks, '{') {
        Err(refused(sx, toks, quote('{')))
    } else {
        block_items(sx, toks.skip(1), token_place(toks[0]->Ok_0), Seq::empty())
    }
}

/// The statements of a block, after its `{` at `loc` and the statements
/// `stmts`: `}`, or one more statement and what follows it.
pub open spec fn block_items(sx: Syntax, toks: Toks, loc: SrcLocV, stmts: Seq<StmtV>) -> Parsed<
    BlockV,
>
    decreases toks.len(), 4nat,
{
    if punct_next(toks, '}') {
        Ok((BlockV { stmts, loc }, toks.skip(1)))
    } else if !token_next(toks) {
        Err(refused(sx, toks, "statement"@))
    } else {
        match statement(sx, toks) {
            Err(e) => Err(e),
            Ok((s, t1)) => if t1.len() < toks.len() {
                block_items(sx, t1, loc, stmts.push(s))
            } else {
                Err(stuck())
            },
        }
    }
}

/// A function, after the keyword at `loc` and its name, if it has one:
/// `(parameters) block`.
pub open spec fn func_def(sx: Syntax, toks: Toks, loc: SrcLocV) -> Parsed<FuncV>
    decreases toks.len(), 1nat,
{
    match param_list(sx, toks) {
        Err(e) => Err(e),
        Ok((params, t1)) => if t1.len() <= toks.len() {
            match block(sx, t1) {
                Err(e) => Err(e),
                Ok((b, t2)) => Ok((FuncV { params, block: b, loc }, t2)),
            }
        } else {
            Err(stuck())
        },
    }
}

/// A named function, after the keyword: `name (parameters) block`. Its
/// place is the place of the name.
pub open spec fn named_func(sx: Syntax, toks: Toks) -> Parsed<NamedFuncV> {
    if ident_next(toks) is Some {
        let (name, loc) = ident_next(toks)->Some_0;
        match func_def(sx, toks.skip(1), loc) {
            Err(e) => Err(e),
            Ok((f, t1)) => Ok((NamedFuncV { name, def: f }, t1)),
        }
    } else {
        Err(refused(sx, toks, "function name"@))
    }
}

/// The string that is the next of `toks`, and its place.
pub open spec fn string_next(toks: Toks) -> Option<(Seq<char>, SrcLocV)> {
    if toks.len() == 0 {
        None
    } else {
        match toks[0] {
            Ok(TokenV::String(text, loc)) => Some((text, loc)),
            _ => None,
        }
    }
}

/// The path of the source `name` for a script in the directory `base`.
pub open spec fn path_of(base: Option<Seq<char>>, name: Seq<char>) -> Seq<char> {
    match base {
        Some(dir) => dir + "/"@ + name,
        None => name,
    }
}

/// The error for a source that could not be opened, reported at `loc`.
pub open spec fn unread(loc: SrcLocV, e: ReadErrorV) -> ParseErrorV {
    ParseErrorV { loc, msg: e.text, from_read: true, io: e.io }
}

/// The functions of a script: what the tokens `toks` add to `funcs`.
///
/// A script is made of definitions `function name (parameters) block`
/// and of directives `include "name"`. The tokens of an included source
/// take the place of the directive. `sources` sources can still be
/// opened; `opened` is what opening the sources gives, one after the
/// other.
pub open spec fn script<H: NativeHost>(
    host: H,
    sx: Syntax,
    base: Option<Seq<char>>,
    toks: Toks,
    funcs: Seq<NamedFuncV>,
    sources: nat,
    opened: Seq<Opened>,
) -> Result<Seq<NamedFuncV>, ParseErrorV>
    decreases sources, toks.len(),
{
    if toks.len() == 0 {
        Ok(funcs)
    } else {
        let rest = toks.skip(1);
        match toks[0] {
            Err(e) => Err(e),
            Ok(TokenV::Keyword(Keyword::Include, _)) => match string_next(rest) {
                None => Err(refused(sx, rest, "string"@)),
                Some((name, loc)) => if sources == 0 {
                    Err(ParseErrorV::at(loc, "too many sources"@))
                } else if opened.len() == 0 {
                    Err(stuck())
                } else {
                    match opened[0] {
                        Err(e) => Err(unread(loc, e)),
                        Ok(chars) => script(
                            host,
                            sx,
                            base,
                            lex(host, sx.ops, path_of(base, name), start_of(chars)) + rest.skip(1),
                            funcs,
                            (sources - 1) as nat,
                            opened.skip(1),
                        ),
                    }
                },
            },
            Ok(TokenV::Keyword(Keyword::Function, _)) => match named_func(sx, rest) {
                Err(e) => Err(e),
                Ok((f, t1)) => if t1.len() < toks.len() {
                    script(host, sx, base, t1, funcs.push(f), sources, opened)
                } else {
                    Err(stuck())
                },
            },
            Ok(_) => Err(refused(sx, toks, "'include' or 'function'"@)),
        }
    }
}

/// The position of the last `/` among the first `n` characters of `s`.
pub open spec fn last_slash(s: Seq<char>, n: nat) -> Option<nat>
    decreases n,
{
    if n == 0 || n > s.len() {
        None
    } else if s[n - 1] == '/' {
        Some((n - 1) as nat)
    } else {
        last_slash(s, (n - 1) as nat)
    }
}

/// The directory part and the file part of the path `s`: what stands
/// before and after its last `/`. A path without `/` has no directory
/// part.
pub open spec fn split(s: Seq<char>) -> (Option<Seq<char>>, Seq<char>) {
    match last_slash(s, s.len()) {
        Some(i) => (Some(s.subrange(0, i as int)), s.subrange(i as int + 1, s.len() as int)),
        None => (None, s),
    }
}

/// The place in no file, where a script is reported that names no file.
pub open spec fn nowhere() -> SrcLocV {
    SrcLocV { filename: "(no file)"@, line_num: 0, col_num: 0 }
}

/// The functions of the script in the source `filename` and of what it
/// includes, in the order in which they are defined.
///
/// `sx` gives the operators and the precedences. The sources are taken
/// from the directory of `filename`; at most `sources` of them are
/// opened, and `opened` is what opening them gives, one after the other.
pub open spec fn program<H: NativeHost>(
    host: H,
    sx: Syntax,
    filename: Seq<char>,
    sources: nat,
    opened: Seq<Opened>,
) -> Result<Seq<NamedFuncV>, ParseErrorV> {
    let (dir, file) = split(filename);
    let path = path_of(dir, file);
    let top = SrcLocV { filename: path, line_num: 0, col_num: 0 };
    if file.len() == 0 {
        Err(ParseErrorV::at(nowhere(), filename + " doesn't specify a file"@))
    } else if sources == 0 {
        Err(ParseErrorV::at(top, "too many sources"@))
    } else if opened.len() == 0 {
        Err(stuck())
    } else {
        match opened[0] {
            Err(e) => Err(unread(top, e)),
            Ok(chars) => script(
                host,
                Syntax { end: lex_end(host, sx.ops, path, start_of(chars)).loc(path), ..sx },
                dir,
                lex(host, sx.ops, path, start_of(chars)),
                Seq::empty(),
                (sources - 1) as nat,
                opened.skip(1),
            ),
        }
    }
}

} // verus!
