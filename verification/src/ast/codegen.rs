//! What compiling a tree emits.
//!
//! Compilation is a function from a tree, the scopes in force and the
//! program built so far to the program after the tree was compiled, and
//! the error that stopped the compilation, if one did. Names are resolved
//! while the code is emitted, against the same kind of scopes that the
//! resolver uses; unlike the resolver, the compiler gives all variables
//! that one block declares slots in one frame.
use vstd::prelude::*;
use crate::ast::expressions::{BinaryOp, Expression, PrefixOp, raw_loc};
use crate::ast::resolve::{Scopes, quoted};
use crate::ast::statements::{
    Block, FuncDef, IfStatement, ReturnStatement, Statement, VarDecl, WhileStatement,
};
use crate::bytecode::gen::{ProgramV, patch_jump, patch_newenv};
use crate::bytecode::instr::{word_12_12, word_26};
use crate::bytecode::opcodes::{
    OP_CALL, OP_GETELEM, OP_GETVAR, OP_HALT, OP_JF, OP_JMP, OP_NEWENV, OP_POPENV, OP_POPVAL,
    OP_PUSHLIT, OP_RET, OP_SETELEM, OP_SETVAR, OP_TEST,
};
use crate::bytecode::{Addr, INVALID_ADDR};
use crate::parser::errors::{ParseError, ParseErrorV};
use crate::sym_tab::{lookup, names_view, slot_after_add, with_name};
use crate::value::Value;

verus! {

/// The program after a compilation, and the error that stopped it.
pub type Compiled = (ProgramV, Option<ParseErrorV>);

/// `halt`, which stands in for what the instruction set cannot express.
pub open spec fn halt_word() -> u32 {
    word_26(OP_HALT, 0x3ff_ffff)
}

/// The program with `val` added as a literal and the instruction that
/// pushes it.
pub open spec fn push_literal(p: ProgramV, val: Value) -> ProgramV {
    p.with_literal(val).emit(word_26(OP_PUSHLIT, p.literals.len() as u32))
}

/// Whether the program `p` and the result `r` are what `out` says.
pub open spec fn compiled_is<T>(p: ProgramV, r: Result<T, ParseError>, out: Compiled) -> bool {
    &&& p == out.0
    &&& match r {
        Ok(_) => out.1 is None,
        Err(e) => out.1 == Some(e@),
    }
}

/// An expression compiles to code that leaves its value on the stack.
///
/// A literal is added to the literals and pushed. A variable is read from
/// its address. An element is read after its container and its index were
/// pushed. An operator is an ordinary value: it is read from its address
/// and called with its operands. Vector, map and function literals, the
/// attribute access and the assignment to an element compile to `halt`.
pub open spec fn compile_expr(e: Expression, sym: Scopes, p: ProgramV) -> Compiled
    decreases e, 0nat,
{
    match e {
        Expression::Number(n, _) => (push_literal(p, Value::Number(n)), None),
        Expression::String(s, _) => (push_literal(p, Value::String(s)), None),
        Expression::Ident(id, loc) => match lookup(sym, id@) {
            Some((vi, ei)) => (p.emit(word_12_12(OP_GETVAR, vi as u16, ei as u16)), None),
            None => (p, Some(ParseErrorV::at(loc@, quoted("name not declared: '"@, id@)))),
        },
        Expression::Vec(_) => (p.emit(halt_word()), None),
        Expression::Dict(_) => (p.emit(halt_word()), None),
        Expression::Element(el) => {
            let (q1, e1) = compile_expr(*el.container, sym, p);
            if e1 is Some {
                (q1, e1)
            } else {
                let (q2, e2) = compile_expr(*el.index, sym, q1);
                if e2 is Some {
                    (q2, e2)
                } else {
                    (q2.emit(word_26(OP_GETELEM, 0)), None)
                }
            }
        },
        Expression::BinaryOp(op) => if op.op@ == "="@ {
            compile_assign(op, sym, p)
        } else if op.op@ == "."@ {
            compile_dot(op, sym, p)
        } else {
            compile_binary(op, sym, p)
        },
        Expression::PrefixOp(op) => compile_prefix(op, sym, p),
        Expression::FuncDef(_) => (p.emit(halt_word()), None),
        Expression::FuncCall(f) => {
            let (q1, e1) = compile_expr(*f.func, sym, p);
            if e1 is Some {
                (q1, e1)
            } else {
                let (q2, e2) = compile_list(f.args@, f.args@.len(), sym, q1);
                if e2 is Some {
                    (q2, e2)
                } else {
                    (q2.emit(word_12_12(OP_CALL, 0, f.args@.len() as u16)), None)
                }
            }
        },
    }
}

/// The first `n` expressions of `es`, compiled from left to right.
pub open spec fn compile_list(es: Seq<Expression>, n: nat, sym: Scopes, p: ProgramV) -> Compiled
    decreases es, n,
{
    if n == 0 || n > es.len() {
        (p, None)
    } else {
        let (q1, e1) = compile_list(es, (n - 1) as nat, sym, p);
        if e1 is Some {
            (q1, e1)
        } else {
            compile_expr(es[n - 1], sym, q1)
        }
    }
}

/// `left op right`: the operator, the operands, then a call with two
/// arguments.
pub open spec fn compile_binary(op: BinaryOp, sym: Scopes, p: ProgramV) -> Compiled
    decreases op, 0nat,
{
    match lookup(sym, op.op@) {
        None => (p, Some(ParseErrorV::at(op.loc@, quoted("operator doesn't exist: '"@, op.op@)))),
        Some((vi, ei)) => {
            let p0 = p.emit(word_12_12(OP_GETVAR, vi as u16, ei as u16));
            let (q1, e1) = compile_expr(*op.left, sym, p0);
            if e1 is Some {
                (q1, e1)
            } else {
                let (q2, e2) = compile_expr(*op.right, sym, q1);
                if e2 is Some {
                    (q2, e2)
                } else {
                    (q2.emit(word_12_12(OP_CALL, 0, 2)), None)
                }
            }
        },
    }
}

/// `op arg`: the operator, the operand, then a call with one argument.
pub open spec fn compile_prefix(op: PrefixOp, sym: Scopes, p: ProgramV) -> Compiled
    decreases op, 0nat,
{
    match lookup(sym, op.op@) {
        None => (p, Some(ParseErrorV::at(op.loc@, quoted("operator doesn't exist: '"@, op.op@)))),
        Some((vi, ei)) => {
            let p0 = p.emit(word_12_12(OP_GETVAR, vi as u16, ei as u16));
            let (q1, e1) = compile_expr(*op.arg, sym, p0);
            if e1 is Some {
                (q1, e1)
            } else {
                (q1.emit(word_12_12(OP_CALL, 0, 1)), None)
            }
        },
    }
}

/// `op.left = op.right`: an assignment to a variable compiles to the value
/// and a `setvar`, which leaves the value on the stack.
pub open spec fn compile_assign(op: BinaryOp, sym: Scopes, p: ProgramV) -> Compiled
    decreases op, 0nat,
{
    match *op.left {
        Expression::Ident(id, loc) => match lookup(sym, id@) {
            Some((vi, ei)) => {
                let (q1, e1) = compile_expr(*op.right, sym, p);
                if e1 is Some {
                    (q1, e1)
                } else {
                    (q1.emit(word_12_12(OP_SETVAR, vi as u16, ei as u16)), None)
                }
            },
            None => (
                p,
                Some(ParseErrorV::at(loc@, quoted("assignment to undeclared variable '"@, id@))),
            ),
        },
        Expression::Element(el) => {
            let (q1, e1) = compile_expr(*el.container, sym, p);
            if e1 is Some {
                (q1, e1)
            } else {
                let (q2, e2) = compile_expr(*el.index, sym, q1);
                if e2 is Some {
                    (q2, e2)
                } else {
                    compile_store(*op.right, sym, q2)
                }
            }
        },
        Expression::BinaryOp(dot) => if dot.op@ == "."@ && *dot.right is Ident {
            let (q1, e1) = compile_expr(*dot.left, sym, p);
            if e1 is Some {
                (q1, e1)
            } else {
                compile_store(
                    *op.right,
                    sym,
                    push_literal(q1, Value::String(dot.right->Ident_0)),
                )
            }
        } else {
            (p, Some(ParseErrorV::at(op.loc@, "assignment to invalid target"@)))
        },
        _ => (p, Some(ParseErrorV::at(op.loc@, "assignment to invalid target"@))),
    }
}

/// The end of an assignment to an element, after the code of the
/// container and of the index: the value and a `setelem`, which stores the
/// value and leaves it on the stack.
pub open spec fn compile_store(val: Expression, sym: Scopes, p: ProgramV) -> Compiled
    decreases val, 1nat,
{
    let (q1, e1) = compile_expr(val, sym, p);
    if e1 is Some {
        (q1, e1)
    } else {
        (q1.emit(word_26(OP_SETELEM, 0)), None)
    }
}

/// `left . name`: the container, the name as a string, and a `getelem`.
/// What stands after the dot must be an identifier.
pub open spec fn compile_dot(op: BinaryOp, sym: Scopes, p: ProgramV) -> Compiled
    decreases op, 0nat,
{
    match *op.right {
        Expression::Ident(name, _) => {
            let (q1, e1) = compile_expr(*op.left, sym, p);
            if e1 is Some {
                (q1, e1)
            } else {
                (push_literal(q1, Value::String(name)).emit(word_26(OP_GETELEM, 0)), None)
            }
        },
        _ => (
            p,
            Some(ParseErrorV::at(raw_loc(*op.right)@, "attribute must be an identifier"@)),
        ),
    }
}

/// A statement compiles to code that leaves the stack as it found it.
pub open spec fn compile_stmt(s: Statement, sym: Scopes, p: ProgramV) -> Compiled
    decreases s, 0nat,
{
    match s {
        Statement::Empty => (p, None),
        Statement::VarDecl(d) => (
            p,
            Some(ParseErrorV::at(d.loc@, "internal error: trying to parse variable declaration"@)),
        ),
        Statement::Expression(e) => {
            let (q1, e1) = compile_expr(e, sym, p);
            if e1 is Some {
                (q1, e1)
            } else {
                (q1.emit(word_12_12(OP_POPVAL, 0, 1)), None)
            }
        },
        Statement::Block(b) => compile_block(b, sym, p),
        Statement::If(i) => compile_if(i, sym, p),
        Statement::While(w) => compile_while(w, sym, p),
        Statement::Return(r) => compile_return(r, sym, p),
        Statement::Break(loc) => compile_break(loc@, p),
    }
}

/// `break`: leaves the frames that were entered inside the loop, then
/// jumps to the end of the loop, which is not known yet: the jump waits in
/// the context of the loop. Outside of a loop it is an error.
pub open spec fn compile_break(loc: crate::src_loc::SrcLocV, p: ProgramV) -> Compiled {
    match p.while_env_level() {
        Err(_) => (p, Some(ParseErrorV::at(loc, "'break' not allowed here"@))),
        Ok(n_envs) => {
            let q1 = if n_envs > 0 {
                p.emit(word_12_12(OP_POPENV, 0, n_envs as u16))
            } else {
                p
            };
            (q1.emit(word_26(OP_JMP, INVALID_ADDR)).wait_break(q1.addr()), None)
        },
    }
}

/// `return`: the value, or null, is pushed; every frame that was entered
/// since the function was entered is left; a jump goes to the end of the
/// function, which is not known yet: the jump waits in the context of the
/// function. Outside of a function it is an error.
pub open spec fn compile_return(r: ReturnStatement, sym: Scopes, p: ProgramV) -> Compiled
    decreases r, 0nat,
{
    let (q1, e1) = match r.expr {
        Some(e) => compile_expr(*e, sym, p),
        None => (p.emit(word_26(OP_PUSHLIT, 0)), None),
    };
    if e1 is Some {
        (q1, e1)
    } else {
        let q2 = q1.emit(word_12_12(OP_POPENV, 0, q1.env_level as u16));
        let q3 = q2.emit(word_26(OP_JMP, INVALID_ADDR));
        if q3.func_ctx.len() == 0 {
            (q3, Some(ParseErrorV::at(r.loc@, "'return' not allowed here"@)))
        } else {
            (q3.wait_return(q2.addr()), None)
        }
    }
}

/// `if`: the test, a `test`, a jump over the first branch where the flag is
/// not set, the first branch; with a second branch, a jump over it at the
/// end of the first, and the second branch.
pub open spec fn compile_if(i: IfStatement, sym: Scopes, p: ProgramV) -> Compiled
    decreases i, 0nat,
{
    let (q1, e1) = compile_expr(*i.test, sym, p);
    if e1 is Some {
        (q1, e1)
    } else {
        let q2 = q1.emit(word_26(OP_TEST, 0));
        let jmp_skip_true = q2.addr();
        let q3 = q2.emit(word_26(OP_JF, INVALID_ADDR));
        let (q4, e4) = compile_stmt(*i.true_stmt, sym, q3);
        if e4 is Some {
            (q4, e4)
        } else {
            match i.false_stmt {
                Some(f) => {
                    let jmp_skip_false = q4.addr();
                    let q5 = q4.emit(word_26(OP_JMP, INVALID_ADDR));
                    let q6 = ProgramV {
                        instr: patch_jump(q5.instr, jmp_skip_true, q5.addr()),
                        ..q5
                    };
                    let (q7, e7) = compile_stmt(*f, sym, q6);
                    if e7 is Some {
                        (q7, e7)
                    } else {
                        (
                            ProgramV {
                                instr: patch_jump(q7.instr, jmp_skip_false, q7.addr()),
                                ..q7
                            },
                            None,
                        )
                    }
                },
                None => (
                    ProgramV { instr: patch_jump(q4.instr, jmp_skip_true, q4.addr()), ..q4 },
                    None,
                ),
            }
        }
    }
}

/// `while`: the test, a `test`, a jump to the end where the flag is not
/// set, the body, a jump back to the test. The `break`s of the body wait in
/// a context that is opened before the test and closed at the end, where
/// they are patched to jump to the end.
pub open spec fn compile_while(w: WhileStatement, sym: Scopes, p: ProgramV) -> Compiled
    decreases w, 0nat,
{
    let p0 = p.open_while();
    let start = p0.addr();
    let (q1, e1) = compile_expr(*w.test, sym, p0);
    if e1 is Some {
        (q1, e1)
    } else {
        let q2 = q1.emit(word_26(OP_TEST, 0));
        let jmp = q2.addr();
        let q3 = q2.emit(word_26(OP_JF, INVALID_ADDR));
        let (q4, e4) = compile_stmt(*w.stmt, sym, q3);
        if e4 is Some {
            (q4, e4)
        } else {
            let q5 = q4.emit(word_26(OP_JMP, start));
            let end = q5.addr();
            let q6 = ProgramV { instr: patch_jump(q5.instr, jmp, end), ..q5 };
            if q6.while_ctx.len() == 0 {
                (
                    q6,
                    Some(crate::bytecode::gen::gen_error("no while context to close"@)),
                )
            } else {
                (q6.close_while(end), None)
            }
        }
    }
}

/// A block.
pub open spec fn compile_block(b: Block, sym: Scopes, p: ProgramV) -> Compiled
    decreases b, 0nat,
{
    compile_stmts(b.stmts@, 0, sym, p, 0, 0)
}

/// The statements of a block from the `i`-th on, after `num_vars`
/// declarations of the block were compiled, the first of which emitted its
/// `newenv` at `fix_addr`.
///
/// The first declaration of a block enters a frame that holds the value of
/// its initializer, and opens a scope with the declared name. Every further
/// declaration adds its name to that scope and stores the value of its
/// initializer in the slot of the name. A declaration without an
/// initializer stores null. At the end of a block that declared more than
/// one variable the `newenv` is patched to make a frame with a slot for
/// each; a block that declared any leaves its frame.
pub open spec fn compile_stmts(
    ss: Seq<Statement>,
    i: nat,
    sym: Scopes,
    p: ProgramV,
    num_vars: u16,
    fix_addr: Addr,
) -> Compiled
    decreases ss, ss.len() - i,
{
    if i >= ss.len() {
        let q1 = if num_vars > 1 {
            ProgramV { instr: patch_newenv(p.instr, fix_addr, 1, num_vars), ..p }
        } else {
            p
        };
        if num_vars > 0 {
            if q1.env_level < 1 {
                (
                    q1,
                    Some(
                        crate::bytecode::gen::gen_error(
                            "trying to add fixup without creating context"@,
                        ),
                    ),
                )
            } else {
                (
                    q1.at_level((q1.env_level - 1) as u32).emit(word_12_12(OP_POPENV, 0, 1)),
                    None,
                )
            }
        } else {
            (q1, None)
        }
    } else {
        match ss[i as int] {
            Statement::VarDecl(d) => if num_vars == u16::MAX {
                (p, Some(ParseErrorV::at(d.loc@, "too many variables in one block"@)))
            } else {
                let (q1, e1) = match d.val {
                    Some(e) => compile_expr(*e, sym, p),
                    None => (push_literal(p, Value::Null), None),
                };
                if e1 is Some {
                    (q1, e1)
                } else if num_vars == 0 {
                    if q1.env_level == u32::MAX {
                        (q1, Some(ParseErrorV::at(d.loc@, "too many nested scopes"@)))
                    } else {
                        let q2 = q1.at_level((q1.env_level + 1) as u32);
                        compile_stmts(
                            ss,
                            i + 1,
                            sym.push(seq![d.var@]),
                            q2.emit(word_12_12(OP_NEWENV, 1, 1)),
                            1,
                            q2.addr(),
                        )
                    }
                } else {
                    compile_stmts(
                        ss,
                        i + 1,
                        with_name(sym, d.var@),
                        q1.emit(word_12_12(OP_SETVAR, slot_after_add(sym, d.var@) as u16, 0)),
                        (num_vars + 1) as u16,
                        fix_addr,
                    )
                }
            },
            s => {
                let (q1, e1) = compile_stmt(s, sym, p);
                if e1 is Some {
                    (q1, e1)
                } else {
                    compile_stmts(ss, i + 1, sym, q1, num_vars, fix_addr)
                }
            },
        }
    }
}

/// A function compiles to its body and an epilogue that pushes null and
/// returns. The body starts with no frame open besides that of the
/// parameters, which the call makes. The `return`s of the body jump to the
/// `ret` of the epilogue.
pub open spec fn compile_func(f: FuncDef, sym: Scopes, p: ProgramV) -> Compiled
    decreases f, 0nat,
{
    let p0 = p.at_level(0).open_func();
    let (q1, e1) = compile_block(*f.block, sym.push(names_view(f.params@)), p0);
    if e1 is Some {
        (q1, e1)
    } else {
        let q2 = q1.emit(word_26(OP_PUSHLIT, 0));
        let end = q2.addr();
        let q3 = q2.emit(word_26(OP_RET, 0));
        if q3.func_ctx.len() == 0 {
            (q3, Some(crate::bytecode::gen::gen_error("no function context to close"@)))
        } else {
            (q3.close_func(end), None)
        }
    }
}

} // verus!
