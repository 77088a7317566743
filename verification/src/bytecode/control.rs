//! What compiling a statement does to the program.
//!
//! A statement is plain when it is built from expression statements, blocks
//! that declare one variable at most, `if`, `while`, `break` and `return`,
//! and the compiler has instructions for its expressions. Such a block
//! is compiled as it is evaluated: its declaration enters a frame that
//! holds the one variable, and the end of the block leaves the frame.
//! Compiling a plain statement adds instructions and literals at the end
//! of the program. It leaves the open contexts as they are, but for the
//! jumps of its own `break`s and `return`s, which wait in the innermost
//! contexts: each stands in the new code as a jump without a target.
use vstd::prelude::*;
use crate::ast::codegen::{
    Compiled, compile_block, compile_break, compile_expr, compile_if, compile_return,
    compile_stmt, compile_stmts, compile_while, push_literal,
};
use crate::ast::resolve::Scopes;
use crate::ast::statements::{IfStatement, ReturnStatement, Statement, WhileStatement};
use crate::bytecode::agree::{extends, is_compilable, lemma_expr_extends};
use crate::bytecode::flow::{compile_run, lemma_patch_all_len};
use crate::bytecode::gen::{FixupV, ProgramV, patch_all, patch_jump};
use crate::bytecode::instr::{lemma_patched_26, patched_26, word_12_12, word_26};
use crate::bytecode::opcodes::{OP_JF, OP_JMP, OP_NEWENV, OP_POPENV, OP_PUSHLIT, OP_TEST};
use crate::value::Value;
use crate::bytecode::{Addr, INVALID_ADDR};

verus! {

/// Whether `s` is plain: built from expression statements, blocks that
/// declare one variable at most, `if`, `while`, `break` and `return`, with
/// expressions that the compiler has instructions for.
pub open spec fn plain(s: Statement) -> bool
    decreases s, 0nat,
{
    match s {
        Statement::Empty => true,
        Statement::Expression(e) => is_compilable(e),
        Statement::Block(b) => plain_block(b.stmts@),
        Statement::If(i) => is_compilable(*i.test) && plain(*i.true_stmt) && match i.false_stmt {
            Some(f) => plain(*f),
            None => true,
        },
        Statement::While(w) => is_compilable(*w.test) && plain(*w.stmt),
        Statement::Break(_) => true,
        Statement::Return(r) => match r.expr {
            Some(e) => is_compilable(*e),
            None => true,
        },
        Statement::VarDecl(_) => false,
    }
}

/// The place of the first declaration among the statements of `ss` from
/// the `i`-th on.
pub open spec fn first_decl(ss: Seq<Statement>, i: nat) -> Option<nat>
    decreases ss.len() - i,
{
    if i >= ss.len() {
        None
    } else if ss[i as int] is VarDecl {
        Some(i)
    } else {
        first_decl(ss, i + 1)
    }
}

/// Whether the statements of `ss` from the `lo`-th up to the `hi`-th are
/// plain.
pub open spec fn plain_range(ss: Seq<Statement>, lo: nat, hi: nat) -> bool
    decreases ss, 0nat,
{
    forall|i: int| lo <= i < hi && i < ss.len() ==> plain(#[trigger] ss[i])
}

/// Whether the statements of a block are plain, but for one declaration
/// at most, whose initializer the compiler has instructions for.
pub open spec fn plain_block(ss: Seq<Statement>) -> bool
    decreases ss, 1nat,
{
    match first_decl(ss, 0) {
        None => plain_range(ss, 0, ss.len()),
        Some(k) => plain_range(ss, 0, k) && plain_range(ss, k + 1, ss.len()) && match ss[k as int] {
            Statement::VarDecl(d) => match d.val {
                Some(e) => is_compilable(*e),
                None => true,
            },
            _ => true,
        },
    }
}

/// Whether the frames and scopes of `s` fit an instruction, where `level`
/// frames and scopes at most are open around `s`: every declaration
/// enters a frame and opens a scope, and an instruction has 12 bits for
/// their number.
pub open spec fn shallow(s: Statement, level: nat) -> bool
    decreases s, 0nat,
{
    match s {
        Statement::Block(b) => shallow_block(b.stmts@, level),
        Statement::If(i) => shallow(*i.true_stmt, level) && match i.false_stmt {
            Some(f) => shallow(*f, level),
            None => true,
        },
        Statement::While(w) => shallow(*w.stmt, level),
        _ => true,
    }
}

/// Whether the frames and scopes of the statements of `ss` from the
/// `lo`-th up to the `hi`-th fit an instruction.
pub open spec fn shallow_range(ss: Seq<Statement>, lo: nat, hi: nat, level: nat) -> bool
    decreases ss, 0nat,
{
    forall|i: int| lo <= i < hi && i < ss.len() ==> shallow(#[trigger] ss[i], level)
}

/// Whether the frames and scopes of a block fit an instruction: the
/// statements after its declaration stand one level deeper.
pub open spec fn shallow_block(ss: Seq<Statement>, level: nat) -> bool
    decreases ss, 1nat,
{
    match first_decl(ss, 0) {
        None => shallow_range(ss, 0, ss.len(), level),
        Some(k) => level + 1 < 0x1000 && shallow_range(ss, 0, k, level) && shallow_range(
            ss,
            k + 1,
            ss.len(),
            level + 1,
        ),
    }
}

/// The first declaration is a declaration, and no declaration stands
/// before it.
pub proof fn lemma_first_decl(ss: Seq<Statement>, i: nat)
    ensures
        match first_decl(ss, i) {
            Some(k) => i <= k < ss.len() && ss[k as int] is VarDecl && forall|j: int|
                i <= j < k ==> !(#[trigger] ss[j] is VarDecl),
            None => forall|j: int| i <= j < ss.len() ==> !(#[trigger] ss[j] is VarDecl),
        },
    decreases ss.len() - i,
{
    if i < ss.len() && !(ss[i as int] is VarDecl) {
        lemma_first_decl(ss, i + 1);
    }
}

/// The jumps that wait for the end of the innermost open loop.
pub open spec fn brk_jumps(p: ProgramV) -> Seq<Addr> {
    if p.while_ctx.len() > 0 {
        p.while_ctx.last().instr_addrs
    } else {
        Seq::empty()
    }
}

/// The jumps that wait for the end of the innermost open function.
pub open spec fn ret_jumps(p: ProgramV) -> Seq<Addr> {
    if p.func_ctx.len() > 0 {
        p.func_ctx.last().instr_addrs
    } else {
        Seq::empty()
    }
}

/// A jump without a target.
pub open spec fn jump_nowhere() -> u32 {
    word_26(OP_JMP, INVALID_ADDR)
}

/// Whether the contexts `b` are the contexts `a`, but for the jumps that
/// wait in the innermost.
pub open spec fn same_contexts(a: Seq<FixupV>, b: Seq<FixupV>) -> bool {
    &&& a.len() == b.len()
    &&& a.len() > 0 ==> a.drop_last() == b.drop_last() && a.last().start_env_level
        == b.last().start_env_level
}

/// Whether the waiting jumps `new` are the waiting jumps `old` and more,
/// each of which stands at or after `lo` in `instr` as a jump without a
/// target.
pub open spec fn more_waiting(old: Seq<Addr>, new: Seq<Addr>, lo: nat, instr: Seq<u32>) -> bool {
    &&& old.len() <= new.len()
    &&& forall|k: int| 0 <= k < old.len() ==> new[k] == old[k]
    &&& forall|k: int|
        old.len() <= k < new.len() ==> lo <= (#[trigger] new[k]) < instr.len() && instr[new[k] as int]
            == jump_nowhere()
}

/// Whether `q` is `p` after a plain statement was compiled.
pub open spec fn grows(p: ProgramV, q: ProgramV) -> bool {
    &&& q.env_level == p.env_level
    &&& q.labels == p.labels
    &&& p.instr.len() <= q.instr.len()
    &&& forall|i: int| 0 <= i < p.instr.len() ==> q.instr[i] == p.instr[i]
    &&& p.literals.len() <= q.literals.len()
    &&& forall|i: int| 0 <= i < p.literals.len() ==> q.literals[i] == p.literals[i]
    &&& same_contexts(p.while_ctx, q.while_ctx)
    &&& same_contexts(p.func_ctx, q.func_ctx)
    &&& more_waiting(brk_jumps(p), brk_jumps(q), p.instr.len(), q.instr)
    &&& more_waiting(ret_jumps(p), ret_jumps(q), p.instr.len(), q.instr)
    &&& forall|j: int, k: int|
        brk_jumps(p).len() <= j < brk_jumps(q).len() && ret_jumps(p).len() <= k < ret_jumps(q).len()
            ==> #[trigger] brk_jumps(q)[j] != #[trigger] ret_jumps(q)[k]
}

/// A program that was extended has grown.
pub proof fn lemma_extends_grows(p: ProgramV, q: ProgramV)
    requires
        extends(p, q),
    ensures
        grows(p, q),
{
}

/// Growth adds up.
pub proof fn lemma_grows_trans(a: ProgramV, b: ProgramV, c: ProgramV)
    requires
        grows(a, b),
        grows(b, c),
    ensures
        grows(a, c),
{
    assert(same_contexts(a.while_ctx, c.while_ctx));
    assert(same_contexts(a.func_ctx, c.func_ctx));
    assert(more_waiting(brk_jumps(a), brk_jumps(c), a.instr.len(), c.instr)) by {
        assert forall|k: int| brk_jumps(a).len() <= k < brk_jumps(c).len() implies a.instr.len() <= (
        #[trigger] brk_jumps(c)[k]) < c.instr.len() && c.instr[brk_jumps(c)[k] as int]
            == jump_nowhere() by {
            if k < brk_jumps(b).len() {
                assert(brk_jumps(c)[k] == brk_jumps(b)[k]);
            }
        }
    }
    assert(more_waiting(ret_jumps(a), ret_jumps(c), a.instr.len(), c.instr)) by {
        assert forall|k: int| ret_jumps(a).len() <= k < ret_jumps(c).len() implies a.instr.len() <= (
        #[trigger] ret_jumps(c)[k]) < c.instr.len() && c.instr[ret_jumps(c)[k] as int]
            == jump_nowhere() by {
            if k < ret_jumps(b).len() {
                assert(ret_jumps(c)[k] == ret_jumps(b)[k]);
            }
        }
    }
    assert forall|j: int, k: int|
        brk_jumps(a).len() <= j < brk_jumps(c).len() && ret_jumps(a).len() <= k < ret_jumps(c).len()
        implies #[trigger] brk_jumps(c)[j] != #[trigger] ret_jumps(c)[k] by {
        if j < brk_jumps(b).len() {
            assert(brk_jumps(c)[j] == brk_jumps(b)[j]);
        }
        if k < ret_jumps(b).len() {
            assert(ret_jumps(c)[k] == ret_jumps(b)[k]);
        }
    }
}

/// Patching jumps changes no instruction but those patched.
pub proof fn lemma_patch_all_miss(instr: Seq<u32>, addrs: Seq<Addr>, target: u32, i: int)
    requires
        0 <= i < instr.len(),
        forall|k: int| 0 <= k < addrs.len() ==> addrs[k] != i,
    ensures
        patch_all(instr, addrs, target)[i] == instr[i],
    decreases addrs.len(),
{
    if addrs.len() > 0 {
        let rest = addrs.subrange(1, addrs.len() as int);
        assert(addrs[0] != i);
        assert forall|k: int| 0 <= k < rest.len() implies rest[k] != i by {
            assert(rest[k] == addrs[k + 1]);
        }
        lemma_patch_all_miss(patch_jump(instr, addrs[0], target), rest, target, i);
    }
}

/// A patched instruction keeps its operation code and goes to the target.
pub proof fn lemma_patch_all_hit(instr: Seq<u32>, addrs: Seq<Addr>, target: u32, k: int)
    requires
        0 <= k < addrs.len(),
        addrs[k] < instr.len(),
    ensures
        patch_all(instr, addrs, target)[addrs[k] as int] == patched_26(
            instr[addrs[k] as int],
            target,
        ),
    decreases addrs.len(),
{
    let a = addrs[k] as int;
    let rest = addrs.subrange(1, addrs.len() as int);
    let first = patch_jump(instr, addrs[0], target);
    lemma_patched_26(instr[a], target);
    lemma_patched_26(patched_26(instr[a], target), target);
    if k == 0 {
        lemma_patch_all_keeps(first, rest, target, a);
    } else {
        assert(rest[k - 1] == addrs[k]);
        lemma_patch_all_hit(first, rest, target, k - 1);
    }
}

/// Patching leaves an instruction as it is or as it is after one patch.
pub proof fn lemma_patch_all_keeps(instr: Seq<u32>, addrs: Seq<Addr>, target: u32, i: int)
    requires
        0 <= i < instr.len(),
    ensures
        patch_all(instr, addrs, target)[i] == instr[i] || patch_all(instr, addrs, target)[i]
            == patched_26(instr[i], target),
    decreases addrs.len(),
{
    if addrs.len() > 0 {
        let rest = addrs.subrange(1, addrs.len() as int);
        let first = patch_jump(instr, addrs[0], target);
        lemma_patched_26(instr[i], target);
        lemma_patched_26(patched_26(instr[i], target), target);
        lemma_patch_all_keeps(first, rest, target, i);
    }
}

/// Statements that are no declarations are compiled one by one: the
/// statements of `ss` from the `i`-th up to the `k`-th, and then the rest
/// of the block.
pub proof fn lemma_stmts_are_run(
    ss: Seq<Statement>,
    i: nat,
    k: nat,
    sym: Scopes,
    p: ProgramV,
    num_vars: u16,
    fix_addr: Addr,
)
    requires
        i <= k <= ss.len(),
        forall|j: int| i <= j < k ==> !(#[trigger] ss[j] is VarDecl),
    ensures
        compile_stmts(ss, i, sym, p, num_vars, fix_addr) == ({
            let (pa, ea) = compile_run(ss, i, k, sym, p);
            if ea is Some {
                (pa, ea)
            } else {
                compile_stmts(ss, k, sym, pa, num_vars, fix_addr)
            }
        }),
    decreases k - i,
{
    if i < k {
        assert(!(ss[i as int] is VarDecl));
        lemma_plain_run_peel(ss, i, k, sym, p);
        let (qa, ea) = compile_stmt(ss[i as int], sym, p);
        if ea is None {
            lemma_stmts_are_run(ss, i + 1, k, sym, qa, num_vars, fix_addr);
        }
    }
}

/// The end of a block that declared one variable: its frame is left.
pub open spec fn block_end(p: ProgramV) -> Compiled {
    if p.env_level < 1 {
        (p, Some(crate::bytecode::gen::gen_error("trying to add fixup without creating context"@)))
    } else {
        (p.at_level((p.env_level - 1) as u32).emit(word_12_12(OP_POPENV, 0, 1)), None)
    }
}

/// The program after the initializer of the declaration `s` was compiled.
pub open spec fn decl_value(s: Statement, sym: Scopes, p: ProgramV) -> Compiled {
    match s {
        Statement::VarDecl(d) => match d.val {
            Some(e) => compile_expr(*e, sym, p),
            None => (push_literal(p, Value::Null), None),
        },
        _ => (p, None),
    }
}

/// The scopes inside the frame of the declaration `s`.
pub open spec fn decl_scopes(s: Statement, sym: Scopes) -> Scopes {
    match s {
        Statement::VarDecl(d) => sym.push(seq![d.var@]),
        _ => sym,
    }
}

/// The code of a block of plain statements with one declaration at most:
/// the statements before the declaration; the initializer; a `newenv`
/// that enters a frame with the value; the statements after the
/// declaration; a `popenv` that leaves the frame.
pub open spec fn block_code(ss: Seq<Statement>, sym: Scopes, p: ProgramV) -> Compiled {
    match first_decl(ss, 0) {
        None => compile_run(ss, 0, ss.len(), sym, p),
        Some(k) => {
            let (pa, ea) = compile_run(ss, 0, k, sym, p);
            if ea is Some {
                (pa, ea)
            } else {
                let (q1, e1) = decl_value(ss[k as int], sym, pa);
                if e1 is Some {
                    (q1, e1)
                } else if q1.env_level == u32::MAX {
                    (
                        q1,
                        Some(
                            crate::parser::errors::ParseErrorV::at(
                                ss[k as int]->VarDecl_0.loc@,
                                "too many nested scopes"@,
                            ),
                        ),
                    )
                } else {
                    let q3 = q1.at_level((q1.env_level + 1) as u32).emit(
                        word_12_12(OP_NEWENV, 1, 1),
                    );
                    let (pr, er) = compile_run(
                        ss,
                        k + 1,
                        ss.len(),
                        decl_scopes(ss[k as int], sym),
                        q3,
                    );
                    if er is Some {
                        (pr, er)
                    } else {
                        block_end(pr)
                    }
                }
            }
        },
    }
}

/// A block of plain statements with one declaration at most compiles to
/// its code.
pub proof fn lemma_block_code(ss: Seq<Statement>, sym: Scopes, p: ProgramV)
    requires
        plain_block(ss),
    ensures
        compile_stmts(ss, 0, sym, p, 0, 0) == block_code(ss, sym, p),
{
    lemma_first_decl(ss, 0);
    match first_decl(ss, 0) {
        None => {
            lemma_stmts_are_run(ss, 0, ss.len(), sym, p, 0, 0);
        },
        Some(k) => {
            lemma_stmts_are_run(ss, 0, k, sym, p, 0, 0);
            let (pa, ea) = compile_run(ss, 0, k, sym, p);
            if ea is None {
                let (q1, e1) = decl_value(ss[k as int], sym, pa);
                if e1 is None && q1.env_level < u32::MAX {
                    let q2 = q1.at_level((q1.env_level + 1) as u32);
                    let q3 = q2.emit(word_12_12(OP_NEWENV, 1, 1));
                    assert forall|j: int| k + 1 <= j < ss.len() implies !(#[trigger] ss[j]
                        is VarDecl) by {
                        assert(plain(ss[j]));
                    }
                    lemma_stmts_are_run(
                        ss,
                        k + 1,
                        ss.len(),
                        decl_scopes(ss[k as int], sym),
                        q3,
                        1,
                        q2.addr(),
                    );
                }
            }
        },
    }
}

proof fn lemma_plain_run_peel(ss: Seq<Statement>, i: nat, n: nat, sym: Scopes, p: ProgramV)
    requires
        i < n <= ss.len(),
    ensures
        compile_run(ss, i, n, sym, p) == ({
            let (qa, ea) = compile_stmt(ss[i as int], sym, p);
            if ea is Some {
                (qa, ea)
            } else {
                compile_run(ss, i + 1, n, sym, qa)
            }
        }),
    decreases n,
{
    if n > i + 1 {
        lemma_plain_run_peel(ss, i, (n - 1) as nat, sym, p);
    } else {
        assert(compile_run(ss, i, i, sym, p) == (p, None::<crate::parser::errors::ParseErrorV>));
    }
}

/// The number of frames that were entered inside the innermost open loop.
pub open spec fn loop_frames(p: ProgramV) -> int {
    if p.while_ctx.len() > 0 {
        p.env_level - p.while_ctx.last().start_env_level
    } else {
        0
    }
}

/// The program after the code of a `break` that leaves the frames of the
/// loop, before its jump.
pub open spec fn before_break(p: ProgramV) -> ProgramV {
    if loop_frames(p) > 0 {
        p.emit(word_12_12(OP_POPENV, 0, loop_frames(p) as u32 as u16))
    } else {
        p
    }
}

/// Compiling a plain statement makes the program grow.
pub proof fn lemma_plain_grows(s: Statement, sym: Scopes, p: ProgramV)
    requires
        plain(s),
        compile_stmt(s, sym, p).1 is None,
        compile_stmt(s, sym, p).0.instr.len() <= u32::MAX,
    ensures
        grows(p, compile_stmt(s, sym, p).0),
    decreases s, 1nat,
{
    let q = compile_stmt(s, sym, p).0;
    match s {
        Statement::Expression(e) => {
            lemma_expr_extends(e, sym, p);
            let (qa, ea) = compile_expr(e, sym, p);
            assert(extends(p, qa.emit(word_12_12(crate::bytecode::opcodes::OP_POPVAL, 0, 1))));
        },
        Statement::Block(b) => {
            lemma_block_code(b.stmts@, sym, p);
            assert(compile_stmt(s, sym, p) == compile_block(b, sym, p));
            lemma_block_grows(b.stmts@, sym, p);
        },
        Statement::If(i) => {
            lemma_if_grows(i, sym, p);
        },
        Statement::While(w) => {
            lemma_while_grows(w, sym, p);
        },
        Statement::Break(loc) => {
            assert(q == compile_break(loc@, p).0);
            let q1 = before_break(p);
            let qa = q1.emit(jump_nowhere());
            assert(q == qa.wait_break(q1.addr()));
            assert(q.while_ctx.drop_last() =~= p.while_ctx.drop_last());
            assert(brk_jumps(q) =~= brk_jumps(p).push(q1.addr()));
        },
        Statement::Return(r) => {
            lemma_return_grows(r, sym, p);
        },
        _ => {},
    }
}

proof fn lemma_return_grows(r: ReturnStatement, sym: Scopes, p: ProgramV)
    requires
        plain(Statement::Return(r)),
        compile_return(r, sym, p).1 is None,
        compile_return(r, sym, p).0.instr.len() <= u32::MAX,
    ensures
        grows(p, compile_return(r, sym, p).0),
        compile_stmt(Statement::Return(r), sym, p) == compile_return(r, sym, p),
    decreases r, 0nat,
{
    let qa = match r.expr {
        Some(e) => compile_expr(*e, sym, p).0,
        None => p.emit(word_26(OP_PUSHLIT, 0)),
    };
    match r.expr {
        Some(e) => {
            lemma_expr_extends(*e, sym, p);
        },
        None => {},
    }
    let qb = qa.emit(word_12_12(OP_POPENV, 0, qa.env_level as u16));
    let qc = qb.emit(jump_nowhere());
    let q = qc.wait_return(qb.addr());
    assert(extends(p, qc));
    assert(q.func_ctx.drop_last() =~= p.func_ctx.drop_last());
    assert(ret_jumps(q) =~= ret_jumps(p).push(qb.addr()));
}

/// Compiling plain statements one by one lets the program grow as
/// compiling each of them does.
pub proof fn lemma_run_grows(ss: Seq<Statement>, i: nat, n: nat, sym: Scopes, p: ProgramV)
    requires
        plain_range(ss, i, n),
        i <= n <= ss.len(),
        compile_run(ss, i, n, sym, p).1 is None,
        compile_run(ss, i, n, sym, p).0.instr.len() <= u32::MAX,
    ensures
        grows(p, compile_run(ss, i, n, sym, p).0),
    decreases ss, n,
{
    if n > i {
        let (qa, ea) = compile_run(ss, i, (n - 1) as nat, sym, p);
        assert(plain(ss[n - 1]));
        lemma_plain_grows(ss[n - 1], sym, qa);
        lemma_run_grows(ss, i, (n - 1) as nat, sym, p);
        lemma_grows_trans(p, qa, compile_stmt(ss[n - 1], sym, qa).0);
    }
}

/// Growth does not depend on the number of frames that are open.
pub proof fn lemma_grows_at(a: ProgramV, b: ProgramV, level: u32)
    requires
        grows(a, b),
    ensures
        grows(a.at_level(level), b.at_level(level)),
{
    assert(brk_jumps(a.at_level(level)) == brk_jumps(a));
    assert(brk_jumps(b.at_level(level)) == brk_jumps(b));
    assert(ret_jumps(a.at_level(level)) == ret_jumps(a));
    assert(ret_jumps(b.at_level(level)) == ret_jumps(b));
}

/// Compiling a block of plain statements with one declaration at most
/// makes the program grow.
pub proof fn lemma_block_grows(ss: Seq<Statement>, sym: Scopes, p: ProgramV)
    requires
        plain_block(ss),
        block_code(ss, sym, p).1 is None,
        block_code(ss, sym, p).0.instr.len() <= u32::MAX,
    ensures
        grows(p, block_code(ss, sym, p).0),
    decreases ss, ss.len() + 1,
{
    lemma_first_decl(ss, 0);
    match first_decl(ss, 0) {
        None => {
            lemma_run_grows(ss, 0, ss.len(), sym, p);
        },
        Some(k) => {
            let level = p.env_level;
            let pa = compile_run(ss, 0, k, sym, p).0;
            let q1 = decl_value(ss[k as int], sym, pa).0;
            let q3 = q1.at_level((q1.env_level + 1) as u32).emit(word_12_12(OP_NEWENV, 1, 1));
            let inner = decl_scopes(ss[k as int], sym);
            let pr = compile_run(ss, k + 1, ss.len(), inner, q3).0;
            let q = block_code(ss, sym, p).0;
            assert(q == pr.at_level((pr.env_level - 1) as u32).emit(word_12_12(OP_POPENV, 0, 1)));
            lemma_run_grows(ss, k + 1, ss.len(), inner, q3);
            lemma_run_level(ss, k + 1, ss.len(), inner, q3);
            match ss[k as int] {
                Statement::VarDecl(d) => {
                    match d.val {
                        Some(e) => {
                            lemma_expr_extends(*e, sym, pa);
                        },
                        None => {},
                    }
                },
                _ => {},
            }
            assert(extends(pa, q1));
            lemma_run_grows(ss, 0, k, sym, p);
            lemma_run_level(ss, 0, k, sym, p);
            lemma_extends_grows(pa, q1);
            lemma_grows_trans(p, pa, q1);
            let q3l = q3.at_level(level);
            assert(extends(q1, q3l));
            lemma_extends_grows(q1, q3l);
            lemma_grows_trans(p, q1, q3l);
            lemma_grows_at(q3, pr, level);
            lemma_grows_trans(p, q3l, pr.at_level(level));
            assert(extends(pr.at_level(level), q));
            lemma_extends_grows(pr.at_level(level), q);
            lemma_grows_trans(p, pr.at_level(level), q);
        },
    }
}

/// The parts of the code of a block with a declaration at `k`: the
/// program after the statements before the declaration, after the
/// initializer, after the `newenv`, and after the statements after the
/// declaration.
pub open spec fn block_parts(ss: Seq<Statement>, k: nat, sym: Scopes, p: ProgramV) -> (
    ProgramV,
    ProgramV,
    ProgramV,
    ProgramV,
) {
    let pa = compile_run(ss, 0, k, sym, p).0;
    let q1 = decl_value(ss[k as int], sym, pa).0;
    let q3 = q1.at_level((q1.env_level + 1) as u32).emit(word_12_12(OP_NEWENV, 1, 1));
    let pr = compile_run(ss, k + 1, ss.len(), decl_scopes(ss[k as int], sym), q3).0;
    (pa, q1, q3, pr)
}

/// How the parts of the code of a block with a declaration follow each
/// other.
pub proof fn lemma_block_parts(ss: Seq<Statement>, k: nat, sym: Scopes, p: ProgramV)
    requires
        plain_block(ss),
        first_decl(ss, 0) == Some(k),
        block_code(ss, sym, p).1 is None,
        block_code(ss, sym, p).0.instr.len() <= u32::MAX,
    ensures
        ({
            let (pa, q1, q3, pr) = block_parts(ss, k, sym, p);
            let q = block_code(ss, sym, p).0;
            let level = p.env_level;
            &&& compile_run(ss, 0, k, sym, p).1 is None
            &&& decl_value(ss[k as int], sym, pa).1 is None
            &&& compile_run(ss, k + 1, ss.len(), decl_scopes(ss[k as int], sym), q3).1 is None
            &&& level < u32::MAX
            &&& pa.env_level == level
            &&& q1.env_level == level
            &&& q3.env_level == level + 1
            &&& pr.env_level == level + 1
            &&& q == pr.at_level(level).emit(word_12_12(OP_POPENV, 0, 1))
            &&& grows(p, pa)
            &&& extends(pa, q1)
            &&& q3.instr == q1.instr.push(word_12_12(OP_NEWENV, 1, 1))
            &&& q3.literals == q1.literals
            &&& grows(q3, pr)
            &&& grows(pa, q)
            &&& grows(q3.at_level(level), q)
            &&& grows(pr.at_level(level), q)
        }),
{
    lemma_first_decl(ss, 0);
    let level = p.env_level;
    let (pa, q1, q3, pr) = block_parts(ss, k, sym, p);
    let inner = decl_scopes(ss[k as int], sym);
    let q = block_code(ss, sym, p).0;
    lemma_run_level(ss, 0, k, sym, p);
    match ss[k as int] {
        Statement::VarDecl(d) => {
            match d.val {
                Some(e) => {
                    lemma_expr_extends(*e, sym, pa);
                },
                None => {},
            }
        },
        _ => {},
    }
    assert(extends(pa, q1));
    lemma_run_level(ss, k + 1, ss.len(), inner, q3);
    assert(q == pr.at_level((pr.env_level - 1) as u32).emit(word_12_12(OP_POPENV, 0, 1)));
    lemma_run_grows(ss, k + 1, ss.len(), inner, q3);
    lemma_run_grows(ss, 0, k, sym, p);
    let q3l = q3.at_level(level);
    let prl = pr.at_level(level);
    assert(extends(q1, q3l));
    assert(extends(prl, q));
    lemma_extends_grows(pa, q1);
    lemma_extends_grows(q1, q3l);
    lemma_extends_grows(prl, q);
    lemma_grows_at(q3, pr, level);
    lemma_grows_trans(q3l, prl, q);
    lemma_grows_trans(q1, q3l, q);
    lemma_grows_trans(pa, q1, q);
}

/// Compiling a block of plain statements with one declaration at most
/// leaves as many frames open as there were.
pub proof fn lemma_block_level(ss: Seq<Statement>, sym: Scopes, p: ProgramV)
    requires
        plain_block(ss),
    ensures
        block_code(ss, sym, p).1 is None ==> block_code(ss, sym, p).0.env_level == p.env_level,
    decreases ss, ss.len() + 1,
{
    lemma_first_decl(ss, 0);
    match first_decl(ss, 0) {
        None => {
            lemma_run_level(ss, 0, ss.len(), sym, p);
        },
        Some(k) => {
            let pa = compile_run(ss, 0, k, sym, p).0;
            let q1 = decl_value(ss[k as int], sym, pa).0;
            let q3 = q1.at_level((q1.env_level + 1) as u32).emit(word_12_12(OP_NEWENV, 1, 1));
            let inner = decl_scopes(ss[k as int], sym);
            lemma_run_level(ss, 0, k, sym, p);
            lemma_run_level(ss, k + 1, ss.len(), inner, q3);
            match ss[k as int] {
                Statement::VarDecl(d) => {
                    match d.val {
                        Some(e) => {
                            lemma_expr_extends(*e, sym, pa);
                        },
                        None => {},
                    }
                },
                _ => {},
            }
        },
    }
}

/// Compiling plain statements opens no frame.
pub proof fn lemma_plain_level(s: Statement, sym: Scopes, p: ProgramV)
    requires
        plain(s),
    ensures
        compile_stmt(s, sym, p).1 is None ==> compile_stmt(s, sym, p).0.env_level == p.env_level,
    decreases s, 1nat,
{
    match s {
        Statement::Expression(e) => {
            lemma_expr_extends(e, sym, p);
        },
        Statement::Block(b) => {
            lemma_block_code(b.stmts@, sym, p);
            assert(compile_stmt(s, sym, p) == compile_block(b, sym, p));
            lemma_block_level(b.stmts@, sym, p);
        },
        Statement::If(i) => {
            lemma_expr_extends(*i.test, sym, p);
            let qa = compile_expr(*i.test, sym, p).0;
            let qc = qa.emit(word_26(OP_TEST, 0)).emit(word_26(OP_JF, INVALID_ADDR));
            lemma_plain_level(*i.true_stmt, sym, qc);
            let qd = compile_stmt(*i.true_stmt, sym, qc).0;
            match i.false_stmt {
                Some(f) => {
                    let qe = qd.emit(jump_nowhere());
                    let qf = ProgramV {
                        instr: patch_jump(
                            qe.instr,
                            qa.emit(word_26(OP_TEST, 0)).addr(),
                            qe.addr(),
                        ),
                        ..qe
                    };
                    lemma_plain_level(*f, sym, qf);
                },
                None => {},
            }
            assert(compile_stmt(s, sym, p) == compile_if(i, sym, p));
        },
        Statement::While(w) => {
            let p0 = p.open_while();
            lemma_expr_extends(*w.test, sym, p0);
            let qa = compile_expr(*w.test, sym, p0).0;
            let qc = qa.emit(word_26(OP_TEST, 0)).emit(word_26(OP_JF, INVALID_ADDR));
            lemma_plain_level(*w.stmt, sym, qc);
            assert(compile_stmt(s, sym, p) == compile_while(w, sym, p));
        },
        Statement::Break(loc) => {
            assert(compile_stmt(s, sym, p) == compile_break(loc@, p));
        },
        Statement::Return(r) => {
            assert(compile_stmt(s, sym, p) == compile_return(r, sym, p));
            match r.expr {
                Some(e) => {
                    lemma_expr_extends(*e, sym, p);
                },
                None => {},
            }
        },
        _ => {},
    }
}

/// Compiling plain statements one by one leaves as many frames open as
/// there were.
pub proof fn lemma_run_level(ss: Seq<Statement>, i: nat, n: nat, sym: Scopes, p: ProgramV)
    requires
        plain_range(ss, i, n),
        i <= n <= ss.len(),
    ensures
        compile_run(ss, i, n, sym, p).1 is None ==> compile_run(ss, i, n, sym, p).0.env_level
            == p.env_level,
    decreases ss, n,
{
    if n > i {
        let (qa, ea) = compile_run(ss, i, (n - 1) as nat, sym, p);
        lemma_run_level(ss, i, (n - 1) as nat, sym, p);
        assert(plain(ss[n - 1]));
        lemma_plain_level(ss[n - 1], sym, qa);
    }
}

proof fn lemma_if_grows(i: IfStatement, sym: Scopes, p: ProgramV)
    requires
        plain(Statement::If(i)),
        compile_if(i, sym, p).1 is None,
        compile_if(i, sym, p).0.instr.len() <= u32::MAX,
    ensures
        grows(p, compile_if(i, sym, p).0),
        compile_stmt(Statement::If(i), sym, p) == compile_if(i, sym, p),
    decreases i, 0nat,
{
    let qa = compile_expr(*i.test, sym, p).0;
    let qb = qa.emit(word_26(OP_TEST, 0));
    let qc = qb.emit(word_26(OP_JF, INVALID_ADDR));
    let qd = compile_stmt(*i.true_stmt, sym, qc).0;
    lemma_expr_extends(*i.test, sym, p);
    assert(extends(p, qc));
    lemma_extends_grows(p, qc);
    lemma_plain_level(*i.true_stmt, sym, qc);
    match i.false_stmt {
        Some(f) => {
            let qe = qd.emit(jump_nowhere());
            let qf = ProgramV { instr: patch_jump(qe.instr, qb.addr(), qe.addr()), ..qe };
            let qg = compile_stmt(*f, sym, qf).0;
            let qh = ProgramV { instr: patch_jump(qg.instr, qd.addr(), qg.addr()), ..qg };
            lemma_plain_grows(*f, sym, qf);
            lemma_plain_grows(*i.true_stmt, sym, qc);
            lemma_grows_trans(p, qc, qd);
            assert(brk_jumps(qc) == brk_jumps(p));
            assert(ret_jumps(qc) == ret_jumps(p));
            assert(grows(p, qf)) by {
                assert forall|k: int| brk_jumps(p).len() <= k < brk_jumps(qf).len() implies p.instr.len()
                    <= (#[trigger] brk_jumps(qf)[k]) < qf.instr.len() && qf.instr[brk_jumps(qf)[k] as int]
                    == jump_nowhere() by {
                    assert(brk_jumps(qd)[k] >= qc.instr.len());
                }
                assert forall|k: int| ret_jumps(p).len() <= k < ret_jumps(qf).len() implies p.instr.len()
                    <= (#[trigger] ret_jumps(qf)[k]) < qf.instr.len() && qf.instr[ret_jumps(qf)[k] as int]
                    == jump_nowhere() by {
                    assert(ret_jumps(qd)[k] >= qc.instr.len());
                }
            }
            lemma_grows_trans(p, qf, qg);
            assert(grows(p, qh)) by {
                assert forall|k: int| brk_jumps(p).len() <= k < brk_jumps(qh).len() implies p.instr.len()
                    <= (#[trigger] brk_jumps(qh)[k]) < qh.instr.len() && qh.instr[brk_jumps(qh)[k] as int]
                    == jump_nowhere() by {
                    if k < brk_jumps(qf).len() {
                        assert(brk_jumps(qg)[k] == brk_jumps(qf)[k]);
                        assert(brk_jumps(qd)[k] < qd.instr.len());
                    } else {
                        assert(brk_jumps(qg)[k] >= qf.instr.len());
                    }
                }
                assert forall|k: int| ret_jumps(p).len() <= k < ret_jumps(qh).len() implies p.instr.len()
                    <= (#[trigger] ret_jumps(qh)[k]) < qh.instr.len() && qh.instr[ret_jumps(qh)[k] as int]
                    == jump_nowhere() by {
                    if k < ret_jumps(qf).len() {
                        assert(ret_jumps(qg)[k] == ret_jumps(qf)[k]);
                        assert(ret_jumps(qd)[k] < qd.instr.len());
                    } else {
                        assert(ret_jumps(qg)[k] >= qf.instr.len());
                    }
                }
            }
        },
        None => {
            let qh = ProgramV { instr: patch_jump(qd.instr, qb.addr(), qd.addr()), ..qd };
            lemma_plain_grows(*i.true_stmt, sym, qc);
            lemma_grows_trans(p, qc, qd);
            assert(brk_jumps(qc) == brk_jumps(p));
            assert(ret_jumps(qc) == ret_jumps(p));
            assert(grows(p, qh)) by {
                assert forall|k: int| brk_jumps(p).len() <= k < brk_jumps(qh).len() implies p.instr.len()
                    <= (#[trigger] brk_jumps(qh)[k]) < qh.instr.len() && qh.instr[brk_jumps(qh)[k] as int]
                    == jump_nowhere() by {
                    assert(brk_jumps(qd)[k] >= qc.instr.len());
                }
                assert forall|k: int| ret_jumps(p).len() <= k < ret_jumps(qh).len() implies p.instr.len()
                    <= (#[trigger] ret_jumps(qh)[k]) < qh.instr.len() && qh.instr[ret_jumps(qh)[k] as int]
                    == jump_nowhere() by {
                    assert(ret_jumps(qd)[k] >= qc.instr.len());
                }
            }
        },
    }
}

proof fn lemma_while_grows(w: WhileStatement, sym: Scopes, p: ProgramV)
    requires
        plain(Statement::While(w)),
        compile_while(w, sym, p).1 is None,
        compile_while(w, sym, p).0.instr.len() <= u32::MAX,
    ensures
        grows(p, compile_while(w, sym, p).0),
        compile_stmt(Statement::While(w), sym, p) == compile_while(w, sym, p),
    decreases w, 0nat,
{
    let p0 = p.open_while();
    let qa = compile_expr(*w.test, sym, p0).0;
    let qb = qa.emit(word_26(OP_TEST, 0));
    let qc = qb.emit(word_26(OP_JF, INVALID_ADDR));
    let qd = compile_stmt(*w.stmt, sym, qc).0;
    let qe = qd.emit(word_26(OP_JMP, p0.addr()));
    let qf = ProgramV { instr: patch_jump(qe.instr, qb.addr(), qe.addr()), ..qe };
    let end = qe.addr();
    let q = qf.close_while(end);
    lemma_expr_extends(*w.test, sym, p0);
    assert(extends(p0, qc));
    lemma_patch_all_len(qf.instr, qf.while_ctx.last().instr_addrs, end);
    lemma_plain_grows(*w.stmt, sym, qc);
    let body_breaks = brk_jumps(qd);
    assert(brk_jumps(qc) =~= Seq::<Addr>::empty());
    assert(q.while_ctx =~= p.while_ctx) by {
        assert(qd.while_ctx.drop_last() == qc.while_ctx.drop_last());
        assert(qc.while_ctx.drop_last() =~= p.while_ctx);
    }
    assert(q.func_ctx == qd.func_ctx);
    assert forall|i: int| 0 <= i < p.instr.len() implies q.instr[i] == p.instr[i] by {
        lemma_patch_all_miss(qf.instr, body_breaks, end, i);
    }
    assert(more_waiting(ret_jumps(p), ret_jumps(q), p.instr.len(), q.instr)) by {
        assert forall|k: int| ret_jumps(p).len() <= k < ret_jumps(q).len() implies p.instr.len() <= (
        #[trigger] ret_jumps(q)[k]) < q.instr.len() && q.instr[ret_jumps(q)[k] as int]
            == jump_nowhere() by {
            let r = ret_jumps(q)[k] as int;
            assert(ret_jumps(qd)[k] == ret_jumps(q)[k]);
            assert forall|j: int| 0 <= j < body_breaks.len() implies body_breaks[j] != r by {
                assert(brk_jumps(qd)[j] != ret_jumps(qd)[k]);
            }
            lemma_patch_all_miss(qf.instr, body_breaks, end, r);
        }
    }
    assert(more_waiting(brk_jumps(p), brk_jumps(q), p.instr.len(), q.instr));
}

} // verus!
