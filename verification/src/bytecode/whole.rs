//! The backends agree on plain statements and on the functions that are
//! made of them.
//!
//! In the finished program every jump that waited has its target: the
//! jumps of `break` go to the end of their loop, the jumps of `return` to
//! the end of their function. Where the evaluator completes the resolution
//! of a plain statement, a machine that runs the code of the statement in
//! the finished program comes to where that completion leads: to the end
//! of the code, to the end of the loop, or to the end of the function with
//! the returned value pushed. On the way it enters the frames that the
//! evaluator enters, and it has left them when it arrives.
use vstd::prelude::*;
use crate::ast::codegen::{
    compile_block, compile_break, compile_func, compile_expr, compile_if, compile_return,
    compile_stmt, compile_while,
};
use crate::ast::resolve::{
    Scopes, resolved_block, resolved_expr, resolved_func, resolved_stmt, resolved_stmts,
};
use crate::ast::statements::{
    Block, FuncDef, IfStatement, ReturnStatement, Statement, WhileStatement,
};
use crate::bytecode::closure::Closure as BcClosure;
use crate::exec::closure::Closure as AstClosure;
use crate::exec::scoping::unshared;
use crate::exec::semantics::apply;
use crate::src_loc::SrcLocV;
use crate::sym_tab::names_view;
use crate::bytecode::agree::{
    after, in_place, is_compilable, lemma_expr_agrees, lemma_expr_extends, lemma_expr_no_jumps,
    lemma_pushlit_step, small,
};
use crate::bytecode::control::{
    before_break, block_code, lemma_extends_grows, lemma_grows_trans, block_parts, brk_jumps, decl_scopes, first_decl, grows,
    jump_nowhere, lemma_block_code, lemma_block_parts, lemma_first_decl, lemma_grows_at,
    lemma_patch_all_hit, lemma_patch_all_keeps, lemma_patch_all_miss, lemma_plain_grows,
    lemma_plain_level, lemma_run_grows, lemma_run_level, loop_frames, plain, plain_block,
    plain_range, ret_jumps, shallow, shallow_block, shallow_range,
};
use crate::bytecode::flow::{
    arrives, arrives_in, at_end, compile_run, jump_word, lemma_arrives_after, lemma_arrives_now,
    lemma_jf_step, lemma_jmp_step, lemma_patch_all_len, lemma_popval_step, lemma_test_step,
    sans_flag,
};
use crate::bytecode::gen::{ProgramV, patch_all, patch_jump};
use crate::bytecode::instr::{
    lemma_patched_26, lemma_word_12_12, lemma_word_26, opcode_of, word_12_12, word_26,
};
use crate::bytecode::opcodes::{
    OP_JF, OP_JMP, OP_NEWENV, OP_POPENV, OP_POPVAL, OP_PUSHLIT, OP_RET, OP_TEST,
};
use crate::bytecode::run::{
    RunV, lemma_run_adds, lemma_run_stopped, vm_call, vm_enter, vm_run, vm_step,
};
use crate::bytecode::{Addr, INVALID_ADDR};
use crate::errors::RunErrorV;
use crate::exec::semantics::{
    eval_block, eval_expr, eval_if, eval_return, eval_stmt, eval_stmts, eval_while,
};
use crate::exec::statements::Completion;
use crate::exec::Statement as RStmt;
use crate::native::NativeHost;
use crate::runtime::RuntimeV;
use crate::value::{Value, truthy};

verus! {

/// Whether `instr` holds, from `lo` up to `hi`, the instructions of `q`,
/// but for the jumps of `q` that have no target.
pub open spec fn holds(instr: Seq<u32>, q: ProgramV, lo: nat, hi: nat) -> bool {
    forall|i: int| lo <= i < hi ==> instr[i] == #[trigger] q.instr[i] || q.instr[i] == jump_nowhere()
}

/// Whether the program that runs is a finished form of the code that was
/// emitted on the way from `p` to `q`: it holds that code and its
/// literals, and the jumps that came to wait on the way go to `brk`, those
/// of `break`, and to `ret`, those of `return`.
pub open spec fn settled(
    instr: Seq<u32>,
    literals: Seq<Value>,
    p: ProgramV,
    q: ProgramV,
    brk: u32,
    ret: u32,
) -> bool {
    &&& q.instr.len() <= instr.len()
    &&& q.literals.len() <= literals.len()
    &&& forall|i: int| p.literals.len() <= i < q.literals.len() ==> literals[i] == q.literals[i]
    &&& holds(instr, q, p.instr.len(), q.instr.len())
    &&& forall|k: int|
        brk_jumps(p).len() <= k < brk_jumps(q).len() ==> instr[(#[trigger] brk_jumps(q)[k]) as int]
            == word_26(OP_JMP, brk)
    &&& forall|k: int|
        ret_jumps(p).len() <= k < ret_jumps(q).len() ==> instr[(#[trigger] ret_jumps(q)[k]) as int]
            == word_26(OP_JMP, ret)
}

/// A finished program holds the code of an expression as it was emitted.
pub proof fn lemma_settled_expr(
    instr: Seq<u32>,
    literals: Seq<Value>,
    e: crate::ast::Expression,
    sym: Scopes,
    pa: ProgramV,
    q: ProgramV,
)
    requires
        is_compilable(e),
        compile_expr(e, sym, pa).0.instr.len() <= q.instr.len() <= instr.len(),
        compile_expr(e, sym, pa).0.literals.len() <= q.literals.len() <= literals.len(),
        holds(instr, q, pa.instr.len(), compile_expr(e, sym, pa).0.instr.len()),
        forall|i: int|
            pa.instr.len() <= i < compile_expr(e, sym, pa).0.instr.len() ==> q.instr[i]
                == compile_expr(e, sym, pa).0.instr[i],
        forall|i: int|
            pa.literals.len() <= i < compile_expr(e, sym, pa).0.literals.len() ==> literals[i]
                == compile_expr(e, sym, pa).0.literals[i],
    ensures
        in_place(instr, literals, pa, compile_expr(e, sym, pa).0),
{
    let qa = compile_expr(e, sym, pa).0;
    lemma_expr_no_jumps(e, sym, pa);
    lemma_word_26(OP_JMP, INVALID_ADDR);
    assert forall|i: int| pa.instr.len() <= i < qa.instr.len() implies instr[i] == qa.instr[i] by {
        assert(opcode_of(qa.instr[i]) != OP_JMP);
        assert(instr[i] == q.instr[i] || q.instr[i] == jump_nowhere());
    }
}

/// The words of the instructions that are no jumps without a target.
pub proof fn lemma_not_nowhere(target: u32)
    requires
        target < 0x03ff_ffff,
    ensures
        word_26(OP_TEST, 0) != jump_nowhere(),
        word_26(OP_PUSHLIT, 0) != jump_nowhere(),
        word_12_12(OP_POPVAL, 0, 1) != jump_nowhere(),
        word_12_12(OP_POPENV, 0, 0) != jump_nowhere(),
        jump_word(OP_JF, target) != jump_nowhere(),
        jump_word(OP_JMP, target) != jump_nowhere(),
        jump_word(OP_JMP, target) == word_26(OP_JMP, target),
        word_26(OP_JMP, target) != jump_nowhere(),
{
    lemma_word_26(OP_JMP, INVALID_ADDR);
    lemma_word_26(OP_JF, INVALID_ADDR);
    lemma_word_26(OP_TEST, 0);
    lemma_word_26(OP_PUSHLIT, 0);
    lemma_word_12_12(OP_POPVAL, 0, 1);
    lemma_word_12_12(OP_POPENV, 0, 0);
    lemma_word_26(OP_JMP, target);
    lemma_patched_26(word_26(OP_JF, INVALID_ADDR), target);
    lemma_patched_26(word_26(OP_JMP, INVALID_ADDR), target);
    assert(INVALID_ADDR & 0x03ff_ffff == 0x03ff_ffff) by (bit_vector);
}

/// The parts of the code of a `while`: the program with the context of
/// the loop opened, after the test, after `test`, after the jump to the
/// end, after the body, after the jump back.
pub open spec fn while_parts(w: WhileStatement, sym: Scopes, p: ProgramV) -> (
    ProgramV,
    ProgramV,
    ProgramV,
    ProgramV,
    ProgramV,
    ProgramV,
) {
    let p0 = p.open_while();
    let qa = compile_expr(*w.test, sym, p0).0;
    let qb = qa.emit(word_26(OP_TEST, 0));
    let qc = qb.emit(word_26(OP_JF, INVALID_ADDR));
    let qd = compile_stmt(*w.stmt, sym, qc).0;
    let qe = qd.emit(word_26(OP_JMP, p0.addr()));
    (p0, qa, qb, qc, qd, qe)
}

/// Where a finished program holds the code of a `while`, it holds the
/// parts of that code: the test, `test`, a jump to the end of the loop,
/// the body, whose `break`s go to the end of the loop, and a jump back to
/// the test.
pub proof fn lemma_while_settled(
    w: WhileStatement,
    sym: Scopes,
    p: ProgramV,
    instr: Seq<u32>,
    literals: Seq<Value>,
    brk: u32,
    ret: u32,
)
    requires
        plain(Statement::While(w)),
        compile_while(w, sym, p).1 is None,
        settled(instr, literals, p, compile_while(w, sym, p).0, brk, ret),
        instr.len() < 0x03ff_ffff,
    ensures
        ({
            let (p0, qa, qb, qc, qd, qe) = while_parts(w, sym, p);
            let q = compile_while(w, sym, p).0;
            &&& compile_stmt(*w.stmt, sym, qc).1 is None
            &&& p0.instr == p.instr
            &&& qc.env_level == p.env_level
            &&& loop_frames(qc) == 0
            &&& qc.while_ctx.len() > 0
            &&& p.instr.len() <= qa.instr.len()
            &&& qc.instr.len() == qa.instr.len() + 2
            &&& qc.instr.len() <= qd.instr.len()
            &&& q.instr.len() == qd.instr.len() + 1
            &&& in_place(instr, literals, p0, qa)
            &&& instr[qa.instr.len() as int] == word_26(OP_TEST, 0)
            &&& instr[(qa.instr.len() + 1) as int] == jump_word(OP_JF, q.instr.len() as u32)
            &&& instr[qd.instr.len() as int] == word_26(OP_JMP, p.instr.len() as u32)
            &&& settled(instr, literals, qc, qd, q.instr.len() as u32, ret)
        }),
{
    let (p0, qa, qb, qc, qd, qe) = while_parts(w, sym, p);
    let qf = ProgramV { instr: patch_jump(qe.instr, qb.addr(), qe.addr()), ..qe };
    let end = qe.addr();
    let q = compile_while(w, sym, p).0;
    let body_breaks = brk_jumps(qd);
    lemma_expr_extends(*w.test, sym, p0);
    lemma_patch_all_len(qf.instr, qf.while_ctx.last().instr_addrs, end);
    lemma_plain_grows(*w.stmt, sym, qc);
    lemma_not_nowhere(end);
    lemma_not_nowhere(p0.addr());
    assert(q == qf.close_while(end));
    assert(brk_jumps(qc) =~= Seq::<Addr>::empty());
    assert(q.instr == patch_all(qf.instr, body_breaks, end));
    assert(q.literals == qd.literals);
    // what the finished code holds where nothing was patched
    assert forall|i: int| p.instr.len() <= i < qc.instr.len() implies q.instr[i]
        == qf.instr[i] by {
        lemma_patch_all_miss(qf.instr, body_breaks, end, i);
    }
    assert(q.instr[qd.instr.len() as int] == qf.instr[qd.instr.len() as int]) by {
        lemma_patch_all_miss(qf.instr, body_breaks, end, qd.instr.len() as int);
    }
    lemma_settled_expr(instr, literals, *w.test, sym, p0, q);
    // the body
    assert(holds(instr, qd, qc.instr.len(), qd.instr.len())) by {
        assert forall|i: int| qc.instr.len() <= i < qd.instr.len() implies instr[i]
            == #[trigger] qd.instr[i] || qd.instr[i] == jump_nowhere() by {
            assert(instr[i] == q.instr[i] || q.instr[i] == jump_nowhere());
            if exists|k: int| 0 <= k < body_breaks.len() && body_breaks[k] == i {
                let k = choose|k: int| 0 <= k < body_breaks.len() && body_breaks[k] == i;
                assert(qd.instr[brk_jumps(qd)[k] as int] == jump_nowhere());
            } else {
                lemma_patch_all_miss(qf.instr, body_breaks, end, i);
            }
        }
    }
    assert forall|k: int| brk_jumps(qc).len() <= k < brk_jumps(qd).len() implies instr[(
    #[trigger] brk_jumps(qd)[k]) as int] == word_26(OP_JMP, q.instr.len() as u32) by {
        let a = brk_jumps(qd)[k] as int;
        lemma_patch_all_hit(qf.instr, body_breaks, end, k);
        assert(qf.instr[a] == qd.instr[a]);
        assert(qd.instr[a] == jump_nowhere());
        assert(q.instr[a] == jump_word(OP_JMP, end));
        assert(instr[a] == q.instr[a] || q.instr[a] == jump_nowhere());
    }
    assert forall|k: int| ret_jumps(qc).len() <= k < ret_jumps(qd).len() implies instr[(
    #[trigger] ret_jumps(qd)[k]) as int] == word_26(OP_JMP, ret) by {
        assert(ret_jumps(q)[k] == ret_jumps(qd)[k]);
    }
    let ia = qa.instr.len() as int;
    assert(instr[ia] == q.instr[ia] || q.instr[ia] == jump_nowhere());
    assert(instr[ia + 1] == q.instr[ia + 1] || q.instr[ia + 1] == jump_nowhere());
    assert(qf.instr[ia] == word_26(OP_TEST, 0));
    assert(qf.instr[ia + 1] == jump_word(OP_JF, end));
}

/// The parts of the code of an `if`: after the test, after `test`, after
/// the jump over the first branch, after the first branch.
pub open spec fn if_parts(i: IfStatement, sym: Scopes, p: ProgramV) -> (
    ProgramV,
    ProgramV,
    ProgramV,
    ProgramV,
) {
    let qa = compile_expr(*i.test, sym, p).0;
    let qb = qa.emit(word_26(OP_TEST, 0));
    let qc = qb.emit(word_26(OP_JF, INVALID_ADDR));
    let qd = compile_stmt(*i.true_stmt, sym, qc).0;
    (qa, qb, qc, qd)
}

/// The program in which the second branch of an `if` is compiled.
pub open spec fn else_start(i: IfStatement, sym: Scopes, p: ProgramV) -> ProgramV {
    let (qa, qb, qc, qd) = if_parts(i, sym, p);
    let qe = qd.emit(jump_nowhere());
    ProgramV { instr: patch_jump(qe.instr, qb.addr(), qe.addr()), ..qe }
}

/// Where a finished program holds the code of an `if` without a second
/// branch, it holds the parts of that code.
pub proof fn lemma_if_settled(
    i: IfStatement,
    sym: Scopes,
    p: ProgramV,
    instr: Seq<u32>,
    literals: Seq<Value>,
    brk: u32,
    ret: u32,
)
    requires
        plain(Statement::If(i)),
        i.false_stmt is None,
        compile_if(i, sym, p).1 is None,
        settled(instr, literals, p, compile_if(i, sym, p).0, brk, ret),
        instr.len() < 0x03ff_ffff,
    ensures
        ({
            let (qa, qb, qc, qd) = if_parts(i, sym, p);
            let q = compile_if(i, sym, p).0;
            &&& compile_stmt(*i.true_stmt, sym, qc).1 is None
            &&& qc.env_level == p.env_level
            &&& loop_frames(qc) == loop_frames(p)
            &&& qc.while_ctx.len() == p.while_ctx.len()
            &&& p.instr.len() <= qa.instr.len()
            &&& qc.instr.len() == qa.instr.len() + 2
            &&& q.instr.len() == qd.instr.len()
            &&& qc.instr.len() <= qd.instr.len()
            &&& in_place(instr, literals, p, qa)
            &&& instr[qa.instr.len() as int] == word_26(OP_TEST, 0)
            &&& instr[(qa.instr.len() + 1) as int] == jump_word(OP_JF, q.instr.len() as u32)
            &&& settled(instr, literals, qc, qd, brk, ret)
        }),
{
    let (qa, qb, qc, qd) = if_parts(i, sym, p);
    let q = compile_if(i, sym, p).0;
    lemma_expr_extends(*i.test, sym, p);
    lemma_plain_grows(*i.true_stmt, sym, qc);
    lemma_not_nowhere(qd.addr());
    assert(q.instr == patch_jump(qd.instr, qb.addr(), qd.addr()));
    lemma_settled_expr(instr, literals, *i.test, sym, p, q);
    assert(holds(instr, qd, qc.instr.len(), qd.instr.len())) by {
        assert forall|j: int| qc.instr.len() <= j < qd.instr.len() implies instr[j]
            == #[trigger] qd.instr[j] || qd.instr[j] == jump_nowhere() by {
            assert(instr[j] == q.instr[j] || q.instr[j] == jump_nowhere());
        }
    }
    assert forall|k: int| brk_jumps(qc).len() <= k < brk_jumps(qd).len() implies instr[(
    #[trigger] brk_jumps(qd)[k]) as int] == word_26(OP_JMP, brk) by {
        assert(brk_jumps(q)[k] == brk_jumps(qd)[k]);
    }
    assert forall|k: int| ret_jumps(qc).len() <= k < ret_jumps(qd).len() implies instr[(
    #[trigger] ret_jumps(qd)[k]) as int] == word_26(OP_JMP, ret) by {
        assert(ret_jumps(q)[k] == ret_jumps(qd)[k]);
    }
    assert(instr[qa.instr.len() as int] == q.instr[qa.instr.len() as int] || q.instr[qa.instr.len() as int] == jump_nowhere());
    assert(instr[(qa.instr.len() + 1) as int] == q.instr[(qa.instr.len() + 1) as int] || q.instr[(qa.instr.len() + 1) as int] == jump_nowhere());
}

/// Where a finished program holds the code of an `if` with a second
/// branch, it holds the parts of that code.
pub proof fn lemma_if_else_settled(
    i: IfStatement,
    sym: Scopes,
    p: ProgramV,
    instr: Seq<u32>,
    literals: Seq<Value>,
    brk: u32,
    ret: u32,
)
    requires
        plain(Statement::If(i)),
        i.false_stmt is Some,
        compile_if(i, sym, p).1 is None,
        settled(instr, literals, p, compile_if(i, sym, p).0, brk, ret),
        instr.len() < 0x03ff_ffff,
    ensures
        ({
            let (qa, qb, qc, qd) = if_parts(i, sym, p);
            let qf = else_start(i, sym, p);
            let qg = compile_stmt(*i.false_stmt->Some_0, sym, qf).0;
            let q = compile_if(i, sym, p).0;
            &&& compile_stmt(*i.true_stmt, sym, qc).1 is None
            &&& compile_stmt(*i.false_stmt->Some_0, sym, qf).1 is None
            &&& qc.env_level == p.env_level
            &&& qf.env_level == p.env_level
            &&& loop_frames(qc) == loop_frames(p)
            &&& loop_frames(qf) == loop_frames(p)
            &&& qc.while_ctx.len() == p.while_ctx.len()
            &&& qf.while_ctx.len() == p.while_ctx.len()
            &&& p.instr.len() <= qa.instr.len()
            &&& qc.instr.len() == qa.instr.len() + 2
            &&& qc.instr.len() <= qd.instr.len()
            &&& qf.instr.len() == qd.instr.len() + 1
            &&& q.instr.len() == qg.instr.len()
            &&& qf.instr.len() <= qg.instr.len()
            &&& in_place(instr, literals, p, qa)
            &&& instr[qa.instr.len() as int] == word_26(OP_TEST, 0)
            &&& instr[(qa.instr.len() + 1) as int] == jump_word(OP_JF, qf.instr.len() as u32)
            &&& instr[qd.instr.len() as int] == jump_word(OP_JMP, q.instr.len() as u32)
            &&& settled(instr, literals, qc, qd, brk, ret)
            &&& settled(instr, literals, qf, qg, brk, ret)
        }),
{
    let (qa, qb, qc, qd) = if_parts(i, sym, p);
    let f = i.false_stmt->Some_0;
    let qe = qd.emit(jump_nowhere());
    let qf = else_start(i, sym, p);
    let qg = compile_stmt(*f, sym, qf).0;
    let q = compile_if(i, sym, p).0;
    lemma_expr_extends(*i.test, sym, p);
    lemma_plain_level(*i.true_stmt, sym, qc);
    lemma_plain_grows(*f, sym, qf);
    lemma_plain_grows(*i.true_stmt, sym, qc);
    lemma_not_nowhere(qe.addr());
    lemma_not_nowhere(qg.addr());
    assert(q.instr == patch_jump(qg.instr, qd.addr(), qg.addr()));
    lemma_settled_expr(instr, literals, *i.test, sym, p, q);
    assert(brk_jumps(qf) == brk_jumps(qd));
    assert(ret_jumps(qf) == ret_jumps(qd));
    assert(holds(instr, qd, qc.instr.len(), qd.instr.len())) by {
        assert forall|j: int| qc.instr.len() <= j < qd.instr.len() implies instr[j]
            == #[trigger] qd.instr[j] || qd.instr[j] == jump_nowhere() by {
            assert(instr[j] == q.instr[j] || q.instr[j] == jump_nowhere());
            assert(qg.instr[j] == qf.instr[j]);
        }
    }
    assert(holds(instr, qg, qf.instr.len(), qg.instr.len())) by {
        assert forall|j: int| qf.instr.len() <= j < qg.instr.len() implies instr[j]
            == #[trigger] qg.instr[j] || qg.instr[j] == jump_nowhere() by {
            assert(instr[j] == q.instr[j] || q.instr[j] == jump_nowhere());
        }
    }
    assert forall|k: int| brk_jumps(qc).len() <= k < brk_jumps(qd).len() implies instr[(
    #[trigger] brk_jumps(qd)[k]) as int] == word_26(OP_JMP, brk) by {
        assert(brk_jumps(q)[k] == brk_jumps(qd)[k]);
    }
    assert forall|k: int| ret_jumps(qc).len() <= k < ret_jumps(qd).len() implies instr[(
    #[trigger] ret_jumps(qd)[k]) as int] == word_26(OP_JMP, ret) by {
        assert(ret_jumps(q)[k] == ret_jumps(qd)[k]);
    }
    assert forall|k: int| brk_jumps(qf).len() <= k < brk_jumps(qg).len() implies instr[(
    #[trigger] brk_jumps(qg)[k]) as int] == word_26(OP_JMP, brk) by {
        assert(brk_jumps(q)[k] == brk_jumps(qg)[k]);
    }
    assert forall|k: int| ret_jumps(qf).len() <= k < ret_jumps(qg).len() implies instr[(
    #[trigger] ret_jumps(qg)[k]) as int] == word_26(OP_JMP, ret) by {
        assert(ret_jumps(q)[k] == ret_jumps(qg)[k]);
    }
    let ia = qa.instr.len() as int;
    assert(instr[ia] == q.instr[ia] || q.instr[ia] == jump_nowhere());
    assert(instr[ia + 1] == q.instr[ia + 1] || q.instr[ia + 1] == jump_nowhere());
    assert(qg.instr[ia] == qf.instr[ia]);
    assert(qg.instr[ia + 1] == qf.instr[ia + 1]);
    let id = qd.instr.len() as int;
    assert(instr[id] == q.instr[id] || q.instr[id] == jump_nowhere());
    assert(qg.instr[id] == qf.instr[id]);
}

/// Where a finished program holds the code that was emitted on the way
/// from `p` over `via` to `q`, it holds the code of each part of the way.
pub proof fn lemma_settled_split(
    instr: Seq<u32>,
    literals: Seq<Value>,
    p: ProgramV,
    via: ProgramV,
    q: ProgramV,
    brk: u32,
    ret: u32,
)
    requires
        grows(p, via),
        grows(via, q),
        settled(instr, literals, p, q, brk, ret),
    ensures
        settled(instr, literals, p, via, brk, ret),
        settled(instr, literals, via, q, brk, ret),
{
    assert(holds(instr, via, p.instr.len(), via.instr.len())) by {
        assert forall|i: int| p.instr.len() <= i < via.instr.len() implies instr[i]
            == #[trigger] via.instr[i] || via.instr[i] == jump_nowhere() by {
            assert(instr[i] == q.instr[i] || q.instr[i] == jump_nowhere());
        }
    }
    assert(holds(instr, q, via.instr.len(), q.instr.len())) by {
        assert forall|i: int| via.instr.len() <= i < q.instr.len() implies instr[i]
            == #[trigger] q.instr[i] || q.instr[i] == jump_nowhere() by {
            assert(instr[i] == q.instr[i] || q.instr[i] == jump_nowhere());
        }
    }
    assert forall|k: int| brk_jumps(p).len() <= k < brk_jumps(via).len() implies instr[(
    #[trigger] brk_jumps(via)[k]) as int] == word_26(OP_JMP, brk) by {
        assert(brk_jumps(q)[k] == brk_jumps(via)[k]);
    }
    assert forall|k: int| ret_jumps(p).len() <= k < ret_jumps(via).len() implies instr[(
    #[trigger] ret_jumps(via)[k]) as int] == word_26(OP_JMP, ret) by {
        assert(ret_jumps(q)[k] == ret_jumps(via)[k]);
    }
}

/// The machine `m` after it left the `k` innermost frames.
pub open spec fn left(m: RunV, k: int) -> RunV {
    if k <= 0 {
        m
    } else {
        RunV {
            env: m.env_stack[m.env_stack.len() - k],
            env_stack: m.env_stack.subrange(0, m.env_stack.len() - k),
            ..m
        }
    }
}

/// Where the completion `c` of a statement leads the machine `m` that
/// stood at the start of the code of the statement: to the end of the
/// code; to the end of the loop, out of the `kb` frames that were entered
/// in the loop; or to the end of the function with the returned value
/// pushed, out of the `kr` frames that were entered in the function.
pub open spec fn leads_to(
    m: RunV,
    q: ProgramV,
    c: Completion,
    brk: u32,
    ret: u32,
    kb: int,
    kr: int,
) -> RunV {
    match c {
        Completion::Normal(_) => at_end(m, q),
        Completion::Break => RunV { ip: brk, ..left(m, kb) },
        Completion::Return(v) => RunV { ip: ret, val_stack: m.val_stack.push(v), ..left(m, kr) },
    }
}

/// Whether the machine `m` stands at the end of the program `p` with the
/// frames that `p` has open: every frame that was entered in the function
/// can be left.
pub open spec fn stands(p: ProgramV, m: RunV) -> bool {
    &&& m.ip == p.instr.len()
    &&& 0 <= loop_frames(p)
    &&& p.env_level <= m.env_stack.len()
}

/// `popenv k` leaves `k` frames.
pub proof fn lemma_popenv_step<H: NativeHost>(
    host: H,
    instr: Seq<u32>,
    literals: Seq<Value>,
    m: RunV,
    rt: RuntimeV,
    depth: nat,
    k: nat,
)
    requires
        m.ip < instr.len() <= u32::MAX,
        k < 0x1000,
        k <= m.env_stack.len(),
        instr[m.ip as int] == word_12_12(OP_POPENV, 0, k as u16),
    ensures
        vm_run(host, instr, literals, m, rt, depth, 1) == (
            rt,
            Ok::<RunV, RunErrorV>(left(m, k as int).next()),
        ),
{
    lemma_word_12_12(OP_POPENV, 0, k as u16);
    let next = left(m, k as int).next();
    assert(vm_step(host, instr, literals, m, rt, depth) == (rt, Ok::<RunV, RunErrorV>(next)));
    assert(vm_run(host, instr, literals, next, rt, depth, 0) == (rt, Ok::<RunV, RunErrorV>(next)));
}

/// A machine that arrives at a place arrives at every place that differs
/// from it in the flag alone.
proof fn lemma_arrives_same<H: NativeHost>(
    host: H,
    instr: Seq<u32>,
    literals: Seq<Value>,
    m: RunV,
    rt: RuntimeV,
    depth: nat,
    rt2: RuntimeV,
    a: RunV,
    b: RunV,
)
    requires
        arrives(host, instr, literals, m, rt, depth, rt2, a),
        sans_flag(a) == sans_flag(b),
    ensures
        arrives(host, instr, literals, m, rt, depth, rt2, b),
{
    let j = choose|j: nat| arrives_in(host, instr, literals, m, rt, depth, j, rt2, a);
    assert(arrives_in(host, instr, literals, m, rt, depth, j, rt2, b));
}

/// The backends agree on plain statements.
///
/// Let `out` be the resolution of a plain statement `s`, and let the
/// compiler have emitted the code of `s` between the programs `p` and `q`,
/// in the same scopes, with `level` frames and scopes open at most, so
/// that the frames and scopes of `s` fit an instruction. Let the program
/// that runs be a finished form of that code, of fewer than 2^26 - 1
/// instructions, whose literal 0 is null. Let the evaluator complete `out`
/// in the frame of the machine. Then a machine that stands at the start of
/// the code, with at least the budget of the evaluator, arrives where the
/// completion leads, with the script in the state in which the evaluator
/// leaves it. Nothing is said of a `break` that completes where no loop is
/// open.
pub proof fn lemma_plain_agrees<H: NativeHost>(
    host: H,
    s: Statement,
    sym: Scopes,
    ctx: Seq<bool>,
    out: RStmt,
    p: ProgramV,
    instr: Seq<u32>,
    literals: Seq<Value>,
    m: RunV,
    rt: RuntimeV,
    depth: nat,
    run_depth: nat,
    brk: u32,
    ret: u32,
    level: nat,
)
    requires
        plain(s),
        small(sym),
        sym.len() <= level,
        p.env_level <= level,
        level < 0x1000,
        shallow(s, level),
        resolved_stmt(s, sym, ctx, out),
        compile_stmt(s, sym, p).1 is None,
        settled(instr, literals, p, compile_stmt(s, sym, p).0, brk, ret),
        instr.len() < 0x03ff_ffff,
        0 < literals.len() <= 0x0400_0000,
        literals[0] == Value::Null,
        brk < 0x0400_0000,
        ret < 0x0400_0000,
        stands(p, m),
        depth <= run_depth,
        eval_stmt(host, out, rt, m.env, depth).1 is Ok,
    ensures
        is_stray(p, eval_stmt(host, out, rt, m.env, depth).1->Ok_0) || arrives(
            host,
            instr,
            literals,
            m,
            rt,
            run_depth,
            eval_stmt(host, out, rt, m.env, depth).0,
            leads_to(
                m,
                compile_stmt(s, sym, p).0,
                eval_stmt(host, out, rt, m.env, depth).1->Ok_0,
                brk,
                ret,
                loop_frames(p),
                p.env_level as int,
            ),
        ),
    decreases s, depth, 1nat,
{
    let kb = loop_frames(p);
    let kr = p.env_level as int;
    let q = compile_stmt(s, sym, p).0;
    lemma_not_nowhere(0);
    match s {
        Statement::Empty => {
            lemma_arrives_now(host, instr, literals, m, rt, run_depth, at_end(m, q));
        },
        Statement::Expression(e) => {
            let o = out->Expression_0;
            let qa = compile_expr(e, sym, p).0;
            lemma_expr_extends(e, sym, p);
            assert(q == qa.emit(word_12_12(OP_POPVAL, 0, 1)));
            lemma_settled_expr(instr, literals, e, sym, p, q);
            lemma_expr_agrees(host, e, sym, ctx, o, p, instr, literals, m, rt, depth, run_depth);
            let (rta, r) = eval_expr(host, o, rt, m.env, depth);
            let ma = after(m, qa, r->Ok_0);
            assert(instr[ma.ip as int] == q.instr[ma.ip as int] || q.instr[ma.ip as int]
                == jump_nowhere());
            lemma_popval_step(host, instr, literals, ma, rta, run_depth);
            let mb = ma.drop(1).next();
            assert(ma.drop(1).val_stack =~= m.val_stack);
            lemma_arrives_now(host, instr, literals, mb, rta, run_depth, at_end(m, q));
            lemma_arrives_after(host, instr, literals, ma, rta, run_depth, 1, rta, mb, rta, at_end(m, q));
            lemma_arrives_after(host, instr, literals, m, rt, run_depth, (qa.instr.len() - p.instr.len()) as nat, rta, ma, rta, at_end(m, q));
        },
        Statement::Block(b) => {
            let o = out->Block_0;
            assert(compile_stmt(s, sym, p) == compile_block(b, sym, p));
            assert(eval_stmt(host, out, rt, m.env, depth) == eval_block(host, o, rt, m.env, depth));
            lemma_plain_block_agrees(host, b, sym, ctx, o, p, instr, literals, m, rt, depth, run_depth, brk, ret, level);
        },
        Statement::If(i) => {
            crate::bytecode::control::lemma_plain_grows(s, sym, p);
            assert(compile_stmt(s, sym, p) == compile_if(i, sym, p)) by {
                crate::bytecode::control::lemma_plain_level(s, sym, p);
            }
            lemma_plain_if_agrees(host, i, sym, ctx, out, p, instr, literals, m, rt, depth, run_depth, brk, ret, level);
        },
        Statement::While(w) => {
            assert(compile_stmt(s, sym, p) == compile_while(w, sym, p)) by {
                crate::bytecode::control::lemma_plain_level(s, sym, p);
            }
            lemma_plain_while_agrees(host, w, sym, ctx, out->While_0, p, instr, literals, m, rt, depth, run_depth, brk, ret, level);
        },
        Statement::Break(loc) => {
            assert(q == compile_break(loc@, p).0);
            let q1 = before_break(p);
            let qa = q1.emit(jump_nowhere());
            assert(q == qa.wait_break(q1.addr()));
            assert(brk_jumps(q) =~= brk_jumps(p).push(q1.addr()));
            let k = brk_jumps(p).len() as int;
            assert(instr[brk_jumps(q)[k] as int] == word_26(OP_JMP, brk));
            let done = leads_to(m, q, Completion::Break, brk, ret, kb, kr);
            let m1 = if kb > 0 {
                left(m, kb).next()
            } else {
                m
            };
            lemma_jmp_step(host, instr, literals, m1, rt, run_depth, word_26(OP_JMP, brk), brk);
            let ma = m1.at(brk);
            lemma_arrives_now(host, instr, literals, ma, rt, run_depth, done);
            lemma_arrives_after(host, instr, literals, m1, rt, run_depth, 1, rt, ma, rt, done);
            if kb > 0 {
                let ip = p.instr.len() as int;
                assert(instr[ip] == q.instr[ip] || q.instr[ip] == jump_nowhere());
                lemma_word_12_12(OP_POPENV, 0, kb as u32 as u16);
                lemma_word_26(OP_JMP, INVALID_ADDR);
                lemma_popenv_step(host, instr, literals, m, rt, run_depth, kb as nat);
                lemma_arrives_after(host, instr, literals, m, rt, run_depth, 1, rt, m1, rt, done);
            }
        },
        Statement::Return(r) => {
            lemma_plain_return_agrees(host, r, sym, ctx, out, p, instr, literals, m, rt, depth, run_depth, brk, ret, level);
        },
        _ => {},
    }
}

/// The resolution of statements that are no declarations holds the
/// resolution of each statement, in order.
pub proof fn lemma_range_resolved(
    ss: Seq<Statement>,
    i: nat,
    k: nat,
    sym: Scopes,
    ctx: Seq<bool>,
    outs: Seq<RStmt>,
    j: nat,
)
    requires
        i <= k <= ss.len(),
        forall|t: int| i <= t < k ==> !(#[trigger] ss[t] is VarDecl),
        resolved_stmts(ss, i, sym, ctx, outs, j),
    ensures
        j + (k - i) <= outs.len(),
        forall|t: int|
            0 <= t < k - i ==> resolved_stmt(#[trigger] ss[i + t], sym, ctx, outs[j + t]),
        resolved_stmts(ss, k, sym, ctx, outs, (j + (k - i)) as nat),
    decreases k - i,
{
    if i < k {
        assert(!(ss[i as int] is VarDecl));
        lemma_range_resolved(ss, i + 1, k, sym, ctx, outs, j + 1);
        assert forall|t: int| 0 <= t < k - i implies resolved_stmt(
            #[trigger] ss[i + t],
            sym,
            ctx,
            outs[j + t],
        ) by {
            if t > 0 {
                assert(resolved_stmt(ss[(i + 1) + (t - 1)], sym, ctx, outs[(j + 1) + (t - 1)]));
            }
        }
    }
}

/// `newenv 1, 1` enters a frame that holds the value on top of the stack.
pub proof fn lemma_newenv_step<H: NativeHost>(
    host: H,
    instr: Seq<u32>,
    literals: Seq<Value>,
    m: RunV,
    rt: RuntimeV,
    depth: nat,
)
    requires
        m.ip < instr.len() <= u32::MAX,
        instr[m.ip as int] == word_12_12(OP_NEWENV, 1, 1),
        m.val_stack.len() >= 1,
    ensures
        vm_run(host, instr, literals, m, rt, depth, 1) == (
            rt.push_frame(m.env, seq![m.val_stack.last()]).0,
            Ok::<RunV, RunErrorV>(m.drop(1).enter(rt.env.len() as usize).next()),
        ),
{
    lemma_word_12_12(OP_NEWENV, 1, 1);
    let vals = seq![m.val_stack.last()];
    assert(m.top(1) =~= vals);
    assert(crate::env::padded(vals, 1) == vals);
    let rt1 = rt.push_frame(m.env, vals).0;
    let next = m.drop(1).enter(rt.env.len() as usize).next();
    assert(vm_step(host, instr, literals, m, rt, depth) == (rt1, Ok::<RunV, RunErrorV>(next)));
    assert(vm_run(host, instr, literals, next, rt1, depth, 0) == (rt1, Ok::<RunV, RunErrorV>(next)));
}

/// Where a finished program holds the code of a block with a declaration,
/// it holds the parts of that code.
pub proof fn lemma_block_settled(
    ss: Seq<Statement>,
    k: nat,
    sym: Scopes,
    p: ProgramV,
    instr: Seq<u32>,
    literals: Seq<Value>,
    brk: u32,
    ret: u32,
)
    requires
        plain_block(ss),
        first_decl(ss, 0) == Some(k),
        block_code(ss, sym, p).1 is None,
        settled(instr, literals, p, block_code(ss, sym, p).0, brk, ret),
        instr.len() < 0x03ff_ffff,
        literals.len() <= 0x0400_0000,
    ensures
        ({
            let (pa, q1, q3, pr) = block_parts(ss, k, sym, p);
            let q = block_code(ss, sym, p).0;
            &&& settled(instr, literals, p, pa, brk, ret)
            &&& settled(instr, literals, q3, pr, brk, ret)
            &&& pa.instr.len() <= q1.instr.len()
            &&& q3.instr.len() == q1.instr.len() + 1
            &&& q3.instr.len() <= pr.instr.len()
            &&& q.instr.len() == pr.instr.len() + 1
            &&& q.instr.len() <= instr.len()
            &&& instr[q1.instr.len() as int] == word_12_12(OP_NEWENV, 1, 1)
            &&& instr[pr.instr.len() as int] == word_12_12(OP_POPENV, 0, 1)
            &&& match ss[k as int]->VarDecl_0.val {
                Some(e) => in_place(instr, literals, pa, q1),
                None => {
                    &&& pa.literals.len() < literals.len()
                    &&& literals[pa.literals.len() as int] == Value::Null
                    &&& instr[pa.instr.len() as int] == word_26(
                        OP_PUSHLIT,
                        pa.literals.len() as u32,
                    )
                    &&& q1.instr.len() == pa.instr.len() + 1
                },
            }
        }),
{
    let (pa, q1, q3, pr) = block_parts(ss, k, sym, p);
    let q = block_code(ss, sym, p).0;
    let l = p.env_level;
    lemma_first_decl(ss, 0);
    lemma_block_parts(ss, k, sym, p);
    let d = ss[k as int]->VarDecl_0;
    let q3l = q3.at_level(l);
    let prl = pr.at_level(l);
    lemma_settled_split(instr, literals, p, pa, q, brk, ret);
    lemma_grows_at(q3, pr, l);
    lemma_extends_grows(pa, q1);
    lemma_extends_grows(q1, q3l);
    lemma_grows_trans(pa, q1, q3l);
    lemma_settled_split(instr, literals, pa, q3l, q, brk, ret);
    lemma_settled_split(instr, literals, q3l, prl, q, brk, ret);
    assert(settled(instr, literals, q3, pr, brk, ret));
    lemma_word_12_12(OP_NEWENV, 1, 1);
    lemma_word_12_12(OP_POPENV, 0, 1);
    lemma_word_26(OP_JMP, INVALID_ADDR);
    let i1 = q1.instr.len() as int;
    assert(q.instr[i1] == q3l.instr[i1]);
    assert(instr[i1] == q.instr[i1] || q.instr[i1] == jump_nowhere());
    let ir = pr.instr.len() as int;
    assert(instr[ir] == q.instr[ir] || q.instr[ir] == jump_nowhere());
    match d.val {
        Some(e) => {
            assert forall|i: int| pa.instr.len() <= i < q1.instr.len() implies q.instr[i]
                == q1.instr[i] by {
                assert(q3l.instr[i] == q1.instr[i]);
            }
            assert forall|i: int|
                pa.literals.len() <= i < q1.literals.len() implies literals[i]
                == q1.literals[i] by {
                assert(q3l.literals[i] == q1.literals[i]);
                assert(q.literals[i] == q3l.literals[i]);
            }
            assert(holds(instr, q, pa.instr.len(), q1.instr.len())) by {
                assert forall|i: int| pa.instr.len() <= i < q1.instr.len() implies instr[i]
                    == #[trigger] q.instr[i] || q.instr[i] == jump_nowhere() by {
                    assert(instr[i] == q.instr[i] || q.instr[i] == jump_nowhere());
                }
            }
            lemma_settled_expr(instr, literals, *e, sym, pa, q);
        },
        None => {
            let index = pa.literals.len();
            let ip = pa.instr.len() as int;
            assert(q1.instr[ip] == word_26(OP_PUSHLIT, index as u32));
            assert(q.instr[ip] == q3l.instr[ip]);
            assert(instr[ip] == q.instr[ip] || q.instr[ip] == jump_nowhere());
            lemma_word_26(OP_PUSHLIT, index as u32);
            assert(q.literals[index as int] == q3l.literals[index as int]);
            assert(q3l.literals[index as int] == Value::Null);
        },
    }
}

/// What the resolution of a block with a declaration holds: the
/// resolutions of the statements before the declaration, and a block that
/// declares the variable and holds the resolutions of the statements
/// after the declaration.
pub proof fn lemma_block_resolved(
    ss: Seq<Statement>,
    k: nat,
    sym: Scopes,
    ctx: Seq<bool>,
    outs: Seq<RStmt>,
)
    requires
        plain_block(ss),
        first_decl(ss, 0) == Some(k),
        resolved_stmts(ss, 0, sym, ctx, outs, 0),
    ensures
        outs.len() == k + 1,
        forall|t: int| 0 <= t < k ==> resolved_stmt(#[trigger] ss[0 + t], sym, ctx, outs[t]),
        outs[k as int] is Block,
        ({
            let bv = outs[k as int]->Block_0;
            let inner = decl_scopes(ss[k as int], sym);
            &&& bv.has_var
            &&& bv.stmts@.len() == ss.len() - (k + 1)
            &&& match ss[k as int]->VarDecl_0.val {
                Some(e) => bv.var_val is Some && resolved_expr(*e, sym, ctx, *bv.var_val->Some_0),
                None => bv.var_val is None,
            }
            &&& forall|t: int|
                0 <= t < ss.len() - (k + 1) ==> resolved_stmt(
                    #[trigger] ss[(k + 1) + t],
                    inner,
                    ctx,
                    bv.stmts@[t],
                )
        }),
{
    lemma_first_decl(ss, 0);
    let inner = decl_scopes(ss[k as int], sym);
    lemma_range_resolved(ss, 0, k, sym, ctx, outs, 0);
    assert(resolved_stmts(ss, k, sym, ctx, outs, k));
    let bv = outs[k as int]->Block_0;
    assert(resolved_stmts(ss, k + 1, inner, ctx, bv.stmts@, 0));
    assert forall|t: int| k + 1 <= t < ss.len() implies !(#[trigger] ss[t] is VarDecl) by {
        assert(plain(ss[t]));
    }
    lemma_range_resolved(ss, k + 1, ss.len(), inner, ctx, bv.stmts@, 0);
    assert forall|t: int| 0 <= t < k implies resolved_stmt(
        #[trigger] ss[0 + t],
        sym,
        ctx,
        outs[t],
    ) by {
        assert(resolved_stmt(ss[0 + t], sym, ctx, outs[0 + t]));
    }
    assert forall|t: int| 0 <= t < ss.len() - (k + 1) implies resolved_stmt(
        #[trigger] ss[(k + 1) + t],
        inner,
        ctx,
        bv.stmts@[t],
    ) by {
        assert(resolved_stmt(ss[(k + 1) + t], inner, ctx, bv.stmts@[0 + t]));
    }
}

/// Whether the completion `c` is a `break` where no loop is open in `p`.
/// No statement that resolves completes so; the lemmas on statements say
/// nothing of it.
pub open spec fn is_stray(p: ProgramV, c: Completion) -> bool {
    p.while_ctx.len() == 0 && c is Break
}

/// The backends agree on a declaration and the statements after it.
#[verifier::rlimit(60)]
proof fn lemma_decl_agrees<H: NativeHost>(
    host: H,
    ss: Seq<Statement>,
    k: nat,
    sym: Scopes,
    ctx: Seq<bool>,
    bv: crate::exec::Block,
    p: ProgramV,
    instr: Seq<u32>,
    literals: Seq<Value>,
    m: RunV,
    ma: RunV,
    rt1: RuntimeV,
    depth: nat,
    run_depth: nat,
    brk: u32,
    ret: u32,
    level: nat,
)
    requires
        plain_block(ss),
        shallow_block(ss, level),
        first_decl(ss, 0) == Some(k),
        small(sym),
        sym.len() <= level,
        p.env_level <= level,
        level < 0x1000,
        bv.has_var,
        bv.stmts@.len() == ss.len() - (k + 1),
        match ss[k as int]->VarDecl_0.val {
            Some(e) => bv.var_val is Some && resolved_expr(*e, sym, ctx, *bv.var_val->Some_0),
            None => bv.var_val is None,
        },
        forall|t: int|
            0 <= t < ss.len() - (k + 1) ==> resolved_stmt(
                #[trigger] ss[(k + 1) + t],
                decl_scopes(ss[k as int], sym),
                ctx,
                bv.stmts@[t],
            ),
        block_code(ss, sym, p).1 is None,
        settled(instr, literals, p, block_code(ss, sym, p).0, brk, ret),
        instr.len() < 0x03ff_ffff,
        0 < literals.len() <= 0x0400_0000,
        literals[0] == Value::Null,
        brk < 0x0400_0000,
        ret < 0x0400_0000,
        stands(p, m),
        sans_flag(ma) == sans_flag(at_end(m, block_parts(ss, k, sym, p).0)),
        depth <= run_depth,
        eval_block(host, bv, rt1, m.env, depth).1 is Ok,
    ensures
        is_stray(p, eval_block(host, bv, rt1, m.env, depth).1->Ok_0) || arrives(
            host,
            instr,
            literals,
            ma,
            rt1,
            run_depth,
            eval_block(host, bv, rt1, m.env, depth).0,
            leads_to(
                m,
                block_code(ss, sym, p).0,
                eval_block(host, bv, rt1, m.env, depth).1->Ok_0,
                brk,
                ret,
                loop_frames(p),
                p.env_level as int,
            ),
        ),
    decreases ss, depth, ss.len() + 1,
{
    let kb = loop_frames(p);
    let kr = p.env_level as int;
    let (pa, q1, q3, pr) = block_parts(ss, k, sym, p);
    let inner = decl_scopes(ss[k as int], sym);
    let q = block_code(ss, sym, p).0;
    let d = ss[k as int]->VarDecl_0;
    let n_rest = (ss.len() - (k + 1)) as nat;
    lemma_first_decl(ss, 0);
    lemma_block_parts(ss, k, sym, p);
    lemma_block_settled(ss, k, sym, p, instr, literals, brk, ret);
    let c = eval_block(host, bv, rt1, m.env, depth).1->Ok_0;
    let done = leads_to(m, q, c, brk, ret, kb, kr);
    // The initializer.
    let (rt2, v, mv, n_init) = match d.val {
        Some(e) => {
            let oe = bv.var_val->Some_0;
            lemma_expr_agrees(host, *e, sym, ctx, *oe, pa, instr, literals, ma, rt1, depth, run_depth);
            let (rt2, rv) = eval_expr(host, *oe, rt1, m.env, depth);
            (rt2, rv->Ok_0, after(ma, q1, rv->Ok_0), (q1.instr.len() - pa.instr.len()) as nat)
        },
        None => {
            lemma_pushlit_step(host, instr, literals, ma, rt1, run_depth, pa.literals.len());
            (rt1, Value::Null, ma.push(Value::Null).next(), 1nat)
        },
    };
    assert(vm_run(host, instr, literals, ma, rt1, run_depth, n_init) == (
        rt2,
        Ok::<RunV, RunErrorV>(mv),
    ));
    // The frame.
    lemma_newenv_step(host, instr, literals, mv, rt2, run_depth);
    let (rt3, frame) = rt2.push_frame(m.env, seq![v]);
    let mb = mv.drop(1).enter(frame).next();
    assert(mv.drop(1).val_stack =~= m.val_stack);
    assert(mb.env_stack == m.env_stack.push(m.env));
    // The statements after the declaration.
    assert(eval_block(host, bv, rt1, m.env, depth) == eval_stmts(
        host,
        bv.stmts@,
        bv.stmts@.len(),
        rt3,
        frame,
        depth,
    ));
    assert(small(inner)) by {
        assert forall|i: int| 0 <= i < inner.len() implies (#[trigger] inner[i]).len()
            <= 0x1000 by {
            if i < sym.len() {
                assert(inner[i] == sym[i]);
            }
        }
    }
    assert forall|t: int| k + 1 <= t < ss.len() implies plain(#[trigger] ss[t]) by {}
    lemma_plain_run_agrees(host, ss, k + 1, n_rest, inner, ctx, bv.stmts@, q3, instr, literals, mb, rt3, depth, run_depth, brk, ret, level + 1);
    let (rt4, r4) = eval_stmts(host, bv.stmts@, n_rest, rt3, frame, depth);
    assert(c == r4->Ok_0);
    if !is_stray(p, c) {
        let there = leads_to(mb, pr, c, brk, ret, loop_frames(q3), q3.env_level as int);
        match c {
            Completion::Normal(_) => {
                let j = choose|j: nat|
                    arrives_in(host, instr, literals, mb, rt3, run_depth, j, rt4, there);
                let mr = vm_run(host, instr, literals, mb, rt3, run_depth, j).1->Ok_0;
                lemma_popenv_step(host, instr, literals, mr, rt4, run_depth, 1);
                let me = left(mr, 1).next();
                assert(left(mr, 1).env_stack =~= m.env_stack);
                lemma_arrives_now(host, instr, literals, me, rt4, run_depth, done);
                lemma_arrives_after(host, instr, literals, mr, rt4, run_depth, 1, rt4, me, rt4, done);
                lemma_arrives_after(host, instr, literals, mb, rt3, run_depth, j, rt4, mr, rt4, done);
            },
            Completion::Break => {
                assert(loop_frames(q3) == kb + 1);
                assert(left(mb, kb + 1).env_stack =~= left(m, kb).env_stack);
                assert(sans_flag(there) == sans_flag(done));
                lemma_arrives_same(host, instr, literals, mb, rt3, run_depth, rt4, there, done);
            },
            Completion::Return(_) => {
                assert(left(mb, kr + 1).env_stack =~= left(m, kr).env_stack);
                assert(sans_flag(there) == sans_flag(done));
                lemma_arrives_same(host, instr, literals, mb, rt3, run_depth, rt4, there, done);
            },
        }
        lemma_arrives_after(host, instr, literals, mv, rt2, run_depth, 1, rt3, mb, rt4, done);
        lemma_arrives_after(host, instr, literals, ma, rt1, run_depth, n_init, rt2, mv, rt4, done);
    }
}

/// The backends agree on blocks.
#[verifier::rlimit(60)]
proof fn lemma_plain_block_agrees<H: NativeHost>(
    host: H,
    b: Block,
    sym: Scopes,
    ctx: Seq<bool>,
    o: crate::exec::Block,
    p: ProgramV,
    instr: Seq<u32>,
    literals: Seq<Value>,
    m: RunV,
    rt: RuntimeV,
    depth: nat,
    run_depth: nat,
    brk: u32,
    ret: u32,
    level: nat,
)
    requires
        plain_block(b.stmts@),
        shallow_block(b.stmts@, level),
        small(sym),
        sym.len() <= level,
        p.env_level <= level,
        level < 0x1000,
        resolved_block(b, sym, ctx, o),
        compile_block(b, sym, p).1 is None,
        settled(instr, literals, p, compile_block(b, sym, p).0, brk, ret),
        instr.len() < 0x03ff_ffff,
        0 < literals.len() <= 0x0400_0000,
        literals[0] == Value::Null,
        brk < 0x0400_0000,
        ret < 0x0400_0000,
        stands(p, m),
        depth <= run_depth,
        eval_block(host, o, rt, m.env, depth).1 is Ok,
    ensures
        is_stray(p, eval_block(host, o, rt, m.env, depth).1->Ok_0) || arrives(
            host,
            instr,
            literals,
            m,
            rt,
            run_depth,
            eval_block(host, o, rt, m.env, depth).0,
            leads_to(
                m,
                compile_block(b, sym, p).0,
                eval_block(host, o, rt, m.env, depth).1->Ok_0,
                brk,
                ret,
                loop_frames(p),
                p.env_level as int,
            ),
        ),
    decreases b, depth, 0nat,
{
    let kb = loop_frames(p);
    let kr = p.env_level as int;
    let ss = b.stmts@;
    let outs = o.stmts@;
    let q = compile_block(b, sym, p).0;
    lemma_block_code(ss, sym, p);
    lemma_first_decl(ss, 0);
    let c = eval_block(host, o, rt, m.env, depth).1->Ok_0;
    let done = leads_to(m, q, c, brk, ret, kb, kr);
    match first_decl(ss, 0) {
        None => {
            lemma_range_resolved(ss, 0, ss.len(), sym, ctx, outs, 0);
            assert(outs.len() == ss.len());
            assert forall|t: int| 0 <= t < ss.len() implies resolved_stmt(
                #[trigger] ss[0 + t],
                sym,
                ctx,
                outs[t],
            ) by {
                assert(resolved_stmt(ss[0 + t], sym, ctx, outs[0 + t]));
            }
            lemma_plain_run_agrees(host, ss, 0, ss.len(), sym, ctx, outs, p, instr, literals, m, rt, depth, run_depth, brk, ret, level);
        },
        Some(k) => {
            let pa = block_parts(ss, k, sym, p).0;
            lemma_block_parts(ss, k, sym, p);
            lemma_block_resolved(ss, k, sym, ctx, outs);
            lemma_block_settled(ss, k, sym, p, instr, literals, brk, ret);
            let bv = outs[k as int]->Block_0;
            let (rt1, r1) = eval_stmts(host, outs, k, rt, m.env, depth);
            assert(eval_block(host, o, rt, m.env, depth) == eval_stmts(
                host,
                outs,
                outs.len(),
                rt,
                m.env,
                depth,
            ));
            lemma_plain_run_agrees(host, ss, 0, k, sym, ctx, outs, p, instr, literals, m, rt, depth, run_depth, brk, ret, level);
            let c1 = r1->Ok_0;
            match c1 {
                Completion::Normal(_) => {
                    let via = choose|j: nat|
                        arrives_in(host, instr, literals, m, rt, run_depth, j, rt1, at_end(m, pa));
                    let ma = vm_run(host, instr, literals, m, rt, run_depth, via).1->Ok_0;
                    assert(eval_stmt(host, outs[k as int], rt1, m.env, depth) == eval_block(
                        host,
                        bv,
                        rt1,
                        m.env,
                        depth,
                    ));
                    lemma_decl_agrees(host, ss, k, sym, ctx, bv, p, instr, literals, m, ma, rt1, depth, run_depth, brk, ret, level);
                    let cv = eval_block(host, bv, rt1, m.env, depth).1->Ok_0;
                    let rt4 = eval_block(host, bv, rt1, m.env, depth).0;
                    if !is_stray(p, cv) {
                        let there = leads_to(m, q, cv, brk, ret, kb, kr);
                        assert(sans_flag(there) == sans_flag(done));
                        lemma_arrives_same(host, instr, literals, ma, rt1, run_depth, rt4, there, done);
                        lemma_arrives_after(host, instr, literals, m, rt, run_depth, via, rt1, ma, rt4, done);
                    }
                },
                _ => {
                    if !is_stray(p, c1) {
                        lemma_arrives_same(host, instr, literals, m, rt, run_depth, rt1, leads_to(m, pa, c1, brk, ret, kb, kr), done);
                    }
                },
            }
        },
    }
}

/// The backends agree on `return`.
proof fn lemma_plain_return_agrees<H: NativeHost>(
    host: H,
    r: ReturnStatement,
    sym: Scopes,
    ctx: Seq<bool>,
    out: RStmt,
    p: ProgramV,
    instr: Seq<u32>,
    literals: Seq<Value>,
    m: RunV,
    rt: RuntimeV,
    depth: nat,
    run_depth: nat,
    brk: u32,
    ret: u32,
    level: nat,
)
    requires
        plain(Statement::Return(r)),
        small(sym),
        sym.len() <= level,
        p.env_level <= level,
        level < 0x1000,
        resolved_stmt(Statement::Return(r), sym, ctx, out),
        compile_stmt(Statement::Return(r), sym, p).1 is None,
        settled(instr, literals, p, compile_stmt(Statement::Return(r), sym, p).0, brk, ret),
        instr.len() < 0x03ff_ffff,
        0 < literals.len() <= 0x0400_0000,
        literals[0] == Value::Null,
        ret < 0x0400_0000,
        stands(p, m),
        depth <= run_depth,
        eval_stmt(host, out, rt, m.env, depth).1 is Ok,
    ensures
        is_stray(p, eval_stmt(host, out, rt, m.env, depth).1->Ok_0) || arrives(
            host,
            instr,
            literals,
            m,
            rt,
            run_depth,
            eval_stmt(host, out, rt, m.env, depth).0,
            leads_to(
                m,
                compile_stmt(Statement::Return(r), sym, p).0,
                eval_stmt(host, out, rt, m.env, depth).1->Ok_0,
                brk,
                ret,
                loop_frames(p),
                p.env_level as int,
            ),
        ),
    decreases r, depth, 0nat,
{
    let kb = loop_frames(p);
    let kr = p.env_level as int;
    let s = Statement::Return(r);
    let o = out->Return_0;
    let q = compile_stmt(s, sym, p).0;
    assert(compile_stmt(s, sym, p) == compile_return(r, sym, p));
    assert(eval_stmt(host, out, rt, m.env, depth) == eval_return(host, o, rt, m.env, depth));
    lemma_not_nowhere(0);
    lemma_word_12_12(OP_POPENV, 0, kr as u32 as u16);
    lemma_word_26(OP_JMP, INVALID_ADDR);
    let qa = match r.expr {
        Some(e) => compile_expr(*e, sym, p).0,
        None => p.emit(word_26(OP_PUSHLIT, 0)),
    };
    match r.expr {
        Some(e) => {
            lemma_expr_extends(*e, sym, p);
        },
        None => {},
    }
    let qb = qa.emit(word_12_12(OP_POPENV, 0, qa.env_level as u16));
    let qc = qb.emit(jump_nowhere());
    assert(q == qc.wait_return(qb.addr()));
    assert(ret_jumps(q) =~= ret_jumps(p).push(qb.addr()));
    let k = ret_jumps(p).len() as int;
    assert(instr[ret_jumps(q)[k] as int] == word_26(OP_JMP, ret));
    let ia = qa.instr.len() as int;
    assert(instr[ia] == q.instr[ia] || q.instr[ia] == jump_nowhere());
    let done = leads_to(m, q, eval_stmt(host, out, rt, m.env, depth).1->Ok_0, brk, ret, kb, kr);
    match r.expr {
        Some(e) => {
            let oe = o.expr->Some_0;
            lemma_settled_expr(instr, literals, *e, sym, p, q);
            lemma_expr_agrees(host, *e, sym, ctx, *oe, p, instr, literals, m, rt, depth, run_depth);
            let (rta, v) = eval_expr(host, *oe, rt, m.env, depth);
            let ma = after(m, qa, v->Ok_0);
            lemma_popenv_step(host, instr, literals, ma, rta, run_depth, kr as nat);
            let mb = left(ma, kr).next();
            lemma_jmp_step(host, instr, literals, mb, rta, run_depth, word_26(OP_JMP, ret), ret);
            let mc = mb.at(ret);
            lemma_arrives_now(host, instr, literals, mc, rta, run_depth, done);
            lemma_arrives_after(host, instr, literals, mb, rta, run_depth, 1, rta, mc, rta, done);
            lemma_arrives_after(host, instr, literals, ma, rta, run_depth, 1, rta, mb, rta, done);
            lemma_arrives_after(host, instr, literals, m, rt, run_depth, (qa.instr.len() - p.instr.len()) as nat, rta, ma, rta, done);
        },
        None => {
            let ip = p.instr.len() as int;
            assert(instr[ip] == q.instr[ip] || q.instr[ip] == jump_nowhere());
            lemma_pushlit_step(host, instr, literals, m, rt, run_depth, 0);
            let ma = m.push(literals[0]).next();
            lemma_popenv_step(host, instr, literals, ma, rt, run_depth, kr as nat);
            let mb = left(ma, kr).next();
            lemma_jmp_step(host, instr, literals, mb, rt, run_depth, word_26(OP_JMP, ret), ret);
            let mc = mb.at(ret);
            lemma_arrives_now(host, instr, literals, mc, rt, run_depth, done);
            lemma_arrives_after(host, instr, literals, mb, rt, run_depth, 1, rt, mc, rt, done);
            lemma_arrives_after(host, instr, literals, ma, rt, run_depth, 1, rt, mb, rt, done);
            lemma_arrives_after(host, instr, literals, m, rt, run_depth, 1, rt, ma, rt, done);
        },
    }
}

/// The backends agree on runs of plain statements: on the `n` statements
/// of `ss` from the `start`-th on, whose resolutions are the first `n`
/// statements of `outs`.
proof fn lemma_plain_run_agrees<H: NativeHost>(
    host: H,
    ss: Seq<Statement>,
    start: nat,
    n: nat,
    sym: Scopes,
    ctx: Seq<bool>,
    outs: Seq<RStmt>,
    p: ProgramV,
    instr: Seq<u32>,
    literals: Seq<Value>,
    m: RunV,
    rt: RuntimeV,
    depth: nat,
    run_depth: nat,
    brk: u32,
    ret: u32,
    level: nat,
)
    requires
        plain_range(ss, start, start + n),
        shallow_range(ss, start, start + n, level),
        start + n <= ss.len(),
        n <= outs.len(),
        forall|k: int| 0 <= k < n ==> resolved_stmt(#[trigger] ss[start + k], sym, ctx, outs[k]),
        small(sym),
        sym.len() <= level,
        p.env_level <= level,
        level < 0x1000,
        compile_run(ss, start, start + n, sym, p).1 is None,
        settled(instr, literals, p, compile_run(ss, start, start + n, sym, p).0, brk, ret),
        instr.len() < 0x03ff_ffff,
        0 < literals.len() <= 0x0400_0000,
        literals[0] == Value::Null,
        brk < 0x0400_0000,
        ret < 0x0400_0000,
        stands(p, m),
        depth <= run_depth,
        eval_stmts(host, outs, n, rt, m.env, depth).1 is Ok,
    ensures
        is_stray(p, eval_stmts(host, outs, n, rt, m.env, depth).1->Ok_0) || arrives(
            host,
            instr,
            literals,
            m,
            rt,
            run_depth,
            eval_stmts(host, outs, n, rt, m.env, depth).0,
            leads_to(
                m,
                compile_run(ss, start, start + n, sym, p).0,
                eval_stmts(host, outs, n, rt, m.env, depth).1->Ok_0,
                brk,
                ret,
                loop_frames(p),
                p.env_level as int,
            ),
        ),
    decreases ss, depth, n,
{
    let kb = loop_frames(p);
    let kr = p.env_level as int;
    let q = compile_run(ss, start, start + n, sym, p).0;
    if n == 0 {
        lemma_arrives_now(host, instr, literals, m, rt, run_depth, at_end(m, q));
    } else {
        let k = (n - 1) as nat;
        let s = ss[(start + k) as int];
        let qa = compile_run(ss, start, start + k, sym, p).0;
        assert(plain(s));
        assert(shallow(s, level));
        assert(resolved_stmt(ss[start + (k as int)], sym, ctx, outs[k as int]));
        lemma_run_level(ss, start, start + k, sym, p);
        lemma_plain_grows(s, sym, qa);
        lemma_run_grows(ss, start, start + k, sym, p);
        lemma_settled_split(instr, literals, p, qa, q, brk, ret);
        lemma_plain_run_agrees(host, ss, start, k, sym, ctx, outs, p, instr, literals, m, rt, depth, run_depth, brk, ret, level);
        let (rta, ra) = eval_stmts(host, outs, k, rt, m.env, depth);
        let ca = ra->Ok_0;
        match ca {
            Completion::Normal(_) => {
                let via = choose|j: nat|
                    arrives_in(host, instr, literals, m, rt, run_depth, j, rta, at_end(m, qa));
                let ma = vm_run(host, instr, literals, m, rt, run_depth, via).1->Ok_0;
                lemma_plain_agrees(host, s, sym, ctx, outs[k as int], qa, instr, literals, ma, rta, depth, run_depth, brk, ret, level);
                let (rtb, rb) = eval_stmt(host, outs[k as int], rta, m.env, depth);
                let cb = rb->Ok_0;
                let done = leads_to(m, q, eval_stmts(host, outs, n, rt, m.env, depth).1->Ok_0, brk, ret, kb, kr);
                if !is_stray(p, cb) {
                    assert(sans_flag(leads_to(ma, q, cb, brk, ret, kb, kr)) == sans_flag(done));
                    lemma_arrives_same(host, instr, literals, ma, rta, run_depth, rtb, leads_to(ma, q, cb, brk, ret, kb, kr), done);
                    lemma_arrives_after(host, instr, literals, m, rt, run_depth, via, rta, ma, rtb, done);
                }
            },
            _ => {
                let done = leads_to(m, q, ca, brk, ret, kb, kr);
                if !is_stray(p, ca) {
                    lemma_arrives_same(host, instr, literals, m, rt, run_depth, rta, leads_to(m, qa, ca, brk, ret, kb, kr), done);
                }
            },
        }
    }
}

/// The backends agree on `if`.
proof fn lemma_plain_if_agrees<H: NativeHost>(
    host: H,
    i: IfStatement,
    sym: Scopes,
    ctx: Seq<bool>,
    out: RStmt,
    p: ProgramV,
    instr: Seq<u32>,
    literals: Seq<Value>,
    m: RunV,
    rt: RuntimeV,
    depth: nat,
    run_depth: nat,
    brk: u32,
    ret: u32,
    level: nat,
)
    requires
        plain(Statement::If(i)),
        small(sym),
        sym.len() <= level,
        p.env_level <= level,
        level < 0x1000,
        shallow(Statement::If(i), level),
        resolved_stmt(Statement::If(i), sym, ctx, out),
        compile_if(i, sym, p).1 is None,
        settled(instr, literals, p, compile_if(i, sym, p).0, brk, ret),
        instr.len() < 0x03ff_ffff,
        0 < literals.len() <= 0x0400_0000,
        literals[0] == Value::Null,
        brk < 0x0400_0000,
        ret < 0x0400_0000,
        stands(p, m),
        depth <= run_depth,
        eval_stmt(host, out, rt, m.env, depth).1 is Ok,
    ensures
        is_stray(p, eval_stmt(host, out, rt, m.env, depth).1->Ok_0) || arrives(
            host,
            instr,
            literals,
            m,
            rt,
            run_depth,
            eval_stmt(host, out, rt, m.env, depth).0,
            leads_to(
                m,
                compile_if(i, sym, p).0,
                eval_stmt(host, out, rt, m.env, depth).1->Ok_0,
                brk,
                ret,
                loop_frames(p),
                p.env_level as int,
            ),
        ),
    decreases i, depth, 0nat,
{
    let kb = loop_frames(p);
    let kr = p.env_level as int;
    let o = out->If_0;
    let q = compile_if(i, sym, p).0;
    let (qa, qb, qc, qd) = if_parts(i, sym, p);
    assert(eval_stmt(host, out, rt, m.env, depth) == eval_if(host, o, rt, m.env, depth));
    let (rta, t) = eval_expr(host, *o.test, rt, m.env, depth);
    let v = t->Ok_0;
    let c = eval_stmt(host, out, rt, m.env, depth).1->Ok_0;
    let done = leads_to(m, q, c, brk, ret, kb, kr);
    let ma = after(m, qa, v);
    let mb = RunV { flag_true: truthy(v), ..ma.drop(1) }.next();
    let n_test = (qa.instr.len() - p.instr.len()) as nat;
    match i.false_stmt {
        Some(f) => {
            let qf = else_start(i, sym, p);
            let qg = compile_stmt(*f, sym, qf).0;
            lemma_if_else_settled(i, sym, p, instr, literals, brk, ret);
            lemma_expr_agrees(host, *i.test, sym, ctx, *o.test, p, instr, literals, m, rt, depth, run_depth);
            lemma_test_step(host, instr, literals, ma, rta, run_depth);
            assert(ma.drop(1).val_stack =~= m.val_stack);
            lemma_jf_step(host, instr, literals, mb, rta, run_depth, qf.instr.len() as u32);
            if truthy(v) {
                let mc = mb.next();
                lemma_plain_agrees(host, *i.true_stmt, sym, ctx, *o.true_stmt, qc, instr, literals, mc, rta, depth, run_depth, brk, ret, level);
                let (rtb, rb) = eval_stmt(host, *o.true_stmt, rta, m.env, depth);
                let cb = rb->Ok_0;
                if !is_stray(p, cb) {
                    match cb {
                        Completion::Normal(_) => {
                            let j = choose|j: nat|
                                arrives_in(host, instr, literals, mc, rta, run_depth, j, rtb, at_end(mc, qd));
                            let md = vm_run(host, instr, literals, mc, rta, run_depth, j).1->Ok_0;
                            lemma_not_nowhere(q.instr.len() as u32);
                            lemma_jmp_step(host, instr, literals, md, rtb, run_depth, jump_word(OP_JMP, q.instr.len() as u32), q.instr.len() as u32);
                            let me = md.at(q.instr.len() as u32);
                            lemma_arrives_now(host, instr, literals, me, rtb, run_depth, done);
                            lemma_arrives_after(host, instr, literals, md, rtb, run_depth, 1, rtb, me, rtb, done);
                            lemma_arrives_after(host, instr, literals, mc, rta, run_depth, j, rtb, md, rtb, done);
                        },
                        _ => {
                            lemma_arrives_same(host, instr, literals, mc, rta, run_depth, rtb, leads_to(mc, qd, cb, brk, ret, kb, kr), done);
                        },
                    }
                    lemma_arrives_after(host, instr, literals, mb, rta, run_depth, 1, rta, mc, rtb, done);
                    lemma_arrives_after(host, instr, literals, ma, rta, run_depth, 1, rta, mb, rtb, done);
                    lemma_arrives_after(host, instr, literals, m, rt, run_depth, n_test, rta, ma, rtb, done);
                }
            } else {
                let mc = mb.at(qf.instr.len() as u32);
                lemma_plain_agrees(host, *f, sym, ctx, *o.false_stmt->Some_0, qf, instr, literals, mc, rta, depth, run_depth, brk, ret, level);
                let (rtb, rb) = eval_stmt(host, *o.false_stmt->Some_0, rta, m.env, depth);
                if !is_stray(p, rb->Ok_0) {
                    lemma_arrives_same(host, instr, literals, mc, rta, run_depth, rtb, leads_to(mc, qg, rb->Ok_0, brk, ret, kb, kr), done);
                    lemma_arrives_after(host, instr, literals, mb, rta, run_depth, 1, rta, mc, rtb, done);
                    lemma_arrives_after(host, instr, literals, ma, rta, run_depth, 1, rta, mb, rtb, done);
                    lemma_arrives_after(host, instr, literals, m, rt, run_depth, n_test, rta, ma, rtb, done);
                }
            }
        },
        None => {
            lemma_if_settled(i, sym, p, instr, literals, brk, ret);
            lemma_expr_agrees(host, *i.test, sym, ctx, *o.test, p, instr, literals, m, rt, depth, run_depth);
            lemma_test_step(host, instr, literals, ma, rta, run_depth);
            assert(ma.drop(1).val_stack =~= m.val_stack);
            lemma_jf_step(host, instr, literals, mb, rta, run_depth, q.instr.len() as u32);
            if truthy(v) {
                let mc = mb.next();
                lemma_plain_agrees(host, *i.true_stmt, sym, ctx, *o.true_stmt, qc, instr, literals, mc, rta, depth, run_depth, brk, ret, level);
                let (rtb, rb) = eval_stmt(host, *o.true_stmt, rta, m.env, depth);
                if !is_stray(p, rb->Ok_0) {
                    lemma_arrives_same(host, instr, literals, mc, rta, run_depth, rtb, leads_to(mc, qd, rb->Ok_0, brk, ret, kb, kr), done);
                    lemma_arrives_after(host, instr, literals, mb, rta, run_depth, 1, rta, mc, rtb, done);
                    lemma_arrives_after(host, instr, literals, ma, rta, run_depth, 1, rta, mb, rtb, done);
                    lemma_arrives_after(host, instr, literals, m, rt, run_depth, n_test, rta, ma, rtb, done);
                }
            } else {
                let mc = mb.at(q.instr.len() as u32);
                lemma_arrives_now(host, instr, literals, mc, rta, run_depth, done);
                lemma_arrives_after(host, instr, literals, mb, rta, run_depth, 1, rta, mc, rta, done);
                lemma_arrives_after(host, instr, literals, ma, rta, run_depth, 1, rta, mb, rta, done);
                lemma_arrives_after(host, instr, literals, m, rt, run_depth, n_test, rta, ma, rta, done);
            }
        },
    }
}

/// The backends agree on `while`.
proof fn lemma_plain_while_agrees<H: NativeHost>(
    host: H,
    w: WhileStatement,
    sym: Scopes,
    ctx: Seq<bool>,
    o: crate::exec::WhileStatement,
    p: ProgramV,
    instr: Seq<u32>,
    literals: Seq<Value>,
    m: RunV,
    rt: RuntimeV,
    depth: nat,
    run_depth: nat,
    brk: u32,
    ret: u32,
    level: nat,
)
    requires
        plain(Statement::While(w)),
        small(sym),
        sym.len() <= level,
        p.env_level <= level,
        level < 0x1000,
        shallow(Statement::While(w), level),
        resolved_stmt(Statement::While(w), sym, ctx, RStmt::While(o)),
        compile_while(w, sym, p).1 is None,
        settled(instr, literals, p, compile_while(w, sym, p).0, brk, ret),
        instr.len() < 0x03ff_ffff,
        0 < literals.len() <= 0x0400_0000,
        literals[0] == Value::Null,
        brk < 0x0400_0000,
        ret < 0x0400_0000,
        stands(p, m),
        depth <= run_depth,
        eval_while(host, o, rt, m.env, depth).1 is Ok,
    ensures
        is_stray(p, eval_while(host, o, rt, m.env, depth).1->Ok_0) || arrives(
            host,
            instr,
            literals,
            m,
            rt,
            run_depth,
            eval_while(host, o, rt, m.env, depth).0,
            leads_to(
                m,
                compile_while(w, sym, p).0,
                eval_while(host, o, rt, m.env, depth).1->Ok_0,
                brk,
                ret,
                loop_frames(p),
                p.env_level as int,
            ),
        ),
    decreases w, depth, 0nat,
{
    let kb = loop_frames(p);
    let kr = p.env_level as int;
    let q = compile_while(w, sym, p).0;
    let (p0, qa, qb, qc, qd, qe) = while_parts(w, sym, p);
    let end = q.instr.len() as u32;
    let start = p.instr.len() as u32;
    lemma_while_settled(w, sym, p, instr, literals, brk, ret);
    let dd = (depth - 1) as nat;
    let (rta, t) = eval_expr(host, *o.test, rt, m.env, dd);
    let v = t->Ok_0;
    let c = eval_while(host, o, rt, m.env, depth).1->Ok_0;
    let done = leads_to(m, q, c, brk, ret, kb, kr);
    lemma_expr_agrees(host, *w.test, sym, ctx, *o.test, p0, instr, literals, m, rt, dd, run_depth);
    let ma = after(m, qa, v);
    lemma_test_step(host, instr, literals, ma, rta, run_depth);
    let mb = RunV { flag_true: truthy(v), ..ma.drop(1) }.next();
    assert(ma.drop(1).val_stack =~= m.val_stack);
    lemma_jf_step(host, instr, literals, mb, rta, run_depth, end);
    let n_test = (qa.instr.len() - p.instr.len()) as nat;
    if truthy(v) {
        let mc = mb.next();
        lemma_plain_agrees(host, *w.stmt, sym, ctx.push(true), *o.stmt, qc, instr, literals, mc, rta, dd, run_depth, end, ret, level);
        let (rtb, rb) = eval_stmt(host, *o.stmt, rta, m.env, dd);
        let cb = rb->Ok_0;
        match cb {
            Completion::Normal(_) => {
                let j = choose|j: nat|
                    arrives_in(host, instr, literals, mc, rta, run_depth, j, rtb, at_end(mc, qd));
                let md = vm_run(host, instr, literals, mc, rta, run_depth, j).1->Ok_0;
                lemma_jmp_step(host, instr, literals, md, rtb, run_depth, word_26(OP_JMP, start), start);
                let me = md.at(start);
                lemma_plain_while_agrees(host, w, sym, ctx, o, p, instr, literals, me, rtb, dd, run_depth, brk, ret, level);
                let (rtc, rc) = eval_while(host, o, rtb, m.env, dd);
                crate::exec::semantics::lemma_while_absorbs_break(host, o, rtb, m.env, dd);
                lemma_arrives_same(host, instr, literals, me, rtb, run_depth, rtc, leads_to(me, q, rc->Ok_0, brk, ret, kb, kr), done);
                lemma_arrives_after(host, instr, literals, md, rtb, run_depth, 1, rtb, me, rtc, done);
                lemma_arrives_after(host, instr, literals, mc, rta, run_depth, j, rtb, md, rtc, done);
                lemma_arrives_after(host, instr, literals, mb, rta, run_depth, 1, rta, mc, rtc, done);
                lemma_arrives_after(host, instr, literals, ma, rta, run_depth, 1, rta, mb, rtc, done);
                lemma_arrives_after(host, instr, literals, m, rt, run_depth, n_test, rta, ma, rtc, done);
            },
            _ => {
                lemma_arrives_same(host, instr, literals, mc, rta, run_depth, rtb, leads_to(mc, qd, cb, end, ret, 0, kr), done);
                lemma_arrives_after(host, instr, literals, mb, rta, run_depth, 1, rta, mc, rtb, done);
                lemma_arrives_after(host, instr, literals, ma, rta, run_depth, 1, rta, mb, rtb, done);
                lemma_arrives_after(host, instr, literals, m, rt, run_depth, n_test, rta, ma, rtb, done);
            },
        }
    } else {
        let mc = mb.at(end);
        lemma_arrives_now(host, instr, literals, mc, rta, run_depth, done);
        lemma_arrives_after(host, instr, literals, mb, rta, run_depth, 1, rta, mc, rta, done);
        lemma_arrives_after(host, instr, literals, ma, rta, run_depth, 1, rta, mb, rta, done);
        lemma_arrives_after(host, instr, literals, m, rt, run_depth, n_test, rta, ma, rta, done);
    }
}

/// `ret` goes back to the address and to the frame on top of their
/// stacks.
pub proof fn lemma_ret_step<H: NativeHost>(
    host: H,
    instr: Seq<u32>,
    literals: Seq<Value>,
    m: RunV,
    rt: RuntimeV,
    depth: nat,
)
    requires
        m.ip < instr.len() <= u32::MAX,
        instr[m.ip as int] == word_26(OP_RET, 0),
        m.env_stack.len() > 0,
        m.ret_stack.len() > 0,
    ensures
        vm_run(host, instr, literals, m, rt, depth, 1) == (
            rt,
            Ok::<RunV, RunErrorV>(
                RunV {
                    ip: m.ret_stack.last(),
                    env: m.env_stack.last(),
                    env_stack: m.env_stack.drop_last(),
                    ret_stack: m.ret_stack.drop_last(),
                    ..m
                },
            ),
        ),
{
    lemma_word_26(OP_RET, 0);
    let next = RunV {
        ip: m.ret_stack.last(),
        env: m.env_stack.last(),
        env_stack: m.env_stack.drop_last(),
        ret_stack: m.ret_stack.drop_last(),
        ..m
    };
    assert(vm_step(host, instr, literals, m, rt, depth) == (rt, Ok::<RunV, RunErrorV>(next)));
    assert(vm_run(host, instr, literals, next, rt, depth, 0) == (rt, Ok::<RunV, RunErrorV>(next)));
}

/// Where a finished program holds the code of a function of plain
/// statements, it holds the code of the body, whose `return`s jump to the
/// `ret` of the epilogue, and the epilogue.
pub proof fn lemma_func_settled(
    f: FuncDef,
    sym: Scopes,
    p: ProgramV,
    instr: Seq<u32>,
    literals: Seq<Value>,
)
    requires
        plain_block(f.block.stmts@),
        p.while_ctx.len() == 0,
        compile_func(f, sym, p).1 is None,
        holds_func(instr, literals, p, compile_func(f, sym, p).0),
    ensures
        ({
            let p0 = p.at_level(0).open_func();
            let inner = sym.push(names_view(f.params@));
            let q1 = compile_block(*f.block, inner, p0).0;
            &&& compile_block(*f.block, inner, p0).1 is None
            &&& p0.instr.len() <= q1.instr.len()
            &&& q1.instr.len() + 2 <= instr.len()
            &&& settled(instr, literals, p0, q1, 0, (q1.instr.len() + 1) as u32)
            &&& instr[q1.instr.len() as int] == word_26(OP_PUSHLIT, 0)
            &&& instr[(q1.instr.len() + 1) as int] == word_26(OP_RET, 0)
        }),
{
    let p0 = p.at_level(0).open_func();
    let inner = sym.push(names_view(f.params@));
    let q1 = compile_block(*f.block, inner, p0).0;
    let q2 = q1.emit(word_26(OP_PUSHLIT, 0));
    let end = q2.addr();
    let q3 = q2.emit(word_26(OP_RET, 0));
    let q = compile_func(f, sym, p).0;
    let body = Statement::Block(*f.block);
    assert(compile_stmt(body, inner, p0) == compile_block(*f.block, inner, p0));
    assert(q == q3.close_func(end));
    assert(q.instr.len() == q3.instr.len()) by {
        lemma_patch_all_len(q3.instr, q3.func_ctx.last().instr_addrs, end);
    }
    lemma_plain_grows(body, inner, p0);
    let addrs = ret_jumps(q1);
    assert(q3.func_ctx.last().instr_addrs == addrs);
    assert(ret_jumps(p0) =~= Seq::<Addr>::empty());
    assert(brk_jumps(q1) =~= Seq::<Addr>::empty());
    assert forall|i: int| p0.instr.len() <= i < q3.instr.len() implies instr[i] == q3.instr[i]
        || q3.instr[i] == jump_nowhere() by {
        assert(instr[i] == q.instr[i]);
        lemma_patch_all_keeps(q3.instr, addrs, end, i);
        if exists|k: int| 0 <= k < addrs.len() && addrs[k] == i {
            let k = choose|k: int| 0 <= k < addrs.len() && addrs[k] == i;
            assert(q1.instr[addrs[k] as int] == jump_nowhere());
        } else {
            lemma_patch_all_miss(q3.instr, addrs, end, i);
        }
    }
    assert(holds(instr, q1, p0.instr.len(), q1.instr.len())) by {
        assert forall|i: int| p0.instr.len() <= i < q1.instr.len() implies instr[i]
            == #[trigger] q1.instr[i] || q1.instr[i] == jump_nowhere() by {
            assert(q3.instr[i] == q1.instr[i]);
        }
    }
    assert forall|k: int| 0 <= k < addrs.len() implies instr[(#[trigger] addrs[k]) as int]
        == word_26(OP_JMP, end) by {
        let a = addrs[k] as int;
        assert(q1.instr[a] == jump_nowhere());
        assert(q3.instr[a] == q1.instr[a]);
        lemma_patch_all_hit(q3.instr, addrs, end, k);
        lemma_patched_26(jump_nowhere(), end);
        lemma_word_26(OP_JMP, INVALID_ADDR);
        assert(instr[a] == q.instr[a]);
    }
    let ia = q1.instr.len() as int;
    assert(q3.instr[ia] == word_26(OP_PUSHLIT, 0));
    assert(q3.instr[ia + 1] == word_26(OP_RET, 0));
    lemma_word_26(OP_PUSHLIT, 0);
    lemma_word_26(OP_RET, 0);
    lemma_word_26(OP_JMP, INVALID_ADDR);
}

/// Whether the finished program `instr` with `literals` holds what the
/// compiler added to `p` to make `q`, has fewer than 2^26 - 1
/// instructions and at most 2^26 literals, and has null as literal 0.
pub open spec fn holds_func(instr: Seq<u32>, literals: Seq<Value>, p: ProgramV, q: ProgramV) -> bool {
    &&& q.instr.len() <= instr.len() < 0x03ff_ffff
    &&& forall|i: int| p.instr.len() <= i < q.instr.len() ==> instr[i] == q.instr[i]
    &&& q.literals.len() <= literals.len() <= 0x0400_0000
    &&& forall|i: int| p.literals.len() <= i < q.literals.len() ==> literals[i] == q.literals[i]
    &&& 0 < literals.len()
    &&& literals[0] == Value::Null
}

/// The backends agree on functions of plain statements.
///
/// Let `out` be the resolution of the function `f`, whose body is made of
/// plain statements, with frames and scopes that fit an instruction, and
/// let the finished program hold the code that the compiler made of `f` in
/// the same scopes, starting at the end of `p`.
/// Let a call of the closure of `out` with `args` succeed in the
/// evaluator. Then the call of the bytecode closure of that code, made in
/// the same frame, with the same arguments and at least the budget of the
/// evaluator, gives the same value and leaves the script in the same
/// state, provided that the machine is given steps enough.
pub proof fn lemma_func_agrees<H: NativeHost>(
    host: H,
    f: FuncDef,
    sym: Scopes,
    ctx: Seq<bool>,
    c: AstClosure,
    p: ProgramV,
    instr: Seq<u32>,
    literals: Seq<Value>,
    id: u64,
    args: Seq<Value>,
    loc: SrcLocV,
    m: RunV,
    rt: RuntimeV,
    depth: nat,
    run_depth: nat,
) -> (enough: nat)
    requires
        plain_block(f.block.stmts@),
        shallow_block(f.block.stmts@, sym.len() + 1),
        sym.len() + 1 < 0x1000,
        small(sym.push(names_view(f.params@))),
        resolved_func(f, sym, ctx, unshared(c.func)),
        p.while_ctx.len() == 0,
        compile_func(f, sym, p).1 is None,
        holds_func(instr, literals, p, compile_func(f, sym, p).0),
        depth <= run_depth,
        apply(host, c, args, rt, depth, loc).1 is Ok,
    ensures
        forall|steps: nat|
            steps >= enough ==> #[trigger] vm_call(
                host,
                (BcClosure { addr: p.instr.len() as u32, num_params: f.params@.len() as usize, env: c.env, id }),
                args,
                loc,
                instr,
                literals,
                m,
                rt,
                steps,
                run_depth,
            ) == apply(host, c, args, rt, depth, loc),
{
    let out = unshared(c.func);
    let bc = BcClosure { addr: p.instr.len() as u32, num_params: f.params@.len() as usize, env: c.env, id };
    let p0 = p.at_level(0).open_func();
    let inner = sym.push(names_view(f.params@));
    let q1 = compile_block(*f.block, inner, p0).0;
    let ret = (q1.instr.len() + 1) as u32;
    lemma_func_settled(f, sym, p, instr, literals);
    let body = Statement::Block(*f.block);
    let obody = RStmt::Block(*out.block);
    let (rt1, m1) = vm_enter(bc, args, m, rt);
    let dd = (depth - 1) as nat;
    assert(rt.push_frame(c.env, args) == (rt1, m1.env));
    assert(eval_stmt(host, obody, rt1, m1.env, dd) == eval_block(host, *out.block, rt1, m1.env, dd));
    assert(compile_stmt(body, inner, p0) == compile_block(*f.block, inner, p0));
    assert(resolved_stmt(body, inner, ctx.push(false), obody));
    lemma_plain_agrees(host, body, inner, ctx.push(false), obody, p0, instr, literals, m1, rt1, dd, run_depth, 0, ret, inner.len());
    let (rt2, r) = eval_block(host, *out.block, rt1, m1.env, dd);
    let cb = r->Ok_0;
    let j = choose|j: nat|
        arrives_in(host, instr, literals, m1, rt1, run_depth, j, rt2, leads_to(m1, q1, cb, 0, ret, 0, 0));
    let ma = vm_run(host, instr, literals, m1, rt1, run_depth, j).1->Ok_0;
    let (mr, before) = match cb {
        Completion::Normal(_) => {
            lemma_pushlit_step(host, instr, literals, ma, rt2, run_depth, 0);
            (ma.push(literals[0]).next(), j + 1)
        },
        _ => (ma, j),
    };
    lemma_run_adds(host, instr, literals, m1, rt1, run_depth, j, 1);
    assert(vm_run(host, instr, literals, m1, rt1, run_depth, before) == (rt2, Ok::<RunV, RunErrorV>(mr)));
    lemma_ret_step(host, instr, literals, mr, rt2, run_depth);
    let ms = RunV {
        ip: mr.ret_stack.last(),
        env: mr.env_stack.last(),
        env_stack: mr.env_stack.drop_last(),
        ret_stack: mr.ret_stack.drop_last(),
        ..mr
    };
    lemma_run_adds(host, instr, literals, m1, rt1, run_depth, before, 1);
    let enough = before + 1;
    assert forall|steps: nat| steps >= enough implies #[trigger] vm_call(
        host,
        bc,
        args,
        loc,
        instr,
        literals,
        m,
        rt,
        steps,
        run_depth,
    ) == apply(host, c, args, rt, depth, loc) by {
        lemma_run_adds(host, instr, literals, m1, rt1, run_depth, enough, (steps - enough) as nat);
        lemma_run_stopped(host, instr, literals, ms, rt2, run_depth, (steps - enough) as nat);
    }
    enough
}

/// Whether `q` keeps what `p` holds: the instructions and the literals of
/// `p` stand in `q` where they stood, and the same functions are open,
/// and as many loops.
pub open spec fn keeps(p: ProgramV, q: ProgramV) -> bool {
    &&& p.instr.len() <= q.instr.len()
    &&& forall|i: int| 0 <= i < p.instr.len() ==> q.instr[i] == p.instr[i]
    &&& p.literals.len() <= q.literals.len()
    &&& forall|i: int| 0 <= i < p.literals.len() ==> q.literals[i] == p.literals[i]
    &&& q.while_ctx.len() == p.while_ctx.len()
    &&& q.func_ctx == p.func_ctx
}

/// Compiling a function of plain statements keeps what the program held.
pub proof fn lemma_func_keeps(f: FuncDef, sym: Scopes, p: ProgramV)
    requires
        plain_block(f.block.stmts@),
        compile_func(f, sym, p).1 is None,
        compile_func(f, sym, p).0.instr.len() <= u32::MAX,
    ensures
        keeps(p, compile_func(f, sym, p).0),
{
    let p0 = p.at_level(0).open_func();
    let inner = sym.push(names_view(f.params@));
    let q1 = compile_block(*f.block, inner, p0).0;
    let q2 = q1.emit(word_26(OP_PUSHLIT, 0));
    let end = q2.addr();
    let q3 = q2.emit(word_26(OP_RET, 0));
    let q = compile_func(f, sym, p).0;
    let body = Statement::Block(*f.block);
    assert(compile_stmt(body, inner, p0) == compile_block(*f.block, inner, p0));
    assert(q == q3.close_func(end));
    let addrs = q3.func_ctx.last().instr_addrs;
    lemma_patch_all_len(q3.instr, addrs, end);
    lemma_plain_grows(body, inner, p0);
    assert(addrs == ret_jumps(q1));
    assert(ret_jumps(p0) =~= Seq::<Addr>::empty());
    assert forall|i: int| 0 <= i < p.instr.len() implies q.instr[i] == p.instr[i] by {
        lemma_patch_all_miss(q3.instr, addrs, end, i);
    }
    assert(q.func_ctx =~= p.func_ctx) by {
        assert(p0.func_ctx.drop_last() =~= p.func_ctx);
    }
}

} // verus!
