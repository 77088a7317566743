//! How a machine comes from one place of a program to another: the steps
//! of the instructions that direct the flow of control, and what it means
//! for a machine to arrive.
use vstd::prelude::*;
use crate::ast::codegen::compile_stmt;
use crate::ast::resolve::Scopes;
use crate::ast::statements::Statement;
use crate::bytecode::agree::after;
use crate::bytecode::gen::{ProgramV, patch_all, patch_jump};
use crate::bytecode::instr::{
    lemma_patched_26, lemma_word_12_12, lemma_word_26, patched_26, word_12_12, word_26,
};
use crate::bytecode::opcodes::{OP_JF, OP_JMP, OP_POPVAL, OP_TEST};
use crate::bytecode::run::{RunV, lemma_run_adds, vm_run, vm_step};
use crate::bytecode::INVALID_ADDR;
use crate::errors::RunErrorV;
use crate::native::NativeHost;
use crate::runtime::RuntimeV;
use crate::value::{Value, truthy};

verus! {

/// The statements of `ss` from the `i`-th up to the `n`-th, compiled in
/// order.
pub open spec fn compile_run(ss: Seq<Statement>, i: nat, n: nat, sym: Scopes, p: ProgramV) -> (
    ProgramV,
    Option<crate::parser::errors::ParseErrorV>,
)
    decreases n,
{
    if n <= i || n > ss.len() {
        (p, None)
    } else {
        let (qa, ea) = compile_run(ss, i, (n - 1) as nat, sym, p);
        if ea is Some {
            (qa, ea)
        } else {
            compile_stmt(ss[n - 1], sym, qa)
        }
    }
}

/// Patching jumps changes no length.
pub proof fn lemma_patch_all_len(instr: Seq<u32>, addrs: Seq<crate::bytecode::Addr>, target: u32)
    ensures
        patch_all(instr, addrs, target).len() == instr.len(),
    decreases addrs.len(),
{
    if addrs.len() > 0 {
        lemma_patch_all_len(
            patch_jump(instr, addrs[0], target),
            addrs.subrange(1, addrs.len() as int),
            target,
        );
    }
}

/// The machine `m` with the flag cleared.
pub open spec fn sans_flag(m: RunV) -> RunV {
    RunV { flag_true: false, ..m }
}

/// Whether the machine `m`, run for `n` steps from the state `rt`, comes
/// to be `target`, but for the flag, in the state `rt2`.
pub open spec fn arrives_in<H: NativeHost>(
    host: H,
    instr: Seq<u32>,
    literals: Seq<Value>,
    m: RunV,
    rt: RuntimeV,
    depth: nat,
    n: nat,
    rt2: RuntimeV,
    target: RunV,
) -> bool {
    let out = vm_run(host, instr, literals, m, rt, depth, n);
    out.0 == rt2 && out.1 is Ok && sans_flag(out.1->Ok_0) == sans_flag(target)
}

/// Whether the machine `m`, run from the state `rt`, comes after some
/// steps to be `target`, but for the flag, in the state `rt2`.
pub open spec fn arrives<H: NativeHost>(
    host: H,
    instr: Seq<u32>,
    literals: Seq<Value>,
    m: RunV,
    rt: RuntimeV,
    depth: nat,
    rt2: RuntimeV,
    target: RunV,
) -> bool {
    exists|n: nat| arrives_in(host, instr, literals, m, rt, depth, n, rt2, target)
}

/// A machine that comes to `via` in `n` steps and arrives from there at
/// `target` arrives at `target`.
pub proof fn lemma_arrives_after<H: NativeHost>(
    host: H,
    instr: Seq<u32>,
    literals: Seq<Value>,
    m: RunV,
    rt: RuntimeV,
    depth: nat,
    n: nat,
    rta: RuntimeV,
    via: RunV,
    rt2: RuntimeV,
    target: RunV,
)
    requires
        vm_run(host, instr, literals, m, rt, depth, n) == (rta, Ok::<RunV, RunErrorV>(via)),
        arrives(host, instr, literals, via, rta, depth, rt2, target),
    ensures
        arrives(host, instr, literals, m, rt, depth, rt2, target),
{
    let k = choose|k: nat| arrives_in(host, instr, literals, via, rta, depth, k, rt2, target);
    lemma_run_adds(host, instr, literals, m, rt, depth, n, k);
    assert(arrives_in(host, instr, literals, m, rt, depth, n + k, rt2, target));
}

/// A machine that is at `target` has arrived.
pub proof fn lemma_arrives_now<H: NativeHost>(
    host: H,
    instr: Seq<u32>,
    literals: Seq<Value>,
    m: RunV,
    rt: RuntimeV,
    depth: nat,
    target: RunV,
)
    requires
        sans_flag(m) == sans_flag(target),
    ensures
        arrives(host, instr, literals, m, rt, depth, rt, target),
{
    assert(arrives_in(host, instr, literals, m, rt, depth, 0, rt, target));
}

/// `test` takes the value on top of the stack and sets the flag to its
/// truth.
pub proof fn lemma_test_step<H: NativeHost>(
    host: H,
    instr: Seq<u32>,
    literals: Seq<Value>,
    m: RunV,
    rt: RuntimeV,
    depth: nat,
)
    requires
        m.ip < instr.len() <= u32::MAX,
        instr[m.ip as int] == word_26(OP_TEST, 0),
        m.val_stack.len() > 0,
    ensures
        vm_run(host, instr, literals, m, rt, depth, 1) == (
            rt,
            Ok::<RunV, RunErrorV>(
                RunV { flag_true: truthy(m.val_stack.last()), ..m.drop(1) }.next(),
            ),
        ),
{
    lemma_word_26(OP_TEST, 0);
    let next = RunV { flag_true: truthy(m.val_stack.last()), ..m.drop(1) }.next();
    assert(vm_step(host, instr, literals, m, rt, depth) == (rt, Ok::<RunV, RunErrorV>(next)));
    assert(vm_run(host, instr, literals, next, rt, depth, 0) == (rt, Ok::<RunV, RunErrorV>(next)));
}

/// `popval 1` takes the value on top of the stack.
pub proof fn lemma_popval_step<H: NativeHost>(
    host: H,
    instr: Seq<u32>,
    literals: Seq<Value>,
    m: RunV,
    rt: RuntimeV,
    depth: nat,
)
    requires
        m.ip < instr.len() <= u32::MAX,
        instr[m.ip as int] == word_12_12(OP_POPVAL, 0, 1),
        m.val_stack.len() > 0,
    ensures
        vm_run(host, instr, literals, m, rt, depth, 1) == (
            rt,
            Ok::<RunV, RunErrorV>(m.drop(1).next()),
        ),
{
    lemma_word_12_12(OP_POPVAL, 0, 1);
    let next = m.drop(1).next();
    assert(vm_step(host, instr, literals, m, rt, depth) == (rt, Ok::<RunV, RunErrorV>(next)));
    assert(vm_run(host, instr, literals, next, rt, depth, 0) == (rt, Ok::<RunV, RunErrorV>(next)));
}

/// A jump that was emitted without a target and patched to go to `target`.
pub open spec fn jump_word(op: u8, target: u32) -> u32 {
    patched_26(word_26(op, INVALID_ADDR), target)
}

/// `jf` goes to its target where the flag is not set, and to the next
/// instruction where it is.
pub proof fn lemma_jf_step<H: NativeHost>(
    host: H,
    instr: Seq<u32>,
    literals: Seq<Value>,
    m: RunV,
    rt: RuntimeV,
    depth: nat,
    target: u32,
)
    requires
        m.ip < instr.len() <= u32::MAX,
        instr[m.ip as int] == jump_word(OP_JF, target),
        target < 0x0400_0000,
    ensures
        vm_run(host, instr, literals, m, rt, depth, 1) == (
            rt,
            Ok::<RunV, RunErrorV>(
                if !m.flag_true {
                    m.at(target)
                } else {
                    m.next()
                },
            ),
        ),
{
    lemma_word_26(OP_JF, INVALID_ADDR);
    lemma_patched_26(word_26(OP_JF, INVALID_ADDR), target);
    let next = if !m.flag_true {
        m.at(target)
    } else {
        m.next()
    };
    assert(vm_step(host, instr, literals, m, rt, depth) == (rt, Ok::<RunV, RunErrorV>(next)));
    assert(vm_run(host, instr, literals, next, rt, depth, 0) == (rt, Ok::<RunV, RunErrorV>(next)));
}

/// `jmp` goes to its target.
pub proof fn lemma_jmp_step<H: NativeHost>(
    host: H,
    instr: Seq<u32>,
    literals: Seq<Value>,
    m: RunV,
    rt: RuntimeV,
    depth: nat,
    word: u32,
    target: u32,
)
    requires
        m.ip < instr.len() <= u32::MAX,
        instr[m.ip as int] == word,
        word == word_26(OP_JMP, target) || word == jump_word(OP_JMP, target),
        target < 0x0400_0000,
    ensures
        vm_run(host, instr, literals, m, rt, depth, 1) == (
            rt,
            Ok::<RunV, RunErrorV>(m.at(target)),
        ),
{
    lemma_word_26(OP_JMP, INVALID_ADDR);
    lemma_word_26(OP_JMP, target);
    lemma_patched_26(word_26(OP_JMP, INVALID_ADDR), target);
    let next = m.at(target);
    assert(vm_step(host, instr, literals, m, rt, depth) == (rt, Ok::<RunV, RunErrorV>(next)));
    assert(vm_run(host, instr, literals, next, rt, depth, 0) == (rt, Ok::<RunV, RunErrorV>(next)));
}

/// The machine at the end of the code that was emitted on the way to `q`.
pub open spec fn at_end(m: RunV, q: ProgramV) -> RunV {
    RunV { ip: q.instr.len() as u32, ..m }
}

} // verus!
