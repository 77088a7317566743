//! Instruction words.
//!
//! An instruction is a 32-bit word. Bits 31 to 26 hold the operation code.
//! The other 26 bits hold one 26-bit operand, or two 12-bit operands in bits
//! 23 to 12 and 11 to 0, or nothing.
use vstd::prelude::*;

verus! {

/// The operation code of an instruction word.
pub open spec fn opcode_of(instr: u32) -> u8 {
    (instr >> 26) as u8
}

/// The 26-bit operand of an instruction word.
pub open spec fn operand_26(instr: u32) -> u32 {
    instr & 0x03ff_ffff
}

/// The first of the two 12-bit operands of an instruction word.
pub open spec fn operand_hi(instr: u32) -> u16 {
    ((instr >> 12) & 0x0fff) as u16
}

/// The second of the two 12-bit operands, which is also the operand of an
/// instruction that has a single 12-bit operand.
pub open spec fn operand_lo(instr: u32) -> u16 {
    (instr & 0x0fff) as u16
}

/// The word with operation code `op` and a 26-bit operand.
pub open spec fn word_26(op: u8, t: u32) -> u32 {
    ((op as u32) << 26) | (t & 0x03ff_ffff)
}

/// The word with operation code `op` and two 12-bit operands.
pub open spec fn word_12_12(op: u8, t1: u16, t2: u16) -> u32 {
    ((op as u32) << 26) | (((t1 as u32) & 0x0fff) << 12) | ((t2 as u32) & 0x0fff)
}

/// `instr` with its 26-bit operand replaced.
pub open spec fn patched_26(instr: u32, t: u32) -> u32 {
    (instr & 0xfc00_0000) | (t & 0x03ff_ffff)
}

/// `instr` with its two 12-bit operands replaced.
pub open spec fn patched_12_12(instr: u32, t1: u16, t2: u16) -> u32 {
    (instr & 0xfc00_0000) | (((t1 as u32) & 0x0fff) << 12) | ((t2 as u32) & 0x0fff)
}

// -------------------------------------
// de-construct instructions

/// The single 12-bit operand.
#[inline(always)]
pub fn d_op_12(instr: u32) -> (r: u16)
    ensures
        r == operand_lo(instr),
        r < 0x1000,
{
    assert(instr & 0x0fff < 0x1000) by (bit_vector);
    (instr & 0x0fff) as u16
}

/// The two 12-bit operands.
#[inline(always)]
pub fn d_op_12_12(instr: u32) -> (r: (u16, u16))
    ensures
        r.0 == operand_hi(instr),
        r.1 == operand_lo(instr),
        r.0 < 0x1000,
        r.1 < 0x1000,
{
    assert(instr & 0x0fff < 0x1000) by (bit_vector);
    assert((instr >> 12) & 0x0fff < 0x1000) by (bit_vector);
    (((instr >> 12) & 0x0fff) as u16, (instr & 0x0fff) as u16)
}

/// The 26-bit operand.
#[inline(always)]
pub fn d_op_26(instr: u32) -> (r: u32)
    ensures
        r == operand_26(instr),
        r < 0x0400_0000,
{
    assert(instr & 0x03ff_ffff < 0x0400_0000) by (bit_vector);
    instr & 0x03ff_ffff
}

/// The operation code.
#[inline(always)]
pub fn d_op(instr: u32) -> (r: u8)
    ensures
        r == opcode_of(instr),
        r < 64,
{
    assert(instr >> 26 < 64) by (bit_vector);
    (instr >> 26) as u8
}

// -------------------------------------
// construct instructions

/// An instruction without operands.
pub fn c_op(op: u8) -> (r: u32)
    ensures
        r == word_26(op, 0),
{
    let r = (op as u32) << 26;
    assert(r == r | (0u32 & 0x03ff_ffff)) by (bit_vector);
    r
}

/// An instruction with one 12-bit operand; the higher bits of `t` are
/// dropped.
pub fn c_op_12(op: u8, t: u16) -> (r: u32)
    ensures
        r == word_12_12(op, 0, t),
{
    let r = ((op as u32) << 26) | ((t as u32) & 0x0fff);
    let o = op as u32;
    let tt = t as u32;
    assert((o << 26) | (tt & 0x0fff) == (o << 26) | ((0u32 & 0x0fff) << 12) | (tt & 0x0fff))
        by (bit_vector);
    r
}

/// An instruction with two 12-bit operands; the higher bits of each are
/// dropped.
pub fn c_op_12_12(op: u8, t1: u16, t2: u16) -> (r: u32)
    ensures
        r == word_12_12(op, t1, t2),
{
    ((op as u32) << 26) | (((t1 as u32) & 0x0fff) << 12) | ((t2 as u32) & 0x0fff)
}

/// An instruction with one 26-bit operand; the higher bits of `t` are
/// dropped.
pub fn c_op_26(op: u8, t: u32) -> (r: u32)
    ensures
        r == word_26(op, t),
{
    ((op as u32) << 26) | (t & 0x03ff_ffff)
}

// -------------------------------------
// fix instructions

/// `instr` with a new 12-bit operand and the same operation code.
pub fn _f_op_12(instr: u32, t: u16) -> (r: u32)
    ensures
        r == (instr & 0xfc00_0000) | ((t as u32) & 0x0fff),
        opcode_of(r) == opcode_of(instr),
        operand_lo(r) == t & 0x0fff,
{
    let tt = t as u32;
    assert(((instr & 0xfc00_0000) | (tt & 0x0fff)) >> 26 == instr >> 26) by (bit_vector);
    assert(((instr & 0xfc00_0000) | (tt & 0x0fff)) & 0x0fff == tt & 0x0fff) by (bit_vector);
    assert((tt & 0x0fff) as u16 == t & 0x0fff) by (bit_vector)
        requires
            tt == t as u32,
    ;
    (instr & 0xfc00_0000) | ((t as u32) & 0x0fff)
}

/// `instr` with two new 12-bit operands and the same operation code.
pub fn f_op_12_12(instr: u32, t1: u16, t2: u16) -> (r: u32)
    ensures
        r == patched_12_12(instr, t1, t2),
{
    (instr & 0xfc00_0000) | (((t1 as u32) & 0x0fff) << 12) | ((t2 as u32) & 0x0fff)
}

/// `instr` with a new 26-bit operand and the same operation code.
pub fn f_op_26(instr: u32, t: u32) -> (r: u32)
    ensures
        r == patched_26(instr, t),
{
    (instr & 0xfc00_0000) | (t & 0x03ff_ffff)
}

// -------------------------------------
// what the words mean

/// An instruction built from an operation code below 64 and a 26-bit
/// operand gives both back.
pub proof fn lemma_word_26(op: u8, t: u32)
    requires
        op < 64,
    ensures
        opcode_of(word_26(op, t)) == op,
        operand_26(word_26(op, t)) == t & 0x03ff_ffff,
        t < 0x0400_0000 ==> operand_26(word_26(op, t)) == t,
{
    let o = op as u32;
    assert((((o << 26) | (t & 0x03ff_ffff)) >> 26) == o) by (bit_vector)
        requires
            o < 64,
    ;
    assert(((o << 26) | (t & 0x03ff_ffff)) & 0x03ff_ffff == t & 0x03ff_ffff) by (bit_vector);
    assert(t < 0x0400_0000 ==> t & 0x03ff_ffff == t) by (bit_vector);
}

/// An instruction built from an operation code below 64 and two 12-bit
/// operands gives all three back.
pub proof fn lemma_word_12_12(op: u8, t1: u16, t2: u16)
    requires
        op < 64,
    ensures
        opcode_of(word_12_12(op, t1, t2)) == op,
        operand_hi(word_12_12(op, t1, t2)) == t1 & 0x0fff,
        operand_lo(word_12_12(op, t1, t2)) == t2 & 0x0fff,
        t1 < 0x1000 ==> operand_hi(word_12_12(op, t1, t2)) == t1,
        t2 < 0x1000 ==> operand_lo(word_12_12(op, t1, t2)) == t2,
{
    let o = op as u32;
    let a = t1 as u32;
    let b = t2 as u32;
    let w = (o << 26) | ((a & 0x0fff) << 12) | (b & 0x0fff);
    assert(w >> 26 == o) by (bit_vector)
        requires
            o < 64,
            w == (o << 26) | ((a & 0x0fff) << 12) | (b & 0x0fff),
    ;
    assert((w >> 12) & 0x0fff == a & 0x0fff) by (bit_vector)
        requires
            w == (o << 26) | ((a & 0x0fff) << 12) | (b & 0x0fff),
    ;
    assert(w & 0x0fff == b & 0x0fff) by (bit_vector)
        requires
            w == (o << 26) | ((a & 0x0fff) << 12) | (b & 0x0fff),
    ;
    assert((a & 0x0fff) as u16 == t1 & 0x0fff) by (bit_vector)
        requires
            a == t1 as u32,
    ;
    assert((b & 0x0fff) as u16 == t2 & 0x0fff) by (bit_vector)
        requires
            b == t2 as u32,
    ;
    assert(t1 < 0x1000 ==> t1 & 0x0fff == t1) by (bit_vector);
    assert(t2 < 0x1000 ==> t2 & 0x0fff == t2) by (bit_vector);
}

/// Patching the 26-bit operand keeps the operation code and stores the low
/// 26 bits of the new operand.
pub proof fn lemma_patched_26(instr: u32, t: u32)
    ensures
        opcode_of(patched_26(instr, t)) == opcode_of(instr),
        operand_26(patched_26(instr, t)) == t & 0x03ff_ffff,
        t < 0x0400_0000 ==> operand_26(patched_26(instr, t)) == t,
        patched_26(instr, t) == word_26(opcode_of(instr), t),
{
    assert(((instr & 0xfc00_0000) | (t & 0x03ff_ffff)) >> 26 == instr >> 26) by (bit_vector);
    assert(((instr & 0xfc00_0000) | (t & 0x03ff_ffff)) & 0x03ff_ffff == t & 0x03ff_ffff)
        by (bit_vector);
    assert(t < 0x0400_0000 ==> t & 0x03ff_ffff == t) by (bit_vector);
    let o = (instr >> 26) as u8;
    assert(instr & 0xfc00_0000 == (((instr >> 26) as u8) as u32) << 26) by (bit_vector);
}

/// Patching the two 12-bit operands keeps the operation code and stores the
/// low 12 bits of each new operand.
pub proof fn lemma_patched_12_12(instr: u32, t1: u16, t2: u16)
    ensures
        opcode_of(patched_12_12(instr, t1, t2)) == opcode_of(instr),
        patched_12_12(instr, t1, t2) == word_12_12(opcode_of(instr), t1, t2),
{
    let a = t1 as u32;
    let b = t2 as u32;
    assert(((instr & 0xfc00_0000) | ((a & 0x0fff) << 12) | (b & 0x0fff)) >> 26 == instr >> 26)
        by (bit_vector);
    assert(instr & 0xfc00_0000 == (((instr >> 26) as u8) as u32) << 26) by (bit_vector);
}

} // verus!
