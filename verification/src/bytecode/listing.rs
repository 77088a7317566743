//! Instructions as text, for listings of compiled code.
use vstd::prelude::*;
use crate::bytecode::instr::{
    d_op, d_op_12, d_op_12_12, d_op_26, opcode_of, operand_26, operand_hi, operand_lo,
};
use crate::bytecode::opcodes::{
    OP_ADD, OP_CALL, OP_DIV, OP_GETELEM, OP_GETVAR, OP_HALT, OP_JF, OP_JMP, OP_JT, OP_MUL,
    OP_NEWENV, OP_POPENV, OP_POPVAL, OP_PUSHLIT, OP_RET, OP_SETELEM, OP_SETVAR, OP_SUB, OP_TEST,
};
use crate::text::{decimal, push_decimal};

verus! {

/// The character that writes the hexadecimal digit `d`.
pub open spec fn hex_digit(d: nat) -> char {
    if d == 0 {
        '0'
    } else if d == 1 {
        '1'
    } else if d == 2 {
        '2'
    } else if d == 3 {
        '3'
    } else if d == 4 {
        '4'
    } else if d == 5 {
        '5'
    } else if d == 6 {
        '6'
    } else if d == 7 {
        '7'
    } else if d == 8 {
        '8'
    } else if d == 9 {
        '9'
    } else if d == 10 {
        'a'
    } else if d == 11 {
        'b'
    } else if d == 12 {
        'c'
    } else if d == 13 {
        'd'
    } else if d == 14 {
        'e'
    } else {
        'f'
    }
}

/// The hexadecimal digit of `n` at position `i`, the most significant of
/// the eight digits at position 0.
pub open spec fn nibble(n: u32, i: int) -> nat {
    ((n >> ((28 - 4 * i) as u32)) & 0xf) as nat
}

/// The eight hexadecimal digits of `n`.
pub open spec fn hex8(n: u32) -> Seq<char> {
    Seq::new(8, |i: int| hex_digit(nibble(n, i)))
}

fn hex_char(d: u32) -> (c: char)
    ensures
        c == hex_digit(d as nat),
{
    if d == 0 {
        '0'
    } else if d == 1 {
        '1'
    } else if d == 2 {
        '2'
    } else if d == 3 {
        '3'
    } else if d == 4 {
        '4'
    } else if d == 5 {
        '5'
    } else if d == 6 {
        '6'
    } else if d == 7 {
        '7'
    } else if d == 8 {
        '8'
    } else if d == 9 {
        '9'
    } else if d == 10 {
        'a'
    } else if d == 11 {
        'b'
    } else if d == 12 {
        'c'
    } else if d == 13 {
        'd'
    } else if d == 14 {
        'e'
    } else {
        'f'
    }
}

/// Appends the eight hexadecimal digits of `n` to `s`.
pub fn push_hex8(s: &mut String, n: u32)
    ensures
        final(s)@ == old(s)@ + hex8(n),
{
    let mut i: u32 = 0;
    assert(s@ =~= old(s)@ + hex8(n).take(0));
    while i < 8
        invariant
            i <= 8,
            s@ == old(s)@ + hex8(n).take(i as int),
        decreases 8 - i,
    {
        let shift: u32 = 28 - 4 * i;
        let d: u32 = (n >> shift) & 0xf;
        s.push(hex_char(d));
        assert(hex8(n)[i as int] == hex_digit(nibble(n, i as int)));
        assert(s@ =~= old(s)@ + hex8(n).take(i + 1));
        i += 1;
    }
    assert(hex8(n).take(8) =~= hex8(n));
}

/// The name of the operation of `instr`, in a column of eleven
/// characters, and its operands: two 12-bit operands and a count in
/// decimal notation, an address in eight hexadecimal digits.
pub open spec fn instr_text(instr: u32) -> Seq<char> {
    let op = opcode_of(instr);
    let hi = decimal(operand_hi(instr) as nat);
    let lo = decimal(operand_lo(instr) as nat);
    if op == OP_HALT {
        "halt       "@
    } else if op == OP_NEWENV {
        "newenv     "@ + hi + ", "@ + lo
    } else if op == OP_POPENV {
        "popenv     "@ + lo
    } else if op == OP_GETVAR {
        "getvar     "@ + hi + ", "@ + lo
    } else if op == OP_SETVAR {
        "setvar     "@ + hi + ", "@ + lo
    } else if op == OP_GETELEM {
        "getelem    "@
    } else if op == OP_SETELEM {
        "setelem    "@
    } else if op == OP_PUSHLIT {
        "pushlit    "@ + decimal(operand_26(instr) as nat)
    } else if op == OP_ADD {
        "add        "@
    } else if op == OP_SUB {
        "sub        "@
    } else if op == OP_MUL {
        "mul        "@
    } else if op == OP_DIV {
        "div        "@
    } else if op == OP_TEST {
        "test       "@
    } else if op == OP_JMP {
        "jmp        "@ + hex8(operand_26(instr))
    } else if op == OP_JT {
        "jt         "@ + hex8(operand_26(instr))
    } else if op == OP_JF {
        "jf         "@ + hex8(operand_26(instr))
    } else if op == OP_CALL {
        "call       "@ + lo
    } else if op == OP_RET {
        "ret        "@
    } else if op == OP_POPVAL {
        "popval     "@ + lo
    } else {
        "???        "@
    }
}

fn name_and_two(name: &str, instr: u32) -> (s: String)
    ensures
        s@ == name@ + decimal(operand_hi(instr) as nat) + ", "@ + decimal(
            operand_lo(instr) as nat,
        ),
{
    let mut s = String::from_str(name);
    let (hi, lo) = d_op_12_12(instr);
    push_decimal(&mut s, hi as u64);
    s.append(", ");
    push_decimal(&mut s, lo as u64);
    s
}

fn name_and_one(name: &str, instr: u32) -> (s: String)
    ensures
        s@ == name@ + decimal(operand_lo(instr) as nat),
{
    let mut s = String::from_str(name);
    push_decimal(&mut s, d_op_12(instr) as u64);
    s
}

fn name_and_addr(name: &str, instr: u32) -> (s: String)
    ensures
        s@ == name@ + hex8(operand_26(instr)),
{
    let mut s = String::from_str(name);
    push_hex8(&mut s, d_op_26(instr));
    s
}

/// The text of one instruction.
pub fn disasm_instr(instr: u32) -> (s: String)
    ensures
        s@ == instr_text(instr),
{
    let op = d_op(instr);
    if op == OP_HALT {
        String::from_str("halt       ")
    } else if op == OP_NEWENV {
        name_and_two("newenv     ", instr)
    } else if op == OP_POPENV {
        name_and_one("popenv     ", instr)
    } else if op == OP_GETVAR {
        name_and_two("getvar     ", instr)
    } else if op == OP_SETVAR {
        name_and_two("setvar     ", instr)
    } else if op == OP_GETELEM {
        String::from_str("getelem    ")
    } else if op == OP_SETELEM {
        String::from_str("setelem    ")
    } else if op == OP_PUSHLIT {
        let mut s = String::from_str("pushlit    ");
        push_decimal(&mut s, d_op_26(instr) as u64);
        s
    } else if op == OP_ADD {
        String::from_str("add        ")
    } else if op == OP_SUB {
        String::from_str("sub        ")
    } else if op == OP_MUL {
        String::from_str("mul        ")
    } else if op == OP_DIV {
        String::from_str("div        ")
    } else if op == OP_TEST {
        String::from_str("test       ")
    } else if op == OP_JMP {
        name_and_addr("jmp        ", instr)
    } else if op == OP_JT {
        name_and_addr("jt         ", instr)
    } else if op == OP_JF {
        name_and_addr("jf         ", instr)
    } else if op == OP_CALL {
        name_and_one("call       ", instr)
    } else if op == OP_RET {
        String::from_str("ret        ")
    } else if op == OP_POPVAL {
        name_and_one("popval     ", instr)
    } else {
        String::from_str("???        ")
    }
}

/// The line of a listing for the instruction `instr` at `addr`: the
/// address and the word in hexadecimal digits, then the instruction.
pub open spec fn line_text(addr: u32, instr: u32) -> Seq<char> {
    hex8(addr) + ":   "@ + hex8(instr) + "   "@ + instr_text(instr)
}

/// The line of a listing for the instruction `instr` at `addr`.
pub fn disasm_line(addr: u32, instr: u32) -> (s: String)
    ensures
        s@ == line_text(addr, instr),
{
    let mut s = String::new();
    assert(s@ =~= Seq::<char>::empty());
    push_hex8(&mut s, addr);
    s.append(":   ");
    push_hex8(&mut s, instr);
    s.append("   ");
    let text = disasm_instr(instr);
    s.append(text.as_str());
    assert(s@ =~= line_text(addr, instr));
    s
}

} // verus!
