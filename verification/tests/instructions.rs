use bleepscript::bytecode::gen::{FixupContext, Program};
use bleepscript::bytecode::instr::{
    _f_op_12, c_op, c_op_12, c_op_12_12, c_op_26, d_op, d_op_12, d_op_12_12, d_op_26, f_op_12_12,
    f_op_26,
};
use bleepscript::bytecode::opcodes::{
    OP_CALL, OP_GETVAR, OP_HALT, OP_JF, OP_JMP, OP_NEWENV, OP_POPENV, OP_PUSHLIT, OP_RET,
};
use bleepscript::bytecode::listing::{disasm_instr, disasm_line};
use bleepscript::bytecode::INVALID_ADDR;
use bleepscript::value::Value;

#[test]
fn words_are_built_bit_by_bit() {
    assert_eq!(c_op(OP_RET), 9 << 26);
    assert_eq!(c_op_12(OP_CALL, 2), (8 << 26) | 2);
    assert_eq!(c_op_12_12(OP_GETVAR, 3, 1), (3 << 26) | (3 << 12) | 1);
    assert_eq!(c_op_26(OP_JMP, 0x123456), (32 << 26) | 0x123456);
    assert_eq!(c_op_26(OP_HALT, 0x3ff_ffff), 0xffff_ffff);
}

#[test]
fn operands_are_cut_to_their_width() {
    assert_eq!(c_op_12(OP_CALL, 0xf123), (8 << 26) | 0x123);
    assert_eq!(c_op_12_12(OP_NEWENV, 0x1001, 0x2002), (1 << 26) | (1 << 12) | 2);
    assert_eq!(c_op_26(OP_JMP, INVALID_ADDR), (32 << 26) | 0x3ff_ffff);
}

#[test]
fn words_are_taken_apart() {
    let w = c_op_12_12(OP_GETVAR, 0xabc, 0x123);
    assert_eq!(d_op(w), OP_GETVAR);
    assert_eq!(d_op_12_12(w), (0xabc, 0x123));
    assert_eq!(d_op_12(w), 0x123);
    let j = c_op_26(OP_JF, 0x2abcdef);
    assert_eq!(d_op(j), OP_JF);
    assert_eq!(d_op_26(j), 0x2abcdef);
    assert_eq!(d_op(0xffff_ffff), OP_HALT);
}

#[test]
fn patches_keep_the_operation() {
    let j = c_op_26(OP_JMP, INVALID_ADDR);
    let fixed = f_op_26(j, 77);
    assert_eq!(d_op(fixed), OP_JMP);
    assert_eq!(d_op_26(fixed), 77);
    let n = f_op_12_12(c_op_12_12(OP_NEWENV, 1, 1), 1, 5);
    assert_eq!(d_op(n), OP_NEWENV);
    assert_eq!(d_op_12_12(n), (1, 5));
    let p = _f_op_12(c_op_12(OP_POPENV, 1), 9);
    assert_eq!(d_op(p), OP_POPENV);
    assert_eq!(d_op_12(p), 9);
}

#[test]
fn fixup_context_patches_all_waiting_jumps() {
    let mut instr = vec![
        c_op_26(OP_JMP, INVALID_ADDR),
        c_op(OP_RET),
        c_op_26(OP_JF, INVALID_ADDR),
    ];
    let mut ctx = FixupContext::new(4);
    assert_eq!(ctx.start_env_level, 4);
    ctx.add(0).unwrap();
    ctx.add(2).unwrap();
    ctx.add(40).unwrap();
    ctx.close(&mut instr, 3).unwrap();
    assert_eq!(instr, vec![c_op_26(OP_JMP, 3), c_op(OP_RET), c_op_26(OP_JF, 3)]);
}

#[test]
fn new_program_holds_the_null_literal() {
    let p = Program::new();
    assert_eq!(p.addr(), 0);
    assert!(p.instr().is_empty());
    assert_eq!(p.literals(), &vec![Value::Null]);
}

#[test]
fn emitters_append_words() {
    let mut p = Program::new();
    p.emit_pushlit(1);
    p.emit_getvar(2, 3);
    p.emit_setvar(4, 5);
    p.emit_newenv(1, 2);
    p.emit_popenv(3);
    p.emit_call(2);
    p.emit_popval(1);
    p.emit_jmp(5);
    p.emit_jf(6);
    p._emit_jt(7);
    p.emit_ret();
    p.emit_test();
    p.emit_getelem();
    p._emit_setelem();
    p.emit_add();
    p.emit_sub();
    p.emit_mul();
    p.emit_div();
    p.emit_halt();
    let ops: Vec<u8> = p.instr().iter().map(|w| d_op(*w)).collect();
    assert_eq!(
        ops,
        vec![7, 3, 4, 1, 2, 8, 10, 32, 34, 33, 9, 20, 5, 6, 16, 17, 18, 19, 63]
    );
    assert_eq!(p.addr(), 19);
    assert_eq!(d_op_12_12(p.instr()[1]), (2, 3));
    assert_eq!(d_op_26(p.instr()[7]), 5);
}

#[test]
fn literals_get_consecutive_indices() {
    let mut p = Program::new();
    assert_eq!(p.add_literal(Value::Bool(true)), 1);
    assert_eq!(p.add_literal(Value::Bool(false)), 2);
    assert_eq!(p.literals().len(), 3);
}

#[test]
fn break_fixups_need_a_loop() {
    let mut p = Program::new();
    assert!(p.add_break_fixup(0).is_err());
    assert!(p.get_while_env_level().is_err());
    assert!(p.close_while_context(0).is_err());
    p.set_env_level(2);
    p.new_while_context();
    p.inc_env_level(3);
    assert_eq!(p.get_while_env_level().unwrap(), 3);
    p.emit_jmp(INVALID_ADDR);
    p.add_break_fixup(0).unwrap();
    p.close_while_context(9).unwrap();
    assert_eq!(d_op_26(p.instr()[0]), 9);
    assert!(p.get_while_env_level().is_err());
}

#[test]
fn return_fixups_need_a_function() {
    let mut p = Program::new();
    assert!(p.add_return_fixup(0).is_err());
    assert!(p.close_func_context(0).is_err());
    p.new_func_context();
    p.emit_jmp(INVALID_ADDR);
    p.emit_jmp(INVALID_ADDR);
    p.add_return_fixup(0).unwrap();
    p.add_return_fixup(1).unwrap();
    p.close_func_context(2).unwrap();
    assert_eq!(d_op_26(p.instr()[0]), 2);
    assert_eq!(d_op_26(p.instr()[1]), 2);
}

#[test]
fn env_level_goes_up_and_down() {
    let mut p = Program::new();
    assert_eq!(p.get_env_level(), 0);
    p.inc_env_level(2);
    assert_eq!(p.get_env_level(), 2);
    p.dec_env_level(1).unwrap();
    assert_eq!(p.get_env_level(), 1);
    assert!(p.dec_env_level(2).is_err());
    assert_eq!(p.get_env_level(), 1);
}

#[test]
fn jumps_and_frames_are_fixed_in_place() {
    let mut p = Program::new();
    p.emit_newenv(1, 1);
    p.emit_jf(INVALID_ADDR);
    p.fix_newenv(0, 1, 4);
    p.fix_jump(1, 12);
    p.fix_jump(50, 12);
    assert_eq!(d_op_12_12(p.instr()[0]), (1, 4));
    assert_eq!(d_op(p.instr()[1]), OP_JF);
    assert_eq!(d_op_26(p.instr()[1]), 12);
    assert_eq!(p.instr().len(), 2);
}

#[test]
fn labels_and_comments_are_kept() {
    let mut p = Program::new();
    p.add_label(0, "main");
    p.emit_ret();
    p.add_comment("after ret");
    assert_eq!(p.labels().get(&0), Some(&"main".to_string()));
    assert_eq!(p.labels().len(), 1);
    assert_eq!(p.comments().get(&1), Some(&"after ret".to_string()));
    assert_eq!(p.comments().len(), 1);
    assert_eq!(d_op(p.instr()[0]), OP_RET);
    let _ = OP_PUSHLIT;
}

#[test]
fn instructions_are_listed_with_their_operands() {
    assert_eq!(disasm_instr(c_op_12_12(OP_GETVAR, 3, 1)), "getvar     3, 1");
    assert_eq!(disasm_instr(c_op_12_12(OP_NEWENV, 2, 4095)), "newenv     2, 4095");
    assert_eq!(disasm_instr(c_op_12(OP_CALL, 2)), "call       2");
    assert_eq!(disasm_instr(c_op_26(OP_PUSHLIT, 17)), "pushlit    17");
    assert_eq!(disasm_instr(c_op_26(OP_JMP, 0x2a)), "jmp        0000002a");
    assert_eq!(disasm_instr(c_op_26(OP_JF, INVALID_ADDR)), "jf         03ffffff");
    assert_eq!(disasm_instr(c_op(OP_RET)), "ret        ");
    assert_eq!(disasm_instr(c_op_26(OP_HALT, 0x3ff_ffff)), "halt       ");
    assert_eq!(disasm_instr(63 << 25), "???        ");
}

#[test]
fn a_line_of_a_listing_starts_with_the_address_and_the_word() {
    assert_eq!(
        disasm_line(0x10, c_op_12_12(OP_GETVAR, 3, 1)),
        "00000010:   0c003001   getvar     3, 1"
    );
    assert_eq!(
        disasm_line(0xdead_beef, c_op_26(OP_JMP, 0x123456)),
        "deadbeef:   80123456   jmp        00123456"
    );
}

#[test]
fn a_program_lists_its_instructions_in_order() {
    let mut p = Program::new();
    p.emit_getvar(1, 0);
    p.emit_ret();
    let lines = p.disasm();
    assert_eq!(
        lines,
        vec![
            "00000000:   0c001000   getvar     1, 0".to_string(),
            "00000001:   24000000   ret        ".to_string(),
        ]
    );
}
