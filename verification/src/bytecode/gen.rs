//! The code generator: the instruction stream as it is built.
//!
//! Jumps forward are emitted before their target is known. Their addresses
//! wait in a fixup context: one per function body that is being compiled,
//! for its `return`s, and one per loop body, for its `break`s. When the body
//! is done the context is closed and every waiting jump is patched.
use std::collections::HashMap;
use vstd::prelude::*;
use crate::bytecode::listing::{disasm_line, line_text};
use crate::bytecode::instr::{
    c_op, c_op_12, c_op_12_12, c_op_26, f_op_12_12, f_op_26, patched_12_12, patched_26,
    word_12_12, word_26,
};
use crate::bytecode::opcodes::{
    OP_ADD, OP_CALL, OP_DIV, OP_GETELEM, OP_GETVAR, OP_HALT, OP_JF, OP_JMP, OP_JT, OP_MUL,
    OP_NEWENV, OP_POPENV, OP_POPVAL, OP_PUSHLIT, OP_RET, OP_SETELEM, OP_SETVAR, OP_SUB, OP_TEST,
};
use crate::bytecode::Addr;
use crate::parser::errors::{ParseError, ParseErrorV, parse_view};
use crate::parser::ParseResult;
use crate::src_loc::{SrcLoc, SrcLocV};
use crate::value::Value;

verus! {

/// The jumps of one function body or loop body that wait for their target.
pub struct FixupContext {
    /// The number of frames open where the body starts.
    pub start_env_level: u32,
    /// The addresses of the jumps that wait.
    pub instr_addrs: Vec<Addr>,
}

/// The mathematical value of a [`FixupContext`].
pub struct FixupV {
    pub start_env_level: u32,
    pub instr_addrs: Seq<Addr>,
}

impl View for FixupContext {
    type V = FixupV;

    open spec fn view(&self) -> FixupV {
        FixupV { start_env_level: self.start_env_level, instr_addrs: self.instr_addrs@ }
    }
}

/// `instr` with the 26-bit operand of the instruction at each of `addrs`
/// replaced by `target`. An address outside `instr` is passed over.
pub open spec fn patch_all(instr: Seq<u32>, addrs: Seq<Addr>, target: Addr) -> Seq<u32>
    decreases addrs.len(),
{
    if addrs.len() == 0 {
        instr
    } else {
        patch_all(
            patch_jump(instr, addrs[0], target),
            addrs.subrange(1, addrs.len() as int),
            target,
        )
    }
}

/// `instr` with the 26-bit operand of the instruction at `addr` replaced by
/// `target`; unchanged where `addr` is outside `instr`.
pub open spec fn patch_jump(instr: Seq<u32>, addr: Addr, target: Addr) -> Seq<u32> {
    if addr < instr.len() {
        instr.update(addr as int, patched_26(instr[addr as int], target))
    } else {
        instr
    }
}

/// `instr` with the two 12-bit operands of the instruction at `addr`
/// replaced; unchanged where `addr` is outside `instr`.
pub open spec fn patch_newenv(instr: Seq<u32>, addr: Addr, n_vals: u16, n_total: u16) -> Seq<u32> {
    if addr < instr.len() {
        instr.update(addr as int, patched_12_12(instr[addr as int], n_vals, n_total))
    } else {
        instr
    }
}

impl FixupContext {
    /// A context without waiting jumps, for a body that starts with
    /// `start_env_level` frames open.
    pub fn new(start_env_level: u32) -> (r: FixupContext)
        ensures
            r@ == (FixupV { start_env_level, instr_addrs: Seq::empty() }),
    {
        FixupContext { start_env_level, instr_addrs: Vec::new() }
    }

    /// Notes that the jump at `instr_addr` waits for its target.
    pub fn add(&mut self, instr_addr: Addr) -> (r: ParseResult<()>)
        ensures
            r is Ok,
            final(self)@ == (FixupV {
                instr_addrs: old(self)@.instr_addrs.push(instr_addr),
                ..old(self)@
            }),
    {
        self.instr_addrs.push(instr_addr);
        Ok(())
    }

    /// Patches every waiting jump to go to `fixed_addr`.
    pub fn close(self, instr: &mut Vec<u32>, fixed_addr: Addr) -> (r: ParseResult<()>)
        ensures
            r is Ok,
            final(instr)@ == patch_all(old(instr)@, self@.instr_addrs, fixed_addr),
    {
        let mut i: usize = 0;
        assert(self.instr_addrs@.subrange(0, self.instr_addrs@.len() as int)
            =~= self.instr_addrs@);
        while i < self.instr_addrs.len()
            invariant
                i <= self.instr_addrs.len(),
                patch_all(old(instr)@, self@.instr_addrs, fixed_addr) == patch_all(
                    instr@,
                    self@.instr_addrs.subrange(i as int, self@.instr_addrs.len() as int),
                    fixed_addr,
                ),
            decreases self.instr_addrs.len() - i,
        {
            let ghost rest = self@.instr_addrs.subrange(i as int, self@.instr_addrs.len() as int);
            assert(rest.subrange(1, rest.len() as int) =~= self@.instr_addrs.subrange(
                i + 1,
                self@.instr_addrs.len() as int,
            ));
            let addr = self.instr_addrs[i] as usize;
            if addr < instr.len() {
                let word = f_op_26(instr[addr], fixed_addr);
                instr[addr] = word;
            }
            i += 1;
        }
        Ok(())
    }
}

/// A program as it is built: the instructions and literals emitted so far,
/// and what the generator knows about the place it is at.
pub struct Program {
    instr: Vec<u32>,
    literals: Vec<Value>,
    while_ctx: Vec<FixupContext>,
    func_ctx: Vec<FixupContext>,
    env_level: u32,
    labels: HashMap<Addr, String>,
    comments: HashMap<Addr, String>,
}

/// The mathematical value of a [`Program`].
pub struct ProgramV {
    pub instr: Seq<u32>,
    pub literals: Seq<Value>,
    /// The contexts of the loops that are open, the innermost last.
    pub while_ctx: Seq<FixupV>,
    /// The contexts of the functions that are open, the innermost last.
    pub func_ctx: Seq<FixupV>,
    /// The number of frames that are open at the place the generator is at,
    /// counted from the entry of the function.
    pub env_level: u32,
    /// The names given to addresses.
    pub labels: Map<Addr, Seq<char>>,
}

/// Notes by their addresses, each as the characters of its text.
pub open spec fn notes_view(notes: Map<Addr, String>) -> Map<Addr, Seq<char>> {
    notes.map_values(|s: String| s@)
}

/// Contexts, each by its view.
pub open spec fn contexts_view(ctx: Seq<FixupContext>) -> Seq<FixupV> {
    Seq::new(ctx.len(), |i: int| ctx[i]@)
}

impl View for Program {
    type V = ProgramV;

    closed spec fn view(&self) -> ProgramV {
        ProgramV {
            instr: self.instr@,
            literals: self.literals@,
            while_ctx: contexts_view(self.while_ctx@),
            func_ctx: contexts_view(self.func_ctx@),
            env_level: self.env_level,
            labels: notes_view(self.labels@),
        }
    }
}

/// The place that the generator gives to its own failures.
pub open spec fn gen_loc() -> SrcLocV {
    SrcLocV { filename: "(bytecode generation)"@, line_num: 0, col_num: 0 }
}

/// A failure of the generator with the message `msg`.
pub open spec fn gen_error(msg: Seq<char>) -> ParseErrorV {
    ParseErrorV::at(gen_loc(), msg)
}

impl ProgramV {
    /// The address of the next instruction that is emitted.
    pub open spec fn addr(self) -> Addr {
        self.instr.len() as Addr
    }

    /// The program with one more instruction.
    pub open spec fn emit(self, word: u32) -> ProgramV {
        ProgramV { instr: self.instr.push(word), ..self }
    }

    /// The program with one more literal.
    pub open spec fn with_literal(self, val: Value) -> ProgramV {
        ProgramV { literals: self.literals.push(val), ..self }
    }

    /// The program with another number of open frames.
    pub open spec fn at_level(self, n: u32) -> ProgramV {
        ProgramV { env_level: n, ..self }
    }

    /// The program with a new innermost function context.
    pub open spec fn open_func(self) -> ProgramV {
        ProgramV {
            func_ctx: self.func_ctx.push(
                FixupV { start_env_level: self.env_level, instr_addrs: Seq::empty() },
            ),
            ..self
        }
    }

    /// The program with a new innermost loop context.
    pub open spec fn open_while(self) -> ProgramV {
        ProgramV {
            while_ctx: self.while_ctx.push(
                FixupV { start_env_level: self.env_level, instr_addrs: Seq::empty() },
            ),
            ..self
        }
    }

    /// The program with the innermost function context closed: its jumps go
    /// to `fixed_addr`. Unchanged where no function is open.
    pub open spec fn close_func(self, fixed_addr: Addr) -> ProgramV {
        if self.func_ctx.len() == 0 {
            self
        } else {
            ProgramV {
                instr: patch_all(self.instr, self.func_ctx.last().instr_addrs, fixed_addr),
                func_ctx: self.func_ctx.drop_last(),
                ..self
            }
        }
    }

    /// The program with the innermost loop context closed: its jumps go to
    /// `fixed_addr`. Unchanged where no loop is open.
    pub open spec fn close_while(self, fixed_addr: Addr) -> ProgramV {
        if self.while_ctx.len() == 0 {
            self
        } else {
            ProgramV {
                instr: patch_all(self.instr, self.while_ctx.last().instr_addrs, fixed_addr),
                while_ctx: self.while_ctx.drop_last(),
                ..self
            }
        }
    }

    /// The program with the jump at `addr` waiting in the innermost function
    /// context. Unchanged where no function is open.
    pub open spec fn wait_return(self, addr: Addr) -> ProgramV {
        if self.func_ctx.len() == 0 {
            self
        } else {
            ProgramV {
                func_ctx: self.func_ctx.update(
                    self.func_ctx.len() - 1,
                    FixupV {
                        instr_addrs: self.func_ctx.last().instr_addrs.push(addr),
                        ..self.func_ctx.last()
                    },
                ),
                ..self
            }
        }
    }

    /// The program with the jump at `addr` waiting in the innermost loop
    /// context. Unchanged where no loop is open.
    pub open spec fn wait_break(self, addr: Addr) -> ProgramV {
        if self.while_ctx.len() == 0 {
            self
        } else {
            ProgramV {
                while_ctx: self.while_ctx.update(
                    self.while_ctx.len() - 1,
                    FixupV {
                        instr_addrs: self.while_ctx.last().instr_addrs.push(addr),
                        ..self.while_ctx.last()
                    },
                ),
                ..self
            }
        }
    }

    /// The number of frames that were opened inside the innermost loop, or
    /// the failure that reports that no loop is open.
    pub open spec fn while_env_level(self) -> Result<u32, ParseErrorV> {
        if self.while_ctx.len() == 0 {
            Err(gen_error("not inside while"@))
        } else if self.env_level < self.while_ctx.last().start_env_level {
            Err(gen_error("fewer frames open than at the start of the loop"@))
        } else {
            Ok((self.env_level - self.while_ctx.last().start_env_level) as u32)
        }
    }
}

fn gen_failure(msg: &str) -> (r: ParseError)
    ensures
        r@ == gen_error(msg@),
{
    ParseError::new(SrcLoc::new("(bytecode generation)", 0, 0), msg)
}

impl Program {
    /// The notes attached to addresses for the listing. They are no part
    /// of the value of the program: they change nothing of what it does.
    pub closed spec fn notes(&self) -> Map<Addr, Seq<char>> {
        notes_view(self.comments@)
    }

    /// The listing of the instructions: one line for each, in order.
    pub fn disasm(&self) -> (lines: Vec<String>)
        ensures
            lines@.len() == self@.instr.len(),
            forall|i: int|
                0 <= i < lines@.len() ==> (#[trigger] lines@[i])@ == line_text(
                    i as u32,
                    self@.instr[i],
                ),
    {
        let mut lines: Vec<String> = Vec::new();
        let mut i: usize = 0;
        while i < self.instr.len()
            invariant
                i <= self.instr.len(),
                self.instr@ == self@.instr,
                lines@.len() == i,
                forall|k: int|
                    0 <= k < i ==> (#[trigger] lines@[k])@ == line_text(k as u32, self@.instr[k]),
            decreases self.instr.len() - i,
        {
            lines.push(disasm_line(i as u32, self.instr[i]));
            i += 1;
        }
        lines
    }

    /// A program without instructions. Its literal 0 is null.
    pub fn new() -> (r: Program)
        ensures
            r.notes() == Map::<Addr, Seq<char>>::empty(),
            r@ == (ProgramV {
                instr: Seq::empty(),
                literals: seq![Value::Null],
                while_ctx: Seq::empty(),
                func_ctx: Seq::empty(),
                env_level: 0,
                labels: Map::empty(),
            }),
    {
        let mut literals: Vec<Value> = Vec::new();
        literals.push(Value::Null);
        let r = Program {
            instr: Vec::new(),
            literals,
            while_ctx: Vec::new(),
            func_ctx: Vec::new(),
            env_level: 0,
            labels: HashMap::new(),
            comments: HashMap::new(),
        };
        assert(r@.literals =~= seq![Value::Null]);
        assert(r@.while_ctx =~= Seq::empty());
        assert(r@.func_ctx =~= Seq::empty());
        assert(r@.labels =~= Map::empty());
        assert(r.notes() =~= Map::empty());
        r
    }

    /// The instructions emitted so far.
    pub fn instr(&self) -> (r: &Vec<u32>)
        ensures
            r@ == self@.instr,
    {
        &self.instr
    }

    /// The literals added so far.
    pub fn literals(&self) -> (r: &Vec<Value>)
        ensures
            r@ == self@.literals,
    {
        &self.literals
    }

    /// The address of the next instruction that is emitted: the number of
    /// instructions, of which an address holds the low 32 bits.
    pub fn addr(&self) -> (r: Addr)
        ensures
            r == self@.addr(),
    {
        #[verifier::truncate]
        (self.instr.len() as Addr)
    }

    /// Names the address `addr`. A name that the address had is replaced.
    pub fn add_label(&mut self, addr: Addr, comment: &str)
        ensures
            final(self).notes() == old(self).notes(),
            final(self)@ == (ProgramV {
                labels: old(self)@.labels.insert(addr, comment@),
                ..old(self)@
            }),
    {
        broadcast use vstd::std_specs::hash::group_hash_axioms;

        self.labels.insert(addr, String::from_str(comment));
        assert(self@.labels =~= old(self)@.labels.insert(addr, comment@));
    }

    /// Notes that `n` more frames are open.
    pub fn inc_env_level(&mut self, n: u32)
        requires
            old(self)@.env_level + n <= u32::MAX,
        ensures
            final(self).notes() == old(self).notes(),
            final(self)@ == old(self)@.at_level((old(self)@.env_level + n) as u32),
    {
        self.env_level += n;
    }

    /// Notes that `n` frames were left. Fails where fewer are open.
    pub fn dec_env_level(&mut self, n: u32) -> (r: ParseResult<()>)
        ensures
            final(self).notes() == old(self).notes(),
            old(self)@.env_level >= n ==> r is Ok && final(self)@ == old(self)@.at_level(
                (old(self)@.env_level - n) as u32,
            ),
            old(self)@.env_level < n ==> final(self)@ == old(self)@ && parse_view(r) == Err::<
                (),
                ParseErrorV,
            >(gen_error("trying to add fixup without creating context"@)),
    {
        if self.env_level < n {
            return Err(gen_failure("trying to add fixup without creating context"));
        }
        self.env_level -= n;
        Ok(())
    }

    /// The number of frames that are open.
    pub fn get_env_level(&self) -> (r: u32)
        ensures
            r == self@.env_level,
    {
        self.env_level
    }

    /// Sets the number of frames that are open.
    pub fn set_env_level(&mut self, n: u32)
        ensures
            final(self).notes() == old(self).notes(),
            final(self)@ == old(self)@.at_level(n),
    {
        self.env_level = n;
    }

    /// Attaches a note to the address of the next instruction. A note that
    /// the address had is replaced.
    pub fn add_comment(&mut self, comment: &str)
        ensures
            final(self)@ == old(self)@,
            final(self).notes() == old(self).notes().insert(old(self)@.addr(), comment@),
    {
        broadcast use vstd::std_specs::hash::group_hash_axioms;

        let addr = self.addr();
        self.comments.insert(addr, String::from_str(comment));
        assert(self.notes() =~= old(self).notes().insert(old(self)@.addr(), comment@));
    }

    /// The names given to addresses.
    pub fn labels(&self) -> (r: &HashMap<Addr, String>)
        ensures
            notes_view(r@) == self@.labels,
    {
        &self.labels
    }

    /// The notes attached to addresses.
    pub fn comments(&self) -> (r: &HashMap<Addr, String>)
        ensures
            notes_view(r@) == self.notes(),
    {
        &self.comments
    }

    /// Adds a literal and returns its index.
    pub fn add_literal(&mut self, val: Value) -> (r: usize)
        ensures
            final(self).notes() == old(self).notes(),
            r == old(self)@.literals.len(),
            final(self)@ == old(self)@.with_literal(val),
    {
        let index = self.literals.len();
        self.literals.push(val);
        index
    }

    /// Opens the context of a function body.
    pub fn new_func_context(&mut self)
        ensures
            final(self).notes() == old(self).notes(),
            final(self)@ == old(self)@.open_func(),
    {
        let env_level = self.env_level;
        self.func_ctx.push(FixupContext::new(env_level));
        assert(self@.func_ctx =~= old(self)@.open_func().func_ctx);
    }

    /// Closes the context of the innermost function body: its `return`s
    /// jump to `fixed_addr`. Fails where no function is open.
    pub fn close_func_context(&mut self, fixed_addr: Addr) -> (r: ParseResult<()>)
        ensures
            final(self).notes() == old(self).notes(),
            final(self)@ == old(self)@.close_func(fixed_addr),
            old(self)@.func_ctx.len() > 0 ==> r is Ok,
            old(self)@.func_ctx.len() == 0 ==> parse_view(r) == Err::<(), ParseErrorV>(
                gen_error("no function context to close"@),
            ),
    {
        match self.func_ctx.pop() {
            Some(ctx) => {
                assert(self@.func_ctx =~= old(self)@.func_ctx.drop_last());
                ctx.close(&mut self.instr, fixed_addr)
            },
            None => {
                assert(self@.func_ctx =~= old(self)@.func_ctx);
                Err(gen_failure("no function context to close"))
            },
        }
    }

    /// Lets the jump at `addr` wait for the end of the innermost function.
    /// Fails where no function is open.
    pub fn add_return_fixup(&mut self, addr: Addr) -> (r: ParseResult<()>)
        ensures
            final(self).notes() == old(self).notes(),
            final(self)@ == old(self)@.wait_return(addr),
            old(self)@.func_ctx.len() > 0 ==> r is Ok,
            old(self)@.func_ctx.len() == 0 ==> parse_view(r) == Err::<(), ParseErrorV>(
                gen_error("no context to add return fixup"@),
            ),
    {
        let n = self.func_ctx.len();
        if n == 0 {
            return Err(gen_failure("no context to add return fixup"));
        }
        self.func_ctx[n - 1].instr_addrs.push(addr);
        assert(self@.func_ctx =~= old(self)@.wait_return(addr).func_ctx);
        Ok(())
    }

    /// Opens the context of a loop body.
    pub fn new_while_context(&mut self)
        ensures
            final(self).notes() == old(self).notes(),
            final(self)@ == old(self)@.open_while(),
    {
        let env_level = self.env_level;
        self.while_ctx.push(FixupContext::new(env_level));
        assert(self@.while_ctx =~= old(self)@.open_while().while_ctx);
    }

    /// Closes the context of the innermost loop body: its `break`s jump to
    /// `fixed_addr`. Fails where no loop is open.
    pub fn close_while_context(&mut self, fixed_addr: Addr) -> (r: ParseResult<()>)
        ensures
            final(self).notes() == old(self).notes(),
            final(self)@ == old(self)@.close_while(fixed_addr),
            old(self)@.while_ctx.len() > 0 ==> r is Ok,
            old(self)@.while_ctx.len() == 0 ==> parse_view(r) == Err::<(), ParseErrorV>(
                gen_error("no while context to close"@),
            ),
    {
        match self.while_ctx.pop() {
            Some(ctx) => {
                assert(self@.while_ctx =~= old(self)@.while_ctx.drop_last());
                ctx.close(&mut self.instr, fixed_addr)
            },
            None => {
                assert(self@.while_ctx =~= old(self)@.while_ctx);
                Err(gen_failure("no while context to close"))
            },
        }
    }

    /// Lets the jump at `addr` wait for the end of the innermost loop. Fails
    /// where no loop is open.
    pub fn add_break_fixup(&mut self, addr: Addr) -> (r: ParseResult<()>)
        ensures
            final(self).notes() == old(self).notes(),
            final(self)@ == old(self)@.wait_break(addr),
            old(self)@.while_ctx.len() > 0 ==> r is Ok,
            old(self)@.while_ctx.len() == 0 ==> parse_view(r) == Err::<(), ParseErrorV>(
                gen_error("no context to add break fixup"@),
            ),
    {
        let n = self.while_ctx.len();
        if n == 0 {
            return Err(gen_failure("no context to add break fixup"));
        }
        self.while_ctx[n - 1].instr_addrs.push(addr);
        assert(self@.while_ctx =~= old(self)@.wait_break(addr).while_ctx);
        Ok(())
    }

    /// The number of frames that were opened inside the innermost loop.
    /// Fails where no loop is open.
    pub fn get_while_env_level(&self) -> (r: ParseResult<u32>)
        ensures
            parse_view(r) == self@.while_env_level(),
    {
        let env_level = self.env_level;
        let n = self.while_ctx.len();
        if n == 0 {
            return Err(gen_failure("not inside while"));
        }
        let start = self.while_ctx[n - 1].start_env_level;
        if env_level < start {
            return Err(gen_failure("fewer frames open than at the start of the loop"));
        }
        Ok(env_level - start)
    }

    /// Replaces the operands of the `newenv` at `instr_addr`.
    pub fn fix_newenv(&mut self, instr_addr: Addr, n_vals: u16, n_total: u16)
        ensures
            final(self).notes() == old(self).notes(),
            final(self)@ == (ProgramV {
                instr: patch_newenv(old(self)@.instr, instr_addr, n_vals, n_total),
                ..old(self)@
            }),
    {
        let addr = instr_addr as usize;
        if addr < self.instr.len() {
            let word = f_op_12_12(self.instr[addr], n_vals, n_total);
            self.instr[addr] = word;
        }
    }

    /// Replaces the target of the jump at `instr_addr`.
    pub fn fix_jump(&mut self, instr_addr: Addr, target_addr: Addr)
        ensures
            final(self).notes() == old(self).notes(),
            final(self)@ == (ProgramV {
                instr: patch_jump(old(self)@.instr, instr_addr, target_addr),
                ..old(self)@
            }),
    {
        let addr = instr_addr as usize;
        if addr < self.instr.len() {
            let word = f_op_26(self.instr[addr], target_addr);
            self.instr[addr] = word;
        }
    }

    fn emit(&mut self, word: u32)
        ensures
            final(self).notes() == old(self).notes(),
            final(self)@ == old(self)@.emit(word),
    {
        self.instr.push(word);
    }

    pub fn emit_halt(&mut self)
        ensures
            final(self).notes() == old(self).notes(),
            final(self)@ == old(self)@.emit(word_26(OP_HALT, 0x3ff_ffff)),
    {
        self.emit(c_op_26(OP_HALT, 0x3ff_ffff));
    }

    pub fn emit_newenv(&mut self, n_params: u16, n_total: u16)
        ensures
            final(self).notes() == old(self).notes(),
            final(self)@ == old(self)@.emit(word_12_12(OP_NEWENV, n_params, n_total)),
    {
        self.emit(c_op_12_12(OP_NEWENV, n_params, n_total));
    }

    pub fn emit_popenv(&mut self, n_envs: u16)
        ensures
            final(self).notes() == old(self).notes(),
            final(self)@ == old(self)@.emit(word_12_12(OP_POPENV, 0, n_envs)),
    {
        self.emit(c_op_12(OP_POPENV, n_envs));
    }

    pub fn emit_getvar(&mut self, vi: u16, ei: u16)
        ensures
            final(self).notes() == old(self).notes(),
            final(self)@ == old(self)@.emit(word_12_12(OP_GETVAR, vi, ei)),
    {
        self.emit(c_op_12_12(OP_GETVAR, vi, ei));
    }

    pub fn emit_setvar(&mut self, vi: u16, ei: u16)
        ensures
            final(self).notes() == old(self).notes(),
            final(self)@ == old(self)@.emit(word_12_12(OP_SETVAR, vi, ei)),
    {
        self.emit(c_op_12_12(OP_SETVAR, vi, ei));
    }

    pub fn emit_getelem(&mut self)
        ensures
            final(self).notes() == old(self).notes(),
            final(self)@ == old(self)@.emit(word_26(OP_GETELEM, 0)),
    {
        self.emit(c_op(OP_GETELEM));
    }

    pub fn _emit_setelem(&mut self)
        ensures
            final(self).notes() == old(self).notes(),
            final(self)@ == old(self)@.emit(word_26(OP_SETELEM, 0)),
    {
        self.emit(c_op(OP_SETELEM));
    }

    /// Emits `pushlit index`. An instruction holds the low 26 bits of the
    /// index.
    pub fn emit_pushlit(&mut self, index: usize)
        ensures
            final(self).notes() == old(self).notes(),
            final(self)@ == old(self)@.emit(word_26(OP_PUSHLIT, index as u32)),
    {
        self.emit(
            c_op_26(
                OP_PUSHLIT,
                #[verifier::truncate]
                (index as u32),
            ),
        );
    }

    pub fn emit_add(&mut self)
        ensures
            final(self).notes() == old(self).notes(),
            final(self)@ == old(self)@.emit(word_26(OP_ADD, 0)),
    {
        self.emit(c_op(OP_ADD));
    }

    pub fn emit_sub(&mut self)
        ensures
            final(self).notes() == old(self).notes(),
            final(self)@ == old(self)@.emit(word_26(OP_SUB, 0)),
    {
        self.emit(c_op(OP_SUB));
    }

    pub fn emit_mul(&mut self)
        ensures
            final(self).notes() == old(self).notes(),
            final(self)@ == old(self)@.emit(word_26(OP_MUL, 0)),
    {
        self.emit(c_op(OP_MUL));
    }

    pub fn emit_div(&mut self)
        ensures
            final(self).notes() == old(self).notes(),
            final(self)@ == old(self)@.emit(word_26(OP_DIV, 0)),
    {
        self.emit(c_op(OP_DIV));
    }

    pub fn emit_test(&mut self)
        ensures
            final(self).notes() == old(self).notes(),
            final(self)@ == old(self)@.emit(word_26(OP_TEST, 0)),
    {
        self.emit(c_op(OP_TEST));
    }

    pub fn emit_jmp(&mut self, addr: Addr)
        ensures
            final(self).notes() == old(self).notes(),
            final(self)@ == old(self)@.emit(word_26(OP_JMP, addr)),
    {
        self.emit(c_op_26(OP_JMP, addr));
    }

    pub fn _emit_jt(&mut self, addr: Addr)
        ensures
            final(self).notes() == old(self).notes(),
            final(self)@ == old(self)@.emit(word_26(OP_JT, addr)),
    {
        self.emit(c_op_26(OP_JT, addr));
    }

    pub fn emit_jf(&mut self, addr: Addr)
        ensures
            final(self).notes() == old(self).notes(),
            final(self)@ == old(self)@.emit(word_26(OP_JF, addr)),
    {
        self.emit(c_op_26(OP_JF, addr));
    }

    pub fn emit_call(&mut self, n_args: u16)
        ensures
            final(self).notes() == old(self).notes(),
            final(self)@ == old(self)@.emit(word_12_12(OP_CALL, 0, n_args)),
    {
        self.emit(c_op_12(OP_CALL, n_args));
    }

    pub fn emit_ret(&mut self)
        ensures
            final(self).notes() == old(self).notes(),
            final(self)@ == old(self)@.emit(word_26(OP_RET, 0)),
    {
        self.emit(c_op(OP_RET));
    }

    pub fn emit_popval(&mut self, n_vals: u16)
        ensures
            final(self).notes() == old(self).notes(),
            final(self)@ == old(self)@.emit(word_12_12(OP_POPVAL, 0, n_vals)),
    {
        self.emit(c_op_12(OP_POPVAL, n_vals));
    }
}

} // verus!
