//! Statements as the parser leaves them.
use std::rc::Rc;
use vstd::prelude::*;
use crate::ast::analysis::State;
use crate::ast::expressions::Expression;
use crate::ast::resolve::{
    func_outcome, lemma_prefix_resolved, resolved_block, resolved_stmt, resolved_stmts, stmt_error,
    stmt_outcome, stmts_error,
};
use crate::ast::codegen::{
    compile_block, compile_func, compile_if, compile_return, compile_stmt, compile_stmts,
    compile_while, compiled_is,
};
use crate::bytecode::gen::Program;
use crate::bytecode::{Addr, INVALID_ADDR};
use crate::exec::Statement as RStmt;
use crate::value::Value;
use crate::parser::errors::ParseError;
use crate::parser::ParseResult;
use crate::src_loc::SrcLoc;
use crate::text::join3;
use crate::sym_tab::{SymTab, names_view};

verus! {

#[derive(Debug)]
pub enum Statement {
    Expression(Expression),
    Empty,
    Block(Block),
    VarDecl(VarDecl),
    If(IfStatement),
    While(WhileStatement),
    Break(SrcLoc),
    Return(ReturnStatement),
}

/// `{ ... }`
#[derive(Debug)]
pub struct Block {
    pub stmts: Vec<Statement>,
    pub loc: SrcLoc,
}

/// `if (test) true_stmt else false_stmt`
#[derive(Debug)]
pub struct IfStatement {
    pub test: Box<Expression>,
    pub true_stmt: Box<Statement>,
    pub false_stmt: Option<Box<Statement>>,
    pub loc: SrcLoc,
}

/// `while (test) stmt`
#[derive(Debug)]
pub struct WhileStatement {
    pub test: Box<Expression>,
    pub stmt: Box<Statement>,
    pub loc: SrcLoc,
}

/// `return expr;`
#[derive(Debug)]
pub struct ReturnStatement {
    pub expr: Option<Box<Expression>>,
    pub loc: SrcLoc,
}

/// `var name = val;`
#[derive(Debug)]
pub struct VarDecl {
    pub var: String,
    pub val: Option<Box<Expression>>,
    pub loc: SrcLoc,
}

/// `function (params...) { ... }`
#[derive(Debug)]
pub struct FuncDef {
    pub params: Vec<String>,
    pub block: Box<Block>,
    pub loc: SrcLoc,
}

/// `function name(params...) { ... }`
#[derive(Debug)]
pub struct NamedFuncDef {
    pub name: String,
    pub def: Rc<FuncDef>,
}

impl Block {
    pub fn new(loc: SrcLoc, stmts: Vec<Statement>) -> (r: Block)
        ensures
            r == (Block { stmts, loc }),
    {
        Block { stmts, loc }
    }
}

impl IfStatement {
    pub fn new(
        loc: SrcLoc,
        test: Box<Expression>,
        true_stmt: Box<Statement>,
        false_stmt: Option<Box<Statement>>,
    ) -> (r: IfStatement)
        ensures
            r == (IfStatement { test, true_stmt, false_stmt, loc }),
    {
        IfStatement { test, true_stmt, false_stmt, loc }
    }
}

impl WhileStatement {
    pub fn new(loc: SrcLoc, test: Box<Expression>, stmt: Box<Statement>) -> (r: WhileStatement)
        ensures
            r == (WhileStatement { test, stmt, loc }),
    {
        WhileStatement { test, stmt, loc }
    }
}

impl ReturnStatement {
    pub fn new(loc: SrcLoc, expr: Option<Box<Expression>>) -> (r: ReturnStatement)
        ensures
            r == (ReturnStatement { expr, loc }),
    {
        ReturnStatement { expr, loc }
    }
}

impl VarDecl {
    pub fn new(loc: SrcLoc, var: String, val: Option<Box<Expression>>) -> (r: VarDecl)
        ensures
            r == (VarDecl { var, val, loc }),
    {
        VarDecl { var, val, loc }
    }
}

impl FuncDef {
    pub fn new(loc: SrcLoc, params: Vec<String>, block: Box<Block>) -> (r: FuncDef)
        ensures
            r == (FuncDef { params, block, loc }),
    {
        FuncDef { params, block, loc }
    }
}

impl NamedFuncDef {
    pub fn new(name: String, def: Rc<FuncDef>) -> (r: NamedFuncDef)
        ensures
            r == (NamedFuncDef { name, def }),
    {
        NamedFuncDef { name, def }
    }
}

} // verus!

verus! {

impl Statement {
    /// Resolves the statement in the scopes of `sym`. Both `sym` and `st`
    /// are left as they were found.
    pub fn analyze(&self, sym: &mut SymTab, st: &mut State) -> (r: ParseResult<RStmt>)
        ensures
            final(sym)@ == old(sym)@,
            final(st)@ == old(st)@,
            stmt_outcome(*self, old(sym)@, old(st)@, r),
        decreases self, 0nat,
    {
        match self {
            Statement::Empty => Ok(RStmt::Empty),
            Statement::VarDecl(d) => Err(
                ParseError::new(
                    d.loc.clone(),
                    "internal error: trying to parse variable declaration",
                ),
            ),
            Statement::Expression(e) => match e.analyze(sym, st) {
                Ok(o) => Ok(RStmt::Expression(o)),
                Err(e) => Err(e),
            },
            Statement::Block(b) => match b.analyze(sym, st) {
                Ok(o) => Ok(RStmt::Block(o)),
                Err(e) => Err(e),
            },
            Statement::If(i) => match i.analyze(sym, st) {
                Ok(o) => Ok(RStmt::If(o)),
                Err(e) => Err(e),
            },
            Statement::While(w) => match w.analyze(sym, st) {
                Ok(o) => Ok(RStmt::While(o)),
                Err(e) => Err(e),
            },
            Statement::Return(r) => match r.analyze(sym, st) {
                Ok(o) => Ok(RStmt::Return(o)),
                Err(e) => Err(e),
            },
            Statement::Break(l) => match st.allow_break(l) {
                Ok(true) => Ok(RStmt::Break(l.clone())),
                Ok(false) => Err(ParseError::new(l.clone(), "'break' not allowed here")),
                Err(e) => Err(e),
            },
        }
    }
}

impl Block {
    /// Resolves the statements from the `start`-th on.
    pub fn analyze_stmts(&self, sym: &mut SymTab, start: usize, st: &mut State) -> (r: ParseResult<
        Vec<RStmt>,
    >)
        requires
            start <= self.stmts@.len(),
        ensures
            final(sym)@ == old(sym)@,
            final(st)@ == old(st)@,
            match r {
                Ok(outs) => stmts_error(self.stmts@, start as nat, old(sym)@, old(st)@) is None
                    && resolved_stmts(self.stmts@, start as nat, old(sym)@, old(st)@, outs@, 0),
                Err(err) => stmts_error(self.stmts@, start as nat, old(sym)@, old(st)@) == Some(
                    err@,
                ),
            },
        decreases self.stmts@, self.stmts@.len() - start,
    {
        let ghost ss = self.stmts@;
        let ghost sym0 = sym@;
        let ghost ctx0 = st@;
        let mut ret: Vec<RStmt> = Vec::new();
        let mut i: usize = start;
        while i < self.stmts.len()
            invariant
                start <= i <= self.stmts.len(),
                ss == self.stmts@,
                sym0 == old(sym)@,
                ctx0 == old(st)@,
                sym@ == sym0,
                st@ == ctx0,
                ret@.len() == i - start,
                stmts_error(ss, start as nat, sym0, ctx0) == stmts_error(ss, i as nat, sym0, ctx0),
                forall|t: int|
                    start <= t < i ==> !(#[trigger] ss[t] is VarDecl) && resolved_stmt(
                        ss[t],
                        sym0,
                        ctx0,
                        ret@[t - start],
                    ),
            decreases self.stmts.len() - i,
        {
            assert(decreases_to!(ss => ss[i as int]));
            match &self.stmts[i] {
                Statement::VarDecl(decl) => {
                    let val = match &decl.val {
                        Some(e) => match e.analyze(sym, st) {
                            Ok(v) => Some(Box::new(v)),
                            Err(e) => {
                                return Err(e);
                            },
                        },
                        None => None,
                    };
                    let mut names: Vec<String> = Vec::new();
                    names.push(decl.var.clone());
                    assert(names_view(names@) =~= seq![decl.var@]);
                    sym.push(names.as_slice());
                    let inner = self.analyze_stmts(sym, i + 1, st);
                    sym.pop();
                    assert(sym@ =~= sym0);
                    let stmts = match inner {
                        Ok(v) => v,
                        Err(e) => {
                            return Err(e);
                        },
                    };
                    let block = crate::exec::Block::new(decl.loc.clone(), true, val, stmts);
                    let ghost before = ret@;
                    ret.push(RStmt::Block(block));
                    proof {
                        assert(resolved_stmts(ss, i as nat, sym0, ctx0, ret@, (i - start) as nat));
                        assert forall|t: int| start <= t < i implies !(#[trigger] ss[t] is VarDecl)
                            && t - start < ret@.len() && resolved_stmt(
                            ss[t],
                            sym0,
                            ctx0,
                            ret@[t - start],
                        ) by {
                            assert(ret@[t - start] == before[t - start]);
                        }
                        lemma_prefix_resolved(ss, start as nat, i as nat, sym0, ctx0, ret@);
                    }
                    return Ok(ret);
                },
                s => match s.analyze(sym, st) {
                    Ok(o) => {
                        ret.push(o);
                    },
                    Err(e) => {
                        return Err(e);
                    },
                },
            }
            i += 1;
        }
        proof {
            lemma_prefix_resolved(ss, start as nat, i as nat, sym0, ctx0, ret@);
        }
        Ok(ret)
    }

    /// Resolves the block.
    pub fn analyze(&self, sym: &mut SymTab, st: &mut State) -> (r: ParseResult<crate::exec::Block>)
        ensures
            final(sym)@ == old(sym)@,
            final(st)@ == old(st)@,
            match r {
                Ok(out) => stmts_error(self.stmts@, 0, old(sym)@, old(st)@) is None
                    && resolved_block(*self, old(sym)@, old(st)@, out),
                Err(err) => stmts_error(self.stmts@, 0, old(sym)@, old(st)@) == Some(err@),
            },
        decreases self, 0nat,
    {
        assert(decreases_to!(*self => self.stmts@));
        match self.analyze_stmts(sym, 0, st) {
            Ok(stmts) => Ok(crate::exec::Block::new(self.loc.clone(), false, None, stmts)),
            Err(e) => Err(e),
        }
    }
}

impl IfStatement {
    pub fn analyze(&self, sym: &mut SymTab, st: &mut State) -> (r: ParseResult<
        crate::exec::IfStatement,
    >)
        ensures
            final(sym)@ == old(sym)@,
            final(st)@ == old(st)@,
            match r {
                Ok(out) => stmt_error(Statement::If(*self), old(sym)@, old(st)@) is None
                    && resolved_stmt(Statement::If(*self), old(sym)@, old(st)@, RStmt::If(out)),
                Err(err) => stmt_error(Statement::If(*self), old(sym)@, old(st)@) == Some(err@),
            },
        decreases self, 0nat,
    {
        let test = match self.test.analyze(sym, st) {
            Ok(v) => Box::new(v),
            Err(e) => {
                return Err(e);
            },
        };
        let true_stmt = match self.true_stmt.analyze(sym, st) {
            Ok(v) => Box::new(v),
            Err(e) => {
                return Err(e);
            },
        };
        let false_stmt = match &self.false_stmt {
            Some(f) => match f.analyze(sym, st) {
                Ok(v) => Some(Box::new(v)),
                Err(e) => {
                    return Err(e);
                },
            },
            None => None,
        };
        Ok(crate::exec::IfStatement::new(self.loc.clone(), test, true_stmt, false_stmt))
    }
}

impl WhileStatement {
    pub fn analyze(&self, sym: &mut SymTab, st: &mut State) -> (r: ParseResult<
        crate::exec::WhileStatement,
    >)
        ensures
            final(sym)@ == old(sym)@,
            final(st)@ == old(st)@,
            match r {
                Ok(out) => stmt_error(Statement::While(*self), old(sym)@, old(st)@) is None
                    && resolved_stmt(
                    Statement::While(*self),
                    old(sym)@,
                    old(st)@,
                    RStmt::While(out),
                ),
                Err(err) => stmt_error(Statement::While(*self), old(sym)@, old(st)@) == Some(err@),
            },
        decreases self, 0nat,
    {
        let test = match self.test.analyze(sym, st) {
            Ok(v) => Box::new(v),
            Err(e) => {
                return Err(e);
            },
        };
        st.save_state();
        match st.set_allow_break(true, &self.loc) {
            Ok(()) => {},
            Err(e) => {
                return Err(e);
            },
        }
        assert(st@ =~= old(st)@.push(true));
        let body = self.stmt.analyze(sym, st);
        match st.restore_state(&self.loc) {
            Ok(()) => {},
            Err(e) => {
                return Err(e);
            },
        }
        assert(st@ =~= old(st)@);
        match body {
            Ok(stmt) => Ok(crate::exec::WhileStatement::new(self.loc.clone(), test, Box::new(stmt))),
            Err(e) => Err(e),
        }
    }
}

impl ReturnStatement {
    pub fn analyze(&self, sym: &mut SymTab, st: &mut State) -> (r: ParseResult<
        crate::exec::ReturnStatement,
    >)
        ensures
            final(sym)@ == old(sym)@,
            final(st)@ == old(st)@,
            match r {
                Ok(out) => stmt_error(Statement::Return(*self), old(sym)@, old(st)@) is None
                    && resolved_stmt(
                    Statement::Return(*self),
                    old(sym)@,
                    old(st)@,
                    RStmt::Return(out),
                ),
                Err(err) => stmt_error(Statement::Return(*self), old(sym)@, old(st)@) == Some(
                    err@,
                ),
            },
        decreases self, 0nat,
    {
        let expr = match &self.expr {
            Some(e) => match e.analyze(sym, st) {
                Ok(v) => Some(Box::new(v)),
                Err(e) => {
                    return Err(e);
                },
            },
            None => None,
        };
        Ok(crate::exec::ReturnStatement::new(self.loc.clone(), expr))
    }
}

impl FuncDef {
    /// Resolves the function: its body, in a new scope that holds the
    /// parameters, at a level where `break` is not allowed.
    pub fn analyze(&self, sym: &mut SymTab, st: &mut State) -> (r: ParseResult<crate::exec::FuncDef>)
        ensures
            final(sym)@ == old(sym)@,
            final(st)@ == old(st)@,
            func_outcome(*self, old(sym)@, old(st)@, r),
        decreases self, 0nat,
    {
        sym.push(self.params.as_slice());
        st.save_state();
        match st.set_allow_break(false, &self.loc) {
            Ok(()) => {},
            Err(e) => {
                return Err(e);
            },
        }
        assert(st@ =~= old(st)@.push(false));
        let body = self.block.analyze(sym, st);
        match st.restore_state(&self.loc) {
            Ok(()) => {},
            Err(e) => {
                return Err(e);
            },
        }
        assert(st@ =~= old(st)@);
        sym.pop();
        assert(sym@ =~= old(sym)@);
        match body {
            Ok(block) => Ok(
                crate::exec::FuncDef::new(self.loc.clone(), self.params.len(), Box::new(block)),
            ),
            Err(e) => Err(e),
        }
    }
}

impl NamedFuncDef {
    /// Resolves the function that is named.
    pub fn analyze(&self, sym: &mut SymTab, st: &mut State) -> (r: ParseResult<crate::exec::FuncDef>)
        ensures
            final(sym)@ == old(sym)@,
            final(st)@ == old(st)@,
            func_outcome(*self.def, old(sym)@, old(st)@, r),
    {
        self.def.analyze(sym, st)
    }
}

} // verus!

verus! {

impl Statement {
    /// Emits the code of the statement. `sym` is left as it was found.
    pub fn compile(&self, sym: &mut SymTab, gen: &mut Program) -> (r: ParseResult<()>)
        ensures
            final(sym)@ == old(sym)@,
            compiled_is(final(gen)@, r, compile_stmt(*self, old(sym)@, old(gen)@)),
        decreases self, 0nat,
    {
        match self {
            Statement::Empty => Ok(()),
            Statement::VarDecl(d) => Err(
                ParseError::new(
                    d.loc.clone(),
                    "internal error: trying to parse variable declaration",
                ),
            ),
            Statement::Expression(e) => {
                match e.compile(sym, gen) {
                    Ok(()) => {},
                    Err(e) => {
                        return Err(e);
                    },
                }
                gen.add_comment("statement end");
                gen.emit_popval(1);
                Ok(())
            },
            Statement::Block(b) => b.compile(sym, gen),
            Statement::If(i) => i.compile(sym, gen),
            Statement::While(w) => w.compile(sym, gen),
            Statement::Return(r) => r.compile(sym, gen),
            Statement::Break(loc) => {
                match gen.get_while_env_level() {
                    Ok(n_envs) => {
                        if n_envs > 0 {
                            gen.emit_popenv(
                                #[verifier::truncate]
                                (n_envs as u16),
                            );
                        }
                    },
                    Err(_) => {
                        return Err(ParseError::new(loc.clone(), "'break' not allowed here"));
                    },
                }
                let addr = gen.addr();
                gen.add_comment("break");
                gen.emit_jmp(INVALID_ADDR);
                gen.add_break_fixup(addr)
            },
        }
    }
}

impl Block {
    /// Emits the code of the block. `sym` is left as it was found.
    pub fn compile(&self, sym: &mut SymTab, gen: &mut Program) -> (r: ParseResult<()>)
        ensures
            final(sym)@ == old(sym)@,
            compiled_is(final(gen)@, r, compile_block(*self, old(sym)@, old(gen)@)),
        decreases self, 0nat,
    {
        let ghost ss = self.stmts@;
        let ghost sym0 = sym@;
        let ghost p0 = gen@;
        let mut num_env_vars: u16 = 0;
        let mut fix_newenv_addr: Addr = 0;
        let mut i: usize = 0;
        while i < self.stmts.len()
            invariant
                i <= self.stmts.len(),
                ss == self.stmts@,
                sym0 == old(sym)@,
                p0 == old(gen)@,
                compile_stmts(ss, 0, sym0, p0, 0, 0) == compile_stmts(
                    ss,
                    i as nat,
                    sym@,
                    gen@,
                    num_env_vars,
                    fix_newenv_addr,
                ),
                num_env_vars == 0 ==> sym@ == sym0,
                num_env_vars > 0 ==> sym@.len() > 0 && sym@.drop_last() == sym0,
            decreases self.stmts.len() - i,
        {
            assert(decreases_to!(*self => self.stmts@));
            assert(decreases_to!(ss => ss[i as int]));
            match &self.stmts[i] {
                Statement::VarDecl(decl) => {
                    if num_env_vars == u16::MAX {
                        sym.pop();
                        return Err(
                            ParseError::new(decl.loc.clone(), "too many variables in one block"),
                        );
                    }
                    match &decl.val {
                        Some(e) => match e.compile(sym, gen) {
                            Ok(()) => {},
                            Err(e) => {
                                if num_env_vars > 0 {
                                    sym.pop();
                                }
                                return Err(e);
                            },
                        },
                        None => {
                            let index = gen.add_literal(Value::Null);
                            gen.add_comment("null");
                            gen.emit_pushlit(index);
                        },
                    }
                    if num_env_vars == 0 {
                        if gen.get_env_level() == u32::MAX {
                            return Err(ParseError::new(decl.loc.clone(), "too many nested scopes"));
                        }
                        let mut names: Vec<String> = Vec::new();
                        names.push(decl.var.clone());
                        assert(names_view(names@) =~= seq![decl.var@]);
                        sym.push(names.as_slice());
                        assert(sym@.drop_last() =~= sym0);
                        gen.inc_env_level(1);
                        fix_newenv_addr = gen.addr();
                        let note = join3("var ", decl.var.as_str(), " = ...");
                        gen.add_comment(note.as_str());
                        gen.emit_newenv(1, 1);
                    } else {
                        let ghost before = sym@;
                        let vi = sym.add_name(decl.var.as_str());
                        assert(sym@.drop_last() =~= before.drop_last());
                        let note = join3("var ", decl.var.as_str(), " = ...");
                        gen.add_comment(note.as_str());
                        gen.emit_setvar(
                            #[verifier::truncate]
                            (vi as u16),
                            0,
                        );
                    }
                    num_env_vars += 1;
                },
                s => match s.compile(sym, gen) {
                    Ok(()) => {},
                    Err(e) => {
                        if num_env_vars > 0 {
                            sym.pop();
                        }
                        return Err(e);
                    },
                },
            }
            i += 1;
        }
        if num_env_vars > 1 {
            gen.fix_newenv(fix_newenv_addr, 1, num_env_vars);
        }
        if num_env_vars > 0 {
            sym.pop();
            match gen.dec_env_level(1) {
                Ok(()) => {},
                Err(e) => {
                    return Err(e);
                },
            }
            gen.emit_popenv(1);
        }
        Ok(())
    }
}

impl IfStatement {
    pub fn compile(&self, sym: &mut SymTab, gen: &mut Program) -> (r: ParseResult<()>)
        ensures
            final(sym)@ == old(sym)@,
            compiled_is(final(gen)@, r, compile_if(*self, old(sym)@, old(gen)@)),
        decreases self, 0nat,
    {
        match self.test.compile(sym, gen) {
            Ok(()) => {},
            Err(e) => {
                return Err(e);
            },
        }
        gen.add_comment("if test");
        gen.emit_test();
        let jmp_skip_true = gen.addr();
        gen.add_comment("skip true statement");
        gen.emit_jf(INVALID_ADDR);
        match self.true_stmt.compile(sym, gen) {
            Ok(()) => {},
            Err(e) => {
                return Err(e);
            },
        }
        if let Some(false_stmt) = &self.false_stmt {
            let jmp_skip_false = gen.addr();
            gen.add_comment("skip false statement");
            gen.emit_jmp(INVALID_ADDR);
            let addr_past_true = gen.addr();
            gen.fix_jump(jmp_skip_true, addr_past_true);
            match false_stmt.compile(sym, gen) {
                Ok(()) => {},
                Err(e) => {
                    return Err(e);
                },
            }
            let end = gen.addr();
            gen.fix_jump(jmp_skip_false, end);
        } else {
            let addr_past_true = gen.addr();
            gen.fix_jump(jmp_skip_true, addr_past_true);
        }
        Ok(())
    }
}

impl WhileStatement {
    pub fn compile(&self, sym: &mut SymTab, gen: &mut Program) -> (r: ParseResult<()>)
        ensures
            final(sym)@ == old(sym)@,
            compiled_is(final(gen)@, r, compile_while(*self, old(sym)@, old(gen)@)),
        decreases self, 0nat,
    {
        gen.new_while_context();
        let start = gen.addr();
        match self.test.compile(sym, gen) {
            Ok(()) => {},
            Err(e) => {
                return Err(e);
            },
        }
        gen.add_comment("while");
        gen.emit_test();
        let jmp = gen.addr();
        gen.emit_jf(INVALID_ADDR);
        match self.stmt.compile(sym, gen) {
            Ok(()) => {},
            Err(e) => {
                return Err(e);
            },
        }
        gen.emit_jmp(start);
        let end = gen.addr();
        gen.fix_jump(jmp, end);
        gen.close_while_context(end)
    }
}

impl ReturnStatement {
    pub fn compile(&self, sym: &mut SymTab, gen: &mut Program) -> (r: ParseResult<()>)
        ensures
            final(sym)@ == old(sym)@,
            compiled_is(final(gen)@, r, compile_return(*self, old(sym)@, old(gen)@)),
        decreases self, 0nat,
    {
        match &self.expr {
            Some(e) => match e.compile(sym, gen) {
                Ok(()) => {},
                Err(e) => {
                    return Err(e);
                },
            },
            None => {
                gen.emit_pushlit(0);
            },
        }
        let env_level = gen.get_env_level();
        gen.add_comment("return");
        gen.emit_popenv(
            #[verifier::truncate]
            (env_level as u16),
        );
        let addr = gen.addr();
        gen.add_comment("return");
        gen.emit_jmp(INVALID_ADDR);
        if gen.add_return_fixup(addr).is_err() {
            return Err(ParseError::new(self.loc.clone(), "'return' not allowed here"));
        }
        Ok(())
    }
}

impl FuncDef {
    /// Emits the code of the function and returns the address of its
    /// first instruction and the number of its parameters.
    pub fn compile(&self, sym: &mut SymTab, gen: &mut Program) -> (r: ParseResult<(u32, usize)>)
        ensures
            final(sym)@ == old(sym)@,
            compiled_is(final(gen)@, r, compile_func(*self, old(sym)@, old(gen)@)),
            r matches Ok((addr, n)) ==> addr == old(gen)@.addr() && n == self.params@.len(),
        decreases self, 0nat,
    {
        gen.set_env_level(0);
        gen.new_func_context();
        let addr = gen.addr();
        sym.push(self.params.as_slice());
        let body = self.block.compile(sym, gen);
        sym.pop();
        assert(sym@ =~= old(sym)@);
        match body {
            Ok(()) => {},
            Err(e) => {
                return Err(e);
            },
        }
        gen.add_comment("auto return null");
        gen.emit_pushlit(0);
        let end = gen.addr();
        gen.emit_ret();
        match gen.close_func_context(end) {
            Ok(()) => Ok((addr, self.params.len())),
            Err(e) => Err(e),
        }
    }
}

impl NamedFuncDef {
    /// Emits the code of the function that is named.
    pub fn compile(&self, sym: &mut SymTab, gen: &mut Program) -> (r: ParseResult<(u32, usize)>)
        ensures
            final(sym)@ == old(sym)@,
            compiled_is(final(gen)@, r, compile_func(*self.def, old(sym)@, old(gen)@)),
            r matches Ok((addr, n)) ==> addr == old(gen)@.addr() && n == self.def.params@.len(),
    {
        self.def.compile(sym, gen)
    }
}

} // verus!
