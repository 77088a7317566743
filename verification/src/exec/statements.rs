//! Resolved statements.
use vstd::prelude::*;
use crate::src_loc::SrcLoc;
use crate::errors::{RunError, RunErrorV, res_view};
use crate::exec::expressions::Expression;
use crate::exec::semantics::{
    eval_block, eval_if, eval_return, eval_stmt, eval_stmts, eval_while, lemma_stmts_end,
};
use crate::native::NativeHost;
use crate::runtime::Runtime;
use crate::value::Value;

verus! {

/// How a statement ends, where it does not fail.
#[derive(Debug)]
pub enum Completion {
    /// It ran to its end, with this value.
    Normal(Value),
    /// It returns this value from the function that it is part of.
    Return(Value),
    /// It leaves the loop that it is part of.
    Break,
}

/// A statement whose identifiers are addresses.
#[derive(Debug)]
pub enum Statement {
    Empty,
    If(IfStatement),
    While(WhileStatement),
    Break(SrcLoc),
    Return(ReturnStatement),
    Block(Block),
    Expression(Expression),
}

/// A run of statements. With `has_var` the block declares one variable: its
/// statements run in a new frame whose single slot holds the value of
/// `var_val`, or null where there is none.
#[derive(Debug)]
pub struct Block {
    pub has_var: bool,
    pub var_val: Option<Box<Expression>>,
    pub stmts: Vec<Statement>,
    pub loc: SrcLoc,
}

#[derive(Debug)]
pub struct IfStatement {
    pub test: Box<Expression>,
    pub true_stmt: Box<Statement>,
    pub false_stmt: Option<Box<Statement>>,
    pub loc: SrcLoc,
}

#[derive(Debug)]
pub struct WhileStatement {
    pub test: Box<Expression>,
    pub stmt: Box<Statement>,
    pub loc: SrcLoc,
}

#[derive(Debug)]
pub struct ReturnStatement {
    pub expr: Option<Box<Expression>>,
    pub loc: SrcLoc,
}

impl Block {
    pub fn new(
        loc: SrcLoc,
        has_var: bool,
        var_val: Option<Box<Expression>>,
        stmts: Vec<Statement>,
    ) -> (r: Block)
        ensures
            r == (Block { has_var, var_val, stmts, loc }),
    {
        Block { has_var, var_val, stmts, loc }
    }
}

impl IfStatement {
    pub fn new(
        loc: SrcLoc,
        test: Box<Expression>,
        true_stmt: Box<Statement>,
        false_stmt: Option<Box<Statement>>,
    ) -> (r: IfStatement)
        ensures
            r == (IfStatement { test, true_stmt, false_stmt, loc }),
    {
        IfStatement { test, true_stmt, false_stmt, loc }
    }
}

impl WhileStatement {
    pub fn new(loc: SrcLoc, test: Box<Expression>, stmt: Box<Statement>) -> (r: WhileStatement)
        ensures
            r == (WhileStatement { test, stmt, loc }),
    {
        WhileStatement { test, stmt, loc }
    }
}

impl ReturnStatement {
    pub fn new(loc: SrcLoc, expr: Option<Box<Expression>>) -> (r: ReturnStatement)
        ensures
            r == (ReturnStatement { expr, loc }),
    {
        ReturnStatement { expr, loc }
    }
}

} // verus!

verus! {

impl Statement {
    /// Runs the statement in `frame`, under the budget `depth`.
    pub fn eval<H: NativeHost>(&self, rt: &mut Runtime, frame: usize, depth: u64, host: &H) -> (r:
        Result<Completion, RunError>)
        ensures
            (final(rt)@, res_view(r)) == eval_stmt(*host, *self, old(rt)@, frame, depth as nat),
        decreases 3 * depth + 2, *self, 0nat,
    {
        match self {
            Statement::Empty => Ok(Completion::Normal(Value::Null)),
            Statement::If(i) => i.eval(rt, frame, depth, host),
            Statement::While(w) => w.eval(rt, frame, depth, host),
            Statement::Break(_) => Ok(Completion::Break),
            Statement::Return(r) => r.eval(rt, frame, depth, host),
            Statement::Block(b) => b.eval(rt, frame, depth, host),
            Statement::Expression(e) => match e.eval(rt, frame, depth, host) {
                Ok(v) => Ok(Completion::Normal(v)),
                Err(e) => Err(e),
            },
        }
    }
}

impl Block {
    fn eval_stmts<H: NativeHost>(&self, rt: &mut Runtime, frame: usize, depth: u64, host: &H) -> (r:
        Result<Completion, RunError>)
        ensures
            (final(rt)@, res_view(r)) == eval_stmts(
                *host,
                self.stmts@,
                self.stmts@.len(),
                old(rt)@,
                frame,
                depth as nat,
            ),
        decreases 3 * depth + 2, self.stmts@, self.stmts@.len(),
    {
        let ghost rt0 = rt@;
        let mut i: usize = 0;
        while i < self.stmts.len()
            invariant
                i <= self.stmts.len(),
                rt0 == old(rt)@,
                eval_stmts(*host, self.stmts@, i as nat, rt0, frame, depth as nat) == (
                    rt@,
                    Ok::<Completion, RunErrorV>(Completion::Normal(Value::Null)),
                ),
            decreases self.stmts.len() - i,
        {
            assert(decreases_to!(self.stmts@ => self.stmts@[i as int]));
            match self.stmts[i].eval(rt, frame, depth, host) {
                Ok(Completion::Normal(_)) => {},
                other => {
                    proof {
                        lemma_stmts_end(
                            *host,
                            self.stmts@,
                            (i + 1) as nat,
                            self.stmts@.len(),
                            rt0,
                            frame,
                            depth as nat,
                        );
                    }
                    return other;
                },
            }
            i += 1;
        }
        Ok(Completion::Normal(Value::Null))
    }

    /// Runs the block in `frame`, under the budget `depth`.
    pub fn eval<H: NativeHost>(&self, rt: &mut Runtime, frame: usize, depth: u64, host: &H) -> (r:
        Result<Completion, RunError>)
        ensures
            (final(rt)@, res_view(r)) == eval_block(*host, *self, old(rt)@, frame, depth as nat),
        decreases 3 * depth + 2, *self, 0nat,
    {
        if self.has_var {
            let val = match &self.var_val {
                Some(e) => match e.eval(rt, frame, depth, host) {
                    Ok(v) => v,
                    Err(e) => {
                        return Err(e);
                    },
                },
                None => Value::Null,
            };
            let mut vals: Vec<Value> = Vec::new();
            vals.push(val);
            assert(vals@ =~= seq![val]);
            let inner = rt.env.new(frame, vals.as_slice());
            assert(decreases_to!(*self => self.stmts@));
            self.eval_stmts(rt, inner, depth, host)
        } else {
            assert(decreases_to!(*self => self.stmts@));
            self.eval_stmts(rt, frame, depth, host)
        }
    }
}

impl IfStatement {
    pub fn eval<H: NativeHost>(&self, rt: &mut Runtime, frame: usize, depth: u64, host: &H) -> (r:
        Result<Completion, RunError>)
        ensures
            (final(rt)@, res_view(r)) == eval_if(*host, *self, old(rt)@, frame, depth as nat),
        decreases 3 * depth + 2, *self, 0nat,
    {
        let test_val = match self.test.eval(rt, frame, depth, host) {
            Ok(v) => v,
            Err(e) => {
                return Err(e);
            },
        };
        if test_val.is_true() {
            self.true_stmt.eval(rt, frame, depth, host)
        } else {
            match &self.false_stmt {
                Some(f) => f.eval(rt, frame, depth, host),
                None => Ok(Completion::Normal(Value::Null)),
            }
        }
    }
}

impl WhileStatement {
    pub fn eval<H: NativeHost>(&self, rt: &mut Runtime, frame: usize, depth: u64, host: &H) -> (r:
        Result<Completion, RunError>)
        ensures
            (final(rt)@, res_view(r)) == eval_while(*host, *self, old(rt)@, frame, depth as nat),
        decreases 3 * depth + 2, *self, 0nat,
    {
        let ghost rt0 = rt@;
        let mut d: u64 = depth;
        loop
            invariant
                d <= depth,
                rt0 == old(rt)@,
                eval_while(*host, *self, rt0, frame, depth as nat) == eval_while(
                    *host,
                    *self,
                    rt@,
                    frame,
                    d as nat,
                ),
            decreases d,
        {
            if d == 0 {
                return Err(RunError::new_panic(None, "evaluation budget exhausted"));
            }
            d = d - 1;
            let test_val = match self.test.eval(rt, frame, d, host) {
                Ok(v) => v,
                Err(e) => {
                    return Err(e);
                },
            };
            if !test_val.is_true() {
                return Ok(Completion::Normal(Value::Null));
            }
            match self.stmt.eval(rt, frame, d, host) {
                Err(e) => {
                    return Err(e);
                },
                Ok(Completion::Break) => {
                    return Ok(Completion::Normal(Value::Null));
                },
                Ok(Completion::Return(v)) => {
                    return Ok(Completion::Return(v));
                },
                Ok(Completion::Normal(_)) => {},
            }
        }
    }
}

impl ReturnStatement {
    pub fn eval<H: NativeHost>(&self, rt: &mut Runtime, frame: usize, depth: u64, host: &H) -> (r:
        Result<Completion, RunError>)
        ensures
            (final(rt)@, res_view(r)) == eval_return(*host, *self, old(rt)@, frame, depth as nat),
        decreases 3 * depth + 2, *self, 0nat,
    {
        match &self.expr {
            Some(e) => match e.eval(rt, frame, depth, host) {
                Ok(v) => Ok(Completion::Return(v)),
                Err(e) => Err(e),
            },
            None => Ok(Completion::Return(Value::Null)),
        }
    }
}

} // verus!
