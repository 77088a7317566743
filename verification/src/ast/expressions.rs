//! Expressions as the parser leaves them: identifiers are names.
use std::rc::Rc;
use vstd::prelude::*;
use crate::ast::analysis::State;
use crate::ast::resolve::{
    assign_error, dot_error, entries_error, expr_error, expr_outcome, lemma_entries_error_stays,
    lemma_list_error_stays, list_error, quoted, resolved_assign, resolved_dot, resolved_entries,
    resolved_expr, resolved_list,
};
use crate::ast::codegen::{
    compile_assign, compile_binary, compile_dot, compile_expr, compile_list, compile_prefix,
    compile_store, compiled_is,
};
use crate::ast::statements::FuncDef;
use crate::bytecode::gen::Program;
use crate::exec::Expression as RExpr;
use crate::value::Value;
use crate::parser::errors::{ParseError, ParseErrorV};
use crate::parser::ParseResult;
use crate::src_loc::SrcLoc;
use crate::sym_tab::SymTab;
use crate::text::{join2, join3};

verus! {

#[derive(Debug)]
pub enum Expression {
    /// A number literal, as the bit pattern of an IEEE-754 binary64 value.
    Number(u64, SrcLoc),
    String(String, SrcLoc),
    Ident(String, SrcLoc),
    Vec(VecLiteral),
    Dict(MapLiteral),
    Element(Element),
    BinaryOp(BinaryOp),
    PrefixOp(PrefixOp),
    FuncCall(FuncCall),
    FuncDef(Rc<FuncDef>),
}

/// `{ key : value, ... }`
#[derive(Debug)]
pub struct MapLiteral {
    pub entries: Vec<(String, Expression)>,
    pub loc: SrcLoc,
}

/// `[a, b, ...]`
#[derive(Debug)]
pub struct VecLiteral {
    pub vec: Vec<Expression>,
    pub loc: SrcLoc,
}

/// `container[index]`
#[derive(Debug)]
pub struct Element {
    pub container: Box<Expression>,
    pub index: Box<Expression>,
    pub loc: SrcLoc,
}

/// `func(args...)`
#[derive(Debug)]
pub struct FuncCall {
    pub func: Box<Expression>,
    pub args: Vec<Expression>,
}

/// `left op right`, where `op` is the name of the operator.
#[derive(Debug)]
pub struct BinaryOp {
    pub op: String,
    pub left: Box<Expression>,
    pub right: Box<Expression>,
    pub loc: SrcLoc,
}

/// `op arg`, where `op` is the name of the operator.
#[derive(Debug)]
pub struct PrefixOp {
    pub op: String,
    pub arg: Box<Expression>,
    pub loc: SrcLoc,
}

/// Where an expression stands in the source. A call stands where its callee
/// stands.
pub open spec fn raw_loc(e: Expression) -> SrcLoc
    decreases e,
{
    match e {
        Expression::Number(_, loc) => loc,
        Expression::String(_, loc) => loc,
        Expression::Ident(_, loc) => loc,
        Expression::Vec(v) => v.loc,
        Expression::Dict(m) => m.loc,
        Expression::Element(e) => e.loc,
        Expression::BinaryOp(op) => op.loc,
        Expression::PrefixOp(op) => op.loc,
        Expression::FuncCall(f) => raw_loc(*f.func),
        Expression::FuncDef(f) => f.loc,
    }
}

impl Expression {
    /// Where the expression stands in the source.
    pub fn loc(&self) -> (r: SrcLoc)
        ensures
            r == raw_loc(*self),
        decreases self,
    {
        match self {
            Expression::Number(_, loc) => loc.clone(),
            Expression::String(_, loc) => loc.clone(),
            Expression::Ident(_, loc) => loc.clone(),
            Expression::Vec(v) => v.loc.clone(),
            Expression::Dict(m) => m.loc.clone(),
            Expression::Element(e) => e.loc.clone(),
            Expression::BinaryOp(op) => op.loc.clone(),
            Expression::PrefixOp(op) => op.loc.clone(),
            Expression::FuncCall(f) => f.func.loc(),
            Expression::FuncDef(f) => f.loc.clone(),
        }
    }
}

impl MapLiteral {
    pub fn new(loc: SrcLoc, entries: Vec<(String, Expression)>) -> (r: MapLiteral)
        ensures
            r == (MapLiteral { entries, loc }),
    {
        MapLiteral { entries, loc }
    }
}

impl VecLiteral {
    pub fn new(loc: SrcLoc, vec: Vec<Expression>) -> (r: VecLiteral)
        ensures
            r == (VecLiteral { vec, loc }),
    {
        VecLiteral { vec, loc }
    }
}

impl Element {
    pub fn new(loc: SrcLoc, container: Box<Expression>, index: Box<Expression>) -> (r: Element)
        ensures
            r == (Element { container, index, loc }),
    {
        Element { container, index, loc }
    }
}

impl FuncCall {
    pub fn new(func: Box<Expression>, args: Vec<Expression>) -> (r: FuncCall)
        ensures
            r == (FuncCall { func, args }),
    {
        FuncCall { func, args }
    }
}

impl BinaryOp {
    pub fn new(loc: SrcLoc, op: String, left: Box<Expression>, right: Box<Expression>) -> (r:
        BinaryOp)
        ensures
            r == (BinaryOp { op, left, right, loc }),
    {
        BinaryOp { op, left, right, loc }
    }
}

impl PrefixOp {
    pub fn new(loc: SrcLoc, op: String, arg: Box<Expression>) -> (r: PrefixOp)
        ensures
            r == (PrefixOp { op, arg, loc }),
    {
        PrefixOp { op, arg, loc }
    }
}

} // verus!

verus! {

/// Whether `s` holds exactly the characters of `lit`.
pub fn is_text(s: &String, lit: &str) -> (r: bool)
    ensures
        r == (s@ == lit@),
{
    let t = String::from_str(lit);
    *s == t
}

/// The error at `loc` whose message is `before`, then `name`, then a
/// single quote.
pub fn name_error(loc: &SrcLoc, before: &str, name: &String) -> (r: ParseError)
    ensures
        r@ == ParseErrorV::at(loc@, quoted(before@, name@)),
{
    let msg = join3(before, name.as_str(), "'");
    ParseError::new(loc.clone(), msg.as_str())
}

/// Resolves the expressions of `es` from left to right.
pub fn analyze_list(es: &Vec<Expression>, sym: &mut SymTab, st: &mut State) -> (r: ParseResult<
    Vec<RExpr>,
>)
    ensures
        final(sym)@ == old(sym)@,
        final(st)@ == old(st)@,
        match r {
            Ok(outs) => list_error(es@, es@.len(), old(sym)@, old(st)@) is None && resolved_list(
                es@,
                old(sym)@,
                old(st)@,
                outs@,
            ),
            Err(err) => list_error(es@, es@.len(), old(sym)@, old(st)@) == Some(err@),
        },
    decreases es@, es@.len(),
{
    let mut outs: Vec<RExpr> = Vec::new();
    let mut i: usize = 0;
    while i < es.len()
        invariant
            i <= es.len(),
            sym@ == old(sym)@,
            st@ == old(st)@,
            outs@.len() == i,
            list_error(es@, i as nat, old(sym)@, old(st)@) is None,
            forall|k: int|
                0 <= k < i ==> resolved_expr(#[trigger] es@[k], old(sym)@, old(st)@, outs@[k]),
        decreases es.len() - i,
    {
        assert(decreases_to!(es@ => es@[i as int]));
        match es[i].analyze(sym, st) {
            Ok(o) => {
                outs.push(o);
            },
            Err(e) => {
                proof {
                    lemma_list_error_stays(es@, (i + 1) as nat, es@.len(), old(sym)@, old(st)@);
                }
                return Err(e);
            },
        }
        i += 1;
    }
    Ok(outs)
}

impl Expression {
    /// Resolves the expression in the scopes of `sym`. Both `sym` and `st`
    /// are left as they were found.
    pub fn analyze(&self, sym: &mut SymTab, st: &mut State) -> (r: ParseResult<RExpr>)
        ensures
            final(sym)@ == old(sym)@,
            final(st)@ == old(st)@,
            expr_outcome(*self, old(sym)@, old(st)@, r),
        decreases self, 0nat,
    {
        match self {
            Expression::Number(n, loc) => Ok(RExpr::Number(*n, loc.clone())),
            Expression::String(s, loc) => Ok(RExpr::String(s.clone(), loc.clone())),
            Expression::Ident(id, loc) => match sym.get_name(id.as_str()) {
                Some((vi, ei)) => Ok(RExpr::Variable(vi, ei, loc.clone())),
                None => Err(name_error(loc, "name not declared: '", id)),
            },
            Expression::Vec(v) => match v.analyze(sym, st) {
                Ok(o) => Ok(RExpr::Vec(o)),
                Err(e) => Err(e),
            },
            Expression::Dict(m) => match m.analyze(sym, st) {
                Ok(o) => Ok(RExpr::Dict(o)),
                Err(e) => Err(e),
            },
            Expression::Element(e) => match e.analyze(sym, st) {
                Ok(o) => Ok(RExpr::Element(o)),
                Err(e) => Err(e),
            },
            Expression::BinaryOp(op) => {
                if is_text(&op.op, "=") {
                    Expression::analyze_assignment(op, sym, st)
                } else if is_text(&op.op, ".") {
                    Expression::analyze_dot(op, sym, st)
                } else {
                    match op.analyze(sym, st) {
                        Ok(o) => Ok(RExpr::BinaryOp(o)),
                        Err(e) => Err(e),
                    }
                }
            },
            Expression::PrefixOp(op) => match op.analyze(sym, st) {
                Ok(o) => Ok(RExpr::PrefixOp(o)),
                Err(e) => Err(e),
            },
            Expression::FuncDef(f) => match f.analyze(sym, st) {
                Ok(o) => Ok(RExpr::FuncDef(Rc::new(o))),
                Err(e) => Err(e),
            },
            Expression::FuncCall(f) => match f.analyze(sym, st) {
                Ok(o) => Ok(RExpr::FuncCall(o)),
                Err(e) => Err(e),
            },
        }
    }

    /// Resolves the assignment `op.left = op.right`.
    pub fn analyze_assignment(op: &BinaryOp, sym: &mut SymTab, st: &mut State) -> (r: ParseResult<
        RExpr,
    >)
        ensures
            final(sym)@ == old(sym)@,
            final(st)@ == old(st)@,
            match r {
                Ok(out) => assign_error(*op, old(sym)@, old(st)@) is None && resolved_assign(
                    *op,
                    old(sym)@,
                    old(st)@,
                    out,
                ),
                Err(err) => assign_error(*op, old(sym)@, old(st)@) == Some(err@),
            },
        decreases op, 0nat,
    {
        match &*op.left {
            Expression::Ident(id, loc) => match sym.get_name(id.as_str()) {
                Some((vi, ei)) => {
                    let val = match op.right.analyze(sym, st) {
                        Ok(v) => v,
                        Err(e) => {
                            return Err(e);
                        },
                    };
                    Ok(
                        RExpr::VarAssign(
                            crate::exec::VarAssign::new(op.loc.clone(), vi, ei, Box::new(val)),
                        ),
                    )
                },
                None => Err(name_error(loc, "assignment to undeclared variable '", id)),
            },
            Expression::Element(e) => {
                let cont = match e.container.analyze(sym, st) {
                    Ok(v) => v,
                    Err(e) => {
                        return Err(e);
                    },
                };
                let index = match e.index.analyze(sym, st) {
                    Ok(v) => v,
                    Err(e) => {
                        return Err(e);
                    },
                };
                let val = match op.right.analyze(sym, st) {
                    Ok(v) => v,
                    Err(e) => {
                        return Err(e);
                    },
                };
                Ok(
                    RExpr::ElemAssign(
                        crate::exec::ElemAssign::new(
                            op.loc.clone(),
                            Box::new(cont),
                            Box::new(index),
                            Box::new(val),
                        ),
                    ),
                )
            },
            Expression::BinaryOp(dot) => {
                if is_text(&dot.op, ".") {
                    if let Expression::Ident(index, loc) = &*dot.right {
                        let cont = match dot.left.analyze(sym, st) {
                            Ok(v) => v,
                            Err(e) => {
                                return Err(e);
                            },
                        };
                        let index = RExpr::String(index.clone(), loc.clone());
                        let val = match op.right.analyze(sym, st) {
                            Ok(v) => v,
                            Err(e) => {
                                return Err(e);
                            },
                        };
                        return Ok(
                            RExpr::ElemAssign(
                                crate::exec::ElemAssign::new(
                                    op.loc.clone(),
                                    Box::new(cont),
                                    Box::new(index),
                                    Box::new(val),
                                ),
                            ),
                        );
                    }
                }
                Err(ParseError::new(op.loc.clone(), "assignment to invalid target"))
            },
            _ => Err(ParseError::new(op.loc.clone(), "assignment to invalid target")),
        }
    }

    /// Resolves the attribute access `op.left . op.right`.
    pub fn analyze_dot(op: &BinaryOp, sym: &mut SymTab, st: &mut State) -> (r: ParseResult<RExpr>)
        ensures
            final(sym)@ == old(sym)@,
            final(st)@ == old(st)@,
            match r {
                Ok(out) => dot_error(*op, old(sym)@, old(st)@) is None && resolved_dot(
                    *op,
                    old(sym)@,
                    old(st)@,
                    out,
                ),
                Err(err) => dot_error(*op, old(sym)@, old(st)@) == Some(err@),
            },
        decreases op, 0nat,
    {
        match &*op.right {
            Expression::Ident(id, loc) => {
                let c = match op.left.analyze(sym, st) {
                    Ok(v) => v,
                    Err(e) => {
                        return Err(e);
                    },
                };
                let i = RExpr::String(id.clone(), loc.clone());
                Ok(
                    RExpr::Element(
                        crate::exec::Element::new(op.loc.clone(), Box::new(c), Box::new(i)),
                    ),
                )
            },
            other => Err(ParseError::new(other.loc(), "attribute must be an identifier")),
        }
    }
}

impl MapLiteral {
    pub fn analyze(&self, sym: &mut SymTab, st: &mut State) -> (r: ParseResult<
        crate::exec::MapLiteral,
    >)
        ensures
            final(sym)@ == old(sym)@,
            final(st)@ == old(st)@,
            match r {
                Ok(out) => expr_error(Expression::Dict(*self), old(sym)@, old(st)@) is None
                    && resolved_expr(
                    Expression::Dict(*self),
                    old(sym)@,
                    old(st)@,
                    RExpr::Dict(out),
                ),
                Err(err) => expr_error(Expression::Dict(*self), old(sym)@, old(st)@) == Some(err@),
            },
        decreases self, 0nat,
    {
        let mut entries: Vec<(String, RExpr)> = Vec::new();
        let mut i: usize = 0;
        while i < self.entries.len()
            invariant
                i <= self.entries.len(),
                sym@ == old(sym)@,
                st@ == old(st)@,
                entries@.len() == i,
                entries_error(self.entries@, i as nat, old(sym)@, old(st)@) is None,
                forall|k: int|
                    0 <= k < i ==> entries@[k].0 == (#[trigger] self.entries@[k]).0
                        && resolved_expr(self.entries@[k].1, old(sym)@, old(st)@, entries@[k].1),
            decreases self.entries.len() - i,
        {
            assert(decreases_to!(*self => self.entries@));
            assert(decreases_to!(self.entries@ => self.entries@[i as int]));
            assert(decreases_to!(self.entries@[i as int] => self.entries@[i as int].1));
            match self.entries[i].1.analyze(sym, st) {
                Ok(v) => {
                    entries.push((self.entries[i].0.clone(), v));
                },
                Err(e) => {
                    proof {
                        lemma_entries_error_stays(
                            self.entries@,
                            (i + 1) as nat,
                            self.entries@.len(),
                            old(sym)@,
                            old(st)@,
                        );
                    }
                    return Err(e);
                },
            }
            i += 1;
        }
        assert(resolved_entries(self.entries@, old(sym)@, old(st)@, entries@));
        Ok(crate::exec::MapLiteral::new(self.loc.clone(), entries))
    }
}

impl VecLiteral {
    pub fn analyze(&self, sym: &mut SymTab, st: &mut State) -> (r: ParseResult<
        crate::exec::VecLiteral,
    >)
        ensures
            final(sym)@ == old(sym)@,
            final(st)@ == old(st)@,
            match r {
                Ok(out) => expr_error(Expression::Vec(*self), old(sym)@, old(st)@) is None
                    && resolved_expr(Expression::Vec(*self), old(sym)@, old(st)@, RExpr::Vec(out)),
                Err(err) => expr_error(Expression::Vec(*self), old(sym)@, old(st)@) == Some(err@),
            },
        decreases self, 0nat,
    {
        assert(decreases_to!(*self => self.vec@));
        match analyze_list(&self.vec, sym, st) {
            Ok(entries) => Ok(crate::exec::VecLiteral::new(self.loc.clone(), entries)),
            Err(e) => Err(e),
        }
    }
}

impl Element {
    pub fn analyze(&self, sym: &mut SymTab, st: &mut State) -> (r: ParseResult<
        crate::exec::Element,
    >)
        ensures
            final(sym)@ == old(sym)@,
            final(st)@ == old(st)@,
            match r {
                Ok(out) => expr_error(Expression::Element(*self), old(sym)@, old(st)@) is None
                    && resolved_expr(
                    Expression::Element(*self),
                    old(sym)@,
                    old(st)@,
                    RExpr::Element(out),
                ),
                Err(err) => expr_error(Expression::Element(*self), old(sym)@, old(st)@) == Some(
                    err@,
                ),
            },
        decreases self, 0nat,
    {
        let c = match self.container.analyze(sym, st) {
            Ok(v) => v,
            Err(e) => {
                return Err(e);
            },
        };
        let i = match self.index.analyze(sym, st) {
            Ok(v) => v,
            Err(e) => {
                return Err(e);
            },
        };
        Ok(crate::exec::Element::new(self.loc.clone(), Box::new(c), Box::new(i)))
    }
}

impl FuncCall {
    pub fn analyze(&self, sym: &mut SymTab, st: &mut State) -> (r: ParseResult<
        crate::exec::FuncCall,
    >)
        ensures
            final(sym)@ == old(sym)@,
            final(st)@ == old(st)@,
            match r {
                Ok(out) => expr_error(Expression::FuncCall(*self), old(sym)@, old(st)@) is None
                    && resolved_expr(
                    Expression::FuncCall(*self),
                    old(sym)@,
                    old(st)@,
                    RExpr::FuncCall(out),
                ),
                Err(err) => expr_error(Expression::FuncCall(*self), old(sym)@, old(st)@) == Some(
                    err@,
                ),
            },
        decreases self, 0nat,
    {
        let func = match self.func.analyze(sym, st) {
            Ok(v) => v,
            Err(e) => {
                return Err(e);
            },
        };
        assert(decreases_to!(*self => self.args@));
        let args = match analyze_list(&self.args, sym, st) {
            Ok(v) => v,
            Err(e) => {
                return Err(e);
            },
        };
        Ok(crate::exec::FuncCall::new(func.loc(), Box::new(func), args))
    }
}

impl BinaryOp {
    /// Resolves an operator that is neither `=` nor `.`.
    pub fn analyze(&self, sym: &mut SymTab, st: &mut State) -> (r: ParseResult<
        crate::exec::BinaryOp,
    >)
        requires
            self.op@ != "="@,
            self.op@ != "."@,
        ensures
            final(sym)@ == old(sym)@,
            final(st)@ == old(st)@,
            match r {
                Ok(out) => expr_error(Expression::BinaryOp(*self), old(sym)@, old(st)@) is None
                    && resolved_expr(
                    Expression::BinaryOp(*self),
                    old(sym)@,
                    old(st)@,
                    RExpr::BinaryOp(out),
                ),
                Err(err) => expr_error(Expression::BinaryOp(*self), old(sym)@, old(st)@) == Some(
                    err@,
                ),
            },
        decreases self, 0nat,
    {
        let (vi, ei) = match sym.get_name(self.op.as_str()) {
            Some((vi, ei)) => (vi, ei),
            None => {
                return Err(name_error(&self.loc, "operator doesn't exist: '", &self.op));
            },
        };
        let left = match self.left.analyze(sym, st) {
            Ok(v) => v,
            Err(e) => {
                return Err(e);
            },
        };
        let right = match self.right.analyze(sym, st) {
            Ok(v) => v,
            Err(e) => {
                return Err(e);
            },
        };
        Ok(crate::exec::BinaryOp::new(self.loc.clone(), vi, ei, Box::new(left), Box::new(right)))
    }
}

impl PrefixOp {
    pub fn analyze(&self, sym: &mut SymTab, st: &mut State) -> (r: ParseResult<
        crate::exec::PrefixOp,
    >)
        ensures
            final(sym)@ == old(sym)@,
            final(st)@ == old(st)@,
            match r {
                Ok(out) => expr_error(Expression::PrefixOp(*self), old(sym)@, old(st)@) is None
                    && resolved_expr(
                    Expression::PrefixOp(*self),
                    old(sym)@,
                    old(st)@,
                    RExpr::PrefixOp(out),
                ),
                Err(err) => expr_error(Expression::PrefixOp(*self), old(sym)@, old(st)@) == Some(
                    err@,
                ),
            },
        decreases self, 0nat,
    {
        let (vi, ei) = match sym.get_name(self.op.as_str()) {
            Some((vi, ei)) => (vi, ei),
            None => {
                return Err(name_error(&self.loc, "operator doesn't exist: '", &self.op));
            },
        };
        let arg = match self.arg.analyze(sym, st) {
            Ok(v) => v,
            Err(e) => {
                return Err(e);
            },
        };
        Ok(crate::exec::PrefixOp::new(self.loc.clone(), vi, ei, Box::new(arg)))
    }
}

} // verus!

verus! {

/// Compiles the expressions of `es` from left to right.
pub fn compile_exprs(es: &Vec<Expression>, sym: &SymTab, gen: &mut Program) -> (r: ParseResult<()>)
    ensures
        compiled_is(final(gen)@, r, compile_list(es@, es@.len(), sym@, old(gen)@)),
    decreases es@, es@.len(),
{
    let mut i: usize = 0;
    while i < es.len()
        invariant
            i <= es.len(),
            compile_list(es@, i as nat, sym@, old(gen)@) == (gen@, None::<ParseErrorV>),
        decreases es.len() - i,
    {
        assert(decreases_to!(es@ => es@[i as int]));
        match es[i].compile(sym, gen) {
            Ok(()) => {},
            Err(e) => {
                proof {
                    lemma_compile_list_stops(es@, (i + 1) as nat, es@.len(), sym@, old(gen)@);
                }
                return Err(e);
            },
        }
        i += 1;
    }
    Ok(())
}

/// Once an expression of a list has failed to compile, the rest of the
/// list is not compiled.
pub proof fn lemma_compile_list_stops(
    es: Seq<Expression>,
    n: nat,
    m: nat,
    sym: crate::ast::resolve::Scopes,
    p: crate::bytecode::gen::ProgramV,
)
    requires
        n <= m <= es.len(),
        compile_list(es, n, sym, p).1 is Some,
    ensures
        compile_list(es, m, sym, p) == compile_list(es, n, sym, p),
    decreases m,
{
    if n < m {
        lemma_compile_list_stops(es, n, (m - 1) as nat, sym, p);
    }
}

impl Expression {
    /// Emits the code of the expression.
    pub fn compile(&self, sym: &SymTab, gen: &mut Program) -> (r: ParseResult<()>)
        ensures
            compiled_is(final(gen)@, r, compile_expr(*self, sym@, old(gen)@)),
        decreases self, 0nat,
    {
        match self {
            Expression::Number(n, _) => {
                gen.add_comment("number");
                let index = gen.add_literal(Value::Number(*n));
                gen.emit_pushlit(index);
            },
            Expression::String(s, _) => {
                let note = join3("\"", s.as_str(), "\"");
                gen.add_comment(note.as_str());
                let index = gen.add_literal(Value::String(s.clone()));
                gen.emit_pushlit(index);
            },
            Expression::Ident(id, loc) => {
                match sym.get_name(id.as_str()) {
                    Some((vi, ei)) => {
                        gen.add_comment(id.as_str());
                        gen.emit_getvar(
                            #[verifier::truncate]
                            (vi as u16),
                            #[verifier::truncate]
                            (ei as u16),
                        );
                    },
                    None => {
                        return Err(name_error(loc, "name not declared: '", id));
                    },
                };
            },
            Expression::Vec(_) => {
                gen.add_comment("vec literal");
                gen.emit_halt();
            },
            Expression::Dict(_) => {
                gen.add_comment("map literal");
                gen.emit_halt();
            },
            Expression::Element(e) => {
                return e.compile(sym, gen);
            },
            Expression::BinaryOp(op) => {
                if is_text(&op.op, "=") {
                    return Expression::compile_assignment(op, sym, gen);
                } else if is_text(&op.op, ".") {
                    return Expression::compile_dot(op, sym, gen);
                } else {
                    return op.compile(sym, gen);
                }
            },
            Expression::PrefixOp(op) => {
                return op.compile(sym, gen);
            },
            Expression::FuncDef(_) => {
                gen.add_comment("func def");
                gen.emit_halt();
            },
            Expression::FuncCall(f) => {
                return f.compile(sym, gen);
            },
        }
        Ok(())
    }

    /// Emits the code of the assignment `op.left = op.right`.
    pub fn compile_assignment(op: &BinaryOp, sym: &SymTab, gen: &mut Program) -> (r: ParseResult<
        (),
    >)
        ensures
            compiled_is(final(gen)@, r, compile_assign(*op, sym@, old(gen)@)),
        decreases op, 0nat,
    {
        match &*op.left {
            Expression::Ident(id, loc) => match sym.get_name(id.as_str()) {
                Some((vi, ei)) => {
                    match op.right.compile(sym, gen) {
                        Ok(()) => {},
                        Err(e) => {
                            return Err(e);
                        },
                    }
                    let note = join2(id.as_str(), " = ...");
                    gen.add_comment(note.as_str());
                    gen.emit_setvar(
                        #[verifier::truncate]
                        (vi as u16),
                        #[verifier::truncate]
                        (ei as u16),
                    );
                    Ok(())
                },
                None => Err(name_error(loc, "assignment to undeclared variable '", id)),
            },
            Expression::Element(el) => {
                match el.container.compile(sym, gen) {
                    Ok(()) => {},
                    Err(e) => {
                        return Err(e);
                    },
                }
                match el.index.compile(sym, gen) {
                    Ok(()) => {},
                    Err(e) => {
                        return Err(e);
                    },
                }
                Expression::compile_store(&op.right, sym, gen)
            },
            Expression::BinaryOp(dot) => {
                if is_text(&dot.op, ".") {
                    if let Expression::Ident(name, _) = &*dot.right {
                        match dot.left.compile(sym, gen) {
                            Ok(()) => {},
                            Err(e) => {
                                return Err(e);
                            },
                        }
                        let index = gen.add_literal(Value::String(name.clone()));
                        let note = join2(".", name.as_str());
                        gen.add_comment(note.as_str());
                        gen.emit_pushlit(index);
                        return Expression::compile_store(&op.right, sym, gen);
                    }
                }
                Err(ParseError::new(op.loc.clone(), "assignment to invalid target"))
            },
            _ => Err(ParseError::new(op.loc.clone(), "assignment to invalid target")),
        }
    }

    /// Emits the end of an assignment to an element: the code of the value
    /// and a `setelem`.
    fn compile_store(val: &Expression, sym: &SymTab, gen: &mut Program) -> (r: ParseResult<()>)
        ensures
            compiled_is(final(gen)@, r, compile_store(*val, sym@, old(gen)@)),
        decreases val, 2nat,
    {
        match val.compile(sym, gen) {
            Ok(()) => {},
            Err(e) => {
                return Err(e);
            },
        }
        gen.add_comment("x[y] = ...");
        gen._emit_setelem();
        Ok(())
    }

    /// Emits the code of the attribute access `op.left . op.right`.
    pub fn compile_dot(op: &BinaryOp, sym: &SymTab, gen: &mut Program) -> (r: ParseResult<()>)
        ensures
            compiled_is(final(gen)@, r, compile_dot(*op, sym@, old(gen)@)),
        decreases op, 0nat,
    {
        match &*op.right {
            Expression::Ident(name, _) => {
                match op.left.compile(sym, gen) {
                    Ok(()) => {},
                    Err(e) => {
                        return Err(e);
                    },
                }
                let index = gen.add_literal(Value::String(name.clone()));
                let note = join2(".", name.as_str());
                gen.add_comment(note.as_str());
                gen.emit_pushlit(index);
                gen.emit_getelem();
                Ok(())
            },
            other => Err(ParseError::new(other.loc(), "attribute must be an identifier")),
        }
    }
}

impl Element {
    pub fn compile(&self, sym: &SymTab, gen: &mut Program) -> (r: ParseResult<()>)
        ensures
            compiled_is(final(gen)@, r, compile_expr(Expression::Element(*self), sym@, old(gen)@)),
        decreases self, 0nat,
    {
        match self.container.compile(sym, gen) {
            Ok(()) => {},
            Err(e) => {
                return Err(e);
            },
        }
        match self.index.compile(sym, gen) {
            Ok(()) => {},
            Err(e) => {
                return Err(e);
            },
        }
        gen.emit_getelem();
        Ok(())
    }
}

impl FuncCall {
    pub fn compile(&self, sym: &SymTab, gen: &mut Program) -> (r: ParseResult<()>)
        ensures
            compiled_is(final(gen)@, r, compile_expr(Expression::FuncCall(*self), sym@, old(gen)@)),
        decreases self, 0nat,
    {
        match self.func.compile(sym, gen) {
            Ok(()) => {},
            Err(e) => {
                return Err(e);
            },
        }
        assert(decreases_to!(*self => self.args@));
        match compile_exprs(&self.args, sym, gen) {
            Ok(()) => {},
            Err(e) => {
                return Err(e);
            },
        }
        gen.emit_call(
            #[verifier::truncate]
            (self.args.len() as u16),
        );
        Ok(())
    }
}

impl BinaryOp {
    /// Emits the code of an operator that is neither `=` nor `.`.
    pub fn compile(&self, sym: &SymTab, gen: &mut Program) -> (r: ParseResult<()>)
        ensures
            compiled_is(final(gen)@, r, compile_binary(*self, sym@, old(gen)@)),
        decreases self, 0nat,
    {
        let (vi, ei) = match sym.get_name(self.op.as_str()) {
            Some((vi, ei)) => (vi, ei),
            None => {
                return Err(name_error(&self.loc, "operator doesn't exist: '", &self.op));
            },
        };
        gen.add_comment(self.op.as_str());
        gen.emit_getvar(
            #[verifier::truncate]
            (vi as u16),
            #[verifier::truncate]
            (ei as u16),
        );
        match self.left.compile(sym, gen) {
            Ok(()) => {},
            Err(e) => {
                return Err(e);
            },
        }
        match self.right.compile(sym, gen) {
            Ok(()) => {},
            Err(e) => {
                return Err(e);
            },
        }
        gen.emit_call(2);
        Ok(())
    }
}

impl PrefixOp {
    pub fn compile(&self, sym: &SymTab, gen: &mut Program) -> (r: ParseResult<()>)
        ensures
            compiled_is(final(gen)@, r, compile_prefix(*self, sym@, old(gen)@)),
        decreases self, 0nat,
    {
        let (vi, ei) = match sym.get_name(self.op.as_str()) {
            Some((vi, ei)) => (vi, ei),
            None => {
                return Err(name_error(&self.loc, "operator doesn't exist: '", &self.op));
            },
        };
        gen.add_comment(self.op.as_str());
        gen.emit_getvar(
            #[verifier::truncate]
            (vi as u16),
            #[verifier::truncate]
            (ei as u16),
        );
        match self.arg.compile(sym, gen) {
            Ok(()) => {},
            Err(e) => {
                return Err(e);
            },
        }
        gen.emit_call(1);
        Ok(())
    }
}

} // verus!
