//! Resolved expressions.
use std::rc::Rc;
use vstd::prelude::*;
use crate::errors::{RunError, RunErrorV, res_view};
use crate::exec::closure::{Closure, share_func};
use crate::exec::semantics::{
    eval_binary, eval_call, eval_elem_assign, eval_element, eval_entries, eval_expr, eval_func_def,
    eval_list, eval_map, eval_prefix, eval_var_assign, eval_vec, lemma_entries_fail,
    lemma_list_fails,
};
use crate::exec::statements::Block;
use crate::native::NativeHost;
use crate::runtime::Runtime;
use crate::src_loc::SrcLoc;
use crate::value::{MapValue, Value};

verus! {

/// An expression whose identifiers are addresses.
#[derive(Debug)]
pub enum Expression {
    /// A number literal, as the bit pattern of an IEEE-754 binary64 value.
    Number(u64, SrcLoc),
    String(String, SrcLoc),
    /// The variable in slot `.0` of the frame `.1` parent links up.
    Variable(usize, usize, SrcLoc),
    Vec(VecLiteral),
    Dict(MapLiteral),
    Element(Element),
    VarAssign(VarAssign),
    ElemAssign(ElemAssign),
    BinaryOp(BinaryOp),
    PrefixOp(PrefixOp),
    FuncCall(FuncCall),
    FuncDef(Rc<FuncDef>),
}

/// `[a, b, ...]`
#[derive(Debug)]
pub struct VecLiteral {
    pub vec: Vec<Expression>,
    pub loc: SrcLoc,
}

/// `{ key : value, ... }`
#[derive(Debug)]
pub struct MapLiteral {
    pub entries: Vec<(String, Expression)>,
    pub loc: SrcLoc,
}

/// `container[index]`
#[derive(Debug)]
pub struct Element {
    pub container: Box<Expression>,
    pub index: Box<Expression>,
    pub loc: SrcLoc,
}

/// `func(args...)`
#[derive(Debug)]
pub struct FuncCall {
    pub func: Box<Expression>,
    pub args: Vec<Expression>,
    pub loc: SrcLoc,
}

/// `container[index] = val`
#[derive(Debug)]
pub struct ElemAssign {
    pub container: Box<Expression>,
    pub index: Box<Expression>,
    pub val: Box<Expression>,
    pub loc: SrcLoc,
}

/// `variable = val`
#[derive(Debug)]
pub struct VarAssign {
    pub var_index: usize,
    pub env_index: usize,
    pub val: Box<Expression>,
    pub loc: SrcLoc,
}

/// `left op right`, where the operator is the callable value at an address.
#[derive(Debug)]
pub struct BinaryOp {
    pub val_index: usize,
    pub env_index: usize,
    pub left: Box<Expression>,
    pub right: Box<Expression>,
    pub loc: SrcLoc,
}

/// `op arg`, where the operator is the callable value at an address.
#[derive(Debug)]
pub struct PrefixOp {
    pub val_index: usize,
    pub env_index: usize,
    pub arg: Box<Expression>,
    pub loc: SrcLoc,
}

/// A function: the number of its parameters and its body.
#[derive(Debug)]
pub struct FuncDef {
    pub num_params: usize,
    pub block: Box<Block>,
    pub loc: SrcLoc,
}

/// Where an expression stands in the source. A call stands where its callee
/// stands.
pub open spec fn expr_loc(e: Expression) -> SrcLoc
    decreases e,
{
    match e {
        Expression::Number(_, loc) => loc,
        Expression::String(_, loc) => loc,
        Expression::Variable(_, _, loc) => loc,
        Expression::Vec(v) => v.loc,
        Expression::Dict(m) => m.loc,
        Expression::Element(e) => e.loc,
        Expression::VarAssign(a) => a.loc,
        Expression::ElemAssign(a) => a.loc,
        Expression::BinaryOp(op) => op.loc,
        Expression::PrefixOp(op) => op.loc,
        Expression::FuncCall(f) => expr_loc(*f.func),
        Expression::FuncDef(f) => f.loc,
    }
}

impl Expression {
    /// Where the expression stands in the source.
    pub fn loc(&self) -> (r: SrcLoc)
        ensures
            r == expr_loc(*self),
        decreases self,
    {
        match self {
            Expression::Number(_, loc) => loc.clone(),
            Expression::String(_, loc) => loc.clone(),
            Expression::Variable(_, _, loc) => loc.clone(),
            Expression::Vec(v) => v.loc.clone(),
            Expression::Dict(m) => m.loc.clone(),
            Expression::Element(e) => e.loc.clone(),
            Expression::VarAssign(a) => a.loc.clone(),
            Expression::ElemAssign(a) => a.loc.clone(),
            Expression::BinaryOp(op) => op.loc.clone(),
            Expression::PrefixOp(op) => op.loc.clone(),
            Expression::FuncCall(f) => f.func.loc(),
            Expression::FuncDef(f) => f.loc.clone(),
        }
    }
}

impl VecLiteral {
    pub fn new(loc: SrcLoc, vec: Vec<Expression>) -> (r: VecLiteral)
        ensures
            r == (VecLiteral { vec, loc }),
    {
        VecLiteral { vec, loc }
    }
}

impl MapLiteral {
    pub fn new(loc: SrcLoc, entries: Vec<(String, Expression)>) -> (r: MapLiteral)
        ensures
            r == (MapLiteral { entries, loc }),
    {
        MapLiteral { entries, loc }
    }
}

impl Element {
    pub fn new(loc: SrcLoc, container: Box<Expression>, index: Box<Expression>) -> (r: Element)
        ensures
            r == (Element { container, index, loc }),
    {
        Element { container, index, loc }
    }
}

impl FuncCall {
    pub fn new(loc: SrcLoc, func: Box<Expression>, args: Vec<Expression>) -> (r: FuncCall)
        ensures
            r == (FuncCall { func, args, loc }),
    {
        FuncCall { func, args, loc }
    }
}

impl ElemAssign {
    pub fn new(
        loc: SrcLoc,
        container: Box<Expression>,
        index: Box<Expression>,
        val: Box<Expression>,
    ) -> (r: ElemAssign)
        ensures
            r == (ElemAssign { container, index, val, loc }),
    {
        ElemAssign { container, index, val, loc }
    }
}

impl VarAssign {
    pub fn new(loc: SrcLoc, var_index: usize, env_index: usize, val: Box<Expression>) -> (r:
        VarAssign)
        ensures
            r == (VarAssign { var_index, env_index, val, loc }),
    {
        VarAssign { var_index, env_index, val, loc }
    }
}

impl BinaryOp {
    pub fn new(
        loc: SrcLoc,
        val_index: usize,
        env_index: usize,
        left: Box<Expression>,
        right: Box<Expression>,
    ) -> (r: BinaryOp)
        ensures
            r == (BinaryOp { val_index, env_index, left, right, loc }),
    {
        BinaryOp { val_index, env_index, left, right, loc }
    }
}

impl PrefixOp {
    pub fn new(loc: SrcLoc, val_index: usize, env_index: usize, arg: Box<Expression>) -> (r:
        PrefixOp)
        ensures
            r == (PrefixOp { val_index, env_index, arg, loc }),
    {
        PrefixOp { val_index, env_index, arg, loc }
    }
}

impl FuncDef {
    pub fn new(loc: SrcLoc, num_params: usize, block: Box<Block>) -> (r: FuncDef)
        ensures
            r == (FuncDef { num_params, block, loc }),
    {
        FuncDef { num_params, block, loc }
    }
}

} // verus!

verus! {

/// A list of values or an error, each taken by its view.
pub open spec fn vals_view(r: Result<Vec<Value>, RunError>) -> Result<Seq<Value>, RunErrorV> {
    match r {
        Ok(v) => Ok(v@),
        Err(e) => Err(e@),
    }
}

/// Evaluates the expressions of `es` from left to right.
pub fn eval_exprs<H: NativeHost>(
    es: &Vec<Expression>,
    rt: &mut Runtime,
    frame: usize,
    depth: u64,
    host: &H,
) -> (r: Result<Vec<Value>, RunError>)
    ensures
        (final(rt)@, vals_view(r)) == eval_list(
            *host,
            es@,
            es@.len(),
            old(rt)@,
            frame,
            depth as nat,
        ),
    decreases 3 * depth + 2, es@, es@.len(),
{
    let ghost rt0 = rt@;
    let mut out: Vec<Value> = Vec::new();
    let mut i: usize = 0;
    while i < es.len()
        invariant
            i <= es.len(),
            rt0 == old(rt)@,
            eval_list(*host, es@, i as nat, rt0, frame, depth as nat) == (rt@, Ok::<
                Seq<Value>,
                RunErrorV,
            >(out@)),
        decreases es.len() - i,
    {
        assert(decreases_to!(es@ => es@[i as int]));
        match es[i].eval(rt, frame, depth, host) {
            Ok(v) => {
                out.push(v);
            },
            Err(e) => {
                proof {
                    lemma_list_fails(
                        *host,
                        es@,
                        (i + 1) as nat,
                        es@.len(),
                        rt0,
                        frame,
                        depth as nat,
                    );
                }
                return Err(e);
            },
        }
        i += 1;
    }
    Ok(out)
}

impl Expression {
    /// Evaluates the expression in `frame`, under the budget `depth`.
    pub fn eval<H: NativeHost>(&self, rt: &mut Runtime, frame: usize, depth: u64, host: &H) -> (r:
        Result<Value, RunError>)
        ensures
            (final(rt)@, res_view(r)) == eval_expr(*host, *self, old(rt)@, frame, depth as nat),
        decreases 3 * depth + 2, *self, 0nat,
    {
        match self {
            Expression::Number(n, _) => Ok(Value::Number(*n)),
            Expression::String(s, _) => Ok(Value::String(s.clone())),
            Expression::Variable(vi, ei, _) => rt.env.get_value(frame, *vi, *ei),
            Expression::Vec(v) => v.eval(rt, frame, depth, host),
            Expression::Dict(m) => m.eval(rt, frame, depth, host),
            Expression::Element(e) => e.eval(rt, frame, depth, host),
            Expression::VarAssign(a) => a.eval(rt, frame, depth, host),
            Expression::ElemAssign(a) => a.eval(rt, frame, depth, host),
            Expression::BinaryOp(op) => op.eval(rt, frame, depth, host),
            Expression::PrefixOp(op) => op.eval(rt, frame, depth, host),
            Expression::FuncCall(f) => f.eval(rt, frame, depth, host),
            Expression::FuncDef(f) => FuncDef::eval(share_func(f), rt, frame),
        }
    }
}

impl VecLiteral {
    pub fn eval<H: NativeHost>(&self, rt: &mut Runtime, frame: usize, depth: u64, host: &H) -> (r:
        Result<Value, RunError>)
        ensures
            (final(rt)@, res_view(r)) == eval_vec(*host, *self, old(rt)@, frame, depth as nat),
        decreases 3 * depth + 2, *self, 0nat,
    {
        match eval_exprs(&self.vec, rt, frame, depth, host) {
            Ok(vals) => Ok(Value::Vec(rt.heap.alloc_vec(vals))),
            Err(e) => Err(e),
        }
    }
}

impl MapLiteral {
    pub fn eval<H: NativeHost>(&self, rt: &mut Runtime, frame: usize, depth: u64, host: &H) -> (r:
        Result<Value, RunError>)
        ensures
            (final(rt)@, res_view(r)) == eval_map(*host, *self, old(rt)@, frame, depth as nat),
        decreases 3 * depth + 2, *self, 0nat,
    {
        let ghost rt0 = rt@;
        let mut out: Vec<(Value, Value)> = Vec::new();
        let mut i: usize = 0;
        while i < self.entries.len()
            invariant
                i <= self.entries.len(),
                rt0 == old(rt)@,
                eval_entries(*host, self.entries@, i as nat, rt0, frame, depth as nat) == (
                    rt@,
                    Ok::<Seq<(Value, Value)>, RunErrorV>(out@),
                ),
            decreases self.entries.len() - i,
        {
            assert(decreases_to!(*self => self.entries@));
            assert(decreases_to!(self.entries@ => self.entries@[i as int]));
            assert(decreases_to!(self.entries@[i as int] => self.entries@[i as int].1));
            match self.entries[i].1.eval(rt, frame, depth, host) {
                Ok(v) => {
                    out.push((Value::String(self.entries[i].0.clone()), v));
                },
                Err(e) => {
                    proof {
                        lemma_entries_fail(
                            *host,
                            self.entries@,
                            (i + 1) as nat,
                            self.entries@.len(),
                            rt0,
                            frame,
                            depth as nat,
                        );
                    }
                    return Err(e);
                },
            }
            i += 1;
        }
        Ok(Value::Dict(rt.heap.alloc_map(MapValue::from_entries(out))))
    }
}

impl Element {
    pub fn eval<H: NativeHost>(&self, rt: &mut Runtime, frame: usize, depth: u64, host: &H) -> (r:
        Result<Value, RunError>)
        ensures
            (final(rt)@, res_view(r)) == eval_element(*host, *self, old(rt)@, frame, depth as nat),
        decreases 3 * depth + 2, *self, 0nat,
    {
        let container = match self.container.eval(rt, frame, depth, host) {
            Ok(v) => v,
            Err(e) => {
                return Err(e);
            },
        };
        let index = match self.index.eval(rt, frame, depth, host) {
            Ok(v) => v,
            Err(e) => {
                return Err(e);
            },
        };
        container.get_element(&rt.heap, &index, &self.loc)
    }
}

impl FuncCall {
    pub fn eval<H: NativeHost>(&self, rt: &mut Runtime, frame: usize, depth: u64, host: &H) -> (r:
        Result<Value, RunError>)
        ensures
            (final(rt)@, res_view(r)) == eval_call(*host, *self, old(rt)@, frame, depth as nat),
        decreases 3 * depth + 2, *self, 0nat,
    {
        let func = match self.func.eval(rt, frame, depth, host) {
            Ok(v) => v,
            Err(e) => {
                return Err(e);
            },
        };
        let args = match eval_exprs(&self.args, rt, frame, depth, host) {
            Ok(v) => v,
            Err(e) => {
                return Err(e);
            },
        };
        crate::exec::run_function(&func, args.as_slice(), rt, frame, depth, &self.loc, host)
    }
}

impl ElemAssign {
    pub fn eval<H: NativeHost>(&self, rt: &mut Runtime, frame: usize, depth: u64, host: &H) -> (r:
        Result<Value, RunError>)
        ensures
            (final(rt)@, res_view(r)) == eval_elem_assign(
                *host,
                *self,
                old(rt)@,
                frame,
                depth as nat,
            ),
        decreases 3 * depth + 2, *self, 0nat,
    {
        let c = match self.container.eval(rt, frame, depth, host) {
            Ok(v) => v,
            Err(e) => {
                return Err(e);
            },
        };
        let index = match self.index.eval(rt, frame, depth, host) {
            Ok(v) => v,
            Err(e) => {
                return Err(e);
            },
        };
        let val = match self.val.eval(rt, frame, depth, host) {
            Ok(v) => v,
            Err(e) => {
                return Err(e);
            },
        };
        match c.set_element(&mut rt.heap, index, val.clone(), &self.loc) {
            Ok(()) => Ok(val),
            Err(e) => Err(e),
        }
    }
}

impl VarAssign {
    pub fn eval<H: NativeHost>(&self, rt: &mut Runtime, frame: usize, depth: u64, host: &H) -> (r:
        Result<Value, RunError>)
        ensures
            (final(rt)@, res_view(r)) == eval_var_assign(
                *host,
                *self,
                old(rt)@,
                frame,
                depth as nat,
            ),
        decreases 3 * depth + 2, *self, 0nat,
    {
        let val = match self.val.eval(rt, frame, depth, host) {
            Ok(v) => v,
            Err(e) => {
                return Err(e);
            },
        };
        match rt.env.set_value(frame, self.var_index, self.env_index, val.clone()) {
            Ok(()) => Ok(val),
            Err(e) => Err(e),
        }
    }
}

impl BinaryOp {
    pub fn eval<H: NativeHost>(&self, rt: &mut Runtime, frame: usize, depth: u64, host: &H) -> (r:
        Result<Value, RunError>)
        ensures
            (final(rt)@, res_view(r)) == eval_binary(*host, *self, old(rt)@, frame, depth as nat),
        decreases 3 * depth + 2, *self, 0nat,
    {
        let func = match rt.env.get_value(frame, self.val_index, self.env_index) {
            Ok(v) => v,
            Err(e) => {
                return Err(e);
            },
        };
        let left = match self.left.eval(rt, frame, depth, host) {
            Ok(v) => v,
            Err(e) => {
                return Err(e);
            },
        };
        let right = match self.right.eval(rt, frame, depth, host) {
            Ok(v) => v,
            Err(e) => {
                return Err(e);
            },
        };
        let mut args: Vec<Value> = Vec::new();
        args.push(left);
        args.push(right);
        assert(args@ =~= seq![left, right]);
        crate::exec::run_function(&func, args.as_slice(), rt, frame, depth, &self.loc, host)
    }
}

impl PrefixOp {
    pub fn eval<H: NativeHost>(&self, rt: &mut Runtime, frame: usize, depth: u64, host: &H) -> (r:
        Result<Value, RunError>)
        ensures
            (final(rt)@, res_view(r)) == eval_prefix(*host, *self, old(rt)@, frame, depth as nat),
        decreases 3 * depth + 2, *self, 0nat,
    {
        let func = match rt.env.get_value(frame, self.val_index, self.env_index) {
            Ok(v) => v,
            Err(e) => {
                return Err(e);
            },
        };
        let arg = match self.arg.eval(rt, frame, depth, host) {
            Ok(v) => v,
            Err(e) => {
                return Err(e);
            },
        };
        let mut args: Vec<Value> = Vec::new();
        args.push(arg);
        assert(args@ =~= seq![arg]);
        crate::exec::run_function(&func, args.as_slice(), rt, frame, depth, &self.loc, host)
    }
}

impl FuncDef {
    /// The closure of `func` over `frame`. Fails with a panic when no
    /// closure identity is left.
    pub fn eval(func: Rc<FuncDef>, rt: &mut Runtime, frame: usize) -> (r: Result<Value, RunError>)
        ensures
            (final(rt)@, res_view(r)) == eval_func_def(func, old(rt)@, frame),
    {
        match rt.heap.fresh_id() {
            Some(id) => Ok(Value::ASTClosure(Closure::new(func, frame, id))),
            None => Err(RunError::new_panic(None, "out of closure identities")),
        }
    }
}

} // verus!
