//! Syntax trees as specifications speak of them: texts in place of
//! strings, sequences in place of vectors.
use vstd::prelude::*;
use crate::ast::expressions::Expression;
use crate::ast::statements::{Block, FuncDef, NamedFuncDef, Statement};
use crate::src_loc::SrcLocV;

verus! {

/// An expression.
pub enum ExprV {
    Number(u64, SrcLocV),
    String(Seq<char>, SrcLocV),
    Ident(Seq<char>, SrcLocV),
    /// The elements.
    Vec(Seq<ExprV>, SrcLocV),
    /// The entries: key and value.
    Dict(Seq<(Seq<char>, ExprV)>, SrcLocV),
    /// The container and the index.
    Element(Box<ExprV>, Box<ExprV>, SrcLocV),
    /// The operator, the left and the right operand.
    BinaryOp(Seq<char>, Box<ExprV>, Box<ExprV>, SrcLocV),
    /// The operator and the operand.
    PrefixOp(Seq<char>, Box<ExprV>, SrcLocV),
    /// The function and the arguments.
    FuncCall(Box<ExprV>, Seq<ExprV>),
    FuncDef(Box<FuncV>),
}

/// A statement.
pub enum StmtV {
    Expression(ExprV),
    Empty,
    Block(BlockV),
    /// The name and the initializer.
    VarDecl(Seq<char>, Option<ExprV>, SrcLocV),
    /// The test, the first and the second branch.
    If(ExprV, Box<StmtV>, Option<Box<StmtV>>, SrcLocV),
    /// The test and the body.
    While(ExprV, Box<StmtV>, SrcLocV),
    Break(SrcLocV),
    Return(Option<ExprV>, SrcLocV),
}

/// A block: its statements, and the place of its `{`.
pub struct BlockV {
    pub stmts: Seq<StmtV>,
    pub loc: SrcLocV,
}

/// A function: the names of its parameters and its body.
pub struct FuncV {
    pub params: Seq<Seq<char>>,
    pub block: BlockV,
    pub loc: SrcLocV,
}

/// A function with its name.
pub struct NamedFuncV {
    pub name: Seq<char>,
    pub def: FuncV,
}

/// The texts of `names`.
pub open spec fn texts(names: Seq<String>) -> Seq<Seq<char>> {
    names.map_values(|s: String| s@)
}

/// The expression `e`, as specifications speak of it.
pub open spec fn expr_view(e: Expression) -> ExprV
    decreases e, 0nat,
{
    match e {
        Expression::Number(n, loc) => ExprV::Number(n, loc@),
        Expression::String(s, loc) => ExprV::String(s@, loc@),
        Expression::Ident(s, loc) => ExprV::Ident(s@, loc@),
        Expression::Vec(v) => ExprV::Vec(exprs_view(v.vec@), v.loc@),
        Expression::Dict(m) => ExprV::Dict(entries_view(m.entries@), m.loc@),
        Expression::Element(el) => ExprV::Element(
            Box::new(expr_view(*el.container)),
            Box::new(expr_view(*el.index)),
            el.loc@,
        ),
        Expression::BinaryOp(op) => ExprV::BinaryOp(
            op.op@,
            Box::new(expr_view(*op.left)),
            Box::new(expr_view(*op.right)),
            op.loc@,
        ),
        Expression::PrefixOp(op) => ExprV::PrefixOp(op.op@, Box::new(expr_view(*op.arg)), op.loc@),
        Expression::FuncCall(c) => ExprV::FuncCall(
            Box::new(expr_view(*c.func)),
            exprs_view(c.args@),
        ),
        Expression::FuncDef(f) => ExprV::FuncDef(Box::new(func_view(*f))),
    }
}

/// The expressions `es`, one by one.
pub open spec fn exprs_view(es: Seq<Expression>) -> Seq<ExprV>
    decreases es, 0nat,
{
    Seq::new(
        es.len(),
        |i: int|
            if 0 <= i < es.len() {
                expr_view(es[i])
            } else {
                ExprV::Number(0, SrcLocV { filename: Seq::empty(), line_num: 0, col_num: 0 })
            },
    )
}

/// The entries `es`, one by one.
pub open spec fn entries_view(es: Seq<(String, Expression)>) -> Seq<(Seq<char>, ExprV)>
    decreases es, 0nat,
{
    Seq::new(
        es.len(),
        |i: int|
            if 0 <= i < es.len() {
                (es[i].0@, expr_view(es[i].1))
            } else {
                (Seq::empty(), ExprV::Number(0, SrcLocV { filename: Seq::empty(), line_num: 0, col_num: 0 }))
            },
    )
}

/// The function `f`, as specifications speak of it.
pub open spec fn func_view(f: FuncDef) -> FuncV
    decreases f, 0nat,
{
    FuncV { params: texts(f.params@), block: block_view(*f.block), loc: f.loc@ }
}

/// The block `b`, as specifications speak of it.
pub open spec fn block_view(b: Block) -> BlockV
    decreases b, 0nat,
{
    BlockV { stmts: stmts_view(b.stmts@), loc: b.loc@ }
}

/// The statements `ss`, one by one.
pub open spec fn stmts_view(ss: Seq<Statement>) -> Seq<StmtV>
    decreases ss, 0nat,
{
    Seq::new(
        ss.len(),
        |i: int|
            if 0 <= i < ss.len() {
                stmt_view(ss[i])
            } else {
                StmtV::Empty
            },
    )
}

/// The statement `s`, as specifications speak of it.
pub open spec fn stmt_view(s: Statement) -> StmtV
    decreases s, 0nat,
{
    match s {
        Statement::Expression(e) => StmtV::Expression(expr_view(e)),
        Statement::Empty => StmtV::Empty,
        Statement::Block(b) => StmtV::Block(block_view(b)),
        Statement::VarDecl(d) => StmtV::VarDecl(
            d.var@,
            match d.val {
                Some(e) => Some(expr_view(*e)),
                None => None,
            },
            d.loc@,
        ),
        Statement::If(i) => StmtV::If(
            expr_view(*i.test),
            Box::new(stmt_view(*i.true_stmt)),
            match i.false_stmt {
                Some(f) => Some(Box::new(stmt_view(*f))),
                None => None,
            },
            i.loc@,
        ),
        Statement::While(w) => StmtV::While(
            expr_view(*w.test),
            Box::new(stmt_view(*w.stmt)),
            w.loc@,
        ),
        Statement::Break(loc) => StmtV::Break(loc@),
        Statement::Return(r) => StmtV::Return(
            match r.expr {
                Some(e) => Some(expr_view(*e)),
                None => None,
            },
            r.loc@,
        ),
    }
}

/// The named function `f`, as specifications speak of it.
pub open spec fn named_view(f: NamedFuncDef) -> NamedFuncV {
    NamedFuncV { name: f.name@, def: func_view(*f.def) }
}

/// The named functions `fs`, one by one.
pub open spec fn named_views(fs: Seq<NamedFuncDef>) -> Seq<NamedFuncV> {
    fs.map_values(|f: NamedFuncDef| named_view(f))
}

} // verus!
