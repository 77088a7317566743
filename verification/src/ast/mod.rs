//! The syntax tree as the parser leaves it, the scope resolver that binds
//! its identifiers, and the compiler that lowers it to instructions.
pub mod analysis;
pub mod expressions;
pub mod statements;
pub mod resolve;
pub mod codegen;
pub mod tree;
pub mod legality;

pub use self::expressions::{
    BinaryOp, Element, Expression, FuncCall, MapLiteral, PrefixOp, VecLiteral,
};
pub use self::statements::{
    Block, FuncDef, IfStatement, NamedFuncDef, ReturnStatement, Statement, VarDecl, WhileStatement,
};
