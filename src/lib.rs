//! A tree-walking evaluator for a small dynamically typed expression
//! language. Programs arrive as trees; evaluation computes values, binds
//! names, builds and calls closures, and collects printed text.
pub mod ast;
pub mod value;
pub mod text;
pub mod semantics;
pub mod interp;
pub mod laws;

pub use ast::{Binary, BinaryOp, Bool, Call, File, Function, If, Int, Let, Parameter, Print, Str, Term, Var};
pub use interp::{eval, run, run_file, DEFAULT_DEPTH};
pub use semantics::EvalError;
pub use value::{Scope, Val};
