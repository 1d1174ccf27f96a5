//! The front end and execution core of a small expression language: a
//! precedence-climbing parser with error recovery, a compiler to a compact
//! bytecode with a constant pool, and a stack machine that runs it.
use vstd::prelude::*;

pub mod args;
pub mod ast;
pub mod chunk;
pub mod compiler;
pub mod escape;
pub mod literal;
pub mod parser;
pub mod pretty;
pub mod report;
pub mod span;
pub mod text;
pub mod token;
pub mod types;
pub mod value;
pub mod vm;

verus! {

} // verus!
