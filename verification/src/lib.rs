//! Voltage: lexer, parser, bytecode compiler and stack machine of a small
//! imperative language, with machine-checked contracts.
//!
//! Source text becomes tokens ([`lexer`]), tokens become a tree
//! ([`parser`]), the functions of the tree are put in the order in which
//! they are compiled ([`program`]), a function's tree becomes bytecode and
//! constants ([`compiler`]), and the bytecode runs on the stack machine
//! ([`vm`]).
//! Each stage is specified by spec functions on mathematical models of its
//! data, and the executable code is proved to compute them.

pub mod analysis;
pub mod ast;
pub mod bytecode;
pub mod compiler;
mod copies;
pub mod lexer;
pub mod parser;
pub mod program;
pub mod text;
pub mod token;
pub mod value;
pub mod vm;

pub use ast::{
    BinaryOp, EnumPattern, Expression, Function, Literal, Statement, Type, TypedExpression,
    TypedFunction, TypedStatement,
};
pub use bytecode::Bytecode;
pub use compiler::{BytecodeCompiler, CompileError};
pub use lexer::{LexError, Lexer};
pub use parser::{Expected, ParseError, Parser};
pub use token::Token;
pub use value::RuntimeValue;
pub use vm::{RuntimeError, Step, VirtualMachine};
