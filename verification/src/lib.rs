//! An interpreter for the Monkey scripting language.
//!
//! Source text is lexed into tokens, parsed into an abstract syntax tree by a
//! Pratt (top-down operator precedence) parser, and evaluated by a
//! tree-walking evaluator with lexically scoped environments.  A small
//! bytecode layer holds the beginnings of an instruction encoder.

pub mod ast;
pub mod code;
pub mod compiler;
pub mod evaluator;
pub mod lexer;
pub mod object;
pub mod parser;
pub mod strutil;
pub mod token;
