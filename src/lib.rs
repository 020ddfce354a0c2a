//! An interpreter for a small Lua-like scripting language: a lexer, a recursive-descent parser
//! and a tree-walking evaluator, each proved against a mathematical model of its behaviour.
pub mod ast;
pub mod eval;
pub mod grammar;
pub mod interp;
pub mod laws;
pub mod lex;
pub mod numeric;
pub mod parser;
pub mod semantics;
pub mod text;
pub mod token;
pub mod vm;
