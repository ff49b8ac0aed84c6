//! A tree-walking interpreter for a small dynamically typed scripting
//! language: tokens, a recursive-descent parser, a stack of lexical scopes,
//! an object model of functions, classes and instances, and an evaluator
//! that runs as a machine of single steps.

pub mod interpreter;
pub mod lexer;
pub mod memory;
pub mod number;
pub mod object;
pub mod parser;
pub mod text;
pub mod token;
pub mod value;
