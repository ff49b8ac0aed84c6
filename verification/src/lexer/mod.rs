//! The lexer: from source text to tokens.

pub mod emitter;
pub mod error;
pub mod reader;
pub mod rules;
pub mod scanner;

pub use crate::lexer::scanner::run;
