//! Douglang: the language, its parser, its memory, and the bookkeeping of its interpreter.
pub mod ast;
pub mod compiler;
pub mod dougterface;
pub mod interpreter;
pub mod lexer;
pub mod parser;
pub mod runtime;
pub mod text;
pub mod token;
pub mod values;
