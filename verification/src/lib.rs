//! A lossless tokenizer and syntax-tree toolkit for Lua.

pub mod position;
pub mod text;
pub mod symbol;
pub mod versions;
pub mod tokenizer;
pub mod grammar;
pub mod scan;
pub mod source;
pub mod lexer;
pub mod symbol_text;
pub mod error;
pub mod parser_structs;
pub mod node;
pub mod span;
pub mod ast;
pub mod syntax;
pub mod util;
pub mod visitors;
pub mod language;
pub mod parse;
