//! Front end of a compiler for a small indentation-sensitive language:
//! a character-level tokenizer with exact position tracking, and a
//! type-inference/type-checking walk over the abstract syntax tree.

pub mod chars;
pub mod tokens;
pub mod lexer;
pub mod ast;
pub mod checker;
