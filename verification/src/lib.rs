//! Front end of a small scripting language: a lexical scanner that turns
//! source text into tokens, a recursive-descent parser that turns tokens into
//! an abstract syntax tree, and the visitor protocol through which consumers
//! walk the tree.

pub mod ast;
pub mod chars;
pub mod laws;
pub mod parser;
pub mod tokenizer;
