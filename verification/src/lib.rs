//! Front end of a small Lua-like scripting language: a lexer that turns
//! source bytes into tokens, and a recursive-descent parser that builds an
//! abstract syntax tree with line spans for diagnostics.

pub mod ast;
pub mod lex;
pub mod parse;
