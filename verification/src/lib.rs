//! Front end of a small expression language: a lexer, operator-precedence
//! tables, and a recursive-descent / precedence-climbing parser that turns
//! source text into a syntax tree together with an ordered list of
//! diagnostics. Parsing never fails: every malformed construct degrades into
//! a diagnostic plus a synthesized placeholder token, so a tree is always
//! produced.

pub mod ast;
pub mod diagnostics;
pub mod laws;
pub mod lexer;
pub mod parser;
pub mod syntax_kind;
pub mod syntax_tree;
pub mod token;
