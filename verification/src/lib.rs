//! Front end for the Nemet language: a lexer that turns a byte buffer into
//! located tokens, and a recursive-descent parser that turns the token stream
//! into a `Program` syntax tree.
//!
//! Every executable function is verified against a mathematical model: the
//! lexer against `spec_next_token`, the parsers against spec-level parsing
//! functions over the same byte sequence.  Lexical and syntax failures are
//! structured error values — nothing in this library panics or exits.

pub mod ast;
pub mod lexer;
pub mod parser;
pub mod token;
