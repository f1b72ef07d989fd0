//! Front end of the Oxygen compiler: source text is cut into tokens and the
//! tokens are assembled into a syntax tree.
//!
//! Every executable function is proved against a mathematical model: text is a
//! `Seq<char>`, a token stream is a `Seq<TokenView>`, a tree is an
//! `ExpressionView`, and the messages sent to the user are a `Seq<Seq<char>>`.

pub mod arguments;
pub mod ast;
pub mod chars;
pub mod error;
pub mod grammar;
pub mod lexer;
pub mod parser;
pub mod scan;
pub mod text;
pub mod token;
