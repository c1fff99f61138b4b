//! Statement-level parser for a batch-script compiler front end.
//!
//! The library consumes a flat, already-tokenized stream and produces one
//! abstract-syntax-tree node per recognized statement. Every function is
//! verified against a mathematical model of the pass: `model::parse_spec`
//! says, token by token, what the parser returns.

pub mod ast;
pub mod laws;
pub mod model;
pub mod parser;
pub mod text;
pub mod token;

pub use ast::ParseError;
pub use ast::Redirection;
pub use ast::RedirectionKind;
pub use ast::Statement;
pub use parser::parse;
pub use parser::parse_redirections;
pub use token::Token;
pub use token::TokenInfo;
