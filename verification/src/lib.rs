//! Parser front end for the Noise document-query language.
//!
//! A query string such as `find {"hello": == "world"} order .hello limit 10`
//! is turned into a typed abstract syntax tree ([`ast::Token`]) or a
//! [`error::ParseError`].  The grammar (operator precedence, negation sugar,
//! boosting, binding, the `return` sub-language) is specified by pure
//! specification functions, and every executable parser function is proved to
//! agree with them.

pub mod ast;
mod chars;
pub mod error;
pub mod filter;
pub mod laws;
pub mod lex;
pub mod ret;
mod num;
pub mod query;
pub mod render;
pub mod value;
