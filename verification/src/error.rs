//! The error value a failed parse returns.  A failure never yields a partial
//! tree: the whole parse returns `Err`.

use vstd::prelude::*;
use vstd::string::StringExecFns;
use crate::chars::push_chars;
use crate::num::dec_rep;
use crate::num::u64_to_chars;

verus! {

/// Why and roughly where a parse failed.
///
/// A lexical error carries the character offset of the offending character;
/// the other kinds carry the index of the offending token in the token
/// stream.
#[derive(Debug, PartialEq)]
pub enum ParseError {
    /// Malformed token in the input text.
    Lex { pos: usize },
    /// Malformed literal value.
    Value { pos: usize },
    /// Malformed `find` filter expression.
    Filter { pos: usize },
    /// Malformed `return` expression.
    Return { pos: usize },
    /// Malformed `order` clause.
    Order { pos: usize },
    /// Missing `find`, clauses repeated or out of order, or trailing input.
    Structure { pos: usize },
}

/// The text of an error's human-readable message.
pub open spec fn message_spec(e: ParseError) -> Seq<char> {
    match e {
        ParseError::Lex { pos } => "malformed token at character "@ + dec_rep(pos as nat),
        ParseError::Value { pos } => "malformed value at token "@ + dec_rep(pos as nat),
        ParseError::Filter { pos } => "malformed filter at token "@ + dec_rep(pos as nat),
        ParseError::Return { pos } => "malformed return clause at token "@ + dec_rep(pos as nat),
        ParseError::Order { pos } => "malformed order clause at token "@ + dec_rep(pos as nat),
        ParseError::Structure { pos } => "malformed query structure at token "@ + dec_rep(
            pos as nat,
        ),
    }
}

impl ParseError {
    /// A human-readable description of the failure.
    pub fn message(&self) -> (out: String)
        ensures
            out@ == message_spec(*self),
    {
        let (head, pos): (&str, usize) = match self {
            ParseError::Lex { pos } => ("malformed token at character ", *pos),
            ParseError::Value { pos } => ("malformed value at token ", *pos),
            ParseError::Filter { pos } => ("malformed filter at token ", *pos),
            ParseError::Return { pos } => ("malformed return clause at token ", *pos),
            ParseError::Order { pos } => ("malformed order clause at token ", *pos),
            ParseError::Structure { pos } => ("malformed query structure at token ", *pos),
        };
        let mut out = String::from_str(head);
        let digits = u64_to_chars(pos as u64);
        push_chars(&mut out, &digits);
        out
    }
}

} // verus!
