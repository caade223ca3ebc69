//! The value parser: one JSON-like literal at the cursor.
//!
//! Recognizes `null`, `true`/`false`, quoted strings (never coerced: a
//! numeric-looking quoted string stays a string), numbers, `@name`
//! parameters, arrays, and single-pair objects (`{}` is the explicit
//! empty-object marker).

use vstd::prelude::*;
use crate::ast::Node;
use crate::ast::Token;
use crate::ast::model;
use crate::ast::models;
use crate::ast::lemma_models_push;
use crate::chars::vec_eq_str;
use crate::chars::vec_to_string;
use crate::error::ParseError;
use crate::lex::LexV;
use crate::lex::Lexeme;
use crate::lex::lexv;

verus! {

/// The literal value starting at token `i`, with the position after it.
pub open spec fn sp_value(ts: Seq<LexV>, i: int) -> Option<(Node, int)>
    decreases ts.len() - i, 1int,
{
    if !(0 <= i < ts.len()) {
        Option::None
    } else {
        match ts[i] {
            LexV::Ident(w) => if w == "null"@ {
                Option::Some((Node::JsonNull, i + 1))
            } else if w == "true"@ {
                Option::Some((Node::JsonBool(true), i + 1))
            } else if w == "false"@ {
                Option::Some((Node::JsonBool(false), i + 1))
            } else {
                Option::None
            },
            LexV::Text(t) => Option::Some((Node::JsonString(t), i + 1)),
            LexV::Number(t) => Option::Some((Node::JsonNumber(t), i + 1)),
            LexV::AtSign => if i + 1 < ts.len() {
                match ts[i + 1] {
                    LexV::Ident(name) => Option::Some((Node::Parameter(name), i + 2)),
                    _ => Option::None,
                }
            } else {
                Option::None
            },
            LexV::BraceOpen => sp_value_object(ts, i + 1),
            LexV::BracketOpen => if i + 1 < ts.len() && ts[i + 1] is BracketClose {
                Option::Some((Node::JsonArray(Seq::empty()), i + 2))
            } else {
                match sp_value(ts, i + 1) {
                    Option::Some((first, j)) => if i + 1 < j <= ts.len() {
                        sp_value_list(ts, j, seq![first])
                    } else {
                        Option::None
                    },
                    Option::None => Option::None,
                }
            },
            _ => Option::None,
        }
    }
}

/// The rest of an object literal, the cursor standing right after `{`.
/// An object literal is empty or holds exactly one `key: value` pair.
pub open spec fn sp_value_object(ts: Seq<LexV>, i: int) -> Option<(Node, int)>
    decreases ts.len() - i, 0int,
{
    if !(0 <= i < ts.len()) {
        Option::None
    } else if ts[i] is BraceClose {
        Option::Some((Node::JsonObjectEmpty, i + 1))
    } else {
        let key = match ts[i] {
            LexV::Ident(w) => Option::Some(w),
            LexV::Text(t) => Option::Some(t),
            _ => Option::None,
        };
        match key {
            Option::None => Option::None,
            Option::Some(key) => if i + 1 < ts.len() && ts[i + 1] is Colon {
                match sp_value(ts, i + 2) {
                    Option::Some((v, j)) => if j < ts.len() && ts[j] is BraceClose {
                        Option::Some((Node::JsonObject(key, Box::new(v)), j + 1))
                    } else {
                        Option::None
                    },
                    Option::None => Option::None,
                }
            } else {
                Option::None
            },
        }
    }
}

/// The rest of an array literal, the cursor standing right after a parsed
/// element, `acc` holding the elements so far.
pub open spec fn sp_value_list(ts: Seq<LexV>, i: int, acc: Seq<Node>) -> Option<(Node, int)>
    decreases ts.len() - i, 0int,
{
    if !(0 <= i < ts.len()) {
        Option::None
    } else if ts[i] is BracketClose {
        Option::Some((Node::JsonArray(acc), i + 1))
    } else if ts[i] is Comma {
        match sp_value(ts, i + 1) {
            Option::Some((el, j)) => if i + 1 < j <= ts.len() {
                sp_value_list(ts, j, acc.push(el))
            } else {
                Option::None
            },
            Option::None => Option::None,
        }
    } else {
        Option::None
    }
}

/// Parses one literal value at token `i`.
pub(crate) fn p_value(ts: &Vec<Lexeme>, i: usize) -> (r: Result<(Token, usize), ParseError>)
    requires
        i <= ts@.len(),
    ensures
        r matches Ok(p) ==> sp_value(lexv(ts@), i as int) == Option::Some(
            (model(p.0), p.1 as int),
        ) && i < p.1 <= ts@.len(),
        r is Err ==> sp_value(lexv(ts@), i as int) is None,
    decreases ts@.len() - i, 1int,
{
    if i >= ts.len() {
        return Err(ParseError::Value { pos: i });
    }
    match &ts[i] {
        Lexeme::Ident(w) => {
            if vec_eq_str(w, "null") {
                Ok((Token::JsonNull, i + 1))
            } else if vec_eq_str(w, "true") {
                Ok((Token::JsonBool(true), i + 1))
            } else if vec_eq_str(w, "false") {
                Ok((Token::JsonBool(false), i + 1))
            } else {
                Err(ParseError::Value { pos: i })
            }
        },
        Lexeme::Text(t) => Ok((Token::JsonString(vec_to_string(t)), i + 1)),
        Lexeme::Number(t) => Ok((Token::JsonNumber(vec_to_string(t)), i + 1)),
        Lexeme::AtSign => {
            if i + 1 < ts.len() {
                match &ts[i + 1] {
                    Lexeme::Ident(name) => Ok((Token::Parameter(vec_to_string(name)), i + 2)),
                    _ => Err(ParseError::Value { pos: i }),
                }
            } else {
                Err(ParseError::Value { pos: i })
            }
        },
        Lexeme::BraceOpen => p_value_object(ts, i + 1),
        Lexeme::BracketOpen => {
            if i + 1 < ts.len() && matches!(&ts[i + 1], Lexeme::BracketClose) {
                proof {
                    assert(models(Seq::<Token>::empty()) =~= Seq::<Node>::empty());
                }
                return Ok((Token::JsonArray(Vec::new()), i + 2));
            }
            match p_value(ts, i + 1) {
                Ok((first, j)) => {
                    let mut acc: Vec<Token> = Vec::new();
                    proof {
                        lemma_models_push(Seq::<Token>::empty(), first);
                        assert(models(Seq::<Token>::empty()) =~= Seq::<Node>::empty());
                        assert(Seq::<Node>::empty().push(model(first)) =~= seq![model(first)]);
                    }
                    acc.push(first);
                    p_value_list(ts, j, acc)
                },
                Err(e) => Err(e),
            }
        },
        _ => Err(ParseError::Value { pos: i }),
    }
}

/// Parses the rest of an object literal, the cursor right after `{`.
fn p_value_object(ts: &Vec<Lexeme>, i: usize) -> (r: Result<(Token, usize), ParseError>)
    requires
        i <= ts@.len(),
    ensures
        r matches Ok(p) ==> sp_value_object(lexv(ts@), i as int) == Option::Some(
            (model(p.0), p.1 as int),
        ) && i < p.1 <= ts@.len(),
        r is Err ==> sp_value_object(lexv(ts@), i as int) is None,
    decreases ts@.len() - i, 0int,
{
    if i >= ts.len() {
        return Err(ParseError::Value { pos: i });
    }
    if matches!(&ts[i], Lexeme::BraceClose) {
        return Ok((Token::JsonObjectEmpty, i + 1));
    }
    let key: String = match &ts[i] {
        Lexeme::Ident(w) => vec_to_string(w),
        Lexeme::Text(t) => vec_to_string(t),
        _ => {
            return Err(ParseError::Value { pos: i });
        },
    };
    if !(i + 1 < ts.len() && matches!(&ts[i + 1], Lexeme::Colon)) {
        return Err(ParseError::Value { pos: i });
    }
    match p_value(ts, i + 2) {
        Ok((v, j)) => {
            if j < ts.len() && matches!(&ts[j], Lexeme::BraceClose) {
                Ok((Token::JsonObject(key, Box::new(v)), j + 1))
            } else {
                Err(ParseError::Value { pos: j })
            }
        },
        Err(e) => Err(e),
    }
}

/// Parses the rest of an array literal, the cursor right after an element.
fn p_value_list(ts: &Vec<Lexeme>, i: usize, acc: Vec<Token>) -> (r: Result<
    (Token, usize),
    ParseError,
>)
    requires
        i <= ts@.len(),
    ensures
        r matches Ok(p) ==> sp_value_list(lexv(ts@), i as int, models(acc@)) == Option::Some(
            (model(p.0), p.1 as int),
        ) && i < p.1 <= ts@.len(),
        r is Err ==> sp_value_list(lexv(ts@), i as int, models(acc@)) is None,
    decreases ts@.len() - i, 0int,
{
    if i >= ts.len() {
        return Err(ParseError::Value { pos: i });
    }
    if matches!(&ts[i], Lexeme::BracketClose) {
        return Ok((Token::JsonArray(acc), i + 1));
    }
    if !matches!(&ts[i], Lexeme::Comma) {
        return Err(ParseError::Value { pos: i });
    }
    match p_value(ts, i + 1) {
        Ok((el, j)) => {
            let mut acc = acc;
            proof {
                lemma_models_push(acc@, el);
            }
            acc.push(el);
            p_value_list(ts, j, acc)
        },
        Err(e) => Err(e),
    }
}

} // verus!
