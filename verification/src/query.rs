//! The query assembler: `find <filter>` followed, in this fixed order, by
//! optional `order`, `return` and `limit` clauses, each at most once, with
//! nothing left over.

use vstd::prelude::*;
use vstd::string::StrSliceExecFns;
use crate::ast::Node;
use crate::ast::Token;
use crate::ast::model;
use crate::ast::models;
use crate::chars::str_to_chars;
use crate::chars::vec_eq_str;
use crate::error::ParseError;
use crate::filter::p_or;
use crate::filter::sp_or;
use crate::lex::LexV;
use crate::lex::Lexeme;
use crate::lex::lex;
use crate::lex::lexv;
use crate::lex::sp_lex;
use crate::num::all_digits;
use crate::num::chars_to_u64;
use crate::num::digits_val;
use crate::ret::p_order_items;
use crate::ret::p_ret;
use crate::ret::sp_order_items;
use crate::ret::sp_ret;

verus! {

/// Whether a lexeme is the identifier `w` (keywords are contextual, so this
/// is checked only in clause-start position).
pub open spec fn is_kw(l: LexV, w: Seq<char>) -> bool {
    match l {
        LexV::Ident(t) => t == w,
        _ => false,
    }
}

/// The clauses after the filter: optional `order`, `return` and `limit`, in
/// that order, then the end of the input.
pub open spec fn sp_clauses(ts: Seq<LexV>, i: int, f: Node) -> Option<Node> {
    let ostep: Option<(Seq<Node>, int)> = if 0 <= i < ts.len() && is_kw(ts[i], "order"@) {
        sp_order_items(ts, i + 1, Seq::empty())
    } else {
        Option::Some((Seq::empty(), i))
    };
    match ostep {
        Option::None => Option::None,
        Option::Some((orders, i2)) => {
            let rstep: Option<(Option<Node>, int)> = if 0 <= i2 < ts.len() && is_kw(
                ts[i2],
                "return"@,
            ) {
                match sp_ret(ts, i2 + 1) {
                    Option::Some((x, j)) => Option::Some((Option::Some(x), j)),
                    Option::None => Option::None,
                }
            } else {
                Option::Some((Option::None, i2))
            };
            match rstep {
                Option::None => Option::None,
                Option::Some((ret, i3)) => {
                    let lstep: Option<(Option<Node>, int)> = if 0 <= i3 < ts.len() && is_kw(
                        ts[i3],
                        "limit"@,
                    ) {
                        if i3 + 1 < ts.len() {
                            match ts[i3 + 1] {
                                LexV::Number(text) => if text.len() > 0 && all_digits(text)
                                    && digits_val(text) <= u64::MAX {
                                    Option::Some(
                                        (
                                            Option::Some(
                                                Node::Limit(digits_val(text) as u64),
                                            ),
                                            i3 + 2,
                                        ),
                                    )
                                } else {
                                    Option::None
                                },
                                _ => Option::None,
                            }
                        } else {
                            Option::None
                        }
                    } else {
                        Option::Some((Option::None, i3))
                    };
                    match lstep {
                        Option::None => Option::None,
                        Option::Some((lim, i4)) => if i4 == ts.len() {
                            Option::Some(
                                Node::Noise(
                                    Box::new(f),
                                    orders,
                                    match ret {
                                        Option::Some(x) => Option::Some(Box::new(x)),
                                        Option::None => Option::None,
                                    },
                                    match lim {
                                        Option::Some(x) => Option::Some(Box::new(x)),
                                        Option::None => Option::None,
                                    },
                                ),
                            )
                        } else {
                            Option::None
                        },
                    }
                },
            }
        },
    }
}

/// The tree a lexeme stream parses to, or `None` when it is not a
/// well-formed query sentence.
pub open spec fn sp_query(ts: Seq<LexV>) -> Option<Node> {
    if ts.len() == 0 {
        Option::None
    } else if is_kw(ts[0], "find"@) {
        match sp_or(ts, 1) {
            Option::Some((f, i)) => sp_clauses(ts, i, f),
            Option::None => Option::None,
        }
    } else {
        Option::None
    }
}

/// The tree a query string parses to, or `None` when it is malformed: first
/// the lexer, then the query grammar.
pub open spec fn parse_spec(s: Seq<char>) -> Option<Node> {
    match sp_lex(s, 0) {
        Option::None => Option::None,
        Option::Some(ts) => sp_query(ts),
    }
}

/// Whether a lexeme is the identifier `w`.
fn kw(l: &Lexeme, w: &str) -> (r: bool)
    ensures
        r == is_kw(crate::lex::model_lex(*l), w@),
{
    match l {
        Lexeme::Ident(t) => vec_eq_str(t, w),
        _ => false,
    }
}

/// Parses a whole lexeme stream as one query sentence.
fn p_query(ts: &Vec<Lexeme>) -> (r: Result<Token, ParseError>)
    ensures
        r matches Ok(t) ==> sp_query(lexv(ts@)) == Option::Some(model(t)),
        r is Err ==> sp_query(lexv(ts@)) is None,
{
    if ts.len() == 0 {
        return Err(ParseError::Structure { pos: 0 });
    }
    if !kw(&ts[0], "find") {
        return Err(ParseError::Structure { pos: 0 });
    }
    match p_or(ts, 1) {
        Ok((f, i)) => p_clauses(ts, i, f),
        Err(e) => Err(e),
    }
}

/// Parses the optional `order`, `return` and `limit` clauses and the end of
/// the input.
#[verifier::rlimit(100)]
#[verifier::spinoff_prover]
fn p_clauses(ts: &Vec<Lexeme>, i: usize, f: Token) -> (r: Result<Token, ParseError>)
    requires
        i <= ts@.len(),
    ensures
        r matches Ok(t) ==> sp_clauses(lexv(ts@), i as int, model(f)) == Option::Some(model(t)),
        r is Err ==> sp_clauses(lexv(ts@), i as int, model(f)) is None,
{
    proof {
        reveal_with_fuel(model, 3);
    }
    let (orders, i2): (Vec<Token>, usize) = if i < ts.len() && kw(&ts[i], "order") {
        proof {
            assert(models(Seq::<Token>::empty()) =~= Seq::<Node>::empty());
        }
        match p_order_items(ts, i + 1, Vec::new()) {
            Ok(p) => p,
            Err(e) => {
                return Err(e);
            },
        }
    } else {
        (Vec::new(), i)
    };
    proof {
        assert(models(Seq::<Token>::empty()) =~= Seq::<Node>::empty());
    }
    let (ret, i3): (Option<Token>, usize) = if i2 < ts.len() && kw(&ts[i2], "return") {
        match p_ret(ts, i2 + 1) {
            Ok((x, j)) => (Some(x), j),
            Err(e) => {
                return Err(e);
            },
        }
    } else {
        (None, i2)
    };
    let (lim, i4): (Option<Token>, usize) = if i3 < ts.len() && kw(&ts[i3], "limit") {
        if i3 + 1 < ts.len() {
            match &ts[i3 + 1] {
                Lexeme::Number(text) => {
                    if text.len() == 0 {
                        return Err(ParseError::Structure { pos: i3 + 1 });
                    }
                    proof {
                        assert(text@.subrange(0, text@.len() as int) =~= text@);
                    }
                    match chars_to_u64(text, 0, text.len()) {
                        Some(n) => (Some(Token::Limit(n)), i3 + 2),
                        None => {
                            return Err(ParseError::Structure { pos: i3 + 1 });
                        },
                    }
                },
                _ => {
                    return Err(ParseError::Structure { pos: i3 + 1 });
                },
            }
        } else {
            return Err(ParseError::Structure { pos: i3 });
        }
    } else {
        (None, i3)
    };
    if i4 != ts.len() {
        return Err(ParseError::Structure { pos: i4 });
    }
    Ok(Token::Noise(Box::new(f), orders, Box::new(ret), Box::new(lim)))
}

/// Parses one Noise query sentence.
///
/// Returns the query tree exactly when the input is a sentence of the query
/// grammar ([`parse_spec`]); every failure — malformed token, value, filter,
/// clause, or trailing input — is an `Err`, never a partial tree.
pub fn parse_noise(input: &str) -> (r: Result<Token, ParseError>)
    ensures
        r matches Ok(t) ==> parse_spec(input@) == Option::Some(model(t)),
        r is Err ==> parse_spec(input@) is None,
{
    let chars = str_to_chars(input);
    match lex(&chars) {
        Err(e) => Err(e),
        Ok(ts) => p_query(&ts),
    }
}

/// Whether a line of a query file is a comment: it starts with `#`.
pub fn is_comment_line(line: &str) -> (r: bool)
    ensures
        r == (line@.len() > 0 && line@[0] == '#'),
{
    if line.unicode_len() == 0 {
        false
    } else {
        line.get_char(0) == '#'
    }
}

} // verus!
