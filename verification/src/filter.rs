//! The filter parser: the boolean match expression following `find`.
//!
//! Binding strength, tightest first: boost suffixes (`^N`), comma/`&&`
//! conjunction, `||` disjunction.  Chains fold left-associatively into
//! strictly binary `And`/`Or` trees.  `!=`, `!~=` and `!~N=` desugar into
//! `Not(..)` around the positive comparison.

use vstd::prelude::*;
use crate::ast::Node;
use crate::ast::OperatorType;
use crate::ast::Token;
use crate::ast::model;
use crate::ast::model_key;
use crate::chars::vec_to_string;
use crate::error::ParseError;
use crate::lex::LexV;
use crate::lex::Lexeme;
use crate::lex::lexv;
use crate::num::all_digits;
use crate::num::chars_to_u64;
use crate::num::digits_val;
use crate::value::p_value;
use crate::value::sp_value;

verus! {

/// The comparison operator a single lexeme stands for, if any.
pub open spec fn sp_op_of(l: LexV) -> Option<OperatorType> {
    match l {
        LexV::EqEq => Option::Some(OperatorType::Equal),
        LexV::Gt => Option::Some(OperatorType::Greater),
        LexV::Ge => Option::Some(OperatorType::GreaterEqual),
        LexV::Lt => Option::Some(OperatorType::Less),
        LexV::Le => Option::Some(OperatorType::LessEqual),
        LexV::NotEq => Option::Some(OperatorType::NotEqual),
        LexV::WordOp(slop) => Option::Some(OperatorType::WordMatch(slop)),
        _ => Option::None,
    }
}

/// The tree a comparison builds: the negated operators desugar into `Not`
/// around the positive comparison.
pub open spec fn sp_apply_op(op: OperatorType, key: Option<Seq<char>>, v: Node) -> Node {
    match op {
        OperatorType::Equal => Node::Equal(key, Box::new(v)),
        OperatorType::Greater => Node::Greater(key, Box::new(v)),
        OperatorType::GreaterEqual => Node::GreaterEqual(key, Box::new(v)),
        OperatorType::Intersect => Node::Intersect(key, Box::new(v)),
        OperatorType::Less => Node::Less(key, Box::new(v)),
        OperatorType::LessEqual => Node::LessEqual(key, Box::new(v)),
        OperatorType::NotEqual => Node::Not(Box::new(Node::Equal(key, Box::new(v)))),
        OperatorType::WordMatch(slop) => Node::WordMatch(key, slop, Box::new(v)),
        OperatorType::NotWordMatch(slop) => Node::Not(
            Box::new(Node::WordMatch(key, slop, Box::new(v))),
        ),
    }
}

/// An optional `^N` boost suffix wrapping the already-parsed tree `t`.
pub open spec fn sp_boost(ts: Seq<LexV>, i: int, t: Node) -> Option<(Node, int)> {
    if 0 <= i < ts.len() && ts[i] is Caret {
        if i + 1 < ts.len() {
            match ts[i + 1] {
                LexV::Number(text) => if text.len() > 0 && all_digits(text) && digits_val(text)
                    <= u64::MAX {
                    Option::Some((Node::Boost(digits_val(text) as u64, Box::new(t)), i + 2))
                } else {
                    Option::None
                },
                _ => Option::None,
            }
        } else {
            Option::None
        }
    } else {
        Option::Some((t, i))
    }
}

/// A bounding box `[a, b, c, d]` of four number literals, the cursor at `[`.
pub open spec fn sp_bbox(ts: Seq<LexV>, i: int) -> Option<(Node, int)> {
    if 0 <= i && i + 8 < ts.len() {
        if ts[i] is BracketOpen && ts[i + 2] is Comma && ts[i + 4] is Comma && ts[i + 6] is Comma
            && ts[i + 8] is BracketClose {
            match (ts[i + 1], ts[i + 3], ts[i + 5], ts[i + 7]) {
                (LexV::Number(a), LexV::Number(b), LexV::Number(c), LexV::Number(d)) =>
                    Option::Some((Node::Bbox(a, b, c, d), i + 9)),
                _ => Option::None,
            }
        } else {
            Option::None
        }
    } else {
        Option::None
    }
}

/// A whole filter expression: `||`-chained conjunctions.
pub open spec fn sp_or(ts: Seq<LexV>, i: int) -> Option<(Node, int)>
    decreases ts.len() - i, 9int,
{
    match sp_and(ts, i) {
        Option::Some((x, j)) => if i < j <= ts.len() {
            sp_or_rest(ts, j, x)
        } else {
            Option::None
        },
        Option::None => Option::None,
    }
}

/// The rest of a `||` chain, folding left onto `acc`.
pub open spec fn sp_or_rest(ts: Seq<LexV>, j: int, acc: Node) -> Option<(Node, int)>
    decreases ts.len() - j, 9int,
{
    if 0 <= j < ts.len() && ts[j] is PipePipe {
        match sp_and(ts, j + 1) {
            Option::Some((x, k)) => if j + 1 < k <= ts.len() {
                sp_or_rest(ts, k, Node::Or(Box::new(acc), Box::new(x)))
            } else {
                Option::None
            },
            Option::None => Option::None,
        }
    } else {
        Option::Some((acc, j))
    }
}

/// A `&&`-chained sequence of primaries.
pub open spec fn sp_and(ts: Seq<LexV>, i: int) -> Option<(Node, int)>
    decreases ts.len() - i, 8int,
{
    match sp_fprimary(ts, i) {
        Option::Some((x, j)) => if i < j <= ts.len() {
            sp_and_rest(ts, j, x)
        } else {
            Option::None
        },
        Option::None => Option::None,
    }
}

/// The rest of a `&&` chain, folding left onto `acc`.
pub open spec fn sp_and_rest(ts: Seq<LexV>, j: int, acc: Node) -> Option<(Node, int)>
    decreases ts.len() - j, 8int,
{
    if 0 <= j < ts.len() && ts[j] is AmpAmp {
        match sp_fprimary(ts, j + 1) {
            Option::Some((x, k)) => if j + 1 < k <= ts.len() {
                sp_and_rest(ts, k, Node::And(Box::new(acc), Box::new(x)))
            } else {
                Option::None
            },
            Option::None => Option::None,
        }
    } else {
        Option::Some((acc, j))
    }
}

/// A filter primary: an object filter, a parenthesized expression, a negated
/// primary, or a (possibly bound) array filter — with an optional boost.
pub open spec fn sp_fprimary(ts: Seq<LexV>, i: int) -> Option<(Node, int)>
    decreases ts.len() - i, 7int,
{
    if !(0 <= i < ts.len()) {
        Option::None
    } else {
        match ts[i] {
            LexV::BraceOpen => match sp_object(ts, i + 1) {
                Option::Some((x, j)) => sp_boost(ts, j, x),
                Option::None => Option::None,
            },
            LexV::ParenOpen => match sp_or(ts, i + 1) {
                Option::Some((x, j)) => if j < ts.len() && ts[j] is ParenClose {
                    sp_boost(ts, j + 1, x)
                } else {
                    Option::None
                },
                Option::None => Option::None,
            },
            LexV::Bang => match sp_fprimary(ts, i + 1) {
                Option::Some((x, j)) => Option::Some((Node::Not(Box::new(x)), j)),
                Option::None => Option::None,
            },
            LexV::BracketOpen => match sp_array(ts, i + 1) {
                Option::Some((x, j)) => sp_boost(ts, j, x),
                Option::None => Option::None,
            },
            LexV::Ident(name) => if i + 2 < ts.len() && ts[i + 1] is DoubleColon && ts[i + 2]
                is BracketOpen {
                match sp_array(ts, i + 3) {
                    Option::Some((x, j)) => sp_boost(ts, j, Node::Bind(name, Box::new(x))),
                    Option::None => Option::None,
                }
            } else {
                Option::None
            },
            _ => Option::None,
        }
    }
}

/// The contents and closing brace of an object filter, the cursor right
/// after `{`.  An empty object is the match-everything filter `All`.
pub open spec fn sp_object(ts: Seq<LexV>, i: int) -> Option<(Node, int)>
    decreases ts.len() - i, 6int,
{
    if !(0 <= i < ts.len()) {
        Option::None
    } else if ts[i] is BraceClose {
        Option::Some((Node::All, i + 1))
    } else {
        match sp_obj_or(ts, i) {
            Option::Some((x, j)) => if j < ts.len() && ts[j] is BraceClose {
                Option::Some((x, j + 1))
            } else {
                Option::None
            },
            Option::None => Option::None,
        }
    }
}

/// A `||` chain of field-clause conjunctions inside an object filter.
pub open spec fn sp_obj_or(ts: Seq<LexV>, i: int) -> Option<(Node, int)>
    decreases ts.len() - i, 5int,
{
    match sp_obj_and(ts, i) {
        Option::Some((x, j)) => if i < j <= ts.len() {
            sp_obj_or_rest(ts, j, x)
        } else {
            Option::None
        },
        Option::None => Option::None,
    }
}

/// The rest of a `||` chain inside an object filter.
pub open spec fn sp_obj_or_rest(ts: Seq<LexV>, j: int, acc: Node) -> Option<(Node, int)>
    decreases ts.len() - j, 5int,
{
    if 0 <= j < ts.len() && ts[j] is PipePipe {
        match sp_obj_and(ts, j + 1) {
            Option::Some((x, k)) => if j + 1 < k <= ts.len() {
                sp_obj_or_rest(ts, k, Node::Or(Box::new(acc), Box::new(x)))
            } else {
                Option::None
            },
            Option::None => Option::None,
        }
    } else {
        Option::Some((acc, j))
    }
}

/// A comma/`&&` chain of field clauses inside an object filter; both
/// separators mean conjunction.
pub open spec fn sp_obj_and(ts: Seq<LexV>, i: int) -> Option<(Node, int)>
    decreases ts.len() - i, 4int,
{
    match sp_obj_item(ts, i) {
        Option::Some((x, j)) => if i < j <= ts.len() {
            sp_obj_and_rest(ts, j, x)
        } else {
            Option::None
        },
        Option::None => Option::None,
    }
}

/// The rest of a comma/`&&` chain inside an object filter.
pub open spec fn sp_obj_and_rest(ts: Seq<LexV>, j: int, acc: Node) -> Option<(Node, int)>
    decreases ts.len() - j, 4int,
{
    if 0 <= j < ts.len() && (ts[j] is Comma || ts[j] is AmpAmp) {
        match sp_obj_item(ts, j + 1) {
            Option::Some((x, k)) => if j + 1 < k <= ts.len() {
                sp_obj_and_rest(ts, k, Node::And(Box::new(acc), Box::new(x)))
            } else {
                Option::None
            },
            Option::None => Option::None,
        }
    } else {
        Option::Some((acc, j))
    }
}

/// One item inside an object filter: a parenthesized group (with optional
/// boost), a negated item, or a `key: operator-clause` field clause.  An
/// empty field key is rejected.
pub open spec fn sp_obj_item(ts: Seq<LexV>, i: int) -> Option<(Node, int)>
    decreases ts.len() - i, 3int,
{
    if !(0 <= i < ts.len()) {
        Option::None
    } else {
        match ts[i] {
            LexV::ParenOpen => match sp_obj_or(ts, i + 1) {
                Option::Some((x, j)) => if j < ts.len() && ts[j] is ParenClose {
                    sp_boost(ts, j + 1, x)
                } else {
                    Option::None
                },
                Option::None => Option::None,
            },
            LexV::Bang => match sp_obj_item(ts, i + 1) {
                Option::Some((x, j)) => Option::Some((Node::Not(Box::new(x)), j)),
                Option::None => Option::None,
            },
            LexV::Ident(key) => if key.len() > 0 && i + 1 < ts.len() && ts[i + 1] is Colon {
                sp_opclause(ts, i + 2, key)
            } else {
                Option::None
            },
            LexV::Text(key) => if key.len() > 0 && i + 1 < ts.len() && ts[i + 1] is Colon {
                sp_opclause(ts, i + 2, key)
            } else {
                Option::None
            },
            _ => Option::None,
        }
    }
}

/// What follows `key:` in a field clause: a comparison, a nested object or
/// array filter (possibly negated or bound), or a bounding-box intersect.
pub open spec fn sp_opclause(ts: Seq<LexV>, i: int, key: Seq<char>) -> Option<(Node, int)>
    decreases ts.len() - i, 3int,
{
    if !(0 <= i < ts.len()) {
        Option::None
    } else if sp_op_of(ts[i]) is Some {
        let op = sp_op_of(ts[i])->0;
        match sp_value(ts, i + 1) {
            Option::Some((v, j)) => sp_boost(ts, j, sp_apply_op(op, Option::Some(key), v)),
            Option::None => Option::None,
        }
    } else {
        match ts[i] {
            LexV::BraceOpen => match sp_object(ts, i + 1) {
                Option::Some((x, j)) => match sp_boost(ts, j, x) {
                    Option::Some((b, k)) => Option::Some(
                        (Node::Object(key, Box::new(b)), k),
                    ),
                    Option::None => Option::None,
                },
                Option::None => Option::None,
            },
            LexV::BracketOpen => match sp_array(ts, i + 1) {
                Option::Some((x, j)) => match sp_boost(ts, j, x) {
                    Option::Some((b, k)) => Option::Some(
                        (Node::Object(key, Box::new(b)), k),
                    ),
                    Option::None => Option::None,
                },
                Option::None => Option::None,
            },
            LexV::Bang => sp_opclause_neg(ts, i + 1, key),
            LexV::ParenOpen => match sp_object_paren(ts, i + 1) {
                Option::Some((x, j)) => match sp_boost(ts, j, x) {
                    Option::Some((b, k)) => Option::Some(
                        (Node::Object(key, Box::new(b)), k),
                    ),
                    Option::None => Option::None,
                },
                Option::None => Option::None,
            },
            LexV::AmpAmp => match sp_bbox(ts, i + 1) {
                Option::Some((bb, j)) => sp_boost(
                    ts,
                    j,
                    Node::Intersect(Option::Some(key), Box::new(bb)),
                ),
                Option::None => Option::None,
            },
            LexV::Ident(name) => if i + 2 < ts.len() && ts[i + 1] is DoubleColon && ts[i + 2]
                is BracketOpen {
                match sp_array(ts, i + 3) {
                    Option::Some((x, j)) => match sp_boost(
                        ts,
                        j,
                        Node::Bind(name, Box::new(x)),
                    ) {
                        Option::Some((b, k)) => Option::Some(
                            (Node::Object(key, Box::new(b)), k),
                        ),
                        Option::None => Option::None,
                    },
                    Option::None => Option::None,
                }
            } else {
                Option::None
            },
            _ => Option::None,
        }
    }
}

/// A negated field-clause value, the cursor right after the `!`: a negated
/// word match, or `Not` around a nested object, parenthesized object, or
/// array filter.
pub open spec fn sp_opclause_neg(ts: Seq<LexV>, i: int, key: Seq<char>) -> Option<(Node, int)>
    decreases ts.len() - i, 3int,
{
    if !(0 <= i < ts.len()) {
        Option::None
    } else {
        match ts[i] {
            LexV::WordOp(slop) => match sp_value(ts, i + 1) {
                Option::Some((v, j)) => sp_boost(
                    ts,
                    j,
                    sp_apply_op(OperatorType::NotWordMatch(slop), Option::Some(key), v),
                ),
                Option::None => Option::None,
            },
            LexV::BraceOpen => match sp_object(ts, i + 1) {
                Option::Some((x, j)) => match sp_boost(ts, j, Node::Not(Box::new(x))) {
                    Option::Some((b, k)) => Option::Some(
                        (Node::Object(key, Box::new(b)), k),
                    ),
                    Option::None => Option::None,
                },
                Option::None => Option::None,
            },
            LexV::ParenOpen => match sp_object_paren(ts, i + 1) {
                Option::Some((x, j)) => match sp_boost(ts, j, Node::Not(Box::new(x))) {
                    Option::Some((b, k)) => Option::Some(
                        (Node::Object(key, Box::new(b)), k),
                    ),
                    Option::None => Option::None,
                },
                Option::None => Option::None,
            },
            LexV::BracketOpen => match sp_array(ts, i + 1) {
                Option::Some((x, j)) => match sp_boost(ts, j, Node::Not(Box::new(x))) {
                    Option::Some((b, k)) => Option::Some(
                        (Node::Object(key, Box::new(b)), k),
                    ),
                    Option::None => Option::None,
                },
                Option::None => Option::None,
            },
            _ => Option::None,
        }
    }
}

/// A parenthesized object filter in a field-clause value position:
/// `({ ... })`, the cursor right after `(`.
pub open spec fn sp_object_paren(ts: Seq<LexV>, i: int) -> Option<(Node, int)>
    decreases ts.len() - i, 2int,
{
    if 0 <= i < ts.len() && ts[i] is BraceOpen {
        match sp_object(ts, i + 1) {
            Option::Some((x, j)) => if j < ts.len() && ts[j] is ParenClose {
                Option::Some((x, j + 1))
            } else {
                Option::None
            },
            Option::None => Option::None,
        }
    } else {
        Option::None
    }
}

/// The contents and closing bracket of an array filter, the cursor right
/// after `[`.
pub open spec fn sp_array(ts: Seq<LexV>, i: int) -> Option<(Node, int)>
    decreases ts.len() - i, 6int,
{
    match sp_arr_or(ts, i) {
        Option::Some((x, j)) => if j < ts.len() && ts[j] is BracketClose {
            Option::Some((Node::Array(Box::new(x)), j + 1))
        } else {
            Option::None
        },
        Option::None => Option::None,
    }
}

/// A `||` chain of element-clause conjunctions inside an array filter.
pub open spec fn sp_arr_or(ts: Seq<LexV>, i: int) -> Option<(Node, int)>
    decreases ts.len() - i, 5int,
{
    match sp_arr_and(ts, i) {
        Option::Some((x, j)) => if i < j <= ts.len() {
            sp_arr_or_rest(ts, j, x)
        } else {
            Option::None
        },
        Option::None => Option::None,
    }
}

/// The rest of a `||` chain inside an array filter.
pub open spec fn sp_arr_or_rest(ts: Seq<LexV>, j: int, acc: Node) -> Option<(Node, int)>
    decreases ts.len() - j, 5int,
{
    if 0 <= j < ts.len() && ts[j] is PipePipe {
        match sp_arr_and(ts, j + 1) {
            Option::Some((x, k)) => if j + 1 < k <= ts.len() {
                sp_arr_or_rest(ts, k, Node::Or(Box::new(acc), Box::new(x)))
            } else {
                Option::None
            },
            Option::None => Option::None,
        }
    } else {
        Option::Some((acc, j))
    }
}

/// A comma/`&&` chain of element clauses inside an array filter.
pub open spec fn sp_arr_and(ts: Seq<LexV>, i: int) -> Option<(Node, int)>
    decreases ts.len() - i, 4int,
{
    match sp_arr_item(ts, i) {
        Option::Some((x, j)) => if i < j <= ts.len() {
            sp_arr_and_rest(ts, j, x)
        } else {
            Option::None
        },
        Option::None => Option::None,
    }
}

/// The rest of a comma/`&&` chain inside an array filter.
pub open spec fn sp_arr_and_rest(ts: Seq<LexV>, j: int, acc: Node) -> Option<(Node, int)>
    decreases ts.len() - j, 4int,
{
    if 0 <= j < ts.len() && (ts[j] is Comma || ts[j] is AmpAmp) {
        match sp_arr_item(ts, j + 1) {
            Option::Some((x, k)) => if j + 1 < k <= ts.len() {
                sp_arr_and_rest(ts, k, Node::And(Box::new(acc), Box::new(x)))
            } else {
                Option::None
            },
            Option::None => Option::None,
        }
    } else {
        Option::Some((acc, j))
    }
}

/// One element clause inside an array filter: a keyless comparison, a nested
/// object or array filter (possibly negated or bound) — with an optional
/// boost.
pub open spec fn sp_arr_item(ts: Seq<LexV>, i: int) -> Option<(Node, int)>
    decreases ts.len() - i, 3int,
{
    if !(0 <= i < ts.len()) {
        Option::None
    } else if sp_op_of(ts[i]) is Some {
        let op = sp_op_of(ts[i])->0;
        match sp_value(ts, i + 1) {
            Option::Some((v, j)) => sp_boost(ts, j, sp_apply_op(op, Option::None, v)),
            Option::None => Option::None,
        }
    } else {
        match ts[i] {
            LexV::BraceOpen => match sp_object(ts, i + 1) {
                Option::Some((x, j)) => sp_boost(ts, j, x),
                Option::None => Option::None,
            },
            LexV::BracketOpen => match sp_array(ts, i + 1) {
                Option::Some((x, j)) => sp_boost(ts, j, x),
                Option::None => Option::None,
            },
            LexV::Bang => if i + 1 < ts.len() {
                match ts[i + 1] {
                    LexV::BraceOpen => match sp_object(ts, i + 2) {
                        Option::Some((x, j)) => sp_boost(ts, j, Node::Not(Box::new(x))),
                        Option::None => Option::None,
                    },
                    LexV::BracketOpen => match sp_array(ts, i + 2) {
                        Option::Some((x, j)) => sp_boost(ts, j, Node::Not(Box::new(x))),
                        Option::None => Option::None,
                    },
                    LexV::WordOp(slop) => match sp_value(ts, i + 2) {
                        Option::Some((v, j)) => sp_boost(
                            ts,
                            j,
                            sp_apply_op(OperatorType::NotWordMatch(slop), Option::None, v),
                        ),
                        Option::None => Option::None,
                    },
                    _ => Option::None,
                }
            } else {
                Option::None
            },
            LexV::Ident(name) => if i + 2 < ts.len() && ts[i + 1] is DoubleColon && ts[i + 2]
                is BracketOpen {
                match sp_array(ts, i + 3) {
                    Option::Some((x, j)) => sp_boost(ts, j, Node::Bind(name, Box::new(x))),
                    Option::None => Option::None,
                }
            } else {
                Option::None
            },
            _ => Option::None,
        }
    }
}

/// The comparison operator a single lexeme stands for, if any.
fn op_of(l: &Lexeme) -> (r: Option<OperatorType>)
    ensures
        r == sp_op_of(model_lex_of(l)),
{
    match l {
        Lexeme::EqEq => Some(OperatorType::Equal),
        Lexeme::Gt => Some(OperatorType::Greater),
        Lexeme::Ge => Some(OperatorType::GreaterEqual),
        Lexeme::Lt => Some(OperatorType::Less),
        Lexeme::Le => Some(OperatorType::LessEqual),
        Lexeme::NotEq => Some(OperatorType::NotEqual),
        Lexeme::WordOp(slop) => Some(OperatorType::WordMatch(*slop)),
        _ => None,
    }
}

/// The model of a borrowed lexeme.
pub open spec fn model_lex_of(l: &Lexeme) -> LexV {
    crate::lex::model_lex(*l)
}

/// Builds the comparison node for `op`, desugaring the negated operators.
fn apply_op(op: OperatorType, key: Option<String>, v: Token) -> (t: Token)
    ensures
        model(t) == sp_apply_op(op, model_key(key), model(v)),
{
    proof {
        reveal_with_fuel(model, 3);
    }
    match op {
        OperatorType::Equal => Token::Equal(key, Box::new(v)),
        OperatorType::Greater => Token::Greater(key, Box::new(v)),
        OperatorType::GreaterEqual => Token::GreaterEqual(key, Box::new(v)),
        OperatorType::Intersect => Token::Intersect(key, Box::new(v)),
        OperatorType::Less => Token::Less(key, Box::new(v)),
        OperatorType::LessEqual => Token::LessEqual(key, Box::new(v)),
        OperatorType::NotEqual => Token::Not(Box::new(Token::Equal(key, Box::new(v)))),
        OperatorType::WordMatch(slop) => Token::WordMatch(key, slop, Box::new(v)),
        OperatorType::NotWordMatch(slop) => Token::Not(
            Box::new(Token::WordMatch(key, slop, Box::new(v))),
        ),
    }
}

/// Parses an optional `^N` boost suffix around the already-parsed `t`.
fn p_boost(ts: &Vec<Lexeme>, i: usize, t: Token) -> (r: Result<(Token, usize), ParseError>)
    requires
        i <= ts@.len(),
    ensures
        r matches Ok(p) ==> sp_boost(lexv(ts@), i as int, model(t)) == Option::Some(
            (model(p.0), p.1 as int),
        ) && i <= p.1 <= ts@.len(),
        r is Err ==> sp_boost(lexv(ts@), i as int, model(t)) is None,
{
    if i < ts.len() && matches!(&ts[i], Lexeme::Caret) {
        if i + 1 < ts.len() {
            match &ts[i + 1] {
                Lexeme::Number(text) => {
                    if text.len() == 0 {
                        return Err(ParseError::Filter { pos: i + 1 });
                    }
                    proof {
                        assert(text@.subrange(0, text@.len() as int) =~= text@);
                    }
                    match chars_to_u64(text, 0, text.len()) {
                        Some(n) => Ok((Token::Boost(n, Box::new(t)), i + 2)),
                        None => Err(ParseError::Filter { pos: i + 1 }),
                    }
                },
                _ => Err(ParseError::Filter { pos: i + 1 }),
            }
        } else {
            Err(ParseError::Filter { pos: i })
        }
    } else {
        Ok((t, i))
    }
}

/// Parses a bounding box `[a, b, c, d]`, the cursor at `[`.
fn p_bbox(ts: &Vec<Lexeme>, i: usize) -> (r: Result<(Token, usize), ParseError>)
    requires
        i <= ts@.len(),
    ensures
        r matches Ok(p) ==> sp_bbox(lexv(ts@), i as int) == Option::Some(
            (model(p.0), p.1 as int),
        ) && i < p.1 <= ts@.len(),
        r is Err ==> sp_bbox(lexv(ts@), i as int) is None,
{
    if !(ts.len() - i > 8) {
        return Err(ParseError::Filter { pos: i });
    }
    if !(matches!(&ts[i], Lexeme::BracketOpen) && matches!(&ts[i + 2], Lexeme::Comma) && matches!(
        &ts[i + 4],
        Lexeme::Comma,
    ) && matches!(&ts[i + 6], Lexeme::Comma) && matches!(&ts[i + 8], Lexeme::BracketClose)) {
        return Err(ParseError::Filter { pos: i });
    }
    match (&ts[i + 1], &ts[i + 3], &ts[i + 5], &ts[i + 7]) {
        (Lexeme::Number(a), Lexeme::Number(b), Lexeme::Number(c), Lexeme::Number(d)) => Ok(
            (
                Token::Bbox(
                    vec_to_string(a),
                    vec_to_string(b),
                    vec_to_string(c),
                    vec_to_string(d),
                ),
                i + 9,
            ),
        ),
        _ => Err(ParseError::Filter { pos: i }),
    }
}

/// Parses a whole filter expression at token `i`.
pub(crate) fn p_or(ts: &Vec<Lexeme>, i: usize) -> (r: Result<(Token, usize), ParseError>)
    requires
        i <= ts@.len(),
    ensures
        r matches Ok(p) ==> sp_or(lexv(ts@), i as int) == Option::Some(
            (model(p.0), p.1 as int),
        ) && i < p.1 <= ts@.len(),
        r is Err ==> sp_or(lexv(ts@), i as int) is None,
    decreases ts@.len() - i, 9int,
{
    match p_and(ts, i) {
        Ok((x, j)) => p_or_rest(ts, j, x),
        Err(e) => Err(e),
    }
}

/// Parses the rest of a top-level `||` chain.
#[verifier::rlimit(50)]
fn p_or_rest(ts: &Vec<Lexeme>, j: usize, acc: Token) -> (r: Result<(Token, usize), ParseError>)
    requires
        j <= ts@.len(),
    ensures
        r matches Ok(p) ==> sp_or_rest(lexv(ts@), j as int, model(acc)) == Option::Some(
            (model(p.0), p.1 as int),
        ) && j <= p.1 <= ts@.len(),
        r is Err ==> sp_or_rest(lexv(ts@), j as int, model(acc)) is None,
    decreases ts@.len() - j, 9int,
{
    if j < ts.len() && matches!(&ts[j], Lexeme::PipePipe) {
        match p_and(ts, j + 1) {
            Ok((x, k)) => p_or_rest(ts, k, Token::Or(Box::new(acc), Box::new(x))),
            Err(e) => Err(e),
        }
    } else {
        Ok((acc, j))
    }
}

/// Parses a top-level `&&` chain.
fn p_and(ts: &Vec<Lexeme>, i: usize) -> (r: Result<(Token, usize), ParseError>)
    requires
        i <= ts@.len(),
    ensures
        r matches Ok(p) ==> sp_and(lexv(ts@), i as int) == Option::Some(
            (model(p.0), p.1 as int),
        ) && i < p.1 <= ts@.len(),
        r is Err ==> sp_and(lexv(ts@), i as int) is None,
    decreases ts@.len() - i, 8int,
{
    match p_fprimary(ts, i) {
        Ok((x, j)) => p_and_rest(ts, j, x),
        Err(e) => Err(e),
    }
}

/// Parses the rest of a top-level `&&` chain.
fn p_and_rest(ts: &Vec<Lexeme>, j: usize, acc: Token) -> (r: Result<(Token, usize), ParseError>)
    requires
        j <= ts@.len(),
    ensures
        r matches Ok(p) ==> sp_and_rest(lexv(ts@), j as int, model(acc)) == Option::Some(
            (model(p.0), p.1 as int),
        ) && j <= p.1 <= ts@.len(),
        r is Err ==> sp_and_rest(lexv(ts@), j as int, model(acc)) is None,
    decreases ts@.len() - j, 8int,
{
    if j < ts.len() && matches!(&ts[j], Lexeme::AmpAmp) {
        match p_fprimary(ts, j + 1) {
            Ok((x, k)) => p_and_rest(ts, k, Token::And(Box::new(acc), Box::new(x))),
            Err(e) => Err(e),
        }
    } else {
        Ok((acc, j))
    }
}

/// Parses a filter primary.
#[verifier::rlimit(50)]
fn p_fprimary(ts: &Vec<Lexeme>, i: usize) -> (r: Result<(Token, usize), ParseError>)
    requires
        i <= ts@.len(),
    ensures
        r matches Ok(p) ==> sp_fprimary(lexv(ts@), i as int) == Option::Some(
            (model(p.0), p.1 as int),
        ) && i < p.1 <= ts@.len(),
        r is Err ==> sp_fprimary(lexv(ts@), i as int) is None,
    decreases ts@.len() - i, 7int,
{
    if i >= ts.len() {
        return Err(ParseError::Filter { pos: i });
    }
    match &ts[i] {
        Lexeme::BraceOpen => match p_object(ts, i + 1) {
            Ok((x, j)) => p_boost(ts, j, x),
            Err(e) => Err(e),
        },
        Lexeme::ParenOpen => match p_or(ts, i + 1) {
            Ok((x, j)) => {
                if j < ts.len() && matches!(&ts[j], Lexeme::ParenClose) {
                    p_boost(ts, j + 1, x)
                } else {
                    Err(ParseError::Filter { pos: j })
                }
            },
            Err(e) => Err(e),
        },
        Lexeme::Bang => match p_fprimary(ts, i + 1) {
            Ok((x, j)) => Ok((Token::Not(Box::new(x)), j)),
            Err(e) => Err(e),
        },
        Lexeme::BracketOpen => match p_array(ts, i + 1) {
            Ok((x, j)) => p_boost(ts, j, x),
            Err(e) => Err(e),
        },
        Lexeme::Ident(name) => {
            if ts.len() - i > 2 && matches!(&ts[i + 1], Lexeme::DoubleColon) && matches!(
                &ts[i + 2],
                Lexeme::BracketOpen,
            ) {
                let bound = vec_to_string(name);
                match p_array(ts, i + 3) {
                    Ok((x, j)) => p_boost(ts, j, Token::Bind(bound, Box::new(x))),
                    Err(e) => Err(e),
                }
            } else {
                Err(ParseError::Filter { pos: i })
            }
        },
        _ => Err(ParseError::Filter { pos: i }),
    }
}

/// Parses the contents and closing brace of an object filter.
fn p_object(ts: &Vec<Lexeme>, i: usize) -> (r: Result<(Token, usize), ParseError>)
    requires
        i <= ts@.len(),
    ensures
        r matches Ok(p) ==> sp_object(lexv(ts@), i as int) == Option::Some(
            (model(p.0), p.1 as int),
        ) && i < p.1 <= ts@.len(),
        r is Err ==> sp_object(lexv(ts@), i as int) is None,
    decreases ts@.len() - i, 6int,
{
    if i >= ts.len() {
        return Err(ParseError::Filter { pos: i });
    }
    if matches!(&ts[i], Lexeme::BraceClose) {
        return Ok((Token::All, i + 1));
    }
    match p_obj_or(ts, i) {
        Ok((x, j)) => {
            if j < ts.len() && matches!(&ts[j], Lexeme::BraceClose) {
                Ok((x, j + 1))
            } else {
                Err(ParseError::Filter { pos: j })
            }
        },
        Err(e) => Err(e),
    }
}

/// Parses a `||` chain inside an object filter.
fn p_obj_or(ts: &Vec<Lexeme>, i: usize) -> (r: Result<(Token, usize), ParseError>)
    requires
        i <= ts@.len(),
    ensures
        r matches Ok(p) ==> sp_obj_or(lexv(ts@), i as int) == Option::Some(
            (model(p.0), p.1 as int),
        ) && i < p.1 <= ts@.len(),
        r is Err ==> sp_obj_or(lexv(ts@), i as int) is None,
    decreases ts@.len() - i, 5int,
{
    match p_obj_and(ts, i) {
        Ok((x, j)) => p_obj_or_rest(ts, j, x),
        Err(e) => Err(e),
    }
}

/// Parses the rest of a `||` chain inside an object filter.
fn p_obj_or_rest(ts: &Vec<Lexeme>, j: usize, acc: Token) -> (r: Result<
    (Token, usize),
    ParseError,
>)
    requires
        j <= ts@.len(),
    ensures
        r matches Ok(p) ==> sp_obj_or_rest(lexv(ts@), j as int, model(acc)) == Option::Some(
            (model(p.0), p.1 as int),
        ) && j <= p.1 <= ts@.len(),
        r is Err ==> sp_obj_or_rest(lexv(ts@), j as int, model(acc)) is None,
    decreases ts@.len() - j, 5int,
{
    if j < ts.len() && matches!(&ts[j], Lexeme::PipePipe) {
        match p_obj_and(ts, j + 1) {
            Ok((x, k)) => p_obj_or_rest(ts, k, Token::Or(Box::new(acc), Box::new(x))),
            Err(e) => Err(e),
        }
    } else {
        Ok((acc, j))
    }
}

/// Parses a comma/`&&` chain inside an object filter.
fn p_obj_and(ts: &Vec<Lexeme>, i: usize) -> (r: Result<(Token, usize), ParseError>)
    requires
        i <= ts@.len(),
    ensures
        r matches Ok(p) ==> sp_obj_and(lexv(ts@), i as int) == Option::Some(
            (model(p.0), p.1 as int),
        ) && i < p.1 <= ts@.len(),
        r is Err ==> sp_obj_and(lexv(ts@), i as int) is None,
    decreases ts@.len() - i, 4int,
{
    match p_obj_item(ts, i) {
        Ok((x, j)) => p_obj_and_rest(ts, j, x),
        Err(e) => Err(e),
    }
}

/// Parses the rest of a comma/`&&` chain inside an object filter.
fn p_obj_and_rest(ts: &Vec<Lexeme>, j: usize, acc: Token) -> (r: Result<
    (Token, usize),
    ParseError,
>)
    requires
        j <= ts@.len(),
    ensures
        r matches Ok(p) ==> sp_obj_and_rest(lexv(ts@), j as int, model(acc)) == Option::Some(
            (model(p.0), p.1 as int),
        ) && j <= p.1 <= ts@.len(),
        r is Err ==> sp_obj_and_rest(lexv(ts@), j as int, model(acc)) is None,
    decreases ts@.len() - j, 4int,
{
    if j < ts.len() && (matches!(&ts[j], Lexeme::Comma) || matches!(&ts[j], Lexeme::AmpAmp)) {
        match p_obj_item(ts, j + 1) {
            Ok((x, k)) => p_obj_and_rest(ts, k, Token::And(Box::new(acc), Box::new(x))),
            Err(e) => Err(e),
        }
    } else {
        Ok((acc, j))
    }
}

/// Parses one item inside an object filter.
fn p_obj_item(ts: &Vec<Lexeme>, i: usize) -> (r: Result<(Token, usize), ParseError>)
    requires
        i <= ts@.len(),
    ensures
        r matches Ok(p) ==> sp_obj_item(lexv(ts@), i as int) == Option::Some(
            (model(p.0), p.1 as int),
        ) && i < p.1 <= ts@.len(),
        r is Err ==> sp_obj_item(lexv(ts@), i as int) is None,
    decreases ts@.len() - i, 3int,
{
    if i >= ts.len() {
        return Err(ParseError::Filter { pos: i });
    }
    match &ts[i] {
        Lexeme::ParenOpen => match p_obj_or(ts, i + 1) {
            Ok((x, j)) => {
                if j < ts.len() && matches!(&ts[j], Lexeme::ParenClose) {
                    p_boost(ts, j + 1, x)
                } else {
                    Err(ParseError::Filter { pos: j })
                }
            },
            Err(e) => Err(e),
        },
        Lexeme::Bang => match p_obj_item(ts, i + 1) {
            Ok((x, j)) => Ok((Token::Not(Box::new(x)), j)),
            Err(e) => Err(e),
        },
        Lexeme::Ident(key) => {
            if key.len() > 0 && i + 1 < ts.len() && matches!(&ts[i + 1], Lexeme::Colon) {
                let key = vec_to_string(key);
                p_opclause(ts, i + 2, key)
            } else {
                Err(ParseError::Filter { pos: i })
            }
        },
        Lexeme::Text(key) => {
            if key.len() > 0 && i + 1 < ts.len() && matches!(&ts[i + 1], Lexeme::Colon) {
                let key = vec_to_string(key);
                p_opclause(ts, i + 2, key)
            } else {
                Err(ParseError::Filter { pos: i })
            }
        },
        _ => Err(ParseError::Filter { pos: i }),
    }
}

/// Wraps a parsed field-clause value: optional boost, then the `Object`
/// node for `key`.
fn p_obj_wrap(ts: &Vec<Lexeme>, j: usize, key: String, x: Token) -> (r: Result<
    (Token, usize),
    ParseError,
>)
    requires
        j <= ts@.len(),
    ensures
        r matches Ok(p) ==> (sp_boost(lexv(ts@), j as int, model(x)) matches Option::Some(q)
            && model(p.0) == Node::Object(key@, Box::new(q.0)) && p.1 as int == q.1 && j <= p.1
            <= ts@.len()),
        r is Err ==> sp_boost(lexv(ts@), j as int, model(x)) is None,
{
    proof {
        reveal_with_fuel(model, 2);
    }
    match p_boost(ts, j, x) {
        Ok((b, k)) => Ok((Token::Object(key, Box::new(b)), k)),
        Err(e) => Err(e),
    }
}

/// Parses what follows `key:` in a field clause.
#[verifier::rlimit(100)]
#[verifier::spinoff_prover]
fn p_opclause(ts: &Vec<Lexeme>, i: usize, key: String) -> (r: Result<(Token, usize), ParseError>)
    requires
        i <= ts@.len(),
    ensures
        r matches Ok(p) ==> sp_opclause(lexv(ts@), i as int, key@) == Option::Some(
            (model(p.0), p.1 as int),
        ) && i < p.1 <= ts@.len(),
        r is Err ==> sp_opclause(lexv(ts@), i as int, key@) is None,
    decreases ts@.len() - i, 3int,
{
    if i >= ts.len() {
        return Err(ParseError::Filter { pos: i });
    }
    match op_of(&ts[i]) {
        Some(op) => {
            return match p_value(ts, i + 1) {
                Ok((v, j)) => p_boost(ts, j, apply_op(op, Some(key), v)),
                Err(e) => Err(e),
            };
        },
        None => {
        },
    }
    match &ts[i] {
        Lexeme::BraceOpen => match p_object(ts, i + 1) {
            Ok((x, j)) => p_obj_wrap(ts, j, key, x),
            Err(e) => Err(e),
        },
        Lexeme::BracketOpen => match p_array(ts, i + 1) {
            Ok((x, j)) => p_obj_wrap(ts, j, key, x),
            Err(e) => Err(e),
        },
        Lexeme::Bang => p_opclause_neg(ts, i + 1, key),
        Lexeme::ParenOpen => match p_object_paren(ts, i + 1) {
            Ok((x, j)) => p_obj_wrap(ts, j, key, x),
            Err(e) => Err(e),
        },
        Lexeme::AmpAmp => match p_bbox(ts, i + 1) {
            Ok((bb, j)) => p_boost(ts, j, Token::Intersect(Some(key), Box::new(bb))),
            Err(e) => Err(e),
        },
        Lexeme::Ident(name) => {
            if ts.len() - i > 2 && matches!(&ts[i + 1], Lexeme::DoubleColon) && matches!(
                &ts[i + 2],
                Lexeme::BracketOpen,
            ) {
                let bound = vec_to_string(name);
                match p_array(ts, i + 3) {
                    Ok((x, j)) => p_obj_wrap(ts, j, key, Token::Bind(bound, Box::new(x))),
                    Err(e) => Err(e),
                }
            } else {
                Err(ParseError::Filter { pos: i })
            }
        },
        _ => Err(ParseError::Filter { pos: i }),
    }
}

/// Parses a negated field-clause value, the cursor right after the `!`.
#[verifier::rlimit(60)]
fn p_opclause_neg(ts: &Vec<Lexeme>, i: usize, key: String) -> (r: Result<
    (Token, usize),
    ParseError,
>)
    requires
        i <= ts@.len(),
    ensures
        r matches Ok(p) ==> sp_opclause_neg(lexv(ts@), i as int, key@) == Option::Some(
            (model(p.0), p.1 as int),
        ) && i < p.1 <= ts@.len(),
        r is Err ==> sp_opclause_neg(lexv(ts@), i as int, key@) is None,
    decreases ts@.len() - i, 3int,
{
    if i >= ts.len() {
        return Err(ParseError::Filter { pos: i });
    }
    match &ts[i] {
        Lexeme::WordOp(slop) => {
            let slop = *slop;
            match p_value(ts, i + 1) {
                Ok((v, j)) => p_boost(
                    ts,
                    j,
                    apply_op(OperatorType::NotWordMatch(slop), Some(key), v),
                ),
                Err(e) => Err(e),
            }
        },
        Lexeme::BraceOpen => match p_object(ts, i + 1) {
            Ok((x, j)) => p_obj_wrap(ts, j, key, Token::Not(Box::new(x))),
            Err(e) => Err(e),
        },
        Lexeme::ParenOpen => match p_object_paren(ts, i + 1) {
            Ok((x, j)) => p_obj_wrap(ts, j, key, Token::Not(Box::new(x))),
            Err(e) => Err(e),
        },
        Lexeme::BracketOpen => match p_array(ts, i + 1) {
            Ok((x, j)) => p_obj_wrap(ts, j, key, Token::Not(Box::new(x))),
            Err(e) => Err(e),
        },
        _ => Err(ParseError::Filter { pos: i }),
    }
}

/// Parses `({ ... })` in a field-clause value position.
fn p_object_paren(ts: &Vec<Lexeme>, i: usize) -> (r: Result<(Token, usize), ParseError>)
    requires
        i <= ts@.len(),
    ensures
        r matches Ok(p) ==> sp_object_paren(lexv(ts@), i as int) == Option::Some(
            (model(p.0), p.1 as int),
        ) && i < p.1 <= ts@.len(),
        r is Err ==> sp_object_paren(lexv(ts@), i as int) is None,
    decreases ts@.len() - i, 2int,
{
    if i < ts.len() && matches!(&ts[i], Lexeme::BraceOpen) {
        match p_object(ts, i + 1) {
            Ok((x, j)) => {
                if j < ts.len() && matches!(&ts[j], Lexeme::ParenClose) {
                    Ok((x, j + 1))
                } else {
                    Err(ParseError::Filter { pos: j })
                }
            },
            Err(e) => Err(e),
        }
    } else {
        Err(ParseError::Filter { pos: i })
    }
}

/// Parses the contents and closing bracket of an array filter.
fn p_array(ts: &Vec<Lexeme>, i: usize) -> (r: Result<(Token, usize), ParseError>)
    requires
        i <= ts@.len(),
    ensures
        r matches Ok(p) ==> sp_array(lexv(ts@), i as int) == Option::Some(
            (model(p.0), p.1 as int),
        ) && i < p.1 <= ts@.len(),
        r is Err ==> sp_array(lexv(ts@), i as int) is None,
    decreases ts@.len() - i, 6int,
{
    match p_arr_or(ts, i) {
        Ok((x, j)) => {
            if j < ts.len() && matches!(&ts[j], Lexeme::BracketClose) {
                Ok((Token::Array(Box::new(x)), j + 1))
            } else {
                Err(ParseError::Filter { pos: j })
            }
        },
        Err(e) => Err(e),
    }
}

/// Parses a `||` chain inside an array filter.
fn p_arr_or(ts: &Vec<Lexeme>, i: usize) -> (r: Result<(Token, usize), ParseError>)
    requires
        i <= ts@.len(),
    ensures
        r matches Ok(p) ==> sp_arr_or(lexv(ts@), i as int) == Option::Some(
            (model(p.0), p.1 as int),
        ) && i < p.1 <= ts@.len(),
        r is Err ==> sp_arr_or(lexv(ts@), i as int) is None,
    decreases ts@.len() - i, 5int,
{
    match p_arr_and(ts, i) {
        Ok((x, j)) => p_arr_or_rest(ts, j, x),
        Err(e) => Err(e),
    }
}

/// Parses the rest of a `||` chain inside an array filter.
fn p_arr_or_rest(ts: &Vec<Lexeme>, j: usize, acc: Token) -> (r: Result<
    (Token, usize),
    ParseError,
>)
    requires
        j <= ts@.len(),
    ensures
        r matches Ok(p) ==> sp_arr_or_rest(lexv(ts@), j as int, model(acc)) == Option::Some(
            (model(p.0), p.1 as int),
        ) && j <= p.1 <= ts@.len(),
        r is Err ==> sp_arr_or_rest(lexv(ts@), j as int, model(acc)) is None,
    decreases ts@.len() - j, 5int,
{
    if j < ts.len() && matches!(&ts[j], Lexeme::PipePipe) {
        match p_arr_and(ts, j + 1) {
            Ok((x, k)) => p_arr_or_rest(ts, k, Token::Or(Box::new(acc), Box::new(x))),
            Err(e) => Err(e),
        }
    } else {
        Ok((acc, j))
    }
}

/// Parses a comma/`&&` chain inside an array filter.
fn p_arr_and(ts: &Vec<Lexeme>, i: usize) -> (r: Result<(Token, usize), ParseError>)
    requires
        i <= ts@.len(),
    ensures
        r matches Ok(p) ==> sp_arr_and(lexv(ts@), i as int) == Option::Some(
            (model(p.0), p.1 as int),
        ) && i < p.1 <= ts@.len(),
        r is Err ==> sp_arr_and(lexv(ts@), i as int) is None,
    decreases ts@.len() - i, 4int,
{
    match p_arr_item(ts, i) {
        Ok((x, j)) => p_arr_and_rest(ts, j, x),
        Err(e) => Err(e),
    }
}

/// Parses the rest of a comma/`&&` chain inside an array filter.
fn p_arr_and_rest(ts: &Vec<Lexeme>, j: usize, acc: Token) -> (r: Result<
    (Token, usize),
    ParseError,
>)
    requires
        j <= ts@.len(),
    ensures
        r matches Ok(p) ==> sp_arr_and_rest(lexv(ts@), j as int, model(acc)) == Option::Some(
            (model(p.0), p.1 as int),
        ) && j <= p.1 <= ts@.len(),
        r is Err ==> sp_arr_and_rest(lexv(ts@), j as int, model(acc)) is None,
    decreases ts@.len() - j, 4int,
{
    if j < ts.len() && (matches!(&ts[j], Lexeme::Comma) || matches!(&ts[j], Lexeme::AmpAmp)) {
        match p_arr_item(ts, j + 1) {
            Ok((x, k)) => p_arr_and_rest(ts, k, Token::And(Box::new(acc), Box::new(x))),
            Err(e) => Err(e),
        }
    } else {
        Ok((acc, j))
    }
}

/// Parses one element clause inside an array filter.
fn p_arr_item(ts: &Vec<Lexeme>, i: usize) -> (r: Result<(Token, usize), ParseError>)
    requires
        i <= ts@.len(),
    ensures
        r matches Ok(p) ==> sp_arr_item(lexv(ts@), i as int) == Option::Some(
            (model(p.0), p.1 as int),
        ) && i < p.1 <= ts@.len(),
        r is Err ==> sp_arr_item(lexv(ts@), i as int) is None,
    decreases ts@.len() - i, 3int,
{
    if i >= ts.len() {
        return Err(ParseError::Filter { pos: i });
    }
    match op_of(&ts[i]) {
        Some(op) => {
            return match p_value(ts, i + 1) {
                Ok((v, j)) => p_boost(ts, j, apply_op(op, None, v)),
                Err(e) => Err(e),
            };
        },
        None => {
        },
    }
    match &ts[i] {
        Lexeme::BraceOpen => match p_object(ts, i + 1) {
            Ok((x, j)) => p_boost(ts, j, x),
            Err(e) => Err(e),
        },
        Lexeme::BracketOpen => match p_array(ts, i + 1) {
            Ok((x, j)) => p_boost(ts, j, x),
            Err(e) => Err(e),
        },
        Lexeme::Bang => {
            if i + 1 >= ts.len() {
                return Err(ParseError::Filter { pos: i });
            }
            match &ts[i + 1] {
                Lexeme::BraceOpen => match p_object(ts, i + 2) {
                    Ok((x, j)) => p_boost(ts, j, Token::Not(Box::new(x))),
                    Err(e) => Err(e),
                },
                Lexeme::BracketOpen => match p_array(ts, i + 2) {
                    Ok((x, j)) => p_boost(ts, j, Token::Not(Box::new(x))),
                    Err(e) => Err(e),
                },
                Lexeme::WordOp(slop) => {
                    let slop = *slop;
                    match p_value(ts, i + 2) {
                        Ok((v, j)) => p_boost(
                            ts,
                            j,
                            apply_op(OperatorType::NotWordMatch(slop), None, v),
                        ),
                        Err(e) => Err(e),
                    }
                },
                _ => Err(ParseError::Filter { pos: i }),
            }
        },
        Lexeme::Ident(name) => {
            if ts.len() - i > 2 && matches!(&ts[i + 1], Lexeme::DoubleColon) && matches!(
                &ts[i + 2],
                Lexeme::BracketOpen,
            ) {
                let bound = vec_to_string(name);
                match p_array(ts, i + 3) {
                    Ok((x, j)) => p_boost(ts, j, Token::Bind(bound, Box::new(x))),
                    Err(e) => Err(e),
                }
            } else {
                Err(ParseError::Filter { pos: i })
            }
        },
        _ => Err(ParseError::Filter { pos: i }),
    }
}

} // verus!
