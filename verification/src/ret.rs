//! The return and order parsers: the result-shaping sub-language after
//! `return`, and the sort keys after `order`.
//!
//! Keywords stay contextual: `return find` yields a bound-variable
//! reference named `find`, and an aggregate name not followed by `(` is an
//! ordinary bound-variable reference.

use vstd::prelude::*;
use crate::ast::Node;
use crate::ast::OrderType;
use crate::ast::Token;
use crate::ast::model;
use crate::ast::models;
use crate::ast::lemma_models_push;
use crate::chars::vec_eq_str;
use crate::chars::vec_to_string;
use crate::error::ParseError;
use crate::lex::LexV;
use crate::lex::Lexeme;
use crate::lex::lexv;
use crate::num::all_digits;
use crate::num::chars_to_u64;
use crate::num::digits_val;
use crate::value::p_value;
use crate::value::sp_value;

verus! {

/// Path segments (`.field`, `[N]`, `[]`) from position `i` on, appended to
/// `acc`; stops at the first lexeme that cannot extend the path.
pub open spec fn sp_path_segs(ts: Seq<LexV>, i: int, acc: Seq<Node>) -> (Seq<Node>, int)
    decreases ts.len() - i, 1int,
{
    if 0 <= i < ts.len() && ts[i] is DotName {
        match ts[i] {
            LexV::DotName(w) => sp_path_segs(ts, i + 1, acc.push(Node::JsonString(w))),
            _ => (acc, i),
        }
    } else if 0 <= i && i + 1 < ts.len() && ts[i] is BracketOpen && ts[i + 1] is BracketClose {
        sp_path_segs(ts, i + 2, acc.push(Node::PathArray(Option::None)))
    } else if 0 <= i && i + 2 < ts.len() && ts[i] is BracketOpen && ts[i + 2] is BracketClose {
        match ts[i + 1] {
            LexV::Number(text) => if text.len() > 0 && all_digits(text) && digits_val(text)
                <= u64::MAX {
                sp_path_segs(
                    ts,
                    i + 3,
                    acc.push(Node::PathArray(Option::Some(digits_val(text) as u64))),
                )
            } else {
                (acc, i)
            },
            _ => (acc, i),
        }
    } else {
        (acc, i)
    }
}

/// An optional `default=value` suffix wrapping the already-parsed `x`.
pub open spec fn sp_default_suffix(ts: Seq<LexV>, j: int, x: Node) -> Option<(Node, int)> {
    if 0 <= j && j + 1 < ts.len() && ts[j + 1] is EqSign {
        match ts[j] {
            LexV::Ident(w) => if w == "default"@ {
                match sp_value(ts, j + 2) {
                    Option::Some((v, k)) => Option::Some(
                        (Node::Default(Box::new(v), Box::new(x)), k),
                    ),
                    Option::None => Option::None,
                }
            } else {
                Option::Some((x, j))
            },
            _ => Option::Some((x, j)),
        }
    } else {
        Option::Some((x, j))
    }
}

/// Whether `name` is one of the aggregates that take exactly a path
/// argument.
pub open spec fn is_plain_agg(name: Seq<char>) -> bool {
    name == "array"@ || name == "array_flat"@ || name == "avg"@ || name == "max"@ || name
        == "max_array"@ || name == "min"@ || name == "min_array"@ || name == "sum"@
}

/// The node a plain path aggregate builds around its path argument.
pub open spec fn sp_agg_wrap(name: Seq<char>, p: Node) -> Node
    recommends
        is_plain_agg(name),
{
    if name == "array"@ {
        Node::GroupArray(Box::new(p))
    } else if name == "array_flat"@ {
        Node::ArrayFlat(Box::new(p))
    } else if name == "avg"@ {
        Node::Avg(Box::new(p))
    } else if name == "max"@ {
        Node::Max(Box::new(p))
    } else if name == "max_array"@ {
        Node::MaxArray(Box::new(p))
    } else if name == "min"@ {
        Node::Min(Box::new(p))
    } else if name == "min_array"@ {
        Node::MinArray(Box::new(p))
    } else {
        Node::Sum(Box::new(p))
    }
}

/// An `asc` or `desc` direction lexeme, if present.
pub open spec fn sp_dir(ts: Seq<LexV>, i: int) -> (OrderType, int) {
    if 0 <= i < ts.len() {
        match ts[i] {
            LexV::Ident(w) => if w == "asc"@ {
                (OrderType::Asc, i + 1)
            } else if w == "desc"@ {
                (OrderType::Desc, i + 1)
            } else {
                (OrderType::Unspecified, i)
            },
            _ => (OrderType::Unspecified, i),
        }
    } else {
        (OrderType::Unspecified, i)
    }
}

/// The arguments and closing parenthesis of an aggregate call, the cursor
/// right after `(`.
pub open spec fn sp_agg(ts: Seq<LexV>, i: int, name: Seq<char>) -> Option<(Node, int)>
    decreases ts.len() - i, 2int,
{
    if name == "count"@ || name == "score"@ {
        if 0 <= i < ts.len() && ts[i] is ParenClose {
            Option::Some(
                (
                    if name == "count"@ {
                        Node::Count
                    } else {
                        Node::Score
                    },
                    i + 1,
                ),
            )
        } else {
            Option::None
        }
    } else if 0 <= i < ts.len() && ts[i] is DotName {
        let (segs, j) = sp_path_segs(ts, i, Seq::empty());
        if segs.len() == 0 || !(i < j <= ts.len()) {
            Option::None
        } else if name == "concat"@ {
            if j + 3 < ts.len() && ts[j + 1] is EqSign {
                match (ts[j], ts[j + 2]) {
                    (LexV::Ident(w), LexV::Text(sep)) => if w == "sep"@ && ts[j + 3]
                        is ParenClose {
                        Option::Some(
                            (
                                Node::Concat(
                                    Box::new(Node::Path(segs)),
                                    Option::Some(sep),
                                ),
                                j + 4,
                            ),
                        )
                    } else {
                        Option::None
                    },
                    _ => Option::None,
                }
            } else if j < ts.len() && ts[j] is ParenClose {
                Option::Some(
                    (Node::Concat(Box::new(Node::Path(segs)), Option::None), j + 1),
                )
            } else {
                Option::None
            }
        } else if name == "group"@ {
            match sp_default_suffix(ts, j, Node::Path(segs)) {
                Option::Some((inner, k)) => {
                    let (dir, m) = sp_dir(ts, k);
                    if m < ts.len() && ts[m] is ParenClose {
                        Option::Some((Node::Group(Box::new(inner), dir), m + 1))
                    } else {
                        Option::None
                    }
                },
                Option::None => Option::None,
            }
        } else if is_plain_agg(name) {
            if j < ts.len() && ts[j] is ParenClose {
                Option::Some((sp_agg_wrap(name, Node::Path(segs)), j + 1))
            } else {
                Option::None
            }
        } else {
            Option::None
        }
    } else {
        Option::None
    }
}

/// A whole return expression, with its optional `default=` suffix.
pub open spec fn sp_ret(ts: Seq<LexV>, i: int) -> Option<(Node, int)>
    decreases ts.len() - i, 4int,
{
    match sp_ret_base(ts, i) {
        Option::Some((x, j)) => if i < j <= ts.len() {
            sp_default_suffix(ts, j, x)
        } else {
            Option::None
        },
        Option::None => Option::None,
    }
}

/// A return expression without its suffix: `.` (the whole document), a
/// path, a return object or array, a literal, an aggregate call, or a
/// bound-variable reference.
pub open spec fn sp_ret_base(ts: Seq<LexV>, i: int) -> Option<(Node, int)>
    decreases ts.len() - i, 3int,
{
    if !(0 <= i < ts.len()) {
        Option::None
    } else {
        match ts[i] {
            LexV::Dot => Option::Some((Node::All, i + 1)),
            LexV::DotName(_) => {
                let (segs, j) = sp_path_segs(ts, i, Seq::empty());
                if segs.len() > 0 && i < j <= ts.len() {
                    Option::Some((Node::Path(segs), j))
                } else {
                    Option::None
                }
            },
            LexV::BraceOpen => if i + 1 < ts.len() && ts[i + 1] is BraceClose {
                Option::Some((Node::ReturnObject(Seq::empty()), i + 2))
            } else {
                sp_ret_obj_items(ts, i + 1, Seq::empty())
            },
            LexV::BracketOpen => if i + 1 < ts.len() && ts[i + 1] is BracketClose {
                Option::Some((Node::ReturnArray(Seq::empty()), i + 2))
            } else {
                match sp_ret(ts, i + 1) {
                    Option::Some((first, j)) => if i + 1 < j <= ts.len() {
                        sp_ret_arr_items(ts, j, seq![first])
                    } else {
                        Option::None
                    },
                    Option::None => Option::None,
                }
            },
            LexV::Text(t) => Option::Some((Node::JsonString(t), i + 1)),
            LexV::Number(t) => Option::Some((Node::JsonNumber(t), i + 1)),
            LexV::Ident(name) => if name == "null"@ {
                Option::Some((Node::JsonNull, i + 1))
            } else if name == "true"@ {
                Option::Some((Node::JsonBool(true), i + 1))
            } else if name == "false"@ {
                Option::Some((Node::JsonBool(false), i + 1))
            } else if i + 1 < ts.len() && ts[i + 1] is ParenOpen && (name == "count"@ || name
                == "score"@ || name == "concat"@ || name == "group"@ || is_plain_agg(name)) {
                sp_agg(ts, i + 2, name)
            } else {
                let (segs, j) = sp_path_segs(ts, i + 1, Seq::empty());
                if segs.len() == 0 {
                    Option::Some((Node::ReturnBind(name, Option::None), i + 1))
                } else if i + 1 < j <= ts.len() {
                    Option::Some(
                        (
                            Node::ReturnBind(
                                name,
                                Option::Some(Box::new(Node::Path(segs))),
                            ),
                            j,
                        ),
                    )
                } else {
                    Option::None
                }
            },
            _ => Option::None,
        }
    }
}

/// The pairs and closing brace of a return object, the cursor at the first
/// key.
pub open spec fn sp_ret_obj_items(ts: Seq<LexV>, i: int, acc: Seq<Node>) -> Option<(Node, int)>
    decreases ts.len() - i, 5int,
{
    if !(0 <= i < ts.len()) {
        Option::None
    } else {
        let key = match ts[i] {
            LexV::Ident(w) => Option::Some(w),
            LexV::Text(t) => Option::Some(t),
            _ => Option::None,
        };
        match key {
            Option::None => Option::None,
            Option::Some(key) => if i + 1 < ts.len() && ts[i + 1] is Colon {
                match sp_ret(ts, i + 2) {
                    Option::Some((v, j)) => if i + 2 < j <= ts.len() {
                        let acc2 = acc.push(Node::Object(key, Box::new(v)));
                        if j < ts.len() && ts[j] is Comma {
                            sp_ret_obj_items(ts, j + 1, acc2)
                        } else if j < ts.len() && ts[j] is BraceClose {
                            Option::Some((Node::ReturnObject(acc2), j + 1))
                        } else {
                            Option::None
                        }
                    } else {
                        Option::None
                    },
                    Option::None => Option::None,
                }
            } else {
                Option::None
            },
        }
    }
}

/// The rest of a return array, the cursor right after an element.
pub open spec fn sp_ret_arr_items(ts: Seq<LexV>, j: int, acc: Seq<Node>) -> Option<(Node, int)>
    decreases ts.len() - j, 5int,
{
    if !(0 <= j < ts.len()) {
        Option::None
    } else if ts[j] is BracketClose {
        Option::Some((Node::ReturnArray(acc), j + 1))
    } else if ts[j] is Comma {
        match sp_ret(ts, j + 1) {
            Option::Some((el, k)) => if j + 1 < k <= ts.len() {
                sp_ret_arr_items(ts, k, acc.push(el))
            } else {
                Option::None
            },
            Option::None => Option::None,
        }
    } else {
        Option::None
    }
}

/// The comma-separated order items following `order`, appended to `acc`.
pub open spec fn sp_order_items(ts: Seq<LexV>, i: int, acc: Seq<Node>) -> Option<
    (Seq<Node>, int),
>
    decreases ts.len() - i, 2int,
{
    if !(0 <= i < ts.len()) {
        Option::None
    } else {
        let item = match ts[i] {
            LexV::Ident(w) => if w == "asc"@ {
                Option::Some((Node::Order(Option::None, OrderType::Asc), i + 1))
            } else if w == "desc"@ {
                Option::Some((Node::Order(Option::None, OrderType::Desc), i + 1))
            } else if w == "score"@ && i + 2 < ts.len() && ts[i + 1] is ParenOpen && ts[i + 2]
                is ParenClose {
                sp_order_tail(ts, i + 3, Node::Score)
            } else {
                Option::None
            },
            LexV::DotName(_) => {
                let (segs, j) = sp_path_segs(ts, i, Seq::empty());
                if segs.len() == 0 || !(i < j <= ts.len()) {
                    Option::None
                } else {
                    sp_order_tail(ts, j, Node::Path(segs))
                }
            },
            _ => Option::None,
        };
        match item {
            Option::Some((node, j)) => if i < j <= ts.len() {
                if j < ts.len() && ts[j] is Comma {
                    sp_order_items(ts, j + 1, acc.push(node))
                } else {
                    Option::Some((acc.push(node), j))
                }
            } else {
                Option::None
            },
            Option::None => Option::None,
        }
    }
}

/// The optional `default=` and direction suffix of a keyed order item.
pub open spec fn sp_order_tail(ts: Seq<LexV>, j: int, key: Node) -> Option<(Node, int)>
    decreases ts.len() - j, 1int,
{
    match sp_default_suffix(ts, j, key) {
        Option::Some((key2, k)) => {
            let (dir, m) = sp_dir(ts, k);
            Option::Some((Node::Order(Option::Some(Box::new(key2)), dir), m))
        },
        Option::None => Option::None,
    }
}

/// Parses path segments from `i` on, appending to `acc`.
fn p_path_segs(ts: &Vec<Lexeme>, i: usize, acc: Vec<Token>) -> (r: (Vec<Token>, usize))
    requires
        i <= ts@.len(),
    ensures
        sp_path_segs(lexv(ts@), i as int, models(acc@)) == (models(r.0@), r.1 as int),
        i <= r.1 <= ts@.len(),
        acc@.len() <= r.0@.len(),
        r.1 == i ==> r.0@.len() == acc@.len(),
    decreases ts@.len() - i, 1int,
{
    if i < ts.len() {
        match &ts[i] {
            Lexeme::DotName(w) => {
                let seg = Token::JsonString(vec_to_string(w));
                let mut acc = acc;
                proof {
                    lemma_models_push(acc@, seg);
                }
                acc.push(seg);
                return p_path_segs(ts, i + 1, acc);
            },
            _ => {
            },
        }
    }
    if ts.len() - i > 1 && matches!(&ts[i], Lexeme::BracketOpen) && matches!(
        &ts[i + 1],
        Lexeme::BracketClose,
    ) {
        let seg = Token::PathArray(None);
        let mut acc = acc;
        proof {
            lemma_models_push(acc@, seg);
        }
        acc.push(seg);
        return p_path_segs(ts, i + 2, acc);
    }
    if ts.len() - i > 2 && matches!(&ts[i], Lexeme::BracketOpen) && matches!(
        &ts[i + 2],
        Lexeme::BracketClose,
    ) {
        match &ts[i + 1] {
            Lexeme::Number(text) => {
                if text.len() > 0 {
                    proof {
                        assert(text@.subrange(0, text@.len() as int) =~= text@);
                    }
                    match chars_to_u64(text, 0, text.len()) {
                        Some(n) => {
                            let seg = Token::PathArray(Some(n));
                            let mut acc = acc;
                            proof {
                                lemma_models_push(acc@, seg);
                            }
                            acc.push(seg);
                            return p_path_segs(ts, i + 3, acc);
                        },
                        None => {
                            return (acc, i);
                        },
                    }
                } else {
                    return (acc, i);
                }
            },
            _ => {
                return (acc, i);
            },
        }
    }
    (acc, i)
}

/// Parses an optional `default=value` suffix around `x`.
fn p_default_suffix(ts: &Vec<Lexeme>, j: usize, x: Token) -> (r: Result<
    (Token, usize),
    ParseError,
>)
    requires
        j <= ts@.len(),
    ensures
        r matches Ok(p) ==> sp_default_suffix(lexv(ts@), j as int, model(x)) == Option::Some(
            (model(p.0), p.1 as int),
        ) && j <= p.1 <= ts@.len(),
        r is Err ==> sp_default_suffix(lexv(ts@), j as int, model(x)) is None,
{
    if ts.len() - j > 1 && matches!(&ts[j + 1], Lexeme::EqSign) {
        match &ts[j] {
            Lexeme::Ident(w) => {
                if vec_eq_str(w, "default") {
                    match p_value(ts, j + 2) {
                        Ok((v, k)) => Ok((Token::Default(Box::new(v), Box::new(x)), k)),
                        Err(e) => Err(e),
                    }
                } else {
                    Ok((x, j))
                }
            },
            _ => Ok((x, j)),
        }
    } else {
        Ok((x, j))
    }
}

/// Whether `name` is an aggregate that takes exactly a path argument.
fn plain_agg(name: &Vec<char>) -> (r: bool)
    ensures
        r == is_plain_agg(name@),
{
    vec_eq_str(name, "array") || vec_eq_str(name, "array_flat") || vec_eq_str(name, "avg")
        || vec_eq_str(name, "max") || vec_eq_str(name, "max_array") || vec_eq_str(name, "min")
        || vec_eq_str(name, "min_array") || vec_eq_str(name, "sum")
}

/// Builds the node of a plain path aggregate.
fn agg_wrap(name: &Vec<char>, p: Token) -> (t: Token)
    requires
        is_plain_agg(name@),
    ensures
        model(t) == sp_agg_wrap(name@, model(p)),
{
    if vec_eq_str(name, "array") {
        Token::GroupArray(Box::new(p))
    } else if vec_eq_str(name, "array_flat") {
        Token::ArrayFlat(Box::new(p))
    } else if vec_eq_str(name, "avg") {
        Token::Avg(Box::new(p))
    } else if vec_eq_str(name, "max") {
        Token::Max(Box::new(p))
    } else if vec_eq_str(name, "max_array") {
        Token::MaxArray(Box::new(p))
    } else if vec_eq_str(name, "min") {
        Token::Min(Box::new(p))
    } else if vec_eq_str(name, "min_array") {
        Token::MinArray(Box::new(p))
    } else {
        Token::Sum(Box::new(p))
    }
}

/// Parses an `asc`/`desc` direction lexeme if present.
fn p_dir(ts: &Vec<Lexeme>, i: usize) -> (r: (OrderType, usize))
    requires
        i <= ts@.len(),
    ensures
        sp_dir(lexv(ts@), i as int) == (r.0, r.1 as int),
        i <= r.1 <= ts@.len(),
{
    if i < ts.len() {
        match &ts[i] {
            Lexeme::Ident(w) => {
                if vec_eq_str(w, "asc") {
                    (OrderType::Asc, i + 1)
                } else if vec_eq_str(w, "desc") {
                    (OrderType::Desc, i + 1)
                } else {
                    (OrderType::Unspecified, i)
                }
            },
            _ => (OrderType::Unspecified, i),
        }
    } else {
        (OrderType::Unspecified, i)
    }
}

/// Parses the arguments and closing parenthesis of an aggregate call.
#[verifier::rlimit(50)]
fn p_agg(ts: &Vec<Lexeme>, i: usize, name: &Vec<char>) -> (r: Result<(Token, usize), ParseError>)
    requires
        i <= ts@.len(),
    ensures
        r matches Ok(p) ==> sp_agg(lexv(ts@), i as int, name@) == Option::Some(
            (model(p.0), p.1 as int),
        ) && i <= p.1 <= ts@.len(),
        r is Err ==> sp_agg(lexv(ts@), i as int, name@) is None,
    decreases ts@.len() - i, 2int,
{
    if vec_eq_str(name, "count") || vec_eq_str(name, "score") {
    proof {
        reveal_with_fuel(model, 3);
    }
        if i < ts.len() && matches!(&ts[i], Lexeme::ParenClose) {
            if vec_eq_str(name, "count") {
                return Ok((Token::Count, i + 1));
            } else {
                return Ok((Token::Score, i + 1));
            }
        } else {
            return Err(ParseError::Return { pos: i });
        }
    }
    if !(i < ts.len() && matches!(&ts[i], Lexeme::DotName(_))) {
        return Err(ParseError::Return { pos: i });
    }
    let (segs, j) = p_path_segs(ts, i, Vec::new());
    proof {
        assert(models(Seq::<Token>::empty()) =~= Seq::<Node>::empty());
    }
    if segs.len() == 0 {
        return Err(ParseError::Return { pos: i });
    }
    proof {
        crate::ast::lemma_models_len(segs@);
    }
    if vec_eq_str(name, "concat") {
        if ts.len() - j > 3 && matches!(&ts[j + 1], Lexeme::EqSign) {
            match (&ts[j], &ts[j + 2]) {
                (Lexeme::Ident(w), Lexeme::Text(sep)) => {
                    if vec_eq_str(w, "sep") && matches!(&ts[j + 3], Lexeme::ParenClose) {
                        return Ok(
                            (
                                Token::Concat(
                                    Box::new(Token::Path(segs)),
                                    Some(vec_to_string(sep)),
                                ),
                                j + 4,
                            ),
                        );
                    } else {
                        return Err(ParseError::Return { pos: j });
                    }
                },
                _ => {
                    return Err(ParseError::Return { pos: j });
                },
            }
        } else if j < ts.len() && matches!(&ts[j], Lexeme::ParenClose) {
            return Ok((Token::Concat(Box::new(Token::Path(segs)), None), j + 1));
        } else {
            return Err(ParseError::Return { pos: j });
        }
    }
    if vec_eq_str(name, "group") {
        match p_default_suffix(ts, j, Token::Path(segs)) {
            Ok((inner, k)) => {
                let (dir, m) = p_dir(ts, k);
                if m < ts.len() && matches!(&ts[m], Lexeme::ParenClose) {
                    return Ok((Token::Group(Box::new(inner), dir), m + 1));
                } else {
                    return Err(ParseError::Return { pos: m });
                }
            },
            Err(e) => {
                return Err(e);
            },
        }
    }
    if plain_agg(name) {
        if j < ts.len() && matches!(&ts[j], Lexeme::ParenClose) {
            return Ok((agg_wrap(name, Token::Path(segs)), j + 1));
        } else {
            return Err(ParseError::Return { pos: j });
        }
    }
    Err(ParseError::Return { pos: i })
}

/// Parses a whole return expression at token `i`.
pub(crate) fn p_ret(ts: &Vec<Lexeme>, i: usize) -> (r: Result<(Token, usize), ParseError>)
    requires
        i <= ts@.len(),
    ensures
        r matches Ok(p) ==> sp_ret(lexv(ts@), i as int) == Option::Some(
            (model(p.0), p.1 as int),
        ) && i < p.1 <= ts@.len(),
        r is Err ==> sp_ret(lexv(ts@), i as int) is None,
    decreases ts@.len() - i, 4int,
{
    match p_ret_base(ts, i) {
        Ok((x, j)) => p_default_suffix(ts, j, x),
        Err(e) => Err(e),
    }
}

/// Parses a return expression without its suffix.
#[verifier::rlimit(50)]
fn p_ret_base(ts: &Vec<Lexeme>, i: usize) -> (r: Result<(Token, usize), ParseError>)
    requires
        i <= ts@.len(),
    ensures
        r matches Ok(p) ==> sp_ret_base(lexv(ts@), i as int) == Option::Some(
            (model(p.0), p.1 as int),
        ) && i < p.1 <= ts@.len(),
        r is Err ==> sp_ret_base(lexv(ts@), i as int) is None,
    decreases ts@.len() - i, 3int,
{
    if i >= ts.len() {
        return Err(ParseError::Return { pos: i });
    }
    proof {
        reveal_with_fuel(model, 3);
    }
    match &ts[i] {
        Lexeme::Dot => Ok((Token::All, i + 1)),
        Lexeme::DotName(_) => {
            let (segs, j) = p_path_segs(ts, i, Vec::new());
            proof {
                assert(models(Seq::<Token>::empty()) =~= Seq::<Node>::empty());
                crate::ast::lemma_models_len(segs@);
            }
            if segs.len() > 0 {
                Ok((Token::Path(segs), j))
            } else {
                Err(ParseError::Return { pos: i })
            }
        },
        Lexeme::BraceOpen => {
            if i + 1 < ts.len() && matches!(&ts[i + 1], Lexeme::BraceClose) {
                proof {
                    assert(models(Seq::<Token>::empty()) =~= Seq::<Node>::empty());
                }
                Ok((Token::ReturnObject(Vec::new()), i + 2))
            } else {
                p_ret_obj_items(ts, i + 1, Vec::new())
            }
        },
        Lexeme::BracketOpen => {
            if i + 1 < ts.len() && matches!(&ts[i + 1], Lexeme::BracketClose) {
                proof {
                    assert(models(Seq::<Token>::empty()) =~= Seq::<Node>::empty());
                }
                Ok((Token::ReturnArray(Vec::new()), i + 2))
            } else {
                match p_ret(ts, i + 1) {
                    Ok((first, j)) => {
                        let mut acc: Vec<Token> = Vec::new();
                        proof {
                            lemma_models_push(Seq::<Token>::empty(), first);
                            assert(models(Seq::<Token>::empty()) =~= Seq::<Node>::empty());
                            assert(Seq::<Node>::empty().push(model(first)) =~= seq![
                                model(first),
                            ]);
                        }
                        acc.push(first);
                        p_ret_arr_items(ts, j, acc)
                    },
                    Err(e) => Err(e),
                }
            }
        },
        Lexeme::Text(t) => Ok((Token::JsonString(vec_to_string(t)), i + 1)),
        Lexeme::Number(t) => Ok((Token::JsonNumber(vec_to_string(t)), i + 1)),
        Lexeme::Ident(name) => {
            if vec_eq_str(name, "null") {
                Ok((Token::JsonNull, i + 1))
            } else if vec_eq_str(name, "true") {
                Ok((Token::JsonBool(true), i + 1))
            } else if vec_eq_str(name, "false") {
                Ok((Token::JsonBool(false), i + 1))
            } else if i + 1 < ts.len() && matches!(&ts[i + 1], Lexeme::ParenOpen) && (vec_eq_str(
                name,
                "count",
            ) || vec_eq_str(name, "score") || vec_eq_str(name, "concat") || vec_eq_str(
                name,
                "group",
            ) || plain_agg(name)) {
                p_agg(ts, i + 2, name)
            } else {
                let bound = vec_to_string(name);
                let (segs, j) = p_path_segs(ts, i + 1, Vec::new());
                proof {
                    assert(models(Seq::<Token>::empty()) =~= Seq::<Node>::empty());
                    crate::ast::lemma_models_len(segs@);
                }
                if segs.len() == 0 {
                    Ok((Token::ReturnBind(bound, Box::new(None)), i + 1))
                } else {
                    Ok(
                        (
                            Token::ReturnBind(
                                bound,
                                Box::new(Some(Token::Path(segs))),
                            ),
                            j,
                        ),
                    )
                }
            }
        },
        _ => Err(ParseError::Return { pos: i }),
    }
}

/// Parses the pairs and closing brace of a return object.
fn p_ret_obj_items(ts: &Vec<Lexeme>, i: usize, acc: Vec<Token>) -> (r: Result<
    (Token, usize),
    ParseError,
>)
    requires
        i <= ts@.len(),
    ensures
        r matches Ok(p) ==> sp_ret_obj_items(lexv(ts@), i as int, models(acc@)) == Option::Some(
            (model(p.0), p.1 as int),
        ) && i < p.1 <= ts@.len(),
        r is Err ==> sp_ret_obj_items(lexv(ts@), i as int, models(acc@)) is None,
    decreases ts@.len() - i, 5int,
{
    if i >= ts.len() {
        return Err(ParseError::Return { pos: i });
    }
    let key: String = match &ts[i] {
        Lexeme::Ident(w) => vec_to_string(w),
        Lexeme::Text(t) => vec_to_string(t),
        _ => {
            return Err(ParseError::Return { pos: i });
        },
    };
    if !(i + 1 < ts.len() && matches!(&ts[i + 1], Lexeme::Colon)) {
        return Err(ParseError::Return { pos: i });
    }
    match p_ret(ts, i + 2) {
        Ok((v, j)) => {
            let entry = Token::Object(key, Box::new(v));
            let mut acc = acc;
            proof {
                lemma_models_push(acc@, entry);
            }
            acc.push(entry);
            if j < ts.len() && matches!(&ts[j], Lexeme::Comma) {
                p_ret_obj_items(ts, j + 1, acc)
            } else if j < ts.len() && matches!(&ts[j], Lexeme::BraceClose) {
                Ok((Token::ReturnObject(acc), j + 1))
            } else {
                Err(ParseError::Return { pos: j })
            }
        },
        Err(e) => Err(e),
    }
}

/// Parses the rest of a return array.
fn p_ret_arr_items(ts: &Vec<Lexeme>, j: usize, acc: Vec<Token>) -> (r: Result<
    (Token, usize),
    ParseError,
>)
    requires
        j <= ts@.len(),
    ensures
        r matches Ok(p) ==> sp_ret_arr_items(lexv(ts@), j as int, models(acc@)) == Option::Some(
            (model(p.0), p.1 as int),
        ) && j < p.1 <= ts@.len(),
        r is Err ==> sp_ret_arr_items(lexv(ts@), j as int, models(acc@)) is None,
    decreases ts@.len() - j, 5int,
{
    if j >= ts.len() {
        return Err(ParseError::Return { pos: j });
    }
    if matches!(&ts[j], Lexeme::BracketClose) {
        return Ok((Token::ReturnArray(acc), j + 1));
    }
    if !matches!(&ts[j], Lexeme::Comma) {
        return Err(ParseError::Return { pos: j });
    }
    match p_ret(ts, j + 1) {
        Ok((el, k)) => {
            let mut acc = acc;
            proof {
                lemma_models_push(acc@, el);
            }
            acc.push(el);
            p_ret_arr_items(ts, k, acc)
        },
        Err(e) => Err(e),
    }
}

/// Parses the order items following `order`, appending to `acc`.
pub(crate) fn p_order_items(ts: &Vec<Lexeme>, i: usize, acc: Vec<Token>) -> (r: Result<
    (Vec<Token>, usize),
    ParseError,
>)
    requires
        i <= ts@.len(),
    ensures
        r matches Ok(p) ==> sp_order_items(lexv(ts@), i as int, models(acc@)) == Option::Some(
            (models(p.0@), p.1 as int),
        ) && i < p.1 <= ts@.len(),
        r is Err ==> sp_order_items(lexv(ts@), i as int, models(acc@)) is None,
    decreases ts@.len() - i, 2int,
{
    if i >= ts.len() {
        return Err(ParseError::Order { pos: i });
    }
    proof {
        reveal_with_fuel(model, 3);
    }
    let item: Result<(Token, usize), ParseError> = match &ts[i] {
        Lexeme::Ident(w) => {
            if vec_eq_str(w, "asc") {
                Ok((Token::Order(Box::new(None), OrderType::Asc), i + 1))
            } else if vec_eq_str(w, "desc") {
                Ok((Token::Order(Box::new(None), OrderType::Desc), i + 1))
            } else if vec_eq_str(w, "score") && ts.len() - i > 2 && matches!(
                &ts[i + 1],
                Lexeme::ParenOpen,
            ) && matches!(&ts[i + 2], Lexeme::ParenClose) {
                p_order_tail(ts, i + 3, Token::Score)
            } else {
                Err(ParseError::Order { pos: i })
            }
        },
        Lexeme::DotName(_) => {
            let (segs, j) = p_path_segs(ts, i, Vec::new());
            proof {
                assert(models(Seq::<Token>::empty()) =~= Seq::<Node>::empty());
                crate::ast::lemma_models_len(segs@);
            }
            if segs.len() == 0 {
                Err(ParseError::Order { pos: i })
            } else {
                p_order_tail(ts, j, Token::Path(segs))
            }
        },
        _ => Err(ParseError::Order { pos: i }),
    };
    match item {
        Ok((node, j)) => {
            let mut acc = acc;
            proof {
                lemma_models_push(acc@, node);
            }
            acc.push(node);
            if j < ts.len() && matches!(&ts[j], Lexeme::Comma) {
                p_order_items(ts, j + 1, acc)
            } else {
                Ok((acc, j))
            }
        },
        Err(e) => Err(e),
    }
}

/// Parses the optional `default=` and direction suffix of a keyed order
/// item.
fn p_order_tail(ts: &Vec<Lexeme>, j: usize, key: Token) -> (r: Result<(Token, usize), ParseError>)
    requires
        j <= ts@.len(),
    ensures
        r matches Ok(p) ==> sp_order_tail(lexv(ts@), j as int, model(key)) == Option::Some(
            (model(p.0), p.1 as int),
        ) && j <= p.1 <= ts@.len(),
        r is Err ==> sp_order_tail(lexv(ts@), j as int, model(key)) is None,
    decreases ts@.len() - j, 1int,
{
    proof {
        reveal_with_fuel(model, 3);
    }
    match p_default_suffix(ts, j, key) {
        Ok((key2, k)) => {
            let (dir, m) = p_dir(ts, k);
            Ok((Token::Order(Box::new(Some(key2)), dir), m))
        },
        Err(e) => Err(e),
    }
}

} // verus!
