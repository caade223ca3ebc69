//! The abstract syntax tree produced by the parser, together with its
//! mathematical model.
//!
//! [`Token`] is the executable tree handed to a query evaluator.  [`Node`] is
//! the same tree at the specification level: every `String` becomes a
//! `Seq<char>` and every `Vec` becomes a `Seq`, so contracts can speak about
//! trees independently of heap allocation.  [`model`] maps the former to the
//! latter.

use vstd::prelude::*;

verus! {

/// A comparison operator as written in a filter clause, before the negated
/// forms are desugared into `Not(..)` wrappers.
#[derive(Debug)]
pub enum OperatorType {
    Equal,
    Greater,
    GreaterEqual,
    Intersect,
    Less,
    LessEqual,
    NotEqual,
    NotWordMatch(Option<u64>),
    WordMatch(Option<u64>),
}

/// The two boolean connectives a filter chain can fold into.
#[derive(Debug)]
pub enum BoolType {
    And,
    Or,
}

/// Direction of an `order` item or of a `group(..)` return expression.
#[derive(Debug, PartialEq)]
pub enum OrderType {
    Unspecified,
    Asc,
    Desc,
}

/// One node of the query tree.
///
/// Numeric literals keep their decimal source text (`JsonNumber`, `Bbox`):
/// the parser never interprets them as machine numbers, it only carries them
/// to the evaluator.  A comparison whose key is `None` appears inside an
/// array filter and applies to the array element itself.
#[derive(Debug, PartialEq)]
pub enum Token {
    Array(Box<Token>),
    Bbox(String, String, String, String),
    Bind(String, Box<Token>),
    JsonArray(Vec<Token>),
    JsonBool(bool),
    JsonNull,
    JsonNumber(String),
    JsonObject(String, Box<Token>),
    JsonObjectEmpty,
    JsonString(String),
    Parameter(String),
    Not(Box<Token>),
    Object(String, Box<Token>),
    Boost(u64, Box<Token>),

    Equal(Option<String>, Box<Token>),
    Greater(Option<String>, Box<Token>),
    GreaterEqual(Option<String>, Box<Token>),
    Intersect(Option<String>, Box<Token>),
    Less(Option<String>, Box<Token>),
    LessEqual(Option<String>, Box<Token>),
    WordMatch(Option<String>, Option<u64>, Box<Token>),

    And(Box<Token>, Box<Token>),
    Or(Box<Token>, Box<Token>),

    Order(Box<Option<Token>>, OrderType),

    All,
    Path(Vec<Token>),
    PathArray(Option<u64>),
    ReturnArray(Vec<Token>),
    ReturnBind(String, Box<Option<Token>>),
    ReturnObject(Vec<Token>),
    Default(Box<Token>, Box<Token>),

    GroupArray(Box<Token>),
    ArrayFlat(Box<Token>),
    Avg(Box<Token>),
    Count,
    Concat(Box<Token>, Option<String>),
    Group(Box<Token>, OrderType),
    Max(Box<Token>),
    MaxArray(Box<Token>),
    Min(Box<Token>),
    MinArray(Box<Token>),
    Score,
    Sum(Box<Token>),

    Limit(u64),

    Noise(Box<Token>, Vec<Token>, Box<Option<Token>>, Box<Option<Token>>),
}

/// The specification-level form of [`Token`], variant for variant.
pub enum Node {
    Array(Box<Node>),
    Bbox(Seq<char>, Seq<char>, Seq<char>, Seq<char>),
    Bind(Seq<char>, Box<Node>),
    JsonArray(Seq<Node>),
    JsonBool(bool),
    JsonNull,
    JsonNumber(Seq<char>),
    JsonObject(Seq<char>, Box<Node>),
    JsonObjectEmpty,
    JsonString(Seq<char>),
    Parameter(Seq<char>),
    Not(Box<Node>),
    Object(Seq<char>, Box<Node>),
    Boost(u64, Box<Node>),

    Equal(Option<Seq<char>>, Box<Node>),
    Greater(Option<Seq<char>>, Box<Node>),
    GreaterEqual(Option<Seq<char>>, Box<Node>),
    Intersect(Option<Seq<char>>, Box<Node>),
    Less(Option<Seq<char>>, Box<Node>),
    LessEqual(Option<Seq<char>>, Box<Node>),
    WordMatch(Option<Seq<char>>, Option<u64>, Box<Node>),

    And(Box<Node>, Box<Node>),
    Or(Box<Node>, Box<Node>),

    Order(Option<Box<Node>>, OrderType),

    All,
    Path(Seq<Node>),
    PathArray(Option<u64>),
    ReturnArray(Seq<Node>),
    ReturnBind(Seq<char>, Option<Box<Node>>),
    ReturnObject(Seq<Node>),
    Default(Box<Node>, Box<Node>),

    GroupArray(Box<Node>),
    ArrayFlat(Box<Node>),
    Avg(Box<Node>),
    Count,
    Concat(Box<Node>, Option<Seq<char>>),
    Group(Box<Node>, OrderType),
    Max(Box<Node>),
    MaxArray(Box<Node>),
    Min(Box<Node>),
    MinArray(Box<Node>),
    Score,
    Sum(Box<Node>),

    Limit(u64),

    Noise(Box<Node>, Seq<Node>, Option<Box<Node>>, Option<Box<Node>>),
}

/// Model of an optional field key.
pub open spec fn model_key(k: Option<String>) -> Option<Seq<char>> {
    match k {
        Option::None => Option::None,
        Option::Some(s) => Option::Some(s@),
    }
}

/// Model of an optional string (a `concat` separator).
pub open spec fn model_opt_str(s: Option<String>) -> Option<Seq<char>> {
    match s {
        Option::None => Option::None,
        Option::Some(s) => Option::Some(s@),
    }
}

/// The mathematical value of a tree node.
pub open spec fn model(t: Token) -> Node
    decreases t,
{
    match t {
        Token::Array(inner) => Node::Array(Box::new(model(*inner))),
        Token::Bbox(a, b, c, d) => Node::Bbox(a@, b@, c@, d@),
        Token::Bind(name, inner) => Node::Bind(name@, Box::new(model(*inner))),
        Token::JsonArray(items) => Node::JsonArray(models(items@)),
        Token::JsonBool(b) => Node::JsonBool(b),
        Token::JsonNull => Node::JsonNull,
        Token::JsonNumber(n) => Node::JsonNumber(n@),
        Token::JsonObject(key, inner) => Node::JsonObject(key@, Box::new(model(*inner))),
        Token::JsonObjectEmpty => Node::JsonObjectEmpty,
        Token::JsonString(s) => Node::JsonString(s@),
        Token::Parameter(name) => Node::Parameter(name@),
        Token::Not(inner) => Node::Not(Box::new(model(*inner))),
        Token::Object(key, inner) => Node::Object(key@, Box::new(model(*inner))),
        Token::Boost(amount, inner) => Node::Boost(amount, Box::new(model(*inner))),
        Token::Equal(key, v) => Node::Equal(model_key(key), Box::new(model(*v))),
        Token::Greater(key, v) => Node::Greater(model_key(key), Box::new(model(*v))),
        Token::GreaterEqual(key, v) => Node::GreaterEqual(model_key(key), Box::new(model(*v))),
        Token::Intersect(key, v) => Node::Intersect(model_key(key), Box::new(model(*v))),
        Token::Less(key, v) => Node::Less(model_key(key), Box::new(model(*v))),
        Token::LessEqual(key, v) => Node::LessEqual(model_key(key), Box::new(model(*v))),
        Token::WordMatch(key, slop, v) => Node::WordMatch(
            model_key(key),
            slop,
            Box::new(model(*v)),
        ),
        Token::And(l, r) => Node::And(Box::new(model(*l)), Box::new(model(*r))),
        Token::Or(l, r) => Node::Or(Box::new(model(*l)), Box::new(model(*r))),
        Token::Order(key, dir) => Node::Order(model_opt(*key), dir),
        Token::All => Node::All,
        Token::Path(segs) => Node::Path(models(segs@)),
        Token::PathArray(idx) => Node::PathArray(idx),
        Token::ReturnArray(items) => Node::ReturnArray(models(items@)),
        Token::ReturnBind(name, path) => Node::ReturnBind(name@, model_opt(*path)),
        Token::ReturnObject(items) => Node::ReturnObject(models(items@)),
        Token::Default(value, inner) => Node::Default(
            Box::new(model(*value)),
            Box::new(model(*inner)),
        ),
        Token::GroupArray(inner) => Node::GroupArray(Box::new(model(*inner))),
        Token::ArrayFlat(inner) => Node::ArrayFlat(Box::new(model(*inner))),
        Token::Avg(inner) => Node::Avg(Box::new(model(*inner))),
        Token::Count => Node::Count,
        Token::Concat(inner, sep) => Node::Concat(Box::new(model(*inner)), model_opt_str(sep)),
        Token::Group(inner, dir) => Node::Group(Box::new(model(*inner)), dir),
        Token::Max(inner) => Node::Max(Box::new(model(*inner))),
        Token::MaxArray(inner) => Node::MaxArray(Box::new(model(*inner))),
        Token::Min(inner) => Node::Min(Box::new(model(*inner))),
        Token::MinArray(inner) => Node::MinArray(Box::new(model(*inner))),
        Token::Score => Node::Score,
        Token::Sum(inner) => Node::Sum(Box::new(model(*inner))),
        Token::Limit(n) => Node::Limit(n),
        Token::Noise(filter, order, ret, limit) => Node::Noise(
            Box::new(model(*filter)),
            models(order@),
            model_opt(*ret),
            model_opt(*limit),
        ),
    }
}

/// The model of a list of nodes, element for element.
pub open spec fn models(s: Seq<Token>) -> Seq<Node>
    decreases s,
{
    if s.len() == 0 {
        Seq::empty()
    } else {
        models(s.drop_last()).push(model(s.last()))
    }
}

/// The model of an optional subtree.
pub open spec fn model_opt(o: Option<Token>) -> Option<Box<Node>>
    decreases o,
{
    match o {
        Option::None => Option::None,
        Option::Some(t) => Option::Some(Box::new(model(t))),
    }
}

/// A list and its model have the same length.
pub proof fn lemma_models_len(s: Seq<Token>)
    ensures
        models(s).len() == s.len(),
    decreases s,
{
    if s.len() > 0 {
        lemma_models_len(s.drop_last());
    }
}

/// Lists and their models agree element for element.
pub proof fn lemma_models_index(s: Seq<Token>, i: int)
    requires
        0 <= i < s.len(),
    ensures
        models(s).len() == s.len(),
        models(s)[i] == model(s[i]),
    decreases s,
{
    lemma_models_len(s);
    if i < s.len() - 1 {
        lemma_models_index(s.drop_last(), i);
    } else {
        lemma_models_len(s.drop_last());
    }
}

/// Appending one element models as appending its model.
pub proof fn lemma_models_push(s: Seq<Token>, t: Token)
    ensures
        models(s.push(t)) == models(s).push(model(t)),
{
    assert(s.push(t).drop_last() =~= s);
    assert(s.push(t).last() == t);
}

} // verus!
