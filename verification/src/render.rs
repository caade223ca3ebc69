//! The canonical textual rendering of a query tree.
//!
//! Every variant renders as `VariantName(arg1, arg2, ...)`, optionals as
//! `Some(x)` / `None`, lists as `[a, b, c]`, and strings quoted with `\"`
//! and `\\` escapes.  This deterministic form is the public contract used
//! by test fixtures.

use vstd::prelude::*;
use vstd::string::StrSliceExecFns;
use vstd::string::StringExecFns;
use crate::ast::Node;
use crate::ast::OrderType;
use crate::ast::Token;
use crate::ast::model;
use crate::ast::model_key;
use crate::ast::model_opt;
use crate::ast::model_opt_str;
use crate::ast::models;
use crate::ast::lemma_models_len;
use crate::ast::lemma_models_index;
use crate::chars::push_char;
use crate::chars::push_chars;
use crate::error::ParseError;
use crate::error::message_spec;
use crate::num::dec_rep;
use crate::num::u64_to_chars;

verus! {

/// How one character renders inside a quoted string.
pub open spec fn esc_char(c: char) -> Seq<char> {
    if c == '"' {
        seq!['\\', '"']
    } else if c == '\\' {
        seq!['\\', '\\']
    } else {
        seq![c]
    }
}

/// The escaped form of a string's characters.
pub open spec fn esc(s: Seq<char>) -> Seq<char>
    decreases s.len(),
{
    if s.len() == 0 {
        Seq::empty()
    } else {
        esc(s.drop_last()) + esc_char(s.last())
    }
}

/// A string in quotes, escapes applied.
pub open spec fn quote(s: Seq<char>) -> Seq<char> {
    seq!['"'] + esc(s) + seq!['"']
}

/// An optional field key: `None` or `Some("key")`.
pub open spec fn opt_key_str(k: Option<Seq<char>>) -> Seq<char> {
    match k {
        Option::None => "None"@,
        Option::Some(t) => "Some("@ + quote(t) + ")"@,
    }
}

/// An optional number: `None` or `Some(n)`.
pub open spec fn opt_u64_str(n: Option<u64>) -> Seq<char> {
    match n {
        Option::None => "None"@,
        Option::Some(v) => "Some("@ + dec_rep(v as nat) + ")"@,
    }
}

/// An optional quoted string: `None` or `Some("text")`.
pub open spec fn opt_text_str(s: Option<Seq<char>>) -> Seq<char> {
    match s {
        Option::None => "None"@,
        Option::Some(t) => "Some("@ + quote(t) + ")"@,
    }
}

/// A direction: `None`, `Asc` or `Desc`.
pub open spec fn dir_str(d: OrderType) -> Seq<char> {
    match d {
        OrderType::Unspecified => "None"@,
        OrderType::Asc => "Asc"@,
        OrderType::Desc => "Desc"@,
    }
}

/// The canonical rendering of a tree.
pub open spec fn render_node(n: Node) -> Seq<char>
    decreases n,
{
    match n {
        Node::Array(x) => "Array("@ + render_node(*x) + ")"@,
        Node::Bbox(a, b, c, d) => "Bbox("@ + a + ", "@ + b + ", "@ + c + ", "@ + d + ")"@,
        Node::Bind(name, x) => "Bind("@ + quote(name) + ", "@ + render_node(*x) + ")"@,
        Node::JsonArray(items) => "JsonArray(["@ + render_list(items) + "])"@,
        Node::JsonBool(b) => if b {
            "JsonBool(true)"@
        } else {
            "JsonBool(false)"@
        },
        Node::JsonNull => "JsonNull"@,
        Node::JsonNumber(t) => "JsonNumber("@ + t + ")"@,
        Node::JsonObject(key, v) => "JsonObject("@ + quote(key) + ", "@ + render_node(*v)
            + ")"@,
        Node::JsonObjectEmpty => "JsonObjectEmpty"@,
        Node::JsonString(t) => "JsonString("@ + quote(t) + ")"@,
        Node::Parameter(t) => "Parameter("@ + quote(t) + ")"@,
        Node::Not(x) => "Not("@ + render_node(*x) + ")"@,
        Node::Object(key, x) => "Object("@ + quote(key) + ", "@ + render_node(*x) + ")"@,
        Node::Boost(amount, x) => "Boost("@ + dec_rep(amount as nat) + ", "@ + render_node(*x)
            + ")"@,
        Node::Equal(key, v) => "Equal("@ + opt_key_str(key) + ", "@ + render_node(*v) + ")"@,
        Node::Greater(key, v) => "Greater("@ + opt_key_str(key) + ", "@ + render_node(*v)
            + ")"@,
        Node::GreaterEqual(key, v) => "GreaterEqual("@ + opt_key_str(key) + ", "@ + render_node(
            *v,
        ) + ")"@,
        Node::Intersect(key, v) => "Intersect("@ + opt_key_str(key) + ", "@ + render_node(*v)
            + ")"@,
        Node::Less(key, v) => "Less("@ + opt_key_str(key) + ", "@ + render_node(*v) + ")"@,
        Node::LessEqual(key, v) => "LessEqual("@ + opt_key_str(key) + ", "@ + render_node(*v)
            + ")"@,
        Node::WordMatch(key, slop, v) => "WordMatch("@ + opt_key_str(key) + ", "@ + opt_u64_str(
            slop,
        ) + ", "@ + render_node(*v) + ")"@,
        Node::And(l, r) => "And("@ + render_node(*l) + ", "@ + render_node(*r) + ")"@,
        Node::Or(l, r) => "Or("@ + render_node(*l) + ", "@ + render_node(*r) + ")"@,
        Node::Order(key, dir) => "Order("@ + render_opt(key) + ", "@ + dir_str(dir) + ")"@,
        Node::All => "All"@,
        Node::Path(segs) => "Path(["@ + render_list(segs) + "])"@,
        Node::PathArray(idx) => "PathArray("@ + opt_u64_str(idx) + ")"@,
        Node::ReturnArray(items) => "ReturnArray(["@ + render_list(items) + "])"@,
        Node::ReturnBind(name, path) => "ReturnBind("@ + quote(name) + ", "@ + render_opt(path)
            + ")"@,
        Node::ReturnObject(items) => "ReturnObject(["@ + render_list(items) + "])"@,
        Node::Default(v, x) => "Default("@ + render_node(*v) + ", "@ + render_node(*x) + ")"@,
        Node::GroupArray(x) => "GroupArray("@ + render_node(*x) + ")"@,
        Node::ArrayFlat(x) => "ArrayFlat("@ + render_node(*x) + ")"@,
        Node::Avg(x) => "Avg("@ + render_node(*x) + ")"@,
        Node::Count => "Count"@,
        Node::Concat(x, sep) => "Concat("@ + render_node(*x) + ", "@ + opt_text_str(sep)
            + ")"@,
        Node::Group(x, dir) => "Group("@ + render_node(*x) + ", "@ + dir_str(dir) + ")"@,
        Node::Max(x) => "Max("@ + render_node(*x) + ")"@,
        Node::MaxArray(x) => "MaxArray("@ + render_node(*x) + ")"@,
        Node::Min(x) => "Min("@ + render_node(*x) + ")"@,
        Node::MinArray(x) => "MinArray("@ + render_node(*x) + ")"@,
        Node::Score => "Score"@,
        Node::Sum(x) => "Sum("@ + render_node(*x) + ")"@,
        Node::Limit(n) => "Limit("@ + dec_rep(n as nat) + ")"@,
        Node::Noise(f, orders, ret, lim) => "Noise("@ + render_node(*f) + ", ["@ + render_list(
            orders,
        ) + "], "@ + render_opt(ret) + ", "@ + render_opt(lim) + ")"@,
    }
}

/// A comma-separated list of renderings.
pub open spec fn render_list(items: Seq<Node>) -> Seq<char>
    decreases items,
{
    if items.len() == 0 {
        Seq::empty()
    } else {
        render_list(items.drop_last()) + (if items.len() > 1 {
            ", "@
        } else {
            Seq::<char>::empty()
        }) + render_node(items.last())
    }
}

/// An optional subtree: `None` or `Some(x)`.
pub open spec fn render_opt(o: Option<Box<Node>>) -> Seq<char>
    decreases o,
{
    match o {
        Option::None => "None"@,
        Option::Some(x) => "Some("@ + render_node(*x) + ")"@,
    }
}

/// Appends the escaped, quoted form of `s`.
fn push_quoted(out: &mut String, s: &str)
    ensures
        final(out)@ == old(out)@ + quote(s@),
{
    push_char(out, '"');
    let n = s.unicode_len();
    let mut i: usize = 0;
    while i < n
        invariant
            n == s@.len(),
            i <= n,
            out@ == old(out)@ + seq!['"'] + esc(s@.subrange(0, i as int)),
        decreases n - i,
    {
        let c = s.get_char(i);
        if c == '"' {
            push_char(out, '\\');
            push_char(out, '"');
        } else if c == '\\' {
            push_char(out, '\\');
            push_char(out, '\\');
        } else {
            push_char(out, c);
        }
        i = i + 1;
        proof {
            assert(s@.subrange(0, i as int).drop_last() =~= s@.subrange(0, i - 1));
            assert(out@ =~= old(out)@ + seq!['"'] + esc(s@.subrange(0, i as int)));
        }
    }
    push_char(out, '"');
    proof {
        assert(s@.subrange(0, s@.len() as int) =~= s@);
        assert(out@ =~= old(out)@ + quote(s@));
    }
}

/// Appends the decimal spelling of `n`.
fn push_u64(out: &mut String, n: u64)
    ensures
        final(out)@ == old(out)@ + dec_rep(n as nat),
{
    let digits = u64_to_chars(n);
    push_chars(out, &digits);
}

/// Appends `None` or `Some("key")`.
fn push_opt_key(out: &mut String, k: &Option<String>)
    ensures
        final(out)@ == old(out)@ + opt_key_str(model_key(*k)),
{
    match k {
        None => {
            out.append("None");
        },
        Some(t) => {
            out.append("Some(");
            push_quoted(out, t.as_str());
            out.append(")");
            assert(out@ =~= old(out)@ + opt_key_str(model_key(*k)));
        },
    }
}

/// Appends `None` or `Some(n)`.
fn push_opt_u64(out: &mut String, n: &Option<u64>)
    ensures
        final(out)@ == old(out)@ + opt_u64_str(*n),
{
    match n {
        None => {
            out.append("None");
        },
        Some(v) => {
            out.append("Some(");
            push_u64(out, *v);
            out.append(")");
            assert(out@ =~= old(out)@ + opt_u64_str(*n));
        },
    }
}

/// Appends `None` or `Some("text")`.
fn push_opt_text(out: &mut String, s: &Option<String>)
    ensures
        final(out)@ == old(out)@ + opt_text_str(model_opt_str(*s)),
{
    match s {
        None => {
            out.append("None");
        },
        Some(t) => {
            out.append("Some(");
            push_quoted(out, t.as_str());
            out.append(")");
            assert(out@ =~= old(out)@ + opt_text_str(model_opt_str(*s)));
        },
    }
}

/// Appends `None`, `Asc` or `Desc`.
fn push_dir(out: &mut String, d: &OrderType)
    ensures
        final(out)@ == old(out)@ + dir_str(*d),
{
    match d {
        OrderType::Unspecified => out.append("None"),
        OrderType::Asc => out.append("Asc"),
        OrderType::Desc => out.append("Desc"),
    }
}

/// Appends the rendering of a variant without subtrees.
fn push_node_flat(out: &mut String, t: &Token)
    requires
        t is All || t is Count || t is Score || t is JsonNull || t is JsonObjectEmpty || t
            is JsonBool || t is JsonNumber || t is JsonString || t is Parameter || t
            is PathArray || t is Limit || t is Bbox,
    ensures
        final(out)@ == old(out)@ + render_node(model(*t)),
{
    match t {
        Token::Bbox(a, b, c, d) => {
            out.append("Bbox(");
            out.append(a.as_str());
            out.append(", ");
            out.append(b.as_str());
            out.append(", ");
            out.append(c.as_str());
            out.append(", ");
            out.append(d.as_str());
            out.append(")");
        },
        Token::JsonBool(b) => {
            if *b {
                out.append("JsonBool(true)");
            } else {
                out.append("JsonBool(false)");
            }
        },
        Token::JsonNull => {
            out.append("JsonNull");
        },
        Token::JsonNumber(n) => {
            out.append("JsonNumber(");
            out.append(n.as_str());
            out.append(")");
        },
        Token::JsonObjectEmpty => {
            out.append("JsonObjectEmpty");
        },
        Token::JsonString(str_val) => {
            out.append("JsonString(");
            push_quoted(out, str_val.as_str());
            out.append(")");
        },
        Token::Parameter(name) => {
            out.append("Parameter(");
            push_quoted(out, name.as_str());
            out.append(")");
        },
        Token::All => {
            out.append("All");
        },
        Token::PathArray(idx) => {
            out.append("PathArray(");
            push_opt_u64(out, idx);
            out.append(")");
        },
        Token::Count => {
            out.append("Count");
        },
        Token::Score => {
            out.append("Score");
        },
        Token::Limit(n) => {
            out.append("Limit(");
            push_u64(out, *n);
            out.append(")");
        },
        _ => {
            proof {
                assert(false);
            }
        },
    }
    assert(out@ =~= old(out)@ + render_node(model(*t)));
}

/// Appends `name`, an optional key, a subtree, and `)`.
fn push_cmp(out: &mut String, name: &str, key: &Option<String>, v: &Token)
    ensures
        final(out)@ == old(out)@ + name@ + opt_key_str(model_key(*key)) + ", "@ + render_node(
            model(*v),
        ) + ")"@,
    decreases *v, 3int,
{
    out.append(name);
    push_opt_key(out, key);
    out.append(", ");
    push_node(out, v);
    out.append(")");
    assert(out@ =~= old(out)@ + name@ + opt_key_str(model_key(*key)) + ", "@ + render_node(
        model(*v),
    ) + ")"@);
}

/// Appends `name`, a subtree, and `)`.
fn push_un(out: &mut String, name: &str, x: &Token)
    ensures
        final(out)@ == old(out)@ + name@ + render_node(model(*x)) + ")"@,
    decreases *x, 3int,
{
    out.append(name);
    push_node(out, x);
    out.append(")");
    assert(out@ =~= old(out)@ + name@ + render_node(model(*x)) + ")"@);
}

/// Appends `name`, a quoted key, a subtree, and `)`.
fn push_keyed(out: &mut String, name: &str, key: &str, x: &Token)
    ensures
        final(out)@ == old(out)@ + name@ + quote(key@) + ", "@ + render_node(model(*x)) + ")"@,
    decreases *x, 3int,
{
    out.append(name);
    push_quoted(out, key);
    out.append(", ");
    push_node(out, x);
    out.append(")");
    assert(out@ =~= old(out)@ + name@ + quote(key@) + ", "@ + render_node(model(*x)) + ")"@);
}

/// Appends `name`, a bracketed list, and `])`.
fn push_wrapped_list(out: &mut String, name: &str, items: &Vec<Token>)
    ensures
        final(out)@ == old(out)@ + name@ + render_list(models(items@)) + "])"@,
    decreases *items, 4int,
{
    out.append(name);
    push_list(out, items);
    out.append("])");
    assert(out@ =~= old(out)@ + name@ + render_list(models(items@)) + "])"@);
}

/// Appends the canonical rendering of `t`.
#[verifier::rlimit(100)]
#[verifier::spinoff_prover]
fn push_node(out: &mut String, t: &Token)
    ensures
        final(out)@ == old(out)@ + render_node(model(*t)),
    decreases *t, 2int,
{
    proof {
        reveal_with_fuel(model, 2);
    }
    match t {
        Token::Array(x) => push_un(out, "Array(", &**x),
        Token::Bind(name, x) => push_keyed(out, "Bind(", name.as_str(), &**x),
        Token::JsonArray(items) => push_wrapped_list(out, "JsonArray([", items),
        Token::JsonObject(key, v) => push_keyed(out, "JsonObject(", key.as_str(), &**v),
        Token::Not(x) => push_un(out, "Not(", &**x),
        Token::Object(key, x) => push_keyed(out, "Object(", key.as_str(), &**x),
        Token::Boost(amount, x) => {
            out.append("Boost(");
            push_u64(out, *amount);
            out.append(", ");
            push_node(out, &**x);
            out.append(")");
        },
        Token::Equal(key, v) => push_cmp(out, "Equal(", key, &**v),
        Token::Greater(key, v) => push_cmp(out, "Greater(", key, &**v),
        Token::GreaterEqual(key, v) => push_cmp(out, "GreaterEqual(", key, &**v),
        Token::Intersect(key, v) => push_cmp(out, "Intersect(", key, &**v),
        Token::Less(key, v) => push_cmp(out, "Less(", key, &**v),
        Token::LessEqual(key, v) => push_cmp(out, "LessEqual(", key, &**v),
        Token::WordMatch(key, slop, v) => {
            out.append("WordMatch(");
            push_opt_key(out, key);
            out.append(", ");
            push_opt_u64(out, slop);
            out.append(", ");
            push_node(out, &**v);
            out.append(")");
        },
        Token::And(l, r) => {
            out.append("And(");
            push_node(out, &**l);
            out.append(", ");
            push_node(out, &**r);
            out.append(")");
        },
        Token::Or(l, r) => {
            out.append("Or(");
            push_node(out, &**l);
            out.append(", ");
            push_node(out, &**r);
            out.append(")");
        },
        _ => {
            push_node_rest(out, t);
        },
    }
    assert(out@ =~= old(out)@ + render_node(model(*t)));
}

/// Appends the rendering of the order, return and query variants.
#[verifier::rlimit(100)]
#[verifier::spinoff_prover]
fn push_node_rest(out: &mut String, t: &Token)
    requires
        !(t is Array) && !(t is Bind) && !(t is JsonArray) && !(t is JsonObject) && !(t is Not)
            && !(t is Object) && !(t is Boost) && !(t is Equal) && !(t is Greater) && !(t
            is GreaterEqual) && !(t is Intersect) && !(t is Less) && !(t is LessEqual) && !(t
            is WordMatch) && !(t is And) && !(t is Or),
    ensures
        final(out)@ == old(out)@ + render_node(model(*t)),
    decreases *t, 1int,
{
    proof {
        reveal_with_fuel(model, 2);
    }
    match t {
        Token::Order(key, dir) => {
            out.append("Order(");
            push_opt(out, &**key);
            out.append(", ");
            push_dir(out, dir);
            out.append(")");
        },
        Token::Path(segs) => push_wrapped_list(out, "Path([", segs),
        Token::ReturnArray(items) => push_wrapped_list(out, "ReturnArray([", items),
        Token::ReturnBind(name, path) => {
            out.append("ReturnBind(");
            push_quoted(out, name.as_str());
            out.append(", ");
            push_opt(out, &**path);
            out.append(")");
        },
        Token::ReturnObject(items) => push_wrapped_list(out, "ReturnObject([", items),
        Token::Default(v, x) => {
            out.append("Default(");
            push_node(out, &**v);
            out.append(", ");
            push_node(out, &**x);
            out.append(")");
        },
        Token::GroupArray(x) => push_un(out, "GroupArray(", &**x),
        Token::ArrayFlat(x) => push_un(out, "ArrayFlat(", &**x),
        Token::Avg(x) => push_un(out, "Avg(", &**x),
        Token::Concat(x, sep) => {
            out.append("Concat(");
            push_node(out, &**x);
            out.append(", ");
            push_opt_text(out, sep);
            out.append(")");
        },
        Token::Group(x, dir) => {
            out.append("Group(");
            push_node(out, &**x);
            out.append(", ");
            push_dir(out, dir);
            out.append(")");
        },
        Token::Max(x) => push_un(out, "Max(", &**x),
        Token::MaxArray(x) => push_un(out, "MaxArray(", &**x),
        Token::Min(x) => push_un(out, "Min(", &**x),
        Token::MinArray(x) => push_un(out, "MinArray(", &**x),
        Token::Sum(x) => push_un(out, "Sum(", &**x),
        Token::Noise(f, orders, ret, lim) => {
            out.append("Noise(");
            push_node(out, &**f);
            out.append(", [");
            push_list(out, orders);
            out.append("], ");
            push_opt(out, &**ret);
            out.append(", ");
            push_opt(out, &**lim);
            out.append(")");
        },
        _ => {
            push_node_flat(out, t);
        },
    }
    assert(out@ =~= old(out)@ + render_node(model(*t)));
}

/// Appends a comma-separated list of renderings.
#[verifier::rlimit(50)]
fn push_list(out: &mut String, items: &Vec<Token>)
    ensures
        final(out)@ == old(out)@ + render_list(models(items@)),
    decreases *items, 3int,
{
    let ghost ms = models(items@);
    proof {
        lemma_models_len(items@);
    }
    let mut i: usize = 0;
    while i < items.len()
        invariant
            ms == models(items@),
            ms.len() == items@.len(),
            i <= items@.len(),
            out@ == old(out)@ + render_list(ms.subrange(0, i as int)),
        decreases items@.len() - i,
    {
        if i > 0 {
            out.append(", ");
        }
        push_node(out, &items[i]);
        i = i + 1;
        proof {
            lemma_models_index(items@, i - 1);
            assert(ms.subrange(0, i as int).drop_last() =~= ms.subrange(0, i - 1));
            assert(ms.subrange(0, i as int).last() == model(items@[i - 1]));
            assert(out@ =~= old(out)@ + render_list(ms.subrange(0, i as int)));
        }
    }
    proof {
        assert(ms.subrange(0, ms.len() as int) =~= ms);
    }
}

/// Appends `None` or `Some(x)`.
fn push_opt(out: &mut String, o: &Option<Token>)
    ensures
        final(out)@ == old(out)@ + render_opt(model_opt(*o)),
    decreases *o, 3int,
{
    match o {
        None => {
            out.append("None");
        },
        Some(x) => {
            out.append("Some(");
            push_node(out, x);
            out.append(")");
            assert(out@ =~= old(out)@ + render_opt(model_opt(*o)));
        },
    }
}

/// The canonical rendering of a query tree.
pub fn render(t: &Token) -> (out: String)
    ensures
        out@ == render_node(model(*t)),
{
    let mut out = String::new();
    push_node(&mut out, t);
    proof {
        assert(out@ =~= render_node(model(*t)));
    }
    out
}

/// The text a parse outcome renders to: the tree inside `Ok(..)`, the error
/// message inside `Err(..)`.
pub open spec fn render_result_spec(r: Result<Token, ParseError>) -> Seq<char> {
    match r {
        Result::Ok(t) => "Ok("@ + render_node(model(t)) + ")"@,
        Result::Err(e) => "Err("@ + message_spec(e) + ")"@,
    }
}

/// Renders a whole parse outcome, as tests and the command line print it.
pub fn render_result(r: &Result<Token, ParseError>) -> (out: String)
    ensures
        out@ == render_result_spec(*r),
{
    let mut out = String::new();
    match r {
        Ok(t) => {
            out.append("Ok(");
            push_node(&mut out, t);
            out.append(")");
        },
        Err(e) => {
            out.append("Err(");
            let msg = e.message();
            out.append(msg.as_str());
            out.append(")");
        },
    }
    assert(out@ =~= render_result_spec(*r));
    out
}

} // verus!
