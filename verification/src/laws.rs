//! Grammar laws, proved once and for all over the specification parser.

use vstd::prelude::*;
use crate::ast::BoolType;
use crate::ast::Node;
use crate::ast::OperatorType;
use crate::filter::sp_apply_op;
use crate::filter::sp_boost;
use crate::filter::sp_obj_and_rest;
use crate::filter::sp_obj_or_rest;
use crate::lex::LexV;
use crate::num::digits_val;

verus! {

/// Whether `t` grows out of `acc` purely by `op`-nodes on the left spine:
/// `t` is `acc` itself, or an `op`-node whose left subtree again grows out
/// of `acc`.
pub open spec fn grows_left(t: Node, acc: Node, op: BoolType) -> bool
    decreases t,
{
    ||| t == acc
    ||| match (op, t) {
        (BoolType::And, Node::And(l, _)) => grows_left(*l, acc, BoolType::And),
        (BoolType::Or, Node::Or(l, _)) => grows_left(*l, acc, BoolType::Or),
        _ => false,
    }
}

/// Left-associativity of comma/`&&` chains in an object filter: whatever
/// tree a chain continuation produces, the already-parsed `acc` sits at the
/// bottom of its left spine — later clauses are joined as right children of
/// new `And` nodes, never nested to the right.
pub proof fn lemma_obj_and_left_associative(ts: Seq<LexV>, j: int, acc: Node, t: Node, k: int)
    requires
        sp_obj_and_rest(ts, j, acc) == Option::Some((t, k)),
    ensures
        grows_left(t, acc, BoolType::And),
    decreases ts.len() - j, 4int,
{
    if 0 <= j < ts.len() && (ts[j] is Comma || ts[j] is AmpAmp) {
        match crate::filter::sp_obj_item(ts, j + 1) {
            Option::Some((x, k2)) => {
                if j + 1 < k2 <= ts.len() {
                    lemma_obj_and_left_associative(
                        ts,
                        k2,
                        Node::And(Box::new(acc), Box::new(x)),
                        t,
                        k,
                    );
                    lemma_grows_left_extends(
                        t,
                        Node::And(Box::new(acc), Box::new(x)),
                        acc,
                        BoolType::And,
                    );
                }
            },
            Option::None => {},
        }
    }
}

/// Left-associativity of `||` chains in an object filter, in the same
/// sense.
pub proof fn lemma_obj_or_left_associative(ts: Seq<LexV>, j: int, acc: Node, t: Node, k: int)
    requires
        sp_obj_or_rest(ts, j, acc) == Option::Some((t, k)),
    ensures
        grows_left(t, acc, BoolType::Or),
    decreases ts.len() - j, 5int,
{
    if 0 <= j < ts.len() && ts[j] is PipePipe {
        match crate::filter::sp_obj_and(ts, j + 1) {
            Option::Some((x, k2)) => {
                if j + 1 < k2 <= ts.len() {
                    lemma_obj_or_left_associative(
                        ts,
                        k2,
                        Node::Or(Box::new(acc), Box::new(x)),
                        t,
                        k,
                    );
                    lemma_grows_left_extends(
                        t,
                        Node::Or(Box::new(acc), Box::new(x)),
                        acc,
                        BoolType::Or,
                    );
                }
            },
            Option::None => {},
        }
    }
}

/// Growing out of a one-step extension of `acc` is growing out of `acc`.
proof fn lemma_grows_left_extends(t: Node, mid: Node, acc: Node, op: BoolType)
    requires
        grows_left(t, mid, op),
        mid matches Node::And(l, _) ==> (op is And && *l == acc),
        mid matches Node::Or(l, _) ==> (op is Or && *l == acc),
        mid is And || mid is Or,
    ensures
        grows_left(t, acc, op),
    decreases t,
{
    if t == mid {
        reveal_with_fuel(grows_left, 3);
    } else {
        match (op, t) {
            (BoolType::And, Node::And(l, _)) => {
                lemma_grows_left_extends(*l, mid, acc, BoolType::And);
            },
            (BoolType::Or, Node::Or(l, _)) => {
                lemma_grows_left_extends(*l, mid, acc, BoolType::Or);
            },
            _ => {},
        }
    }
}

/// The negation sugar: `!=` builds exactly `Not` around the `==` tree, and
/// `!~=`/`!~N=` exactly `Not` around the `~=`/`~N=` tree, for every key and
/// operand.
pub proof fn lemma_negation_sugar(key: Option<Seq<char>>, v: Node, slop: Option<u64>)
    ensures
        sp_apply_op(OperatorType::NotEqual, key, v) == Node::Not(
            Box::new(sp_apply_op(OperatorType::Equal, key, v)),
        ),
        sp_apply_op(OperatorType::NotWordMatch(slop), key, v) == Node::Not(
            Box::new(sp_apply_op(OperatorType::WordMatch(slop), key, v)),
        ),
{
}

/// Conjunction binds tighter than disjunction: when a comma/`&&` chain is
/// followed by `||`, the whole chain tree becomes the bottom of the left
/// spine of an `Or` node — never a right operand inside one.
pub proof fn lemma_and_binds_tighter_than_or(
    ts: Seq<LexV>,
    i: int,
    x: Node,
    j: int,
    t: Node,
    k: int,
)
    requires
        crate::filter::sp_obj_and(ts, i) == Option::Some((x, j)),
        i < j <= ts.len(),
        j < ts.len() && ts[j] is PipePipe,
        crate::filter::sp_obj_or(ts, i) == Option::Some((t, k)),
    ensures
        t is Or,
        grows_left(t, x, BoolType::Or),
{
    assert(sp_obj_or_rest(ts, j, x) == Option::Some((t, k)));
    lemma_obj_or_left_associative(ts, j, x, t, k);
    match crate::filter::sp_obj_and(ts, j + 1) {
        Option::Some((y, k2)) => {
            if j + 1 < k2 <= ts.len() {
                let mid = Node::Or(Box::new(x), Box::new(y));
                lemma_obj_or_left_associative(ts, k2, mid, t, k);
                lemma_grows_left_is_or(t, mid, BoolType::Or);
            } else {
                assert(false);
            }
        },
        Option::None => {
            assert(false);
        },
    }
}

/// Whatever grows out of an `Or` node by `Or` steps is itself an `Or` node.
proof fn lemma_grows_left_is_or(t: Node, base: Node, op: BoolType)
    requires
        grows_left(t, base, op),
        base is Or,
        op is Or,
    ensures
        t is Or,
    decreases t,
{
    if t != base {
        match t {
            Node::Or(l, _) => {},
            _ => {},
        }
    }
}

/// A boost suffix wraps exactly the tree it follows: with `^N` present the
/// result is `Boost(N, t)` around the given `t` unchanged, and with no
/// caret the tree passes through untouched.
pub proof fn lemma_boost_wraps_nearest(ts: Seq<LexV>, i: int, t: Node)
    ensures
        !(0 <= i < ts.len() && ts[i] is Caret) ==> sp_boost(ts, i, t) == Option::Some((t, i)),
        sp_boost(ts, i, t) matches Option::Some(p) ==> (p.0 == t || (p.0 matches Node::Boost(
            n,
            inner,
        ) && *inner == t && (ts[i + 1] matches LexV::Number(text) && n == digits_val(text)))),
{
}

} // verus!
