//! The optimizer: general lists become execution-friendly expressions.

use vstd::prelude::*;

use crate::expr::{
    format_value, models, pair_models, set_entry, set_entry_exec, symbol_of, unpacked, value_text, Expr,
    Value,
};
use crate::util::str_eq;

verus! {

/// The expression with the annotations, where there are any.
pub open spec fn maybe_annotated(v: Value, anns: Option<Seq<(Seq<char>, Value)>>) -> Value {
    match anns {
        Some(a) => Value::Annotated(Box::new(v), a),
        None => v,
    }
}

/// The annotations of an expression, where it has any.
pub open spec fn annotations_of(v: Value) -> Option<Seq<(Seq<char>, Value)>> {
    match v {
        Value::Annotated(_, a) => Some(a),
        _ => None,
    }
}

/// The values without their annotations.
pub open spec fn unpacked_all(s: Seq<Value>) -> Seq<Value>
    decreases s.len(),
{
    if s.len() == 0 {
        Seq::empty()
    } else {
        unpacked_all(s.drop_last()).push(unpacked(s.last()))
    }
}

/// The dictionary of the items taken in pairs of key and value: the key is
/// the text of the first, and a later pair replaces an earlier one with the
/// same key.
pub open spec fn pairs_dict(items: Seq<Value>) -> Seq<(Seq<char>, Value)>
    decreases items.len(),
{
    if items.len() < 2 {
        Seq::empty()
    } else {
        set_entry(pairs_dict(items.take(items.len() - 2)), value_text(items[items.len() - 2]), items.last())
    }
}

/// What the optimizer makes of an expression: an `(Array ...)` list becomes
/// an Array and a `(Map ...)` list a Dict, both keeping the annotations of
/// the list; the items are taken without their annotations. Anything else
/// stays as it is.
pub open spec fn optimized(v: Value) -> Value {
    match unpacked(v) {
        Value::List(terms) => if terms.len() > 0 && symbol_of(terms[0]) == Some("Array"@) && unpacked(terms[0]) is Symbol {
            maybe_annotated(Value::Array(unpacked_all(terms.skip(1))), annotations_of(v))
        } else if terms.len() > 0 && symbol_of(terms[0]) == Some("Map"@) {
            maybe_annotated(Value::Dict(pairs_dict(unpacked_all(terms.skip(1)))), annotations_of(v))
        } else {
            v
        },
        _ => v,
    }
}

/// The expressions from index 1 on, without their annotations.
fn unpacked_tail(terms: &Vec<Expr>) -> (r: Vec<Expr>)
    requires
        terms@.len() >= 1,
    ensures
        models(r@) == unpacked_all(models(terms@).skip(1)),
        r@.len() == terms@.len() - 1,
{
    let ghost ms = models(terms@).skip(1);
    let mut out: Vec<Expr> = Vec::new();
    let mut i: usize = 1;
    assert(ms.take(0) =~= Seq::<Value>::empty());
    assert(models(out@) =~= Seq::<Value>::empty());
    while i < terms.len()
        invariant
            1 <= i <= terms@.len(),
            ms == models(terms@).skip(1),
            models(out@) == unpacked_all(ms.take(i - 1)),
            out@.len() == i - 1,
        decreases terms@.len() - i,
    {
        let e = terms[i].unpack().deep_clone();
        let ghost before = out@;
        out.push(e);
        assert(models(out@) =~= models(before).push(e.model()));
        assert(ms.take(i as int).drop_last() =~= ms.take(i - 1));
        i = i + 1;
    }
    assert(ms.take(terms@.len() - 1) =~= ms);
    out
}

/// The dictionary of the items taken in pairs.
fn pairs_to_dict(items: &Vec<Expr>) -> (r: Vec<(String, Expr)>)
    requires
        items@.len() % 2 == 0,
    ensures
        pair_models(r@) == pairs_dict(models(items@)),
{
    let ghost ms = models(items@);
    let mut out: Vec<(String, Expr)> = Vec::new();
    let mut i: usize = 0;
    assert(ms.take(0) =~= Seq::<Value>::empty());
    assert(pair_models(out@) =~= Seq::<(Seq<char>, Value)>::empty());
    while i < items.len()
        invariant
            i <= items@.len(),
            i % 2 == 0,
            items@.len() % 2 == 0,
            ms == models(items@),
            pair_models(out@) == pairs_dict(ms.take(i as int)),
        decreases items@.len() - i,
    {
        let k = format_value(&items[i]);
        let v = items[i + 1].deep_clone();
        set_entry_exec(&mut out, k.as_str(), v);
        proof {
            let next = ms.take(i + 2);
            assert(next.take(next.len() - 2) =~= ms.take(i as int));
            assert(next[next.len() - 2] == ms[i as int]);
            assert(next.last() == ms[i + 1]);
        }
        i = i + 2;
    }
    assert(ms.take(items@.len() as int) =~= ms);
    out
}

/// The expression with the same annotations, where it had any.
pub(crate) fn with_annotations_of(e: Expr, of: &Expr) -> (r: Expr)
    ensures
        r.model() == maybe_annotated(e.model(), annotations_of(of.model())),
{
    match of {
        Expr::Annotated(_, anns) => Expr::Annotated(Box::new(e), crate::expr::clone_pairs(anns)),
        _ => e,
    }
}

/// Rewrites an `(Array ...)` list as an Array and a `(Map ...)` list as a
/// Dict. A `(Map ...)` list must hold its items in pairs.
pub fn optimize_fn(expr: Expr) -> (r: Expr)
    requires
        (unpacked(expr.model()) matches Value::List(terms) && terms.len() > 0 && symbol_of(terms[0]) == Some(
            "Map"@,
        )) ==> (list_len(expr.model()) - 1) % 2 == 0,
    ensures
        r.model() == optimized(expr.model()),
{
    let res: Option<Expr> = match expr.unpack() {
        Expr::List(terms) => {
            if terms.len() > 0 {
                match terms[0].unpack() {
                    Expr::Symbol(s) => {
                        if str_eq(s.as_str(), "Array") {
                            Some(with_annotations_of(Expr::Array(unpacked_tail(terms)), &expr))
                        } else if str_eq(s.as_str(), "Map") {
                            let items = unpacked_tail(terms);
                            Some(with_annotations_of(Expr::Dict(pairs_to_dict(&items)), &expr))
                        } else {
                            None
                        }
                    },
                    _ => None,
                }
            } else {
                None
            }
        },
        _ => None,
    };
    match res {
        Some(r) => r,
        None => expr,
    }
}

/// Optimizing twice is optimizing once: what the optimizer makes is no
/// longer a list it rewrites.
pub proof fn law_optimize_is_idempotent(v: Value)
    ensures
        optimized(optimized(v)) == optimized(v),
{
}

/// What the optimizer makes of a whole expression: the terms of a list,
/// under its annotations, are optimized first, then the list itself; any
/// other expression is optimized as it is.
pub open spec fn optimized_tree(v: Value) -> Value
    decreases v, 1nat,
{
    match v {
        Value::Annotated(inner, anns) => match *inner {
            Value::List(terms) => optimized(Value::Annotated(Box::new(Value::List(optimized_terms(terms))), anns)),
            _ => optimized(v),
        },
        Value::List(terms) => optimized(Value::List(optimized_terms(terms))),
        _ => optimized(v),
    }
}

/// The optimized terms, one by one.
pub open spec fn optimized_terms(terms: Seq<Value>) -> Seq<Value>
    decreases terms, 0nat,
{
    if terms.len() == 0 {
        Seq::empty()
    } else {
        optimized_terms(terms.drop_last()).push(optimized_tree(terms.last()))
    }
}

/// Every `(Map ...)` list in the expression, at any depth, holds its items in pairs.
pub open spec fn maps_paired(v: Value) -> bool
    decreases v, 1nat,
{
    match v {
        Value::Annotated(inner, _) => match *inner {
            Value::List(terms) => list_paired(terms) && all_paired(terms),
            _ => true,
        },
        Value::List(terms) => list_paired(terms) && all_paired(terms),
        _ => true,
    }
}

/// A `(Map ...)` list with these terms holds its items in pairs.
pub open spec fn list_paired(terms: Seq<Value>) -> bool {
    terms.len() > 0 && symbol_of(terms[0]) == Some("Map"@) ==> (terms.len() - 1) % 2 == 0
}

/// Every `(Map ...)` list in the terms holds its items in pairs.
pub open spec fn all_paired(terms: Seq<Value>) -> bool
    decreases terms, 0nat,
{
    if terms.len() == 0 {
        true
    } else {
        all_paired(terms.drop_last()) && maps_paired(terms.last())
    }
}

proof fn lemma_optimized_terms_len(terms: Seq<Value>)
    ensures
        optimized_terms(terms).len() == terms.len(),
        forall|i: int| 0 <= i < terms.len() ==> #[trigger] optimized_terms(terms)[i] == optimized_tree(terms[i]),
    decreases terms.len(),
{
    if terms.len() > 0 {
        lemma_optimized_terms_len(terms.drop_last());
    }
}

proof fn lemma_all_paired(terms: Seq<Value>, i: int)
    requires
        all_paired(terms),
        0 <= i < terms.len(),
    ensures
        maps_paired(terms[i]),
    decreases terms.len(),
{
    if i < terms.len() - 1 {
        lemma_all_paired(terms.drop_last(), i);
    }
}

/// Optimizing an expression keeps the symbol it is, and makes no symbol of
/// anything else.
proof fn lemma_optimized_tree_symbol(v: Value)
    ensures
        symbol_of(optimized_tree(v)) == symbol_of(v),
{
}

/// Optimizes the terms of a list, one by one.
fn optimize_terms(terms: &Vec<Expr>) -> (r: Vec<Expr>)
    requires
        all_paired(models(terms@)),
    ensures
        models(r@) == optimized_terms(models(terms@)),
    decreases terms, 0nat,
{
    let ghost ms = models(terms@);
    let mut out: Vec<Expr> = Vec::new();
    let mut i: usize = 0;
    assert(ms.take(0) =~= Seq::<Value>::empty());
    while i < terms.len()
        invariant
            i <= terms@.len(),
            ms == models(terms@),
            all_paired(ms),
            models(out@) == optimized_terms(ms.take(i as int)),
        decreases terms@.len() - i,
    {
        proof {
            assert(decreases_to!(*terms => terms@));
            assert(decreases_to!(terms@ => terms@[i as int]));
            lemma_all_paired(ms, i as int);
            assert(ms.take(i + 1).drop_last() =~= ms.take(i as int));
            assert(ms.take(i + 1).last() == terms@[i as int].model());
        }
        let t = optimize_ref(&terms[i]);
        let ghost before = out@;
        out.push(t);
        assert(models(out@) =~= models(before).push(t.model()));
        i = i + 1;
    }
    assert(ms.take(terms@.len() as int) =~= ms);
    out
}

/// Optimizes the expression and every list in it.
fn optimize_ref(expr: &Expr) -> (r: Expr)
    requires
        maps_paired(expr.model()),
    ensures
        r.model() == optimized_tree(expr.model()),
    decreases expr, 1nat,
{
    match expr {
        Expr::Annotated(inner, anns) => match &**inner {
            Expr::List(terms) => {
                assert(inner.model() == Value::List(models(terms@)));
                assert(list_paired(models(terms@)) && all_paired(models(terms@)));
                let new_terms = optimize_terms(terms);
                proof {
                    lemma_optimized_terms_len(models(terms@));
                    if models(terms@).len() > 0 {
                        lemma_optimized_tree_symbol(models(terms@)[0]);
                        assert(models(new_terms@)[0] == optimized_tree(models(terms@)[0]));
                    }
                }
                let ghost nm = models(new_terms@);
                let list = Expr::List(new_terms);
                assert(list.model() == Value::List(nm));
                let node = Expr::Annotated(Box::new(list), crate::expr::clone_pairs(anns));
                assert(unpacked(node.model()) == Value::List(nm));
                optimize_fn(node)
            },
            _ => optimize_fn(expr.deep_clone()),
        },
        Expr::List(terms) => {
            let new_terms = optimize_terms(terms);
            proof {
                lemma_optimized_terms_len(models(terms@));
                if models(terms@).len() > 0 {
                    lemma_optimized_tree_symbol(models(terms@)[0]);
                    assert(models(new_terms@)[0] == optimized_tree(models(terms@)[0]));
                }
            }
            optimize_fn(Expr::List(new_terms))
        },
        _ => optimize_fn(expr.deep_clone()),
    }
}

/// Optimizes the expression: every `(Array ...)` and `(Map ...)` list in
/// it, at any depth, becomes an Array or a Dict, the terms of a list being
/// optimized before the list. Every `(Map ...)` list must hold its items in
/// pairs.
pub fn optimize(expr: Expr) -> (r: Expr)
    requires
        maps_paired(expr.model()),
    ensures
        r.model() == optimized_tree(expr.model()),
{
    optimize_ref(&expr)
}

/// The number of terms of a list.
pub open spec fn list_len(v: Value) -> int {
    match unpacked(v) {
        Value::List(terms) => terms.len() as int,
        _ => 0,
    }
}

} // verus!
