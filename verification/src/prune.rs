//! Pruning: the expressions that evaluation does not need are dropped, and
//! string templates become `format` calls.

use vstd::prelude::*;

use crate::error::Error;
use crate::expr::{models, unpacked, Expr, Value};
use crate::optimize::{annotations_of, maybe_annotated, with_annotations_of};
use crate::parser::util::{recognize_string_template, template_code_parses, template_holds};
use crate::util::{find_spec, to_chars, find_chars};

verus! {

/// A comment, a text separator or an annotation: what pruning drops.
pub open spec fn is_pruned(v: Value) -> bool {
    match unpacked(v) {
        Value::Comment(..) => true,
        Value::TextSeparator => true,
        Value::Annotation(..) => true,
        _ => false,
    }
}

/// The text of a String that holds `${`: a string template.
pub open spec fn template_text(v: Value) -> Option<Seq<char>> {
    match unpacked(v) {
        Value::String(s) => if find_spec(s, seq!['$', '{']) is Some {
            Some(s)
        } else {
            None
        },
        _ => None,
    }
}

/// Whether the text holds `${`.
fn holds_interpolation(s: &str) -> (r: bool)
    ensures
        r == (find_spec(s@, seq!['$', '{']) is Some),
{
    let chars = to_chars(s);
    let mut open: Vec<char> = Vec::new();
    open.push('$');
    open.push('{');
    assert(open@ =~= seq!['$', '{']);
    find_chars(&chars, &open).is_some()
}

/// Prunes one expression: a comment, a text separator or an annotation is
/// dropped; a string template becomes the `(format ...)` list that
/// `recognize_string_template` makes of it, with the annotations of the
/// string; anything else stays. The interpolations of a template were
/// checked when it was parsed, so `parse` succeeds on the code of each.
pub fn prune_fn<F: Fn(&str) -> Result<Expr, Vec<Error>>>(expr: Expr, parse: F) -> (r: Option<Expr>)
    requires
        forall|a: &str| #[trigger] call_requires(parse, (a,)),
        template_text(expr.model()) is Some ==> template_code_parses(parse, template_text(expr.model())->0),
    ensures
        is_pruned(expr.model()) ==> r is None,
        !is_pruned(expr.model()) && template_text(expr.model()) is None ==> r == Some(expr),
        template_text(expr.model()) matches Some(s) ==> (r matches Some(e) && exists|t: Expr|
            template_holds(parse, s, t) && e.model() == maybe_annotated(t.model(), annotations_of(expr.model()))),
{
    let template = match expr.unpack() {
        Expr::Comment(..) => {
            return None;
        },
        Expr::TextSeparator => {
            return None;
        },
        Expr::Annotation(..) => {
            return None;
        },
        Expr::String(s) => {
            if holds_interpolation(s.as_str()) {
                match recognize_string_template(s.as_str(), parse) {
                    Ok(t) => Some(t),
                    Err(_) => None,
                }
            } else {
                None
            }
        },
        _ => None,
    };
    match template {
        Some(t) => {
            let ghost tm = t;
            let e = with_annotations_of(t, &expr);
            assert(template_holds(parse, template_text(expr.model())->0, tm));
            Some(e)
        },
        None => Some(expr),
    }
}

/// What pruning makes of a node that is not a list: a string template
/// becomes a `(format ...)` list that `parse` made of it, with the node's
/// annotations; anything else stays.
pub open spec fn node_holds<F: Fn(&str) -> Result<Expr, Vec<Error>>>(parse: F, v: Value, r: Value) -> bool {
    match template_text(v) {
        Some(s) => exists|t: Expr| template_holds(parse, s, t) && r == maybe_annotated(t.model(), annotations_of(v)),
        None => r == v,
    }
}

/// `r` is what pruning makes of the expression `v`, which is not itself
/// dropped: the terms of a list, under its annotations, are pruned one by
/// one and the dropped ones left out; any other node is pruned as
/// `prune_fn` prunes it.
pub open spec fn pruned_holds<F: Fn(&str) -> Result<Expr, Vec<Error>>>(parse: F, v: Value, r: Value) -> bool
    decreases v, 1nat,
{
    match v {
        Value::Annotated(inner, anns) => match *inner {
            Value::List(terms) => r matches Value::Annotated(ri, ranns) && ranns == anns && match *ri {
                Value::List(rs) => pruned_terms_hold(parse, terms, rs),
                _ => false,
            },
            _ => node_holds(parse, v, r),
        },
        Value::List(terms) => r matches Value::List(rs) && pruned_terms_hold(parse, terms, rs),
        _ => node_holds(parse, v, r),
    }
}

/// `out` is what pruning makes of the terms: the ones that are not dropped,
/// each pruned, in their order.
pub open spec fn pruned_terms_hold<F: Fn(&str) -> Result<Expr, Vec<Error>>>(
    parse: F,
    terms: Seq<Value>,
    out: Seq<Value>,
) -> bool
    decreases terms, 0nat,
{
    if terms.len() == 0 {
        out.len() == 0
    } else if is_pruned(terms.last()) {
        pruned_terms_hold(parse, terms.drop_last(), out)
    } else {
        out.len() > 0 && pruned_terms_hold(parse, terms.drop_last(), out.drop_last()) && pruned_holds(
            parse,
            terms.last(),
            out.last(),
        )
    }
}

/// `parse` succeeds on the code of every string template in the expression
/// that pruning keeps.
pub open spec fn templates_parse<F: Fn(&str) -> Result<Expr, Vec<Error>>>(parse: F, v: Value) -> bool
    decreases v, 1nat,
{
    match v {
        Value::Annotated(inner, _) => match *inner {
            Value::List(terms) => terms_templates_parse(parse, terms),
            _ => template_text(v) is Some ==> template_code_parses(parse, template_text(v)->0),
        },
        Value::List(terms) => terms_templates_parse(parse, terms),
        _ => template_text(v) is Some ==> template_code_parses(parse, template_text(v)->0),
    }
}

/// `parse` succeeds on the code of every string template in the terms that
/// pruning keeps.
pub open spec fn terms_templates_parse<F: Fn(&str) -> Result<Expr, Vec<Error>>>(parse: F, terms: Seq<Value>) -> bool
    decreases terms, 0nat,
{
    if terms.len() == 0 {
        true
    } else {
        terms_templates_parse(parse, terms.drop_last()) && (is_pruned(terms.last()) || templates_parse(
            parse,
            terms.last(),
        ))
    }
}

proof fn lemma_terms_templates_parse<F: Fn(&str) -> Result<Expr, Vec<Error>>>(parse: F, terms: Seq<Value>, i: int)
    requires
        terms_templates_parse(parse, terms),
        0 <= i < terms.len(),
    ensures
        terms_templates_parse(parse, terms.take(i)),
        is_pruned(terms[i]) || templates_parse(parse, terms[i]),
    decreases terms.len(),
{
    if i < terms.len() - 1 {
        lemma_terms_templates_parse(parse, terms.drop_last(), i);
        assert(terms.drop_last().take(i) =~= terms.take(i));
    } else {
        assert(terms.drop_last() =~= terms.take(i));
    }
}

/// Prunes the terms of a list, leaving out the dropped ones.
fn prune_terms<G: Fn(&str) -> Result<Expr, Vec<Error>> + Copy>(terms: &Vec<Expr>, parse: G) -> (r: Vec<Expr>)
    requires
        forall|a: &str| #[trigger] call_requires(parse, (a,)),
        terms_templates_parse(parse, models(terms@)),
    ensures
        pruned_terms_hold(parse, models(terms@), models(r@)),
    decreases terms, 0nat,
{
    let ghost ms = models(terms@);
    let mut out: Vec<Expr> = Vec::new();
    let mut i: usize = 0;
    assert(ms.take(0) =~= Seq::<Value>::empty());
    while i < terms.len()
        invariant
            i <= terms@.len(),
            ms == models(terms@),
            terms_templates_parse(parse, ms),
            forall|a: &str| #[trigger] call_requires(parse, (a,)),
            pruned_terms_hold(parse, ms.take(i as int), models(out@)),
        decreases terms@.len() - i,
    {
        proof {
            assert(decreases_to!(*terms => terms@));
            assert(decreases_to!(terms@ => terms@[i as int]));
            lemma_terms_templates_parse(parse, ms, i as int);
            assert(ms.take(i + 1).drop_last() =~= ms.take(i as int));
            assert(ms.take(i + 1).last() == terms@[i as int].model());
        }
        let ghost before = out@;
        match prune_ref(&terms[i], parse) {
            Some(e) => {
                let ghost em = e.model();
                out.push(e);
                assert(models(out@) =~= models(before).push(em));
                assert(models(out@).drop_last() =~= models(before));
            },
            None => {},
        }
        i = i + 1;
    }
    assert(ms.take(terms@.len() as int) =~= ms);
    out
}

/// Prunes the expression and every list in it.
fn prune_ref<G: Fn(&str) -> Result<Expr, Vec<Error>> + Copy>(expr: &Expr, parse: G) -> (r: Option<Expr>)
    requires
        forall|a: &str| #[trigger] call_requires(parse, (a,)),
        templates_parse(parse, expr.model()),
    ensures
        is_pruned(expr.model()) ==> r is None,
        !is_pruned(expr.model()) ==> (r matches Some(e) && pruned_holds(parse, expr.model(), e.model())),
    decreases expr, 1nat,
{
    match expr {
        Expr::Annotated(inner, anns) => match &**inner {
            Expr::List(terms) => {
                assert(inner.model() == Value::List(models(terms@)));
                let rs = prune_terms(terms, parse);
                let ghost rm = models(rs@);
                let list = Expr::List(rs);
                assert(list.model() == Value::List(rm));
                Some(Expr::Annotated(Box::new(list), crate::expr::clone_pairs(anns)))
            },
            _ => prune_fn(expr.deep_clone(), parse),
        },
        Expr::List(terms) => {
            let rs = prune_terms(terms, parse);
            Some(Expr::List(rs))
        },
        _ => prune_fn(expr.deep_clone(), parse),
    }
}

/// Prunes the expression: comments, text separators and annotations are
/// dropped at every depth, and string templates become `(format ...)`
/// lists. The terms of a list, under its annotations, are pruned before the
/// list; `None` where the expression itself is dropped.
pub fn prune<F: Fn(&str) -> Result<Expr, Vec<Error>>>(expr: Expr, parse: F) -> (r: Option<Expr>)
    requires
        forall|a: &str| #[trigger] call_requires(parse, (a,)),
        templates_parse(&parse, expr.model()),
    ensures
        is_pruned(expr.model()) ==> r is None,
        !is_pruned(expr.model()) ==> (r matches Some(e) && pruned_holds(&parse, expr.model(), e.model())),
{
    prune_ref(&expr, &parse)
}

} // verus!
