//! Sets of values.

use vstd::prelude::*;

use crate::args::{one_arg_problem};

use crate::context::{Context, Modules, bound_foreign, insert_foreign, lemma_bound_required, require_module};
use crate::expr::{Value};
use crate::foreign::ForeignFn;
use crate::error::{error_says, Error, ErrorKind};
use crate::expr::{clone_exprs, join_set, models, set_of, split_set, unpacked, with_set_items, Expr};

verus! {

/// The modules after `setup_lib_set`: the bindings it adds to the `set` module.
pub open spec fn lib_set(m: Modules) -> Modules {
    let m = bound_foreign(m, "set"@, "Set"@, ForeignFn::SetNew);
    let m = bound_foreign(m, "set"@, "put$$Set$$Int"@, ForeignFn::SetPut);
    let m = bound_foreign(m, "set"@, "put$$Set$$Float"@, ForeignFn::SetPut);
    let m = bound_foreign(m, "set"@, "put$$Set$$String"@, ForeignFn::SetPut);
    let m = bound_foreign(m, "set"@, "values-of"@, ForeignFn::SetValues);
    let m = bound_foreign(m, "set"@, "values-of$$Set"@, ForeignFn::SetValues);
    m
}

/// Binds the functions of this library in the `set` module.
pub fn setup_lib_set(context: &mut Context)
    requires
        old(context).wf(),
    ensures
        final(context).wf(),
        final(context).modules() == lib_set(old(context).modules()),
{
    let module = require_module("set", context);
    insert_foreign(context, module, "Set", ForeignFn::SetNew);
    proof {
        lemma_bound_required(old(context).modules(), "set"@, "Set"@, Value::ForeignFunc(ForeignFn::SetNew));
    }
    insert_foreign(context, module, "put$$Set$$Int", ForeignFn::SetPut);
    insert_foreign(context, module, "put$$Set$$Float", ForeignFn::SetPut);
    insert_foreign(context, module, "put$$Set$$String", ForeignFn::SetPut);
    insert_foreign(context, module, "values-of", ForeignFn::SetValues);
    insert_foreign(context, module, "values-of$$Set", ForeignFn::SetValues);
}


/// The items after putting `x`: unchanged when an equal item is there,
/// otherwise `x` added at the end.
pub open spec fn put_item(items: Seq<Value>, x: Value) -> Seq<Value> {
    if items.contains(x) {
        items
    } else {
        items.push(x)
    }
}

/// Whether an item of `items` equals `x`.
fn contains_expr(items: &Vec<Expr>, x: &Expr) -> (r: bool)
    ensures
        r == models(items@).contains(x.model()),
{
    let ghost ms = models(items@);
    let mut i: usize = 0;
    while i < items.len()
        invariant
            i <= items@.len(),
            ms == models(items@),
            forall|j: int| 0 <= j < i ==> ms[j] != x.model(),
        decreases items@.len() - i,
    {
        if items[i].equals(x) {
            assert(ms[i as int] == x.model());
            return true;
        }
        i = i + 1;
    }
    false
}

/// `(Set)`: a new, empty set.
pub fn set_new(_args: &[Expr]) -> (r: Result<Expr, Error>)
    ensures
        r matches Ok(e) && e.model() == Value::SetOf(Seq::empty()),
{
    let items: Vec<Expr> = Vec::new();
    assert(models(items@) =~= Seq::<Value>::empty());
    Ok(Expr::SetOf(items))
}

/// `(put set x)`: adds `x` to the set, in place, unless an equal item is there.
pub fn set_put(args: &mut Vec<Expr>) -> (r: Result<Expr, Error>)
    ensures
        old(args)@.len() == 2 && set_of(old(args)@[0].model()) is Some ==> (r matches Ok(e)
            && e.model() == Value::Nothing && final(args)@.len() == 2 && final(args)@[0].model()
            == with_set_items(
            old(args)@[0].model(),
            put_item(set_of(old(args)@[0].model())->0, unpacked(old(args)@[1].model())),
        ) && final(args)@[1] == old(args)@[1]),
        old(args)@.len() != 2 ==> (r matches Err(e) && error_says(
            e,
            ErrorKind::InvalidArguments,
            "requires `this` and `value` arguments"@,
        ) && final(args)@ == old(args)@),
        old(args)@.len() == 2 && set_of(old(args)@[0].model()) is None ==> (r matches Err(e) && error_says(
            e,
            ErrorKind::InvalidArguments,
            "`this` argument should be a Set"@,
        ) && final(args)@ == old(args)@),
{
    if args.len() != 2 {
        return Err(Error::invalid_arguments("requires `this` and `value` arguments", None));
    }
    if args[0].as_set().is_none() {
        return Err(Error::invalid_arguments("`this` argument should be a Set", None));
    }
    let value = args[1].unpack().deep_clone();
    let mut target = Expr::Nothing;
    core::mem::swap(&mut target, &mut args[0]);
    let (mut items, anns) = split_set(target);
    let ghost ms = models(items@);
    let ghost x = value.model();
    if !contains_expr(&items, &value) {
        items.push(value);
        assert(models(items@) =~= ms.push(x));
    }
    let rebuilt = join_set(items, anns);
    args.set(0, rebuilt);
    Ok(Expr::Nothing)
}

/// `(values-of set)`: the items of the set, as an array.
pub fn set_values(args: &[Expr]) -> (r: Result<Expr, Error>)
    ensures
        args@.len() == 1 && set_of(args@[0].model()) is Some ==> (r matches Ok(e) && e.model()
            == Value::Array(set_of(args@[0].model())->0)),
        match one_arg_problem(
            args@,
            set_of(args@[0].model()) is Some,
            "requires `this` argument"@,
            "`this` argument should be a Set"@,
        ) {
            Some(m) => r matches Err(e) && error_says(e, ErrorKind::InvalidArguments, m),
            None => true,
        },
{
    if args.len() != 1 {
        return Err(Error::invalid_arguments("requires `this` argument", None));
    }
    let Some(items) = args[0].as_set() else {
        return Err(Error::invalid_arguments("`this` argument should be a Set", None));
    };
    Ok(Expr::array(clone_exprs(items)))
}

/// Putting a value that the set already holds changes nothing, and putting
/// one it does not hold adds it once: the items of a set stay distinct.
pub proof fn law_put_keeps_items_distinct(items: Seq<Value>, x: Value)
    requires
        forall|i: int, j: int| 0 <= i < j < items.len() ==> items[i] != items[j],
    ensures
        forall|i: int, j: int|
            0 <= i < j < put_item(items, x).len() ==> put_item(items, x)[i] != put_item(items, x)[j],
        put_item(items, x).contains(x),
        put_item(put_item(items, x), x) == put_item(items, x),
{
    let p = put_item(items, x);
    if !items.contains(x) {
        assert(p[items.len() as int] == x);
        assert forall|i: int, j: int| 0 <= i < j < p.len() implies p[i] != p[j] by {
            if j == items.len() {
                assert(p[i] == items[i]);
            }
        }
    } else {
        let k = choose|k: int| 0 <= k < items.len() && items[k] == x;
        assert(p[k] == x);
    }
    assert(p.contains(x)) by {
        if !items.contains(x) {
            assert(p[items.len() as int] == x);
        }
    }
}

} // verus!
