//! Comparison.

use vstd::prelude::*;

use crate::context::{Context, Modules, bound_invocable, lemma_bound_required, require_module};
use std::cmp::Ordering;

use crate::expr::{Expr, Value, annotate_type, annotated_value, int_of};
use crate::foreign::ForeignFn;

verus! {

/// The ordering that an Int stands for: negative is less, zero equal,
/// positive greater.
pub fn rust_ordering_from_tan_ordering(tan_ordering: &Expr) -> (r: Option<Ordering>)
    ensures
        int_of(tan_ordering.model()) is None ==> r is None,
        int_of(tan_ordering.model()) matches Some(n) ==> (r matches Some(o) && (n < 0 ==> o is Less) && (n == 0
            ==> o is Equal) && (n > 0 ==> o is Greater)),
{
    let ordering = tan_ordering.as_int()?;
    if ordering < 0 {
        Some(Ordering::Less)
    } else if ordering == 0 {
        Some(Ordering::Equal)
    } else {
        Some(Ordering::Greater)
    }
}

/// The modules after `setup_lib_cmp`: the bindings it adds to the `prelude` module.
pub open spec fn lib_cmp(m: Modules) -> Modules {
    let m = bound_invocable(m, "prelude"@, "compare"@, Value::ForeignFunc(ForeignFn::IntCompare));
    let m = bound_invocable(m, "prelude"@, "compare$$Int$$Int"@, annotated_value(Value::ForeignFunc(ForeignFn::IntCompare), "type"@, Value::Type("Int"@)));
    let m = bound_invocable(m, "prelude"@, "compare$$String$$String"@, annotated_value(Value::ForeignFunc(ForeignFn::StringCompare), "type"@, Value::Type("String"@)));
    m
}

/// Binds the functions of this library in the `prelude` module.
pub fn setup_lib_cmp(context: &mut Context)
    requires
        old(context).wf(),
    ensures
        final(context).wf(),
        final(context).modules() == lib_cmp(old(context).modules()),
{
    let module = require_module("prelude", context);
    context.insert_invocable_in(module, "compare", Expr::ForeignFunc(ForeignFn::IntCompare));
    proof {
        lemma_bound_required(old(context).modules(), "prelude"@, "compare"@, Value::ForeignFunc(ForeignFn::IntCompare));
    }
    context.insert_invocable_in(module, "compare$$Int$$Int", annotate_type(Expr::ForeignFunc(ForeignFn::IntCompare), "Int"));
    context.insert_invocable_in(module, "compare$$String$$String", annotate_type(Expr::ForeignFunc(ForeignFn::StringCompare), "String"));
}

} // verus!
