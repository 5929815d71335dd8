//! Floating-point numbers.

use vstd::prelude::*;

use crate::context::{Context, Modules, bound, bound_foreign, insert_foreign, lemma_bound_required, require_module};
use crate::expr::{Expr, Float64, FloatValue, Value};
use crate::foreign::ForeignFn;

verus! {

/// The text of the largest finite `f64`, as `Display` prints it.
pub open spec fn float_max_text() -> Seq<char> {
    "179769313486231570000000000000000000000000000000000000000000000000000000000000000000000000000000000000000000000000000000000000000000000000000000000000000000000000000000000000000000000000000000000000000000000000000000000000000000000000000000000000000000000000000000000000000000000000000000000000000000000000000"@
}

/// The largest finite `f64`.
pub open spec fn float_max_model() -> FloatValue {
    FloatValue { bits: 0x7fef_ffff_ffff_ffff, text: float_max_text() }
}

/// Positive infinity, which `Display` prints as `inf`.
pub open spec fn float_infinity_model() -> FloatValue {
    FloatValue { bits: 0x7ff0_0000_0000_0000, text: "inf"@ }
}

/// The largest finite `f64`.
pub fn float_max_value() -> (r: Expr)
    ensures
        r.model() == Value::Float(float_max_model()),
{
    Expr::Float(Float64 { bits: 0x7fef_ffff_ffff_ffff, text: "179769313486231570000000000000000000000000000000000000000000000000000000000000000000000000000000000000000000000000000000000000000000000000000000000000000000000000000000000000000000000000000000000000000000000000000000000000000000000000000000000000000000000000000000000000000000000000000000000000000000000000000".to_owned() })
}

/// Positive infinity.
pub fn float_infinity_value() -> (r: Expr)
    ensures
        r.model() == Value::Float(float_infinity_model()),
{
    Expr::Float(Float64 { bits: 0x7ff0_0000_0000_0000, text: "inf".to_owned() })
}

/// The modules after `setup_lib_float`: the bindings it adds to the `prelude` module.
pub open spec fn lib_float(m: Modules) -> Modules {
    let m = bound_foreign(m, "prelude"@, "Float"@, ForeignFn::FloatFromInt);
    let m = bound_foreign(m, "prelude"@, "Float$$Int"@, ForeignFn::FloatFromInt);
    let m = bound_foreign(m, "prelude"@, "Float$$Bool"@, ForeignFn::FloatFromBool);
    let m = bound_foreign(m, "prelude"@, "Float$$String"@, ForeignFn::FloatFromString);
    let m = bound_foreign(m, "prelude"@, "min"@, ForeignFn::FloatMin);
    let m = bound_foreign(m, "prelude"@, "min$$Float$$Float"@, ForeignFn::FloatMin);
    let m = bound_foreign(m, "prelude"@, "max"@, ForeignFn::FloatMax);
    let m = bound_foreign(m, "prelude"@, "max$$Float$$Float"@, ForeignFn::FloatMax);
    let m = bound_foreign(m, "prelude"@, "abs"@, ForeignFn::FloatAbs);
    let m = bound_foreign(m, "prelude"@, "abs$$Float"@, ForeignFn::FloatAbs);
    let m = bound_foreign(m, "prelude"@, "floor"@, ForeignFn::FloatFloor);
    let m = bound_foreign(m, "prelude"@, "floor$$Float"@, ForeignFn::FloatFloor);
    let m = bound_foreign(m, "prelude"@, "ceil"@, ForeignFn::FloatCeil);
    let m = bound_foreign(m, "prelude"@, "ceil$$Float"@, ForeignFn::FloatCeil);
    let m = bound_foreign(m, "prelude"@, "sqrt"@, ForeignFn::FloatSqrt);
    let m = bound_foreign(m, "prelude"@, "sqrt$$Float"@, ForeignFn::FloatSqrt);
    let m = bound(m, "prelude"@, "float/max"@, Value::Float(float_max_model()));
    let m = bound(m, "prelude"@, "float/infinity"@, Value::Float(float_infinity_model()));
    m
}

/// Binds the functions of this library in the `prelude` module.
pub fn setup_lib_float(context: &mut Context)
    requires
        old(context).wf(),
    ensures
        final(context).wf(),
        final(context).modules() == lib_float(old(context).modules()),
{
    let module = require_module("prelude", context);
    insert_foreign(context, module, "Float", ForeignFn::FloatFromInt);
    proof {
        lemma_bound_required(old(context).modules(), "prelude"@, "Float"@, Value::ForeignFunc(ForeignFn::FloatFromInt));
    }
    insert_foreign(context, module, "Float$$Int", ForeignFn::FloatFromInt);
    insert_foreign(context, module, "Float$$Bool", ForeignFn::FloatFromBool);
    insert_foreign(context, module, "Float$$String", ForeignFn::FloatFromString);
    insert_foreign(context, module, "min", ForeignFn::FloatMin);
    insert_foreign(context, module, "min$$Float$$Float", ForeignFn::FloatMin);
    insert_foreign(context, module, "max", ForeignFn::FloatMax);
    insert_foreign(context, module, "max$$Float$$Float", ForeignFn::FloatMax);
    insert_foreign(context, module, "abs", ForeignFn::FloatAbs);
    insert_foreign(context, module, "abs$$Float", ForeignFn::FloatAbs);
    insert_foreign(context, module, "floor", ForeignFn::FloatFloor);
    insert_foreign(context, module, "floor$$Float", ForeignFn::FloatFloor);
    insert_foreign(context, module, "ceil", ForeignFn::FloatCeil);
    insert_foreign(context, module, "ceil$$Float", ForeignFn::FloatCeil);
    insert_foreign(context, module, "sqrt", ForeignFn::FloatSqrt);
    insert_foreign(context, module, "sqrt$$Float", ForeignFn::FloatSqrt);
    context.insert_in(module, "float/max", float_max_value());
    context.insert_in(module, "float/infinity", float_infinity_value());
}

} // verus!
