//! Complex numbers.

use vstd::prelude::*;

use crate::context::{Context, Modules, bound_foreign, insert_foreign, lemma_bound_required, require_module};
use crate::error::Error;
use crate::expr::{annotate_type, annotated_value, Expr, Float64, FloatValue, Value};
use crate::foreign::ForeignFn;

verus! {

/// The Float zero.
pub open spec fn zero_float() -> Value {
    Value::Float(FloatValue { bits: 0, text: "0"@ })
}

/// The Float zero, as an expression.
fn zero() -> (r: Expr)
    ensures
        r.model() == zero_float(),
{
    Expr::Float(Float64 { bits: 0, text: "0".to_owned() })
}

/// `(Complex re im)`: a complex number, an Array of its real and imaginary
/// parts of type `Complex`; a missing part is the Float zero.
pub fn complex_new(args: &[Expr]) -> (r: Result<Expr, Error>)
    ensures
        r matches Ok(e) && e.model() == annotated_value(
            Value::Array(seq![
                if args@.len() >= 1 { args@[0].model() } else { zero_float() },
                if args@.len() >= 2 { args@[1].model() } else { zero_float() },
            ]),
            "type"@,
            Value::Type("Complex"@),
        ),
{
    let re = if args.len() >= 1 { args[0].deep_clone() } else { zero() };
    let im = if args.len() >= 2 { args[1].deep_clone() } else { zero() };
    let ghost rm = re.model();
    let ghost im_m = im.model();
    let mut items: Vec<Expr> = Vec::new();
    items.push(re);
    items.push(im);
    assert(crate::expr::models(items@) =~= seq![rm, im_m]);
    Ok(annotate_type(Expr::Array(items), "Complex"))
}

/// The modules after `setup_lib_math_complex`: the bindings it adds to the `math/complex` module.
pub open spec fn lib_math_complex(m: Modules) -> Modules {
    let m = bound_foreign(m, "math/complex"@, "Complex"@, ForeignFn::ComplexNew);
    m
}

/// Binds the functions of this library in the `math/complex` module.
pub fn setup_lib_math_complex(context: &mut Context)
    requires
        old(context).wf(),
    ensures
        final(context).wf(),
        final(context).modules() == lib_math_complex(old(context).modules()),
{
    let module = require_module("math/complex", context);
    insert_foreign(context, module, "Complex", ForeignFn::ComplexNew);
    proof {
        lemma_bound_required(old(context).modules(), "math/complex"@, "Complex"@, Value::ForeignFunc(ForeignFn::ComplexNew));
    }
}

} // verus!
