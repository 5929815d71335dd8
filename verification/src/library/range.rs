//! Ranges of numbers.

use vstd::prelude::*;

use crate::args::{checked};

use crate::context::{Context, Modules, bound_foreign, insert_foreign, lemma_bound_required, require_module};
use crate::expr::{Value};
use crate::foreign::ForeignFn;
use crate::error::{error_says, Error, ErrorKind};
use crate::expr::{int_of, Expr};

verus! {

/// The modules after `setup_lib_range`: the bindings it adds to the `prelude` module.
pub open spec fn lib_range(m: Modules) -> Modules {
    let m = bound_foreign(m, "prelude"@, "Range"@, ForeignFn::RangeIntNew);
    let m = bound_foreign(m, "prelude"@, "Range$$Int$$Int"@, ForeignFn::RangeIntNew);
    let m = bound_foreign(m, "prelude"@, "Range$$Int$$Int$$Int"@, ForeignFn::RangeIntNew);
    let m = bound_foreign(m, "prelude"@, "Range$$Float$$Float"@, ForeignFn::RangeFloatNew);
    let m = bound_foreign(m, "prelude"@, "Range$$Float$$Float$$Float"@, ForeignFn::RangeFloatNew);
    let m = bound_foreign(m, "prelude"@, "contains?$$(Range Float)$$Float"@, ForeignFn::RangeFloatContains);
    let m = bound_foreign(m, "prelude"@, "surrounds?"@, ForeignFn::RangeFloatContains);
    let m = bound_foreign(m, "prelude"@, "surrounds?$$(Range Float)$$Float"@, ForeignFn::RangeFloatContains);
    m
}

/// Binds the functions of this library in the `prelude` module.
pub fn setup_lib_range(context: &mut Context)
    requires
        old(context).wf(),
    ensures
        final(context).wf(),
        final(context).modules() == lib_range(old(context).modules()),
{
    let module = require_module("prelude", context);
    insert_foreign(context, module, "Range", ForeignFn::RangeIntNew);
    proof {
        lemma_bound_required(old(context).modules(), "prelude"@, "Range"@, Value::ForeignFunc(ForeignFn::RangeIntNew));
    }
    insert_foreign(context, module, "Range$$Int$$Int", ForeignFn::RangeIntNew);
    insert_foreign(context, module, "Range$$Int$$Int$$Int", ForeignFn::RangeIntNew);
    insert_foreign(context, module, "Range$$Float$$Float", ForeignFn::RangeFloatNew);
    insert_foreign(context, module, "Range$$Float$$Float$$Float", ForeignFn::RangeFloatNew);
    insert_foreign(context, module, "contains?$$(Range Float)$$Float", ForeignFn::RangeFloatContains);
    insert_foreign(context, module, "surrounds?", ForeignFn::RangeFloatContains);
    insert_foreign(context, module, "surrounds?$$(Range Float)$$Float", ForeignFn::RangeFloatContains);
}


/// The step of a range when none is given: up when the end is not below the
/// start, down otherwise.
pub open spec fn default_step(start: i64, end: i64) -> i64 {
    if end >= start {
        1i64
    } else {
        -1i64
    }
}

/// `(Range start end step)`: the Int range; the step is optional.
pub fn range_int_new(args: &[Expr]) -> (r: Result<Expr, Error>)
    ensures
        ({
            let ok = args@.len() >= 2 && int_of(args@[0].model()) is Some && int_of(
                args@[1].model(),
            ) is Some && (args@.len() < 3 || int_of(args@[2].model()) is Some);
            let start = int_of(args@[0].model())->0;
            let end = int_of(args@[1].model())->0;
            let step = if args@.len() >= 3 {
                int_of(args@[2].model())->0
            } else {
                default_step(start, end)
            };
            &&& ok ==> (r matches Ok(e) && e.model() == Value::IntRange(start, end, step))
            &&& !ok ==> (match checked(
                    args@.len() >= 2,
                    "requires `start`, `end` arguments"@,
                    checked(
                        int_of(args@[0].model()) is Some,
                        "`start` argument is not Int"@,
                        checked(
                            int_of(args@[1].model()) is Some,
                            "`end` argument is not Int"@,
                            checked(
                                args@.len() < 3 || int_of(args@[2].model()) is Some,
                                "`step` argument is not Int"@,
                                None,
                            ),
                        ),
                    ),
                ) {
                Some(m) => r matches Err(e) && error_says(e, ErrorKind::InvalidArguments, m),
                None => false,
            })
        }),
{
    if args.len() < 2 {
        return Err(Error::invalid_arguments("requires `start`, `end` arguments", None));
    }
    let Some(start) = args[0].as_int() else {
        return Err(Error::invalid_arguments("`start` argument is not Int", None));
    };
    let Some(end) = args[1].as_int() else {
        return Err(Error::invalid_arguments("`end` argument is not Int", None));
    };
    let step = if args.len() >= 3 {
        let Some(step) = args[2].as_int() else {
            return Err(Error::invalid_arguments("`step` argument is not Int", None));
        };
        step
    } else if end >= start {
        1
    } else {
        -1
    };
    Ok(Expr::IntRange(start, end, step))
}

} // verus!
