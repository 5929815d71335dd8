//! Bytes.

use vstd::prelude::*;

use crate::context::{Context, Modules, bound_foreign, insert_foreign, lemma_bound_required, require_module};
use crate::expr::{Value};
use crate::foreign::ForeignFn;
use crate::args::{first_problem, int_problem, unpack_int_arg};
use crate::error::{error_says, Error, ErrorKind};
use crate::expr::{int_of, Expr};

verus! {

/// The modules after `setup_lib_u8`: the bindings it adds to the `prelude` module.
pub open spec fn lib_u8(m: Modules) -> Modules {
    let m = bound_foreign(m, "prelude"@, "U8"@, ForeignFn::U8New);
    m
}

/// Binds the functions of this library in the `prelude` module.
pub fn setup_lib_u8(context: &mut Context)
    requires
        old(context).wf(),
    ensures
        final(context).wf(),
        final(context).modules() == lib_u8(old(context).modules()),
{
    let module = require_module("prelude", context);
    insert_foreign(context, module, "U8", ForeignFn::U8New);
    proof {
        lemma_bound_required(old(context).modules(), "prelude"@, "U8"@, Value::ForeignFunc(ForeignFn::U8New));
    }
}


/// `(U8 n)`: the byte `n`, for an Int `n` in `0..256`.
pub fn u8_new(args: &[Expr]) -> (r: Result<Expr, Error>)
    ensures
        args@.len() >= 1 && (int_of(args@[0].model()) matches Some(n) && 0 <= n < 256) ==> (r matches Ok(
            e,
        ) && e.model() == Value::U8(int_of(args@[0].model())->0 as u8)),
        match first_problem(
            int_problem(args@, 0, "value"@),
            if 0 <= int_of(args@[0].model())->0 < 256 {
                None
            } else {
                Some("U8 values should be in 0..256"@)
            },
        ) {
            Some(m) => r matches Err(e) && error_says(e, ErrorKind::InvalidArguments, m),
            None => true,
        },
{
    let value = unpack_int_arg(args, 0, "value")?;
    if !(0 <= value && value < 256) {
        return Err(Error::invalid_arguments("U8 values should be in 0..256", None));
    }
    Ok(Expr::U8(value as u8))
}

} // verus!
