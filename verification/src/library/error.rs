//! Error values.

use vstd::prelude::*;

use crate::context::{Context, Modules, bound_foreign, insert_foreign, lemma_bound_required, require_module};
use crate::expr::{Value};
use crate::foreign::ForeignFn;
use crate::args::{stringable_problem, unpack_stringable_arg};
use crate::error::{error_says, Error, ErrorKind};
use crate::expr::{stringable_of, Expr};

verus! {

/// The modules after `setup_lib_error`: the bindings it adds to the `prelude` module.
pub open spec fn lib_error(m: Modules) -> Modules {
    let m = bound_foreign(m, "prelude"@, "Error"@, ForeignFn::ErrorNew);
    m
}

/// Binds the functions of this library in the `prelude` module.
pub fn setup_lib_error(context: &mut Context)
    requires
        old(context).wf(),
    ensures
        final(context).wf(),
        final(context).modules() == lib_error(old(context).modules()),
{
    let module = require_module("prelude", context);
    insert_foreign(context, module, "Error", ForeignFn::ErrorNew);
    proof {
        lemma_bound_required(old(context).modules(), "prelude"@, "Error"@, Value::ForeignFunc(ForeignFn::ErrorNew));
    }
}


/// `(Error reason)`: an error value with the given reason.
pub fn error_new(args: &[Expr], _context: &mut Context) -> (r: Result<Expr, Error>)
    ensures
        *final(_context) == *old(_context),
        args@.len() >= 1 && stringable_of(args@[0].model()) is Some ==> (r matches Ok(e)
            && e.model() == Value::Error(stringable_of(args@[0].model())->0)),
        match stringable_problem(args@, 0, "reason"@) {
            Some(m) => r matches Err(e) && error_says(e, ErrorKind::InvalidArguments, m),
            None => true,
        },
{
    let reason = unpack_stringable_arg(args, 0, "reason")?;
    Ok(Expr::error(reason.as_str()))
}

} // verus!
