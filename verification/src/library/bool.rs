//! Boolean functions.

use vstd::prelude::*;

use crate::args::{one_arg_problem};

use crate::context::{Context, Modules, bound_foreign, insert_foreign, lemma_bound_required, require_module};
use crate::expr::{Value};
use crate::foreign::ForeignFn;
use crate::error::{error_says, Error, ErrorKind};
use crate::expr::{bool_of, Expr};

verus! {

/// The modules after `setup_lib_bool`: the bindings it adds to the `prelude` module.
pub open spec fn lib_bool(m: Modules) -> Modules {
    let m = bound_foreign(m, "prelude"@, "not"@, ForeignFn::BoolNot);
    m
}

/// Binds the functions of this library in the `prelude` module.
pub fn setup_lib_bool(context: &mut Context)
    requires
        old(context).wf(),
    ensures
        final(context).wf(),
        final(context).modules() == lib_bool(old(context).modules()),
{
    let module = require_module("prelude", context);
    insert_foreign(context, module, "not", ForeignFn::BoolNot);
    proof {
        lemma_bound_required(old(context).modules(), "prelude"@, "not"@, Value::ForeignFunc(ForeignFn::BoolNot));
    }
}


/// `(not b)`: the negation of its one Bool argument.
pub fn bool_not(args: &[Expr], _context: &mut Context) -> (r: Result<Expr, Error>)
    ensures
        *final(_context) == *old(_context),
        args@.len() == 1 && bool_of(args@[0].model()) is Some ==> (r matches Ok(e) && e.model()
            == Value::Bool(!(bool_of(args@[0].model())->0))),
        match one_arg_problem(
            args@,
            bool_of(args@[0].model()) is Some,
            "expects one argument"@,
            "`not` argument should be boolean"@,
        ) {
            Some(m) => r matches Err(e) && error_says(e, ErrorKind::InvalidArguments, m),
            None => true,
        },
{
    if args.len() != 1 {
        return Err(Error::invalid_arguments("expects one argument", None));
    }
    let Some(predicate) = args[0].as_bool() else {
        return Err(Error::invalid_arguments("`not` argument should be boolean", None));
    };
    Ok(Expr::Bool(!predicate))
}

} // verus!
