//! Random numbers.

use vstd::prelude::*;

use rand::Rng;

use crate::context::{Context, Modules, bound_foreign, insert_foreign, lemma_bound_required, require_module};
use crate::error::{error_says, Error, ErrorKind};
use crate::expr::{int_of, Expr, Value};
use crate::foreign::ForeignFn;

verus! {

/// `Rng::gen_range(0..end)` on the thread's generator: a number drawn at
/// random from `0` up to, not including, `end`. Which one comes out is
/// chance; only its range is stated.
#[verifier::external_body]
fn random_below(end: i64) -> (r: i64)
    requires
        end > 0,
    ensures
        0 <= r < end,
{
    rand::thread_rng().gen_range(0..end)
}

/// `(random end)`: a random Int from `0` up to, not including, `end`.
pub fn random_int(args: &[Expr]) -> (r: Result<Expr, Error>)
    requires
        args@.len() >= 1 && int_of(args@[0].model()) is Some ==> int_of(args@[0].model())->0 > 0,
    ensures
        args@.len() == 0 ==> (r matches Err(e) && error_says(e, ErrorKind::InvalidArguments, "expected at least one argument"@)),
        args@.len() >= 1 && int_of(args@[0].model()) is None ==> (r matches Err(e) && error_says(
            e,
            ErrorKind::InvalidArguments,
            "expected Int argument"@,
        )),
        args@.len() >= 1 && int_of(args@[0].model()) is Some ==> (r matches Ok(e) && e.model() matches Value::Int(
            n,
        ) && 0 <= n < int_of(args@[0].model())->0),
{
    if args.len() == 0 {
        return Err(Error::invalid_arguments("expected at least one argument", None));
    }
    let Some(end) = args[0].as_int() else {
        return Err(Error::invalid_arguments("expected Int argument", None));
    };
    Ok(Expr::Int(random_below(end)))
}

/// The modules after `setup_lib_rand`: the bindings it adds to the `rng` module.
pub open spec fn lib_rand(m: Modules) -> Modules {
    let m = bound_foreign(m, "rng"@, "random"@, ForeignFn::RandomInt);
    m
}

/// Binds the functions of this library in the `rng` module.
pub fn setup_lib_rand(context: &mut Context)
    requires
        old(context).wf(),
    ensures
        final(context).wf(),
        final(context).modules() == lib_rand(old(context).modules()),
{
    let module = require_module("rng", context);
    insert_foreign(context, module, "random", ForeignFn::RandomInt);
    proof {
        lemma_bound_required(old(context).modules(), "rng"@, "random"@, Value::ForeignFunc(ForeignFn::RandomInt));
    }
}

} // verus!
