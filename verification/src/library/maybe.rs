//! Optional values.

use vstd::prelude::*;

use crate::context::{Context, Modules, bound_foreign, insert_foreign, lemma_bound_required, require_module};
use crate::expr::{Value};
use crate::foreign::ForeignFn;
use crate::args::{missing_text, stringable_problem, unpack_arg, unpack_stringable_arg};
use crate::error::{error_says, Error, ErrorKind};
use crate::expr::{is_nothing, stringable_of, Expr};

verus! {

/// The modules after `setup_lib_maybe`: the bindings it adds to the `prelude` module.
pub open spec fn lib_maybe(m: Modules) -> Modules {
    let m = bound_foreign(m, "prelude"@, "is-some?"@, ForeignFn::IsSome);
    let m = bound_foreign(m, "prelude"@, "is-none?"@, ForeignFn::IsNone);
    let m = bound_foreign(m, "prelude"@, "some-or"@, ForeignFn::SomeOr);
    let m = bound_foreign(m, "prelude"@, "expect"@, ForeignFn::Expect);
    m
}

/// Binds the functions of this library in the `prelude` module.
pub fn setup_lib_maybe(context: &mut Context)
    requires
        old(context).wf(),
    ensures
        final(context).wf(),
        final(context).modules() == lib_maybe(old(context).modules()),
{
    let module = require_module("prelude", context);
    insert_foreign(context, module, "is-some?", ForeignFn::IsSome);
    proof {
        lemma_bound_required(old(context).modules(), "prelude"@, "is-some?"@, Value::ForeignFunc(ForeignFn::IsSome));
    }
    insert_foreign(context, module, "is-none?", ForeignFn::IsNone);
    insert_foreign(context, module, "some-or", ForeignFn::SomeOr);
    insert_foreign(context, module, "expect", ForeignFn::Expect);
}


/// `(is-none? x)`: whether the one argument is the none value.
pub fn is_none(args: &[Expr]) -> (r: Result<Expr, Error>)
    ensures
        args@.len() == 1 ==> (r matches Ok(e) && e.model() == Value::Bool(is_nothing(args@[0].model()))),
        args@.len() != 1 ==> (r matches Err(e) && error_says(e, ErrorKind::InvalidArguments, "one argument expected"@)),
{
    if args.len() != 1 {
        return Err(Error::invalid_arguments("one argument expected", None));
    }
    Ok(Expr::Bool(args[0].is_none()))
}

/// `(is-some? x)`: whether the one argument is anything but the none value.
pub fn is_some(args: &[Expr]) -> (r: Result<Expr, Error>)
    ensures
        args@.len() == 1 ==> (r matches Ok(e) && e.model() == Value::Bool(!is_nothing(args@[0].model()))),
        args@.len() != 1 ==> (r matches Err(e) && error_says(e, ErrorKind::InvalidArguments, "one argument expected"@)),
{
    if args.len() != 1 {
        return Err(Error::invalid_arguments("one argument expected", None));
    }
    Ok(Expr::Bool(!args[0].is_none()))
}

/// `(some-or x fallback)`: `x`, or `fallback` when `x` is the none value.
pub fn some_or(args: &[Expr]) -> (r: Result<Expr, Error>)
    ensures
        args@.len() >= 1 && !is_nothing(args@[0].model()) ==> (r matches Ok(e) && e.model() == args@[0].model()),
        args@.len() >= 2 && is_nothing(args@[0].model()) ==> (r matches Ok(e) && e.model() == args@[1].model()),
        args@.len() == 0 ==> (r matches Err(e) && error_says(e, ErrorKind::InvalidArguments, missing_text("expr"@))),
        args@.len() == 1 && is_nothing(args@[0].model()) ==> (r matches Err(e) && error_says(
            e,
            ErrorKind::InvalidArguments,
            missing_text("fallback"@),
        )),
{
    let expr = unpack_arg(args, 0, "expr")?;
    if expr.is_none() {
        let fallback = unpack_arg(args, 1, "fallback")?;
        return Ok(fallback.deep_clone());
    }
    Ok(expr.deep_clone())
}

/// `(expect x text)`: `x`, or a panic that says `Failed expect: text` when
/// `x` is the none value.
pub fn expect(args: &[Expr], _context: &mut Context) -> (r: Result<Expr, Error>)
    ensures
        *final(_context) == *old(_context),
        args@.len() >= 1 && !is_nothing(args@[0].model()) ==> (r matches Ok(e) && e.model() == args@[0].model()),
        args@.len() >= 2 && is_nothing(args@[0].model()) && stringable_of(args@[1].model()) is Some
            ==> (r matches Err(e) && e.kind == ErrorKind::Panic && e.notes@.len() == 1
            && e.notes@[0].text@ == "Failed expect: "@ + stringable_of(args@[1].model())->0),
        args@.len() == 0 ==> (r matches Err(e) && error_says(e, ErrorKind::InvalidArguments, missing_text("expr"@))),
        args@.len() >= 1 && is_nothing(args@[0].model()) ==> (match stringable_problem(args@, 1, "text"@) {
            Some(m) => r matches Err(e) && error_says(e, ErrorKind::InvalidArguments, m),
            None => true,
        }),
{
    let expr = unpack_arg(args, 0, "expr")?;
    if expr.is_none() {
        let text = unpack_stringable_arg(args, 1, "text")?;
        let mut message = "Failed expect: ".to_owned();
        message.append(text.as_str());
        return Err(Error::panic(message.as_str()));
    }
    Ok(expr.deep_clone())
}

} // verus!
