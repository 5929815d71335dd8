//! Integers.

use vstd::prelude::*;

use crate::context::{Context, Modules, bound_invocable, lemma_bound_required, require_module};
use crate::expr::{Expr, Value};
use crate::foreign::ForeignFn;
use crate::args::{bool_problem, first_problem, int_problem, stringable_problem, unpack_bool_arg, unpack_int_arg, unpack_stringable_arg};
use crate::error::{error_says, Error, ErrorKind};
use crate::expr::{bool_of, int_of, stringable_of};
use crate::util::{parse_i64_radix, parse_i64_spec};

verus! {

/// The modules after `setup_lib_int`: the bindings it adds to the `prelude` module.
pub open spec fn lib_int(m: Modules) -> Modules {
    let m = bound_invocable(m, "prelude"@, "Int$$Float"@, Value::ForeignFunc(ForeignFn::IntFromFloat));
    let m = bound_invocable(m, "prelude"@, "Int$$Bool"@, Value::ForeignFunc(ForeignFn::IntFromBool));
    let m = bound_invocable(m, "prelude"@, "Int$$String"@, Value::ForeignFunc(ForeignFn::IntFromString));
    let m = bound_invocable(m, "prelude"@, "bit-and"@, Value::ForeignFunc(ForeignFn::IntBitwiseAnd));
    let m = bound_invocable(m, "prelude"@, "bit-or"@, Value::ForeignFunc(ForeignFn::IntBitwiseOr));
    m
}

/// Binds the functions of this library in the `prelude` module.
pub fn setup_lib_int(context: &mut Context)
    requires
        old(context).wf(),
    ensures
        final(context).wf(),
        final(context).modules() == lib_int(old(context).modules()),
{
    let module = require_module("prelude", context);
    context.insert_invocable_in(module, "Int$$Float", Expr::ForeignFunc(ForeignFn::IntFromFloat));
    proof {
        lemma_bound_required(old(context).modules(), "prelude"@, "Int$$Float"@, Value::ForeignFunc(ForeignFn::IntFromFloat));
    }
    context.insert_invocable_in(module, "Int$$Bool", Expr::ForeignFunc(ForeignFn::IntFromBool));
    context.insert_invocable_in(module, "Int$$String", Expr::ForeignFunc(ForeignFn::IntFromString));
    context.insert_invocable_in(module, "bit-and", Expr::ForeignFunc(ForeignFn::IntBitwiseAnd));
    context.insert_invocable_in(module, "bit-or", Expr::ForeignFunc(ForeignFn::IntBitwiseOr));
}


/// `(Int b)`: 1 for true, 0 for false.
pub fn int_from_bool(args: &[Expr]) -> (r: Result<Expr, Error>)
    ensures
        args@.len() >= 1 && bool_of(args@[0].model()) is Some ==> (r matches Ok(e) && e.model()
            == Value::Int(if bool_of(args@[0].model())->0 { 1 } else { 0 })),
        match bool_problem(args@, 0, "value"@) {
            Some(m) => r matches Err(e) && error_says(e, ErrorKind::InvalidArguments, m),
            None => true,
        },
{
    let value = unpack_bool_arg(args, 0, "value")?;
    Ok(Expr::Int(if value { 1 } else { 0 }))
}

/// `(Int "123")`: the Int that the text spells in decimal.
pub fn int_from_string(args: &[Expr]) -> (r: Result<Expr, Error>)
    ensures
        args@.len() >= 1 && (stringable_of(args@[0].model()) matches Some(s) && parse_i64_spec(s, 10)
            is Some) ==> (r matches Ok(e) && e.model() == Value::Int(
            parse_i64_spec(stringable_of(args@[0].model())->0, 10)->0,
        )),
        match first_problem(
            stringable_problem(args@, 0, "string"@),
            if parse_i64_spec(stringable_of(args@[0].model())->0, 10) is Some {
                None
            } else {
                Some("the string is not a valid Int number"@)
            },
        ) {
            Some(m) => r matches Err(e) && error_says(e, ErrorKind::InvalidArguments, m),
            None => true,
        },
{
    let string = unpack_stringable_arg(args, 0, "string")?;
    let Ok(value) = parse_i64_radix(string.as_str(), 10) else {
        return Err(Error::invalid_arguments("the string is not a valid Int number", None));
    };
    Ok(Expr::Int(value))
}

/// `(bit-and n mask)`: the bitwise and of two Ints.
pub fn int_bitwise_and(args: &[Expr]) -> (r: Result<Expr, Error>)
    ensures
        args@.len() >= 2 && int_of(args@[0].model()) is Some && int_of(args@[1].model()) is Some
            ==> (r matches Ok(e) && e.model() == Value::Int(
            int_of(args@[0].model())->0 & int_of(args@[1].model())->0,
        )),
        match first_problem(int_problem(args@, 0, "n"@), int_problem(args@, 1, "mask"@)) {
            Some(m) => r matches Err(e) && error_says(e, ErrorKind::InvalidArguments, m),
            None => true,
        },
{
    let n = unpack_int_arg(args, 0, "n")?;
    let mask = unpack_int_arg(args, 1, "mask")?;
    Ok(Expr::Int(n & mask))
}

/// `(bit-or n mask)`: the bitwise or of two Ints.
pub fn int_bitwise_or(args: &[Expr]) -> (r: Result<Expr, Error>)
    ensures
        args@.len() >= 2 && int_of(args@[0].model()) is Some && int_of(args@[1].model()) is Some
            ==> (r matches Ok(e) && e.model() == Value::Int(
            int_of(args@[0].model())->0 | int_of(args@[1].model())->0,
        )),
        match first_problem(int_problem(args@, 0, "n"@), int_problem(args@, 1, "mask"@)) {
            Some(m) => r matches Err(e) && error_says(e, ErrorKind::InvalidArguments, m),
            None => true,
        },
{
    let n = unpack_int_arg(args, 0, "n")?;
    let mask = unpack_int_arg(args, 1, "mask")?;
    Ok(Expr::Int(n | mask))
}

} // verus!
