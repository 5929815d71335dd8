//! Equality and ordering of values.

use vstd::prelude::*;

use crate::context::{Context, Modules, bound_foreign, insert_foreign, lemma_bound_required, require_module};
use crate::expr::{Value};
use crate::foreign::ForeignFn;
use crate::args::{first_problem, int_problem, unpack_int_arg};
use crate::error::{error_says, Error, ErrorKind};
use crate::expr::{int_of, string_of, symbolic_of, Expr};

verus! {

/// The modules after `setup_lib_eq`: the bindings it adds to the `prelude` module.
pub open spec fn lib_eq(m: Modules) -> Modules {
    let m = bound_foreign(m, "prelude"@, "="@, ForeignFn::EqInt);
    let m = bound_foreign(m, "prelude"@, "=$$Int$$Int"@, ForeignFn::EqInt);
    let m = bound_foreign(m, "prelude"@, "=$$Float$$Float"@, ForeignFn::EqFloat);
    let m = bound_foreign(m, "prelude"@, "=$$String$$String"@, ForeignFn::EqString);
    let m = bound_foreign(m, "prelude"@, "=$$KeySymbol$$KeySymbol"@, ForeignFn::EqSymbol);
    let m = bound_foreign(m, "prelude"@, "=$$Type$$Type"@, ForeignFn::EqSymbol);
    let m = bound_foreign(m, "prelude"@, "=$$Type$$String"@, ForeignFn::EqSymbol);
    let m = bound_foreign(m, "prelude"@, "=$$Type$$KeySymbol"@, ForeignFn::EqSymbol);
    let m = bound_foreign(m, "prelude"@, "!="@, ForeignFn::NotEqInt);
    let m = bound_foreign(m, "prelude"@, "!=$$Int$$Int"@, ForeignFn::NotEqInt);
    let m = bound_foreign(m, "prelude"@, "!=$$Float$$Float"@, ForeignFn::NotEqFloat);
    let m = bound_foreign(m, "prelude"@, "!=$$String$$String"@, ForeignFn::NotEqString);
    let m = bound_foreign(m, "prelude"@, "!=$$Symbol$$Symbol"@, ForeignFn::NotEqSymbol);
    let m = bound_foreign(m, "prelude"@, "!=$$KeySymbol$$KeySymbol"@, ForeignFn::NotEqSymbol);
    let m = bound_foreign(m, "prelude"@, ">"@, ForeignFn::IntGt);
    let m = bound_foreign(m, "prelude"@, ">$$Int$$Int"@, ForeignFn::IntGt);
    let m = bound_foreign(m, "prelude"@, ">$$Float$$Float"@, ForeignFn::FloatGt);
    let m = bound_foreign(m, "prelude"@, "<"@, ForeignFn::IntLt);
    m
}

/// Binds the functions of this library in the `prelude` module.
pub fn setup_lib_eq(context: &mut Context)
    requires
        old(context).wf(),
    ensures
        final(context).wf(),
        final(context).modules() == lib_eq(old(context).modules()),
{
    let module = require_module("prelude", context);
    insert_foreign(context, module, "=", ForeignFn::EqInt);
    proof {
        lemma_bound_required(old(context).modules(), "prelude"@, "="@, Value::ForeignFunc(ForeignFn::EqInt));
    }
    insert_foreign(context, module, "=$$Int$$Int", ForeignFn::EqInt);
    insert_foreign(context, module, "=$$Float$$Float", ForeignFn::EqFloat);
    insert_foreign(context, module, "=$$String$$String", ForeignFn::EqString);
    insert_foreign(context, module, "=$$KeySymbol$$KeySymbol", ForeignFn::EqSymbol);
    insert_foreign(context, module, "=$$Type$$Type", ForeignFn::EqSymbol);
    insert_foreign(context, module, "=$$Type$$String", ForeignFn::EqSymbol);
    insert_foreign(context, module, "=$$Type$$KeySymbol", ForeignFn::EqSymbol);
    insert_foreign(context, module, "!=", ForeignFn::NotEqInt);
    insert_foreign(context, module, "!=$$Int$$Int", ForeignFn::NotEqInt);
    insert_foreign(context, module, "!=$$Float$$Float", ForeignFn::NotEqFloat);
    insert_foreign(context, module, "!=$$String$$String", ForeignFn::NotEqString);
    insert_foreign(context, module, "!=$$Symbol$$Symbol", ForeignFn::NotEqSymbol);
    insert_foreign(context, module, "!=$$KeySymbol$$KeySymbol", ForeignFn::NotEqSymbol);
    insert_foreign(context, module, ">", ForeignFn::IntGt);
    insert_foreign(context, module, ">$$Int$$Int", ForeignFn::IntGt);
    insert_foreign(context, module, ">$$Float$$Float", ForeignFn::FloatGt);
    insert_foreign(context, module, "<", ForeignFn::IntLt);
}


/// What is wrong with the two arguments of a comparison, given whether each
/// is of the kind it compares: the message of the error, or `None`.
pub open spec fn pair_problem(args: Seq<Expr>, first_fits: bool, second_fits: bool) -> Option<Seq<char>> {
    if args.len() != 2 {
        Some("requires two arguments"@)
    } else if !first_fits {
        Some("invalid first argument"@)
    } else if !second_fits {
        Some("invalid second argument"@)
    } else {
        None
    }
}

/// `(= a b)` on two Ints.
pub fn eq_int(args: &[Expr], _context: &mut Context) -> (r: Result<Expr, Error>)
    ensures
        *final(_context) == *old(_context),
        args@.len() >= 2 && int_of(args@[0].model()) is Some && int_of(args@[1].model()) is Some ==> (r matches Ok(e) && e.model() == Value::Bool(
            int_of(args@[0].model())->0 == int_of(args@[1].model())->0,
        )),
        match first_problem(int_problem(args@, 0, "a"@), int_problem(args@, 1, "b"@)) {
            Some(m) => r matches Err(e) && error_says(e, ErrorKind::InvalidArguments, m),
            None => true,
        },
{
    let a = unpack_int_arg(args, 0, "a")?;
    let b = unpack_int_arg(args, 1, "b")?;
    Ok(Expr::Bool(a == b))
}

/// `(= a b)` on two Strings.
pub fn eq_string(args: &[Expr], _context: &mut Context) -> (r: Result<Expr, Error>)
    ensures
        *final(_context) == *old(_context),
        args@.len() == 2 && string_of(args@[0].model()) is Some && string_of(args@[1].model()) is Some ==> (r matches Ok(e) && e.model() == Value::Bool(
            string_of(args@[0].model())->0 == string_of(args@[1].model())->0,
        )),
        match pair_problem(args@, string_of(args@[0].model()) is Some, string_of(args@[1].model()) is Some) {
            Some(m) => r matches Err(e) && error_says(e, ErrorKind::InvalidArguments, m),
            None => true,
        },
{
    if args.len() != 2 {
        return Err(Error::invalid_arguments("requires two arguments", None));
    }
    let Some(a) = args[0].as_string() else {
        return Err(Error::invalid_arguments("invalid first argument", None));
    };
    let Some(b) = args[1].as_string() else {
        return Err(Error::invalid_arguments("invalid second argument", None));
    };
    Ok(Expr::Bool(*a == *b))
}

/// `(= a b)` on two symbolic values: symbols, key-symbols or types, by name.
pub fn eq_symbol(args: &[Expr], _context: &mut Context) -> (r: Result<Expr, Error>)
    ensures
        *final(_context) == *old(_context),
        args@.len() == 2 && symbolic_of(args@[0].model()) is Some && symbolic_of(args@[1].model()) is Some ==> (r matches Ok(e) && e.model() == Value::Bool(
            symbolic_of(args@[0].model())->0 == symbolic_of(args@[1].model())->0,
        )),
        match pair_problem(args@, symbolic_of(args@[0].model()) is Some, symbolic_of(args@[1].model()) is Some) {
            Some(m) => r matches Err(e) && error_says(e, ErrorKind::InvalidArguments, m),
            None => true,
        },
{
    if args.len() != 2 {
        return Err(Error::invalid_arguments("requires two arguments", None));
    }
    let Some(a) = args[0].as_symbolic() else {
        return Err(Error::invalid_arguments("invalid first argument", None));
    };
    let Some(b) = args[1].as_symbolic() else {
        return Err(Error::invalid_arguments("invalid second argument", None));
    };
    Ok(Expr::Bool(*a == *b))
}

/// `(!= a b)` on two Ints.
pub fn not_eq_int(args: &[Expr], _context: &mut Context) -> (r: Result<Expr, Error>)
    ensures
        *final(_context) == *old(_context),
        args@.len() == 2 && int_of(args@[0].model()) is Some && int_of(args@[1].model()) is Some ==> (r matches Ok(e) && e.model() == Value::Bool(
            int_of(args@[0].model())->0 != int_of(args@[1].model())->0,
        )),
        match pair_problem(args@, int_of(args@[0].model()) is Some, int_of(args@[1].model()) is Some) {
            Some(m) => r matches Err(e) && error_says(e, ErrorKind::InvalidArguments, m),
            None => true,
        },
{
    if args.len() != 2 {
        return Err(Error::invalid_arguments("requires two arguments", None));
    }
    let Some(a) = args[0].as_int() else {
        return Err(Error::invalid_arguments("invalid first argument", None));
    };
    let Some(b) = args[1].as_int() else {
        return Err(Error::invalid_arguments("invalid second argument", None));
    };
    Ok(Expr::Bool(a != b))
}

/// `(!= a b)` on two Strings.
pub fn not_eq_string(args: &[Expr], _context: &mut Context) -> (r: Result<Expr, Error>)
    ensures
        *final(_context) == *old(_context),
        args@.len() == 2 && string_of(args@[0].model()) is Some && string_of(args@[1].model()) is Some ==> (r matches Ok(e) && e.model() == Value::Bool(
            string_of(args@[0].model())->0 != string_of(args@[1].model())->0,
        )),
        match pair_problem(args@, string_of(args@[0].model()) is Some, string_of(args@[1].model()) is Some) {
            Some(m) => r matches Err(e) && error_says(e, ErrorKind::InvalidArguments, m),
            None => true,
        },
{
    if args.len() != 2 {
        return Err(Error::invalid_arguments("requires two arguments", None));
    }
    let Some(a) = args[0].as_string() else {
        return Err(Error::invalid_arguments("invalid first argument", None));
    };
    let Some(b) = args[1].as_string() else {
        return Err(Error::invalid_arguments("invalid second argument", None));
    };
    Ok(Expr::Bool(*a != *b))
}

/// `(!= a b)` on two symbolic values, by name.
pub fn not_eq_symbol(args: &[Expr], _context: &mut Context) -> (r: Result<Expr, Error>)
    ensures
        *final(_context) == *old(_context),
        args@.len() == 2 && symbolic_of(args@[0].model()) is Some && symbolic_of(args@[1].model()) is Some ==> (r matches Ok(e) && e.model() == Value::Bool(
            symbolic_of(args@[0].model())->0 != symbolic_of(args@[1].model())->0,
        )),
        match pair_problem(args@, symbolic_of(args@[0].model()) is Some, symbolic_of(args@[1].model()) is Some) {
            Some(m) => r matches Err(e) && error_says(e, ErrorKind::InvalidArguments, m),
            None => true,
        },
{
    if args.len() != 2 {
        return Err(Error::invalid_arguments("requires two arguments", None));
    }
    let Some(a) = args[0].as_symbolic() else {
        return Err(Error::invalid_arguments("invalid first argument", None));
    };
    let Some(b) = args[1].as_symbolic() else {
        return Err(Error::invalid_arguments("invalid second argument", None));
    };
    Ok(Expr::Bool(*a != *b))
}

/// `(> a b)` on two Ints.
pub fn int_gt(args: &[Expr], _context: &mut Context) -> (r: Result<Expr, Error>)
    ensures
        *final(_context) == *old(_context),
        args@.len() == 2 && int_of(args@[0].model()) is Some && int_of(args@[1].model()) is Some ==> (r matches Ok(e) && e.model() == Value::Bool(
            int_of(args@[0].model())->0 > int_of(args@[1].model())->0,
        )),
        match pair_problem(args@, int_of(args@[0].model()) is Some, int_of(args@[1].model()) is Some) {
            Some(m) => r matches Err(e) && error_says(e, ErrorKind::InvalidArguments, m),
            None => true,
        },
{
    if args.len() != 2 {
        return Err(Error::invalid_arguments("requires two arguments", None));
    }
    let Some(a) = args[0].as_int() else {
        return Err(Error::invalid_arguments("invalid first argument", None));
    };
    let Some(b) = args[1].as_int() else {
        return Err(Error::invalid_arguments("invalid second argument", None));
    };
    Ok(Expr::Bool(a > b))
}

/// `(< a b)` on two Ints.
pub fn lt(args: &[Expr], _context: &mut Context) -> (r: Result<Expr, Error>)
    ensures
        *final(_context) == *old(_context),
        args@.len() == 2 && int_of(args@[0].model()) is Some && int_of(args@[1].model()) is Some ==> (r matches Ok(e) && e.model() == Value::Bool(
            int_of(args@[0].model())->0 < int_of(args@[1].model())->0,
        )),
        match pair_problem(args@, int_of(args@[0].model()) is Some, int_of(args@[1].model()) is Some) {
            Some(m) => r matches Err(e) && error_says(e, ErrorKind::InvalidArguments, m),
            None => true,
        },
{
    if args.len() != 2 {
        return Err(Error::invalid_arguments("requires two arguments", None));
    }
    let Some(a) = args[0].as_int() else {
        return Err(Error::invalid_arguments("invalid first argument", None));
    };
    let Some(b) = args[1].as_int() else {
        return Err(Error::invalid_arguments("invalid second argument", None));
    };
    Ok(Expr::Bool(a < b))
}

} // verus!
