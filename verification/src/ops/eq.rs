//! Equality and ordering of Ints.

use vstd::prelude::*;

use crate::args::error_about;
use crate::error::{error_says, Error, ErrorKind};
use crate::expr::{int_of, text_of, Expr, Value};

verus! {

/// What is wrong with the arguments of the comparison `op` of two Ints.
pub open spec fn two_int_problem(args: Seq<Expr>, op: Seq<char>) -> Option<Seq<char>> {
    if args.len() != 2 {
        Some("`"@ + op + "` requires at least two arguments"@)
    } else if int_of(args[0].model()) is None {
        Some("`"@ + text_of(args[0].model()) + "` is not an Int"@)
    } else if int_of(args[1].model()) is None {
        Some("`"@ + text_of(args[1].model()) + "` is not an Int"@)
    } else {
        None
    }
}

/// The two Int arguments of the comparison `op`, or the error when there
/// are not exactly two Ints.
fn two_ints(args: &[Expr], op: &str) -> (r: Result<(i64, i64), Error>)
    ensures
        args@.len() == 2 && int_of(args@[0].model()) is Some && int_of(args@[1].model()) is Some
            ==> r == Ok::<(i64, i64), Error>((int_of(args@[0].model())->0, int_of(args@[1].model())->0)),
        match two_int_problem(args@, op@) {
            Some(m) => r matches Err(e) && error_says(e, ErrorKind::InvalidArguments, m),
            None => true,
        },
{
    if args.len() != 2 {
        let mut text = "`".to_owned();
        text.append(op);
        text.append("` requires at least two arguments");
        return Err(Error::invalid_arguments(text.as_str(), None));
    }
    let Some(a) = args[0].as_int() else {
        return Err(error_about("`", &args[0], "` is not an Int"));
    };
    let Some(b) = args[1].as_int() else {
        return Err(error_about("`", &args[1], "` is not an Int"));
    };
    Ok((a, b))
}

/// `(eq a b)`: whether two Ints are equal.
pub fn eq(args: &[Expr]) -> (r: Result<Expr, Error>)
    ensures
        args@.len() == 2 && int_of(args@[0].model()) is Some && int_of(args@[1].model()) is Some
            ==> (r matches Ok(e) && e.model() == Value::Bool(
            int_of(args@[0].model())->0 == int_of(args@[1].model())->0,
        )),
        match two_int_problem(args@, "eq"@) {
            Some(m) => r matches Err(e) && error_says(e, ErrorKind::InvalidArguments, m),
            None => true,
        },
{
    let (a, b) = two_ints(args, "eq")?;
    Ok(Expr::Bool(a == b))
}

/// `(> a b)`: whether the first Int is greater.
pub fn gt(args: &[Expr]) -> (r: Result<Expr, Error>)
    ensures
        args@.len() == 2 && int_of(args@[0].model()) is Some && int_of(args@[1].model()) is Some
            ==> (r matches Ok(e) && e.model() == Value::Bool(
            int_of(args@[0].model())->0 > int_of(args@[1].model())->0,
        )),
        match two_int_problem(args@, ">"@) {
            Some(m) => r matches Err(e) && error_says(e, ErrorKind::InvalidArguments, m),
            None => true,
        },
{
    let (a, b) = two_ints(args, ">")?;
    Ok(Expr::Bool(a > b))
}

/// `(< a b)`: whether the first Int is less.
pub fn lt(args: &[Expr]) -> (r: Result<Expr, Error>)
    ensures
        args@.len() == 2 && int_of(args@[0].model()) is Some && int_of(args@[1].model()) is Some
            ==> (r matches Ok(e) && e.model() == Value::Bool(
            int_of(args@[0].model())->0 < int_of(args@[1].model())->0,
        )),
        match two_int_problem(args@, "<"@) {
            Some(m) => r matches Err(e) && error_says(e, ErrorKind::InvalidArguments, m),
            None => true,
        },
{
    let (a, b) = two_ints(args, "<")?;
    Ok(Expr::Bool(a < b))
}

} // verus!
