//! Language primitives.

use vstd::prelude::*;

use crate::error::{error_says, Error, ErrorKind};
use crate::expr::{Expr, Value};

verus! {

/// `(ann x)`: checks that there is exactly one argument; the annotations
/// themselves are not reachable here, so the result is `()`.
pub fn ann(args: &[Expr]) -> (r: Result<Expr, Error>)
    ensures
        args@.len() == 1 ==> (r matches Ok(e) && e.model() == Value::One),
        args@.len() != 1 ==> (r matches Err(e) && error_says(e, ErrorKind::InvalidArguments, "`ann` requires one argument"@)),
{
    if args.len() != 1 {
        return Err(Error::invalid_arguments("`ann` requires one argument", None));
    }
    Ok(Expr::One)
}

} // verus!
