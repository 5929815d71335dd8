//! The arguments of the file operations. The host reads and writes the files.

use vstd::prelude::*;

use crate::error::{error_says, Error, ErrorKind};
use crate::expr::{string_of, Expr};

verus! {

/// The path of `(read-as-string path)`: the one argument, which should be a
/// String.
pub fn file_path_argument(args: &[Expr]) -> (r: Result<String, Error>)
    ensures
        args@.len() != 1 ==> (r matches Err(e) && error_says(
            e,
            ErrorKind::InvalidArguments,
            "`read_as_string` requires a `path` argument"@,
        )),
        args@.len() == 1 && string_of(args@[0].model()) is None ==> (r matches Err(e) && error_says(
            e,
            ErrorKind::InvalidArguments,
            "`path` argument should be a String"@,
        )),
        args@.len() == 1 && string_of(args@[0].model()) is Some ==> (r matches Ok(t) && t@ == string_of(
            args@[0].model(),
        )->0),
{
    if args.len() != 1 {
        return Err(Error::invalid_arguments("`read_as_string` requires a `path` argument", None));
    }
    let Some(path) = args[0].as_string() else {
        return Err(Error::invalid_arguments("`path` argument should be a String", None));
    };
    Ok(path.clone())
}

/// The path and the content of `(write-string path content)`: two
/// arguments, both Strings.
pub fn file_write_arguments(args: &[Expr]) -> (r: Result<(String, String), Error>)
    ensures
        args@.len() != 2 ==> (r matches Err(e) && error_says(
            e,
            ErrorKind::InvalidArguments,
            "`read_as_string` requires `path` and `content` arguments"@,
        )),
        args@.len() == 2 && string_of(args@[0].model()) is None ==> (r matches Err(e) && error_says(
            e,
            ErrorKind::InvalidArguments,
            "`path` argument should be a String"@,
        )),
        args@.len() == 2 && string_of(args@[0].model()) is Some && string_of(args@[1].model()) is None
            ==> (r matches Err(e) && error_says(e, ErrorKind::InvalidArguments, "`content` argument should be a String"@)),
        args@.len() == 2 && string_of(args@[0].model()) is Some && string_of(args@[1].model()) is Some
            ==> (r matches Ok((p, c)) && p@ == string_of(args@[0].model())->0 && c@ == string_of(
            args@[1].model(),
        )->0),
{
    if args.len() != 2 {
        return Err(Error::invalid_arguments("`read_as_string` requires `path` and `content` arguments", None));
    }
    let Some(path) = args[0].as_string() else {
        return Err(Error::invalid_arguments("`path` argument should be a String", None));
    };
    let Some(content) = args[1].as_string() else {
        return Err(Error::invalid_arguments("`content` argument should be a String", None));
    };
    Ok((path.clone(), content.clone()))
}

} // verus!
