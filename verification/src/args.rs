//! Helpers that take the arguments of a foreign function apart.

use vstd::prelude::*;

use crate::error::{error_says, Error, ErrorKind};
use crate::expr::{
    array_of, bool_of, char_of, dict_of, int_of, models, pair_models, stringable_of, symbolic_of,
    text_of, Expr, Value,
};

verus! {

/// The message for a missing argument.
pub open spec fn missing_text(name: Seq<char>) -> Seq<char> {
    "missing `"@ + name + "` argument"@
}

/// The message for an argument of the wrong kind.
pub open spec fn invalid_text(name: Seq<char>, kind: Seq<char>) -> Seq<char> {
    "`"@ + name + "` argument should be "@ + kind
}

/// What is wrong with the argument at `index`, given whether it is of the
/// kind that is wanted: the message of the error, or `None`.
pub open spec fn arg_problem(args: Seq<Expr>, index: int, fits: bool, name: Seq<char>, kind: Seq<char>) -> Option<
    Seq<char>,
> {
    if index < 0 || index >= args.len() {
        Some(missing_text(name))
    } else if !fits {
        Some(invalid_text(name, kind))
    } else {
        None
    }
}

/// The message where the check does not hold; otherwise what the later
/// checks give.
pub open spec fn checked(holds: bool, message: Seq<char>, later: Option<Seq<char>>) -> Option<Seq<char>> {
    if holds {
        later
    } else {
        Some(message)
    }
}

/// The first of two problems, where there is one.
pub open spec fn first_problem(a: Option<Seq<char>>, b: Option<Seq<char>>) -> Option<Seq<char>> {
    match a {
        Some(m) => Some(m),
        None => b,
    }
}

/// What is wrong with the arguments of a function that takes exactly one,
/// given whether it is of the kind that is wanted: `count` where there is
/// not exactly one argument, `kind` where it is of another kind.
pub open spec fn one_arg_problem(args: Seq<Expr>, fits: bool, count: Seq<char>, kind: Seq<char>) -> Option<Seq<char>> {
    if args.len() != 1 {
        Some(count)
    } else if !fits {
        Some(kind)
    } else {
        None
    }
}

/// What is wrong with the arguments of a function that takes exactly two,
/// given whether each is of the kind that is wanted.
pub open spec fn two_arg_problem(
    args: Seq<Expr>,
    first_fits: bool,
    second_fits: bool,
    count: Seq<char>,
    first: Seq<char>,
    second: Seq<char>,
) -> Option<Seq<char>> {
    if args.len() != 2 {
        Some(count)
    } else if !first_fits {
        Some(first)
    } else if !second_fits {
        Some(second)
    } else {
        None
    }
}

/// What is wrong with the argument at `index`: it is missing.
pub open spec fn present_problem(args: Seq<Expr>, index: int, name: Seq<char>) -> Option<Seq<char>> {
    arg_problem(args, index, true, name, Seq::empty())
}

/// What is wrong with the argument at `index`, which should be an Int.
pub open spec fn int_problem(args: Seq<Expr>, index: int, name: Seq<char>) -> Option<Seq<char>> {
    arg_problem(args, index, int_of(args[index].model()) is Some, name, "an Int"@)
}

/// What is wrong with the argument at `index`, which should be a Bool.
pub open spec fn bool_problem(args: Seq<Expr>, index: int, name: Seq<char>) -> Option<Seq<char>> {
    arg_problem(args, index, bool_of(args[index].model()) is Some, name, "a Bool"@)
}

/// What is wrong with the argument at `index`, which should be a Char.
pub open spec fn char_problem(args: Seq<Expr>, index: int, name: Seq<char>) -> Option<Seq<char>> {
    arg_problem(args, index, char_of(args[index].model()) is Some, name, "a Char"@)
}

/// What is wrong with the argument at `index`, which should stand for text.
pub open spec fn stringable_problem(args: Seq<Expr>, index: int, name: Seq<char>) -> Option<Seq<char>> {
    arg_problem(args, index, stringable_of(args[index].model()) is Some, name, "a String"@)
}

/// What is wrong with the argument at `index`, which should be symbolic.
pub open spec fn symbolic_problem(args: Seq<Expr>, index: int, name: Seq<char>) -> Option<Seq<char>> {
    arg_problem(args, index, symbolic_of(args[index].model()) is Some, name, "a Symbol"@)
}

/// What is wrong with the argument at `index`, which should be an Array.
pub open spec fn array_problem(args: Seq<Expr>, index: int, name: Seq<char>) -> Option<Seq<char>> {
    arg_problem(args, index, array_of(args[index].model()) is Some, name, "an Array"@)
}

/// What is wrong with the argument at `index`, which should be a dictionary.
pub open spec fn dict_problem(args: Seq<Expr>, index: int, name: Seq<char>) -> Option<Seq<char>> {
    arg_problem(args, index, dict_of(args[index].model()) is Some, name, "a Map"@)
}

/// The error whose message shows the printed form of a value between two
/// texts, such as `` `x` is not an Int ``.
pub fn error_about(before: &str, v: &Expr, after: &str) -> (e: Error)
    ensures
        error_says(e, ErrorKind::InvalidArguments, before@ + text_of(v.model()) + after@),
{
    let mut text = before.to_owned();
    let shown = v.to_text();
    text.append(shown.as_str());
    text.append(after);
    Error::invalid_arguments(text.as_str(), None)
}

/// The error for a missing argument: `missing \`name\` argument`.
pub fn missing_argument(name: &str) -> (e: Error)
    ensures
        e.kind == ErrorKind::InvalidArguments,
        error_says(e, ErrorKind::InvalidArguments, missing_text(name@)),
{
    let mut text = "missing `".to_owned();
    text.append(name);
    text.append("` argument");
    proof {
        reveal_strlit("missing `");
        reveal_strlit("` argument");
    }
    Error::invalid_arguments(text.as_str(), None)
}

/// The error for an argument of the wrong kind: `` `name` argument should be a kind ``.
pub fn invalid_argument(name: &str, kind: &str) -> (e: Error)
    ensures
        e.kind == ErrorKind::InvalidArguments,
        error_says(e, ErrorKind::InvalidArguments, invalid_text(name@, kind@)),
{
    let mut text = "`".to_owned();
    text.append(name);
    text.append("` argument should be ");
    text.append(kind);
    proof {
        reveal_strlit("`");
        reveal_strlit("` argument should be ");
    }
    Error::invalid_arguments(text.as_str(), None)
}

/// The argument at `index`.
pub fn unpack_arg<'a>(args: &'a [Expr], index: usize, name: &str) -> (r: Result<&'a Expr, Error>)
    ensures
        index < args@.len() ==> (r matches Ok(e) && *e == args@[index as int]),
        index >= args@.len() ==> (r matches Err(e) && error_says(e, ErrorKind::InvalidArguments, missing_text(name@))),
{
    if index < args.len() {
        Ok(&args[index])
    } else {
        Err(missing_argument(name))
    }
}

/// The argument at `index`, which should be an Int.
pub fn unpack_int_arg(args: &[Expr], index: usize, name: &str) -> (r: Result<i64, Error>)
    ensures
        index < args@.len() && int_of(args@[index as int].model()) is Some ==> r == Ok::<
            i64,
            Error,
        >(int_of(args@[index as int].model())->0),
        match int_problem(args@, index as int, name@) {
            Some(m) => r matches Err(e) && error_says(e, ErrorKind::InvalidArguments, m),
            None => r is Ok,
        },
{
    if index >= args.len() {
        return Err(missing_argument(name));
    }
    match args[index].as_int() {
        Some(n) => Ok(n),
        None => Err(invalid_argument(name, "an Int")),
    }
}

/// The argument at `index`, which should be a Bool.
pub fn unpack_bool_arg(args: &[Expr], index: usize, name: &str) -> (r: Result<bool, Error>)
    ensures
        index < args@.len() && bool_of(args@[index as int].model()) is Some ==> r == Ok::<
            bool,
            Error,
        >(bool_of(args@[index as int].model())->0),
        match bool_problem(args@, index as int, name@) {
            Some(m) => r matches Err(e) && error_says(e, ErrorKind::InvalidArguments, m),
            None => r is Ok,
        },
{
    if index >= args.len() {
        return Err(missing_argument(name));
    }
    match args[index].as_bool() {
        Some(b) => Ok(b),
        None => Err(invalid_argument(name, "a Bool")),
    }
}

/// The argument at `index`, which should be a Char.
pub fn unpack_char_arg(args: &[Expr], index: usize, name: &str) -> (r: Result<char, Error>)
    ensures
        index < args@.len() && char_of(args@[index as int].model()) is Some ==> r == Ok::<
            char,
            Error,
        >(char_of(args@[index as int].model())->0),
        match char_problem(args@, index as int, name@) {
            Some(m) => r matches Err(e) && error_says(e, ErrorKind::InvalidArguments, m),
            None => r is Ok,
        },
{
    if index >= args.len() {
        return Err(missing_argument(name));
    }
    match args[index].as_char() {
        Some(c) => Ok(c),
        None => Err(invalid_argument(name, "a Char")),
    }
}

/// The argument at `index`, which should stand for text (a string, a symbol
/// or a key-symbol).
pub fn unpack_stringable_arg<'a>(args: &'a [Expr], index: usize, name: &str) -> (r: Result<
    &'a String,
    Error,
>)
    ensures
        index < args@.len() && stringable_of(args@[index as int].model()) is Some ==> (r matches Ok(
            s,
        ) && s@ == stringable_of(args@[index as int].model())->0),
        match stringable_problem(args@, index as int, name@) {
            Some(m) => r matches Err(e) && error_says(e, ErrorKind::InvalidArguments, m),
            None => r is Ok,
        },
{
    if index >= args.len() {
        return Err(missing_argument(name));
    }
    match args[index].as_stringable() {
        Some(s) => Ok(s),
        None => Err(invalid_argument(name, "a String")),
    }
}

/// The argument at `index`, which should be symbolic (a symbol, a
/// key-symbol or a type).
pub fn unpack_symbolic_arg<'a>(args: &'a [Expr], index: usize, name: &str) -> (r: Result<
    &'a String,
    Error,
>)
    ensures
        index < args@.len() && symbolic_of(args@[index as int].model()) is Some ==> (r matches Ok(
            s,
        ) && s@ == symbolic_of(args@[index as int].model())->0),
        match symbolic_problem(args@, index as int, name@) {
            Some(m) => r matches Err(e) && error_says(e, ErrorKind::InvalidArguments, m),
            None => r is Ok,
        },
{
    if index >= args.len() {
        return Err(missing_argument(name));
    }
    match args[index].as_symbolic() {
        Some(s) => Ok(s),
        None => Err(invalid_argument(name, "a Symbol")),
    }
}

/// The argument at `index`, which should be an Array.
pub fn unpack_array_arg<'a>(args: &'a [Expr], index: usize, name: &str) -> (r: Result<
    &'a Vec<Expr>,
    Error,
>)
    ensures
        index < args@.len() && array_of(args@[index as int].model()) is Some ==> (r matches Ok(v)
            && models(v@) == array_of(args@[index as int].model())->0),
        match array_problem(args@, index as int, name@) {
            Some(m) => r matches Err(e) && error_says(e, ErrorKind::InvalidArguments, m),
            None => r is Ok,
        },
{
    if index >= args.len() {
        return Err(missing_argument(name));
    }
    match args[index].as_array() {
        Some(v) => Ok(v),
        None => Err(invalid_argument(name, "an Array")),
    }
}

/// The argument at `index`, which should be a dictionary.
pub fn unpack_dict_arg<'a>(args: &'a [Expr], index: usize, name: &str) -> (r: Result<
    &'a Vec<(String, Expr)>,
    Error,
>)
    ensures
        index < args@.len() && dict_of(args@[index as int].model()) is Some ==> (r matches Ok(v)
            && pair_models(v@) == dict_of(args@[index as int].model())->0),
        match dict_problem(args@, index as int, name@) {
            Some(m) => r matches Err(e) && error_says(e, ErrorKind::InvalidArguments, m),
            None => r is Ok,
        },
{
    if index >= args.len() {
        return Err(missing_argument(name));
    }
    match args[index].as_dict() {
        Some(v) => Ok(v),
        None => Err(invalid_argument(name, "a Map")),
    }
}

} // verus!
