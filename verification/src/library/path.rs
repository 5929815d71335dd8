//! File-system paths.

use vstd::prelude::*;

use crate::args::{one_arg_problem};

use crate::context::{Context, Modules, bound_foreign, insert_foreign, lemma_bound_required, require_module};
use crate::expr::{Value};
use crate::foreign::ForeignFn;
use crate::error::{error_says, Error, ErrorKind};
use crate::expr::{string_of, Expr};
use crate::util::{find_char, find_spec, lemma_find_from_bounds, occurs_at, rfind_char, rfind_char_spec, to_chars};

verus! {

/// The modules after `setup_lib_path`: the bindings it adds to the `path` module.
pub open spec fn lib_path(m: Modules) -> Modules {
    let m = bound_foreign(m, "path"@, "get-dirname"@, ForeignFn::PathGetDirname);
    let m = bound_foreign(m, "path"@, "get-extension"@, ForeignFn::PathGetExtension);
    m
}

/// Binds the functions of this library in the `path` module.
pub fn setup_lib_path(context: &mut Context)
    requires
        old(context).wf(),
    ensures
        final(context).wf(),
        final(context).modules() == lib_path(old(context).modules()),
{
    let module = require_module("path", context);
    insert_foreign(context, module, "get-dirname", ForeignFn::PathGetDirname);
    proof {
        lemma_bound_required(old(context).modules(), "path"@, "get-dirname"@, Value::ForeignFunc(ForeignFn::PathGetDirname));
    }
    insert_foreign(context, module, "get-extension", ForeignFn::PathGetExtension);
}


/// The part of a path before its last `/`.
pub open spec fn dirname_spec(path: Seq<char>) -> Option<Seq<char>> {
    match rfind_char_spec(path, '/') {
        Some(i) => Some(path.take(i)),
        None => None,
    }
}

/// The part of a path after its first `.`, leading dots (hidden files) skipped.
pub open spec fn full_extension_spec(path: Seq<char>) -> Option<Seq<char>>
    decreases path.len(),
{
    match find_spec(path, seq!['.']) {
        Some(i) => if i == 0 {
            if path.len() > 0 {
                full_extension_spec(path.drop_first())
            } else {
                None
            }
        } else {
            Some(path.skip(i + 1))
        },
        None => None,
    }
}

proof fn lemma_rfind_char_bounds(s: Seq<char>, c: char)
    ensures
        rfind_char_spec(s, c) matches Some(i) ==> 0 <= i < s.len() && s[i] == c,
    decreases s.len(),
{
    if s.len() > 0 && s.last() != c {
        lemma_rfind_char_bounds(s.drop_last(), c);
    }
}

/// The directory part of a path: what comes before its last `/`.
pub fn get_dirname(path: &str) -> (r: Option<&str>)
    ensures
        dirname_spec(path@) matches Some(d) ==> (r matches Some(s) && s@ == d),
        dirname_spec(path@) is None ==> r is None,
{
    let chars = to_chars(path);
    proof { lemma_rfind_char_bounds(path@, '/'); }
    match rfind_char(&chars, '/') {
        Some(i) => Some(path.substring_char(0, i)),
        None => None,
    }
}

/// The full extension of a path: what comes after its first `.`, where the
/// dot of a hidden file does not count.
pub fn get_full_extension(path: &str) -> (r: Option<&str>)
    ensures
        full_extension_spec(path@) matches Some(x) ==> (r matches Some(s) && s@ == x),
        full_extension_spec(path@) is None ==> r is None,
    decreases path@.len(),
{
    let chars = to_chars(path);
    let mut dot: Vec<char> = Vec::new();
    dot.push('.');
    proof {
        assert(dot@ =~= seq!['.']);
        lemma_find_from_bounds(path@, seq!['.'], 0);
    }
    match find_char(&chars, '.') {
        Some(i) => {
            assert(occurs_at(path@, seq!['.'], i as int));
            if i == 0 {
                let rest = path.substring_char(1, chars.len());
                assert(rest@ =~= path@.drop_first());
                get_full_extension(rest)
            } else {
                assert(i < chars.len());
                let rest = path.substring_char(i + 1, chars.len());
                assert(rest@ =~= path@.skip(i + 1));
                Some(rest)
            }
        },
        None => None,
    }
}

/// `(path/get-dirname path)`: the directory part of the path, or the empty
/// string when the path has no `/`.
pub fn path_get_dirname(args: &[Expr], _context: &mut Context) -> (r: Result<Expr, Error>)
    ensures
        *final(_context) == *old(_context),
        args@.len() == 1 && string_of(args@[0].model()) is Some ==> (r matches Ok(e) && e.model()
            == Value::String(
            match dirname_spec(string_of(args@[0].model())->0) {
                Some(d) => d,
                None => Seq::empty(),
            },
        )),
        match one_arg_problem(
            args@,
            string_of(args@[0].model()) is Some,
            "requires a `path` argument"@,
            "`path` argument should be a String"@,
        ) {
            Some(m) => r matches Err(e) && error_says(e, ErrorKind::InvalidArguments, m),
            None => true,
        },
{
    if args.len() != 1 {
        return Err(Error::invalid_arguments("requires a `path` argument", None));
    }
    let Some(path) = args[0].as_string() else {
        return Err(Error::invalid_arguments("`path` argument should be a String", None));
    };
    match get_dirname(path.as_str()) {
        Some(d) => Ok(Expr::string(d)),
        None => {
            proof { reveal_strlit(""); }
            Ok(Expr::string(""))
        },
    }
}

/// `(path/get-extension path)`: the full extension of the path, or the
/// empty string when it has none.
pub fn path_get_extension(args: &[Expr], _context: &mut Context) -> (r: Result<Expr, Error>)
    ensures
        *final(_context) == *old(_context),
        args@.len() == 1 && string_of(args@[0].model()) is Some ==> (r matches Ok(e) && e.model()
            == Value::String(
            match full_extension_spec(string_of(args@[0].model())->0) {
                Some(x) => x,
                None => Seq::empty(),
            },
        )),
        match one_arg_problem(
            args@,
            string_of(args@[0].model()) is Some,
            "requires a `path` argument"@,
            "`path` argument should be a String"@,
        ) {
            Some(m) => r matches Err(e) && error_says(e, ErrorKind::InvalidArguments, m),
            None => true,
        },
{
    if args.len() != 1 {
        return Err(Error::invalid_arguments("requires a `path` argument", None));
    }
    let Some(path) = args[0].as_string() else {
        return Err(Error::invalid_arguments("`path` argument should be a String", None));
    };
    match get_full_extension(path.as_str()) {
        Some(x) => Ok(Expr::string(x)),
        None => {
            proof { reveal_strlit(""); }
            Ok(Expr::string(""))
        },
    }
}

/// The extension of a path is a part of the path that follows a dot, and it
/// holds every character after that dot.
pub proof fn law_full_extension_is_suffix(path: Seq<char>)
    ensures
        full_extension_spec(path) matches Some(x) ==> x.len() < path.len() && x =~= path.skip(
            path.len() - x.len(),
        ) && path[path.len() - x.len() - 1] == '.',
    decreases path.len(),
{
    lemma_find_from_bounds(path, seq!['.'], 0);
    match find_spec(path, seq!['.']) {
        Some(i) => {
            assert(occurs_at(path, seq!['.'], i));
            assert(path.subrange(i, i + 1)[0] == path[i]);
            if i == 0 {
                if path.len() > 0 {
                    law_full_extension_is_suffix(path.drop_first());
                    if let Some(x) = full_extension_spec(path.drop_first()) {
                        assert(path.drop_first()[path.len() - 1 - x.len() - 1] == path[path.len() - x.len() - 1]);
                        assert(path.drop_first().skip(path.len() - 1 - x.len()) =~= path.skip(path.len() - x.len()));
                    }
                }
            }
        },
        None => {},
    }
}

/// The directory part of a path is a proper prefix of it, followed in the
/// path by a `/`.
pub proof fn law_dirname_is_prefix(path: Seq<char>)
    ensures
        dirname_spec(path) matches Some(d) ==> d.len() < path.len() && d =~= path.take(d.len() as int)
            && path[d.len() as int] == '/',
{
    lemma_rfind_char_bounds(path, '/');
}

} // verus!
