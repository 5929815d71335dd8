//! Characters.

use vstd::prelude::*;

use crate::context::{Context, Modules, bound_foreign, insert_foreign, lemma_bound_required, require_module};
use crate::expr::{Value};
use crate::foreign::ForeignFn;
use crate::args::{char_problem, first_problem, stringable_problem, unpack_char_arg, unpack_stringable_arg};
use crate::error::{error_says, Error, ErrorKind};
use crate::expr::{char_of, stringable_of, Expr};

verus! {

/// The modules after `setup_lib_char`: the bindings it adds to the `prelude` module.
pub open spec fn lib_char(m: Modules) -> Modules {
    let m = bound_foreign(m, "prelude"@, "Char"@, ForeignFn::CharNew);
    let m = bound_foreign(m, "prelude"@, "is-uppercase?"@, ForeignFn::CharIsUppercase);
    let m = bound_foreign(m, "prelude"@, "is-lowercase?"@, ForeignFn::CharIsLowercase);
    m
}

/// Binds the functions of this library in the `prelude` module.
pub fn setup_lib_char(context: &mut Context)
    requires
        old(context).wf(),
    ensures
        final(context).wf(),
        final(context).modules() == lib_char(old(context).modules()),
{
    let module = require_module("prelude", context);
    insert_foreign(context, module, "Char", ForeignFn::CharNew);
    proof {
        lemma_bound_required(old(context).modules(), "prelude"@, "Char"@, Value::ForeignFunc(ForeignFn::CharNew));
    }
    insert_foreign(context, module, "is-uppercase?", ForeignFn::CharIsUppercase);
    insert_foreign(context, module, "is-lowercase?", ForeignFn::CharIsLowercase);
}


/// Whether Unicode gives the character the `Uppercase` property.
pub uninterp spec fn unicode_uppercase(c: char) -> bool;

/// Whether Unicode gives the character the `Lowercase` property.
pub uninterp spec fn unicode_lowercase(c: char) -> bool;

/// `char::is_uppercase`: the Unicode `Uppercase` property of the character.
#[verifier::external_body]
pub(crate) fn is_uppercase(c: char) -> (r: bool)
    ensures
        r == unicode_uppercase(c),
{
    c.is_uppercase()
}

/// `char::is_lowercase`: the Unicode `Lowercase` property of the character.
#[verifier::external_body]
fn is_lowercase(c: char) -> (r: bool)
    ensures
        r == unicode_lowercase(c),
{
    c.is_lowercase()
}

/// The text is one byte long in UTF-8: a single ASCII character.
pub open spec fn is_one_byte_text(s: Seq<char>) -> bool {
    s.len() == 1 && (s[0] as u32) < 128
}

/// `(Char "c")`: the character of a one-byte string.
pub fn char_new(args: &[Expr]) -> (r: Result<Expr, Error>)
    ensures
        args@.len() >= 1 && (stringable_of(args@[0].model()) matches Some(s) && is_one_byte_text(s))
            ==> (r matches Ok(e) && e.model() == Value::Char(stringable_of(args@[0].model())->0[0])),
        match first_problem(
            stringable_problem(args@, 0, "c"@),
            if is_one_byte_text(stringable_of(args@[0].model())->0) {
                None
            } else {
                Some("the string argument should be one char long"@)
            },
        ) {
            Some(m) => r matches Err(e) && error_says(e, ErrorKind::InvalidArguments, m),
            None => true,
        },
{
    let c = unpack_stringable_arg(args, 0, "c")?;
    let s = c.as_str();
    if s.unicode_len() != 1 {
        return Err(Error::invalid_arguments("the string argument should be one char long", None));
    }
    let first = s.get_char(0);
    if first as u32 >= 128 {
        return Err(Error::invalid_arguments("the string argument should be one char long", None));
    }
    Ok(Expr::Char(first))
}

/// `(is-uppercase? c)`: whether the Char argument is uppercase.
pub fn char_is_uppercase(args: &[Expr]) -> (r: Result<Expr, Error>)
    ensures
        args@.len() >= 1 && char_of(args@[0].model()) is Some ==> (r matches Ok(e) && e.model()
            == Value::Bool(unicode_uppercase(char_of(args@[0].model())->0))),
        match char_problem(args@, 0, "char"@) {
            Some(m) => r matches Err(e) && error_says(e, ErrorKind::InvalidArguments, m),
            None => true,
        },
{
    let c = unpack_char_arg(args, 0, "char")?;
    Ok(Expr::Bool(is_uppercase(c)))
}

/// `(is-lowercase? c)`: whether the Char argument is lowercase.
pub fn char_is_lowercase(args: &[Expr]) -> (r: Result<Expr, Error>)
    ensures
        args@.len() >= 1 && char_of(args@[0].model()) is Some ==> (r matches Ok(e) && e.model()
            == Value::Bool(unicode_lowercase(char_of(args@[0].model())->0))),
        match char_problem(args@, 0, "char"@) {
            Some(m) => r matches Err(e) && error_says(e, ErrorKind::InvalidArguments, m),
            None => true,
        },
{
    let c = unpack_char_arg(args, 0, "char")?;
    Ok(Expr::Bool(is_lowercase(c)))
}

} // verus!
