//! Decimal numbers.

use vstd::prelude::*;

use crate::args::{stringable_problem, unpack_stringable_arg};
use crate::context::{Context, Modules, bound_foreign, insert_foreign, lemma_bound_required, require_module};
use crate::error::{error_says, Error, ErrorKind};
use crate::expr::{decimal_in_range, push_str, stringable_of, Decimal, Expr, Value};
use crate::foreign::ForeignFn;

verus! {

/// The decimal, as mantissa and scale, that `rust_decimal` reads from a
/// text, where it reads one.
pub uninterp spec fn decimal_parse(text: Seq<char>) -> Option<(i128, u32)>;

/// The message of the error that `rust_decimal` gives for a text it does
/// not read as a decimal.
pub uninterp spec fn decimal_error_text(text: Seq<char>) -> Seq<char>;

/// `Decimal::from_str`: the decimal read from the text, with its mantissa
/// and scale, which `rust_decimal` keeps within 96 bits and 28 digits;
/// otherwise the message of its error. (`rust_decimal` keeps no sign for a
/// zero, so the mantissa and scale are all that it holds.)
#[verifier::external_body]
pub(crate) fn parse_decimal(text: &str) -> (r: Result<Decimal, String>)
    ensures
        r matches Ok(d) ==> decimal_parse(text@) == Some((d.mantissa, d.scale)) && decimal_in_range(d),
        r matches Err(m) ==> decimal_parse(text@) is None && m@ == decimal_error_text(text@),
{
    match text.parse::<rust_decimal::Decimal>() {
        Ok(d) => Ok(Decimal { mantissa: d.mantissa(), scale: d.scale() }),
        Err(e) => Err(e.to_string()),
    }
}

/// `(Dec string)`: the decimal number that the text denotes.
pub fn dec_from_string(args: &[Expr]) -> (r: Result<Expr, Error>)
    ensures
        args@.len() >= 1 && stringable_of(args@[0].model()) is Some ==> (match decimal_parse(
            stringable_of(args@[0].model())->0,
        ) {
            Some((m, sc)) => r matches Ok(e) && e.model() == Value::Dec(Decimal { mantissa: m, scale: sc }),
            None => r matches Err(e) && error_says(
                e,
                ErrorKind::InvalidArguments,
                "string=`"@ + stringable_of(args@[0].model())->0 + "` is not a valid Dec number"@,
            ),
        }),
        match stringable_problem(args@, 0, "string"@) {
            Some(m) => r matches Err(e) && error_says(e, ErrorKind::InvalidArguments, m),
            None => true,
        },
{
    let string = unpack_stringable_arg(args, 0, "string")?;
    match parse_decimal(string.as_str()) {
        Ok(d) => Ok(Expr::Dec(d)),
        Err(_) => {
            let mut msg = String::new();
            push_str(&mut msg, "string=`");
            push_str(&mut msg, string.as_str());
            push_str(&mut msg, "` is not a valid Dec number");
            Err(Error::invalid_arguments(msg.as_str(), None))
        },
    }
}

/// The modules after `setup_lib_dec`: the bindings it adds to the `prelude` module.
pub open spec fn lib_dec(m: Modules) -> Modules {
    let m = bound_foreign(m, "prelude"@, "Dec"@, ForeignFn::DecFromString);
    let m = bound_foreign(m, "prelude"@, "Dec$$String"@, ForeignFn::DecFromString);
    m
}

/// Binds the functions of this library in the `prelude` module.
pub fn setup_lib_dec(context: &mut Context)
    requires
        old(context).wf(),
    ensures
        final(context).wf(),
        final(context).modules() == lib_dec(old(context).modules()),
{
    let module = require_module("prelude", context);
    insert_foreign(context, module, "Dec", ForeignFn::DecFromString);
    proof {
        lemma_bound_required(old(context).modules(), "prelude"@, "Dec"@, Value::ForeignFunc(ForeignFn::DecFromString));
    }
    insert_foreign(context, module, "Dec$$String", ForeignFn::DecFromString);
}

} // verus!
