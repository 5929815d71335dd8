//! The prelude: the functions every module sees.

use vstd::prelude::*;

use crate::context::{
    bound_foreign, insert_foreign, lemma_bound_required, require_module, Context, Modules,
};
use crate::expr::Value;
use crate::foreign::ForeignFn;
use crate::error::{error_says, Error, ErrorKind};
use crate::expr::{text_of, Expr};
use crate::library::bool::{lib_bool, setup_lib_bool};
use crate::library::buffer::{lib_buffer, setup_lib_buffer};
use crate::library::char::{lib_char, setup_lib_char};
use crate::library::cmp::{lib_cmp, setup_lib_cmp};
use crate::library::eq::{lib_eq, setup_lib_eq};
use crate::library::error::{lib_error, setup_lib_error};
use crate::library::float::{lib_float, setup_lib_float};
use crate::library::integer::{lib_int, setup_lib_int};
use crate::library::io::{lib_io, setup_lib_io};
use crate::library::lang::{lib_lang, setup_lib_lang};
use crate::library::maybe::{lib_maybe, setup_lib_maybe};
use crate::library::range::{lib_range, setup_lib_range};
use crate::library::seq::{lib_seq, setup_lib_seq};
use crate::library::u8::{lib_u8, setup_lib_u8};

verus! {

/// The modules after `setup_lib_prelude`: every prelude library in turn,
/// then the `to-string` functions.
pub open spec fn lib_prelude(m: Modules) -> Modules {
    let m = lib_bool(m);
    let m = lib_eq(m);
    let m = lib_cmp(m);
    let m = lib_io(m);
    let m = lib_seq(m);
    let m = lib_lang(m);
    let m = lib_range(m);
    let m = lib_buffer(m);
    let m = lib_char(m);
    let m = lib_u8(m);
    let m = lib_float(m);
    let m = lib_int(m);
    let m = lib_maybe(m);
    let m = lib_error(m);
    let m = bound_foreign(m, "prelude"@, "to-string"@, ForeignFn::ExprToString);
    let m = bound_foreign(m, "prelude"@, "to-string$$Date"@, ForeignFn::ChronoDateToString);
    let m = bound_foreign(m, "prelude"@, "to-string$$Date-Time"@, ForeignFn::ChronoDateTimeToString);
    m
}

/// Sets up every library of the prelude.
pub fn setup_lib_prelude(context: &mut Context)
    requires
        old(context).wf(),
    ensures
        final(context).wf(),
        final(context).modules() == lib_prelude(old(context).modules()),
{
    setup_lib_bool(context);
    setup_lib_eq(context);
    setup_lib_cmp(context);
    setup_lib_io(context);
    setup_lib_seq(context);
    setup_lib_lang(context);
    setup_lib_range(context);
    setup_lib_buffer(context);
    setup_lib_char(context);
    setup_lib_u8(context);
    setup_lib_float(context);
    setup_lib_int(context);
    setup_lib_maybe(context);
    setup_lib_error(context);
    let ghost before = context.modules();
    let module = require_module("prelude", context);
    insert_foreign(context, module, "to-string", ForeignFn::ExprToString);
    proof {
        lemma_bound_required(
            before,
            "prelude"@,
            "to-string"@,
            Value::ForeignFunc(ForeignFn::ExprToString),
        );
    }
    insert_foreign(context, module, "to-string$$Date", ForeignFn::ChronoDateToString);
    insert_foreign(context, module, "to-string$$Date-Time", ForeignFn::ChronoDateTimeToString);
}


/// `(to-string x)`: the printed form of the one argument.
pub fn expr_to_string(args: &[Expr], _context: &mut Context) -> (r: Result<Expr, Error>)
    ensures
        *final(_context) == *old(_context),
        args@.len() == 1 ==> (r matches Ok(e) && e.model() == Value::String(text_of(args@[0].model()))),
        args@.len() != 1 ==> (r matches Err(e) && error_says(e, ErrorKind::InvalidArguments, "requires `this` argument"@)),
{
    if args.len() != 1 {
        return Err(Error::invalid_arguments("requires `this` argument", None));
    }
    Ok(Expr::String(args[0].to_text()))
}

} // verus!
