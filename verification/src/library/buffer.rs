//! Byte buffers.

use vstd::prelude::*;

use crate::args::{checked, error_about};

use crate::context::{Context, Modules, bound_foreign, insert_foreign, lemma_bound_required, require_module};
use crate::expr::{Value};
use crate::foreign::ForeignFn;
use crate::error::{error_says, Error, ErrorKind};
use crate::expr::{buffer_of, int_of, join_buffer, split_buffer, text_of, u8_of, with_buffer_bytes, Expr};
use crate::util::{i64_to_string, int_text};

verus! {

/// The modules after `setup_lib_buffer`: the bindings it adds to the `prelude` module.
pub open spec fn lib_buffer(m: Modules) -> Modules {
    let m = bound_foreign(m, "prelude"@, "Buffer"@, ForeignFn::BufferNew);
    let m = bound_foreign(m, "prelude"@, "put$$Buffer$$Int$$U8"@, ForeignFn::BufferPut);
    m
}

/// Binds the functions of this library in the `prelude` module.
pub fn setup_lib_buffer(context: &mut Context)
    requires
        old(context).wf(),
    ensures
        final(context).wf(),
        final(context).modules() == lib_buffer(old(context).modules()),
{
    let module = require_module("prelude", context);
    insert_foreign(context, module, "Buffer", ForeignFn::BufferNew);
    proof {
        lemma_bound_required(old(context).modules(), "prelude"@, "Buffer"@, Value::ForeignFunc(ForeignFn::BufferNew));
    }
    insert_foreign(context, module, "put$$Buffer$$Int$$U8", ForeignFn::BufferPut);
}


/// `(Buffer n)`: a buffer of `n` zero bytes.
pub fn buffer_new(args: &[Expr], _context: &mut Context) -> (r: Result<Expr, Error>)
    requires
        args@.len() == 1 && int_of(args@[0].model()) is Some ==> 0 <= int_of(args@[0].model())->0
            <= usize::MAX,
    ensures
        *final(_context) == *old(_context),
        args@.len() == 1 && int_of(args@[0].model()) is Some ==> (r matches Ok(e) && e.model()
            == Value::Buffer(Seq::new(int_of(args@[0].model())->0 as nat, |i: int| 0u8))),
        match checked(
            args@.len() == 1,
            "requires `length` argument"@,
            checked(
                int_of(args@[0].model()) is Some,
                "length=`"@ + text_of(args@[0].model()) + "` is not Int"@,
                None,
            ),
        ) {
            Some(m) => r matches Err(e) && error_says(e, ErrorKind::InvalidArguments, m),
            None => true,
        },
{
    if args.len() != 1 {
        return Err(Error::invalid_arguments("requires `length` argument", None));
    }
    let Some(length) = args[0].as_int() else {
        return Err(error_about("length=`", &args[0], "` is not Int"));
    };
    let length = length as usize;
    let mut buf: Vec<u8> = Vec::new();
    let mut i: usize = 0;
    while i < length
        invariant
            i <= length,
            buf@ == Seq::new(i as nat, |k: int| 0u8),
        decreases length - i,
    {
        buf.push(0u8);
        assert(buf@ =~= Seq::new((i + 1) as nat, |k: int| 0u8));
        i = i + 1;
    }
    Ok(Expr::Buffer(buf))
}

/// The message for a negative buffer index.
pub open spec fn negative_index_text(i: i64) -> Seq<char> {
    "buffer index=`"@ + int_text(i as int) + "` cannot be negative"@
}

/// The message for a buffer index past the end of the buffer.
pub open spec fn index_too_large_text(i: i64) -> Seq<char> {
    "buffer index=`"@ + int_text(i as int) + "` must be less than the buffer length"@
}

/// `(put buffer index byte)`: sets one byte of the buffer, in place.
pub fn buffer_put(args: &mut Vec<Expr>, _context: &mut Context) -> (r: Result<Expr, Error>)
    ensures
        *final(_context) == *old(_context),
        ({
            let ok_shape = old(args)@.len() == 3 && buffer_of(old(args)@[0].model()) is Some
                && int_of(old(args)@[1].model()) is Some;
            let bytes = buffer_of(old(args)@[0].model())->0;
            let i = int_of(old(args)@[1].model())->0;
            &&& !ok_shape ==> (match checked(
                old(args)@.len() == 3,
                "requires `index` and `value` arguments"@,
                checked(
                    buffer_of(old(args)@[0].model()) is Some,
                    "buffer=`"@ + text_of(old(args)@[0].model()) + "` is not a Buffer"@,
                    checked(
                        int_of(old(args)@[1].model()) is Some,
                        "index=`"@ + text_of(old(args)@[1].model()) + "` is not Int"@,
                        None,
                    ),
                ),
            ) {
                Some(m) => r matches Err(e) && error_says(e, ErrorKind::InvalidArguments, m),
                None => false,
            })
            &&& ok_shape && i < 0 ==> (r matches Err(e) && e.kind == ErrorKind::InvalidArguments
                && e.notes@.len() == 1 && e.notes@[0].text@ == negative_index_text(i))
            &&& ok_shape && i >= bytes.len() ==> (r matches Err(e) && e.kind
                == ErrorKind::InvalidArguments && e.notes@.len() == 1 && e.notes@[0].text@
                == index_too_large_text(i))
            &&& ok_shape && 0 <= i < bytes.len() && u8_of(old(args)@[2].model()) is None ==> (r matches Err(
                e,
            ) && error_says(
                e,
                ErrorKind::InvalidArguments,
                "value=`"@ + text_of(old(args)@[2].model()) + "` is not U8"@,
            ))
            &&& ok_shape && 0 <= i < bytes.len() && u8_of(old(args)@[2].model()) is Some ==> (r matches Ok(
                e,
            ) && e.model() == Value::Nil && final(args)@.len() == 3 && final(args)@[0].model()
                == with_buffer_bytes(
                old(args)@[0].model(),
                bytes.update(i as int, u8_of(old(args)@[2].model())->0),
            ) && final(args)@[1] == old(args)@[1] && final(args)@[2] == old(args)@[2])
            &&& r is Err ==> final(args)@ == old(args)@
        }),
{
    if args.len() != 3 {
        return Err(Error::invalid_arguments("requires `index` and `value` arguments", None));
    }
    let length: usize = match args[0].unpack() {
        Expr::Buffer(b) => b.len(),
        _ => {
            return Err(error_about("buffer=`", &args[0], "` is not a Buffer"));
        },
    };
    let Some(i) = args[1].as_int() else {
        return Err(error_about("index=`", &args[1], "` is not Int"));
    };
    if i < 0 {
        let mut text = "buffer index=`".to_owned();
        let n = i64_to_string(i);
        text.append(n.as_str());
        text.append("` cannot be negative");
        return Err(Error::invalid_arguments(text.as_str(), None));
    }
    if i as u64 >= length as u64 {
        let mut text = "buffer index=`".to_owned();
        let n = i64_to_string(i);
        text.append(n.as_str());
        text.append("` must be less than the buffer length");
        return Err(Error::invalid_arguments(text.as_str(), None));
    }
    let Some(value) = args[2].as_u8() else {
        return Err(error_about("value=`", &args[2], "` is not U8"));
    };
    let mut target = Expr::Nothing;
    core::mem::swap(&mut target, &mut args[0]);
    let (mut bytes, anns) = split_buffer(target);
    bytes.set(i as usize, value);
    let rebuilt = join_buffer(bytes, anns);
    args.set(0, rebuilt);
    Ok(Expr::Nil)
}

} // verus!
