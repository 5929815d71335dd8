//! PNG images.

use vstd::prelude::*;

use crate::context::{Context, Modules, bound_foreign, insert_foreign, lemma_bound_required, require_module};
use crate::expr::{Value};
use crate::foreign::ForeignFn;

verus! {

/// The modules after `setup_lib_image_png`: the bindings it adds to the `image/png` module.
pub open spec fn lib_image_png(m: Modules) -> Modules {
    let m = bound_foreign(m, "image/png"@, "Coder"@, ForeignFn::PngCoderNew);
    m
}

/// Binds the functions of this library in the `image/png` module.
pub fn setup_lib_image_png(context: &mut Context)
    requires
        old(context).wf(),
    ensures
        final(context).wf(),
        final(context).modules() == lib_image_png(old(context).modules()),
{
    let module = require_module("image/png", context);
    insert_foreign(context, module, "Coder", ForeignFn::PngCoderNew);
    proof {
        lemma_bound_required(old(context).modules(), "image/png"@, "Coder"@, Value::ForeignFunc(ForeignFn::PngCoderNew));
    }
}

} // verus!
