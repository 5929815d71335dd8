//! Mathematics.

use vstd::prelude::*;

use crate::context::{Context, Modules};
use crate::library::math::complex::{lib_math_complex, setup_lib_math_complex};

pub mod complex;

verus! {

/// The modules after `setup_lib_math`.
pub open spec fn lib_math(m: Modules) -> Modules {
    lib_math_complex(m)
}

/// Sets up the mathematics libraries.
pub fn setup_lib_math(context: &mut Context)
    requires
        old(context).wf(),
    ensures
        final(context).wf(),
        final(context).modules() == lib_math(old(context).modules()),
{
    setup_lib_math_complex(context);
}

} // verus!
