//! Images.

use vstd::prelude::*;

use crate::context::{Context, Modules};
use crate::library::image::png::{lib_image_png, setup_lib_image_png};

pub mod png;

verus! {

/// The modules after `setup_lib_image`.
pub open spec fn lib_image(m: Modules) -> Modules {
    lib_image_png(m)
}

/// Sets up the image libraries.
pub fn setup_lib_image(context: &mut Context)
    requires
        old(context).wf(),
    ensures
        final(context).wf(),
        final(context).modules() == lib_image(old(context).modules()),
{
    setup_lib_image_png(context);
}

} // verus!
