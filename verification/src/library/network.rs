//! Networking.

use vstd::prelude::*;

use crate::context::Context;

verus! {

/// Sets up the networking libraries. The HTTP server library that this would
/// install is not part of this crate, so no binding changes.
pub fn setup_lib_network(context: &mut Context)
    requires
        old(context).wf(),
    ensures
        final(context).wf(),
        final(context).modules() == old(context).modules(),
{
}

} // verus!
