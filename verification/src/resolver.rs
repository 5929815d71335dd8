//! The resolver: the pass that infers types statically and resolves the
//! modules that are used.

use vstd::prelude::*;

use crate::error::{error_models, Error, ErrorModel};

verus! {

/// The resolver performs the following functions:
/// - statically infers types
/// - resolves `use`d modules
pub struct Resolver {
    errors: Vec<Error>,
}

impl Resolver {
    /// The errors the resolver has gathered and not yet reported, in order.
    pub closed spec fn pending_errors(&self) -> Seq<ErrorModel> {
        error_models(self.errors@)
    }

    /// A resolver that has gathered no errors.
    pub fn new() -> (r: Resolver)
        ensures
            r.pending_errors() == Seq::<ErrorModel>::empty(),
    {
        let r = Resolver { errors: Vec::new() };
        assert(r.pending_errors() =~= Seq::<ErrorModel>::empty());
        r
    }
}

impl Default for Resolver {
    /// A resolver that has gathered no errors.
    fn default() -> (r: Resolver)
        ensures
            r.pending_errors() == Seq::<ErrorModel>::empty(),
    {
        Resolver::new()
    }
}

} // verus!
