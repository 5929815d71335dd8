//! Modules: a named scope that also serves as a namespace.

use vstd::prelude::*;

use crate::expr::{Expr, Value};
use crate::scope::{invocable_insert, Scope};

verus! {

/// A module defines an isolated scope and an associated namespace.
pub struct Module {
    pub stem: String,
    pub scope: Scope,
}

impl Default for Module {
    /// The module named `default`, with no bindings and no enclosing scope.
    fn default() -> (m: Module)
        ensures
            m.stem@ == "default"@,
            m.scope.wf(),
            m.scope.own() == Map::<Seq<char>, Value>::empty(),
            m.scope.parent is None,
    {
        Module { stem: "default".to_owned(), scope: Scope::empty() }
    }
}

impl Module {
    /// A module named `stem` whose scope is nested in `parent_scope`.
    pub fn new(stem: &str, parent_scope: Scope) -> (m: Module)
        requires
            parent_scope.wf(),
        ensures
            m.stem@ == stem@,
            m.scope.wf(),
            m.scope.own() == Map::<Seq<char>, Value>::empty(),
            m.scope.parent == Some(Box::new(parent_scope)),
    {
        Module { stem: stem.to_owned(), scope: Scope::new(parent_scope) }
    }

    /// Binds `name` in the module's scope.
    pub fn insert(&mut self, name: &str, value: Expr) -> (r: Option<Expr>)
        requires
            old(self).scope.wf(),
        ensures
            final(self).scope.wf(),
            final(self).stem == old(self).stem,
            final(self).scope.own() == old(self).scope.own().insert(name@, value.model()),
            final(self).scope.parent == old(self).scope.parent,
            old(self).scope.own().contains_key(name@) ==> (r matches Some(p) && p.model() == old(
                self,
            ).scope.own()[name@]),
            !old(self).scope.own().contains_key(name@) ==> r is None,
    {
        self.scope.insert(name, value)
    }

    /// Binds an invocable in the module's scope, handling mangled names.
    pub fn insert_invocable(&mut self, name: &str, value: Expr) -> (r: Option<Expr>)
        requires
            old(self).scope.wf(),
        ensures
            final(self).scope.wf(),
            final(self).stem == old(self).stem,
            final(self).scope.own() == invocable_insert(old(self).scope.own(), name@, value.model()),
            final(self).scope.parent == old(self).scope.parent,
    {
        self.scope.insert_invocable(name, value)
    }
}

} // verus!
