//! The evaluation context: the registry of the modules that the library sets up.

use vstd::prelude::*;

use crate::bindings::{
    keys_unique, lemma_pairs_map_domain, lemma_pairs_map_index, lemma_pairs_map_push,
    lemma_pairs_map_update, pairs_map,
};
use crate::expr::{Expr, Value};
use crate::foreign::ForeignFn;
use crate::module::Module;
use crate::scope::{invocable_insert, Scope};

verus! {

/// The bindings of every module, by module path.
pub type Modules = Map<Seq<char>, Map<Seq<char>, Value>>;

/// The bindings of the module at `path`; none when there is no such module.
pub open spec fn module_bindings(m: Modules, path: Seq<char>) -> Map<Seq<char>, Value> {
    if m.contains_key(path) {
        m[path]
    } else {
        Map::empty()
    }
}

/// The modules after the module at `path` binds `name` to `v` (the module is
/// created when missing).
pub open spec fn bound(m: Modules, path: Seq<char>, name: Seq<char>, v: Value) -> Modules {
    m.insert(path, module_bindings(m, path).insert(name, v))
}

/// The modules after the module at `path` binds the foreign function `f` as `name`.
pub open spec fn bound_foreign(m: Modules, path: Seq<char>, name: Seq<char>, f: ForeignFn) -> Modules {
    bound(m, path, name, Value::ForeignFunc(f))
}

/// The modules after the module at `path` binds the invocable `v` as `name`.
pub open spec fn bound_invocable(m: Modules, path: Seq<char>, name: Seq<char>, v: Value) -> Modules {
    m.insert(path, invocable_insert(module_bindings(m, path), name, v))
}

/// The modules after the module at `path` is made to exist.
pub open spec fn required(m: Modules, path: Seq<char>) -> Modules {
    if m.contains_key(path) {
        m
    } else {
        m.insert(path, Map::empty())
    }
}

pub struct Context {
    pub module_registry: Vec<Module>,
}

impl Context {
    /// The registry as an association list from paths to bindings.
    pub open spec fn registry(&self) -> Seq<(Seq<char>, Map<Seq<char>, Value>)> {
        Seq::new(
            self.module_registry@.len(),
            |i: int| (self.module_registry@[i].stem@, self.module_registry@[i].scope.own()),
        )
    }

    /// The bindings of every module, by module path.
    pub open spec fn modules(&self) -> Modules {
        pairs_map(self.registry())
    }

    /// No path names two modules, and every module's scope is well formed.
    pub open spec fn wf(&self) -> bool {
        &&& keys_unique(self.registry())
        &&& forall|i: int|
            0 <= i < self.module_registry@.len() ==> #[trigger] self.module_registry@[i].scope.wf()
    }

    /// A context with no modules.
    pub fn new() -> (c: Context)
        ensures
            c.wf(),
            c.modules() == Map::<Seq<char>, Map<Seq<char>, Value>>::empty(),
    {
        let c = Context { module_registry: Vec::new() };
        assert(c.registry() =~= Seq::empty());
        c
    }

    /// Binds `name` to `value` in the module at index `idx`.
    pub fn insert_in(&mut self, idx: usize, name: &str, value: Expr)
        requires
            old(self).wf(),
            idx < old(self).module_registry@.len(),
        ensures
            final(self).wf(),
            final(self).module_registry@.len() == old(self).module_registry@.len(),
            forall|i: int|
                0 <= i < old(self).module_registry@.len() ==> #[trigger] final(self).module_registry@[i].stem == old(self).module_registry@[i].stem,
            final(self).modules() == bound(
                old(self).modules(),
                old(self).module_registry@[idx as int].stem@,
                name@,
                value.model(),
            ),
    {
        let ghost reg = self.registry();
        let ghost path = self.module_registry@[idx as int].stem@;
        let ghost v = value.model();
        let mut module = Module::default();
        core::mem::swap(&mut module, &mut self.module_registry[idx]);
        assert(module.scope.wf());
        module.insert(name, value);
        core::mem::swap(&mut module, &mut self.module_registry[idx]);
        proof {
            let new_own = reg[idx as int].1.insert(name@, v);
            lemma_pairs_map_index(reg, idx as int);
            lemma_pairs_map_update(reg, idx as int, new_own);
            assert(self.registry() =~= reg.update(idx as int, (path, new_own)));
            assert(module_bindings(old(self).modules(), path) == reg[idx as int].1);
        }
    }

    /// Binds the invocable `value` as `name` in the module at index `idx`.
    pub fn insert_invocable_in(&mut self, idx: usize, name: &str, value: Expr)
        requires
            old(self).wf(),
            idx < old(self).module_registry@.len(),
        ensures
            final(self).wf(),
            final(self).module_registry@.len() == old(self).module_registry@.len(),
            forall|i: int|
                0 <= i < old(self).module_registry@.len() ==> #[trigger] final(self).module_registry@[i].stem == old(self).module_registry@[i].stem,
            final(self).modules() == bound_invocable(
                old(self).modules(),
                old(self).module_registry@[idx as int].stem@,
                name@,
                value.model(),
            ),
    {
        let ghost reg = self.registry();
        let ghost path = self.module_registry@[idx as int].stem@;
        let ghost v = value.model();
        let mut module = Module::default();
        core::mem::swap(&mut module, &mut self.module_registry[idx]);
        assert(module.scope.wf());
        module.insert_invocable(name, value);
        core::mem::swap(&mut module, &mut self.module_registry[idx]);
        proof {
            let new_own = invocable_insert(reg[idx as int].1, name@, v);
            lemma_pairs_map_index(reg, idx as int);
            lemma_pairs_map_update(reg, idx as int, new_own);
            assert(self.registry() =~= reg.update(idx as int, (path, new_own)));
            assert(module_bindings(old(self).modules(), path) == reg[idx as int].1);
        }
    }
}

/// The index of the module at `path`, which is created, empty, when missing.
pub fn require_module(path: &str, context: &mut Context) -> (idx: usize)
    requires
        old(context).wf(),
    ensures
        final(context).wf(),
        idx < final(context).module_registry@.len(),
        final(context).module_registry@[idx as int].stem@ == path@,
        final(context).modules() == required(old(context).modules(), path@),
{
    let key = path.to_owned();
    let mut i: usize = 0;
    while i < context.module_registry.len()
        invariant
            context.wf(),
            i <= context.module_registry@.len(),
            forall|j: int| 0 <= j < i ==> context.module_registry@[j].stem@ != key@,
            key@ == path@,
        decreases context.module_registry@.len() - i,
    {
        if context.module_registry[i].stem == key {
            proof {
                lemma_pairs_map_index(context.registry(), i as int);
                assert(context.modules() =~= required(context.modules(), path@));
            }
            return i;
        }
        i = i + 1;
    }
    let ghost reg = context.registry();
    proof {
        lemma_pairs_map_domain(reg, path@);
        if exists|j: int| 0 <= j < reg.len() && reg[j].0 == path@ {
            let j = choose|j: int| 0 <= j < reg.len() && reg[j].0 == path@;
            assert(context.module_registry@[j].stem@ == path@);
        }
        lemma_pairs_map_push(reg, path@, Map::empty());
    }
    let module = Module { stem: key, scope: Scope::empty() };
    context.module_registry.push(module);
    proof {
        assert(context.registry() =~= reg.push((path@, Map::empty())));
    }
    context.module_registry.len() - 1
}

/// Binds the foreign function `f` as `name` in the module at index `idx`.
pub fn insert_foreign(context: &mut Context, idx: usize, name: &str, f: ForeignFn)
    requires
        old(context).wf(),
        idx < old(context).module_registry@.len(),
    ensures
        final(context).wf(),
        final(context).module_registry@.len() == old(context).module_registry@.len(),
        forall|i: int|
            0 <= i < old(context).module_registry@.len() ==> #[trigger] final(context).module_registry@[i].stem == old(context).module_registry@[i].stem,
        final(context).modules() == bound_foreign(
            old(context).modules(),
            old(context).module_registry@[idx as int].stem@,
            name@,
            f,
        ),
{
    context.insert_in(idx, name, Expr::ForeignFunc(f));
}

/// Making a module exist and then binding a name in it is binding the name.
pub proof fn lemma_bound_required(m: Modules, path: Seq<char>, name: Seq<char>, v: Value)
    ensures
        bound(required(m, path), path, name, v) == bound(m, path, name, v),
        bound_invocable(required(m, path), path, name, v) == bound_invocable(m, path, name, v),
{
    assert(module_bindings(required(m, path), path) == module_bindings(m, path));
    assert(bound(required(m, path), path, name, v) =~= bound(m, path, name, v));
    assert(bound_invocable(required(m, path), path, name, v) =~= bound_invocable(m, path, name, v));
}

} // verus!
