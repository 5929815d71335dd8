//! Lexical scopes: bindings from names to values, with an enclosing scope.

use vstd::prelude::*;

use crate::bindings::{
    keys_unique, lemma_pairs_map_domain, lemma_pairs_map_index, lemma_pairs_map_push,
    lemma_pairs_map_remove, lemma_pairs_map_update, pairs_map,
};
use crate::expr::{pair_models, Expr, Value};
use crate::util::{find_chars, find_spec, substring, to_chars};

verus! {

pub struct Scope {
    pub parent: Option<Box<Scope>>,
    pub bindings: Vec<(String, Expr)>,
}

/// What an insertion of an invocable does to a map of bindings. A mangled name
/// `base$$signature` also binds `base` when `base` is not bound yet; a plain
/// name also binds `name$$*`.
pub open spec fn invocable_insert(m: Map<Seq<char>, Value>, name: Seq<char>, v: Value) -> Map<
    Seq<char>,
    Value,
> {
    match find_spec(name, "$$"@) {
        Some(i) => {
            let base = name.take(i);
            let m1 = if m.contains_key(base) {
                m
            } else {
                m.insert(base, v)
            };
            m1.insert(name, v)
        },
        None => m.insert(name + "$$*"@, v).insert(name, v),
    }
}

impl Scope {
    /// The scope's own bindings.
    pub open spec fn own(&self) -> Map<Seq<char>, Value> {
        pairs_map(pair_models(self.bindings@))
    }

    /// No name is bound twice in this scope or in an enclosing one.
    pub open spec fn wf(&self) -> bool
        decreases self,
    {
        &&& keys_unique(pair_models(self.bindings@))
        &&& match self.parent {
            Some(p) => p.wf(),
            None => true,
        }
    }

    /// The value that a name stands for: the innermost binding of it.
    pub open spec fn lookup(&self, name: Seq<char>) -> Option<Value>
        decreases self,
    {
        if self.own().contains_key(name) {
            Some(self.own()[name])
        } else {
            match self.parent {
                Some(p) => p.lookup(name),
                None => None,
            }
        }
    }

    /// An empty scope with no enclosing scope.
    pub fn empty() -> (s: Scope)
        ensures
            s.wf(),
            s.own() == Map::<Seq<char>, Value>::empty(),
            s.parent is None,
    {
        let s = Scope { parent: None, bindings: Vec::new() };
        assert(pair_models(s.bindings@) =~= Seq::empty());
        s
    }

    /// An empty scope inside `parent`.
    pub fn new(parent: Scope) -> (s: Scope)
        requires
            parent.wf(),
        ensures
            s.wf(),
            s.own() == Map::<Seq<char>, Value>::empty(),
            s.parent == Some(Box::new(parent)),
    {
        let s = Scope { parent: Some(Box::new(parent)), bindings: Vec::new() };
        assert(pair_models(s.bindings@) =~= Seq::empty());
        s
    }

    /// The index of the binding of `key` in this scope.
    fn index_of(&self, key: &String) -> (r: Option<usize>)
        requires
            self.wf(),
        ensures
            r matches Some(i) ==> i < self.bindings@.len() && self.bindings@[i as int].0@ == key@,
            r is None ==> !self.own().contains_key(key@),
            r matches Some(i) ==> self.own().contains_key(key@) && self.own()[key@]
                == self.bindings@[i as int].1.model(),
    {
        let mut i: usize = 0;
        while i < self.bindings.len()
            invariant
                self.wf(),
                i <= self.bindings@.len(),
                forall|j: int| 0 <= j < i ==> self.bindings@[j].0@ != key@,
            decreases self.bindings@.len() - i,
        {
            if self.bindings[i].0 == *key {
                proof {
                    let ms = pair_models(self.bindings@);
                    assert(ms[i as int].0 == key@);
                    lemma_pairs_map_index(ms, i as int);
                }
                return Some(i);
            }
            i = i + 1;
        }
        proof {
            let ms = pair_models(self.bindings@);
            lemma_pairs_map_domain(ms, key@);
            if exists|j: int| 0 <= j < ms.len() && ms[j].0 == key@ {
                let j = choose|j: int| 0 <= j < ms.len() && ms[j].0 == key@;
                assert(self.bindings@[j].0@ == key@);
            }
        }
        None
    }

    /// Binds `name` to `value` in this scope, and returns the value it was
    /// bound to before, if any.
    pub fn insert(&mut self, name: &str, value: Expr) -> (r: Option<Expr>)
        requires
            old(self).wf(),
        ensures
            final(self).wf(),
            final(self).own() == old(self).own().insert(name@, value.model()),
            final(self).parent == old(self).parent,
            old(self).own().contains_key(name@) ==> (r matches Some(p) && p.model() == old(
                self,
            ).own()[name@]),
            !old(self).own().contains_key(name@) ==> r is None,
    {
        let key = name.to_owned();
        let ghost ms = pair_models(self.bindings@);
        let ghost vm = value.model();
        match self.index_of(&key) {
            Some(i) => {
                let previous = self.bindings[i].1.deep_clone();
                self.bindings.set(i, (key, value));
                proof {
                    lemma_pairs_map_update(ms, i as int, vm);
                    assert(pair_models(self.bindings@) =~= ms.update(i as int, (ms[i as int].0, vm)));
                }
                Some(previous)
            },
            None => {
                self.bindings.push((key, value));
                proof {
                    lemma_pairs_map_push(ms, name@, vm);
                    assert(pair_models(self.bindings@) =~= ms.push((name@, vm)));
                }
                None
            },
        }
    }

    /// Binds an invocable. A mangled name (`base$$signature`) also binds
    /// `base` when `base` is not bound yet; a plain name also binds `name$$*`.
    pub fn insert_invocable(&mut self, name: &str, value: Expr) -> (r: Option<Expr>)
        requires
            old(self).wf(),
        ensures
            final(self).wf(),
            final(self).own() == invocable_insert(old(self).own(), name@, value.model()),
            final(self).parent == old(self).parent,
    {
        let chars = to_chars(name);
        let mut sep: Vec<char> = Vec::new();
        sep.push('$');
        sep.push('$');
        proof {
            reveal_strlit("$$");
            assert(sep@ =~= "$$"@);
        }
        let ghost m0 = self.own();
        let ghost v = value.model();
        match find_chars(&chars, &sep) {
            Some(i) => {
                let base = substring(name, 0, i);
                assert(base@ == name@.take(i as int));
                if !self.contains_name(base.as_str()) {
                    let copy = value.deep_clone();
                    self.insert(base.as_str(), copy);
                }
            },
            None => {
                let mut mangled = name.to_owned();
                mangled.append("$$*");
                let copy = value.deep_clone();
                self.insert(mangled.as_str(), copy);
            },
        }
        let r = self.insert(name, value);
        assert(self.own() =~= invocable_insert(m0, name@, v));
        r
    }

    /// This scope binds `name`.
    pub fn contains_name(&self, name: &str) -> (r: bool)
        requires
            self.wf(),
        ensures
            r == self.own().contains_key(name@),
    {
        let key = name.to_owned();
        self.index_of(&key).is_some()
    }

    /// This scope or the scope directly enclosing it binds `name`.
    pub fn contains_name_recursive(&self, name: &str) -> (r: bool)
        requires
            self.wf(),
        ensures
            r == (self.own().contains_key(name@) || (self.parent matches Some(p)
                && p.own().contains_key(name@))),
    {
        if self.contains_name(name) {
            true
        } else {
            match &self.parent {
                Some(parent) => parent.contains_name(name),
                None => false,
            }
        }
    }

    /// The value of the innermost binding of `name`.
    pub fn get(&self, name: &str) -> (r: Option<Expr>)
        requires
            self.wf(),
        ensures
            r matches Some(e) ==> self.lookup(name@) == Some(e.model()),
            r is None ==> self.lookup(name@) is None,
        decreases self,
    {
        let key = name.to_owned();
        match self.index_of(&key) {
            Some(i) => Some(self.bindings[i].1.deep_clone()),
            None => match &self.parent {
                Some(parent) => parent.get(name),
                None => None,
            },
        }
    }

    /// Rebinds the innermost binding of `name` to `value`; nothing changes when
    /// no scope binds `name`.
    pub fn update(&mut self, name: &str, value: Expr)
        requires
            old(self).wf(),
        ensures
            final(self).wf(),
            old(self).lookup(name@) is Some ==> final(self).lookup(name@) == Some(value.model()),
            old(self).lookup(name@) is None ==> final(self).lookup(name@) is None,
            forall|other: Seq<char>| other != name@ ==> #[trigger] final(self).lookup(other) == old(
                self,
            ).lookup(other),
        decreases *old(self),
    {
        let key = name.to_owned();
        match self.index_of(&key) {
            Some(_) => {
                self.insert(name, value);
                assert forall|other: Seq<char>| other != name@ implies #[trigger] self.lookup(other)
                    == old(self).lookup(other) by {}
            },
            None => {
                let mut parent: Option<Box<Scope>> = None;
                core::mem::swap(&mut parent, &mut self.parent);
                match parent {
                    Some(mut p) => {
                        let ghost p_old = *p;
                        assert(old(self).parent == Some(p));
                        p.update(name, value);
                        let ghost p_new = *p;
                        self.parent = Some(p);
                        assert(self.own() == old(self).own());
                        assert forall|other: Seq<char>| other != name@ implies #[trigger] self.lookup(
                            other,
                        ) == old(self).lookup(other) by {
                            assert(old(self).lookup(other) == if old(self).own().contains_key(other) {
                                Some(old(self).own()[other])
                            } else {
                                p_old.lookup(other)
                            });
                            assert(p_new.lookup(other) == p_old.lookup(other));
                            assert(self.lookup(other) == if self.own().contains_key(other) {
                                Some(self.own()[other])
                            } else {
                                p_new.lookup(other)
                            });
                        }
                    },
                    None => {},
                }
            },
        }
    }

    /// Removes the binding of `name` from this scope, and returns its value.
    pub fn remove(&mut self, name: &str) -> (r: Option<Expr>)
        requires
            old(self).wf(),
        ensures
            final(self).wf(),
            final(self).own() == old(self).own().remove(name@),
            final(self).parent == old(self).parent,
            old(self).own().contains_key(name@) ==> (r matches Some(p) && p.model() == old(
                self,
            ).own()[name@]),
            !old(self).own().contains_key(name@) ==> r is None,
    {
        let key = name.to_owned();
        let ghost ms = pair_models(self.bindings@);
        match self.index_of(&key) {
            Some(i) => {
                let (_, value) = self.bindings.remove(i);
                proof {
                    lemma_pairs_map_remove(ms, i as int);
                    assert(pair_models(self.bindings@) =~= ms.remove(i as int));
                }
                Some(value)
            },
            None => {
                assert(old(self).own().remove(name@) =~= old(self).own());
                None
            },
        }
    }
}

} // verus!

verus! {

/// A name that was just bound in a scope stands for the value it was bound
/// to, and every other name keeps its meaning.
pub proof fn law_lookup_after_insert(
    before: Scope,
    after: Scope,
    name: Seq<char>,
    v: Value,
    other: Seq<char>,
)
    requires
        after.own() == before.own().insert(name, v),
        after.parent == before.parent,
    ensures
        after.lookup(name) == Some(v),
        other != name ==> after.lookup(other) == before.lookup(other),
{
}

/// After a name is removed from a scope, the scope no longer binds it, and
/// the name means what the enclosing scopes say it means.
pub proof fn law_lookup_after_remove(before: Scope, after: Scope, name: Seq<char>)
    requires
        after.own() == before.own().remove(name),
        after.parent == before.parent,
    ensures
        !after.own().contains_key(name),
        after.lookup(name) == (match after.parent {
            Some(p) => p.lookup(name),
            None => None,
        }),
{
}

/// A binding in an inner scope hides a binding of the same name in the
/// enclosing scope.
pub proof fn law_inner_binding_shadows(s: Scope, name: Seq<char>)
    requires
        s.own().contains_key(name),
    ensures
        s.lookup(name) == Some(s.own()[name]),
{
}

} // verus!
