//! The stack of lexical scopes that binds names to what was declared for them.

use std::collections::HashMap;
use vstd::prelude::*;

verus! {

broadcast use vstd::std_specs::hash::group_hash_axioms;

/// The nearest binding of `id`: that of the innermost scope that has one.
/// Scopes are listed from the outermost to the innermost.
pub open spec fn lookup<T>(scopes: Seq<Map<usize, T>>, id: usize) -> Option<T>
    decreases scopes.len(),
{
    if scopes.len() == 0 {
        None
    } else if scopes.last().contains_key(id) {
        Some(scopes.last()[id])
    } else {
        lookup(scopes.drop_last(), id)
    }
}

/// The scopes after `id` is bound to `value` in the innermost one.
pub open spec fn bind<T>(scopes: Seq<Map<usize, T>>, id: usize, value: T) -> Seq<Map<usize, T>> {
    scopes.update(scopes.len() - 1, scopes.last().insert(id, value))
}

/// A stack of scopes, each a map from the id of a name to what is declared
/// for it. An inner scope shadows the scopes around it.
pub struct Environment<T> {
    scopes: Vec<HashMap<usize, T>>,
}

impl<T: Copy> Environment<T> {
    /// The scopes as maps, from the outermost to the innermost.
    pub closed spec fn view(&self) -> Seq<Map<usize, T>> {
        Seq::new(self.scopes.len() as nat, |i: int| self.scopes[i]@)
    }

    /// An environment without any scope.
    pub fn new() -> (env: Environment<T>)
        ensures
            env@ == Seq::<Map<usize, T>>::empty(),
    {
        let env = Environment { scopes: Vec::new() };
        assert(env@ =~= Seq::<Map<usize, T>>::empty());
        env
    }

    /// Opens an empty scope inside the current innermost one.
    pub fn new_scope(&mut self)
        ensures
            final(self)@ == old(self)@.push(Map::empty()),
    {
        self.scopes.push(HashMap::new());
        assert(self@ =~= old(self)@.push(Map::empty()));
    }

    /// Closes the innermost scope and forgets its bindings.
    pub fn remove_top_scope(&mut self)
        requires
            old(self)@.len() > 0,
        ensures
            final(self)@ == old(self)@.drop_last(),
    {
        self.scopes.pop();
        assert(self@ =~= old(self)@.drop_last());
    }

    /// Binds `id` to `value` in the innermost scope. A binding that this
    /// scope already had for `id` is replaced; outer scopes are untouched.
    pub fn define(&mut self, id: usize, value: T)
        requires
            old(self)@.len() > 0,
        ensures
            final(self)@ == bind(old(self)@, id, value),
    {
        match self.scopes.pop() {
            Some(top) => {
                let mut top = top;
                top.insert(id, value);
                self.scopes.push(top);
            },
            None => {},
        }
        assert(self@ =~= bind(old(self)@, id, value));
    }

    /// The nearest enclosing binding of `id`, if there is one.
    pub fn get(&self, id: usize) -> (found: Option<T>)
        ensures
            found == lookup(self@, id),
    {
        let mut depth: usize = self.scopes.len();
        assert(self@.take(depth as int) =~= self@);
        while depth > 0
            invariant
                depth <= self.scopes.len(),
                lookup(self@, id) == lookup(self@.take(depth as int), id),
            decreases depth,
        {
            let ghost prefix = self@.take(depth as int);
            assert(prefix.last() == self.scopes[depth - 1]@);
            assert(prefix.drop_last() =~= self@.take(depth - 1));
            match self.scopes[depth - 1].get(&id) {
                Some(value) => {
                    return Some(*value);
                },
                None => {},
            }
            depth = depth - 1;
        }
        assert(self@.take(0).len() == 0);
        None
    }
}

/// Once an inner scope is closed, the bindings of the scope around it are
/// seen again: a name bound in a scope and bound anew in a scope opened and
/// closed inside it resolves to the first binding.
pub proof fn lemma_inner_scope_restores<T>(scopes: Seq<Map<usize, T>>, id: usize, outer: T, inner: T)
    ensures
        ({
            let opened = bind(scopes.push(Map::empty()), id, outer);
            let shadowed = bind(opened.push(Map::empty()), id, inner);
            &&& lookup(shadowed, id) == Some(inner)
            &&& shadowed.drop_last() == opened
            &&& lookup(opened, id) == Some(outer)
        }),
{
    let opened = bind(scopes.push(Map::empty()), id, outer);
    let shadowed = bind(opened.push(Map::empty()), id, inner);
    assert(shadowed.drop_last() =~= opened);
}

/// A name resolves to what it was last bound to in the innermost scope, and
/// binding it changes what no other name resolves to.
pub proof fn lemma_bind_then_lookup<T>(scopes: Seq<Map<usize, T>>, id: usize, value: T, other: usize)
    requires
        scopes.len() > 0,
    ensures
        lookup(bind(scopes, id, value), id) == Some(value),
        other != id ==> lookup(bind(scopes, id, value), other) == lookup(scopes, other),
        bind(scopes, id, value).len() == scopes.len(),
{
    let bound = bind(scopes, id, value);
    assert(bound.drop_last() =~= scopes.drop_last());
}

/// A scope that was just opened binds nothing: every name resolves as it did
/// before, and closing the scope gives back the scopes as they were.
pub proof fn lemma_new_scope_is_transparent<T>(scopes: Seq<Map<usize, T>>, id: usize)
    ensures
        lookup(scopes.push(Map::empty()), id) == lookup(scopes, id),
        scopes.push(Map::empty()).drop_last() == scopes,
{
    let opened = scopes.push(Map::<usize, T>::empty());
    assert(opened.drop_last() =~= scopes);
}

/// A name that the innermost scope does not bind resolves as it does in the
/// scopes around it.
pub proof fn lemma_lookup_falls_through<T>(scopes: Seq<Map<usize, T>>, id: usize)
    requires
        scopes.len() > 0,
        !scopes.last().contains_key(id),
    ensures
        lookup(scopes, id) == lookup(scopes.drop_last(), id),
{
}

} // verus!
