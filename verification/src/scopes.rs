//! Nested scopes of declared names.

use vstd::prelude::*;

use crate::names::NameMap;

verus! {

/// What a name stands for: the innermost scope that declares it decides.
pub open spec fn found<T>(scopes: Seq<Map<Seq<char>, T>>, name: Seq<char>) -> Option<T>
    decreases scopes.len(),
{
    if scopes.len() == 0 {
        None
    } else if scopes.last().dom().contains(name) {
        Some(scopes.last()[name])
    } else {
        found(scopes.drop_last(), name)
    }
}

/// The scopes after a declaration, which goes into the innermost scope.
pub open spec fn declared<T>(
    scopes: Seq<Map<Seq<char>, T>>,
    name: Seq<char>,
    value: T,
) -> Seq<Map<Seq<char>, T>> {
    if scopes.len() == 0 {
        scopes
    } else {
        scopes.drop_last().push(scopes.last().insert(name, value))
    }
}

/// The scopes with a new, empty innermost scope.
pub open spec fn entered<T>(scopes: Seq<Map<Seq<char>, T>>) -> Seq<Map<Seq<char>, T>> {
    scopes.push(Map::empty())
}

/// The scopes without the innermost one.
pub open spec fn left<T>(scopes: Seq<Map<Seq<char>, T>>) -> Seq<Map<Seq<char>, T>> {
    if scopes.len() == 0 {
        scopes
    } else {
        scopes.drop_last()
    }
}

/// A stack of scopes, the innermost last.
pub struct Scopes<V> {
    stack: Vec<NameMap<V>>,
}

impl<V: View> View for Scopes<V> {
    type V = Seq<Map<Seq<char>, V::V>>;

    closed spec fn view(&self) -> Seq<Map<Seq<char>, V::V>> {
        self.stack@.map_values(|m: NameMap<V>| m@)
    }
}

impl<V: View> Scopes<V> {
    /// No scope at all.
    pub fn new() -> (r: Self)
        ensures
            r@ == Seq::<Map<Seq<char>, V::V>>::empty(),
    {
        let r = Scopes { stack: Vec::new() };
        assert(r@ =~= Seq::<Map<Seq<char>, V::V>>::empty());
        r
    }

    /// Open a scope.
    pub fn push(&mut self)
        ensures
            final(self)@ == entered(old(self)@),
    {
        self.stack.push(NameMap::new());
        assert(self@ =~= entered(old(self)@));
    }

    /// Close the innermost scope.
    pub fn pop(&mut self)
        ensures
            final(self)@ == left(old(self)@),
    {
        let _ = self.stack.pop();
        assert(self@ =~= left(old(self)@));
    }

    /// Declare a name in the innermost scope.
    pub fn declare(&mut self, name: &str, value: V)
        ensures
            final(self)@ == declared(old(self)@, name@, value@),
    {
        match self.stack.pop() {
            None => {
                assert(self@ =~= declared(old(self)@, name@, value@));
            },
            Some(mut scope) => {
                scope.insert(name, value);
                self.stack.push(scope);
                assert(self@ =~= declared(old(self)@, name@, value@));
            },
        }
    }

    /// What a name stands for.
    pub fn lookup(&self, name: &str) -> (r: Option<&V>)
        ensures
            (match r {
                Some(v) => Some(v@),
                None => None,
            }) == found(self@, name@),
    {
        let mut i: usize = self.stack.len();
        assert(self@.take(i as int) =~= self@);
        while i > 0
            invariant
                i <= self.stack@.len(),
                found(self@, name@) == found(self@.take(i as int), name@),
            decreases i,
        {
            let ghost here = self@.take(i as int);
            assert(here.last() == self.stack@[i - 1]@);
            assert(here.drop_last() =~= self@.take(i - 1));
            i -= 1;
            match self.stack[i].get(name) {
                Some(v) => {
                    return Some(v);
                },
                None => {},
            }
        }
        None
    }
}

} // verus!
