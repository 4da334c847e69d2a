//! Tables keyed by name.

use vstd::prelude::*;

use crate::text;

verus! {

/// What a list of entries maps each name to; of two entries for one name the
/// later one counts.
pub open spec fn table<V: View>(entries: Seq<(String, V)>) -> Map<Seq<char>, V::V>
    decreases entries.len(),
{
    if entries.len() == 0 {
        Map::empty()
    } else {
        table(entries.drop_last()).insert(entries.last().0@, entries.last().1@)
    }
}

/// A map from names to values.
pub struct NameMap<V> {
    entries: Vec<(String, V)>,
}

proof fn lemma_last_entry<V: View>(entries: Seq<(String, V)>, i: int)
    requires
        0 <= i < entries.len(),
        forall|j: int| i < j < entries.len() ==> (#[trigger] entries[j]).0@ != entries[i].0@,
    ensures
        table(entries).dom().contains(entries[i].0@),
        table(entries)[entries[i].0@] == entries[i].1@,
    decreases entries.len(),
{
    if i < entries.len() - 1 {
        assert(entries[entries.len() - 1].0@ != entries[i].0@);
        lemma_last_entry(entries.drop_last(), i);
    }
}

proof fn lemma_no_entry<V: View>(entries: Seq<(String, V)>, name: Seq<char>)
    requires
        forall|j: int| 0 <= j < entries.len() ==> (#[trigger] entries[j]).0@ != name,
    ensures
        !table(entries).dom().contains(name),
    decreases entries.len(),
{
    if entries.len() > 0 {
        assert(entries[entries.len() - 1].0@ != name);
        lemma_no_entry(entries.drop_last(), name);
    }
}

proof fn lemma_overwrite<V: View>(entries: Seq<(String, V)>, i: int, e: (String, V))
    requires
        0 <= i < entries.len(),
        entries[i].0@ == e.0@,
        forall|j: int| i < j < entries.len() ==> (#[trigger] entries[j]).0@ != e.0@,
    ensures
        table(entries.update(i, e)) == table(entries).insert(e.0@, e.1@),
    decreases entries.len(),
{
    let changed = entries.update(i, e);
    if i == entries.len() - 1 {
        assert(changed.drop_last() =~= entries.drop_last());
        assert(table(changed) =~= table(entries).insert(e.0@, e.1@));
    } else {
        assert(entries[entries.len() - 1].0@ != e.0@);
        assert(changed.drop_last() =~= entries.drop_last().update(i, e));
        lemma_overwrite(entries.drop_last(), i, e);
        assert(table(changed) =~= table(entries).insert(e.0@, e.1@));
    }
}

impl<V: View> View for NameMap<V> {
    type V = Map<Seq<char>, V::V>;

    closed spec fn view(&self) -> Map<Seq<char>, V::V> {
        table(self.entries@)
    }
}

impl<V: View> NameMap<V> {
    /// The map without names.
    pub fn new() -> (r: Self)
        ensures
            r@ == Map::<Seq<char>, V::V>::empty(),
    {
        NameMap { entries: Vec::new() }
    }

    /// The position of the entry that counts for `name`.
    fn position(&self, name: &str) -> (r: Option<usize>)
        ensures
            match r {
                Some(i) => {
                    &&& i < self.entries@.len()
                    &&& self.entries@[i as int].0@ == name@
                    &&& forall|j: int|
                        i < j < self.entries@.len() ==> (#[trigger] self.entries@[j]).0@ != name@
                },
                None => forall|j: int|
                    0 <= j < self.entries@.len() ==> (#[trigger] self.entries@[j]).0@ != name@,
            },
    {
        let mut i: usize = self.entries.len();
        while i > 0
            invariant
                i <= self.entries@.len(),
                forall|j: int|
                    i <= j < self.entries@.len() ==> (#[trigger] self.entries@[j]).0@ != name@,
            decreases i,
        {
            i -= 1;
            if text::same(self.entries[i].0.as_str(), name) {
                return Some(i);
            }
        }
        None
    }

    /// The value for `name`.
    pub fn get(&self, name: &str) -> (r: Option<&V>)
        ensures
            match r {
                Some(v) => self@.dom().contains(name@) && v@ == self@[name@],
                None => !self@.dom().contains(name@),
            },
    {
        match self.position(name) {
            Some(i) => {
                proof {
                    lemma_last_entry(self.entries@, i as int);
                }
                Some(&self.entries[i].1)
            },
            None => {
                proof {
                    lemma_no_entry(self.entries@, name@);
                }
                None
            },
        }
    }

    /// Map `name` to `value`, in place of what it was mapped to before.
    pub fn insert(&mut self, name: &str, value: V)
        ensures
            final(self)@ == old(self)@.insert(name@, value@),
    {
        let entry = (name.to_string(), value);
        match self.position(name) {
            Some(i) => {
                proof {
                    lemma_overwrite(self.entries@, i as int, entry);
                }
                self.entries.set(i, entry);
            },
            None => {
                let ghost before = self.entries@;
                self.entries.push(entry);
                assert(self.entries@.drop_last() =~= before);
            },
        }
    }
}

/// A set of names.
pub struct NameSet {
    names: Vec<String>,
}

impl View for NameSet {
    type V = Set<Seq<char>>;

    closed spec fn view(&self) -> Set<Seq<char>> {
        Set::new(|n: Seq<char>| exists|i: int| 0 <= i < self.names@.len() && (#[trigger] self.names@[i])@ == n)
    }
}

impl NameSet {
    /// The set without names.
    pub fn new() -> (r: Self)
        ensures
            r@ == Set::<Seq<char>>::empty(),
    {
        let r = NameSet { names: Vec::new() };
        assert(r@ =~= Set::<Seq<char>>::empty());
        r
    }

    /// Whether `name` is in the set.
    pub fn contains(&self, name: &str) -> (r: bool)
        ensures
            r == self@.contains(name@),
    {
        let mut i: usize = 0;
        while i < self.names.len()
            invariant
                i <= self.names@.len(),
                forall|j: int| 0 <= j < i ==> (#[trigger] self.names@[j])@ != name@,
            decreases self.names@.len() - i,
        {
            if text::same(self.names[i].as_str(), name) {
                assert(self.names@[i as int]@ == name@);
                return true;
            }
            i += 1;
        }
        false
    }

    /// Put `name` into the set.
    pub fn insert(&mut self, name: &str)
        ensures
            final(self)@ == old(self)@.insert(name@),
    {
        if self.contains(name) {
            assert(self@ =~= self@.insert(name@));
            return;
        }
        let ghost before = self.names@;
        self.names.push(name.to_string());
        proof {
            let after = self.names@;
            assert(after[before.len() as int]@ == name@);
            assert forall|n: Seq<char>| self@.contains(n) == old(self)@.insert(name@).contains(n) by {
                if old(self)@.contains(n) {
                    let i = choose|i: int| 0 <= i < before.len() && (#[trigger] before[i])@ == n;
                    assert(after[i]@ == n);
                }
                if self@.contains(n) && n != name@ {
                    let i = choose|i: int| 0 <= i < after.len() && (#[trigger] after[i])@ == n;
                    assert(before[i]@ == n);
                }
            }
            assert(self@ =~= old(self)@.insert(name@));
        }
    }
}

/// A set of pairs of names.
pub struct PairSet {
    pairs: Vec<(String, String)>,
}

impl View for PairSet {
    type V = Set<(Seq<char>, Seq<char>)>;

    closed spec fn view(&self) -> Set<(Seq<char>, Seq<char>)> {
        Set::new(
            |p: (Seq<char>, Seq<char>)|
                exists|i: int|
                    0 <= i < self.pairs@.len() && (#[trigger] self.pairs@[i]).0@ == p.0
                        && self.pairs@[i].1@ == p.1,
        )
    }
}

impl PairSet {
    /// The set without pairs.
    pub fn new() -> (r: Self)
        ensures
            r@ == Set::<(Seq<char>, Seq<char>)>::empty(),
    {
        let r = PairSet { pairs: Vec::new() };
        assert(r@ =~= Set::<(Seq<char>, Seq<char>)>::empty());
        r
    }

    /// Whether the pair is in the set.
    pub fn contains(&self, first: &str, second: &str) -> (r: bool)
        ensures
            r == self@.contains((first@, second@)),
    {
        let mut i: usize = 0;
        while i < self.pairs.len()
            invariant
                i <= self.pairs@.len(),
                forall|j: int|
                    0 <= j < i ==> !((#[trigger] self.pairs@[j]).0@ == first@ && self.pairs@[j].1@
                        == second@),
            decreases self.pairs@.len() - i,
        {
            if text::same(self.pairs[i].0.as_str(), first) && text::same(
                self.pairs[i].1.as_str(),
                second,
            ) {
                assert(self.pairs@[i as int].0@ == first@);
                return true;
            }
            i += 1;
        }
        false
    }

    /// Put the pair into the set.
    pub fn insert(&mut self, first: &str, second: &str)
        ensures
            final(self)@ == old(self)@.insert((first@, second@)),
    {
        if self.contains(first, second) {
            assert(self@ =~= self@.insert((first@, second@)));
            return;
        }
        let ghost before = self.pairs@;
        self.pairs.push((first.to_string(), second.to_string()));
        proof {
            let after = self.pairs@;
            assert(after[before.len() as int].0@ == first@);
            assert forall|p: (Seq<char>, Seq<char>)|
                self@.contains(p) == old(self)@.insert((first@, second@)).contains(p) by {
                if old(self)@.contains(p) {
                    let i = choose|i: int|
                        0 <= i < before.len() && (#[trigger] before[i]).0@ == p.0 && before[i].1@
                            == p.1;
                    assert(after[i].0@ == p.0);
                }
                if self@.contains(p) && p != (first@, second@) {
                    let i = choose|i: int|
                        0 <= i < after.len() && (#[trigger] after[i]).0@ == p.0 && after[i].1@
                            == p.1;
                    assert(before[i].0@ == p.0);
                }
            }
            assert(self@ =~= old(self)@.insert((first@, second@)));
        }
    }
}

} // verus!
