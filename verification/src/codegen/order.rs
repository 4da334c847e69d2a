//! The order of definitions: one that mentions another comes after it.

use vstd::prelude::*;

use crate::codegen::typedefs;
use crate::names::NameSet;
use crate::text;

verus! {

/// Whether the elements that the name of a vector or slice tells of can be pointed
/// at before they are defined. An option, result or array cannot: only structs and
/// enums are declared ahead.
pub open spec fn declared_ahead(name: Seq<char>) -> bool
    decreases name.len(),
{
    proof {
        reveal_strlit("Vec_");
        reveal_strlit("Slice_");
    }
    if text::begins_with(name, "Vec_"@) {
        declared_ahead(name.skip(4))
    } else if text::begins_with(name, "Slice_"@) {
        declared_ahead(name.skip(6))
    } else {
        !text::begins_with(name, "Option_"@) && !text::begins_with(name, "Result_"@)
            && !text::begins_with(name, "Array_"@)
    }
}

/// Whether a name is that of a type that holds its elements by pointer, for which
/// a forward declaration of the elements is enough and there is one.
pub open spec fn by_reference(name: Seq<char>) -> bool {
    (text::begins_with(name, "Vec_"@) || text::begins_with(name, "Slice_"@)) && declared_ahead(
        name,
    )
}

/// Those of the first `n` definitions for which `by_reference` is `wanted`.
pub open spec fn part_of(t: typedefs::Defs, n: int, wanted: bool) -> typedefs::Defs
    decreases n,
{
    if n <= 0 || n > t.len() {
        Seq::empty()
    } else if by_reference(t[n - 1].0) == wanted {
        part_of(t, n - 1, wanted).push(t[n - 1])
    } else {
        part_of(t, n - 1, wanted)
    }
}

/// An ordering in progress.
#[verifier::ext_equal]
pub struct Queue {
    /// What has no place yet.
    pub pending: typedefs::Defs,
    /// The names that were placed.
    pub placed: Set<Seq<char>>,
    /// What was placed, in order.
    pub order: typedefs::Defs,
}

/// Whether the `j`-th pending definition mentions the name of another one that is
/// still to be placed. A name that only stands inside a longer one is no mention.
pub open spec fn blocked(q: Queue, j: int) -> bool {
    exists|i: int|
        0 <= i < q.pending.len() && (#[trigger] q.pending[i]).0 != q.pending[j].0 && text::mentions(
            q.pending[j].1,
            q.pending[i].0,
        ) && !q.placed.contains(q.pending[i].0)
}

/// The `j`-th pending definition placed.
pub open spec fn place_one(q: Queue, j: int) -> Queue {
    Queue {
        pending: q.pending.remove(j),
        placed: q.placed.insert(q.pending[j].0),
        order: q.order.push(q.pending[j]),
    }
}

/// One pass over the pending definitions from the `j`-th on: each that is not
/// blocked when its turn comes is placed.
pub open spec fn pass(q: Queue, j: int) -> Queue
    decreases q.pending.len() - j,
{
    if j < 0 || j >= q.pending.len() {
        q
    } else if blocked(q, j) {
        pass(q, j + 1)
    } else {
        pass(place_one(q, j), j)
    }
}

/// Passes until one places nothing.
pub open spec fn settled(q: Queue) -> Queue
    decreases q.pending.len(),
{
    if q.pending.len() == 0 {
        q
    } else if pass(q, 0).pending.len() < q.pending.len() {
        settled(pass(q, 0))
    } else {
        pass(q, 0)
    }
}

/// The definitions in order; those that block each other come last.
pub open spec fn in_order(q: Queue) -> typedefs::Defs {
    settled(q).order + settled(q).pending
}

/// Definitions in their final order: first those that hold by pointer what was
/// declared ahead, then the others.
pub open spec fn arranged(t: typedefs::Defs) -> typedefs::Defs {
    let first = Queue {
        pending: part_of(t, t.len() as int, true),
        placed: Set::empty(),
        order: Seq::empty(),
    };
    let second = Queue {
        pending: part_of(t, t.len() as int, false),
        placed: settled(first).placed,
        order: Seq::empty(),
    };
    in_order(first) + in_order(second)
}

/// The texts of definitions.
pub open spec fn bodies(t: typedefs::Defs) -> Seq<Seq<char>> {
    t.map_values(|e: (Seq<char>, Seq<char>)| e.1)
}

/// Definitions with their names.
pub(crate) open spec fn entries(v: Seq<(String, String)>) -> typedefs::Defs {
    v.map_values(|e: (String, String)| (e.0@, e.1@))
}

/// An ordering in progress.
struct Sorter {
    pending: Vec<(String, String)>,
    placed: NameSet,
    order: Vec<(String, String)>,
}

impl Sorter {
    spec fn queue(&self) -> Queue {
        Queue {
            pending: entries(self.pending@),
            placed: self.placed@,
            order: entries(self.order@),
        }
    }

    /// Whether a pending definition mentions another one that is still to be placed.
    fn is_blocked(&self, j: usize) -> (r: bool)
        requires
            j < self.pending@.len(),
        ensures
            r == blocked(self.queue(), j as int),
    {
        let ghost q = self.queue();
        let mut i: usize = 0;
        while i < self.pending.len()
            invariant
                i <= self.pending@.len(),
                j < self.pending@.len(),
                q == self.queue(),
                forall|k: int|
                    0 <= k < i ==> !((#[trigger] q.pending[k]).0 != q.pending[j as int].0
                        && text::mentions(q.pending[j as int].1, q.pending[k].0)
                        && !q.placed.contains(q.pending[k].0)),
            decreases self.pending@.len() - i,
        {
            let other = self.pending[i].0.as_str();
            assert(q.pending[i as int].0 == other@);
            assert(q.pending[j as int] == (
                self.pending@[j as int].0@,
                self.pending@[j as int].1@,
            ));
            if !text::same(other, self.pending[j].0.as_str()) && text::contains_name(
                self.pending[j].1.as_str(),
                other,
            ) && !self.placed.contains(other) {
                return true;
            }
            i += 1;
        }
        false
    }

    /// One pass over the pending definitions; whether it placed one.
    fn run(&mut self) -> (r: bool)
        ensures
            final(self).queue() == pass(old(self).queue(), 0),
            final(self).pending@.len() <= old(self).pending@.len(),
            r == (final(self).pending@.len() < old(self).pending@.len()),
    {
        let mut progressed = false;
        let mut j: usize = 0;
        while j < self.pending.len()
            invariant
                j <= self.pending@.len(),
                self.pending@.len() <= old(self).pending@.len(),
                progressed == (self.pending@.len() < old(self).pending@.len()),
                pass(old(self).queue(), 0) == pass(self.queue(), j as int),
            decreases self.pending@.len() - j,
        {
            if self.is_blocked(j) {
                j += 1;
            } else {
                let ghost q = self.queue();
                let (name, def) = self.pending.remove(j);
                assert(entries(self.pending@) =~= q.pending.remove(j as int));
                self.placed.insert(name.as_str());
                let ghost before = self.order@;
                self.order.push((name, def));
                assert(entries(self.order@) =~= entries(before).push((name@, def@)));
                progressed = true;
                assert(self.queue() == place_one(q, j as int));
            }
        }
        progressed
    }

    /// Passes until one places nothing.
    fn settle(&mut self)
        ensures
            final(self).queue() == settled(old(self).queue()),
    {
        let mut going = true;
        while going && self.pending.len() > 0
            invariant
                settled(old(self).queue()) == if going {
                    settled(self.queue())
                } else {
                    self.queue()
                },
            decreases self.pending@.len() + (if going { 1int } else { 0 }),
        {
            let ghost before = self.queue();
            assert(before.pending.len() == self.pending@.len());
            going = self.run();
        }
    }
}

/// Whether the elements of a vector or slice can be pointed at before they are
/// defined.
fn is_declared_ahead(name: &str) -> (r: bool)
    ensures
        r == declared_ahead(name@),
    decreases name@.len(),
{
    proof {
        reveal_strlit("Vec_");
        reveal_strlit("Slice_");
    }
    if text::has_prefix(name, "Vec_") {
        let rest = name.substring_char(4, name.unicode_len());
        assert(rest@ =~= name@.skip(4));
        is_declared_ahead(rest)
    } else if text::has_prefix(name, "Slice_") {
        let rest = name.substring_char(6, name.unicode_len());
        assert(rest@ =~= name@.skip(6));
        is_declared_ahead(rest)
    } else {
        !text::has_prefix(name, "Option_") && !text::has_prefix(name, "Result_")
            && !text::has_prefix(name, "Array_")
    }
}

/// The definitions for which `by_reference` is `wanted`.
fn select(t: &Vec<(String, String)>, wanted: bool) -> (r: Vec<(String, String)>)
    ensures
        entries(r@) == part_of(entries(t@), t@.len() as int, wanted),
{
    let mut out: Vec<(String, String)> = Vec::new();
    let mut i: usize = 0;
    let ghost all = entries(t@);
    assert(entries(out@) =~= part_of(all, 0, wanted));
    while i < t.len()
        invariant
            i <= t@.len(),
            all == entries(t@),
            entries(out@) == part_of(all, i as int, wanted),
        decreases t@.len() - i,
    {
        let name = t[i].0.as_str();
        assert(all[i as int] == (t@[i as int].0@, t@[i as int].1@));
        let early = (text::has_prefix(name, "Vec_") || text::has_prefix(name, "Slice_"))
            && is_declared_ahead(name);
        if early == wanted {
            let ghost before = out@;
            out.push((t[i].0.clone(), t[i].1.clone()));
            assert(entries(out@) =~= entries(before).push(all[i as int]));
        }
        i += 1;
    }
    out
}

/// Append the texts of definitions.
fn append_bodies(out: &mut Vec<String>, t: &Vec<(String, String)>)
    ensures
        text::texts(final(out)@) == text::texts(old(out)@) + bodies(entries(t@)),
{
    let mut i: usize = 0;
    assert(text::texts(out@) =~= text::texts(old(out)@) + bodies(entries(t@)).take(0));
    while i < t.len()
        invariant
            i <= t@.len(),
            text::texts(out@) == text::texts(old(out)@) + bodies(entries(t@)).take(i as int),
        decreases t@.len() - i,
    {
        let ghost before = out@;
        out.push(t[i].1.clone());
        assert(text::texts(out@) =~= text::texts(before).push(t@[i as int].1@));
        assert(bodies(entries(t@)).take(i + 1) =~= bodies(entries(t@)).take(i as int).push(
            t@[i as int].1@,
        ));
        i += 1;
    }
    assert(bodies(entries(t@)).take(i as int) =~= bodies(entries(t@)));
}

/// Append definitions in their final order.
pub(crate) fn append_arranged(out: &mut Vec<String>, t: &Vec<(String, String)>)
    ensures
        text::texts(final(out)@) == text::texts(old(out)@) + bodies(arranged(entries(t@))),
{
    let mut first = Sorter {
        pending: select(t, true),
        placed: NameSet::new(),
        order: Vec::new(),
    };
    assert(entries(first.order@) =~= Seq::<(Seq<char>, Seq<char>)>::empty());
    let ghost q1 = first.queue();
    first.settle();
    append_bodies(out, &first.order);
    append_bodies(out, &first.pending);
    let mut second = Sorter {
        pending: select(t, false),
        placed: first.placed,
        order: Vec::new(),
    };
    assert(entries(second.order@) =~= Seq::<(Seq<char>, Seq<char>)>::empty());
    let ghost q2 = second.queue();
    second.settle();
    append_bodies(out, &second.order);
    append_bodies(out, &second.pending);
    assert(text::texts(out@) =~= text::texts(old(out)@) + bodies(in_order(q1) + in_order(q2)));
}

} // verus!
