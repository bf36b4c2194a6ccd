//! A set of unit ids that remembers the order in which its members came in.

use std::collections::HashSet;
use vstd::prelude::*;

verus! {

/// An insertion-ordered set of unit ids.
///
/// A new member goes to the end, adding a member again leaves it where it is, and a
/// member that was taken out and added again goes to the end.
pub struct OrderedUnitSet {
    ids: Vec<i32>,
    set: HashSet<i32>,
}

impl View for OrderedUnitSet {
    type V = Seq<i32>;

    /// The members, in insertion order.
    closed spec fn view(&self) -> Seq<i32> {
        self.ids@
    }
}

impl Default for OrderedUnitSet {
    fn default() -> (empty: Self)
        ensures
            empty.wf(),
            empty@ == Seq::<i32>::empty(),
    {
        broadcast use vstd::std_specs::hash::group_hash_axioms;

        let empty = OrderedUnitSet { ids: Vec::new(), set: HashSet::new() };
        assert(empty.set@ =~= empty.ids@.to_set());
        empty
    }
}

impl OrderedUnitSet {
    /// No member occurs twice, and the lookup set holds exactly the members.
    pub closed spec fn wf(&self) -> bool {
        &&& self.ids@.no_duplicates()
        &&& self.set@ == self.ids@.to_set()
    }

    /// A well-formed set holds no member twice.
    pub proof fn lemma_no_duplicates(&self)
        requires
            self.wf(),
        ensures
            self@.no_duplicates(),
    {
    }

    /// Adds `id` at the end unless it is a member; says whether it was added.
    pub fn insert(&mut self, id: i32) -> (added: bool)
        requires
            old(self).wf(),
        ensures
            final(self).wf(),
            added == !old(self)@.contains(id),
            final(self)@ == crate::ordered_tiles::with(old(self)@, id),
    {
        broadcast use vstd::std_specs::hash::group_hash_axioms;

        if self.set.insert(id) {
            self.ids.push(id);
            proof {
                let before = old(self).ids@;
                assert(self.set@ =~= self.ids@.to_set()) by {
                    assert forall|x: i32| self.set@.contains(x) implies self.ids@.to_set().contains(x) by {
                        if x == id {
                            assert(self.ids@[before.len() as int] == id);
                        } else {
                            assert(before.to_set().contains(x));
                            let k = choose|k: int| 0 <= k < before.len() && before[k] == x;
                            assert(self.ids@[k] == x);
                        }
                    }
                }
                assert(!before.contains(id));
            }
            true
        } else {
            assert(self.set@ =~= old(self).set@);
            false
        }
    }

    pub fn contains(&self, id: i32) -> (member: bool)
        requires
            self.wf(),
        ensures
            member == self@.contains(id),
    {
        broadcast use vstd::std_specs::hash::group_hash_axioms;

        self.set.contains(&id)
    }

    pub fn len(&self) -> (n: usize)
        ensures
            n == self@.len(),
    {
        self.ids.len()
    }

    pub fn is_empty(&self) -> (empty: bool)
        ensures
            empty == (self@.len() == 0),
    {
        self.ids.len() == 0
    }

    /// The members in insertion order, as a vector of their own.
    pub fn iter(&self) -> (members: Vec<i32>)
        ensures
            members@ == self@,
    {
        let mut members: Vec<i32> = Vec::new();
        for i in 0..self.ids.len()
            invariant
                members@ == self.ids@.take(i as int),
        {
            members.push(self.ids[i]);
            assert(self.ids@.take(i + 1) =~= self.ids@.take(i as int).push(self.ids@[i as int]));
        }
        assert(self.ids@.take(self.ids@.len() as int) =~= self.ids@);
        members
    }

    /// A snapshot of the members in insertion order.
    pub fn to_vec(&self) -> (members: Vec<i32>)
        ensures
            members@ == self@,
    {
        self.iter()
    }

    /// Takes `id` out; nothing changes when it is no member.
    pub fn remove(&mut self, id: i32)
        requires
            old(self).wf(),
        ensures
            final(self).wf(),
            final(self)@ == crate::ordered_tiles::without(old(self)@, id),
    {
        broadcast use vstd::std_specs::hash::group_hash_axioms;

        let ghost before = self.ids@;
        if self.set.remove(&id) {
            let mut i: usize = 0;
            while i < self.ids.len() && self.ids[i] != id
                invariant
                    i <= self.ids.len(),
                    self.ids@ == before,
                    forall|k: int| 0 <= k < i ==> before[k] != id,
                    before.contains(id),
                decreases self.ids.len() - i,
            {
                i += 1;
            }
            if i < self.ids.len() {
                self.ids.remove(i);
                proof {
                    crate::ordered_tiles::lemma_without_at(before, i as int);
                    crate::ordered_tiles::lemma_removed_set(before, i as int);
                    assert(self.set@ =~= self.ids@.to_set());
                    assert forall|a: int, b: int|
                        0 <= a < b < self.ids@.len() implies self.ids@[a] != self.ids@[b] by {
                        let fa = if a < i { a } else { a + 1 };
                        let fb = if b < i { b } else { b + 1 };
                        assert(before[fa] != before[fb]);
                    }
                }
            }
        } else {
            proof {
                crate::ordered_tiles::lemma_without_absent(before, id);
                assert(self.set@ =~= old(self).set@);
            }
        }
    }
}

/// Adding an absent id and taking it out again leaves the members as they were, and so does
/// taking it out at once.
pub proof fn law_removing_undoes_inserting(order: Seq<i32>, id: i32)
    requires
        !order.contains(id),
    ensures
        crate::ordered_tiles::without(crate::ordered_tiles::with(order, id), id) == order,
        crate::ordered_tiles::without(order, id) == order,
{
    reveal(Seq::filter);
    crate::ordered_tiles::lemma_without_absent(order, id);
    assert(order.push(id).drop_last() =~= order);
}

/// The members after ids were taken out, one by one.
pub open spec fn without_all(order: Seq<i32>, ids: Seq<i32>) -> Seq<i32>
    decreases ids.len(),
{
    if ids.len() == 0 {
        order
    } else {
        crate::ordered_tiles::without(without_all(order, ids.drop_last()), ids.last())
    }
}

/// Taking ids out leaves the members that are none of them, so that taking out every id of a
/// snapshot leaves none.
pub proof fn law_removing_a_snapshot_empties(order: Seq<i32>, ids: Seq<i32>)
    ensures
        forall|x: i32|
            #[trigger] without_all(order, ids).contains(x) == (order.contains(x) && !ids.contains(x)),
        without_all(order, order) == Seq::<i32>::empty(),
{
    assert forall|x: i32| #[trigger]
        without_all(order, ids).contains(x) == (order.contains(x) && !ids.contains(x)) by {
        lemma_without_all(order, ids, x);
    }
    let left = without_all(order, order);
    if left.len() > 0 {
        lemma_without_all(order, order, left[0]);
        assert(left.contains(left[0]));
    }
    assert(left =~= Seq::<i32>::empty());
}

proof fn lemma_without_all(order: Seq<i32>, ids: Seq<i32>, x: i32)
    ensures
        without_all(order, ids).contains(x) == (order.contains(x) && !ids.contains(x)),
    decreases ids.len(),
{
    if ids.len() > 0 {
        let front = ids.drop_last();
        lemma_without_all(order, front, x);
        crate::ordered_tiles::lemma_without_member(without_all(order, front), ids.last(), x);
        if front.contains(x) {
            let k = choose|k: int| 0 <= k < front.len() && front[k] == x;
            assert(ids[k] == x);
        }
        if ids.contains(x) {
            let k = choose|k: int| 0 <= k < ids.len() && ids[k] == x;
            if k < front.len() {
                assert(front[k] == x);
            }
        }
        assert(ids[ids.len() - 1] == ids.last());
    }
}

} // verus!
