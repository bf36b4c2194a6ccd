//! A set of tiles that remembers the order in which its members came in.

use std::collections::HashSet;
use vstd::prelude::*;

verus! {

/// A tile's position in the map, counted row by row.
pub type TileRef = u32;

/// `order` without its member `value`; the other members keep their order.
pub open spec fn without<T>(order: Seq<T>, value: T) -> Seq<T> {
    order.filter(|member: T| member != value)
}

/// `order` with `value` added at the end, unless it is a member already.
pub open spec fn with<T>(order: Seq<T>, value: T) -> Seq<T> {
    if order.contains(value) {
        order
    } else {
        order.push(value)
    }
}

/// An insertion-ordered set of tiles.
///
/// A new member goes to the end, adding a member again leaves it where it is, and a
/// member that was taken out and added again goes to the end.
pub struct OrderedTiles {
    tiles: Vec<TileRef>,
    set: HashSet<TileRef>,
}

impl View for OrderedTiles {
    type V = Seq<TileRef>;

    /// The members, in insertion order.
    closed spec fn view(&self) -> Seq<TileRef> {
        self.tiles@
    }
}

impl Default for OrderedTiles {
    fn default() -> (empty: Self)
        ensures
            empty.wf(),
            empty@ == Seq::<TileRef>::empty(),
    {
        broadcast use vstd::std_specs::hash::group_hash_axioms;

        let empty = OrderedTiles { tiles: Vec::new(), set: HashSet::new() };
        assert(empty.set@ =~= empty.tiles@.to_set());
        empty
    }
}

impl OrderedTiles {
    /// No member occurs twice, and the lookup set holds exactly the members.
    pub closed spec fn wf(&self) -> bool {
        &&& self.tiles@.no_duplicates()
        &&& self.set@ == self.tiles@.to_set()
    }

    /// A well-formed set holds no member twice.
    pub proof fn lemma_no_duplicates(&self)
        requires
            self.wf(),
        ensures
            self@.no_duplicates(),
    {
    }

    /// Adds `t` at the end unless it is a member; says whether it was added.
    pub fn insert(&mut self, t: TileRef) -> (added: bool)
        requires
            old(self).wf(),
        ensures
            final(self).wf(),
            added == !old(self)@.contains(t),
            final(self)@ == with(old(self)@, t),
    {
        broadcast use vstd::std_specs::hash::group_hash_axioms;

        if self.set.insert(t) {
            self.tiles.push(t);
            proof {
                let before = old(self).tiles@;
                assert(self.set@ =~= self.tiles@.to_set()) by {
                    assert forall|x: TileRef| self.set@.contains(x) implies self.tiles@.to_set().contains(x) by {
                        if x == t {
                            assert(self.tiles@[before.len() as int] == t);
                        } else {
                            assert(before.to_set().contains(x));
                            let k = choose|k: int| 0 <= k < before.len() && before[k] == x;
                            assert(self.tiles@[k] == x);
                        }
                    }
                }
                assert(!before.contains(t));
            }
            true
        } else {
            assert(self.set@ =~= old(self).set@);
            false
        }
    }

    pub fn contains(&self, t: TileRef) -> (member: bool)
        requires
            self.wf(),
        ensures
            member == self@.contains(t),
    {
        broadcast use vstd::std_specs::hash::group_hash_axioms;

        self.set.contains(&t)
    }

    pub fn len(&self) -> (n: usize)
        ensures
            n == self@.len(),
    {
        self.tiles.len()
    }

    pub fn is_empty(&self) -> (empty: bool)
        ensures
            empty == (self@.len() == 0),
    {
        self.tiles.len() == 0
    }

    pub fn clear(&mut self)
        ensures
            final(self).wf(),
            final(self)@ == Seq::<TileRef>::empty(),
    {
        broadcast use vstd::std_specs::hash::group_hash_axioms;

        self.tiles.clear();
        self.set.clear();
        assert(self.set@ =~= self.tiles@.to_set());
    }

    /// The members in insertion order, as a vector of their own.
    pub fn iter(&self) -> (members: Vec<TileRef>)
        ensures
            members@ == self@,
    {
        let mut members: Vec<TileRef> = Vec::new();
        for i in 0..self.tiles.len()
            invariant
                members@ == self.tiles@.take(i as int),
        {
            members.push(self.tiles[i]);
            assert(self.tiles@.take(i + 1) =~= self.tiles@.take(i as int).push(self.tiles@[i as int]));
        }
        assert(self.tiles@.take(self.tiles@.len() as int) =~= self.tiles@);
        members
    }

    /// The members in insertion order.
    pub fn as_slice(&self) -> (members: &[TileRef])
        ensures
            members@ == self@,
    {
        self.tiles.as_slice()
    }

    /// The member at position `i` of the insertion order.
    pub fn get(&self, i: usize) -> (t: TileRef)
        requires
            i < self@.len(),
        ensures
            t == self@[i as int],
    {
        self.tiles[i]
    }

    /// Takes `tile` out; nothing changes when it is no member.
    pub fn remove(&mut self, tile: TileRef)
        requires
            old(self).wf(),
        ensures
            final(self).wf(),
            final(self)@ == without(old(self)@, tile),
    {
        broadcast use vstd::std_specs::hash::group_hash_axioms;

        let ghost before = self.tiles@;
        if self.set.remove(&tile) {
            let mut i: usize = 0;
            while i < self.tiles.len() && self.tiles[i] != tile
                invariant
                    i <= self.tiles.len(),
                    self.tiles@ == before,
                    forall|k: int| 0 <= k < i ==> before[k] != tile,
                    before.contains(tile),
                decreases self.tiles.len() - i,
            {
                i += 1;
            }
            if i < self.tiles.len() {
                self.tiles.remove(i);
                proof {
                    lemma_without_at(before, i as int);
                    lemma_removed_set(before, i as int);
                    assert(self.set@ =~= self.tiles@.to_set());
                    assert forall|a: int, b: int|
                        0 <= a < b < self.tiles@.len() implies self.tiles@[a] != self.tiles@[b] by {
                        let fa = if a < i { a } else { a + 1 };
                        let fb = if b < i { b } else { b + 1 };
                        assert(before[fa] != before[fb]);
                    }
                }
            }
        } else {
            proof {
                lemma_without_absent(before, tile);
                assert(self.set@ =~= old(self).set@);
            }
        }
    }
}

/// Taking out a value that is no member changes nothing.
pub proof fn lemma_without_absent<T>(order: Seq<T>, value: T)
    requires
        !order.contains(value),
    ensures
        without(order, value) == order,
    decreases order.len(),
{
    reveal(Seq::filter);
    if order.len() > 0 {
        let front = order.drop_last();
        assert(order[order.len() - 1] != value);
        assert forall|k: int| 0 <= k < front.len() implies front[k] != value by {
            assert(order[k] != value);
        }
        lemma_without_absent(front, value);
        assert(front.push(order.last()) =~= order);
    }
}

/// Where no member occurs twice, taking out the member at `i` leaves the others in order.
pub proof fn lemma_without_at<T>(order: Seq<T>, i: int)
    requires
        order.no_duplicates(),
        0 <= i < order.len(),
    ensures
        without(order, order[i]) == order.remove(i),
    decreases order.len(),
{
    reveal(Seq::filter);
    let front = order.drop_last();
    let value = order[i];
    if i == order.len() - 1 {
        assert(!front.contains(value)) by {
            if front.contains(value) {
                let k = choose|k: int| 0 <= k < front.len() && front[k] == value;
                assert(order[k] == order[i]);
            }
        }
        lemma_without_absent(front, value);
        assert(order.remove(i) =~= front);
    } else {
        assert(front[i] == value);
        lemma_without_at(front, i);
        assert(order.last() != value);
        assert(order.remove(i) =~= front.remove(i).push(order.last()));
    }
}

/// Where no member occurs twice, taking out the member at `i` takes it out of the set.
pub proof fn lemma_removed_set<T>(order: Seq<T>, i: int)
    requires
        order.no_duplicates(),
        0 <= i < order.len(),
    ensures
        order.remove(i).to_set() == order.to_set().remove(order[i]),
{
    let rest = order.remove(i);
    assert forall|x: T| rest.to_set().contains(x) == order.to_set().remove(order[i]).contains(x) by {
        if rest.contains(x) {
            let k = choose|k: int| 0 <= k < rest.len() && rest[k] == x;
            let m = if k < i { k } else { k + 1 };
            assert(order[m] == x);
        }
        if order.contains(x) && x != order[i] {
            let k = choose|k: int| 0 <= k < order.len() && order[k] == x;
            let m = if k < i { k } else { k - 1 };
            assert(rest[m] == x);
        }
    }
    assert(rest.to_set() =~= order.to_set().remove(order[i]));
}

/// What is left after taking out `value` is every other member.
pub proof fn lemma_without_member<T>(order: Seq<T>, value: T, x: T)
    ensures
        without(order, value).contains(x) == (order.contains(x) && x != value),
    decreases order.len(),
{
    reveal(Seq::filter);
    if order.len() > 0 {
        let front = order.drop_last();
        lemma_without_member(front, value, x);
        let rest = without(front, value);
        if order.contains(x) {
            let k = choose|k: int| 0 <= k < order.len() && order[k] == x;
            if k < front.len() {
                assert(front[k] == x);
            }
        }
        if front.contains(x) {
            let k = choose|k: int| 0 <= k < front.len() && front[k] == x;
            assert(order[k] == x);
        }
        assert(order[order.len() - 1] == order.last());
        if order.last() != value {
            let whole = rest.push(order.last());
            assert(whole[rest.len() as int] == order.last());
            if rest.contains(x) {
                let k = choose|k: int| 0 <= k < rest.len() && rest[k] == x;
                assert(whole[k] == x);
            }
            if whole.contains(x) {
                let k = choose|k: int| 0 <= k < whole.len() && whole[k] == x;
                if k < rest.len() {
                    assert(rest[k] == x);
                }
            }
        }
    }
}

/// Adding a value a second time leaves the order as the first time left it.
pub proof fn law_adding_again_keeps_the_order<T>(order: Seq<T>, value: T)
    ensures
        with(with(order, value), value) == with(order, value),
        with(order, value).contains(value),
{
    if !order.contains(value) {
        assert(order.push(value)[order.len() as int] == value);
    }
}

/// Taking a member out and adding it again moves it to the end, behind the others in
/// their old order.
pub proof fn law_readding_moves_to_the_end<T>(order: Seq<T>, i: int)
    requires
        order.no_duplicates(),
        0 <= i < order.len(),
    ensures
        with(without(order, order[i]), order[i]) == order.remove(i).push(order[i]),
{
    lemma_without_at(order, i);
    lemma_without_member(order, order[i], order[i]);
}

/// A change to an ordered set.
pub ghost enum Change<T> {
    Insert { value: T },
    Remove { value: T },
    Clear,
}

/// The members after a change.
pub open spec fn after_change<T>(order: Seq<T>, change: Change<T>) -> Seq<T> {
    match change {
        Change::Insert { value } => with(order, value),
        Change::Remove { value } => without(order, value),
        Change::Clear => Seq::empty(),
    }
}

/// The members of a set that was empty once, after changes, one by one.
pub open spec fn after_changes<T>(changes: Seq<Change<T>>) -> Seq<T>
    decreases changes.len(),
{
    if changes.len() == 0 {
        Seq::empty()
    } else {
        after_change(after_changes(changes.drop_last()), changes.last())
    }
}

/// Whether the last of the changes that concern a value was its insertion.
pub open spec fn was_added_last<T>(changes: Seq<Change<T>>, value: T) -> bool
    decreases changes.len(),
{
    if changes.len() == 0 {
        false
    } else {
        match changes.last() {
            Change::Insert { value: v } => v == value || was_added_last(changes.drop_last(), value),
            Change::Remove { value: v } => v != value && was_added_last(changes.drop_last(), value),
            Change::Clear => false,
        }
    }
}

/// Adding a value appends it where it is absent, and changes nothing otherwise.
proof fn lemma_with_member<T>(order: Seq<T>, value: T, x: T)
    ensures
        with(order, value).contains(x) == (order.contains(x) || x == value),
        order.no_duplicates() ==> with(order, value).no_duplicates(),
{
    let after = with(order, value);
    if !order.contains(value) {
        assert(after[order.len() as int] == value);
        if order.contains(x) {
            let k = choose|k: int| 0 <= k < order.len() && order[k] == x;
            assert(after[k] == x);
        }
        if after.contains(x) && x != value {
            let k = choose|k: int| 0 <= k < after.len() && after[k] == x;
            assert(order[k] == x);
        }
    }
}

/// Taking a value out removes the one entry that it has, if any.
proof fn lemma_without<T>(order: Seq<T>, value: T)
    requires
        order.no_duplicates(),
    ensures
        without(order, value).no_duplicates(),
        !order.contains(value) ==> without(order, value) == order,
        order.contains(value) ==> without(order, value).len() == order.len() - 1,
{
    if order.contains(value) {
        let i = choose|i: int| 0 <= i < order.len() && order[i] == value;
        lemma_without_at(order, i);
        let rest = order.remove(i);
        assert forall|a: int, b: int| 0 <= a < rest.len() && 0 <= b < rest.len() && a != b implies rest[a]
            != rest[b] by {
            let fa = if a < i { a } else { a + 1 };
            let fb = if b < i { b } else { b + 1 };
            assert(order[fa] != order[fb]);
        }
    } else {
        lemma_without_absent(order, value);
    }
}

/// After any history a set is a plain list without repeats: an insertion appends what is
/// absent, a removal takes the one entry out and leaves the others in order, and clearing
/// empties it. A value is a member exactly where its insertion was the last change that
/// concerned it.
pub proof fn law_histories<T>(changes: Seq<Change<T>>, next: Change<T>, value: T)
    ensures
        after_changes(changes).no_duplicates(),
        after_changes(changes).contains(value) == was_added_last(changes, value),
        after_changes(changes.push(next)) == (match next {
            Change::Insert { value: v } => if after_changes(changes).contains(v) {
                after_changes(changes)
            } else {
                after_changes(changes).push(v)
            },
            Change::Remove { value: v } => after_changes(changes).filter(|x: T| x != v),
            Change::Clear => Seq::empty(),
        }),
        after_changes(changes.push(next)).len() == (match next {
            Change::Insert { value: v } => after_changes(changes).len() + (if after_changes(
                changes,
            ).contains(v) {
                0int
            } else {
                1
            }),
            Change::Remove { value: v } => after_changes(changes).len() - (if after_changes(
                changes,
            ).contains(v) {
                1int
            } else {
                0
            }),
            Change::Clear => 0,
        }),
    decreases changes.len(),
{
    assert(changes.push(next).drop_last() =~= changes);
    if changes.len() > 0 {
        let before = after_changes(changes.drop_last());
        law_histories(changes.drop_last(), changes.last(), value);
        match changes.last() {
            Change::Insert { value: v } => {
                lemma_with_member(before, v, value);
            },
            Change::Remove { value: v } => {
                lemma_without_member(before, v, value);
                lemma_without(before, v);
            },
            Change::Clear => {},
        }
    }
    match next {
        Change::Remove { value: v } => {
            lemma_without(after_changes(changes), v);
        },
        _ => {},
    }
}

} // verus!
