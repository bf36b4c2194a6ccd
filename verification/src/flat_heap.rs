//! A min-heap of tiles by priority.

use vstd::prelude::*;

use crate::ordered_tiles::TileRef;

verus! {

/// A binary min-heap that hands out the tile with the lowest priority first.
///
/// Tiles of equal priority come out in the order that the heap's own layout gives, not
/// in the order in which they went in.
pub struct FlatBinaryHeap {
    pri: Vec<i64>,
    tiles: Vec<TileRef>,
}

/// The parent of position `i`.
pub open spec fn parent(i: int) -> int {
    (i - 1) / 2
}

/// No entry ranks before its parent.
pub open spec fn is_heap(entries: Seq<(i64, TileRef)>) -> bool {
    forall|i: int| 0 < i < entries.len() ==> entries[parent(i)].0 <= (#[trigger] entries[i]).0
}

/// Entries after `x`, which belongs at `gap` or above it, rose to its place.
pub open spec fn risen(entries: Seq<(i64, TileRef)>, gap: int, x: (i64, TileRef)) -> Seq<
    (i64, TileRef),
>
    decreases gap,
{
    if gap <= 0 || x.0 >= entries[parent(gap)].0 {
        entries.update(gap, x)
    } else {
        risen(entries.update(gap, entries[parent(gap)]), parent(gap), x)
    }
}

/// Entries with one more.
pub open spec fn queued(entries: Seq<(i64, TileRef)>, x: (i64, TileRef)) -> Seq<(i64, TileRef)> {
    risen(entries.push(x), entries.len() as int, x)
}

/// The child of position `i` with the lower priority, the left one where both have the same.
pub open spec fn lower_child(entries: Seq<(i64, TileRef)>, i: int) -> int {
    if 2 * i + 2 < entries.len() && entries[2 * i + 2].0 < entries[2 * i + 1].0 {
        2 * i + 2
    } else {
        2 * i + 1
    }
}

/// Entries after `x`, which belongs at `gap` or below it, sank to its place.
pub open spec fn sunken(entries: Seq<(i64, TileRef)>, gap: int, x: (i64, TileRef)) -> Seq<
    (i64, TileRef),
>
    decreases entries.len() - gap,
{
    if gap < 0 || 2 * gap + 1 >= entries.len() || x.0 <= entries[lower_child(entries, gap)].0 {
        entries.update(gap, x)
    } else {
        sunken(
            entries.update(gap, entries[lower_child(entries, gap)]),
            lower_child(entries, gap),
            x,
        )
    }
}

/// Entries without the one in front.
pub open spec fn dequeued(entries: Seq<(i64, TileRef)>) -> Seq<(i64, TileRef)> {
    if entries.len() <= 1 {
        Seq::empty()
    } else {
        sunken(entries.drop_last(), 0, entries.last())
    }
}

proof fn lemma_sunken_len(entries: Seq<(i64, TileRef)>, gap: int, x: (i64, TileRef))
    requires
        0 <= gap < entries.len(),
    ensures
        sunken(entries, gap, x).len() == entries.len(),
    decreases entries.len() - gap,
{
    if !(2 * gap + 1 >= entries.len() || x.0 <= entries[lower_child(entries, gap)].0) {
        lemma_sunken_len(
            entries.update(gap, entries[lower_child(entries, gap)]),
            lower_child(entries, gap),
            x,
        );
    }
}

/// Taking out an entry leaves one fewer.
pub proof fn lemma_dequeued_len(entries: Seq<(i64, TileRef)>)
    requires
        entries.len() > 0,
    ensures
        dequeued(entries).len() == entries.len() - 1,
{
    if entries.len() > 1 {
        lemma_sunken_len(entries.drop_last(), 0, entries.last());
    }
}

/// In a heap the first entry has the lowest priority.
pub proof fn lemma_root_is_lowest(entries: Seq<(i64, TileRef)>, i: int)
    requires
        is_heap(entries),
        0 <= i < entries.len(),
    ensures
        entries[0].0 <= entries[i].0,
    decreases i,
{
    if i > 0 {
        lemma_root_is_lowest(entries, parent(i));
        assert(entries[parent(i)].0 <= entries[i].0);
    }
}

/// Moving the entry at `from` into the gap at `gap`, and the travelling entry's place to
/// `from`, keeps the entries as a whole.
pub(crate) proof fn lemma_move(entries: Seq<(i64, TileRef)>, gap: int, from: int, x: (i64, TileRef))
    requires
        0 <= gap < entries.len(),
        0 <= from < entries.len(),
        gap != from,
    ensures
        entries.update(gap, entries[from]).update(from, x).to_multiset() == entries.update(
            gap,
            x,
        ).to_multiset(),
{
    broadcast use vstd::seq_lib::group_to_multiset_ensures;

    let moved = entries.update(gap, entries[from]);
    vstd::seq_lib::to_multiset_update(entries, gap, entries[from]);
    vstd::seq_lib::to_multiset_update(moved, from, x);
    vstd::seq_lib::to_multiset_update(entries, gap, x);
    assert(moved[from] == entries[from]);
    assert(moved.contains(entries[from]));
    assert(entries.contains(entries[gap]));
    assert(moved.update(from, x).to_multiset() =~= entries.update(gap, x).to_multiset());
}

impl View for FlatBinaryHeap {
    type V = Seq<(i64, TileRef)>;

    /// The entries in the order of the heap's layout, each with its priority first.
    closed spec fn view(&self) -> Seq<(i64, TileRef)> {
        Seq::new(self.pri@.len(), |i: int| (self.pri@[i], self.tiles@[i]))
    }
}

impl FlatBinaryHeap {
    /// Each priority has its tile, and no entry ranks before its parent.
    pub closed spec fn wf(&self) -> bool {
        &&& self.pri@.len() == self.tiles@.len()
        &&& is_heap(self@)
    }

    /// In a well-formed heap no entry ranks before its parent.
    pub proof fn law_heap_order(&self)
        requires
            self.wf(),
        ensures
            is_heap(self@),
    {
    }

    /// An empty heap with room for `capacity` entries.
    pub fn new(capacity: usize) -> (heap: Self)
        ensures
            heap.wf(),
            heap@ == Seq::<(i64, TileRef)>::empty(),
    {
        let heap = FlatBinaryHeap {
            pri: Vec::with_capacity(capacity),
            tiles: Vec::with_capacity(capacity),
        };
        assert(heap@ =~= Seq::<(i64, TileRef)>::empty());
        heap
    }

    pub fn clear(&mut self)
        ensures
            final(self).wf(),
            final(self)@ == Seq::<(i64, TileRef)>::empty(),
    {
        self.pri.clear();
        self.tiles.clear();
        assert(self@ =~= Seq::<(i64, TileRef)>::empty());
    }

    pub fn len(&self) -> (n: usize)
        ensures
            n == self@.len(),
    {
        self.pri.len()
    }

    pub fn is_empty(&self) -> (empty: bool)
        ensures
            empty == (self@.len() == 0),
    {
        self.pri.len() == 0
    }

    /// Puts `tile` in with `priority`.
    pub fn enqueue(&mut self, tile: TileRef, priority: i64)
        requires
            old(self).wf(),
        ensures
            final(self).wf(),
            final(self)@ == queued(old(self)@, (priority, tile)),
            final(self)@.len() == old(self)@.len() + 1,
            final(self)@.to_multiset() == old(self)@.to_multiset().insert((priority, tile)),
    {
        broadcast use vstd::seq_lib::group_to_multiset_ensures;

        let ghost before = self@;
        let ghost x = (priority, tile);
        let mut i: usize = self.pri.len();
        self.pri.push(priority);
        self.tiles.push(tile);
        assert(self@ =~= before.push(x));
        assert(self@.update(i as int, x) =~= self@);
        proof {
            vstd::seq_lib::to_multiset_build(before, x);
        }
        while i > 0
            invariant_except_break
                self@.update(i as int, x).to_multiset() == before.to_multiset().insert(x),
            invariant
                risen(self@, i as int, x) == queued(before, x),
                self.pri@.len() == self.tiles@.len(),
                self.pri@.len() == before.len() + 1,
                i < self.pri@.len(),
                x == (priority, tile),
                forall|j: int|
                    0 < j < self.pri@.len() && j != i ==> self@.update(i as int, x)[parent(j)].0
                        <= (#[trigger] self@.update(i as int, x)[j]).0,
                forall|j: int|
                    0 < j < self.pri@.len() && parent(j) == i && i > 0
                        ==> self@[parent(i as int)].0 <= (#[trigger] self@[j]).0,
            ensures
                self@.update(i as int, x).to_multiset() == before.to_multiset().insert(x),
                i > 0 ==> self@[parent(i as int)].0 <= priority,
            decreases i,
        {
            let up: usize = (i - 1) / 2;
            assert(up == parent(i as int));
            if priority >= self.pri[up] {
                break;
            }
            let ghost held = self@;
            let ghost with_x = held.update(i as int, x);
            let up_pri: i64 = self.pri[up];
            let up_tile: TileRef = self.tiles[up];
            self.pri.set(i, up_pri);
            self.tiles.set(i, up_tile);
            proof {
                assert(self@ =~= held.update(i as int, held[up as int]));
                lemma_move(held, i as int, up as int, x);
                let now = self@.update(up as int, x);
                assert forall|j: int| 0 < j < self.pri@.len() && j != up implies now[parent(j)].0 <= (
                #[trigger] now[j]).0 by {
                    assert(with_x[j].0 == with_x[j].0);
                    if j != i {
                        assert(with_x[parent(j)].0 <= with_x[j].0);
                        if parent(j) == i {
                            assert(held[parent(i as int)].0 <= held[j].0);
                        }
                    }
                }
                assert forall|j: int| 0 < j < self.pri@.len() && parent(j) == up && up > 0 implies self@[parent(
                    up as int,
                )].0 <= (#[trigger] self@[j]).0 by {
                    assert(with_x[parent(up as int)].0 <= with_x[up as int].0);
                    if j != i {
                        assert(with_x[parent(j)].0 <= with_x[j].0);
                    }
                }
            }
            i = up;
        }
        let ghost held = self@;
        self.pri.set(i, priority);
        self.tiles.set(i, tile);
        proof {
            assert(self@ =~= held.update(i as int, x));
            assert forall|j: int| 0 < j < self@.len() implies self@[parent(j)].0 <= (#[trigger] self@[j]).0 by {
                if j != i {
                    assert(held.update(i as int, x)[j] == self@[j]);
                }
            }
        }
    }

    /// Takes out the tile in front, which is one of lowest priority.
    #[verifier::rlimit(60)]
    pub fn dequeue(&mut self) -> (tile: Option<TileRef>)
        requires
            old(self).wf(),
        ensures
            final(self).wf(),
            tile == (if old(self)@.len() == 0 {
                None
            } else {
                Some(old(self)@[0].1)
            }),
            forall|i: int|
                0 <= i < old(self)@.len() ==> old(self)@[0].0 <= (#[trigger] old(self)@[i]).0,
            final(self)@ == dequeued(old(self)@),
            old(self)@.len() > 0 ==> final(self)@.len() == old(self)@.len() - 1,
            old(self)@.len() > 0 ==> final(self)@.to_multiset() == old(self)@.to_multiset().remove(
                old(self)@[0],
            ),
    {
        broadcast use vstd::seq_lib::group_to_multiset_ensures;

        let ghost before = self@;
        proof {
            assert forall|i: int| 0 <= i < before.len() implies before[0].0 <= (#[trigger] before[i]).0 by {
                lemma_root_is_lowest(before, i);
            }
        }
        if self.pri.len() == 0 {
            assert(self@ =~= Seq::empty());
            return None;
        }
        let top: TileRef = self.tiles[0];
        let last: usize = self.pri.len() - 1;
        let last_pri: i64 = self.pri[last];
        let last_tile: TileRef = self.tiles[last];
        self.pri.pop();
        self.tiles.pop();
        let ghost x = (last_pri, last_tile);
        let ghost target = before.to_multiset().remove(before[0]);
        assert(self@ =~= before.drop_last());
        if self.pri.len() == 0 {
            proof {
                assert(before =~= seq![before[0]]);
                vstd::seq_lib::to_multiset_remove(before, 0);
                assert(before.remove(0) =~= self@);
            }
            return Some(top);
        }
        proof {
            let moved = self@.update(0, x);
            vstd::seq_lib::to_multiset_update(self@, 0, x);
            vstd::seq_lib::to_multiset_remove(before, before.len() - 1);
            assert(before.remove(before.len() - 1) =~= self@);
            assert(self@[0] == before[0]);
            assert(self@.contains(before[0]));
            assert(before.contains(x)) by {
                assert(before[before.len() - 1] == x);
            }
            assert(before.contains(before[0]));
            assert(moved.to_multiset() =~= target);
        }
        let mut i: usize = 0;
        loop
            invariant_except_break
                self@.update(i as int, x).to_multiset() == target,
            invariant
                sunken(self@, i as int, x) == dequeued(before),
                self.pri@.len() == self.tiles@.len(),
                self.pri@.len() == before.len() - 1,
                before.len() <= usize::MAX,
                i < self.pri@.len(),
                x == (last_pri, last_tile),
                forall|j: int|
                    0 < j < self.pri@.len() && parent(j) != i ==> self@.update(
                        i as int,
                        x,
                    )[parent(j)].0 <= (#[trigger] self@.update(i as int, x)[j]).0,
                forall|j: int|
                    0 < j < self.pri@.len() && parent(j) == i && i > 0
                        ==> self@[parent(i as int)].0 <= (#[trigger] self@[j]).0,
            ensures
                self@.update(i as int, x).to_multiset() == target,
                forall|j: int|
                    0 < j < self.pri@.len() && parent(j) == i ==> last_pri <= (#[trigger] self@[j]).0,
                self@.update(i as int, x) == dequeued(before),
            decreases self.pri@.len() - i,
        {
            if i > (self.pri.len() - 1) / 2 || 2 * i + 1 >= self.pri.len() {
                assert(sunken(self@, i as int, x) == self@.update(i as int, x));
                break;
            }
            let left: usize = 2 * i + 1;
            let right: usize = left + 1;
            let child: usize = if right < self.pri.len() && self.pri[right] < self.pri[left] {
                right
            } else {
                left
            };
            assert(self@[child as int].0 == self.pri@[child as int]);
            assert forall|j: int| 0 < j < self.pri@.len() && parent(j) == i implies self@[child as int].0 <= (
            #[trigger] self@[j]).0 by {
                assert(j == left || j == right);
            }
            assert(child == lower_child(self@, i as int));
            if last_pri <= self.pri[child] {
                assert(sunken(self@, i as int, x) == self@.update(i as int, x));
                break;
            }
            let ghost held = self@;
            let ghost with_x = held.update(i as int, x);
            let child_pri: i64 = self.pri[child];
            let child_tile: TileRef = self.tiles[child];
            self.pri.set(i, child_pri);
            self.tiles.set(i, child_tile);
            proof {
                assert(self@ =~= held.update(i as int, held[child as int]));
                assert(sunken(held, i as int, x) == sunken(self@, child as int, x));
                lemma_move(held, i as int, child as int, x);
                let now = self@.update(child as int, x);
                assert forall|j: int| 0 < j < self.pri@.len() && parent(j) != child implies now[parent(j)].0
                    <= (#[trigger] now[j]).0 by {
                    if parent(j) != i {
                        assert(with_x[parent(j)].0 <= with_x[j].0);
                        if j == i {
                            assert(held[parent(i as int)].0 <= held[child as int].0);
                        }
                    } else {
                        assert(held[child as int].0 <= held[j].0);
                    }
                }
                assert forall|j: int| 0 < j < self.pri@.len() && parent(j) == child && child > 0 implies self@[parent(
                    child as int,
                )].0 <= (#[trigger] self@[j]).0 by {
                    assert(with_x[parent(j)].0 <= with_x[j].0);
                }
            }
            i = child;
        }
        let ghost held = self@;
        self.pri.set(i, last_pri);
        self.tiles.set(i, last_tile);
        proof {
            assert(self@ =~= held.update(i as int, x));
            assert forall|j: int| 0 < j < self@.len() implies self@[parent(j)].0 <= (#[trigger] self@[j]).0 by {
                if parent(j) == i {
                    assert(last_pri <= held[j].0);
                } else {
                    assert(held.update(i as int, x)[j] == self@[j]);
                }
            }
        }
        Some(top)
    }
}

/// Sinking leaves everything above alone.
proof fn lemma_sunken_above(entries: Seq<(i64, TileRef)>, gap: int, x: (i64, TileRef), i: int)
    requires
        0 <= i < gap < entries.len(),
    ensures
        sunken(entries, gap, x)[i] == entries[i],
    decreases entries.len() - gap,
{
    if !(2 * gap + 1 >= entries.len() || x.0 <= entries[lower_child(entries, gap)].0) {
        lemma_sunken_above(
            entries.update(gap, entries[lower_child(entries, gap)]),
            lower_child(entries, gap),
            x,
            i,
        );
    }
}

/// Tiles come out by ascending priority: what comes next never has a lower one than what came
/// before.
pub proof fn law_tiles_come_out_in_order(entries: Seq<(i64, TileRef)>)
    requires
        is_heap(entries),
        entries.len() > 1,
    ensures
        entries[0].0 <= dequeued(entries)[0].0,
{
    let rest = entries.drop_last();
    let x = entries.last();
    lemma_root_is_lowest(entries, entries.len() - 1);
    let child = lower_child(rest, 0);
    if !(1 >= rest.len() || x.0 <= rest[child].0) {
        lemma_root_is_lowest(entries, child);
        let moved = rest.update(0, rest[child]);
        lemma_sunken_above(moved, child, x, 0);
        assert(dequeued(entries) == sunken(moved, child, x));
    }
}

} // verus!
