//! What holds of the fronts of attacks: which tiles come first.

use vstd::prelude::*;

use crate::attack::{held_by_player, Front};
use crate::flat_heap::{dequeued, is_heap, lower_child, parent, queued, risen, sunken};
use crate::map::{MapView, TerrainType};
use crate::ordered_tiles::TileRef;

verus! {

/// Whether a tile is on an attack's front once it was seen: land of the target that can be
/// entered.
pub open spec fn is_open_to(map: MapView, t: TileRef, target: u16) -> bool {
    map.is_land(t) && !map.is_impassable(t) && map.owner(t) == target
}

/// How many of a tile's four neighbors a player owns.
pub open spec fn held_around(map: MapView, t: TileRef, owner: u16) -> nat {
    map.neighbors4(t).filter(held_by_player(map, owner)).len()
}

/// The priority that a tile gets when it is seen with nothing else on the front.
pub open spec fn rank_of(
    front: Front,
    map: MapView,
    t: TileRef,
    owner: u16,
    target: u16,
    tick: u32,
) -> int {
    Front { heap: Seq::empty(), ..front }.seeing(map, t, owner, target, tick).heap[0].0 as int
}

/// Whether one terrain is easier to take than another: plains before highland before
/// mountains.
pub open spec fn is_easier(a: TerrainType, b: TerrainType) -> bool {
    (a == TerrainType::Plains && (b == TerrainType::Highland || b == TerrainType::Mountain)) || (a
        == TerrainType::Highland && b == TerrainType::Mountain)
}

/// Land that can be entered is plains, highland or mountains, by its magnitude.
pub proof fn law_terrain(map: MapView, t: TileRef)
    requires
        map.valid(t),
        map.is_land(t),
    ensures
        map.tiles[t as int].magnitude < 10 <==> map.terrain_type(t) == TerrainType::Plains,
        10 <= map.tiles[t as int].magnitude < 20 <==> map.terrain_type(t) == TerrainType::Highland,
        20 <= map.tiles[t as int].magnitude < 31 <==> map.terrain_type(t) == TerrainType::Mountain,
        31 <= map.tiles[t as int].magnitude <==> map.terrain_type(t) == TerrainType::Impassable,
        map.is_impassable(t) <==> map.tiles[t as int].magnitude == 31,
{
}

/// A tile that is seen goes on the front where it is open to the attack, and nowhere
/// otherwise. Its priority does not depend on what else is there.
pub proof fn law_seen_tiles(
    front: Front,
    map: MapView,
    t: TileRef,
    owner: u16,
    target: u16,
    tick: u32,
)
    requires
        is_heap(front.heap),
    ensures
        ({
            let after = front.seeing(map, t, owner, target, tick);
            &&& is_open_to(map, t, target) ==> {
                &&& after.heap.to_multiset() == front.heap.to_multiset().insert(
                    (rank_of(front, map, t, owner, target, tick) as i64, t),
                )
                &&& is_heap(after.heap)
                &&& after.border.contains(t)
                &&& after.rng == crate::prng::next_state(front.rng)
            }
            &&& !is_open_to(map, t, target) ==> after == front
        }),
{
    if is_open_to(map, t, target) {
        let blank = Front { heap: Seq::empty(), ..front };
        let alone = blank.seeing(map, t, owner, target, tick).heap;
        let after = front.seeing(map, t, owner, target, tick);
        let own = held_around(map, t, owner);
        let e: (i64, TileRef) = (
            (((crate::prng::int_drawn(front.rng, 0, 7) + 10) * (4 - 2 * own
                + crate::attack::hardness(map.terrain_type(t)))) + 4 * tick) as i64,
            t,
        );
        assert(alone == queued(Seq::empty(), e));
        assert(alone =~= seq![e]);
        assert(after.heap == queued(front.heap, e));
        law_queued(front.heap, e);
        let border = crate::ordered_tiles::with(front.border, t);
        if !front.border.contains(t) {
            assert(border[front.border.len() as int] == t);
        }
    }
}

/// Of two tiles that are seen on one tick with the same draw, the one of which the attacker
/// holds more neighbors comes first on the same terrain, and the one on easier terrain comes
/// first with as many neighbors; who is better off in both comes first too. A neighbor
/// counts twice as much as a step in terrain.
pub proof fn law_priorities(
    front: Front,
    map: MapView,
    a: TileRef,
    b: TileRef,
    owner: u16,
    target: u16,
    tick: u32,
)
    requires
        map.wf(),
        map.valid(a),
        map.valid(b),
        is_open_to(map, a, target),
        is_open_to(map, b, target),
    ensures
        ({
            let ranks = (
                rank_of(front, map, a, owner, target, tick),
                rank_of(front, map, b, owner, target, tick),
            );
            let held = (held_around(map, a, owner), held_around(map, b, owner));
            let terrain = (map.terrain_type(a), map.terrain_type(b));
            &&& terrain.0 == terrain.1 && held.0 > held.1 ==> ranks.0 < ranks.1
            &&& terrain.0 == terrain.1 && held.0 == held.1 ==> ranks.0 == ranks.1
            &&& is_easier(terrain.0, terrain.1) && held.0 == held.1 ==> ranks.0 < ranks.1
            &&& is_easier(terrain.0, terrain.1) && held.0 >= held.1 ==> ranks.0 < ranks.1
            &&& terrain.0 == TerrainType::Plains && terrain.1 == TerrainType::Mountain && held.1
                == held.0 + 1 ==> ranks.0 == ranks.1
            &&& terrain.0 == TerrainType::Plains && terrain.1 == TerrainType::Highland && held.1
                == held.0 + 1 ==> ranks.0 > ranks.1
        }),
{
    lemma_rank(front, map, a, owner, target, tick);
    lemma_rank(front, map, b, owner, target, tick);
    crate::prng::lemma_int_drawn(front.rng, 0, 7);
    let draw = crate::prng::int_drawn(front.rng, 0, 7) + 10;
    let x = 4 - 2 * held_around(map, a, owner) + crate::attack::hardness(map.terrain_type(a));
    let y = 4 - 2 * held_around(map, b, owner) + crate::attack::hardness(map.terrain_type(b));
    if x < y {
        assert(draw * x < draw * y) by (nonlinear_arith)
            requires
                x < y,
                draw > 0,
        ;
    } else if x > y {
        assert(draw * x > draw * y) by (nonlinear_arith)
            requires
                x > y,
                draw > 0,
        ;
    }
}

/// A tile that is seen later by so many ticks comes later by as many, which counts four
/// times; a plains tile of which the attacker holds three neighbors comes on its tick, one
/// more neighbor less puts it back by five ticks at least and eight at most.
pub proof fn law_priorities_age(
    front: Front,
    map: MapView,
    t: TileRef,
    owner: u16,
    target: u16,
    tick: u32,
    later: u32,
)
    requires
        map.wf(),
        map.valid(t),
        is_open_to(map, t, target),
    ensures
        rank_of(front, map, t, owner, target, later) - rank_of(front, map, t, owner, target, tick)
            == 4 * (later - tick),
        map.terrain_type(t) == TerrainType::Plains && held_around(map, t, owner) == 3 ==> rank_of(
            front,
            map,
            t,
            owner,
            target,
            tick,
        ) == 4 * tick,
        map.terrain_type(t) == TerrainType::Plains && held_around(map, t, owner) == 2 ==> 4 * tick
            + 20 <= rank_of(front, map, t, owner, target, tick) <= 4 * tick + 32,
        map.terrain_type(t) == TerrainType::Plains && held_around(map, t, owner) == 1 ==> 4 * tick
            + 40 <= rank_of(front, map, t, owner, target, tick) <= 4 * tick + 64,
        map.terrain_type(t) == TerrainType::Mountain && held_around(map, t, owner) == 1 ==> 4 * tick
            + 60 <= rank_of(front, map, t, owner, target, tick) <= 4 * tick + 96,
{
    lemma_rank(front, map, t, owner, target, tick);
    lemma_rank(front, map, t, owner, target, later);
    crate::prng::lemma_int_drawn(front.rng, 0, 7);
    let draw = crate::prng::int_drawn(front.rng, 0, 7) + 10;
    let ease = 4 - 2 * held_around(map, t, owner) + crate::attack::hardness(map.terrain_type(t));
    assert(ease == 0 ==> draw * ease == 0) by (nonlinear_arith);
    assert(ease == 2 ==> draw * ease == 2 * draw) by (nonlinear_arith);
    assert(ease == 4 ==> draw * ease == 4 * draw) by (nonlinear_arith);
    assert(ease == 6 ==> draw * ease == 6 * draw) by (nonlinear_arith);
}

proof fn lemma_rank(front: Front, map: MapView, t: TileRef, owner: u16, target: u16, tick: u32)
    requires
        map.wf(),
        map.valid(t),
        is_open_to(map, t, target),
    ensures
        rank_of(front, map, t, owner, target, tick) == (crate::prng::int_drawn(front.rng, 0, 7)
            + 10) * (4 - 2 * held_around(map, t, owner) + crate::attack::hardness(
            map.terrain_type(t),
        )) + 4 * tick,
        held_around(map, t, owner) <= 4,
{
    map.lemma_neighbors4(t);
    let own = held_around(map, t, owner);
    crate::lists::lemma_filter_len(map.neighbors4(t), held_by_player(map, owner));
    crate::prng::lemma_int_drawn(front.rng, 0, 7);
    let draw = crate::prng::int_drawn(front.rng, 0, 7) + 10;
    let ease = 4 - 2 * own + crate::attack::hardness(map.terrain_type(t));
    assert(-64 <= draw * ease <= 128) by (nonlinear_arith)
        requires
            10 <= draw <= 16,
            -4 <= ease <= 8,
    ;
    let e: (i64, TileRef) = ((draw * ease + 4 * tick) as i64, t);
    assert(Front { heap: Seq::empty(), ..front }.seeing(map, t, owner, target, tick).heap
        == queued(Seq::empty(), e));
    assert(queued(Seq::empty(), e) =~= seq![e]);
}

/// What is queued joins the entries, and the lowest priority stays in front.
pub proof fn law_queued(entries: Seq<(i64, TileRef)>, x: (i64, TileRef))
    requires
        is_heap(entries),
    ensures
        queued(entries, x).to_multiset() == entries.to_multiset().insert(x),
        is_heap(queued(entries, x)),
{
    broadcast use vstd::seq_lib::group_to_multiset_ensures;

    let n = entries.len() as int;
    let more = entries.push(x);
    assert forall|j: int| 0 < j < more.len() && j != n && parent(j) != n implies more[parent(j)].0
        <= (#[trigger] more[j]).0 by {
        assert(entries[parent(j)].0 <= entries[j].0);
    }
    lemma_risen(more, n, x);
    assert(more.update(n, x) =~= more);
}

proof fn lemma_risen(entries: Seq<(i64, TileRef)>, gap: int, x: (i64, TileRef))
    requires
        0 <= gap < entries.len(),
        forall|j: int|
            0 < j < entries.len() && j != gap && parent(j) != gap ==> entries[parent(j)].0 <= (
            #[trigger] entries[j]).0,
        forall|j: int|
            0 < j < entries.len() && parent(j) == gap ==> x.0 <= (#[trigger] entries[j]).0 && (gap
                > 0 ==> entries[parent(gap)].0 <= entries[j].0),
    ensures
        risen(entries, gap, x).to_multiset() == entries.update(gap, x).to_multiset(),
        is_heap(risen(entries, gap, x)),
    decreases gap,
{
    if gap <= 0 || x.0 >= entries[parent(gap)].0 {
        let done = entries.update(gap, x);
        assert forall|j: int| 0 < j < done.len() implies done[parent(j)].0 <= (
        #[trigger] done[j]).0 by {
            assert(entries[j] == entries[j]);
            if j != gap && parent(j) != gap {
                assert(entries[parent(j)].0 <= entries[j].0);
            } else if j != gap {
                assert(x.0 <= entries[j].0);
            }
        }
    } else {
        let up = parent(gap);
        let moved = entries.update(gap, entries[up]);
        assert forall|j: int| 0 < j < moved.len() && j != up && parent(j) != up implies moved[parent(
            j,
        )].0 <= (#[trigger] moved[j]).0 by {
            if parent(j) == gap {
                assert(entries[up].0 <= entries[j].0);
            } else {
                assert(entries[parent(j)].0 <= entries[j].0);
            }
        }
        assert forall|j: int| 0 < j < moved.len() && parent(j) == up implies x.0 <= (
        #[trigger] moved[j]).0 && (up > 0 ==> moved[parent(up)].0 <= moved[j].0) by {
            if j != gap {
                assert(entries[parent(j)].0 <= entries[j].0);
            }
            if up > 0 {
                assert(entries[parent(up)].0 <= entries[up].0);
            }
        }
        lemma_risen(moved, up, x);
        crate::flat_heap::lemma_move(entries, gap, up, x);
    }
}

/// What is dequeued is the entry in front; the others stay, and the lowest priority is in
/// front again.
pub proof fn law_dequeued(entries: Seq<(i64, TileRef)>)
    requires
        is_heap(entries),
        entries.len() > 0,
    ensures
        dequeued(entries).to_multiset() == entries.to_multiset().remove(entries[0]),
        is_heap(dequeued(entries)),
        forall|i: int| 0 <= i < entries.len() ==> entries[0].0 <= (#[trigger] entries[i]).0,
{
    broadcast use vstd::seq_lib::group_to_multiset_ensures;

    assert forall|i: int| 0 <= i < entries.len() implies entries[0].0 <= (
    #[trigger] entries[i]).0 by {
        crate::flat_heap::lemma_root_is_lowest(entries, i);
    }
    let n = entries.len() - 1;
    vstd::seq_lib::to_multiset_remove(entries, n);
    if n == 0 {
        assert(dequeued(entries) =~= entries.remove(0));
        vstd::seq_lib::to_multiset_remove(entries, 0);
    } else {
        let rest = entries.drop_last();
        let x = entries.last();
        assert(rest =~= entries.remove(n));
        assert forall|j: int| 0 < j < rest.len() && j != 0 && parent(j) != 0 implies rest[parent(
            j,
        )].0 <= (#[trigger] rest[j]).0 by {
            assert(entries[parent(j)].0 <= entries[j].0);
        }
        lemma_sunken(rest, 0, x);
        vstd::seq_lib::to_multiset_update(rest, 0, x);
        assert(rest[0] == entries[0]);
        assert(rest.contains(rest[0]));
        assert(dequeued(entries).to_multiset() =~= entries.to_multiset().remove(entries[0]));
    }
}

proof fn lemma_sunken(entries: Seq<(i64, TileRef)>, gap: int, x: (i64, TileRef))
    requires
        0 <= gap < entries.len(),
        forall|j: int|
            0 < j < entries.len() && j != gap && parent(j) != gap ==> entries[parent(j)].0 <= (
            #[trigger] entries[j]).0,
        gap > 0 ==> entries[parent(gap)].0 <= x.0,
        forall|j: int|
            0 < j < entries.len() && parent(j) == gap && gap > 0 ==> entries[parent(gap)].0 <= (
            #[trigger] entries[j]).0,
    ensures
        sunken(entries, gap, x).to_multiset() == entries.update(gap, x).to_multiset(),
        is_heap(sunken(entries, gap, x)),
    decreases entries.len() - gap,
{
    let child = lower_child(entries, gap);
    if 2 * gap + 1 >= entries.len() || x.0 <= entries[child].0 {
        let done = entries.update(gap, x);
        assert forall|j: int| 0 < j < done.len() implies done[parent(j)].0 <= (
        #[trigger] done[j]).0 by {
            if parent(j) == gap {
                assert(j == 2 * gap + 1 || j == 2 * gap + 2);
            } else if j != gap {
                assert(entries[parent(j)].0 <= entries[j].0);
            }
        }
    } else {
        let moved = entries.update(gap, entries[child]);
        assert(parent(child) == gap);
        assert forall|j: int| 0 < j < moved.len() && j != child && parent(j) != child implies moved[parent(
            j,
        )].0 <= (#[trigger] moved[j]).0 by {
            if parent(j) == gap {
                assert(j == 2 * gap + 1 || j == 2 * gap + 2);
            } else if j == gap {
                assert(entries[parent(gap)].0 <= entries[child].0);
            } else {
                assert(entries[parent(j)].0 <= entries[j].0);
            }
        }
        assert forall|j: int| 0 < j < moved.len() && parent(j) == child && child > 0 implies moved[parent(
            child,
        )].0 <= (#[trigger] moved[j]).0 by {
            assert(entries[parent(j)].0 <= entries[j].0);
        }
        lemma_sunken(moved, child, x);
        crate::flat_heap::lemma_move(entries, gap, child, x);
    }
}

/// Whether an attack can take a tile: land of its target that can be entered and lies next
/// to its owner's.
pub open spec fn is_prey(map: MapView, t: TileRef, owner: u16, target: u16) -> bool {
    is_open_to(map, t, target) && held_around(map, t, owner) > 0
}

/// An attack takes the tile with the lowest priority of those on its front that it can take,
/// and none only where there is no such tile.
pub proof fn law_best_tile_first(front: Front, map: MapView, owner: u16, target: u16, tick: u32)
    requires
        is_heap(front.heap),
    ensures
        match front.choosing(map, owner, target, tick).1 {
            Some(t) => is_prey(map, t, owner, target) && exists|k: int|
                0 <= k < front.heap.len() && (#[trigger] front.heap[k]).1 == t && forall|i: int|
                    0 <= i < front.heap.len() && is_prey(
                        map,
                        (#[trigger] front.heap[i]).1,
                        owner,
                        target,
                    ) ==> front.heap[k].0 <= front.heap[i].0,
            None => forall|i: int|
                0 <= i < front.heap.len() ==> !is_prey(
                    map,
                    (#[trigger] front.heap[i]).1,
                    owner,
                    target,
                ),
        },
    decreases front.heap.len(),
{
    broadcast use vstd::seq_lib::group_to_multiset_ensures;

    let heap = front.heap;
    assert forall|t: TileRef| #[trigger] map.takable(t, owner, target) == is_prey(
        map,
        t,
        owner,
        target,
    ) by {
        let p = held_by_player(map, owner);
        let near = map.neighbors4(t);
        crate::lists::lemma_filter_members(near, p);
        if crate::lists::some_where(near, p) {
            let i = choose|i: int| 0 <= i < near.len() && p(#[trigger] near[i]);
            assert(near.contains(near[i]));
            assert(near.filter(p).contains(near[i]));
        }
        if near.filter(p).len() > 0 {
            assert(near.filter(p).contains(near.filter(p)[0]));
            let i = choose|i: int| 0 <= i < near.len() && near[i] == near.filter(p)[0];
            assert(p(near[i]));
        }
    }
    if heap.len() > 0 {
        law_dequeued(heap);
        crate::flat_heap::lemma_dequeued_len(heap);
        let t = heap[0].1;
        if map.takable(t, owner, target) {
            assert(is_prey(map, t, owner, target));
        } else {
            let next = front.popped();
            let rest = next.heap;
            law_best_tile_first(next, map, owner, target, tick);
            assert forall|e: (i64, TileRef)| #[trigger] rest.contains(e) implies heap.contains(
                e,
            ) by {
                assert(rest.to_multiset().count(e) > 0);
                assert(heap.to_multiset().count(e) > 0);
            }
            assert forall|i: int| 0 < i < heap.len() && is_prey(
                map,
                (#[trigger] heap[i]).1,
                owner,
                target,
            ) implies rest.contains(heap[i]) by {
                assert(heap[i] != heap[0]);
                assert(heap.contains(heap[i]));
                assert(rest.to_multiset().count(heap[i]) > 0);
            }
            match front.choosing(map, owner, target, tick).1 {
                Some(best) => {
                    let k = choose|k: int|
                        0 <= k < rest.len() && (#[trigger] rest[k]).1 == best && forall|i: int|
                            0 <= i < rest.len() && is_prey(
                                map,
                                (#[trigger] rest[i]).1,
                                owner,
                                target,
                            ) ==> rest[k].0 <= rest[i].0;
                    assert(rest.contains(rest[k]));
                    let m = choose|m: int| 0 <= m < heap.len() && heap[m] == rest[k];
                    assert forall|i: int| 0 <= i < heap.len() && is_prey(
                        map,
                        (#[trigger] heap[i]).1,
                        owner,
                        target,
                    ) implies heap[m].0 <= heap[i].0 by {
                        assert(i != 0);
                        assert(rest.contains(heap[i]));
                        let j = choose|j: int| 0 <= j < rest.len() && rest[j] == heap[i];
                        assert(rest[k].0 <= rest[j].0);
                    }
                    assert(heap[m].1 == best);
                },
                None => {
                    assert forall|i: int| 0 <= i < heap.len() implies !is_prey(
                        map,
                        (#[trigger] heap[i]).1,
                        owner,
                        target,
                    ) by {
                        if i > 0 && is_prey(map, heap[i].1, owner, target) {
                            assert(rest.contains(heap[i]));
                            let j = choose|j: int| 0 <= j < rest.len() && rest[j] == heap[i];
                            assert(is_prey(map, rest[j].1, owner, target));
                        }
                    }
                },
            }
        }
    }
}

} // verus!
