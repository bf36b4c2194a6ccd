//! What holds of nukes and MIRVs: which tiles burn, and where warheads land.

use vstd::prelude::*;

use crate::config::NukeMagnitude;
use crate::execution::Execution;
use crate::game::GameView;
use crate::game_blast::{burnt, catches, caught, crater};
use crate::map::{gap, MapView};
use crate::mirv_execution::{second_raw, spread_coord, MirvExecution};
use crate::ordered_tiles::TileRef;
use crate::orders::Order;
use crate::unit_type::UnitType;

verus! {

/// Whether a nuke at `dst` can burn a tile at all.
pub open spec fn can_burn(map: MapView, dst: TileRef, reach: NukeMagnitude, t: TileRef) -> bool {
    map.dist2(dst, t) <= reach.outer * reach.outer && !map.is_impassable(t)
}

/// Whether a tile lies in the inner circle of a nuke at `dst`.
pub open spec fn in_core(map: MapView, dst: TileRef, reach: NukeMagnitude, t: TileRef) -> bool {
    map.dist2(dst, t) <= reach.inner * reach.inner
}

/// Whether one of the first `n` draws of one in two from a seed came out as `hit` says.
pub open spec fn some_draw(seed: u64, n: nat, hit: bool) -> bool {
    exists|k: nat|
        k < n && crate::prng::chance_drawn(#[trigger] crate::prng::state_after(seed, k), 2) == hit
}

/// Tiles of a list.
pub open spec fn among(tiles: Seq<TileRef>) -> spec_fn(TileRef) -> bool {
    |t: TileRef| tiles.contains(t)
}

/// Tiles that a nuke burns for sure where the fire comes to them.
pub open spec fn core_tiles(map: MapView, dst: TileRef, reach: NukeMagnitude) -> spec_fn(
    TileRef,
) -> bool {
    |t: TileRef| can_burn(map, dst, reach, t) && in_core(map, dst, reach, t)
}

/// Tiles that a nuke can burn.
pub open spec fn burnable_tiles(map: MapView, dst: TileRef, reach: NukeMagnitude) -> spec_fn(
    TileRef,
) -> bool {
    |t: TileRef| can_burn(map, dst, reach, t)
}

/// Where the fire tries a tile that does not burn yet: one that can burn does so in the inner
/// circle, and outside of it exactly where one draw of one in two hits. No other tile burns
/// or costs a draw.
pub proof fn law_fire(
    map: MapView,
    dst: TileRef,
    reach: NukeMagnitude,
    burning: Seq<TileRef>,
    t: TileRef,
    rng: u64,
)
    requires
        !burning.contains(t),
        reach.inner <= reach.outer,
    ensures
        ({
            let (after, next) = caught(map, dst, reach, burning, seq![t], rng);
            let ring = map.dist2(dst, t) <= reach.outer * reach.outer && !in_core(
                map,
                dst,
                reach,
                t,
            );
            &&& after == burning || after == burning.push(t)
            &&& after.contains(t) <==> can_burn(map, dst, reach, t) && (in_core(map, dst, reach, t)
                || crate::prng::chance_drawn(rng, 2))
            &&& next == (if ring {
                crate::prng::next_state(rng)
            } else {
                rng
            })
        }),
{
    let none = seq![t].drop_last();
    assert(none =~= Seq::empty());
    assert(seq![t].last() == t);
    assert(caught(map, dst, reach, burning, none, rng) == (burning, rng));
    assert(burning.push(t)[burning.len() as int] == t);
    assert(reach.inner * reach.inner <= reach.outer * reach.outer) by (nonlinear_arith)
        requires
            reach.inner <= reach.outer,
    ;
}

/// What the fire has not burnt next to `b`, though it could have, lies outside of the inner
/// circle and was missed by a draw.
spec fn tried(
    map: MapView,
    dst: TileRef,
    reach: NukeMagnitude,
    all: Seq<TileRef>,
    b: TileRef,
    seed: u64,
    n: nat,
) -> bool {
    forall|x: TileRef| #[trigger]
        map.neighbors4(b).contains(x) && can_burn(map, dst, reach, x) && !all.contains(x)
            ==> !in_core(map, dst, reach, x) && some_draw(seed, n, false)
}

proof fn lemma_more_draws(seed: u64, n: nat, m: nat, hit: bool)
    requires
        some_draw(seed, n, hit),
        n <= m,
    ensures
        some_draw(seed, m, hit),
{
    let k = choose|k: nat|
        k < n && crate::prng::chance_drawn(#[trigger] crate::prng::state_after(seed, k), 2) == hit;
    assert(k < m && crate::prng::chance_drawn(crate::prng::state_after(seed, k), 2) == hit);
}

proof fn lemma_caught(
    map: MapView,
    dst: TileRef,
    reach: NukeMagnitude,
    seed: u64,
    burning: Seq<TileRef>,
    next: Seq<TileRef>,
    n: nat,
) -> (m: nat)
    requires
        reach.inner <= reach.outer,
        burning.no_duplicates(),
    ensures
        ({
            let (all, rng) = caught(
                map,
                dst,
                reach,
                burning,
                next,
                crate::prng::state_after(seed, n),
            );
            &&& rng == crate::prng::state_after(seed, m)
            &&& n <= m <= n + next.len()
            &&& all.no_duplicates()
            &&& burning.len() <= all.len()
            &&& forall|i: int| 0 <= i < burning.len() ==> all[i] == #[trigger] burning[i]
            &&& forall|x: TileRef| #[trigger]
                all.contains(x) && !burning.contains(x) ==> next.contains(x) && can_burn(
                    map,
                    dst,
                    reach,
                    x,
                ) && (in_core(map, dst, reach, x) || some_draw(seed, m, true))
            &&& forall|x: TileRef| #[trigger]
                next.contains(x) && can_burn(map, dst, reach, x) && !all.contains(x) ==> !in_core(
                    map,
                    dst,
                    reach,
                    x,
                ) && some_draw(seed, m, false)
        }),
    decreases next.len(),
{
    let start = crate::prng::state_after(seed, n);
    if next.len() == 0 {
        n
    } else {
        let front = next.drop_last();
        let t = next.last();
        let k = lemma_caught(map, dst, reach, seed, burning, front, n);
        let (held, rng) = caught(map, dst, reach, burning, front, start);
        let (all, after) = caught(map, dst, reach, burning, next, start);
        assert(next[next.len() - 1] == t);
        assert(reach.inner * reach.inner <= reach.outer * reach.outer) by (nonlinear_arith)
            requires
                reach.inner <= reach.outer,
        ;
        assert(crate::prng::state_after(seed, (k + 1) as nat) == crate::prng::next_state(rng));
        let drew = !held.contains(t) && map.dist2(dst, t) <= reach.outer * reach.outer && !in_core(
            map,
            dst,
            reach,
            t,
        );
        let m: nat = if drew {
            (k + 1) as nat
        } else {
            k
        };
        if drew {
            let hit = crate::prng::chance_drawn(rng, 2);
            assert(k < m && crate::prng::chance_drawn(crate::prng::state_after(seed, k), 2) == hit);
            assert(some_draw(seed, m, hit));
        }
        assert forall|x: TileRef| #[trigger] front.contains(x) implies next.contains(x) by {
            let i = choose|i: int| 0 <= i < front.len() && front[i] == x;
            assert(next[i] == x);
        }
        assert forall|x: TileRef| #[trigger] held.contains(x) implies all.contains(x) by {
            let i = choose|i: int| 0 <= i < held.len() && held[i] == x;
            assert(all[i] == x);
        }
        assert forall|x: TileRef| #[trigger] all.contains(x) && !burning.contains(
            x,
        ) implies next.contains(x) && can_burn(map, dst, reach, x) && (in_core(map, dst, reach, x)
            || some_draw(seed, m, true)) by {
            let i = choose|i: int| 0 <= i < all.len() && all[i] == x;
            if i < held.len() {
                assert(held[i] == x);
                assert(held.contains(x));
                if some_draw(seed, k, true) {
                    lemma_more_draws(seed, k, m, true);
                }
            }
        }
        assert forall|x: TileRef| #[trigger] next.contains(x) && can_burn(map, dst, reach, x)
            && !all.contains(x) implies !in_core(map, dst, reach, x) && some_draw(
            seed,
            m,
            false,
        ) by {
            let i = choose|i: int| 0 <= i < next.len() && next[i] == x;
            if i < front.len() {
                assert(front[i] == x);
                assert(front.contains(x));
                lemma_more_draws(seed, k, m, false);
            } else if all.len() > held.len() {
                assert(all[held.len() as int] == x);
            }
        }
        assert(all.no_duplicates()) by {
            assert forall|i: int, j: int| 0 <= i < all.len() && 0 <= j < all.len() && i
                != j implies all[i] != all[j] by {
                if i < held.len() {
                    assert(held.contains(held[i]));
                }
                if j < held.len() {
                    assert(held.contains(held[j]));
                }
            }
        }
        assert forall|i: int| 0 <= i < burning.len() implies all[i] == #[trigger] burning[i] by {
            assert(held[i] == burning[i]);
        }
        m
    }
}

/// Everything that a list of burning tiles has to be.
spec fn burns_well(
    map: MapView,
    dst: TileRef,
    reach: NukeMagnitude,
    seed: u64,
    all: Seq<TileRef>,
    n: nat,
) -> bool {
    &&& all.no_duplicates()
    &&& forall|i: int| 0 <= i < all.len() ==> map.valid(#[trigger] all[i])
    &&& forall|x: TileRef| #[trigger]
        all.contains(x) ==> can_burn(map, dst, reach, x) && map.joined(dst, x, among(all)) && (
        in_core(map, dst, reach, x) || some_draw(seed, n, true))
}

proof fn lemma_burnt(
    map: MapView,
    dst: TileRef,
    reach: NukeMagnitude,
    seed: u64,
    burning: Seq<TileRef>,
    at: int,
    n: nat,
    fuel: nat,
) -> (m: nat)
    requires
        map.wf(),
        reach.inner <= reach.outer,
        0 <= at <= burning.len(),
        fuel + at >= map.tiles.len(),
        n <= 1 + 4 * at,
        burns_well(map, dst, reach, seed, burning, n),
        forall|i: int|
            0 <= i < at ==> tried(map, dst, reach, burning, #[trigger] burning[i], seed, n),
    ensures
        ({
            let all = burnt(
                map,
                dst,
                reach,
                burning,
                at,
                crate::prng::state_after(seed, n),
                fuel,
            );
            &&& n <= m <= 1 + 4 * all.len()
            &&& burning.len() <= all.len()
            &&& forall|i: int| 0 <= i < burning.len() ==> all[i] == #[trigger] burning[i]
            &&& burns_well(map, dst, reach, seed, all, m)
            &&& forall|i: int|
                0 <= i < all.len() ==> tried(map, dst, reach, all, #[trigger] all[i], seed, m)
        }),
    decreases fuel,
{
    crate::lists::lemma_distinct_below(burning, map.tiles.len());
    let start = crate::prng::state_after(seed, n);
    if fuel == 0 || at >= burning.len() {
        assert(burnt(map, dst, reach, burning, at, start, fuel) == burning);
        n
    } else {
        let here = burning[at];
        let next = map.neighbors4(here);
        map.lemma_neighbors4(here);
        let k = lemma_caught(map, dst, reach, seed, burning, next, n);
        let (more, rng) = caught(map, dst, reach, burning, next, start);
        assert(burning.contains(here));
        assert forall|x: TileRef| #[trigger] burning.contains(x) implies more.contains(x) by {
            let i = choose|i: int| 0 <= i < burning.len() && burning[i] == x;
            assert(more[i] == x);
        }
        assert forall|x: TileRef| #[trigger] more.contains(x) implies can_burn(map, dst, reach, x)
            && map.joined(dst, x, among(more)) && (in_core(map, dst, reach, x) || some_draw(
            seed,
            k,
            true,
        )) by {
            if burning.contains(x) {
                lemma_joined_more(map, dst, x, burning, more);
                if some_draw(seed, n, true) {
                    lemma_more_draws(seed, n, k, true);
                }
            } else {
                assert(next.contains(x));
                lemma_joined_more(map, dst, here, burning, more);
                map.lemma_one_more(dst, here, x, among(more));
            }
        }
        assert forall|i: int| 0 <= i < more.len() implies map.valid(#[trigger] more[i]) by {
            let x = more[i];
            assert(more.contains(x));
            if burning.contains(x) {
                let j = choose|j: int| 0 <= j < burning.len() && burning[j] == x;
                assert(map.valid(burning[j]));
            } else {
                assert(next.contains(x));
                let j = choose|j: int| 0 <= j < next.len() && next[j] == x;
                assert(map.valid(next[j]));
            }
        }
        assert forall|i: int| 0 <= i < at + 1 implies tried(
            map,
            dst,
            reach,
            more,
            #[trigger] more[i],
            seed,
            k,
        ) by {
            assert(more[i] == burning[i]);
            assert forall|x: TileRef| #[trigger] map.neighbors4(more[i]).contains(x) && can_burn(
                map,
                dst,
                reach,
                x,
            ) && !more.contains(x) implies !in_core(map, dst, reach, x) && some_draw(
                seed,
                k,
                false,
            ) by {
                if i < at {
                    assert(tried(map, dst, reach, burning, burning[i], seed, n));
                    assert(!burning.contains(x));
                    lemma_more_draws(seed, n, k, false);
                } else {
                    assert(next.contains(x));
                }
            }
        }
        let m = lemma_burnt(map, dst, reach, seed, more, at + 1, k, (fuel - 1) as nat);
        let all = burnt(map, dst, reach, burning, at, start, fuel);
        assert(all == burnt(map, dst, reach, more, at + 1, rng, (fuel - 1) as nat));
        assert forall|i: int| 0 <= i < burning.len() implies all[i] == #[trigger] burning[i] by {
            assert(more[i] == burning[i]);
        }
        m
    }
}

proof fn lemma_joined_more(
    map: MapView,
    t: TileRef,
    x: TileRef,
    few: Seq<TileRef>,
    many: Seq<TileRef>,
)
    requires
        map.joined(t, x, among(few)),
        forall|y: TileRef| #[trigger] few.contains(y) ==> many.contains(y),
    ensures
        map.joined(t, x, among(many)),
{
    let way = choose|way: Seq<TileRef>| map.leads(way, t, x, among(few));
    assert forall|i: int| 0 <= i < way.len() implies among(many)(#[trigger] way[i]) by {
        assert(among(few)(way[i]));
    }
    assert(map.leads(way, t, x, among(many)));
}

/// The draws that a nuke makes come from the tick on which it goes off.
pub open spec fn blast_seed(tick: u32) -> u64 {
    crate::prng::seed_state(tick as i32)
}

/// A crater holds tiles that can burn, each once, which lead back to the target over one
/// another. Every tile of the inner circle next to one of it burns that can, and a tile
/// outside of it burns only by a draw that hits and is spared only by one that misses.
pub proof fn law_crater(map: MapView, dst: TileRef, reach: NukeMagnitude, tick: u32)
    requires
        map.wf(),
        map.valid(dst),
        reach.inner <= reach.outer,
    ensures
        ({
            let all = crater(map, dst, reach, tick);
            let n = (1 + 4 * all.len()) as nat;
            &&& all.no_duplicates()
            &&& all.len() > 0 ==> all[0] == dst
            &&& !map.is_impassable(dst) ==> all.contains(dst)
            &&& map.is_impassable(dst) ==> all.len() == 0
            &&& forall|x: TileRef| #[trigger]
                all.contains(x) ==> map.valid(x) && can_burn(map, dst, reach, x) && map.joined(
                    dst,
                    x,
                    among(all),
                ) && (in_core(map, dst, reach, x) || some_draw(blast_seed(tick), n, true))
            &&& forall|b: TileRef, x: TileRef|
                all.contains(b) && #[trigger] map.neighbors4(b).contains(x) && can_burn(
                    map,
                    dst,
                    reach,
                    x,
                ) && !all.contains(x) ==> !in_core(map, dst, reach, x) && some_draw(
                    blast_seed(tick),
                    n,
                    false,
                )
        }),
{
    let seed = blast_seed(tick);
    let all = crater(map, dst, reach, tick);
    let n = (1 + 4 * all.len()) as nat;
    assert(map.dist2(dst, dst) == 0) by (nonlinear_arith)
        requires
            map.dist2(dst, dst) == gap(map.x(dst), map.x(dst)) * gap(map.x(dst), map.x(dst)) + gap(
                map.y(dst),
                map.y(dst),
            ) * gap(map.y(dst), map.y(dst)),
            gap(map.x(dst), map.x(dst)) == 0,
            gap(map.y(dst), map.y(dst)) == 0,
    ;
    assert(0 <= reach.inner * reach.inner <= reach.outer * reach.outer) by (nonlinear_arith)
        requires
            0 <= reach.inner <= reach.outer,
    ;
    if catches(map, dst, reach, dst, seed).0 {
        let start = seq![dst];
        assert(start[0] == dst);
        assert forall|x: TileRef| #[trigger] start.contains(x) implies can_burn(map, dst, reach, x)
            && map.joined(dst, x, among(start)) && in_core(map, dst, reach, x) by {
            assert(x == dst);
            assert forall|i: int| 0 <= i < start.len() implies among(start)(
                #[trigger] start[i],
            ) by {
                assert(start.contains(start[i]));
            }
            assert(map.leads(start, dst, dst, among(start)));
        }
        assert(crate::prng::state_after(seed, 0) == seed);
        let m = lemma_burnt(map, dst, reach, seed, start, 0, 0, map.tiles.len());
        assert(all[0] == start[0]);
        assert(all.contains(all[0]));
        assert forall|x: TileRef| #[trigger] all.contains(x) implies map.valid(x) && can_burn(
            map,
            dst,
            reach,
            x,
        ) && map.joined(dst, x, among(all)) && (in_core(map, dst, reach, x) || some_draw(
            seed,
            n,
            true,
        )) by {
            let i = choose|i: int| 0 <= i < all.len() && all[i] == x;
            assert(map.valid(all[i]));
            if some_draw(seed, m, true) {
                lemma_more_draws(seed, m, n, true);
            }
        }
        assert forall|b: TileRef, x: TileRef|
            all.contains(b) && #[trigger] map.neighbors4(b).contains(x) && can_burn(
                map,
                dst,
                reach,
                x,
            ) && !all.contains(x) implies !in_core(map, dst, reach, x) && some_draw(
            seed,
            n,
            false,
        ) by {
            let i = choose|i: int| 0 <= i < all.len() && all[i] == b;
            assert(tried(map, dst, reach, all, all[i], seed, m));
            lemma_more_draws(seed, m, n, false);
        }
    } else {
        assert(all =~= Seq::empty());
    }
}

/// A nuke burns every tile of its inner circle to which passable tiles of the circle lead.
/// Where every draw hits, it burns all of the outer circle too to which a way leads; where
/// every draw misses, nothing but the inner circle.
pub proof fn law_crater_size(map: MapView, dst: TileRef, reach: NukeMagnitude, tick: u32, x: TileRef)
    requires
        map.wf(),
        map.valid(dst),
        reach.inner <= reach.outer,
    ensures
        ({
            let all = crater(map, dst, reach, tick);
            let n = (1 + 4 * all.len()) as nat;
            &&& map.joined(dst, x, core_tiles(map, dst, reach)) ==> all.contains(x)
            &&& !some_draw(blast_seed(tick), n, false) ==> all.contains(x) == map.joined(
                dst,
                x,
                burnable_tiles(map, dst, reach),
            )
            &&& !some_draw(blast_seed(tick), n, true) ==> all.contains(x) == map.joined(
                dst,
                x,
                core_tiles(map, dst, reach),
            )
        }),
{
    let all = crater(map, dst, reach, tick);
    let n = (1 + 4 * all.len()) as nat;
    let core = core_tiles(map, dst, reach);
    let whole = burnable_tiles(map, dst, reach);
    law_crater(map, dst, reach, tick);
    if map.joined(dst, x, core) {
        let way = choose|way: Seq<TileRef>| map.leads(way, dst, x, core);
        lemma_swept(map, dst, reach, tick, way, x, core, way.len() - 1);
    }
    if !some_draw(blast_seed(tick), n, false) && map.joined(dst, x, whole) {
        let way = choose|way: Seq<TileRef>| map.leads(way, dst, x, whole);
        lemma_swept(map, dst, reach, tick, way, x, whole, way.len() - 1);
    }
    if all.contains(x) {
        let way = choose|way: Seq<TileRef>| map.leads(way, dst, x, among(all));
        assert forall|i: int| 0 <= i < way.len() implies whole(#[trigger] way[i]) by {
            assert(among(all)(way[i]));
        }
        assert(map.leads(way, dst, x, whole));
        if !some_draw(blast_seed(tick), n, true) {
            assert forall|i: int| 0 <= i < way.len() implies core(#[trigger] way[i]) by {
                assert(among(all)(way[i]));
            }
            assert(map.leads(way, dst, x, core));
        }
    }
}

proof fn lemma_swept(
    map: MapView,
    dst: TileRef,
    reach: NukeMagnitude,
    tick: u32,
    way: Seq<TileRef>,
    x: TileRef,
    p: spec_fn(TileRef) -> bool,
    i: int,
)
    requires
        map.wf(),
        map.valid(dst),
        reach.inner <= reach.outer,
        map.leads(way, dst, x, p),
        forall|t: TileRef| #[trigger] p(t) ==> can_burn(map, dst, reach, t),
        (forall|t: TileRef| #[trigger] p(t) ==> in_core(map, dst, reach, t)) || !some_draw(
            blast_seed(tick),
            (1 + 4 * crater(map, dst, reach, tick).len()) as nat,
            false,
        ),
        0 <= i < way.len(),
    ensures
        crater(map, dst, reach, tick).contains(way[i]),
    decreases i,
{
    law_crater(map, dst, reach, tick);
    assert(p(way[i]));
    if i > 0 {
        lemma_swept(map, dst, reach, tick, way, x, p, i - 1);
        assert(map.linked(way, i));
    }
}

/// Whether a warhead may land on a tile: land of `owner` at most 1500 tiles from where the
/// MIRV was aimed.
pub open spec fn is_warhead_target(map: MapView, dst: TileRef, owner: u16, t: TileRef) -> bool {
    map.valid(t) && map.is_land(t) && map.owner(t) == owner && map.dist2(t, dst) <= 1500 * 1500
}

/// Whether all of `tiles` are 55 steps or more from one another.
pub open spec fn is_spread(map: MapView, tiles: Seq<TileRef>) -> bool {
    forall|i: int, j: int|
        0 <= i < j < tiles.len() ==> map.manhattan(#[trigger] tiles[i], #[trigger] tiles[j]) >= 55
}

/// The warheads of a MIRV go to the tile it was aimed at and to land of the target, 1500
/// tiles away at most, with 55 steps or more between any two. There are 350 at most, and
/// those that fly farthest come first.
pub proof fn law_warhead_targets(game: GameView, rng: u64, dst: TileRef, owner: u16)
    requires
        game.map.wf(),
        game.map.valid(dst),
    ensures
        ({
            let targets = game.warhead_targets(rng, dst, owner).0;
            &&& 1 <= targets.len() <= 350
            &&& targets.contains(dst)
            &&& targets.no_duplicates()
            &&& forall|t: TileRef| #[trigger]
                targets.contains(t) ==> t == dst || is_warhead_target(game.map, dst, owner, t)
            &&& is_spread(game.map, targets)
            &&& forall|i: int, j: int|
                0 <= i <= j < targets.len() ==> game.map.manhattan(#[trigger] targets[i], dst)
                    >= game.map.manhattan(#[trigger] targets[j], dst)
        }),
{
    let map = game.map;
    let start = seq![dst];
    assert(start[0] == dst);
    lemma_warhead_places(game, rng, dst, owner, start, crate::mirv_execution::ROUNDS as nat);
    let places = game.warhead_places(
        rng,
        dst,
        owner,
        start,
        crate::mirv_execution::ROUNDS as nat,
    ).0;
    let targets = game.warhead_targets(rng, dst, owner).0;
    let key = game.from_afar(dst);
    crate::lists::law_sorting_by(places, key);
    assert(places.contains(places[0]));
    assert(places.no_duplicates()) by {
        assert forall|i: int, j: int| 0 <= i < places.len() && 0 <= j < places.len() && i
            != j implies places[i] != places[j] by {
            if i < j {
                assert(map.manhattan(places[i], places[j]) >= 55);
            } else {
                assert(map.manhattan(places[j], places[i]) >= 55);
            }
        }
    }
    assert forall|i: int, j: int| 0 <= i < j < targets.len() implies map.manhattan(
        #[trigger] targets[i],
        #[trigger] targets[j],
    ) >= 55 by {
        assert(targets.contains(targets[i]) && targets.contains(targets[j]));
        assert(places.contains(targets[i]) && places.contains(targets[j]));
        let a = choose|a: int| 0 <= a < places.len() && places[a] == targets[i];
        let b = choose|b: int| 0 <= b < places.len() && places[b] == targets[j];
        assert(targets[i] != targets[j]);
        if a < b {
            assert(map.manhattan(places[a], places[b]) >= 55);
        } else {
            assert(map.manhattan(places[b], places[a]) >= 55);
        }
    }
    assert forall|t: TileRef| #[trigger] targets.contains(t) implies t == dst
        || is_warhead_target(map, dst, owner, t) by {
        assert(places.contains(t));
        let a = choose|a: int| 0 <= a < places.len() && places[a] == t;
        assert(a > 0 ==> is_warhead_target(map, dst, owner, places[a]));
    }
    assert forall|i: int, j: int| 0 <= i <= j < targets.len() implies map.manhattan(
        #[trigger] targets[i],
        dst,
    ) >= map.manhattan(#[trigger] targets[j], dst) by {
        assert(targets.contains(targets[i]) && targets.contains(targets[j]));
        assert(key(targets[i]).0 <= key(targets[j]).0);
        assert(targets[i] == dst || is_warhead_target(map, dst, owner, targets[i]));
        assert(targets[j] == dst || is_warhead_target(map, dst, owner, targets[j]));
        map.lemma_distances(targets[i], dst);
        map.lemma_distances(targets[j], dst);
    }
}

/// Whether warheads can go to all of `taken`, the first of which is the aim.
spec fn well_placed(map: MapView, dst: TileRef, owner: u16, taken: Seq<TileRef>) -> bool {
    &&& taken.len() > 0
    &&& taken[0] == dst
    &&& forall|i: int|
        0 < i < taken.len() ==> is_warhead_target(map, dst, owner, #[trigger] taken[i])
    &&& is_spread(map, taken)
}

proof fn lemma_warhead_places(
    game: GameView,
    rng: u64,
    dst: TileRef,
    owner: u16,
    taken: Seq<TileRef>,
    rounds: nat,
)
    requires
        game.map.wf(),
        game.map.valid(dst),
        taken.len() <= 350,
        well_placed(game.map, dst, owner, taken),
    ensures
        well_placed(game.map, dst, owner, game.warhead_places(rng, dst, owner, taken, rounds).0),
        game.warhead_places(rng, dst, owner, taken, rounds).0.len() <= 350,
    decreases rounds,
{
    if rounds > 0 && taken.len() < 350 {
        let tries = crate::mirv_execution::TRIES as nat;
        let (place, next) = game.warhead_place(rng, dst, owner, taken, tries);
        law_warhead_search(game, rng, dst, owner, taken, tries);
        match place {
            Some(t) => {
                let more = taken.push(t);
                assert forall|i: int| 0 < i < more.len() implies is_warhead_target(
                    game.map,
                    dst,
                    owner,
                    #[trigger] more[i],
                ) by {
                    if i < taken.len() {
                        assert(taken[i] == more[i]);
                    }
                }
                assert forall|i: int, j: int| 0 <= i < j < more.len() implies game.map.manhattan(
                    #[trigger] more[i],
                    #[trigger] more[j],
                ) >= 55 by {
                    if j < taken.len() {
                        assert(taken[i] == more[i] && taken[j] == more[j]);
                    } else {
                        assert(taken[i] == more[i]);
                    }
                }
                lemma_warhead_places(game, next, dst, owner, more, (rounds - 1) as nat);
            },
            None => {
                lemma_warhead_places(game, next, dst, owner, taken, (rounds - 1) as nat);
            },
        }
    }
}

/// The coordinates that draw number `k` of a search stands for.
pub open spec fn place_drawn(game: GameView, rng: u64, dst: TileRef, k: nat) -> (int, int) {
    let raw = crate::prng::raw_of(crate::prng::state_after(rng, (k + 1) as nat)) as int;
    (spread_coord(raw, game.map.x(dst)), spread_coord(second_raw(raw), game.map.y(dst)))
}

/// Whether a warhead can go to a place on top of those that are taken.
pub open spec fn is_free_place(
    game: GameView,
    dst: TileRef,
    owner: u16,
    taken: Seq<TileRef>,
    place: (int, int),
) -> bool {
    &&& game.map.valid_coord(place.0, place.1)
    &&& is_warhead_target(game.map, dst, owner, game.map.at(place.0, place.1))
    &&& forall|i: int|
        0 <= i < taken.len() ==> game.map.manhattan(
            #[trigger] taken[i],
            game.map.at(place.0, place.1),
        ) >= 55
}

/// A search finds the first place among those drawn to which a warhead can go, and none only
/// where there is no such place among them.
pub proof fn law_warhead_search(
    game: GameView,
    rng: u64,
    dst: TileRef,
    owner: u16,
    taken: Seq<TileRef>,
    tries: nat,
)
    requires
        game.map.wf(),
        game.map.valid(dst),
    ensures
        match game.warhead_place(rng, dst, owner, taken, tries).0 {
            Some(t) => {
                &&& is_warhead_target(game.map, dst, owner, t)
                &&& forall|i: int|
                    0 <= i < taken.len() ==> game.map.manhattan(#[trigger] taken[i], t) >= 55
                &&& exists|k: nat|
                    k < tries && is_free_place(
                        game,
                        dst,
                        owner,
                        taken,
                        #[trigger] place_drawn(game, rng, dst, k),
                    ) && t == game.map.at(
                        place_drawn(game, rng, dst, k).0,
                        place_drawn(game, rng, dst, k).1,
                    )
            },
            None => forall|k: nat|
                k < tries ==> !is_free_place(
                    game,
                    dst,
                    owner,
                    taken,
                    #[trigger] place_drawn(game, rng, dst, k),
                ),
        },
    decreases tries,
{
    if tries > 0 {
        let next = crate::prng::next_state(rng);
        let (x, y) = place_drawn(game, rng, dst, 0);
        assert(crate::prng::state_after(rng, 1) == next) by {
            assert(crate::prng::state_after(rng, 0) == rng);
        }
        let t = game.map.at(x, y);
        assert(game.warhead_spot(x, y, dst, owner, taken) == is_free_place(
            game,
            dst,
            owner,
            taken,
            (x, y),
        )) by {
            if game.map.valid_coord(x, y) {
                game.map.lemma_at(x, y);
                let (dx, dy) = (x - game.map.x(dst), y - game.map.y(dst));
                lemma_gap_squared(x, game.map.x(dst));
                lemma_gap_squared(y, game.map.y(dst));
                assert(game.map.dist2(t, dst) == dx * dx + dy * dy);
                if game.crowded(x, y, taken) {
                    let i = choose|i: int|
                        0 <= i < taken.len() && gap(x, game.map.x(#[trigger] taken[i])) + gap(
                            y,
                            game.map.y(taken[i]),
                        ) < 55;
                    assert(game.map.manhattan(taken[i], t) < 55);
                } else {
                    assert forall|i: int| 0 <= i < taken.len() implies game.map.manhattan(
                        #[trigger] taken[i],
                        t,
                    ) >= 55 by {
                        assert(!(gap(x, game.map.x(taken[i])) + gap(y, game.map.y(taken[i]))
                            < 55));
                    }
                }
            }
        }
        if !game.warhead_spot(x, y, dst, owner, taken) {
            let fewer = (tries - 1) as nat;
            law_warhead_search(game, next, dst, owner, taken, fewer);
            assert forall|k: nat| #[trigger] place_drawn(game, next, dst, k) == place_drawn(
                game,
                rng,
                dst,
                (k + 1) as nat,
            ) by {
                lemma_shifted(rng, (k + 1) as nat);
            }
            match game.warhead_place(rng, dst, owner, taken, tries).0 {
                Some(found) => {
                    let k = choose|k: nat|
                        k < fewer && is_free_place(
                            game,
                            dst,
                            owner,
                            taken,
                            #[trigger] place_drawn(game, next, dst, k),
                        ) && found == game.map.at(
                            place_drawn(game, next, dst, k).0,
                            place_drawn(game, next, dst, k).1,
                        );
                    assert(place_drawn(game, next, dst, k) == place_drawn(
                        game,
                        rng,
                        dst,
                        (k + 1) as nat,
                    ));
                },
                None => {
                    assert forall|k: nat| k < tries implies !is_free_place(
                        game,
                        dst,
                        owner,
                        taken,
                        #[trigger] place_drawn(game, rng, dst, k),
                    ) by {
                        if k > 0 {
                            let j = (k - 1) as nat;
                            assert(place_drawn(game, next, dst, j) == place_drawn(
                                game,
                                rng,
                                dst,
                                (j + 1) as nat,
                            ));
                        }
                    }
                },
            }
        } else {
            assert(is_free_place(game, dst, owner, taken, place_drawn(game, rng, dst, 0)));
        }
    }
}

proof fn lemma_gap_squared(a: int, b: int)
    ensures
        gap(a, b) * gap(a, b) == (a - b) * (a - b),
{
    let g = gap(a, b);
    assert(g * g == (a - b) * (a - b)) by (nonlinear_arith)
        requires
            g == a - b || g == b - a,
    ;
}

/// A draw later from the next state is a draw later still from this one.
proof fn lemma_shifted(rng: u64, n: nat)
    ensures
        crate::prng::state_after(crate::prng::next_state(rng), n) == crate::prng::state_after(
            rng,
            (n + 1) as nat,
        ),
    decreases n,
{
    if n > 0 {
        lemma_shifted(rng, (n - 1) as nat);
    } else {
        assert(crate::prng::state_after(rng, 0) == rng);
    }
}

/// Coordinates are drawn from 1500 below to 1500 above, higher ones for higher draws.
pub proof fn law_spread(raw: int, higher: int, base: int)
    requires
        0 <= raw <= higher < 0x1_0000_0000,
    ensures
        base - 1500 <= spread_coord(raw, base) <= spread_coord(higher, base) <= base + 1500,
        spread_coord(0, base) == base - 1500,
        spread_coord(0x8000_0000, base) == base,
        spread_coord(0xffff_ffff, base) == base + 1500,
{
}

/// A MIRV that separates orders one warhead for each of its targets, in their order, on top
/// of what was ordered, each of its own owner. The first are the slowest.
pub proof fn law_separation(game: GameView, sid: u16, rng: u64, targets: Seq<TileRef>, n: nat)
    requires
        n <= targets.len(),
        targets.len() <= 350,
    ensures
        ({
            let after = game.dropping(sid, rng, targets, n).0;
            &&& after == (GameView { pending: after.pending, ..game })
            &&& after.pending.len() == game.pending.len() + n
            &&& forall|i: int|
                0 <= i < game.pending.len() ==> after.pending[i] == #[trigger] game.pending[i]
            &&& forall|i: int|
                0 <= i < n ==> {
                    let order = #[trigger] after.pending[game.pending.len() + i];
                    &&& order is Nuke
                    &&& order->Nuke_nuke_type == UnitType::MirvWarhead
                    &&& order->Nuke_owner == sid
                    &&& order->Nuke_dst == targets[i]
                    &&& order->Nuke_speed is Some
                    &&& 15 <= order->Nuke_speed->0 < 20
                    &&& order->Nuke_wait_ticks < 15
                }
            &&& forall|i: int, j: int|
                0 <= i <= j < n ==> (#[trigger] after.pending[game.pending.len()
                    + i])->Nuke_speed->0 <= (#[trigger] after.pending[game.pending.len()
                    + j])->Nuke_speed->0
        }),
    decreases n,
{
    if n > 0 {
        let m = (n - 1) as nat;
        law_separation(game, sid, rng, targets, m);
        let (before, state) = game.dropping(sid, rng, targets, m);
        let after = game.dropping(sid, rng, targets, n).0;
        crate::prng::lemma_int_drawn(state, 0, 15);
        let base = game.pending.len() as int;
        assert forall|i: int| 0 <= i < n implies ({
            let order = #[trigger] after.pending[base + i];
            &&& order is Nuke
            &&& order->Nuke_nuke_type == UnitType::MirvWarhead
            &&& order->Nuke_owner == sid
            &&& order->Nuke_dst == targets[i]
            &&& order->Nuke_speed == Some((15 + (i * 5) / 350) as u32)
            &&& order->Nuke_wait_ticks < 15
        }) by {
            if i < m {
                assert(after.pending[base + i] == before.pending[base + i]);
                lemma_speed(game, sid, rng, targets, m, i);
            }
        }
        assert forall|i: int| 0 <= i < base implies after.pending[i]
            == #[trigger] game.pending[i] by {
            assert(before.pending[i] == game.pending[i]);
        }
        assert forall|i: int, j: int| 0 <= i <= j < n implies (#[trigger] after.pending[base
            + i])->Nuke_speed->0 <= (#[trigger] after.pending[base + j])->Nuke_speed->0 by {
            assert(after.pending[base + i]->Nuke_speed == Some((15 + (i * 5) / 350) as u32));
            assert(after.pending[base + j]->Nuke_speed == Some((15 + (j * 5) / 350) as u32));
        }
    }
}

proof fn lemma_speed(game: GameView, sid: u16, rng: u64, targets: Seq<TileRef>, n: nat, i: int)
    requires
        0 <= i < n <= 350,
    ensures
        game.dropping(sid, rng, targets, n).0.pending.len() == game.pending.len() + n,
        game.dropping(sid, rng, targets, n).0.pending[game.pending.len() + i] is Nuke,
        game.dropping(sid, rng, targets, n).0.pending[game.pending.len() + i]->Nuke_speed == Some(
            (15 + (i * 5) / 350) as u32,
        ),
    decreases n,
{
    let m = (n - 1) as nat;
    lemma_dropped_len(game, sid, rng, targets, m);
    if i < m {
        lemma_speed(game, sid, rng, targets, m, i);
    }
}

proof fn lemma_dropped_len(game: GameView, sid: u16, rng: u64, targets: Seq<TileRef>, n: nat)
    ensures
        game.dropping(sid, rng, targets, n).0.pending.len() == game.pending.len() + n,
    decreases n,
{
    if n > 0 {
        lemma_dropped_len(game, sid, rng, targets, (n - 1) as nat);
    }
}

/// A MIRV that has arrived drops its warheads on the land of whoever owned the tile it was
/// aimed at when it began, and is gone.
pub proof fn law_mirvs_hit_their_target(
    mirv: MirvExecution,
    begun_in: GameView,
    begun: MirvExecution,
    game: GameView,
    id: i32,
    tick: u32,
    later: u32,
)
    requires
        mirv.begun_as(begun_in, tick, begun),
        begun.active,
        game.map.wf(),
        game.map.valid(mirv.dst),
        ({
            let aloft = MirvExecution { mirv_unit_id: Some(id), ..begun };
            aloft.arrives(game)
        }),
    ensures
        ({
            let aloft = MirvExecution { mirv_unit_id: Some(id), ..begun };
            let after = aloft.ticked(game, later);
            &&& after.pending.len() > game.pending.len()
            &&& forall|i: int|
                game.pending.len() <= i < after.pending.len() ==> {
                    let order = #[trigger] after.pending[i];
                    &&& order is Nuke
                    &&& order->Nuke_nuke_type == UnitType::MirvWarhead
                    &&& order->Nuke_owner == mirv.owner_small_id
                    &&& order->Nuke_dst == mirv.dst || is_warhead_target(
                        game.map,
                        mirv.dst,
                        begun_in.map.owner(mirv.dst),
                        order->Nuke_dst,
                    )
                }
            &&& after.units == game.without_unit(mirv.owner_small_id, id).units
        }),
{
    let aloft = MirvExecution { mirv_unit_id: Some(id), ..begun };
    let owner = begun_in.map.owner(mirv.dst);
    let (targets, rng) = game.warhead_targets(aloft.random.state, aloft.dst, owner);
    law_warhead_targets(game, aloft.random.state, aloft.dst, owner);
    law_separation(game, aloft.owner_small_id, rng, targets, targets.len());
    let dropped = game.dropping(aloft.owner_small_id, rng, targets, targets.len()).0;
    let after = aloft.ticked(game, later);
    assert(after.pending == dropped.pending);
    assert forall|i: int| game.pending.len() <= i < after.pending.len() implies ({
        let order = #[trigger] after.pending[i];
        &&& order is Nuke
        &&& order->Nuke_nuke_type == UnitType::MirvWarhead
        &&& order->Nuke_owner == mirv.owner_small_id
        &&& order->Nuke_dst == mirv.dst || is_warhead_target(
            game.map,
            mirv.dst,
            owner,
            order->Nuke_dst,
        )
    }) by {
        let k = i - game.pending.len();
        assert(dropped.pending[game.pending.len() + k] == after.pending[i]);
        assert(targets.contains(targets[k]));
    }
}

} // verus!
