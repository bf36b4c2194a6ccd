//! Where structures can stand.

use vstd::prelude::*;

use crate::game::{Game, GameView};
use crate::map::{GameMap, MapView};
use crate::ordered_tiles::{OrderedTiles, TileRef};
use crate::state::Unit;
use crate::unit_type::UnitType;

verus! {

/// The square of how far a structure may be moved from where it was wanted.
pub const SEARCH_RADIUS_SQUARED: u64 = 225;

/// The square of how far away other structures are looked for.
pub const UNIT_SEARCH_RADIUS_SQUARED: u64 = 900;

/// The tiles reached so far and those of `next` that are as `p` says.
pub open spec fn reached(held: Seq<TileRef>, next: Seq<TileRef>, p: spec_fn(TileRef) -> bool) -> Seq<
    TileRef,
>
    decreases next.len(),
{
    if next.len() == 0 {
        held
    } else {
        let before = reached(held, next.drop_last(), p);
        if p(next.last()) {
            crate::ordered_tiles::with(before, next.last())
        } else {
            before
        }
    }
}

/// The tiles reached after `fuel` of them at most, from the one at position `at` on, were
/// left for their neighbours.
pub open spec fn flooded(
    map: MapView,
    held: Seq<TileRef>,
    at: int,
    p: spec_fn(TileRef) -> bool,
    fuel: nat,
) -> Seq<TileRef>
    decreases fuel,
{
    if fuel == 0 || at >= held.len() {
        held
    } else {
        flooded(map, reached(held, map.neighbors4(held[at]), p), at + 1, p, (fuel - 1) as nat)
    }
}

impl MapView {
    /// The tiles that can be reached from `t` over tiles that are as `p` says, the nearest
    /// in steps first.
    pub open spec fn flood(self, t: TileRef, p: spec_fn(TileRef) -> bool) -> Seq<TileRef> {
        if p(t) {
            flooded(self, seq![t], 0, p, self.tiles.len())
        } else {
            Seq::empty()
        }
    }

    /// Tiles of an owner near `t`.
    pub open spec fn own_nearby(self, sid: u16, t: TileRef) -> spec_fn(TileRef) -> bool {
        |x: TileRef| self.dist2(t, x) < SEARCH_RADIUS_SQUARED && self.owner(x) == sid
    }

    /// Tiles at most `r` steps from `t`.
    pub open spec fn steps_within(self, t: TileRef, r: int) -> spec_fn(TileRef) -> bool {
        |x: TileRef| self.manhattan(t, x) <= r
    }

    /// Tiles with how far they are from `t` as the crow flies.
    pub open spec fn by_straight(self, t: TileRef) -> spec_fn(TileRef) -> (i64, TileRef) {
        |x: TileRef| (self.dist2(x, t) as i64, x)
    }

    /// Tiles with how many steps they are from `t`.
    pub open spec fn by_steps(self, t: TileRef) -> spec_fn(TileRef) -> (i64, TileRef) {
        |x: TileRef| (self.manhattan(x, t) as i64, x)
    }

    /// Tiles on the shore of an owner.
    pub open spec fn own_shore(self, sid: u16) -> spec_fn(TileRef) -> bool {
        |x: TileRef| self.owner(x) == sid && self.is_shore(x)
    }
}

impl GameView {
    /// Structures near `t` that stand too close to `x`.
    pub open spec fn crowding(self, t: TileRef, x: TileRef) -> spec_fn(Unit) -> bool {
        |u: Unit|
            u.unit_type.structure() && self.map.dist2(u.tile, t) < UNIT_SEARCH_RADIUS_SQUARED
                && self.map.dist2(u.tile, x) < self.config.structure_min_dist
                * self.config.structure_min_dist
    }

    /// Tiles with no structure too close.
    pub open spec fn roomy(self, t: TileRef) -> spec_fn(TileRef) -> bool {
        |x: TileRef| !crate::lists::some_where(self.units, self.crowding(t, x))
    }

    /// The tiles near `t` on which `sid` can place a structure, the nearest first.
    pub open spec fn building_sites(self, sid: u16, t: TileRef) -> Seq<TileRef> {
        if self.map.owner(t) != sid {
            Seq::empty()
        } else {
            crate::lists::payloads(
                crate::lists::sort_by_key(
                    self.map.flood(t, self.map.own_nearby(sid, t)).filter(self.roomy(t)).map_values(
                        self.map.by_straight(t),
                    ),
                ),
            )
        }
    }

    pub open spec fn is_site(self, sid: u16, t: TileRef) -> spec_fn(TileRef) -> bool {
        |x: TileRef| self.building_sites(sid, t).contains(x)
    }

    /// The shores near `t` of a player, the nearest first.
    pub open spec fn near_shores(self, sid: u16, t: TileRef) -> Seq<TileRef> {
        crate::lists::payloads(
            crate::lists::sort_by_key(
                self.map.flood(
                    t,
                    self.map.steps_within(t, self.config.radius_port_spawn as int),
                ).filter(self.map.own_shore(sid)).map_values(self.map.by_steps(t)),
            ),
        )
    }

    /// The tile on which a structure goes that `sid` wants at `t`.
    pub open spec fn site(self, sid: u16, unit_type: UnitType, t: TileRef) -> Option<TileRef> {
        if unit_type == UnitType::Port {
            crate::lists::first_where(self.near_shores(sid, t), self.is_site(sid, t))
        } else if unit_type.structure() && self.building_sites(sid, t).len() > 0 {
            Some(self.building_sites(sid, t)[0])
        } else {
            None
        }
    }
}

/// The tiles that can be reached over tiles that `f` accepts, where `f` decides as `p` says.
pub fn flood_from<F: Fn(TileRef) -> bool>(
    map: &GameMap,
    start: TileRef,
    f: F,
    Ghost(p): Ghost<spec_fn(TileRef) -> bool>,
) -> (tiles: Vec<TileRef>)
    requires
        map@.wf(),
        map@.valid(start),
        forall|t: TileRef| map@.valid(t) ==> #[trigger] call_requires(f, (t,)),
        forall|t: TileRef, b: bool|
            map@.valid(t) && #[trigger] call_ensures(f, (t,), b) ==> b == p(t),
    ensures
        tiles@ == map@.flood(start, p),
        forall|i: int| 0 <= i < tiles@.len() ==> map@.valid(#[trigger] tiles@[i]),
{
    let mut held = OrderedTiles::default();
    if !f(start) {
        return held.iter();
    }
    held.insert(start);
    assert(held@ =~= seq![start]);
    let total: usize = map.tiles.len();
    let mut at: usize = 0;
    let ghost goal = flooded(map@, held@, 0, p, map@.tiles.len());
    while at < total && at < held.len()
        invariant
            map@.wf(),
            forall|t: TileRef| map@.valid(t) ==> #[trigger] call_requires(f, (t,)),
            forall|t: TileRef, b: bool|
                map@.valid(t) && #[trigger] call_ensures(f, (t,), b) ==> b == p(t),
            held.wf(),
            total == map@.tiles.len(),
            at <= total,
            forall|i: int| 0 <= i < held@.len() ==> map@.valid(#[trigger] held@[i]),
            goal == flooded(map@, held@, at as int, p, (total - at) as nat),
        decreases total - at,
    {
        let t: TileRef = held.get(at);
        assert(map@.valid(held@[at as int]));
        let next = map.neighbors4(t);
        let ghost before = held@;
        assert(next@.take(0) =~= Seq::<TileRef>::empty());
        for i in 0..next.len()
            invariant
                forall|t: TileRef| map@.valid(t) ==> #[trigger] call_requires(f, (t,)),
                forall|t: TileRef, b: bool|
                    map@.valid(t) && #[trigger] call_ensures(f, (t,), b) ==> b == p(t),
                held.wf(),
                forall|k: int| 0 <= k < next@.len() ==> map@.valid(#[trigger] next@[k]),
                forall|k: int| 0 <= k < held@.len() ==> map@.valid(#[trigger] held@[k]),
                held@ == reached(before, next@.take(i as int), p),
        {
            assert(next@.take(i + 1).drop_last() =~= next@.take(i as int));
            let n: TileRef = next[i];
            assert(next@.take(i + 1).last() == n);
            assert(map@.valid(next@[i as int]));
            if f(n) {
                held.insert(n);
            }
        }
        assert(next@.take(next@.len() as int) =~= next@);
        at += 1;
    }
    held.iter()
}

/// Whether a structure stands too close to a tile.
fn is_crowded(game: &Game, t: TileRef, x: TileRef) -> (crowded: bool)
    requires
        game@.wf(),
        game@.map.valid(t),
        game@.map.valid(x),
    ensures
        crowded == crate::lists::some_where(game@.units, game@.crowding(t, x)),
{
    let min: u32 = game.wire.structure_min_dist;
    assert(min * min <= 1000 * 1000) by (nonlinear_arith)
        requires
            min <= 1000,
    ;
    let min2: u64 = min as u64 * min as u64;
    let ghost p = game@.crowding(t, x);
    for i in 0..game.units.len()
        invariant
            game@.wf(),
            game@.map.valid(t),
            game@.map.valid(x),
            min == game@.config.structure_min_dist,
            min2 == min * min,
            p == game@.crowding(t, x),
            forall|k: int| 0 <= k < i ==> !p(#[trigger] game@.units[k]),
    {
        let u: Unit = game.units[i];
        assert(game@.units[i as int] == u);
        if u.unit_type.is_structure() && game.map.euclidean_dist_squared(u.tile, t)
            < UNIT_SEARCH_RADIUS_SQUARED && game.map.euclidean_dist_squared(u.tile, x) < min2 {
            assert(p(game@.units[i as int]));
            return true;
        }
    }
    false
}

/// The tiles near `tile` on which a player can place a structure, the nearest first.
pub fn valid_structure_spawn_tiles(game: &Game, small_id: u16, tile: TileRef) -> (sites: Vec<TileRef>)
    requires
        game@.wf(),
        game@.map.valid(tile),
    ensures
        sites@ == game@.building_sites(small_id, tile),
        forall|i: int| 0 <= i < sites@.len() ==> game@.map.valid(#[trigger] sites@[i]),
{
    let mut keyed: Vec<(i64, TileRef)> = Vec::new();
    if game.map.owner_id(tile) != small_id {
        return Vec::new();
    }
    let near = |x: TileRef| -> (own: bool)
        requires
            game@.map.valid(x),
        ensures
            own == game@.map.own_nearby(small_id, tile)(x),
        {
            game.map.euclidean_dist_squared(tile, x) < SEARCH_RADIUS_SQUARED && game.map.owner_id(x)
                == small_id
        };
    let nearby = flood_from(&game.map, tile, near, Ghost(game@.map.own_nearby(small_id, tile)));
    let free = |x: TileRef| -> (roomy: bool)
        requires
            game@.map.valid(x),
        ensures
            roomy == game@.roomy(tile)(x),
        { !is_crowded(game, tile, x) };
    let sites = crate::lists::filter_by(&nearby, free, Ghost(game@.roomy(tile)));
    let ghost key = game@.map.by_straight(tile);
    for i in 0..sites.len()
        invariant
            game@.wf(),
            game@.map.valid(tile),
            forall|k: int| 0 <= k < nearby@.len() ==> game@.map.valid(#[trigger] nearby@[k]),
            forall|k: int| 0 <= k < sites@.len() ==> nearby@.contains(#[trigger] sites@[k]),
            key == game@.map.by_straight(tile),
            keyed@ == sites@.take(i as int).map_values(key),
    {
        assert(nearby@.contains(sites@[i as int]));
        keyed.push((game.map.euclidean_dist_squared(sites[i], tile) as i64, sites[i]));
        assert(sites@.take(i + 1).map_values(key) =~= sites@.take(i as int).map_values(key).push(
            key(sites@[i as int]),
        ));
    }
    proof {
        crate::lists::lemma_take_all(sites@);
        crate::lists::lemma_sorted_members(sites@, key);
    }
    let sorted = crate::lists::sorted_payloads(&keyed);
    assert forall|i: int| 0 <= i < sorted@.len() implies game@.map.valid(#[trigger] sorted@[i]) by {
        assert(sorted@.contains(sorted@[i]));
        assert(sites@.contains(sorted@[i]));
        let k = choose|k: int| 0 <= k < sites@.len() && sites@[k] == sorted@[i];
        assert(nearby@.contains(sites@[k]));
    }
    sorted
}

/// The shores near `tile` of a player, the nearest first.
fn shores_nearby(game: &Game, small_id: u16, tile: TileRef) -> (shores: Vec<TileRef>)
    requires
        game@.wf(),
        game@.map.valid(tile),
    ensures
        shores@ == game@.near_shores(small_id, tile),
        forall|i: int| 0 <= i < shores@.len() ==> game@.map.valid(#[trigger] shores@[i]),
{
    let radius: u32 = game.wire.radius_port_spawn;
    let near = |x: TileRef| -> (close: bool)
        requires
            game@.map.valid(x),
        ensures
            close == game@.map.steps_within(tile, radius as int)(x),
        { game.map.manhattan_dist(tile, x) <= radius };
    let reachable = flood_from(
        &game.map,
        tile,
        near,
        Ghost(game@.map.steps_within(tile, radius as int)),
    );
    let coastal = |x: TileRef| -> (shore: bool)
        requires
            game@.map.valid(x),
        ensures
            shore == game@.map.own_shore(small_id)(x),
        { game.map.owner_id(x) == small_id && game.map.is_shore(x) };
    let shores = crate::lists::filter_by(&reachable, coastal, Ghost(game@.map.own_shore(small_id)));
    let ghost key = game@.map.by_steps(tile);
    let mut keyed: Vec<(i64, TileRef)> = Vec::new();
    for i in 0..shores.len()
        invariant
            game@.wf(),
            game@.map.valid(tile),
            forall|k: int| 0 <= k < reachable@.len() ==> game@.map.valid(#[trigger] reachable@[k]),
            forall|k: int| 0 <= k < shores@.len() ==> reachable@.contains(#[trigger] shores@[k]),
            key == game@.map.by_steps(tile),
            keyed@ == shores@.take(i as int).map_values(key),
    {
        assert(reachable@.contains(shores@[i as int]));
        keyed.push((game.map.manhattan_dist(shores[i], tile) as i64, shores[i]));
        assert(shores@.take(i + 1).map_values(key) =~= shores@.take(i as int).map_values(key).push(
            key(shores@[i as int]),
        ));
    }
    proof {
        crate::lists::lemma_take_all(shores@);
        crate::lists::lemma_sorted_members(shores@, key);
    }
    let sorted = crate::lists::sorted_payloads(&keyed);
    assert forall|i: int| 0 <= i < sorted@.len() implies game@.map.valid(#[trigger] sorted@[i]) by {
        assert(sorted@.contains(sorted@[i]));
        assert(shores@.contains(sorted@[i]));
        let k = choose|k: int| 0 <= k < shores@.len() && shores@[k] == sorted@[i];
        assert(reachable@.contains(shores@[k]));
    }
    sorted
}

/// Whether `tiles` holds `t`.
pub fn has_tile(tiles: &Vec<TileRef>, t: TileRef) -> (has: bool)
    ensures
        has == tiles@.contains(t),
{
    for i in 0..tiles.len()
        invariant
            forall|k: int| 0 <= k < i ==> tiles@[k] != t,
    {
        if tiles[i] == t {
            assert(tiles@[i as int] == t);
            return true;
        }
    }
    false
}

fn port_spawn(game: &Game, small_id: u16, tile: TileRef) -> (site: Option<TileRef>)
    requires
        game@.wf(),
        game@.map.valid(tile),
    ensures
        site == game@.site(small_id, UnitType::Port, tile),
        site is Some ==> game@.map.valid(site->0),
{
    let valid = valid_structure_spawn_tiles(game, small_id, tile);
    let shores = shores_nearby(game, small_id, tile);
    let accepts = |x: TileRef| -> (site: bool)
        ensures
            site == game@.is_site(small_id, tile)(x),
        { has_tile(&valid, x) };
    crate::lists::find_by(&shores, accepts, Ghost(game@.is_site(small_id, tile)))
}

fn land_based_structure_spawn(game: &Game, small_id: u16, tile: TileRef) -> (site: Option<TileRef>)
    requires
        game@.wf(),
        game@.map.valid(tile),
    ensures
        site == game@.site(small_id, UnitType::City, tile),
        site is Some ==> game@.map.valid(site->0),
{
    let sites = valid_structure_spawn_tiles(game, small_id, tile);
    if sites.len() > 0 {
        Some(sites[0])
    } else {
        None
    }
}

/// The tile on which a structure goes that a player wants at `tile`.
pub fn resolve_structure_spawn_tile(
    game: &Game,
    small_id: u16,
    unit_type: UnitType,
    tile: TileRef,
) -> (site: Option<TileRef>)
    requires
        game@.wf(),
        game@.map.valid(tile),
    ensures
        site == game@.site(small_id, unit_type, tile),
        site is Some ==> game@.map.valid(site->0),
{
    if unit_type == UnitType::Port {
        port_spawn(game, small_id, tile)
    } else if unit_type.is_structure() {
        land_based_structure_spawn(game, small_id, tile)
    } else {
        None
    }
}

/// The tile on which a building goes that a player wants at `tile`.
pub fn can_build_land_structure(game: &Game, small_id: u16, tile: TileRef) -> (site: Option<TileRef>)
    requires
        game@.wf(),
        game@.map.valid(tile),
    ensures
        site == game@.site(small_id, UnitType::City, tile),
        site is Some ==> game@.map.valid(site->0),
{
    land_based_structure_spawn(game, small_id, tile)
}

impl MapView {
    /// Whether the tile at `i` on a way is next to the one before it.
    pub open spec fn linked(self, way: Seq<TileRef>, i: int) -> bool {
        self.neighbors4(way[i - 1]).contains(way[i])
    }

    /// Whether `way` leads from `t` to `x` step by step, over tiles that are as `p` says.
    pub open spec fn leads(
        self,
        way: Seq<TileRef>,
        t: TileRef,
        x: TileRef,
        p: spec_fn(TileRef) -> bool,
    ) -> bool {
        &&& way.len() > 0
        &&& way[0] == t
        &&& way.last() == x
        &&& forall|i: int| 0 <= i < way.len() ==> p(#[trigger] way[i])
        &&& forall|i: int| 0 < i < way.len() ==> #[trigger] self.linked(way, i)
    }

    /// Whether some way leads from `t` to `x` over tiles that are as `p` says.
    pub open spec fn joined(self, t: TileRef, x: TileRef, p: spec_fn(TileRef) -> bool) -> bool {
        exists|way: Seq<TileRef>| self.leads(way, t, x, p)
    }

    /// Whether the neighbours of the tile at `i` that are as `p` says are among `tiles`.
    spec fn left(self, tiles: Seq<TileRef>, i: int, p: spec_fn(TileRef) -> bool) -> bool {
        forall|n: TileRef|
            #[trigger] self.neighbors4(tiles[i]).contains(n) && p(n) ==> tiles.contains(n)
    }

    /// One more step.
    pub proof fn lemma_one_more(
        self,
        t: TileRef,
        x: TileRef,
        n: TileRef,
        p: spec_fn(TileRef) -> bool,
    )
        requires
            self.joined(t, x, p),
            self.neighbors4(x).contains(n),
            p(n),
        ensures
            self.joined(t, n, p),
    {
        let way = choose|way: Seq<TileRef>| self.leads(way, t, x, p);
        let longer = way.push(n);
        assert forall|i: int| 0 < i < longer.len() implies #[trigger] self.linked(longer, i) by {
            if i < way.len() {
                assert(self.linked(way, i));
            }
        }
        assert(self.leads(longer, t, n, p));
    }

    proof fn lemma_reached(
        self,
        t: TileRef,
        held: Seq<TileRef>,
        next: Seq<TileRef>,
        p: spec_fn(TileRef) -> bool,
    )
        requires
            held.no_duplicates(),
            forall|i: int| 0 <= i < held.len() ==> self.valid(#[trigger] held[i]),
            forall|i: int| 0 <= i < next.len() ==> self.valid(#[trigger] next[i]),
            forall|x: TileRef| #[trigger] held.contains(x) ==> self.joined(t, x, p),
            forall|x: TileRef| #[trigger] next.contains(x) && p(x) ==> self.joined(t, x, p),
        ensures
            ({
                let all = reached(held, next, p);
                &&& all.no_duplicates()
                &&& held.len() <= all.len()
                &&& forall|i: int| 0 <= i < held.len() ==> all[i] == #[trigger] held[i]
                &&& forall|i: int| 0 <= i < all.len() ==> self.valid(#[trigger] all[i])
                &&& forall|x: TileRef| #[trigger] all.contains(x) ==> self.joined(t, x, p)
                &&& forall|x: TileRef| #[trigger] next.contains(x) && p(x) ==> all.contains(x)
            }),
        decreases next.len(),
    {
        if next.len() > 0 {
            let front = next.drop_last();
            let before = reached(held, front, p);
            let all = reached(held, next, p);
            let last = next.last();
            assert(next[next.len() - 1] == last && next.contains(last));
            assert forall|x: TileRef| #[trigger] front.contains(x) && p(x) implies self.joined(
                t,
                x,
                p,
            ) by {
                let i = choose|i: int| 0 <= i < front.len() && front[i] == x;
                assert(next[i] == x);
                assert(next.contains(x));
            }
            self.lemma_reached(t, held, front, p);
            assert forall|i: int| 0 <= i < held.len() implies all[i] == #[trigger] held[i] by {
                assert(before[i] == held[i]);
            }
            assert forall|x: TileRef| #[trigger] all.contains(x) implies self.joined(t, x, p) by {
                let i = choose|i: int| 0 <= i < all.len() && all[i] == x;
                if i < before.len() {
                    assert(before[i] == x);
                    assert(before.contains(x));
                }
            }
            assert forall|x: TileRef| #[trigger] next.contains(x) && p(x) implies all.contains(
                x,
            ) by {
                let i = choose|i: int| 0 <= i < next.len() && next[i] == x;
                if i < front.len() {
                    assert(front[i] == x);
                    assert(front.contains(x));
                    let k = choose|k: int| 0 <= k < before.len() && before[k] == x;
                    assert(all[k] == x);
                } else if before.contains(x) {
                    assert(all == before);
                } else {
                    assert(all[before.len() as int] == x);
                }
            }
            assert(all.no_duplicates()) by {
                assert forall|i: int, j: int| 0 <= i < all.len() && 0 <= j < all.len() && i
                    != j implies all[i] != all[j] by {
                    if i < before.len() {
                        assert(before.contains(before[i]));
                    }
                    if j < before.len() {
                        assert(before.contains(before[j]));
                    }
                }
            }
        }
    }

    proof fn lemma_flooded(
        self,
        t: TileRef,
        held: Seq<TileRef>,
        at: int,
        p: spec_fn(TileRef) -> bool,
        fuel: nat,
    )
        requires
            self.wf(),
            0 <= at,
            fuel + at >= self.tiles.len(),
            held.no_duplicates(),
            forall|i: int| 0 <= i < held.len() ==> self.valid(#[trigger] held[i]),
            forall|x: TileRef| #[trigger] held.contains(x) ==> self.joined(t, x, p),
            forall|i: int| 0 <= i < at && i < held.len() ==> #[trigger] self.left(held, i, p),
        ensures
            ({
                let all = flooded(self, held, at, p, fuel);
                &&& all.no_duplicates()
                &&& held.len() <= all.len()
                &&& forall|i: int| 0 <= i < held.len() ==> all[i] == #[trigger] held[i]
                &&& forall|x: TileRef| #[trigger] all.contains(x) ==> self.joined(t, x, p)
                &&& forall|i: int| 0 <= i < all.len() ==> #[trigger] self.left(all, i, p)
            }),
        decreases fuel,
    {
        crate::lists::lemma_distinct_below(held, self.tiles.len());
        if fuel > 0 && at < held.len() {
            let here = held[at];
            let next = self.neighbors4(here);
            let more = reached(held, next, p);
            self.lemma_neighbors4(here);
            assert(held.contains(here));
            assert forall|x: TileRef| #[trigger] next.contains(x) && p(x) implies self.joined(
                t,
                x,
                p,
            ) by {
                self.lemma_one_more(t, here, x, p);
            }
            self.lemma_reached(t, held, next, p);
            assert forall|i: int| 0 <= i < at + 1 && i < more.len() implies #[trigger] self.left(
                more,
                i,
                p,
            ) by {
                assert(more[i] == held[i]);
                assert forall|n: TileRef|
                    #[trigger] self.neighbors4(more[i]).contains(n) && p(n) implies more.contains(
                    n,
                ) by {
                    if i < at {
                        assert(self.left(held, i, p));
                        assert(held.contains(n));
                        let k = choose|k: int| 0 <= k < held.len() && held[k] == n;
                        assert(more[k] == n);
                    }
                }
            }
            self.lemma_flooded(t, more, at + 1, p, (fuel - 1) as nat);
            let all = flooded(self, held, at, p, fuel);
            assert(all == flooded(self, more, at + 1, p, (fuel - 1) as nat));
            assert forall|i: int| 0 <= i < held.len() implies all[i] == #[trigger] held[i] by {
                assert(more[i] == held[i]);
            }
        } else {
            assert(flooded(self, held, at, p, fuel) == held);
        }
    }

    /// A flood comes to exactly the tiles to which a way leads, and to each once.
    pub proof fn law_flood(self, t: TileRef, p: spec_fn(TileRef) -> bool)
        requires
            self.wf(),
            self.valid(t),
        ensures
            self.flood(t, p).no_duplicates(),
            forall|x: TileRef| #[trigger] self.flood(t, p).contains(x) == self.joined(t, x, p),
    {
        let all = self.flood(t, p);
        if p(t) {
            let start = seq![t];
            assert forall|x: TileRef| #[trigger] start.contains(x) implies self.joined(
                t,
                x,
                p,
            ) by {
                assert(self.leads(start, t, t, p));
            }
            self.lemma_flooded(t, start, 0, p, self.tiles.len());
            assert(all[0] == start[0]);
            assert forall|x: TileRef| self.joined(t, x, p) implies #[trigger] all.contains(x) by {
                let way = choose|way: Seq<TileRef>| self.leads(way, t, x, p);
                self.lemma_carried(all, way, t, x, p, way.len() - 1);
            }
        } else {
            assert forall|x: TileRef| !self.joined(t, x, p) by {
                if self.joined(t, x, p) {
                    let way = choose|way: Seq<TileRef>| self.leads(way, t, x, p);
                    assert(p(way[0]));
                }
            }
        }
    }

    proof fn lemma_carried(
        self,
        all: Seq<TileRef>,
        way: Seq<TileRef>,
        t: TileRef,
        x: TileRef,
        p: spec_fn(TileRef) -> bool,
        i: int,
    )
        requires
            all.len() > 0,
            all[0] == t,
            forall|k: int| 0 <= k < all.len() ==> #[trigger] self.left(all, k, p),
            self.leads(way, t, x, p),
            0 <= i < way.len(),
        ensures
            all.contains(way[i]),
        decreases i,
    {
        if i > 0 {
            self.lemma_carried(all, way, t, x, p, i - 1);
            let k = choose|k: int| 0 <= k < all.len() && all[k] == way[i - 1];
            assert(self.left(all, k, p));
            assert(self.linked(way, i));
            assert(p(way[i]));
        }
    }

    /// A way leads to every tile that is near in steps, over tiles that are too.
    pub proof fn law_near_in_steps(self, t: TileRef, x: TileRef, r: int)
        requires
            self.wf(),
            self.valid(t),
            self.valid(x),
            self.manhattan(t, x) <= r,
        ensures
            self.joined(t, x, self.steps_within(t, r)),
        decreases self.manhattan(t, x),
    {
        let p = self.steps_within(t, r);
        self.lemma_distances(t, x);
        if x == t {
            assert(self.leads(seq![t], t, t, p));
        } else {
            let closer = self.lemma_closer(t, x);
            self.lemma_distances(t, closer);
            self.law_near_in_steps(t, closer, r);
            self.lemma_one_more(t, closer, x, p);
        }
    }

    /// What a way leads to is on the map.
    pub proof fn lemma_joined(self, t: TileRef, x: TileRef, p: spec_fn(TileRef) -> bool)
        requires
            self.wf(),
            self.valid(t),
            self.joined(t, x, p),
        ensures
            self.valid(x),
            p(x),
    {
        let way = choose|way: Seq<TileRef>| self.leads(way, t, x, p);
        self.lemma_on_map(way, t, x, p, way.len() - 1);
        assert(p(way[way.len() - 1]));
    }

    proof fn lemma_on_map(
        self,
        way: Seq<TileRef>,
        t: TileRef,
        x: TileRef,
        p: spec_fn(TileRef) -> bool,
        i: int,
    )
        requires
            self.wf(),
            self.valid(t),
            self.leads(way, t, x, p),
            0 <= i < way.len(),
        ensures
            self.valid(way[i]),
        decreases i,
    {
        if i > 0 {
            self.lemma_on_map(way, t, x, p, i - 1);
            assert(self.linked(way, i));
            self.lemma_neighbors4(way[i - 1]);
            let next = self.neighbors4(way[i - 1]);
            let k = choose|k: int| 0 <= k < next.len() && next[k] == way[i];
            assert(self.valid(next[k]));
        }
    }
}

/// A structure can be placed on exactly the tiles near the one it was wanted at that belong
/// to the player, as that one does, that the player's own land near by joins to it, and that
/// have no other structure too close. The nearest come first.
pub proof fn law_building_sites(game: GameView, sid: u16, t: TileRef)
    requires
        game.map.wf(),
        game.map.valid(t),
    ensures
        forall|x: TileRef|
            #[trigger] game.building_sites(sid, t).contains(x) == (game.map.joined(
                t,
                x,
                game.map.own_nearby(sid, t),
            ) && game.roomy(t)(x)),
        forall|x: TileRef|
            #[trigger] game.building_sites(sid, t).contains(x) ==> game.map.valid(x)
                && game.map.owner(x) == sid && game.map.dist2(t, x) < SEARCH_RADIUS_SQUARED,
        game.building_sites(sid, t).no_duplicates(),
        forall|i: int, j: int|
            0 <= i <= j < game.building_sites(sid, t).len() ==> game.map.dist2(
                #[trigger] game.building_sites(sid, t)[i],
                t,
            ) <= game.map.dist2(#[trigger] game.building_sites(sid, t)[j], t),
{
    let p = game.map.own_nearby(sid, t);
    let key = game.map.by_straight(t);
    let near = game.map.flood(t, p);
    let kept = near.filter(game.roomy(t));
    let sites = game.building_sites(sid, t);
    game.map.law_flood(t, p);
    crate::lists::lemma_filter_members(near, game.roomy(t));
    crate::lists::law_sorting_by(kept, key);
    if game.map.owner(t) != sid {
        assert forall|x: TileRef| !game.map.joined(t, x, p) by {
            if game.map.joined(t, x, p) {
                let way = choose|way: Seq<TileRef>| game.map.leads(way, t, x, p);
                assert(p(way[0]));
            }
        }
    }
    assert forall|x: TileRef| #[trigger] sites.contains(x) == (game.map.joined(t, x, p)
        && game.roomy(t)(x)) by {
        assert(kept.contains(x) == (near.contains(x) && game.roomy(t)(x)));
        assert(near.contains(x) == game.map.joined(t, x, p));
    }
    assert forall|x: TileRef| #[trigger] sites.contains(x) implies game.map.valid(x)
        && game.map.owner(x) == sid && game.map.dist2(t, x) < SEARCH_RADIUS_SQUARED by {
        assert(game.map.joined(t, x, p));
        game.map.lemma_joined(t, x, p);
    }
    assert forall|i: int, j: int| 0 <= i <= j < sites.len() implies game.map.dist2(
        #[trigger] sites[i],
        t,
    ) <= game.map.dist2(#[trigger] sites[j], t) by {
        assert(key(sites[i]).0 <= key(sites[j]).0);
        assert(sites.contains(sites[i]) && sites.contains(sites[j]));
        game.map.lemma_distances(sites[i], t);
        game.map.lemma_distances(sites[j], t);
    }
}

/// A structure on land goes where no other tile on which it can be placed is nearer, and
/// nowhere only where there is no such tile.
pub proof fn law_land_sites(game: GameView, sid: u16, unit_type: UnitType, t: TileRef)
    requires
        game.map.wf(),
        game.map.valid(t),
        unit_type.structure(),
        unit_type != UnitType::Port,
    ensures
        game.site(sid, unit_type, t) is None == (forall|x: TileRef|
            !(#[trigger] game.building_sites(sid, t).contains(x))),
        game.site(sid, unit_type, t) is Some ==> game.building_sites(sid, t).contains(
            game.site(sid, unit_type, t)->0,
        ) && (forall|x: TileRef|
            #[trigger] game.building_sites(sid, t).contains(x) ==> game.map.dist2(
                game.site(sid, unit_type, t)->0,
                t,
            ) <= game.map.dist2(x, t)),
{
    let sites = game.building_sites(sid, t);
    law_building_sites(game, sid, t);
    if sites.len() > 0 {
        assert(sites.contains(sites[0]));
        assert forall|x: TileRef| #[trigger] sites.contains(x) implies game.map.dist2(sites[0], t)
            <= game.map.dist2(x, t) by {
            let k = choose|k: int| 0 <= k < sites.len() && sites[k] == x;
            assert(game.map.dist2(sites[0], t) <= game.map.dist2(sites[k], t));
        }
    }
}

/// Whether a port of `sid` wanted at `t` can stand at `x`.
pub open spec fn is_harbour(game: GameView, sid: u16, t: TileRef, x: TileRef) -> bool {
    &&& game.building_sites(sid, t).contains(x)
    &&& game.map.is_shore(x)
    &&& game.map.manhattan(t, x) <= game.config.radius_port_spawn
}

/// A port goes to the shore that is the fewest steps away among those near by on which it
/// can be placed, and nowhere only where there is none.
pub proof fn law_port_sites(game: GameView, sid: u16, t: TileRef)
    requires
        game.map.wf(),
        game.map.valid(t),
    ensures
        game.site(sid, UnitType::Port, t) is None == (forall|x: TileRef|
            !(#[trigger] is_harbour(game, sid, t, x))),
        game.site(sid, UnitType::Port, t) is Some ==> is_harbour(
            game,
            sid,
            t,
            game.site(sid, UnitType::Port, t)->0,
        ) && (forall|x: TileRef|
            #[trigger] is_harbour(game, sid, t, x) ==> game.map.manhattan(
                game.site(sid, UnitType::Port, t)->0,
                t,
            ) <= game.map.manhattan(x, t)),
{
    let r = game.config.radius_port_spawn as int;
    let p = game.map.steps_within(t, r);
    let key = game.map.by_steps(t);
    let near = game.map.flood(t, p);
    let own = near.filter(game.map.own_shore(sid));
    let shores = game.near_shores(sid, t);
    let accepts = game.is_site(sid, t);
    law_building_sites(game, sid, t);
    game.map.law_flood(t, p);
    crate::lists::lemma_filter_members(near, game.map.own_shore(sid));
    crate::lists::law_sorting_by(own, key);
    crate::lists::lemma_first_where(shores, accepts);
    assert forall|x: TileRef| #[trigger] is_harbour(game, sid, t, x) == (shores.contains(x)
        && accepts(x)) by {
        assert(shores.contains(x) == own.contains(x));
        assert(own.contains(x) == (near.contains(x) && game.map.own_shore(sid)(x)));
        assert(near.contains(x) == game.map.joined(t, x, p));
        if game.map.joined(t, x, p) {
            game.map.lemma_joined(t, x, p);
        }
        if is_harbour(game, sid, t, x) {
            game.map.law_near_in_steps(t, x, r);
        }
    }
    match game.site(sid, UnitType::Port, t) {
        Some(v) => {
            let i = crate::lists::lemma_first_where_at(shores, accepts);
            assert(is_harbour(game, sid, t, v));
            assert forall|x: TileRef| #[trigger] is_harbour(game, sid, t, x) implies game.map.manhattan(
                v,
                t,
            ) <= game.map.manhattan(x, t) by {
                let k = choose|k: int| 0 <= k < shores.len() && shores[k] == x;
                assert(i <= k);
                assert(key(shores[i]).0 <= key(shores[k]).0);
                game.map.lemma_distances(v, t);
                game.map.lemma_distances(x, t);
            }
        },
        None => {
            assert forall|x: TileRef| !(#[trigger] is_harbour(game, sid, t, x)) by {
                if is_harbour(game, sid, t, x) {
                    let k = choose|k: int| 0 <= k < shores.len() && shores[k] == x;
                    assert(!accepts(shores[k]));
                }
            }
        },
    }
}

/// Nothing else goes anywhere.
pub proof fn law_other_sites(game: GameView, sid: u16, unit_type: UnitType, t: TileRef)
    requires
        !unit_type.structure(),
    ensures
        game.site(sid, unit_type, t) is None,
{
}

} // verus!
