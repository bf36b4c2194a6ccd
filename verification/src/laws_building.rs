//! What holds of where and what nations build.

use vstd::prelude::*;

use crate::game::GameView;
use crate::game_land::BBox;
use crate::map::MapView;
use crate::nation_structures::choice_of;
use crate::ordered_tiles::TileRef;
use crate::orders::Order;
use crate::state::Unit;
use crate::structure_value::{cluster_at, cluster_sum, with_cluster, ReachableStation};
use crate::unit_type::UnitType;

verus! {

/// The nearest of some tiles is one of them, and none of them is fewer steps away.
pub proof fn law_nearest(map: MapView, tiles: Seq<TileRef>, t: TileRef)
    ensures
        match crate::game_land::nearest(map, tiles, t) {
            Some(x) => tiles.contains(x) && forall|y: TileRef| #[trigger]
                tiles.contains(y) ==> map.manhattan(x, t) <= map.manhattan(y, t),
            None => tiles.len() == 0,
        },
    decreases tiles.len(),
{
    if tiles.len() > 0 {
        let front = tiles.drop_last();
        law_nearest(map, front, t);
        assert(tiles[tiles.len() - 1] == tiles.last());
        let best = crate::game_land::nearest(map, tiles, t)->0;
        if let Some(x) = crate::game_land::nearest(map, front, t) {
            let i = choose|i: int| 0 <= i < front.len() && front[i] == x;
            assert(tiles[i] == x);
        }
        assert forall|y: TileRef| #[trigger] tiles.contains(y) implies map.manhattan(best, t)
            <= map.manhattan(y, t) by {
            let i = choose|i: int| 0 <= i < tiles.len() && tiles[i] == y;
            if i < front.len() {
                assert(front[i] == y);
                assert(front.contains(y));
            }
        }
    }
}

/// Of two sets of tiles, the pair found is one of each, and no other pair is fewer steps
/// apart.
pub proof fn law_nearest_pair(map: MapView, a: Seq<TileRef>, b: Seq<TileRef>)
    ensures
        match crate::game_land::nearest_pair(map, a, b) {
            Some(pair) => a.contains(pair.0) && b.contains(pair.1) && forall|x: TileRef, y: TileRef|
                #[trigger] a.contains(x) && #[trigger] b.contains(y) ==> map.manhattan(
                    pair.1,
                    pair.0,
                ) <= map.manhattan(y, x),
            None => a.len() == 0 || b.len() == 0,
        },
    decreases a.len(),
{
    if a.len() > 0 {
        let front = a.drop_last();
        let last = a.last();
        law_nearest_pair(map, front, b);
        law_nearest(map, b, last);
        assert(a[a.len() - 1] == last);
        assert forall|x: TileRef| #[trigger] a.contains(x) implies x == last || front.contains(
            x,
        ) by {
            let i = choose|i: int| 0 <= i < a.len() && a[i] == x;
            if i < front.len() {
                assert(front[i] == x);
            }
        }
        assert forall|x: TileRef| #[trigger] front.contains(x) implies a.contains(x) by {
            let i = choose|i: int| 0 <= i < front.len() && front[i] == x;
            assert(a[i] == x);
        }
        if b.len() > 0 {
            assert(b.contains(b[0]));
        }
    }
}

/// Whether a structure wanted at a tile has a place there: one where it can stand near by.
pub open spec fn has_room(game: GameView, sid: u16, unit_type: UnitType, t: TileRef) -> bool {
    game.site(sid, unit_type, t) is Some
}

/// A nation puts a structure where it has room, on one of the tiles that it considers, and
/// none of those with room is worth more. It builds nowhere only where none has room.
pub proof fn law_chosen_site(game: GameView, rng: u64, sid: u16, unit_type: UnitType)
    ensures
        ({
            let (tiles, picked) = game.considered(rng, sid, unit_type);
            let heeding = game.judging(picked, unit_type).0;
            match game.chosen_site(rng, sid, unit_type).0 {
                Some(t) => {
                    &&& tiles.contains(t)
                    &&& has_room(game, sid, unit_type, t)
                    &&& forall|x: TileRef| #[trigger]
                        tiles.contains(x) && has_room(game, sid, unit_type, x) ==> game.site_worth(
                            sid,
                            unit_type,
                            x,
                            heeding,
                        ) <= game.site_worth(sid, unit_type, t, heeding)
                },
                None => forall|x: TileRef| #[trigger]
                    tiles.contains(x) ==> !has_room(game, sid, unit_type, x),
            }
        }),
{
    let (tiles, picked) = game.considered(rng, sid, unit_type);
    let heeding = game.judging(picked, unit_type).0;
    lemma_best_site(game, sid, unit_type, tiles, heeding);
}

proof fn lemma_best_site(
    game: GameView,
    sid: u16,
    unit_type: UnitType,
    tiles: Seq<TileRef>,
    heeding: bool,
)
    ensures
        ({
            let (best, value) = game.best_site(sid, unit_type, tiles, heeding);
            match best {
                Some(t) => {
                    &&& tiles.contains(t)
                    &&& has_room(game, sid, unit_type, t)
                    &&& value == game.site_worth(sid, unit_type, t, heeding)
                    &&& forall|x: TileRef| #[trigger]
                        tiles.contains(x) && has_room(game, sid, unit_type, x) ==> game.site_worth(
                            sid,
                            unit_type,
                            x,
                            heeding,
                        ) <= value
                },
                None => forall|x: TileRef| #[trigger]
                    tiles.contains(x) ==> !has_room(game, sid, unit_type, x),
            }
        }),
    decreases tiles.len(),
{
    if tiles.len() > 0 {
        let front = tiles.drop_last();
        let last = tiles.last();
        lemma_best_site(game, sid, unit_type, front, heeding);
        assert(tiles[tiles.len() - 1] == last);
        assert forall|x: TileRef| #[trigger] tiles.contains(x) implies x == last || front.contains(
            x,
        ) by {
            let i = choose|i: int| 0 <= i < tiles.len() && tiles[i] == x;
            if i < front.len() {
                assert(front[i] == x);
            }
        }
        assert forall|x: TileRef| #[trigger] front.contains(x) implies tiles.contains(x) by {
            let i = choose|i: int| 0 <= i < front.len() && front[i] == x;
            assert(tiles[i] == x);
        }
    }
}

/// What a nation considers is 25 tiles at most: for a port shores of its own at water on
/// which it can trade, otherwise tiles that it owns.
pub proof fn law_considered(game: GameView, rng: u64, sid: u16, unit_type: UnitType)
    requires
        game.map.wf(),
    ensures
        game.considered(rng, sid, unit_type).0.len() <= 25,
        forall|t: TileRef| #[trigger]
            game.considered(rng, sid, unit_type).0.contains(t) ==> if unit_type == UnitType::Port {
                game.border(sid).contains(t) && game.map.is_shore(t) && crate::lists::some_where(
                    game.map.neighbors4(t),
                    game.map.trade_water(game.known_bodies(sid)),
                )
            } else {
                game.map.valid(t) && game.map.owner(t) == sid
            },
{
    if unit_type == UnitType::Port {
        let shores = game.trade_shores(sid);
        crate::lists::lemma_filter_members(
            game.border(sid),
            game.map.trade_shore(game.known_bodies(sid)),
        );
        if shores.len() > 25 {
            lemma_drawn_out(rng, shores, 25);
        }
    } else if let Some(b) = game.map.bbox(game.border(sid)) {
        lemma_random_tiles(game, rng, sid, b, 25);
    }
}

proof fn lemma_drawn_out(rng: u64, s: Seq<TileRef>, n: int)
    requires
        0 <= n <= s.len(),
    ensures
        crate::shared_water::drawn_out(rng, s, n).0.len() == n,
        forall|t: TileRef| #[trigger]
            crate::shared_water::drawn_out(rng, s, n).0.contains(t) ==> s.contains(t),
    decreases n,
{
    if n > 0 {
        let k = crate::prng::int_drawn(rng, 0, s.len() as int);
        crate::prng::lemma_int_drawn(rng, 0, s.len() as int);
        let rest = s.remove(k);
        let next = crate::prng::next_state(rng);
        lemma_drawn_out(next, rest, n - 1);
        let more = crate::shared_water::drawn_out(next, rest, n - 1).0;
        let all = crate::shared_water::drawn_out(rng, s, n).0;
        assert forall|t: TileRef| #[trigger] all.contains(t) implies s.contains(t) by {
            let i = choose|i: int| 0 <= i < all.len() && all[i] == t;
            if i > 0 {
                assert(more[i - 1] == t);
                assert(more.contains(t));
                let j = choose|j: int| 0 <= j < rest.len() && rest[j] == t;
                if j < k {
                    assert(s[j] == t);
                } else {
                    assert(s[j + 1] == t);
                }
            }
        }
    }
}

proof fn lemma_land_tile(game: GameView, rng: u64, sid: u16, b: BBox, tries: nat)
    requires
        game.map.wf(),
    ensures
        game.land_tile(rng, sid, b, tries).0 is Some ==> game.map.valid(
            game.land_tile(rng, sid, b, tries).0->0,
        ) && game.map.owner(game.land_tile(rng, sid, b, tries).0->0) == sid,
    decreases tries,
{
    if tries > 0 {
        let x = crate::prng::int_drawn(rng, b.min_x as int, b.max_x as int);
        let rng1 = crate::prng::next_state(rng);
        let y = crate::prng::int_drawn(rng1, b.min_y as int, b.max_y as int);
        if game.map.valid_coord(x, y) {
            game.map.lemma_at(x, y);
        }
        lemma_land_tile(game, crate::prng::next_state(rng1), sid, b, (tries - 1) as nat);
    }
}

proof fn lemma_random_tiles(game: GameView, rng: u64, sid: u16, b: BBox, n: nat)
    requires
        game.map.wf(),
    ensures
        game.random_tiles_in(rng, sid, b, n).0.len() <= n,
        forall|t: TileRef| #[trigger]
            game.random_tiles_in(rng, sid, b, n).0.contains(t) ==> game.map.valid(t)
                && game.map.owner(t) == sid,
    decreases n,
{
    if n > 0 {
        let m = (n - 1) as nat;
        lemma_random_tiles(game, rng, sid, b, m);
        let (tiles, state) = game.random_tiles_in(rng, sid, b, m);
        let all = game.random_tiles_in(rng, sid, b, n).0;
        let tries = crate::territory::TERRITORY_TRIES as nat;
        lemma_land_tile(game, state, sid, b, tries);
        let after = game.land_tile(state, sid, b, tries).1;
        let land = game.map.territory(sid);
        game.map.lemma_len();
        crate::lists::lemma_filter_members(game.map.all_tiles(), game.map.owned_by(sid));
        crate::prng::lemma_int_drawn(after, 0, land.len() as int);
        assert forall|t: TileRef| #[trigger] all.contains(t) implies game.map.valid(t)
            && game.map.owner(t) == sid by {
            let i = choose|i: int| 0 <= i < all.len() && all[i] == t;
            if i < tiles.len() {
                assert(tiles[i] == t);
                assert(tiles.contains(t));
            } else if game.land_tile(state, sid, b, tries).0 is None {
                assert(land.contains(t));
                assert(game.map.all_tiles().contains(t));
            }
        }
    }
}

/// The worth of a shore for a port is how many steps the nearest port of the player is away;
/// without one every shore is worth as much.
pub proof fn law_port_worth(game: GameView, sid: u16, t: TileRef)
    ensures
        ({
            let ports = game.kind_tiles(sid, UnitType::Port);
            let worth = game.site_worth(sid, UnitType::Port, t, false);
            &&& ports.len() == 0 ==> worth == 1
            &&& ports.len() > 0 ==> {
                &&& forall|x: TileRef| #[trigger]
                    ports.contains(x) ==> worth <= game.map.manhattan(x, t)
                &&& exists|x: TileRef| #[trigger]
                    ports.contains(x) && worth == game.map.manhattan(x, t)
            }
        }),
{
    law_nearest(game.map, game.kind_tiles(sid, UnitType::Port), t);
}

/// Whether each of `tiles` is farther from `a` than some is from `b`, or as far.
pub open spec fn is_farther(map: MapView, tiles: Seq<TileRef>, a: TileRef, b: TileRef) -> bool {
    forall|x: TileRef| #[trigger]
        tiles.contains(x) ==> exists|y: TileRef| #[trigger]
            tiles.contains(y) && map.manhattan(y, b) <= map.manhattan(x, a)
}

/// Who is farther from the nearest of some tiles counts as farther, up to the cap.
pub proof fn law_nearness(
    game: GameView,
    tiles: Seq<TileRef>,
    a: TileRef,
    b: TileRef,
    cap: int,
    otherwise: int,
)
    requires
        tiles.len() > 0,
    ensures
        game.nearness(tiles, a, cap, otherwise) <= cap,
        is_farther(game.map, tiles, a, b) ==> game.nearness(tiles, a, cap, otherwise)
            >= game.nearness(tiles, b, cap, otherwise),
        exists|x: TileRef| #[trigger]
            tiles.contains(x) && game.nearness(tiles, a, cap, otherwise) == (if game.map.manhattan(
                x,
                a,
            ) < cap {
                game.map.manhattan(x, a)
            } else {
                cap
            }),
{
    law_nearest(game.map, tiles, a);
    law_nearest(game.map, tiles, b);
    let x = crate::game_land::nearest(game.map, tiles, a)->0;
    assert(tiles.contains(x));
    if is_farther(game.map, tiles, a, b) {
        let y = choose|y: TileRef| #[trigger]
            tiles.contains(y) && game.map.manhattan(y, b) <= game.map.manhattan(x, a);
        assert(tiles.contains(y));
    }
}

/// Whether `a` is no worse off than `b`: no lower, and no nearer to the border, to the
/// player's structures of the first kind and to those of the second.
pub open spec fn is_better_off(
    game: GameView,
    sid: u16,
    first: Seq<TileRef>,
    second: Seq<TileRef>,
    a: TileRef,
    b: TileRef,
) -> bool {
    &&& game.map.tiles[a as int].magnitude >= game.map.tiles[b as int].magnitude
    &&& is_farther(game.map, game.border(sid), a, b)
    &&& is_farther(game.map, first, a, b)
    &&& is_farther(game.map, second, a, b)
}

/// A higher tile that lies farther from the border and from the player's cities and
/// factories is worth no less for a city, whatever the railways earn where the nation does
/// not heed them; where it does, what they earn counts on top. The same goes for a factory,
/// and it is worth more where it is higher.
pub proof fn law_city_worth(game: GameView, sid: u16, a: TileRef, b: TileRef, heeding: bool)
    requires
        game.config.wf(),
        is_better_off(
            game,
            sid,
            game.kind_tiles(sid, UnitType::City),
            game.kind_tiles(sid, UnitType::Factory),
            a,
            b,
        ),
        heeding ==> game.connectivity(a, game.reachable(sid)) >= game.connectivity(
            b,
            game.reachable(sid),
        ),
    ensures
        game.site_worth(sid, UnitType::City, a, heeding) >= game.site_worth(
            sid,
            UnitType::City,
            b,
            heeding,
        ),
        game.map.tiles[a as int].magnitude > game.map.tiles[b as int].magnitude ==> game.site_worth(
            sid,
            UnitType::City,
            a,
            heeding,
        ) > game.site_worth(sid, UnitType::City, b, heeding),
        heeding && game.config.atom_bomb.outer > 0 && game.connectivity(a, game.reachable(sid))
            > game.connectivity(b, game.reachable(sid)) ==> game.site_worth(
            sid,
            UnitType::City,
            a,
            heeding,
        ) > game.site_worth(sid, UnitType::City, b, heeding),
{
    let cities = game.kind_tiles(sid, UnitType::City);
    let factories = game.kind_tiles(sid, UnitType::Factory);
    lemma_nearness(game, game.border(sid), a, b, game.border_spacing(), 0);
    lemma_nearness(game, cities, a, b, game.structure_spacing(), 0);
    lemma_nearness(game, factories, a, b, game.structure_spacing(), 0);
    let x = game.map.tiles[a as int].magnitude + game.nearness(
        game.border(sid),
        a,
        game.border_spacing(),
        0,
    ) + game.nearness(cities, a, game.structure_spacing(), 0) + game.nearness(
        factories,
        a,
        game.structure_spacing(),
        0,
    );
    let y = game.map.tiles[b as int].magnitude + game.nearness(
        game.border(sid),
        b,
        game.border_spacing(),
        0,
    ) + game.nearness(cities, b, game.structure_spacing(), 0) + game.nearness(
        factories,
        b,
        game.structure_spacing(),
        0,
    );
    lemma_joined_worth(
        x,
        y,
        game.connectivity(a, game.reachable(sid)),
        game.connectivity(b, game.reachable(sid)),
        game.config.train_gold_ally as int,
        game.structure_spacing(),
        heeding,
    );
}

proof fn lemma_nearness(
    game: GameView,
    tiles: Seq<TileRef>,
    a: TileRef,
    b: TileRef,
    cap: int,
    otherwise: int,
)
    requires
        is_farther(game.map, tiles, a, b),
    ensures
        game.nearness(tiles, a, cap, otherwise) >= game.nearness(tiles, b, cap, otherwise),
{
    if tiles.len() > 0 {
        law_nearness(game, tiles, a, b, cap, otherwise);
    }
}

proof fn lemma_joined_worth(x: int, y: int, p: int, q: int, gold: int, spacing: int, heeding: bool)
    requires
        x >= y,
        heeding ==> p >= q,
        gold > 0,
        spacing >= 0,
    ensures
        crate::structure_value::joined_worth(x, p, gold, spacing, heeding)
            >= crate::structure_value::joined_worth(y, q, gold, spacing, heeding),
        x > y || (heeding && p > q && spacing > 0) ==> crate::structure_value::joined_worth(
            x,
            p,
            gold,
            spacing,
            heeding,
        ) > crate::structure_value::joined_worth(y, q, gold, spacing, heeding),
{
    assert(x * gold >= y * gold) by (nonlinear_arith)
        requires
            x >= y,
            gold > 0,
    ;
    assert(x > y ==> x * gold > y * gold) by (nonlinear_arith)
        requires
            gold > 0,
    ;
    if heeding {
        assert(p * spacing >= q * spacing) by (nonlinear_arith)
            requires
                p >= q,
                spacing >= 0,
        ;
        assert(p > q && spacing > 0 ==> p * spacing > q * spacing) by (nonlinear_arith);
    }
}

/// The worth of a tile for a factory goes by its height, by how far the border, the player's
/// cities and its other factories are away, and by what the railways earn.
pub proof fn law_factory_worth(game: GameView, sid: u16, a: TileRef, b: TileRef, heeding: bool)
    requires
        game.config.wf(),
        is_better_off(
            game,
            sid,
            game.kind_tiles(sid, UnitType::City),
            game.kind_tiles(sid, UnitType::Factory),
            a,
            b,
        ),
        !game.kind_tiles(sid, UnitType::Factory).contains(a),
        !game.kind_tiles(sid, UnitType::Factory).contains(b),
        heeding ==> game.connectivity(a, game.reachable(sid)) >= game.connectivity(
            b,
            game.reachable(sid),
        ),
    ensures
        game.site_worth(sid, UnitType::Factory, a, heeding) >= game.site_worth(
            sid,
            UnitType::Factory,
            b,
            heeding,
        ),
        game.map.tiles[a as int].magnitude > game.map.tiles[b as int].magnitude ==> game.site_worth(
            sid,
            UnitType::Factory,
            a,
            heeding,
        ) > game.site_worth(sid, UnitType::Factory, b, heeding),
        heeding && game.config.atom_bomb.outer > 0 && game.connectivity(a, game.reachable(sid))
            > game.connectivity(b, game.reachable(sid)) ==> game.site_worth(
            sid,
            UnitType::Factory,
            a,
            heeding,
        ) > game.site_worth(sid, UnitType::Factory, b, heeding),
{
    let cities = game.kind_tiles(sid, UnitType::City);
    let factories = game.kind_tiles(sid, UnitType::Factory);
    lemma_all_kept(factories, crate::structure_value::other_tile(a));
    lemma_all_kept(factories, crate::structure_value::other_tile(b));
    let spacing = game.border_spacing();
    let far = game.config.train_station_max_range as int;
    lemma_nearness(game, game.border(sid), a, b, spacing, spacing);
    lemma_nearness(game, factories, a, b, far, 0);
    lemma_nearness(game, cities, a, b, game.structure_spacing(), 0);
    let x = game.map.tiles[a as int].magnitude + game.nearness(
        game.border(sid),
        a,
        spacing,
        spacing,
    ) + game.nearness(factories, a, far, 0) + game.nearness(
        cities,
        a,
        game.structure_spacing(),
        0,
    );
    let y = game.map.tiles[b as int].magnitude + game.nearness(
        game.border(sid),
        b,
        spacing,
        spacing,
    ) + game.nearness(factories, b, far, 0) + game.nearness(
        cities,
        b,
        game.structure_spacing(),
        0,
    );
    lemma_joined_worth(
        x,
        y,
        game.connectivity(a, game.reachable(sid)),
        game.connectivity(b, game.reachable(sid)),
        game.config.train_gold_ally as int,
        game.structure_spacing(),
        heeding,
    );
}

proof fn lemma_all_kept(s: Seq<TileRef>, p: spec_fn(TileRef) -> bool)
    requires
        forall|x: TileRef| #[trigger] s.contains(x) ==> p(x),
    ensures
        s.filter(p) == s,
    decreases s.len(),
{
    reveal(Seq::filter);
    if s.len() > 0 {
        let front = s.drop_last();
        assert forall|x: TileRef| #[trigger] front.contains(x) implies p(x) by {
            let i = choose|i: int| 0 <= i < front.len() && front[i] == x;
            assert(s[i] == x);
            assert(s.contains(x));
        }
        lemma_all_kept(front, p);
        assert(s[s.len() - 1] == s.last());
        assert(s.contains(s.last()));
        assert(front.push(s.last()) =~= s);
    } else {
        assert(s.filter(p) =~= s);
    }
}

/// A missile silo is worth more on higher ground, farther from the border and farther from
/// the player's other silos.
pub proof fn law_silo_worth(game: GameView, sid: u16, a: TileRef, b: TileRef, heeding: bool)
    requires
        is_better_off(
            game,
            sid,
            game.kind_tiles(sid, UnitType::MissileSilo),
            game.kind_tiles(sid, UnitType::MissileSilo),
            a,
            b,
        ),
        !game.kind_tiles(sid, UnitType::MissileSilo).contains(a),
        !game.kind_tiles(sid, UnitType::MissileSilo).contains(b),
    ensures
        game.site_worth(sid, UnitType::MissileSilo, a, heeding) >= game.site_worth(
            sid,
            UnitType::MissileSilo,
            b,
            heeding,
        ),
        game.map.tiles[a as int].magnitude > game.map.tiles[b as int].magnitude ==> game.site_worth(
            sid,
            UnitType::MissileSilo,
            a,
            heeding,
        ) > game.site_worth(sid, UnitType::MissileSilo, b, heeding),
{
    lemma_apart_worth(game, sid, UnitType::MissileSilo, a, b);
}

proof fn lemma_apart_worth(game: GameView, sid: u16, kind: UnitType, a: TileRef, b: TileRef)
    requires
        is_better_off(game, sid, game.kind_tiles(sid, kind), game.kind_tiles(sid, kind), a, b),
        !game.kind_tiles(sid, kind).contains(a),
        !game.kind_tiles(sid, kind).contains(b),
    ensures
        game.apart_worth(sid, kind, a) >= game.apart_worth(sid, kind, b),
        game.map.tiles[a as int].magnitude > game.map.tiles[b as int].magnitude
            ==> game.apart_worth(sid, kind, a) > game.apart_worth(sid, kind, b),
{
    let tiles = game.kind_tiles(sid, kind);
    lemma_all_kept(tiles, crate::structure_value::other_tile(a));
    lemma_all_kept(tiles, crate::structure_value::other_tile(b));
    let spacing = game.border_spacing();
    lemma_nearness(game, game.border(sid), a, b, spacing, spacing);
    lemma_nearness(game, tiles, a, b, game.structure_spacing(), 0);
}

/// A SAM launcher is worth more where it lies better, and, but for easy nations, where it
/// guards more: every city, factory, silo and port of the player within seventy tiles adds
/// to it, none of the others does.
pub proof fn law_sam_worth(game: GameView, sid: u16, a: TileRef, b: TileRef, heeding: bool)
    requires
        game.config.wf(),
        game.map.wf(),
        is_better_off(
            game,
            sid,
            game.kind_tiles(sid, UnitType::SamLauncher),
            game.kind_tiles(sid, UnitType::SamLauncher),
            a,
            b,
        ),
        !game.kind_tiles(sid, UnitType::SamLauncher).contains(a),
        !game.kind_tiles(sid, UnitType::SamLauncher).contains(b),
        forall|i: int|
            0 <= i < game.units.len() ==> (#[trigger] game.units[i]).level >= 0 && (
            game.map.dist2(b, game.units[i].tile) <= 4900 ==> game.map.dist2(
                a,
                game.units[i].tile,
            ) <= 4900),
    ensures
        game.site_worth(sid, UnitType::SamLauncher, a, heeding) >= game.site_worth(
            sid,
            UnitType::SamLauncher,
            b,
            heeding,
        ),
        game.map.tiles[a as int].magnitude > game.map.tiles[b as int].magnitude ==> game.site_worth(
            sid,
            UnitType::SamLauncher,
            a,
            heeding,
        ) > game.site_worth(sid, UnitType::SamLauncher, b, heeding),
{
    let p = crate::structure_value::worth_guarding(sid);
    let units = game.units.filter(p);
    lemma_apart_worth(game, sid, UnitType::SamLauncher, a, b);
    crate::lists::lemma_filter_members(game.units, p);
    assert forall|i: int| 0 <= i < units.len() implies (#[trigger] units[i]).level >= 0 && (
    game.map.dist2(b, units[i].tile) <= 4900 ==> game.map.dist2(a, units[i].tile) <= 4900) by {
        assert(units.contains(units[i]));
        let k = choose|k: int| 0 <= k < game.units.len() && game.units[k] == units[i];
        assert(game.units[k].level >= 0);
    }
    lemma_guard_worth(game, sid, a, b, units, heeding);
}

/// A structure that is worth a guard adds nothing negative, and nothing at all where it is
/// out of range.
proof fn lemma_guard_share(game: GameView, sid: u16, u: Unit, heeding: bool)
    requires
        game.config.wf(),
        u.level >= 0,
        forall|i: int| 0 <= i < game.units.len() ==> (#[trigger] game.units[i]).level >= 0,
    ensures
        game.guard_share(sid, u, heeding) >= 0,
{
    let sams = game.units_of(sid, UnitType::SamLauncher);
    let q = |u: Unit| u.owner == sid && u.unit_type == UnitType::SamLauncher;
    crate::lists::lemma_filter_members(game.units, q);
    assert forall|i: int| 0 <= i < sams.len() implies (#[trigger] sams[i]).level >= 0 by {
        assert(sams.contains(sams[i]));
        let k = choose|k: int| 0 <= k < game.units.len() && game.units[k] == sams[i];
        assert(game.units[k].level >= 0);
    }
    lemma_protection(game, u.tile, sams);
    let spacing = game.structure_spacing();
    let level = u.level as int;
    assert(spacing * level * 1_000_000 >= 0) by (nonlinear_arith)
        requires
            spacing >= 0,
            level >= 0,
    ;
    assert(spacing * 1 * 1_000_000 >= 0) by (nonlinear_arith)
        requires
            spacing >= 0,
    ;
    let full = spacing * (if game.config.difficulty == crate::config::Difficulty::Hard
        || game.config.difficulty == crate::config::Difficulty::Impossible {
        level
    } else {
        1
    }) * 1_000_000;
    let shared = 1 + game.protection(u.tile, sams);
    assert(full / shared >= 0) by (nonlinear_arith)
        requires
            full >= 0,
            shared >= 1,
    ;
}

proof fn lemma_protection(game: GameView, t: TileRef, sams: Seq<Unit>)
    requires
        forall|i: int| 0 <= i < sams.len() ==> (#[trigger] sams[i]).level >= 0,
    ensures
        game.protection(t, sams) >= 0,
    decreases sams.len(),
{
    if sams.len() > 0 {
        let front = sams.drop_last();
        assert forall|i: int| 0 <= i < front.len() implies (#[trigger] front[i]).level >= 0 by {
            assert(sams[i] == front[i]);
        }
        assert(sams[sams.len() - 1].level >= 0);
        lemma_protection(game, t, front);
    }
}

proof fn lemma_guard_worth(
    game: GameView,
    sid: u16,
    a: TileRef,
    b: TileRef,
    units: Seq<Unit>,
    heeding: bool,
)
    requires
        game.config.wf(),
        forall|i: int| 0 <= i < game.units.len() ==> (#[trigger] game.units[i]).level >= 0,
        forall|i: int|
            0 <= i < units.len() ==> (#[trigger] units[i]).level >= 0 && (game.map.dist2(
                b,
                units[i].tile,
            ) <= 4900 ==> game.map.dist2(a, units[i].tile) <= 4900),
    ensures
        game.guard_worth(sid, a, units, heeding) >= game.guard_worth(sid, b, units, heeding),
    decreases units.len(),
{
    if units.len() > 0 {
        let front = units.drop_last();
        assert forall|i: int| 0 <= i < front.len() implies (#[trigger] front[i]).level >= 0 && (
        game.map.dist2(b, front[i].tile) <= 4900 ==> game.map.dist2(a, front[i].tile)
            <= 4900) by {
            assert(units[i] == front[i]);
        }
        assert(units[units.len() - 1] == units.last());
        lemma_guard_worth(game, sid, a, b, front, heeding);
        lemma_guard_share(game, sid, units.last(), heeding);
    }
}

/// Whether rails from `t` reach a station: neither nearer than trains go nor farther.
pub open spec fn is_in_reach(game: GameView, t: TileRef, s: ReachableStation) -> bool {
    let least = game.config.train_station_min_range as int;
    let most = game.config.train_station_max_range as int;
    least * least <= game.map.dist2(t, s.tile) <= most * most
}

/// A station out of reach earns nothing. One without a cluster earns its weight. One in a
/// cluster earns at most its weight, and exactly as much as lifts the best of its cluster.
pub proof fn law_connectivity(
    game: GameView,
    t: TileRef,
    stations: Seq<ReachableStation>,
    s: ReachableStation,
)
    ensures
        ({
            let before = game.connectivity(t, stations);
            let after = game.connectivity(t, stations.push(s));
            &&& !is_in_reach(game, t, s) ==> after == before
            &&& is_in_reach(game, t, s) && s.cluster is None ==> after == before + s.weight
            &&& is_in_reach(game, t, s) && s.cluster is Some ==> ({
                ||| after == before + s.weight && forall|i: int|
                    0 <= i < stations.len() && is_in_reach(game, t, #[trigger] stations[i])
                        ==> stations[i].cluster != s.cluster
                ||| exists|k: int|
                    0 <= k < stations.len() && is_in_reach(game, t, #[trigger] stations[k])
                        && stations[k].cluster == s.cluster && (forall|i: int|
                        0 <= i < stations.len() && is_in_reach(game, t, #[trigger] stations[i])
                            && stations[i].cluster == s.cluster ==> stations[i].weight
                            <= stations[k].weight) && after == before + (if s.weight
                        > stations[k].weight {
                        s.weight - stations[k].weight
                    } else {
                        0
                    })
            })
        }),
{
    let more = stations.push(s);
    assert(more.drop_last() =~= stations);
    let (clusters, isolated) = game.network(t, stations);
    assert(game.in_rail_range(t, s.tile) == is_in_reach(game, t, s));
    if is_in_reach(game, t, s) && s.cluster is Some {
        let c = s.cluster->0;
        lemma_network(game, t, stations, c);
        let at = cluster_at(clusters, c);
        lemma_cluster_at(clusters, c);
        if at < clusters.len() {
            lemma_cluster_sum_update(clusters, at, (c, s.weight));
        } else {
            assert(clusters.push((c, s.weight)).drop_last() =~= clusters);
        }
    }
}

proof fn lemma_cluster_at(clusters: Seq<(u32, i64)>, c: u32)
    ensures
        0 <= cluster_at(clusters, c) <= clusters.len(),
        cluster_at(clusters, c) < clusters.len() ==> clusters[cluster_at(clusters, c)].0 == c,
        forall|i: int|
            0 <= i < cluster_at(clusters, c) ==> (#[trigger] clusters[i]).0 != c,
    decreases clusters.len(),
{
    if clusters.len() > 0 && clusters[0].0 != c {
        let rest = clusters.skip(1);
        lemma_cluster_at(rest, c);
        let at = cluster_at(rest, c);
        if at < rest.len() {
            assert(rest[at] == clusters[at + 1]);
        }
        assert forall|i: int| 0 <= i < at + 1 implies (#[trigger] clusters[i]).0 != c by {
            if i > 0 {
                assert(rest[i - 1] == clusters[i]);
            }
        }
    }
}

proof fn lemma_cluster_sum_update(clusters: Seq<(u32, i64)>, at: int, x: (u32, i64))
    requires
        0 <= at < clusters.len(),
    ensures
        cluster_sum(clusters.update(at, x)) == cluster_sum(clusters) - clusters[at].1 + x.1,
    decreases clusters.len(),
{
    let front = clusters.drop_last();
    let changed = clusters.update(at, x);
    if at < front.len() {
        lemma_cluster_sum_update(front, at, x);
        assert(changed.drop_last() =~= front.update(at, x));
        assert(changed.last() == clusters.last());
    } else {
        assert(changed.drop_last() =~= front);
        assert(changed.last() == x);
    }
}

/// The best of a cluster's stations in reach, where there is one.
proof fn lemma_network(game: GameView, t: TileRef, stations: Seq<ReachableStation>, c: u32)
    ensures
        ({
            let clusters = game.network(t, stations).0;
            let at = cluster_at(clusters, c);
            &&& at >= clusters.len() ==> forall|i: int|
                0 <= i < stations.len() && is_in_reach(game, t, #[trigger] stations[i])
                    ==> stations[i].cluster != Some(c)
            &&& at < clusters.len() ==> exists|k: int|
                0 <= k < stations.len() && is_in_reach(game, t, #[trigger] stations[k])
                    && stations[k].cluster == Some(c) && clusters[at].1 == stations[k].weight && (
                forall|i: int|
                    0 <= i < stations.len() && is_in_reach(game, t, #[trigger] stations[i])
                        && stations[i].cluster == Some(c) ==> stations[i].weight
                        <= stations[k].weight)
        }),
    decreases stations.len(),
{
    if stations.len() > 0 {
        let front = stations.drop_last();
        let s = stations.last();
        let n = stations.len() - 1;
        assert(stations[n] == s);
        lemma_network(game, t, front, c);
        let before = game.network(t, front).0;
        let clusters = game.network(t, stations).0;
        assert(game.in_rail_range(t, s.tile) == is_in_reach(game, t, s));
        lemma_cluster_at(before, c);
        lemma_cluster_at(clusters, c);
        let was = cluster_at(before, c);
        let at = cluster_at(clusters, c);
        assert forall|i: int| 0 <= i < front.len() implies front[i] == #[trigger] stations[i] by {}
        if is_in_reach(game, t, s) && s.cluster is Some {
            let d = s.cluster->0;
            lemma_cluster_at(before, d);
            assert(clusters == with_cluster(before, d, s.weight));
            if d != c {
                // Another cluster leaves this one where it is.
                let other = cluster_at(before, d);
                if was < before.len() {
                    assert(clusters[was] == before[was]);
                    assert(clusters[was].0 == c);
                    assert(at == was) by {
                        if at < was {
                            assert(clusters[at].0 == c);
                            if at < before.len() && at != other {
                                assert(before[at].0 == c);
                            }
                        } else if was < at {
                            assert(clusters[was].0 != c);
                        }
                    }
                } else {
                    assert(at >= clusters.len()) by {
                        if at < clusters.len() {
                            assert(clusters[at].0 == c);
                            if at < before.len() && at != other {
                                assert(before[at].0 == c);
                                assert(before[at].0 != c);
                            }
                        }
                    }
                }
            } else if was < before.len() {
                assert(clusters[was].0 == c);
                assert(at == was) by {
                    if at < was {
                        assert(clusters[at].0 == c);
                        assert(before[at].0 != c);
                    } else if was < at {
                        assert(clusters[was].0 != c);
                    }
                }
            } else {
                assert(clusters[before.len() as int].0 == c);
                assert(at == before.len()) by {
                    if at < before.len() {
                        assert(clusters[at].0 == c);
                        assert(before[at].0 != c);
                    } else if before.len() < at {
                        assert(clusters[before.len() as int].0 != c);
                    }
                }
            }
        } else {
            assert(clusters == before);
        }
        if at < clusters.len() {
            let fresh = is_in_reach(game, t, s) && s.cluster == Some(c) && (was >= before.len()
                || s.weight > before[was].1);
            let k = if fresh {
                n
            } else {
                choose|k: int|
                    0 <= k < front.len() && is_in_reach(game, t, #[trigger] front[k])
                        && front[k].cluster == Some(c) && before[was].1 == front[k].weight && (
                    forall|i: int|
                        0 <= i < front.len() && is_in_reach(game, t, #[trigger] front[i])
                            && front[i].cluster == Some(c) ==> front[i].weight <= front[k].weight)
            };
            assert(is_in_reach(game, t, stations[k]) && stations[k].cluster == Some(c)
                && clusters[at].1 == stations[k].weight);
            assert forall|i: int| 0 <= i < stations.len() && is_in_reach(
                game,
                t,
                #[trigger] stations[i],
            ) && stations[i].cluster == Some(c) implies stations[i].weight
                <= stations[k].weight by {
                if i < front.len() {
                    assert(front[i] == stations[i]);
                }
            }
        } else {
            assert forall|i: int| 0 <= i < stations.len() && is_in_reach(
                game,
                t,
                #[trigger] stations[i],
            ) implies stations[i].cluster != Some(c) by {
                if i < front.len() {
                    assert(front[i] == stations[i]);
                }
            }
        }
    }
}

/// How many structures a nation wants: three ports for four cities, as many factories where
/// it has no coast, three silos at most. Who wants another has fewer than its share.
pub proof fn law_wants(game: GameView, sid: u16, cities: int, coastal: bool)
    requires
        cities >= 0,
    ensures
        game.wants(sid, UnitType::Port, cities, coastal) <==> 4 * (game.owned(sid, UnitType::Port)
            + 1) <= 3 * cities,
        !coastal ==> (game.wants(sid, UnitType::Factory, cities, coastal) <==> 4 * (game.owned(
            sid,
            UnitType::Factory,
        ) + 1) <= 3 * cities),
        coastal && !game.config.disabled(UnitType::Port) ==> (game.wants(
            sid,
            UnitType::Factory,
            cities,
            coastal,
        ) <==> 400 * (game.owned(sid, UnitType::Factory) + 1) <= 99 * cities),
        game.config.difficulty == crate::config::Difficulty::Easy ==> (game.wants(
            sid,
            UnitType::SamLauncher,
            cities,
            coastal,
        ) <==> 20 * (game.owned(sid, UnitType::SamLauncher) + 1) <= 3 * cities),
        game.config.difficulty == crate::config::Difficulty::Medium ==> (game.wants(
            sid,
            UnitType::SamLauncher,
            cities,
            coastal,
        ) <==> 5 * (game.owned(sid, UnitType::SamLauncher) + 1) <= cities),
        game.config.difficulty == crate::config::Difficulty::Hard ==> (game.wants(
            sid,
            UnitType::SamLauncher,
            cities,
            coastal,
        ) <==> 4 * (game.owned(sid, UnitType::SamLauncher) + 1) <= cities),
        game.config.difficulty == crate::config::Difficulty::Impossible ==> (game.wants(
            sid,
            UnitType::SamLauncher,
            cities,
            coastal,
        ) <==> 10 * (game.owned(sid, UnitType::SamLauncher) + 1) <= 3 * cities),
        game.owned(sid, UnitType::MissileSilo) == 0 ==> (game.wants(
            sid,
            UnitType::MissileSilo,
            cities,
            coastal,
        ) <==> 2 * cities >= 5),
        0 < game.owned(sid, UnitType::MissileSilo) < 3 ==> (game.wants(
            sid,
            UnitType::MissileSilo,
            cities,
            coastal,
        ) <==> 5 * (game.owned(sid, UnitType::MissileSilo) + 1) <= cities),
        game.owned(sid, UnitType::MissileSilo) >= 3 ==> !game.wants(
            sid,
            UnitType::MissileSilo,
            cities,
            coastal,
        ),
{
    lemma_share(game.owned(sid, UnitType::Port), cities, 7500);
    lemma_share(game.owned(sid, UnitType::Factory), cities, 7500);
    lemma_share(game.owned(sid, UnitType::Factory), cities, 2475);
    lemma_share(game.owned(sid, UnitType::SamLauncher), cities, 1500);
    lemma_share(game.owned(sid, UnitType::SamLauncher), cities, 2000);
    lemma_share(game.owned(sid, UnitType::SamLauncher), cities, 2500);
    lemma_share(game.owned(sid, UnitType::SamLauncher), cities, 3000);
    lemma_share(game.owned(sid, UnitType::MissileSilo), cities, 4000);
    lemma_share(game.owned(sid, UnitType::MissileSilo), cities, 2000);
}

proof fn lemma_share(owned: int, cities: int, ratio: int)
    ensures
        owned < cities * ratio / 10_000 <==> (owned + 1) * 10_000 <= cities * ratio,
{
}

/// A structure seems to cost a nation what it costs, or, until it has its savings together,
/// as much again for each that it owns.
pub proof fn law_felt_cost(game: GameView, sid: u16, kind: UnitType)
    requires
        game.owned(sid, kind) >= 0,
        game.cost(sid, kind) >= 0,
    ensures
        game.gold(sid) >= game.savings() ==> game.felt_cost(sid, kind) == game.cost(sid, kind),
        game.felt_cost(sid, kind) >= game.cost(sid, kind),
        0 < game.savings() && game.gold(sid) < game.savings() && game.owned(sid, kind) == 1
            ==> game.felt_cost(sid, kind) == 2 * game.cost(sid, kind),
        0 < game.savings() && game.gold(sid) < game.savings() && game.owned(sid, kind) == 0
            ==> game.felt_cost(sid, kind) == game.cost(sid, kind),
{
    let (cost, owned) = (game.cost(sid, kind), game.owned(sid, kind));
    assert(owned == 1 ==> cost * (1 + owned) == 2 * cost) by (nonlinear_arith);
    assert(owned == 0 ==> cost * (1 + owned) == cost) by (nonlinear_arith);
    assert(cost * (1 + owned) >= cost) by (nonlinear_arith)
        requires
            cost >= 0,
            owned >= 0,
    ;
}

/// What a nation orders in one go of a kind is one upgrade or one new structure of that kind
/// at a place with room, and nothing that is disabled or that it cannot pay.
pub proof fn law_developing(game: GameView, rng: u64, sid: u16, kind: UnitType)
    ensures
        ({
            let (after, _, done) = game.developing(rng, sid, kind);
            let n = game.pending.len() as int;
            &&& !done ==> after.pending == game.pending
            &&& done ==> {
                &&& !game.config.disabled(kind)
                &&& game.has(sid)
                &&& game.gold(sid) >= game.felt_cost(sid, kind)
                &&& after.pending.len() == n + 1
                &&& after.pending.drop_last() == game.pending
                &&& match after.pending.last() {
                    Order::Construction { small_id, unit_type, tile, .. } => small_id == sid
                        && unit_type == kind && has_room(
                        game.sounding(kind),
                        sid,
                        kind,
                        tile,
                    ),
                    Order::UpgradeStructure { small_id, .. } => small_id == sid
                        && kind.upgradable() && game.is_dense(sid),
                    _ => false,
                }
            }
        }),
{
    let (after, _, done) = game.developing(rng, sid, kind);
    if done {
        assert(after.pending.drop_last() =~= game.pending);
    }
}

/// A nation that upgrades with care and does not waver takes the structure with the most
/// points; one that wavers takes the second or the third.
pub proof fn law_upgrade_choice(rng: u64, ranks: Seq<(i128, i32)>)
    requires
        ranks.len() > 0,
    ensures
        ({
            let sorted = crate::lists::sort_with(
                ranks,
                crate::nation_structures::better_ranked(),
            );
            let choice = choice_of(rng, sorted).0;
            &&& choice is Some
            &&& exists|k: int| 0 <= k < ranks.len() && (#[trigger] ranks[k]).1 == choice->0
            &&& ranks.len() == 1 || !crate::prng::chance_drawn(rng, 2) ==> exists|k: int|
                0 <= k < ranks.len() && (#[trigger] ranks[k]).1 == choice->0 && forall|i: int|
                    0 <= i < ranks.len() ==> (#[trigger] ranks[i]).0 <= ranks[k].0
        }),
{
    let before = crate::nation_structures::better_ranked();
    let score = |r: (i128, i32)| r.0 as int;
    let sorted = crate::lists::sort_with(ranks, before);
    crate::lists::law_sorting_with(ranks, before, score);
    crate::prng::lemma_int_drawn(crate::prng::next_state(rng), 1, 3);
    let choice = choice_of(rng, sorted).0->0;
    let i = if ranks.len() == 1 || !crate::prng::chance_drawn(rng, 2) {
        0
    } else if ranks.len() >= 3 {
        crate::prng::int_drawn(crate::prng::next_state(rng), 1, 3)
    } else {
        1
    };
    assert(sorted[i].1 == choice);
    assert(sorted.contains(sorted[i]));
    let k = choose|k: int| 0 <= k < ranks.len() && ranks[k] == sorted[i];
    assert(ranks[k].1 == choice);
    if i == 0 {
        assert forall|j: int| 0 <= j < ranks.len() implies (#[trigger] ranks[j]).0
            <= ranks[k].0 by {
            assert(ranks.contains(ranks[j]));
            assert(sorted.contains(ranks[j]));
            let m = choose|m: int| 0 <= m < sorted.len() && sorted[m] == ranks[j];
            assert(score(sorted[0]) >= score(sorted[m]));
        }
    }
}

/// A structure has more points the more SAM launchers guard it, and one of a higher level
/// counts for more: ten points, and seven and a half for each level above the first.
pub proof fn law_sheltered(game: GameView, t: TileRef, sams: Seq<Unit>, sam: Unit)
    requires
        sam.level >= 1,
    ensures
        ({
            let before = game.sheltered(t, sams);
            let after = game.sheltered(t, sams.push(sam));
            let d = game.map.dist2(t, sam.tile);
            let scaled = sam.level + 5;
            let range = 150 * scaled - 480;
            if d * (scaled * scaled) <= range * range {
                after == before + 20 + 15 * (sam.level - 1)
            } else {
                after == before
            }
        }),
{
    assert(sams.push(sam).drop_last() =~= sams);
}

} // verus!
