//! What holds of how nations choose the targets of nukes and MIRVs.

use vstd::prelude::*;

use crate::config::Difficulty;
use crate::game::GameView;
use crate::mirv_ai::{city_gap, min_leader_cities, share_limit, team_share_limit};
use crate::nuke_ai::{remembered, structure_worth, NukeMemory};
use crate::nuke_volley::{flight_order, least_flight, longest_run, run_end, waits, Bomb};
use crate::ordered_tiles::TileRef;
use crate::state::{PlayerType, Unit};
use crate::unit_type::UnitType;

verus! {

/// What a nation thinks of a nuke at a tile.
pub open spec fn opinion(
    game: GameView,
    sid: u16,
    target: u16,
    nuke: UnitType,
    recent: Seq<(u32, TileRef, UnitType)>,
    t: TileRef,
) -> int {
    game.nuke_score(t, game.silo_tiles(sid), game.structures_of(target), nuke, recent)
}

/// A nation nukes a tile that it would nuke at all, and none of those that it thinks of has a
/// better score. It sends none only where all those have a score of minus one or less.
pub proof fn law_best_spot(
    game: GameView,
    sid: u16,
    target: u16,
    nuke: UnitType,
    recent: Seq<(u32, TileRef, UnitType)>,
    tiles: Seq<TileRef>,
)
    ensures
        ({
            let (best, score) = game.best_spot(sid, target, nuke, recent, tiles);
            match best {
                Some(t) => {
                    &&& tiles.contains(t)
                    &&& game.nukable(sid, target, t, nuke)
                    &&& score == opinion(game, sid, target, nuke, recent, t)
                    &&& score > -1000
                    &&& forall|x: TileRef| #[trigger]
                        tiles.contains(x) && game.nukable(sid, target, x, nuke) ==> opinion(
                            game,
                            sid,
                            target,
                            nuke,
                            recent,
                            x,
                        ) <= score
                },
                None => score == -1000 && forall|x: TileRef| #[trigger]
                    tiles.contains(x) && game.nukable(sid, target, x, nuke) ==> opinion(
                        game,
                        sid,
                        target,
                        nuke,
                        recent,
                        x,
                    ) <= -1000,
            }
        }),
    decreases tiles.len(),
{
    if tiles.len() > 0 {
        let front = tiles.drop_last();
        let last = tiles.last();
        law_best_spot(game, sid, target, nuke, recent, front);
        assert(tiles[tiles.len() - 1] == last);
        assert forall|x: TileRef| #[trigger] tiles.contains(x) implies x == last || front.contains(
            x,
        ) by {
            let i = choose|i: int| 0 <= i < tiles.len() && tiles[i] == x;
            if i < front.len() {
                assert(front[i] == x);
            }
        }
        assert forall|x: TileRef| #[trigger] front.contains(x) implies tiles.contains(x) by {
            let i = choose|i: int| 0 <= i < front.len() && front[i] == x;
            assert(tiles[i] == x);
        }
    }
}

/// A nation nukes only from a silo of its own, and only where all tiles on the frame around
/// the blast are the target's. Tough nations do not mind unowned land there, and in a team
/// not that of other enemies, but never hit a friend's on purpose.
pub proof fn law_nukable(game: GameView, sid: u16, target: u16, t: TileRef, nuke: UnitType)
    requires
        game.nukable(sid, target, t, nuke),
        !game.is_friendly(sid, target),
    ensures
        game.launch_site(sid, nuke, t) is Some,
        ({
            let rim = game.map.rim(t, game.config.magnitude(nuke).outer as int);
            forall|i: int|
                0 <= i < rim.len() ==> {
                    let owner = game.map.owner(#[trigger] rim[i]);
                    &&& owner != 0 ==> !game.is_friendly(sid, owner)
                    &&& !game.is_tough() ==> owner == target
                    &&& !game.config.is_team() ==> owner == target || owner == 0
                }
        }),
{
    let rim = game.map.rim(t, game.config.magnitude(nuke).outer as int);
    assert forall|i: int| 0 <= i < rim.len() implies ({
        let owner = game.map.owner(#[trigger] rim[i]);
        &&& owner != 0 ==> !game.is_friendly(sid, owner)
        &&& !game.is_tough() ==> owner == target
        &&& !game.config.is_team() ==> owner == target || owner == 0
    }) by {
        assert(game.fair_tile(sid, target)(rim[i]));
    }
}

/// Silos are worth most to hit, then cities, then ports and factories, then defense posts;
/// each counts once for every level, and only where the blast reaches it.
pub proof fn law_structures_hit(
    game: GameView,
    t: TileRef,
    outer: int,
    units: Seq<Unit>,
    u: Unit,
)
    ensures
        game.map.dist2(t, u.tile) > outer * outer ==> game.worth(t, outer, units.push(u))
            == game.worth(t, outer, units),
        game.map.dist2(t, u.tile) <= outer * outer ==> {
            let more = game.worth(t, outer, units.push(u)) - game.worth(t, outer, units);
            &&& u.unit_type == UnitType::MissileSilo ==> more == 50_000 * u.level
            &&& u.unit_type == UnitType::City ==> more == 25_000 * u.level
            &&& u.unit_type == UnitType::Port ==> more == 15_000 * u.level
            &&& u.unit_type == UnitType::Factory ==> more == 15_000 * u.level
            &&& u.unit_type == UnitType::DefensePost ==> more == 5_000 * u.level
            &&& u.unit_type == UnitType::SamLauncher ==> more == 0
        },
{
    assert(units.push(u).drop_last() =~= units);
}

/// The score of a tile goes up with what the blast hits there. From a silo farther away it
/// is no higher, but a fifth is kept. Every nuke sent there lately takes a million points. A
/// nation of medium difficulty shuns a tile that a SAM launcher guards.
pub proof fn law_nuke_score(
    game: GameView,
    t: TileRef,
    silos: Seq<TileRef>,
    structures: Seq<Unit>,
    nuke: UnitType,
    recent: Seq<(u32, TileRef, UnitType)>,
)
    requires
        silos.len() > 0,
        !(game.config.difficulty == Difficulty::Medium && crate::lists::some_where(
            structures,
            game.guarded(t),
        )),
        game.gain(t, structures, nuke) >= 0,
        forall|x: TileRef| #[trigger] silos.contains(x) ==> game.map.dist2(t, x) >= 0,
    ensures
        ({
            let gain = game.gain(t, structures, nuke);
            let score = game.nuke_score(t, silos, structures, nuke, recent);
            &&& score <= gain - 1_000_000_000 * game.repeats(t, recent)
            &&& score >= gain / 5 - 1_000_000_000 * game.repeats(t, recent)
        }),
        forall|again: (u32, TileRef, UnitType)| #[trigger]
            game.nuke_score(t, silos, structures, nuke, recent.push(again)) == game.nuke_score(
                t,
                silos,
                structures,
                nuke,
                recent,
            ) - (if game.map.dist2(t, again.1) <= game.config.magnitude(again.2).inner
                * game.config.magnitude(again.2).inner {
                1_000_000_000int
            } else {
                0
            }),
{
    crate::laws_building::law_nearest_pair(game.map, silos, seq![t]);
    let gain = game.gain(t, structures, nuke);
    match crate::game_land::nearest_pair(game.map, silos, seq![t]) {
        Some(pair) => {
            let n = 900_000_000 * game.map.dist2(t, pair.0);
            assert(silos.contains(pair.0));
            crate::parabola::lemma_root_exists(n);
        },
        None => {},
    }
    assert forall|again: (u32, TileRef, UnitType)| #[trigger]
        game.nuke_score(t, silos, structures, nuke, recent.push(again)) == game.nuke_score(
            t,
            silos,
            structures,
            nuke,
            recent,
        ) - (if game.map.dist2(t, again.1) <= game.config.magnitude(again.2).inner
            * game.config.magnitude(again.2).inner {
            1_000_000_000int
        } else {
            0
        }) by {
        lemma_repeats(game, t, recent, again);
    }
}

proof fn lemma_repeats(
    game: GameView,
    t: TileRef,
    recent: Seq<(u32, TileRef, UnitType)>,
    again: (u32, TileRef, UnitType),
)
    ensures
        game.repeats(t, recent.push(again)) == game.repeats(t, recent) + (if game.map.dist2(
            t,
            again.1,
        ) <= game.config.magnitude(again.2).inner * game.config.magnitude(again.2).inner {
            1int
        } else {
            0
        }),
{
    let more = recent.push(again);
    assert(more.drop_last() =~= recent);
    assert(more.last() == again);
    let (tick, spot, nuke) = more.last();
    assert(spot == again.1 && nuke == again.2);
}

/// The farther the nearest silo is, as the crow flies, the lower the score for the same gain,
/// by thirty points a tile as long as a fifth is left.
pub proof fn law_nuke_distance(game: GameView, gain: int, a: TileRef, b: TileRef, from: TileRef)
    requires
        0 <= game.map.dist2(a, from) <= game.map.dist2(b, from),
        gain >= 0,
    ensures
        game.discounted(gain, a, seq![from]) >= game.discounted(gain, b, seq![from]),
        game.discounted(gain, a, seq![from]) <= gain,
        game.map.dist2(a, from) == 0 ==> game.discounted(gain, a, seq![from]) == gain,
        game.map.dist2(a, from) == 10_000 && gain >= 10_000_000 ==> game.discounted(
            gain,
            a,
            seq![from],
        ) == gain - 3_000_000,
{
    lemma_one_pair(game, from, a);
    lemma_one_pair(game, from, b);
    let (m, n) = (900_000_000 * game.map.dist2(a, from), 900_000_000 * game.map.dist2(b, from));
    crate::parabola::lemma_root_exists(m);
    crate::parabola::lemma_root_exists(n);
    let (r, s) = (crate::parabola::root(m), crate::parabola::root(n));
    if r > s {
        assert((s + 1) * (s + 1) <= r * r) by (nonlinear_arith)
            requires
                0 <= s < r,
        ;
    }
    if m == 0 {
        assert(crate::parabola::is_root(0, 0));
        crate::parabola::lemma_root(0, 0);
    }
    if game.map.dist2(a, from) == 10_000 {
        assert(3_000_000int * 3_000_000 == 9_000_000_000_000);
        assert(crate::parabola::is_root(9_000_000_000_000, 3_000_000));
        crate::parabola::lemma_root(9_000_000_000_000, 3_000_000);
    }
}

proof fn lemma_one_pair(game: GameView, from: TileRef, t: TileRef)
    ensures
        crate::game_land::nearest_pair(game.map, seq![from], seq![t]) == Some((from, t)),
{
    crate::laws_building::law_nearest_pair(game.map, seq![from], seq![t]);
    assert(seq![from].contains(seq![from][0]));
    assert(seq![t].contains(seq![t][0]));
}

/// What is forgotten was sent more than six hundred ticks ago, and what is remembered is the
/// rest from the first on that was not.
pub proof fn law_remembered(recent: Seq<(u32, TileRef, UnitType)>, tick: u32)
    ensures
        ({
            let kept = remembered(recent, tick);
            let n = recent.len() - kept.len();
            &&& 0 <= n
            &&& kept == recent.skip(n)
            &&& forall|i: int| 0 <= i < n ==> (#[trigger] recent[i]).0 + 600 < tick
            &&& kept.len() > 0 ==> kept[0].0 + 600 >= tick
        }),
    decreases recent.len(),
{
    if recent.len() > 0 && recent[0].0 + 600 < tick {
        let rest = recent.skip(1);
        law_remembered(rest, tick);
        let kept = remembered(recent, tick);
        let n = recent.len() - kept.len();
        assert(rest.skip(n - 1) =~= recent.skip(n));
        assert forall|i: int| 0 <= i < n implies (#[trigger] recent[i]).0 + 600 < tick by {
            if i > 0 {
                assert(rest[i - 1] == recent[i]);
            }
        }
    } else {
        assert(recent.skip(0) =~= recent);
    }
}

/// Every atom bomb makes the next seem dearer by half, every hydrogen bomb by a quarter; what
/// was sent is remembered last.
pub proof fn law_recording(memory: NukeMemory, tick: u32, tile: TileRef)
    requires
        0 <= memory.atom_cost,
        memory.atom_cost * 3 / 2 <= i64::MAX,
        0 <= memory.hydrogen_cost,
        memory.hydrogen_cost * 5 / 4 <= i64::MAX,
    ensures
        ({
            let after = memory.recording(tick, tile, UnitType::AtomBomb);
            &&& after.atom_cost == memory.atom_cost * 3 / 2
            &&& after.hydrogen_cost == memory.hydrogen_cost
            &&& after.recent == memory.recent.push((tick, tile, UnitType::AtomBomb))
        }),
        ({
            let after = memory.recording(tick, tile, UnitType::HydrogenBomb);
            &&& after.hydrogen_cost == memory.hydrogen_cost * 5 / 4
            &&& after.atom_cost == memory.atom_cost
            &&& after.recent == memory.recent.push((tick, tile, UnitType::HydrogenBomb))
        }),
{
}

/// A nation sends a hydrogen bomb where it has the gold that one seems to cost, otherwise an
/// atom bomb, which those that prefer hydrogen bombs do only when they are swamped. What it
/// sends is allowed and seems affordable.
pub proof fn law_nuke_choice(game: GameView, sid: u16, memory: NukeMemory, hydro: bool)
    ensures
        match game.nuke_choice(sid, memory, hydro) {
            Some(nuke) => {
                &&& nuke == UnitType::HydrogenBomb || nuke == UnitType::AtomBomb
                &&& !game.config.disabled(nuke)
                &&& game.gold(sid) >= game.perceived_cost(sid, memory, nuke)
                &&& nuke == UnitType::AtomBomb ==> game.config.disabled(UnitType::HydrogenBomb)
                    || game.gold(sid) < game.perceived_cost(sid, memory, UnitType::HydrogenBomb)
                &&& nuke == UnitType::AtomBomb && hydro ==> game.swamped(sid)
            },
            None => {
                &&& game.config.disabled(UnitType::HydrogenBomb) || game.gold(sid)
                    < game.perceived_cost(sid, memory, UnitType::HydrogenBomb)
                &&& game.config.disabled(UnitType::AtomBomb) || game.gold(sid)
                    < game.perceived_cost(sid, memory, UnitType::AtomBomb) || (hydro
                    && !game.swamped(sid))
            },
        },
        game.config.disabled(UnitType::Mirv) || game.alive_ids().len() == 2
            ==> game.perceived_cost(sid, memory, UnitType::AtomBomb) == game.cost(
            sid,
            UnitType::AtomBomb,
        ),
        game.gold(sid) > game.cost(sid, UnitType::Mirv) + game.cost(sid, UnitType::HydrogenBomb)
            ==> game.perceived_cost(sid, memory, UnitType::AtomBomb) == game.cost(
            sid,
            UnitType::AtomBomb,
        ),
{
}

/// The living players are ranked by their tiles, those with the most first.
pub proof fn law_ranking(game: GameView)
    requires
        forall|id: u16| #[trigger] game.alive_ids().contains(id) ==> 0 <= game.tiles_owned(id)
            <= i64::MAX,
    ensures
        game.ranking().len() == game.alive_ids().len(),
        forall|id: u16| #[trigger] game.ranking().contains(id) == game.alive_ids().contains(id),
        forall|i: int, j: int|
            0 <= i <= j < game.ranking().len() ==> game.tiles_owned(#[trigger] game.ranking()[i])
                >= game.tiles_owned(#[trigger] game.ranking()[j]),
{
    let key = game.by_tiles();
    crate::lists::law_sorting_by(game.alive_ids(), key);
    assert forall|i: int, j: int| 0 <= i <= j < game.ranking().len() implies game.tiles_owned(
        #[trigger] game.ranking()[i],
    ) >= game.tiles_owned(#[trigger] game.ranking()[j]) by {
        assert(game.ranking().contains(game.ranking()[i]));
        assert(game.ranking().contains(game.ranking()[j]));
        assert(key(game.ranking()[i]).0 <= key(game.ranking()[j]).0);
    }
}

/// Whether nobody alive has more tiles than `id`.
pub open spec fn leads(game: GameView, id: u16) -> bool {
    game.alive_ids().contains(id) && forall|other: u16| #[trigger]
        game.alive_ids().contains(other) ==> game.tiles_owned(other) <= game.tiles_owned(id)
}

/// A tyrant is a leading player, no friend, that holds more than half of the land. Who wears
/// the crown is nuked where it leads by more than the difficulty allows; on the highest one
/// a nation that leads itself nukes the next.
pub proof fn law_leaders(game: GameView, sid: u16)
    requires
        forall|id: u16| #[trigger] game.alive_ids().contains(id) ==> 0 <= game.tiles_owned(id)
            <= i64::MAX,
    ensures
        game.tyrant(sid) is Some ==> {
            let t = game.tyrant(sid)->0;
            &&& leads(game, t)
            &&& t != sid
            &&& !game.is_friendly(sid, t)
            &&& game.tiles_owned(t) * 2 > game.clean_land()
        },
        game.crown_target(sid) is Some ==> {
            let t = game.crown_target(sid)->0;
            &&& game.alive_ids().contains(t)
            &&& !game.config.is_team()
            &&& !game.is_friendly(sid, t)
            &&& leads(game, t) || (game.config.difficulty == Difficulty::Impossible && leads(
                game,
                sid,
            ))
            &&& t != sid && !leads(game, sid) ==> game.tiles_owned(t) > game.tiles_owned(sid)
                && (game.config.difficulty == Difficulty::Easy ==> (game.tiles_owned(t)
                - game.tiles_owned(sid)) * 10 > game.clean_land() * 4) && (
            game.config.difficulty == Difficulty::Medium ==> (game.tiles_owned(t)
                - game.tiles_owned(sid)) * 10 > game.clean_land() * 3) && (
            game.config.difficulty == Difficulty::Hard ==> (game.tiles_owned(t) - game.tiles_owned(
                sid,
            )) * 10 > game.clean_land() * 2) && (game.config.difficulty == Difficulty::Impossible
                ==> (game.tiles_owned(t) - game.tiles_owned(sid)) * 10 > game.clean_land())
        },
{
    law_ranking(game);
    let ranking = game.ranking();
    if ranking.len() > 0 {
        assert(ranking.contains(ranking[0]));
        assert forall|other: u16| #[trigger] game.alive_ids().contains(
            other,
        ) implies game.tiles_owned(other) <= game.tiles_owned(ranking[0]) by {
            assert(ranking.contains(other));
            let k = choose|k: int| 0 <= k < ranking.len() && ranking[k] == other;
            assert(game.tiles_owned(ranking[0]) >= game.tiles_owned(ranking[k]));
        }
    }
    if ranking.len() > 1 {
        assert(ranking.contains(ranking[1]));
    }
}

/// The one chosen for its troop limit is a member, and no member has a larger one.
pub proof fn law_largest_limit(game: GameView, ids: Seq<u16>)
    requires
        ids.len() > 0,
    ensures
        ids.contains(game.largest_limit(ids)),
        forall|id: u16| #[trigger]
            ids.contains(id) ==> game.max_troops_milli(id) <= game.max_troops_milli(
                game.largest_limit(ids),
            ),
    decreases ids.len(),
{
    assert(ids[ids.len() - 1] == ids.last());
    if ids.len() > 1 {
        let front = ids.drop_last();
        law_largest_limit(game, front);
        let i = choose|i: int| 0 <= i < front.len() && front[i] == game.largest_limit(front);
        assert(ids[i] == game.largest_limit(front));
    }
    assert forall|id: u16| #[trigger] ids.contains(id) implies game.max_troops_milli(id)
        <= game.max_troops_milli(game.largest_limit(ids)) by {
        let i = choose|i: int| 0 <= i < ids.len() && ids[i] == id;
        if ids.len() > 1 && i < ids.len() - 1 {
            assert(ids.drop_last()[i] == id);
            assert(ids.drop_last().contains(id));
        } else if ids.len() == 1 {
            assert(id == ids[0]);
        }
    }
}

/// Whether `sid` may nuke a player for its density: a foe that is no bot, with land and ten
/// structure levels or more.
pub open spec fn is_dense_foe(game: GameView, sid: u16, id: u16) -> bool {
    &&& id != sid
    &&& !game.of_type(id, PlayerType::Bot)
    &&& !game.is_friendly(sid, id)
    &&& game.tiles_owned(id) > 0
    &&& game.structure_levels(id) >= crate::nuke_targets::MIN_LEVEL_SUM_FOR_HIGH_DENSITY_NUKE
}

/// The densest player is a foe with more than one structure level on so many tiles, and no
/// such foe has more levels for its tiles.
pub proof fn law_densest(game: GameView, sid: u16, ids: Seq<u16>)
    requires
        forall|id: u16| #[trigger] ids.contains(id) ==> game.tiles_owned(id) >= 0,
    ensures
        ({
            let (best, levels, tiles) = game.densest(sid, ids);
            &&& tiles > 0
            &&& levels > 0
            &&& levels * crate::nuke_targets::HIGH_DENSITY_TILES >= tiles
            &&& best is Some ==> ids.contains(best->0) && is_dense_foe(game, sid, best->0)
                && levels == game.structure_levels(best->0) && tiles == game.tiles_owned(best->0)
                && levels * crate::nuke_targets::HIGH_DENSITY_TILES > tiles
            &&& best is None ==> levels == 1 && tiles == crate::nuke_targets::HIGH_DENSITY_TILES
            &&& forall|id: u16| #[trigger]
                ids.contains(id) && is_dense_foe(game, sid, id) ==> game.structure_levels(id)
                    * tiles <= levels * game.tiles_owned(id)
        }),
    decreases ids.len(),
{
    if ids.len() > 0 {
        let front = ids.drop_last();
        let last = ids.last();
        assert(ids[ids.len() - 1] == last);
        assert(ids.contains(last));
        assert forall|id: u16| #[trigger] front.contains(id) implies ids.contains(id) by {
            let i = choose|i: int| 0 <= i < front.len() && front[i] == id;
            assert(ids[i] == id);
        }
        assert forall|id: u16| #[trigger] ids.contains(id) implies id == last || front.contains(
            id,
        ) by {
            let i = choose|i: int| 0 <= i < ids.len() && ids[i] == id;
            if i < front.len() {
                assert(front[i] == id);
            }
        }
        law_densest(game, sid, front);
        let (best, levels, tiles) = game.densest(sid, front);
        let (l, t) = (game.structure_levels(last), game.tiles_owned(last));
        let h = crate::nuke_targets::HIGH_DENSITY_TILES as int;
        if is_dense_foe(game, sid, last) && l * tiles > levels * t {
            assert(l * h > t) by (nonlinear_arith)
                requires
                    l * tiles > levels * t,
                    levels * h >= tiles,
                    tiles > 0,
                    levels > 0,
                    l > 0,
                    t > 0,
                    h > 0,
            ;
            assert forall|id: u16| #[trigger] ids.contains(id) && is_dense_foe(
                game,
                sid,
                id,
            ) implies game.structure_levels(id) * t <= l * game.tiles_owned(id) by {
                let (a, b) = (game.structure_levels(id), game.tiles_owned(id));
                if front.contains(id) {
                    assert(a * tiles <= levels * b);
                    assert(a * t <= l * b) by (nonlinear_arith)
                        requires
                            a * tiles <= levels * b,
                            levels * t < l * tiles,
                            tiles > 0,
                            levels > 0,
                            a > 0,
                            b > 0,
                            t > 0,
                            l > 0,
                    ;
                } else {
                    assert(a == l && b == t);
                }
            }
        }
    }
}

/// Whether a player may be the target of a MIRV of `sid`.
pub open spec fn is_fair_game(game: GameView, sid: u16, id: u16) -> bool {
    game.is_alive(id) && id != sid && !game.of_type(id, PlayerType::Bot) && !game.on_same_team(
        sid,
        id,
    )
}

/// Whether a MIRV of `id` flies to the land of `sid`.
pub open spec fn has_sent(game: GameView, id: u16, sid: u16) -> bool {
    exists|i: int|
        0 <= i < game.units.len() && (#[trigger] game.units[i]).owner == id
            && game.units[i].unit_type == UnitType::Mirv && game.units[i].target_tile is Some
            && game.map.owner(game.units[i].target_tile->0) == sid && sid != 0
}

/// A nation answers a MIRV first: it aims at one of those who sent one at it, and none of
/// them has more tiles. It answers nobody only where nobody sent one.
pub proof fn law_counter_target(game: GameView, sid: u16)
    requires
        forall|id: u16| #[trigger] game.ids().contains(id) ==> 0 <= game.tiles_owned(id)
            <= i64::MAX,
    ensures
        match game.counter_target(sid) {
            Some(t) => {
                &&& is_fair_game(game, sid, t)
                &&& has_sent(game, t, sid)
                &&& forall|id: u16| #[trigger]
                    game.ids().contains(id) && is_fair_game(game, sid, id) && has_sent(game, id, sid)
                        ==> game.tiles_owned(id) <= game.tiles_owned(t)
            },
            None => forall|id: u16| #[trigger]
                game.ids().contains(id) && is_fair_game(game, sid, id) ==> !has_sent(game, id, sid),
        },
{
    let key = game.by_tiles();
    let fair = game.mirv_targets(sid);
    let senders = fair.filter(game.mirv_sender(sid));
    crate::lists::lemma_filter_members(game.ids(), game.mirv_target(sid));
    crate::lists::lemma_filter_members(fair, game.mirv_sender(sid));
    crate::lists::law_sorting_by(senders, key);
    let sorted = crate::lists::payloads(crate::lists::sort_by_key(senders.map_values(key)));
    assert forall|id: u16| #[trigger] senders.contains(id) == (game.ids().contains(id)
        && is_fair_game(game, sid, id) && has_sent(game, id, sid)) by {
        assert(senders.contains(id) == (fair.contains(id) && game.mirv_sender(sid)(id)));
        let p = game.inbound_mirv(id, sid);
        if game.mirv_sender(sid)(id) {
            let i = choose|i: int| 0 <= i < game.units.len() && p(#[trigger] game.units[i]);
            assert(game.units[i].owner == id);
        }
        if has_sent(game, id, sid) {
            let i = choose|i: int|
                0 <= i < game.units.len() && (#[trigger] game.units[i]).owner == id
                    && game.units[i].unit_type == UnitType::Mirv && game.units[i].target_tile
                    is Some && game.map.owner(game.units[i].target_tile->0) == sid && sid != 0;
            assert(p(game.units[i]));
        }
    }
    if sorted.len() > 0 {
        let t = sorted[0];
        assert(sorted.contains(t));
        assert(senders.contains(t));
        assert forall|id: u16| #[trigger] game.ids().contains(id) && is_fair_game(game, sid, id)
            && has_sent(game, id, sid) implies game.tiles_owned(id) <= game.tiles_owned(t) by {
            assert(senders.contains(id));
            assert(sorted.contains(id));
            let k = choose|k: int| 0 <= k < sorted.len() && sorted[k] == id;
            assert(key(sorted[0]).0 <= key(sorted[k]).0);
        }
    } else {
        assert forall|id: u16| #[trigger] game.ids().contains(id) && is_fair_game(
            game,
            sid,
            id,
        ) implies !has_sent(game, id, sid) by {
            if has_sent(game, id, sid) {
                assert(senders.contains(id));
            }
        }
    }
}

/// Who is kept from winning holds the share of the land that the difficulty sets, and no
/// other does with more.
pub proof fn law_worst_threat(game: GameView, ids: Seq<u16>, difficulty: Difficulty)
    ensures
        ({
            let (worst, most) = game.worst_threat(ids, difficulty);
            &&& most >= 0
            &&& worst is Some ==> ids.contains(worst->0) && most == game.threat(
                worst->0,
                difficulty,
            ) && most > 0
            &&& worst is None ==> most == 0
            &&& forall|id: u16| #[trigger] ids.contains(id) ==> game.threat(id, difficulty) <= most
        }),
    decreases ids.len(),
{
    if ids.len() > 0 {
        let front = ids.drop_last();
        let last = ids.last();
        law_worst_threat(game, front, difficulty);
        assert(ids[ids.len() - 1] == last);
        assert forall|id: u16| #[trigger] front.contains(id) implies ids.contains(id) by {
            let i = choose|i: int| 0 <= i < front.len() && front[i] == id;
            assert(ids[i] == id);
        }
        assert forall|id: u16| #[trigger] ids.contains(id) implies id == last || front.contains(
            id,
        ) by {
            let i = choose|i: int| 0 <= i < ids.len() && ids[i] == id;
            if i < front.len() {
                assert(front[i] == id);
            }
        }
    }
}

/// A player without a team threatens to win with three quarters of the land on the easiest
/// difficulty and with two fifths on the hardest; less is no threat.
pub proof fn law_threat(game: GameView, sid: u16)
    requires
        !game.teamed(sid, sid),
        game.tiles_owned(sid) >= 0,
    ensures
        game.threat(sid, Difficulty::Easy) == (if game.tiles_owned(sid) * 4 >= game.land() * 3 {
            game.tiles_owned(sid)
        } else {
            0
        }),
        game.threat(sid, Difficulty::Medium) == (if game.tiles_owned(sid) * 20 >= game.land() * 13 {
            game.tiles_owned(sid)
        } else {
            0
        }),
        game.threat(sid, Difficulty::Hard) == (if game.tiles_owned(sid) * 20 >= game.land() * 11 {
            game.tiles_owned(sid)
        } else {
            0
        }),
        game.threat(sid, Difficulty::Impossible) == (if game.tiles_owned(sid) * 5 >= game.land()
            * 2 {
            game.tiles_owned(sid)
        } else {
            0
        }),
{
}

/// Who steamrolls has more cities than the difficulty allows, and nobody alive has more; it
/// is ahead of every other by the gap that the difficulty sets.
pub proof fn law_steamroll(game: GameView, sid: u16, difficulty: Difficulty)
    requires
        game.steamroll_target(sid, difficulty) is Some,
        forall|id: u16| #[trigger] game.alive_ids().contains(id) ==> game.cities(id) >= 0,
        game.alive_ids().no_duplicates(),
    ensures
        ({
            let t = game.steamroll_target(sid, difficulty)->0;
            &&& is_fair_game(game, sid, t)
            &&& game.alive_ids().contains(t)
            &&& game.cities(t) > (match difficulty {
                Difficulty::Easy => 20int,
                Difficulty::Impossible => 8,
                _ => 10,
            })
            &&& forall|id: u16| #[trigger]
                game.alive_ids().contains(id) && id != t ==> game.cities(t) * 100 >= game.cities(
                    id,
                ) * (match difficulty {
                    Difficulty::Easy => 200int,
                    Difficulty::Hard => 125,
                    Difficulty::Impossible => 115,
                    _ => 150,
                })
        }),
{
    let ids = game.alive_ids();
    let before = game.more_cities();
    let score = |id: u16| game.cities(id);
    let ranking = game.by_cities();
    crate::lists::law_sorting_with(ids, before, score);
    let t = ranking[0];
    assert(ranking.contains(t));
    let gap = city_gap(difficulty);
    assert forall|id: u16| #[trigger] ids.contains(id) && id != t implies game.cities(t) * 100
        >= game.cities(id) * gap by {
        assert(ranking.contains(id));
        let k = choose|k: int| 0 <= k < ranking.len() && ranking[k] == id;
        assert(score(ranking[1]) >= score(ranking[k]));
        let (a, b) = (game.cities(ranking[1]), game.cities(id));
        assert(a * gap >= b * gap) by (nonlinear_arith)
            requires
                a >= b,
                gap > 0,
        ;
    }
}

/// A nation that chose a target for a MIRV chose one that it may hit and that was spared for
/// three hundred ticks; it chooses none only where neither answer, threat nor lead gives one.
pub proof fn law_mirv_choice(game: GameView, sid: u16)
    ensures
        ({
            let counter = game.counter_target(sid);
            let denial = game.denial_target(sid, game.config.difficulty);
            let lead = game.steamroll_target(sid, game.config.difficulty);
            match game.mirv_choice(sid) {
                Some(t) => {
                    &&& forall|i: int|
                        0 <= i < game.mirv_hits.len() && (#[trigger] game.mirv_hits[i]).target == t
                            ==> game.tick - game.mirv_hits[i].tick >= 300
                    &&& counter == Some(t) || denial == Some(t) || lead == Some(t)
                    &&& counter is Some && !game.recently_mirved(counter->0) ==> counter == Some(t)
                },
                None => {
                    &&& counter is Some ==> game.recently_mirved(counter->0)
                    &&& denial is Some ==> game.recently_mirved(denial->0)
                    &&& lead is Some ==> game.recently_mirved(lead->0)
                },
            }
        }),
{
}

/// A volley takes more bombs than the SAM launchers that reach the tile can shoot down
/// together, by a fifth.
pub proof fn law_volley_size(game: GameView, sid: u16, tile: TileRef)
    requires
        crate::game_units::level_sum(game.guards(sid, tile)) >= 0,
    ensures
        game.volley_size(sid, tile) > crate::game_units::level_sum(game.guards(sid, tile)),
        10 * game.volley_size(sid, tile) <= 12 * (crate::game_units::level_sum(
            game.guards(sid, tile),
        ) + 1),
        10 * game.volley_size(sid, tile) > 12 * (crate::game_units::level_sum(
            game.guards(sid, tile),
        ) + 1) - 10,
{
}

proof fn lemma_run(bombs: Seq<(usize, usize)>, start: int, end: int, spread: int)
    requires
        0 <= start <= end <= bombs.len(),
        forall|i: int| start <= i < end ==> (#[trigger] bombs[i]).1 - bombs[start].1 <= spread,
    ensures
        ({
            let stop = run_end(bombs, start, end, spread);
            &&& end <= stop <= bombs.len()
            &&& forall|i: int| start <= i < stop ==> (#[trigger] bombs[i]).1 - bombs[start].1
                <= spread
            &&& stop < bombs.len() ==> bombs[stop].1 - bombs[start].1 > spread
        }),
    decreases bombs.len() - end,
{
    if end < bombs.len() && bombs[end].1 - bombs[start].1 <= spread {
        lemma_run(bombs, start, end + 1, spread);
    }
}

/// Whether the bombs from `start` on, `length` of them, arrive within `spread`, where they
/// are in the order of their flight times.
pub open spec fn is_run(bombs: Seq<(usize, usize)>, start: int, length: int, spread: int) -> bool {
    &&& 0 <= start
    &&& 0 <= length
    &&& start + length <= bombs.len()
    &&& forall|i: int|
        start <= i < start + length ==> (#[trigger] bombs[i]).1 - bombs[start].1 <= spread
}

/// The longest run is a run, and no run that begins where it was looked for is longer.
pub proof fn law_longest_run(bombs: Seq<(usize, usize)>, spread: int, n: int)
    requires
        0 <= n <= bombs.len(),
        spread >= 0,
    ensures
        ({
            let (start, length) = longest_run(bombs, spread, n);
            &&& is_run(bombs, start, length, spread)
            &&& forall|s: int, l: int| #[trigger]
                is_run(bombs, s, l, spread) && s < n ==> l <= length
        }),
    decreases n,
{
    if n > 0 {
        law_longest_run(bombs, spread, n - 1);
        lemma_run(bombs, n - 1, n - 1, spread);
        let stop = run_end(bombs, n - 1, n - 1, spread);
        let (start, length) = longest_run(bombs, spread, n);
        assert forall|s: int, l: int| #[trigger] is_run(bombs, s, l, spread) && s < n implies l
            <= length by {
            if s == n - 1 && s + l > stop {
                assert(bombs[stop].1 - bombs[s].1 <= spread);
            }
        }
    }
}

/// In the order of flight times none comes before one that flies shorter.
pub proof fn law_flight_order(bombs: Seq<(usize, usize)>)
    requires
        forall|i: int| 0 <= i < bombs.len() ==> (#[trigger] bombs[i]).1 <= i64::MAX,
    ensures
        flight_order(bombs).len() == bombs.len(),
        flight_order(bombs).to_multiset() == bombs.to_multiset(),
        forall|i: int, j: int|
            0 <= i <= j < flight_order(bombs).len() ==> (#[trigger] flight_order(bombs)[i]).1 <= (
            #[trigger] flight_order(bombs)[j]).1,
{
    let key = crate::nuke_volley::by_flight();
    let sorted = flight_order(bombs);
    crate::lists::law_sorting_by(bombs, key);
    assert forall|i: int, j: int| 0 <= i <= j < sorted.len() implies (#[trigger] sorted[i]).1 <= (
    #[trigger] sorted[j]).1 by {
        assert(key(sorted[i]).0 <= key(sorted[j]).0);
        assert(sorted.contains(sorted[i]) && sorted.contains(sorted[j]));
        let a = choose|a: int| 0 <= a < bombs.len() && bombs[a] == sorted[i];
        let b = choose|b: int| 0 <= b < bombs.len() && bombs[b] == sorted[j];
        assert(bombs[a].1 <= i64::MAX && bombs[b].1 <= i64::MAX);
    }
}

/// The shortest flight is one of the flights, and none is shorter.
pub proof fn law_least_flight(bombs: Seq<(usize, usize)>)
    requires
        bombs.len() > 0,
    ensures
        forall|i: int| 0 <= i < bombs.len() ==> least_flight(bombs) <= (#[trigger] bombs[i]).1,
        exists|i: int| 0 <= i < bombs.len() && least_flight(bombs) == (#[trigger] bombs[i]).1,
    decreases bombs.len(),
{
    let n = bombs.len() - 1;
    assert(bombs[n] == bombs.last());
    if bombs.len() > 1 {
        let front = bombs.drop_last();
        law_least_flight(front);
        let k = choose|k: int| 0 <= k < front.len() && least_flight(front) == (
        #[trigger] front[k]).1;
        assert(bombs[k] == front[k]);
        assert forall|i: int| 0 <= i < bombs.len() implies least_flight(bombs) <= (
        #[trigger] bombs[i]).1 by {
            if i < front.len() {
                assert(front[i] == bombs[i]);
            }
        }
    } else {
        assert(bombs[0].1 == least_flight(bombs));
    }
}

/// A SAM launcher of the target is struck first that no other of its has a lower level than,
/// of those that a volley can overwhelm.
pub proof fn law_weakest_sam_first(game: GameView, sid: u16, target: u16)
    requires
        crate::lists::first_where(game.sams_by_level(target), game.volley_target(sid)) is Some,
    ensures
        ({
            let sams = game.units_of(target, UnitType::SamLauncher);
            let struck = crate::lists::first_where(
                game.sams_by_level(target),
                game.volley_target(sid),
            )->0;
            &&& sams.contains(struck)
            &&& game.volley_target(sid)(struck)
            &&& forall|u: Unit| #[trigger]
                sams.contains(u) && game.volley_target(sid)(u) ==> struck.level <= u.level
        }),
{
    let key = GameView::by_level();
    let sams = game.units_of(target, UnitType::SamLauncher);
    let sorted = game.sams_by_level(target);
    let p = game.volley_target(sid);
    crate::lists::law_sorting_by(sams, key);
    crate::lists::lemma_first_where(sorted, p);
    let at = crate::lists::lemma_first_where_at(sorted, p);
    let struck = sorted[at];
    assert(sorted.contains(struck));
    assert forall|u: Unit| #[trigger] sams.contains(u) && p(u) implies struck.level <= u.level by {
        assert(sorted.contains(u));
        let k = choose|k: int| 0 <= k < sorted.len() && sorted[k] == u;
        assert(at <= k);
        assert(key(sorted[at]).0 <= key(sorted[k]).0);
    }
}

/// The silo that is upgraded for a volley can be, is below the highest level that nations go
/// to, and none of those is protected better.
pub proof fn law_silo_to_upgrade(game: GameView, sid: u16, silos: Seq<Unit>)
    ensures
        ({
            let (best, most) = game.silo_to_upgrade(sid, silos);
            let sams = game.units_of(sid, UnitType::SamLauncher);
            &&& most >= -1
            &&& best is None ==> most == -1
            &&& best is Some ==> exists|k: int|
                0 <= k < silos.len() && (#[trigger] silos[k]).id == best->0 && silos[k].level
                    < crate::nuke_volley::MAX_NATION_SILO_UPGRADE_LEVEL && game.can_upgrade(
                    sid,
                    silos[k].id,
                ) && most == game.protection(silos[k].tile, sams)
            &&& forall|i: int|
                0 <= i < silos.len() && (#[trigger] silos[i]).level
                    < crate::nuke_volley::MAX_NATION_SILO_UPGRADE_LEVEL && game.can_upgrade(
                    sid,
                    silos[i].id,
                ) ==> game.protection(silos[i].tile, sams) <= most
        }),
    decreases silos.len(),
{
    if silos.len() > 0 {
        let front = silos.drop_last();
        let n = silos.len() - 1;
        let sams = game.units_of(sid, UnitType::SamLauncher);
        law_silo_to_upgrade(game, sid, front);
        assert(silos[n] == silos.last());
        let (best, most) = game.silo_to_upgrade(sid, front);
        if best is Some {
            let k = choose|k: int|
                0 <= k < front.len() && (#[trigger] front[k]).id == best->0 && front[k].level
                    < crate::nuke_volley::MAX_NATION_SILO_UPGRADE_LEVEL && game.can_upgrade(
                    sid,
                    front[k].id,
                ) && most == game.protection(front[k].tile, sams);
            assert(silos[k] == front[k]);
        }
        assert forall|i: int| 0 <= i < front.len() implies front[i] == #[trigger] silos[i] by {}
    }
}

} // verus!
