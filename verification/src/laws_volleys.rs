//! What holds of volleys of bombs, and of whom nations bear a grudge.

use vstd::prelude::*;

use crate::game::GameView;
use crate::nuke_volley::{bombs_of, least_flight, through, waits, Bay, Bomb};
use crate::ordered_tiles::TileRef;
use crate::state::{Relation, TargetMark};
use crate::unit_type::UnitType;

verus! {

/// The bombs that get through are those that nobody shoots down, each under its number and
/// with its flight time.
pub proof fn law_through(bombs: Seq<Bomb>, n: int, b: (usize, usize))
    requires
        0 <= n <= bombs.len(),
        bombs.len() <= usize::MAX,
    ensures
        through(bombs, n).contains(b) == (b.0 < n && !bombs[b.0 as int].1 && bombs[b.0 as int].0
            == b.1),
    decreases n,
{
    if n > 0 {
        let held = through(bombs, n - 1);
        let all = through(bombs, n);
        law_through(bombs, n - 1, b);
        let newest = ((n - 1) as usize, bombs[n - 1].0);
        if !bombs[n - 1].1 {
            assert(all == held.push(newest));
            assert(all[held.len() as int] == newest);
            if held.contains(b) {
                let k = choose|k: int| 0 <= k < held.len() && held[k] == b;
                assert(all[k] == b);
            }
            if all.contains(b) && !held.contains(b) {
                let k = choose|k: int| 0 <= k < all.len() && all[k] == b;
                if k < held.len() {
                    assert(held[k] == b);
                }
            }
        }
    }
}

/// The bays of a volley stand nearest first, and each is a finished silo of the nation with as
/// many bombs as it has missiles ready.
pub proof fn law_bays(game: GameView, sid: u16, tile: TileRef, ignored: Seq<i32>)
    requires
        forall|a: TileRef, b: TileRef| 0 <= #[trigger] game.map.manhattan(a, b) <= i64::MAX,
        forall|i: int| 0 <= i < game.units.len() ==> (#[trigger] game.units[i]).level <= 10_000,
    ensures
        ({
            let bays = game.bays(sid, tile, ignored);
            &&& forall|i: int, j: int|
                0 <= i <= j < bays.len() ==> game.map.manhattan((#[trigger] bays[i]).tile, tile)
                    <= game.map.manhattan((#[trigger] bays[j]).tile, tile)
            &&& forall|i: int|
                0 <= i < bays.len() ==> is_some_silo(game, sid, #[trigger] bays[i])
        }),
{
    let p = game.open_bay(sid, tile);
    let f = game.bay(sid, tile, ignored);
    let silos = game.units.filter(p);
    let keyed = silos.map_values(f);
    let sorted = crate::lists::sort_by_key(keyed);
    let bays = game.bays(sid, tile, ignored);
    crate::lists::lemma_filter_members(game.units, p);
    crate::lists::law_sorting(keyed);
    assert forall|e: (i64, Bay)| #[trigger] sorted.contains(e) implies exists|k: int|
        0 <= k < game.units.len() && p(#[trigger] game.units[k]) && e == f(game.units[k]) by {
        lemma_same(keyed, sorted, e);
        let m = choose|m: int| 0 <= m < keyed.len() && keyed[m] == e;
        assert(silos.contains(silos[m]));
        let k = choose|k: int| 0 <= k < game.units.len() && game.units[k] == silos[m];
        assert(p(game.units[k]) && e == f(game.units[k]));
    }
    assert forall|i: int, j: int| 0 <= i <= j < bays.len() implies game.map.manhattan(
        (#[trigger] bays[i]).tile,
        tile,
    ) <= game.map.manhattan((#[trigger] bays[j]).tile, tile) by {
        assert(sorted.contains(sorted[i]) && sorted.contains(sorted[j]));
        assert(bays[i] == sorted[i].1 && bays[j] == sorted[j].1);
        assert(sorted[i].0 <= sorted[j].0);
    }
    assert forall|i: int| 0 <= i < bays.len() implies is_some_silo(
        game,
        sid,
        #[trigger] bays[i],
    ) by {
        assert(sorted.contains(sorted[i]));
        let k = choose|k: int|
            0 <= k < game.units.len() && p(#[trigger] game.units[k]) && sorted[i] == f(
                game.units[k],
            );
        assert(bays[i] == sorted[i].1);
        assert(game.units[k].owner == sid);
    }
}

/// Whether a bay is a finished silo of `sid` with as many bombs as it has missiles ready, one
/// at least.
pub open spec fn is_some_silo(game: GameView, sid: u16, bay: Bay) -> bool {
    exists|k: int|
        0 <= k < game.units.len() && (#[trigger] game.units[k]).owner == sid
            && game.units[k].unit_type == UnitType::MissileSilo
            && !game.units[k].under_construction && bay.tile == game.units[k].tile && bay.slots
            == game.units[k].level - game.launches_of(game.units[k].id).len() && bay.slots > 0
}

proof fn lemma_same(a: Seq<(i64, Bay)>, b: Seq<(i64, Bay)>, e: (i64, Bay))
    requires
        a.to_multiset() == b.to_multiset(),
        b.contains(e),
    ensures
        a.contains(e),
{
    broadcast use vstd::seq_lib::group_to_multiset_ensures;

    assert(b.to_multiset().count(e) > 0);
    assert(a.to_multiset().count(e) > 0);
}

/// A volley holds the bombs of its bays, bay by bay, as many as each has.
pub proof fn law_bombs(bays: Seq<Bay>, bay: Bay)
    ensures
        bombs_of(bays.push(bay)).len() == bombs_of(bays).len() + bay.slots,
        forall|i: int|
            0 <= i < bombs_of(bays).len() ==> bombs_of(bays.push(bay))[i] == #[trigger] bombs_of(
                bays,
            )[i],
        forall|i: int|
            bombs_of(bays).len() <= i < bombs_of(bays.push(bay)).len() ==> (#[trigger] bombs_of(
                bays.push(bay),
            )[i]) == (bay.flight, bay.interceptable),
{
    assert(bays.push(bay).drop_last() =~= bays);
}

/// The bombs that are chosen wait so that they arrive one after another, an interval apart, the
/// first when the quickest could; the others do not wait.
pub proof fn law_waits(bombs: Seq<Bomb>, chosen: Seq<(usize, usize)>, interval: int, n: int)
    requires
        0 <= n <= bombs.len(),
        forall|i: int, j: int|
            0 <= i < j < chosen.len() ==> (#[trigger] chosen[i]).0 < (#[trigger] chosen[j]).0,
    ensures
        ({
            let (all, k) = waits(bombs, chosen, interval, n);
            &&& all.len() == n
            &&& 0 <= k <= chosen.len()
            &&& forall|j: int| 0 <= j < k ==> (#[trigger] chosen[j]).0 < n
            &&& forall|j: int| k <= j < chosen.len() ==> (#[trigger] chosen[j]).0 >= n
            &&& forall|j: int|
                0 <= j < k && 0 <= least_flight(chosen) + j * interval - bombs[(
                #[trigger] chosen[j]).0 as int].0 <= u32::MAX ==> all[chosen[j].0 as int]
                    + bombs[chosen[j].0 as int].0 == least_flight(chosen) + j * interval
            &&& forall|i: int|
                0 <= i < n && (forall|j: int|
                    0 <= j < chosen.len() ==> (#[trigger] chosen[j]).0 != i) ==> #[trigger] all[i]
                    == 0
        }),
    decreases n,
{
    if n > 0 {
        law_waits(bombs, chosen, interval, n - 1);
        let (held, k) = waits(bombs, chosen, interval, n - 1);
        let (all, more) = waits(bombs, chosen, interval, n);
        assert forall|i: int| 0 <= i < held.len() implies all[i] == #[trigger] held[i] by {}
        if k < chosen.len() && chosen[k].0 == n - 1 {
            assert forall|j: int| k + 1 <= j < chosen.len() implies (#[trigger] chosen[j]).0 >= n by {
                assert(chosen[k].0 < chosen[j].0);
            }
        } else {
            assert forall|j: int| k <= j < chosen.len() implies (#[trigger] chosen[j]).0 >= n by {
                assert(chosen[k].0 >= n - 1);
                if j > k {
                    assert(chosen[k].0 < chosen[j].0);
                }
            }
        }
        assert forall|j: int|
            0 <= j < more && 0 <= least_flight(chosen) + j * interval - bombs[(
            #[trigger] chosen[j]).0 as int].0 <= u32::MAX implies all[chosen[j].0 as int]
            + bombs[chosen[j].0 as int].0 == least_flight(chosen) + j * interval by {
            if j < k {
                assert(chosen[j].0 < n - 1);
                assert(all[chosen[j].0 as int] == held[chosen[j].0 as int]);
            }
        }
        assert forall|i: int|
            0 <= i < n && (forall|j: int|
                0 <= j < chosen.len() ==> (#[trigger] chosen[j]).0 != i) implies #[trigger] all[i]
            == 0 by {
            if i < n - 1 {
                assert(held[i] == 0);
            }
        }
    }
}

/// For an ally that is a friend a nation nukes whom that one marked, if it is a foe of its own.
pub proof fn law_favor(game: GameView, sid: u16, ally: u16)
    ensures
        match game.favor(sid, ally) {
            Some(t) => {
                &&& game.relation_value(sid, ally) >= 5_000
                &&& t != sid && !game.is_friendly(sid, t)
                &&& exists|i: int|
                    0 <= i < game.targets.len() && (#[trigger] game.targets[i]).from == ally
                        && game.targets[i].target == t
            },
            None => game.relation_value(sid, ally) < 5_000 || forall|i: int|
                0 <= i < game.targets.len() && (#[trigger] game.targets[i]).from == ally
                    ==> game.targets[i].target == sid || game.is_friendly(
                    sid,
                    game.targets[i].target,
                ),
        },
{
    let p = GameView::marked_by(ally);
    let f = |m: TargetMark| m.target;
    let kept = game.targets.filter(p);
    let marks = game.marks_of(ally);
    assert(marks =~= kept.map_values(f));
    crate::lists::lemma_filter_members(game.targets, p);
    crate::lists::lemma_first_where(marks, game.foe_of(sid));
    match game.favor(sid, ally) {
        Some(t) => {
            let k = crate::lists::lemma_first_where_at(marks, game.foe_of(sid));
            assert(marks[k] == t);
            assert(kept.contains(kept[k]));
            let i = choose|i: int| 0 <= i < game.targets.len() && game.targets[i] == kept[k];
            assert(game.targets[i].from == ally && game.targets[i].target == t);
        },
        None => {
            if game.relation_value(sid, ally) >= 5_000 {
                assert forall|i: int|
                    0 <= i < game.targets.len() && (#[trigger] game.targets[i]).from
                        == ally implies game.targets[i].target == sid || game.is_friendly(
                    sid,
                    game.targets[i].target,
                ) by {
                    assert(p(game.targets[i]) && game.targets.contains(game.targets[i]));
                    assert(kept.contains(game.targets[i]));
                    let k = choose|k: int| 0 <= k < kept.len() && kept[k] == game.targets[i];
                    assert(marks[k] == game.targets[i].target);
                    assert(!game.foe_of(sid)(marks[k]));
                }
            }
        },
    }
}

proof fn lemma_favors(game: GameView, sid: u16, allies: Seq<u16>)
    ensures
        game.favors(sid, allies) is Some ==> !game.is_friendly(sid, game.favors(sid, allies)->0),
    decreases allies.len(),
{
    if allies.len() > 0 {
        law_favor(game, sid, allies[0]);
        lemma_favors(game, sid, allies.skip(1));
    }
}

/// Nobody that a nation nukes for a grudge, for its lead or for its team is a friend. Whom it
/// hates it nukes only where that one's troop limit is more than half of its own.
pub proof fn law_grudge_target(game: GameView, rng: u64, sid: u16)
    requires
        forall|id: u16| #[trigger] game.alive_ids().contains(id) ==> 0 <= game.tiles_owned(id)
            <= i64::MAX,
    ensures
        game.grudge_target(rng, sid).0 is Some ==> !game.is_friendly(
            sid,
            game.grudge_target(rng, sid).0->0,
        ),
        forall|id: u16| #[trigger]
            game.hated_equal(sid)(id) == (game.relation_value(sid, id) < -5_000
                && !game.is_friendly(sid, id) && game.max_troops_milli(id) * 2
                > game.max_troops_milli(sid)),
{
    crate::laws_missiles::law_leaders(game, sid);
    lemma_favors(game, sid, game.allies(sid));
    crate::lists::lemma_first_where(game.relations_sorted(sid), game.hated_equal(sid));
    let targets = game.team_targets(sid);
    match crate::lists::first_where(game.team_ranking(), game.other_team(sid)) {
        Some(captain) => {
            crate::lists::lemma_filter_members(
                game.alive_ids(),
                game.hostile_mate(sid, captain),
            );
            assert forall|id: u16| #[trigger] targets.contains(id) implies !game.is_friendly(
                sid,
                id,
            ) by {
                assert(game.hostile_mate(sid, captain)(id));
            }
        },
        None => {},
    }
    if targets.len() > 0 {
        crate::laws_missiles::law_largest_limit(game, targets);
        crate::prng::lemma_int_drawn(crate::prng::next_state(rng), 0, targets.len() as int);
        let i = crate::prng::int_drawn(crate::prng::next_state(rng), 0, targets.len() as int);
        assert(targets.contains(targets[i]));
    }
}

/// Of two players alone in the game a tough nation nukes the other; else one that attacks it
/// is nuked before anybody else.
pub proof fn law_nuke_target(game: GameView, rng: u64, sid: u16)
    ensures
        !(game.is_tough() && game.alive_ids().len() == 2) && game.main_attacker(sid) is Some
            ==> game.nuke_target(rng, sid).0 == game.main_attacker(sid),
        game.is_tough() && game.alive_ids().len() == 2 && game.alive_ids().contains(sid)
            && game.alive_ids().no_duplicates() ==> game.nuke_target(rng, sid).0 is Some
            && game.nuke_target(rng, sid).0->0 != sid && game.alive_ids().contains(
            game.nuke_target(rng, sid).0->0,
        ),
{
    let ids = game.alive_ids();
    let p = crate::ai_attack::is_not(sid);
    crate::lists::lemma_first_where(ids, p);
    if ids.len() == 2 && ids.no_duplicates() {
        assert(ids[0] != ids[1]);
        assert(p(ids[0]) || p(ids[1]));
        if crate::lists::first_where(ids, p) is Some {
            let k = crate::lists::lemma_first_where_at(ids, p);
            assert(ids.contains(ids[k]));
        }
    }
}

/// The teams are ranked by the tiles of their living members, those with the most first.
pub proof fn law_team_ranking(game: GameView)
    requires
        forall|id: u16| 0 <= #[trigger] game.team_tiles(id, game.alive_ids()) <= i64::MAX,
    ensures
        forall|i: int, j: int|
            0 <= i <= j < game.team_ranking().len() ==> game.team_tiles(
                #[trigger] game.team_ranking()[i],
                game.alive_ids(),
            ) >= game.team_tiles(#[trigger] game.team_ranking()[j], game.alive_ids()),
{
    let key = game.by_team_tiles();
    crate::lists::law_sorting_by(game.captains(game.alive_ids()), key);
    assert forall|i: int, j: int| 0 <= i <= j < game.team_ranking().len() implies game.team_tiles(
        #[trigger] game.team_ranking()[i],
        game.alive_ids(),
    ) >= game.team_tiles(#[trigger] game.team_ranking()[j], game.alive_ids()) by {
        assert(key(game.team_ranking()[i]).0 <= key(game.team_ranking()[j]).0);
    }
}

/// A team's tiles grow by those of a new member, and by nobody else's.
pub proof fn law_team_tiles(game: GameView, captain: u16, ids: Seq<u16>, id: u16)
    ensures
        game.teamed(id, captain) ==> game.team_tiles(captain, ids.push(id)) == game.team_tiles(
            captain,
            ids,
        ) + game.tiles_owned(id),
        !game.teamed(id, captain) ==> game.team_tiles(captain, ids.push(id)) == game.team_tiles(
            captain,
            ids,
        ),
{
    assert(ids.push(id).drop_last() =~= ids);
}

/// A player is the richest where no other living nation has more gold.
pub proof fn law_richest(game: GameView, sid: u16, id: u16)
    requires
        game.richest(sid),
        game.alive_ids().contains(id),
        game.of_type(id, crate::state::PlayerType::Nation),
    ensures
        game.gold(id) <= game.gold(sid),
{
    let i = choose|i: int| 0 <= i < game.alive_ids().len() && game.alive_ids()[i] == id;
    assert(game.alive_ids()[i] == id);
}

/// A unit can be upgraded where its kind can, it is finished, and its owner has the gold.
pub proof fn law_can_upgrade(game: GameView, sid: u16, id: i32)
    ensures
        game.can_upgrade(sid, id) ==> {
            let u = game.unit(sid, id)->0;
            &&& game.unit(sid, id) is Some
            &&& !u.under_construction
            &&& game.gold(sid) >= game.cost(sid, u.unit_type)
            &&& u.unit_type != UnitType::DefensePost
        },
        ({
            let u = game.unit(sid, id)->0;
            game.unit(sid, id) is Some && !u.under_construction && game.gold(sid) >= game.cost(
                sid,
                u.unit_type,
            ) && u.unit_type == UnitType::City && !game.config.disabled(UnitType::City)
                ==> game.can_upgrade(sid, id)
        }),
{
}

/// How a relation is ranked: hostile below distrustful, below neutral, below friendly.
pub proof fn law_ranks()
    ensures
        Relation::Hostile.rank() < Relation::Distrustful.rank(),
        Relation::Distrustful.rank() < Relation::Neutral.rank(),
        Relation::Neutral.rank() < Relation::Friendly.rank(),
{
}

} // verus!
