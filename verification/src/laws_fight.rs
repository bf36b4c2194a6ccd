//! What holds of fights over land, and of what nukes destroy.

use vstd::prelude::*;

use crate::attack::{grudge, AttackExecution};
use crate::config::{Config, Difficulty, NukeMagnitude};
use crate::game::GameView;
use crate::game_blast::{in_the_air, nuke_deaths, surviving, toll, toll_of};
use crate::map::MapView;
use crate::nuke_execution::NukeExecution;
use crate::ordered_tiles::TileRef;
use crate::parabola::Pt;
use crate::state::{Launch, PlayerType, Unit};
use crate::unit_type::UnitType;

verus! {

/// A player who does not say how many sends a fifth of its troops, a bot a twentieth. Troops
/// that leave home are never more than there are.
pub proof fn law_opening(attack: AttackExecution, game: GameView)
    requires
        0 <= game.troops(attack.owner_small_id) <= crate::state::MAX_TROOPS,
    ensures
        attack.start_troops is None && attack.remove_troops ==> {
            let sent = attack.opening(game);
            &&& game.of_type(attack.owner_small_id, PlayerType::Bot) ==> sent * 20 == game.troops(
                attack.owner_small_id,
            ) * 100_000
            &&& !game.of_type(attack.owner_small_id, PlayerType::Bot) ==> sent * 5 == game.troops(
                attack.owner_small_id,
            ) * 100_000
        },
        attack.remove_troops ==> attack.opening(game) <= game.troops(attack.owner_small_id)
            * 100_000,
        attack.start_troops is Some && 0 <= attack.start_troops->0 <= game.troops(
            attack.owner_small_id,
        ) * 100_000 ==> attack.opening(game) == attack.start_troops->0,
{
}

/// Troops that set out leave home, unless they left before; the attack is listed with them, and
/// with its owner and target.
pub proof fn law_set_out(attack: AttackExecution, game: GameView, target: u16)
    requires
        game.has(attack.owner_small_id),
        0 <= game.troops(attack.owner_small_id) <= crate::state::MAX_TROOPS,
        attack.start_troops is Some ==> attack.start_troops->0 >= 0,
    ensures
        ({
            let after = attack.set_out(game, target);
            let sid = attack.owner_small_id;
            let start = attack.opening(game);
            &&& after.attacks.len() == game.attacks.len() + 1
            &&& after.attacks.last().attacker == sid
            &&& after.attacks.last().target == target
            &&& after.attacks.last().troops == start
            &&& after.attacks.last().from_sea == (attack.source_tile is Some)
            &&& !after.attacks.last().retreating
            &&& !attack.remove_troops ==> after.troops(sid) == game.troops(sid)
            &&& attack.remove_troops ==> after.troops(sid) == game.troops(sid) - start / 100_000
            &&& after.map == game.map
            &&& forall|i: int|
                0 <= i < game.attacks.len() ==> after.attacks[i] == #[trigger] game.attacks[i]
        }),
{
    reveal(AttackExecution::set_out);
}

/// Who is attacked thinks less of its attacker, the less the harder the game is.
pub proof fn law_grudge(difficulty: Difficulty)
    ensures
        grudge(difficulty) <= -60,
        grudge(Difficulty::Impossible) < grudge(Difficulty::Hard),
        grudge(Difficulty::Hard) < grudge(Difficulty::Medium),
        grudge(Difficulty::Medium) < grudge(Difficulty::Easy),
        grudge(Difficulty::Impossible) == -100,
        grudge(Difficulty::Easy) == -60,
{
}

/// Who is attacked by a player stops trading with it, unless one of the two is a bot; nobody
/// else does on that account.
pub proof fn law_alarmed(attack: AttackExecution, game: GameView, tick: u32, target: u16)
    requires
        attack.target_player_id is Some,
        attack.aim(game) == Some(target),
    ensures
        ({
            let after = attack.alarmed(game, tick);
            let sid = attack.owner_small_id;
            let bots = game.of_type(sid, PlayerType::Bot) || game.of_type(target, PlayerType::Bot);
            &&& bots ==> after == game
            &&& !bots ==> after.embargoed(target, sid) && !after.requested(target, sid)
        }),
{
    let sid = attack.owner_small_id;
    let laid = game.embargoing(target, sid, true, tick);
    let kept = game.unembargoing(target, sid).embargoes;
    if !game.permanently_embargoed(target, sid) {
        assert(laid.embargoes[kept.len() as int].from == target);
    }
    assert(laid.embargoed(target, sid));
    crate::laws_diplomacy::law_answering(
        laid,
        target,
        sid,
        crate::state::AllianceRequestStatus::Rejected,
    );
    let after = laid.answering(target, sid, crate::state::AllianceRequestStatus::Rejected);
    assert(after.embargoes == laid.embargoes);
    assert(after.embargoed(target, sid)) by {
        let i = choose|i: int|
            0 <= i < laid.embargoes.len() && (#[trigger] laid.embargoes[i]).from == target
                && laid.embargoes[i].to == sid;
        assert(after.embargoes[i].from == target);
    }
}

/// A tile that changes hands has its new owner, who has one tile more, and its old one has one
/// fewer. All other tiles stay as they are.
pub proof fn law_transferring(game: GameView, t: TileRef, sid: u16, cleared: bool)
    requires
        game.map.valid(t),
        game.has(sid),
        game.map.owner(t) != sid,
        0 <= game.player(sid).tiles_owned < 0xfffe_0001,
        game.has(game.map.owner(t)) ==> 1 <= game.player(game.map.owner(t)).tiles_owned
            <= 0xffff_ffff,
    ensures
        ({
            let after = game.transferring(t, sid, cleared);
            let before = game.map.owner(t);
            &&& after.map.owner(t) == sid
            &&& after.tiles_owned(sid) == game.tiles_owned(sid) + 1
            &&& game.has(before) ==> after.tiles_owned(before) == game.tiles_owned(before) - 1
            &&& cleared ==> !after.map.has_fallout(t)
            &&& !cleared ==> after.map.has_fallout(t) == game.map.has_fallout(t)
            &&& after.map.is_land(t) == game.map.is_land(t)
            &&& forall|x: TileRef|
                x != t && game.map.valid(x) ==> #[trigger] after.map.tiles[x as int]
                    == game.map.tiles[x as int]
            &&& after.gold(sid) == game.gold(sid)
            &&& after.troops(sid) == game.troops(sid)
        }),
{
}

/// What an attack takes of nobody's land is its owner's, and costs the attack the price, as far
/// as it can pay.
pub proof fn law_taking_free_land(
    attack: AttackExecution,
    game: GameView,
    t: TileRef,
    loss: int,
    other: int,
)
    requires
        !attack.target_is_player,
        game.map.valid(t),
        0 <= loss <= attack.troops,
    ensures
        ({
            let after = attack.taking_tile(game, t, loss, other);
            &&& after.map.owner(t) == attack.owner_small_id
            &&& !after.map.has_fallout(t)
            &&& forall|i: int|
                0 <= i < game.attacks.len() ==> {
                    let (was, is) = (#[trigger] game.attacks[i], after.attacks[i]);
                    &&& was.attacker == attack.owner_small_id && was.id == attack.attack_id@
                        ==> is.troops == attack.troops - loss
                    &&& !(was.attacker == attack.owner_small_id && was.id == attack.attack_id@)
                        ==> is == was
                }
        }),
{
}

/// A player is overrun only with fewer than a hundred tiles; its gold goes to the attacker then.
pub proof fn law_overrunning(game: GameView, owner: u16, target: u16)
    requires
        game.has(target),
        game.has(owner),
        owner != target,
        game.gold(target) >= 0,
        0 <= game.gold(owner),
        game.gold(owner) + game.gold(target) <= i64::MAX,
    ensures
        game.tiles_owned(target) >= 100 ==> game.overrunning(owner, target) == game,
        game.plundering(owner, target).gold(target) == 0,
        game.plundering(owner, target).gold(owner) == game.gold(owner) + game.gold(target),
        game.plundering(owner, target).map == game.map,
{
}

/// What is left of an overrun player falls to the attacker where it borders on its land, else
/// to an enemy next to it, else it stays.
pub proof fn law_mopping(game: GameView, owner: u16, target: u16, t: TileRef)
    requires
        game.map.valid(t),
    ensures
        ({
            let after = game.mopping_tile(owner, target, t);
            let near = game.map.neighbors4(t);
            let to = after.map.owner(t);
            &&& (exists|i: int|
                0 <= i < near.len() && game.map.owner(#[trigger] near[i]) == owner) ==> to == owner
            &&& to == owner || to == game.map.owner(t) || (to != 0 && to != target
                && !game.is_friendly(to, target) && exists|i: int|
                0 <= i < near.len() && game.map.owner(#[trigger] near[i]) == to)
            &&& (forall|i: int|
                0 <= i < near.len() ==> game.map.owner(#[trigger] near[i]) == target
                    || game.map.owner(near[i]) == 0) && target != owner && owner != 0 ==> after
                == game
        }),
{
    let near = game.map.neighbors4(t);
    let own = crate::attack::held_by_player(game.map, owner);
    let claim = game.claimant(target);
    crate::lists::lemma_first_where(near, claim);
    if exists|i: int| 0 <= i < near.len() && game.map.owner(#[trigger] near[i]) == owner {
        let i = choose|i: int| 0 <= i < near.len() && game.map.owner(#[trigger] near[i]) == owner;
        assert(own(near[i]));
        assert(crate::lists::some_where(near, own));
    }
    if crate::lists::some_where(near, own) {
        let i = choose|i: int| 0 <= i < near.len() && own(#[trigger] near[i]);
        assert(game.map.owner(near[i]) == owner);
    } else {
        match crate::lists::first_where(near, claim) {
            Some(x) => {
                let k = crate::lists::lemma_first_where_at(near, claim);
                assert(claim(near[k]));
            },
            None => {},
        }
    }
}

/// A nuke is launched from a finished silo of its owner that has a missile ready, and none of
/// those is nearer to the target.
pub proof fn law_launch_site(game: GameView, sid: u16, nuke: UnitType, dst: TileRef)
    requires
        game.launch_site(sid, nuke, dst) is Some,
        nuke != UnitType::MirvWarhead,
    ensures
        ({
            let src = game.launch_site(sid, nuke, dst)->0;
            &&& game.gold(sid) >= game.cost(sid, nuke)
            &&& !game.config.disabled(nuke)
            &&& !game.spawn_immunity
            &&& exists|i: int|
                0 <= i < game.units.len() && is_loaded(game, sid, #[trigger] game.units[i])
                    && game.units[i].tile == src
            &&& forall|i: int|
                0 <= i < game.units.len() && is_loaded(game, sid, #[trigger] game.units[i])
                    ==> game.map.manhattan(src, dst) <= game.map.manhattan(game.units[i].tile, dst)
            &&& nuke == UnitType::Mirv ==> game.map.owner(dst) != 0
        }),
{
    let f = |u: Unit| u.tile;
    let p = game.ready_silo(sid);
    let ready = game.units.filter(p);
    let tiles = game.ready_silos(sid);
    let src = game.launch_site(sid, nuke, dst)->0;
    assert(tiles =~= ready.map_values(f));
    crate::lists::lemma_filter_members(game.units, p);
    crate::laws_building::law_nearest(game.map, tiles, dst);
    let k = choose|k: int| 0 <= k < tiles.len() && tiles[k] == src;
    assert(ready.contains(ready[k]));
    assert(game.units.contains(ready[k]) && p(ready[k]));
    let i = choose|i: int| 0 <= i < game.units.len() && game.units[i] == ready[k];
    assert(is_loaded(game, sid, game.units[i]) && game.units[i].tile == src);
    assert forall|i: int|
        0 <= i < game.units.len() && is_loaded(
            game,
            sid,
            #[trigger] game.units[i],
        ) implies game.map.manhattan(src, dst) <= game.map.manhattan(game.units[i].tile, dst) by {
        assert(p(game.units[i]) && game.units.contains(game.units[i]));
        assert(ready.contains(game.units[i]));
        let m = choose|m: int| 0 <= m < ready.len() && ready[m] == game.units[i];
        assert(tiles[m] == game.units[i].tile);
        assert(tiles.contains(game.units[i].tile));
    }
}

/// Whether a unit is a finished silo of `sid` that has launched fewer missiles than its level.
pub open spec fn is_loaded(game: GameView, sid: u16, u: Unit) -> bool {
    u.owner == sid && u.unit_type == UnitType::MissileSilo && !u.under_construction
        && game.launches.filter(|l: Launch| l.unit_id == u.id).len() < u.level
}

/// A silo that launches a missile has one fewer ready; the launch is noted with its tick.
pub proof fn law_unloading(game: GameView, sid: u16, tile: TileRef, u: Unit)
    requires
        crate::lists::first_where(game.units, GameView::silo_on(sid, tile)) == Some(u),
    ensures
        game.unloading(sid, tile).launches.last() == (Launch { unit_id: u.id, tick: game.tick }),
        game.unloading(sid, tile).launches_of(u.id).len() == game.launches_of(u.id).len() + 1,
        u.owner == sid && u.unit_type == UnitType::MissileSilo && u.tile == tile,
{
    reveal(Seq::filter);
    crate::lists::lemma_first_where(game.units, GameView::silo_on(sid, tile));
    let more = game.launches.push(Launch { unit_id: u.id, tick: game.tick });
    assert(more.drop_last() =~= game.launches);
}

/// A missile can be shot down near where it was launched and near its target, and nowhere else.
pub proof fn law_exposed(game: GameView, src: TileRef, dst: TileRef, t: TileRef)
    ensures
        ({
            let reach = game.config.nuke_targetable_range as int;
            game.exposed(src, dst)(t) == (game.map.dist2(dst, t) < reach * reach || game.map.dist2(
                src,
                t,
            ) < reach * reach)
        }),
{
}

/// A nuke that is still far from its end flies on along its path; it goes off at the end and not
/// before.
pub proof fn law_nuke_flight(nuke: NukeExecution, game: GameView)
    requires
        nuke.nuke_unit_id is Some,
        game.unit(nuke.owner_small_id, nuke.nuke_unit_id->0) is Some,
    ensures
        ({
            let route = nuke.route(game);
            let at = nuke.next_index(game);
            &&& nuke.goes_off(game) ==> at >= route.len() - 1 && nuke.wait_ticks == 0
            &&& at < route.len() - 1 ==> nuke.proceeding(game).map == game.map && nuke.proceeding(
                game,
            ).players == game.players
        }),
{
}

/// A tile in the inner circle counts twice as much as one in the outer, and one beyond nothing.
pub proof fn law_toll(map: MapView, dst: TileRef, reach: NukeMagnitude, t: TileRef, nearer: TileRef)
    requires
        reach.inner <= reach.outer,
        map.dist2(dst, nearer) <= map.dist2(dst, t),
    ensures
        0 <= toll(map, dst, reach, t) <= toll(map, dst, reach, nearer) <= 2,
        (toll(map, dst, reach, t) == 2) == (map.dist2(dst, t) <= reach.inner * reach.inner),
        (toll(map, dst, reach, t) == 0) == (map.dist2(dst, t) > reach.outer * reach.outer),
{
    assert(reach.inner * reach.inner <= reach.outer * reach.outer) by (nonlinear_arith)
        requires
            reach.inner <= reach.outer,
    ;
}

/// Only an owner's own tiles count for it, and each as much as it does alone.
pub proof fn law_toll_of(
    map: MapView,
    tiles: Seq<TileRef>,
    dst: TileRef,
    reach: NukeMagnitude,
    owner: u16,
    t: TileRef,
)
    ensures
        map.owner(t) == owner ==> toll_of(map, tiles.push(t), dst, reach, owner) == toll_of(
            map,
            tiles,
            dst,
            reach,
            owner,
        ) + toll(map, dst, reach, t),
        map.owner(t) != owner ==> toll_of(map, tiles.push(t), dst, reach, owner) == toll_of(
            map,
            tiles,
            dst,
            reach,
            owner,
        ),
{
    assert(tiles.push(t).drop_last() =~= tiles);
}

proof fn lemma_joined(ids: Seq<u16>, more: Seq<Unit>, id: u16)
    ensures
        crate::game_blast::joined(ids, more).contains(id) == (ids.contains(id) || exists|i: int|
            0 <= i < more.len() && (#[trigger] more[i]).owner == id),
    decreases more.len(),
{
    if more.len() > 0 {
        let front = more.drop_last();
        let last = more.last();
        lemma_joined(ids, front, id);
        let held = crate::game_blast::joined(ids, front);
        let all = crate::game_blast::joined(ids, more);
        assert(more[more.len() - 1] == last);
        assert forall|i: int| 0 <= i < front.len() implies front[i] == #[trigger] more[i] by {}
        assert(all.contains(id) == (held.contains(id) || id == last.owner)) by {
            if !held.contains(last.owner) {
                assert(all == held.push(last.owner));
                assert(all[held.len() as int] == last.owner);
                if held.contains(id) {
                    let k = choose|k: int| 0 <= k < held.len() && held[k] == id;
                    assert(all[k] == id);
                }
                if all.contains(id) && id != last.owner {
                    let k = choose|k: int| 0 <= k < all.len() && all[k] == id;
                    assert(held[k] == id);
                }
            }
        }
        if exists|i: int| 0 <= i < more.len() && (#[trigger] more[i]).owner == id {
            let i = choose|i: int| 0 <= i < more.len() && (#[trigger] more[i]).owner == id;
            if i < front.len() {
                assert(front[i].owner == id);
            }
        }
        if exists|i: int| 0 <= i < front.len() && (#[trigger] front[i]).owner == id {
            let i = choose|i: int| 0 <= i < front.len() && (#[trigger] front[i]).owner == id;
            assert(more[i].owner == id);
        }
    }
}

/// Struck are those who have a structure within the outer circle, and those whose tiles in the
/// circles count more than the threshold, and nobody else.
pub proof fn law_struck(game: GameView, dst: TileRef, nuke: UnitType, id: u16)
    ensures
        game.struck(dst, nuke).contains(id) == ({
            let reach = game.config.magnitude(nuke);
            ||| game.ids().contains(id) && toll_of(
                game.map,
                game.map.square(dst, reach.outer as int),
                dst,
                reach,
                id,
            ) > 2 * game.config.nuke_alliance_break_threshold
            ||| exists|i: int|
                0 <= i < game.units.len() && (#[trigger] game.units[i]).owner == id
                    && game.units[i].unit_type.structure() && game.map.dist2(
                    dst,
                    game.units[i].tile,
                ) <= reach.outer * reach.outer
        }),
{
    let reach = game.config.magnitude(nuke);
    let hit = game.heavily_hit(dst, nuke);
    let within = game.standing_within(dst, reach.outer as int);
    let kept = game.units.filter(within);
    crate::lists::lemma_filter_members(game.ids(), hit);
    crate::lists::lemma_filter_members(game.units, within);
    lemma_joined(game.ids().filter(hit), kept, id);
    if exists|i: int| 0 <= i < kept.len() && (#[trigger] kept[i]).owner == id {
        let i = choose|i: int| 0 <= i < kept.len() && (#[trigger] kept[i]).owner == id;
        assert(kept.contains(kept[i]));
        assert(within(kept[i]));
        let k = choose|k: int| 0 <= k < game.units.len() && game.units[k] == kept[i];
        assert(game.units[k].owner == id);
    }
    if exists|i: int|
        0 <= i < game.units.len() && (#[trigger] game.units[i]).owner == id
            && game.units[i].unit_type.structure() && game.map.dist2(dst, game.units[i].tile)
            <= reach.outer * reach.outer {
        let i = choose|i: int|
            0 <= i < game.units.len() && (#[trigger] game.units[i]).owner == id
                && game.units[i].unit_type.structure() && game.map.dist2(dst, game.units[i].tile)
                <= reach.outer * reach.outer;
        assert(within(game.units[i]) && game.units.contains(game.units[i]));
        assert(kept.contains(game.units[i]));
        let k = choose|k: int| 0 <= k < kept.len() && kept[k] == game.units[i];
        assert(kept[k].owner == id);
    }
}

/// Whoever a nuke strikes is no ally of the one who sent it any longer, and thinks the worst of
/// it, where no request for an alliance stood between them.
pub proof fn law_falling_out(game: GameView, nuker: u16, t: u16)
    requires
        t != nuker,
    ensures
        ({
            let after = game.falling_out(nuker, seq![t]);
            &&& !game.requested(nuker, t) ==> !after.allied(nuker, t) && !after.allied(t, nuker)
            &&& !game.requested(nuker, t) && game.relation_value(t, nuker) <= 0
                ==> after.relation_value(t, nuker) == -10_000
            &&& game.requested(nuker, t) ==> !after.requested(nuker, t)
        }),
{
    assert(seq![t].drop_last() =~= Seq::<u16>::empty());
    assert(game.falling_out(nuker, Seq::<u16>::empty()) == game);
    assert(seq![t].last() == t);
    let parted = game.unallied(nuker, t);
    let p = |x: crate::state::Alliance| !x.joins(nuker, t);
    crate::lists::lemma_filter_members(game.alliances, p);
    crate::laws_diplomacy::law_relating(parted, t, nuker, -100);
    crate::laws_diplomacy::law_answering(
        game,
        nuker,
        t,
        crate::state::AllianceRequestStatus::Rejected,
    );
    assert(parted.relation_value(t, nuker) == game.relation_value(t, nuker));
    let after = game.falling_out(nuker, seq![t]);
    if !game.requested(nuker, t) {
        assert(after == parted.relating(t, nuker, -100));
        assert forall|i: int| 0 <= i < after.alliances.len() implies !(
        #[trigger] after.alliances[i]).joins(nuker, t) && !after.alliances[i].joins(t, nuker) by {
            assert(after.alliances.contains(after.alliances[i]));
            assert(p(after.alliances[i]));
        }
    }
}

/// With each tile a bomb takes five times a tile's share of the troops; the fewer tiles are
/// left, the more die. Nobody loses more than there are.
pub proof fn law_nuke_deaths(
    config: Config,
    nuke: UnitType,
    amount: int,
    left: int,
    more: int,
    milli: int,
)
    requires
        amount >= 0,
        1 <= left <= more,
    ensures
        nuke != UnitType::MirvWarhead ==> {
            &&& nuke_deaths(config, nuke, amount, left, milli) >= nuke_deaths(
                config,
                nuke,
                amount,
                more,
                milli,
            )
            &&& nuke_deaths(config, nuke, amount, left, milli) * left <= 5 * amount
            &&& 5 * amount < (nuke_deaths(config, nuke, amount, left, milli) + 1) * left
            &&& surviving(config, nuke, amount, left, milli) <= surviving(
                config,
                nuke,
                amount,
                more,
                milli,
            )
            &&& left <= 5 ==> surviving(config, nuke, amount, left, milli) == 0
        },
        nuke != UnitType::MirvWarhead ==> 0 <= surviving(config, nuke, amount, left, milli)
            <= amount,
{
    if nuke != UnitType::MirvWarhead {
        let n = 5 * amount;
        vstd::arithmetic::div_mod::lemma_fundamental_div_mod(n, left);
        vstd::arithmetic::div_mod::lemma_div_is_ordered_by_denominator(n, left, more);
        vstd::arithmetic::div_mod::lemma_mod_bound(n, left);
        let q = n / left;
        assert(q * left <= n < (q + 1) * left) by (nonlinear_arith)
            requires
                n == left * q + n % left,
                0 <= n % left < left,
        ;
        vstd::arithmetic::div_mod::lemma_div_pos_is_pos(n, left);
        if left <= 5 {
            assert(q >= amount) by (nonlinear_arith)
                requires
                    n < (q + 1) * left,
                    n == 5 * amount,
                    1 <= left <= 5,
                    amount >= 0,
            ;
        }
    }
}

/// What is destroyed has no owner; land gets fallout, where it does not become water, and
/// nothing else changes hands.
pub proof fn law_destroying(game: GameView, t: TileRef)
    requires
        game.map.valid(t),
    ensures
        ({
            let (after, losers) = game.destroying(t);
            &&& after.map.owner(t) == 0
            &&& game.map.is_land(t) && !game.config.water_nukes ==> after.map.has_fallout(t)
            &&& !game.map.is_land(t) ==> after.map.has_fallout(t) == game.map.has_fallout(t)
            &&& game.map.is_land(t) && game.config.water_nukes ==> after.drowning
                == game.drowning.push(t)
            &&& game.map.owner(t) != 0 ==> losers == seq![game.map.owner(t)]
            &&& game.map.owner(t) == 0 ==> losers.len() == 0
            &&& forall|x: TileRef|
                x != t && game.map.valid(x) ==> #[trigger] after.map.tiles[x as int]
                    == game.map.tiles[x as int]
        }),
{
}

/// A blast destroys every unit within its outer circle but missiles in the air, and no other;
/// the boats among them are credited to the one who sent it.
pub proof fn law_sweeping(game: GameView, dst: TileRef, outer: int, killer: u16)
    ensures
        ({
            let after = game.sweeping(dst, outer, killer);
            &&& forall|u: Unit| #[trigger]
                after.units.contains(u) == (game.units.contains(u) && (in_the_air(u.unit_type)
                    || game.map.dist2(dst, u.tile) >= outer * outer))
            &&& forall|u: Unit| #[trigger]
                game.units.contains(u) && u.unit_type == UnitType::Transport && game.map.dist2(
                    dst,
                    u.tile,
                ) < outer * outer && !in_the_air(u.unit_type) ==> exists|k: int|
                    game.kills.len() <= k < after.kills.len() && (#[trigger] after.kills[k]).unit_id
                        == u.id && after.kills[k].owner == u.owner && after.kills[k].killer
                        == killer && after.kills[k].tile == u.tile
            &&& forall|k: int|
                game.kills.len() <= k < after.kills.len() ==> (#[trigger] after.kills[k]).killer
                    == killer
        }),
{
    let lasting = game.outlasting(dst, outer);
    let sinks = game.sinking(dst, outer);
    let lost = game.units.filter(sinks);
    let noted = lost.map_values(GameView::sunk_by(killer));
    let after = game.sweeping(dst, outer, killer);
    crate::lists::lemma_filter_members(game.units, lasting);
    crate::lists::lemma_filter_members(game.units, sinks);
    assert(after.kills == game.kills + noted);
    assert forall|u: Unit| #[trigger]
        game.units.contains(u) && u.unit_type == UnitType::Transport && game.map.dist2(dst, u.tile)
            < outer * outer && !in_the_air(u.unit_type) implies exists|k: int|
        game.kills.len() <= k < after.kills.len() && (#[trigger] after.kills[k]).unit_id == u.id
            && after.kills[k].owner == u.owner && after.kills[k].killer == killer
            && after.kills[k].tile == u.tile by {
        assert(sinks(u));
        assert(lost.contains(u));
        let m = choose|m: int| 0 <= m < lost.len() && lost[m] == u;
        assert(after.kills[game.kills.len() + m] == noted[m]);
    }
    assert forall|k: int| game.kills.len() <= k < after.kills.len() implies (
    #[trigger] after.kills[k]).killer == killer by {
        assert(after.kills[k] == noted[k - game.kills.len()]);
    }
}

/// A missile is at the last point of its path that is nearer than it has flown, from where it
/// was on, and never behind that.
pub proof fn law_passed(points: Seq<Pt>, at: int, total: int)
    ensures
        ({
            let now = crate::parabola::passed(points, at, total);
            &&& now >= at
            &&& at < points.len() ==> now < points.len()
            &&& forall|i: int|
                at < i <= now ==> #[trigger] crate::parabola::travelled(points, i) < total
            &&& now < points.len() - 1 ==> crate::parabola::travelled(points, now + 1) >= total
        }),
    decreases points.len() - at,
{
    if at < points.len() - 1 && crate::parabola::travelled(points, at + 1) < total {
        law_passed(points, at + 1, total);
    }
}

} // verus!
