//! What holds of the rules as a whole.

use vstd::prelude::*;

use crate::attack::{AttackExecution, AttackTurn};
use crate::execution::Execution;
use crate::game::GameView;
use crate::nation::NationExecution;
use crate::ordered_tiles::TileRef;
use crate::port_execution::TradePort;
use crate::state::{Embargo, LandAttackView, MAX_ATTACK};
use crate::unit_type::UnitType;

verus! {

/// The troops of the attacks from `target` on `owner`.
pub open spec fn opposing_troops(attacks: Seq<LandAttackView>, owner: u16, target: u16) -> int
    decreases attacks.len(),
{
    if attacks.len() == 0 {
        0
    } else {
        opposing_troops(attacks.skip(1), owner, target) + if attacks[0].attacker == target
            && attacks[0].target == owner {
            attacks[0].troops as int
        } else {
            0
        }
    }
}

/// Whether an attack can have as many troops.
pub open spec fn fits(troops: int) -> bool {
    -MAX_ATTACK <= troops <= MAX_ATTACK
}

/// Whether every difference fits when an attack meets those in its way.
pub open spec fn meeting_fits(
    attacks: Seq<LandAttackView>,
    owner: u16,
    target: u16,
    troops: int,
) -> bool
    decreases attacks.len(),
{
    if attacks.len() == 0 {
        true
    } else if attacks[0].attacker == target && attacks[0].target == owner {
        &&& fits(troops - attacks[0].troops)
        &&& attacks[0].troops <= troops ==> meeting_fits(
            attacks.skip(1),
            owner,
            target,
            troops - attacks[0].troops,
        )
    } else {
        meeting_fits(attacks.skip(1), owner, target, troops)
    }
}

/// Where no attack has less than no troops, every difference fits.
pub proof fn law_armies_fit(attacks: Seq<LandAttackView>, owner: u16, target: u16, troops: int)
    requires
        0 <= troops <= MAX_ATTACK,
        forall|i: int|
            0 <= i < attacks.len() ==> 0 <= (#[trigger] attacks[i]).troops <= MAX_ATTACK,
    ensures
        meeting_fits(attacks, owner, target, troops),
    decreases attacks.len(),
{
    if attacks.len() > 0 {
        let rest = attacks.skip(1);
        assert forall|i: int| 0 <= i < rest.len() implies 0 <= (#[trigger] rest[i]).troops
            <= MAX_ATTACK by {
            assert(rest[i] == attacks[i + 1]);
        }
        assert(0 <= attacks[0].troops <= MAX_ATTACK);
        if attacks[0].attacker == target && attacks[0].target == owner {
            if attacks[0].troops <= troops {
                law_armies_fit(rest, owner, target, troops - attacks[0].troops);
            }
        } else {
            law_armies_fit(rest, owner, target, troops);
        }
    }
}

/// Two armies that meet lose as many troops each, and only one of them goes on: either the
/// new attack ends, or none is left against it.
pub proof fn law_armies_wear_each_other_down(
    attacks: Seq<LandAttackView>,
    owner: u16,
    target: u16,
    troops: int,
)
    requires
        meeting_fits(attacks, owner, target, troops),
    ensures
        ({
            let met = crate::game_attacks::clash(attacks, owner, target, troops);
            &&& met.goes_on ==> met.troops == troops - opposing_troops(attacks, owner, target)
                && opposing_troops(met.attacks, owner, target) == 0
            &&& !met.goes_on ==> opposing_troops(met.attacks, owner, target) == opposing_troops(
                attacks,
                owner,
                target,
            ) - troops
        }),
    decreases attacks.len(),
{
    if attacks.len() > 0 {
        let a = attacks[0];
        let rest = attacks.skip(1);
        if a.attacker == target && a.target == owner {
            if a.troops > troops {
                let left = seq![LandAttackView { troops: (a.troops - troops) as i64, ..a }] + rest;
                assert(left.skip(1) =~= rest);
            } else {
                law_armies_wear_each_other_down(rest, owner, target, troops - a.troops);
            }
        } else {
            law_armies_wear_each_other_down(rest, owner, target, troops);
            let met = crate::game_attacks::clash(rest, owner, target, troops);
            assert((seq![a] + met.attacks).skip(1) =~= met.attacks);
        }
    }
}

/// The troops of the attacks that join one.
pub open spec fn joining_troops(
    attacks: Seq<LandAttackView>,
    owner: u16,
    target: u16,
    id: Seq<char>,
) -> int
    decreases attacks.len(),
{
    if attacks.len() == 0 {
        0
    } else {
        joining_troops(attacks.skip(1), owner, target, id) + if crate::game_attacks::joins_attack(
            attacks[0],
            owner,
            target,
            id,
        ) {
            attacks[0].troops as int
        } else {
            0
        }
    }
}

/// Whether every sum fits when attacks join one.
pub open spec fn joining_fits(
    attacks: Seq<LandAttackView>,
    owner: u16,
    target: u16,
    id: Seq<char>,
    troops: int,
) -> bool
    decreases attacks.len(),
{
    if attacks.len() == 0 {
        true
    } else if crate::game_attacks::joins_attack(attacks[0], owner, target, id) {
        fits(troops + attacks[0].troops) && joining_fits(
            attacks.skip(1),
            owner,
            target,
            id,
            troops + attacks[0].troops,
        )
    } else {
        joining_fits(attacks.skip(1), owner, target, id, troops)
    }
}

/// Attacks that join one bring all of their troops along, and none of them is left.
pub proof fn law_joined_attacks_keep_their_troops(
    attacks: Seq<LandAttackView>,
    owner: u16,
    target: u16,
    id: Seq<char>,
    troops: int,
)
    requires
        joining_fits(attacks, owner, target, id, troops),
    ensures
        ({
            let (left, sum) = crate::game_attacks::merged(attacks, owner, target, id, troops);
            &&& sum == troops + joining_troops(attacks, owner, target, id)
            &&& joining_troops(left, owner, target, id) == 0
        }),
    decreases attacks.len(),
{
    if attacks.len() > 0 {
        let rest = attacks.skip(1);
        if crate::game_attacks::joins_attack(attacks[0], owner, target, id) {
            law_joined_attacks_keep_their_troops(
                rest,
                owner,
                target,
                id,
                troops + attacks[0].troops,
            );
        } else {
            law_joined_attacks_keep_their_troops(rest, owner, target, id, troops);
            let (left, sum) = crate::game_attacks::merged(rest, owner, target, id, troops);
            assert((seq![attacks[0]] + left).skip(1) =~= left);
        }
    }
}

/// Nobody attacks a friend: such an attack changes nothing.
pub proof fn law_friends_are_not_attacked(attack: AttackExecution, game: GameView, tick: u32)
    requires
        attack.target_player_id is Some,
        attack.aim(game) is Some,
        game.is_friendly(attack.owner_small_id, attack.aim(game)->0),
    ensures
        attack.begun(game, tick) == game,
        !attack.begins(game, tick),
{
}

/// An attack that was called back, and has come back, brings its troops home on its next
/// tick.
pub proof fn law_called_back_attacks_return(attack: AttackExecution, game: GameView)
    requires
        attack.active,
        attack.initialized,
        attack.attack_live,
        attack.attack_id@.len() > 0,
        game.attack_of(attack.owner_small_id, attack.attack_id@) is Some,
    ensures
        attack.turn(game.retreating(attack.owner_small_id, attack.attack_id@)) == (
        AttackTurn::Return { malus: attack.malus() }),
{
    let owner = attack.owner_small_id;
    let id = attack.attack_id@;
    let p = crate::game_attacks::is_attack(owner, id);
    let f = crate::game_diplomacy::retreat_done(owner, id);
    lemma_first_after_map(game.attacks, p, f);
    crate::lists::lemma_first_where(game.attacks, p);
}

/// The first attack of its kind stays the first where a change keeps the kind of each.
proof fn lemma_first_after_map(
    attacks: Seq<LandAttackView>,
    p: spec_fn(LandAttackView) -> bool,
    f: spec_fn(LandAttackView) -> LandAttackView,
)
    requires
        forall|a: LandAttackView| p(#[trigger] f(a)) == p(a),
    ensures
        crate::lists::first_where(attacks.map_values(f), p) == (match crate::lists::first_where(
            attacks,
            p,
        ) {
            Some(a) => Some(f(a)),
            None => None,
        }),
    decreases attacks.len(),
{
    if attacks.len() > 0 {
        assert(attacks.map_values(f)[0] == f(attacks[0]));
        assert(attacks.map_values(f).skip(1) =~= attacks.skip(1).map_values(f));
        assert(attacks.map_values(f).drop_first() =~= attacks.drop_first().map_values(f));
        lemma_first_after_map(attacks.skip(1), p, f);
        assert(attacks.drop_first() =~= attacks.skip(1));
    }
}

/// No nuke is launched at impassable land, nor, before the game is won, at a team mate's.
pub proof fn law_nukes_spare(game: GameView, sid: u16, nuke: UnitType, dst: TileRef)
    requires
        nuke != UnitType::MirvWarhead,
        game.map.is_impassable(dst) || (game.winner is None && game.map.owner(dst) != 0
            && game.on_same_team(sid, game.map.owner(dst))),
    ensures
        game.launch_site(sid, nuke, dst) is None,
{
}

/// An embargo stops trade both ways, until the one who laid it lifts it.
pub proof fn law_embargoes(game: GameView, a: u16, b: u16, temporary: bool, tick: u32)
    requires
        a != b,
    ensures
        !game.embargoing(a, b, temporary, tick).can_trade(a, b),
        !game.embargoing(a, b, temporary, tick).can_trade(b, a),
        !game.embargoed(b, a) ==> game.embargoing(a, b, temporary, tick).unembargoing(
            a,
            b,
        ).can_trade(a, b),
{
    let kept = game.unembargoing(a, b).embargoes;
    let laid = game.embargoing(a, b, temporary, tick);
    if !game.permanently_embargoed(a, b) {
        assert(laid.embargoes[kept.len() as int].from == a);
    }
    assert(laid.embargoed(a, b));
    let lifted = laid.unembargoing(a, b);
    let p = |e: Embargo| !(e.from == a && e.to == b);
    crate::lists::lemma_filter_holds(laid.embargoes, p);
    crate::lists::lemma_filter_holds(game.embargoes, p);
    assert(!lifted.embargoed(a, b)) by {
        if lifted.embargoed(a, b) {
            let i = choose|i: int|
                0 <= i < lifted.embargoes.len() && (#[trigger] lifted.embargoes[i]).from == a
                    && lifted.embargoes[i].to == b;
            assert(laid.embargoes.filter(p).contains(lifted.embargoes[i]));
        }
    }
    if !game.embargoed(b, a) {
        assert(!lifted.embargoed(b, a)) by {
            if lifted.embargoed(b, a) {
                let i = choose|i: int|
                    0 <= i < lifted.embargoes.len() && (#[trigger] lifted.embargoes[i]).from == b
                        && lifted.embargoes[i].to == a;
                let e = lifted.embargoes[i];
                assert(laid.embargoes.filter(p).contains(e));
                let j = choose|j: int| 0 <= j < laid.embargoes.len() && laid.embargoes[j] == e;
                if game.permanently_embargoed(a, b) {
                    assert(game.embargoes[j].from == b);
                } else {
                    assert(laid.embargoes[j] == kept[j]);
                    assert(game.embargoes.filter(p).contains(e));
                    let k = choose|k: int| 0 <= k < game.embargoes.len() && game.embargoes[k] == e;
                    assert(game.embargoes[k].from == b);
                }
            }
        }
    }
}

/// Two players who asked each other are allied.
pub proof fn law_mutual_requests_make_an_alliance(
    game: GameView,
    a: u16,
    b: u16,
    first: u32,
    second: u32,
)
    requires
        a != b,
        !game.requested(b, a),
    ensures
        game.requesting(a, b, first).requesting(b, a, second).allied(a, b),
        game.requesting(a, b, first).requesting(b, a, second).allied(b, a),
{
    let asked = game.requesting(a, b, first);
    assert(asked.requests[game.requests.len() as int].pends(a, b));
    assert(asked.requested(a, b));
    let after = asked.requesting(b, a, second);
    let n = game.alliances.len() as int;
    assert(after.alliances[n].joins(a, b));
    assert(after.alliances[n].joins(b, a));
}

proof fn lemma_ports_of(game: GameView, sid: u16, other: u16, tile: TileRef, p: TradePort)
    requires
        game.units.filter(game.trades_with(sid, other, tile)).map_values(
            crate::port_execution::as_trade_port(),
        ).contains(p),
    ensures
        p.owner == other,
        other != sid,
        game.can_trade(other, sid),
{
    let f = crate::port_execution::as_trade_port();
    let units = game.units.filter(game.trades_with(sid, other, tile));
    let i = choose|i: int| 0 <= i < units.map_values(f).len() && units.map_values(f)[i] == p;
    crate::lists::lemma_filter_holds(game.units, game.trades_with(sid, other, tile));
    assert(units.contains(units[i]));
}

proof fn lemma_ports_among(game: GameView, sid: u16, tile: TileRef, ids: Seq<u16>, p: TradePort)
    requires
        game.ports_among(sid, tile, ids).contains(p),
    ensures
        p.owner != sid,
        game.can_trade(p.owner, sid),
    decreases ids.len(),
{
    if ids.len() > 0 {
        let rest = game.ports_among(sid, tile, ids.drop_last());
        if rest.contains(p) {
            lemma_ports_among(game, sid, tile, ids.drop_last(), p);
        } else {
            let all = game.ports_among(sid, tile, ids);
            let i = choose|i: int| 0 <= i < all.len() && all[i] == p;
            if i < rest.len() {
                assert(rest[i] == p);
            } else {
                let last = game.units.filter(
                    game.trades_with(sid, ids.last(), tile),
                ).map_values(crate::port_execution::as_trade_port());
                assert(last[i - rest.len()] == p);
                lemma_ports_of(game, sid, ids.last(), tile, p);
            }
        }
    }
}

proof fn lemma_weighted(
    game: GameView,
    sid: u16,
    tile: TileRef,
    ports: Seq<TradePort>,
    k: int,
    x: (u16, i32),
)
    requires
        k <= ports.len(),
        game.weighted(sid, tile, ports, k).contains(x),
    ensures
        exists|i: int| 0 <= i < ports.len() && (#[trigger] ports[i]).owner == x.0,
    decreases k,
{
    if k > 0 {
        let rest = game.weighted(sid, tile, ports, k - 1);
        let all = game.weighted(sid, tile, ports, k);
        let i = choose|i: int| 0 <= i < all.len() && all[i] == x;
        if i < rest.len() {
            assert(rest[i] == x);
            lemma_weighted(game, sid, tile, ports, k - 1, x);
        } else {
            assert(ports[k - 1].owner == x.0);
        }
    }
}

/// A port only sends ships to players who trade with its owner.
pub proof fn law_ships_go_to_trade_partners(game: GameView, sid: u16, tile: TileRef, x: (u16, i32))
    requires
        game.trading_ports(sid, tile).contains(x),
    ensures
        x.0 != sid,
        game.can_trade(x.0, sid),
{
    let ports = game.trade_partners(sid, tile);
    lemma_weighted(game, sid, tile, ports, ports.len() as int, x);
    let i = choose|i: int| 0 <= i < ports.len() && (#[trigger] ports[i]).owner == x.0;
    let among = game.ports_among(sid, tile, game.alive_ids());
    crate::lists::lemma_sorted_members(among, game.map.by_port_distance(tile));
    assert(ports.contains(ports[i]));
    lemma_ports_among(game, sid, tile, game.alive_ids(), ports[i]);
}

/// A nation that is over does nothing.
pub proof fn law_idle_nations(nation: NationExecution, game: GameView, tick: u32)
    requires
        !nation.active,
    ensures
        nation.ruled(game, tick) == (game, nation.rule()),
{
}

/// A nation that has been sent to spawn is not sent again before it has.
pub proof fn law_nations_spawn_once(nation: NationExecution, game: GameView, tick: u32)
    requires
        nation.spawn_exec_added,
        game.known(nation.nation.player_info.id@) is Some,
        !game.has_spawned(game.known(nation.nation.player_info.id@)->0),
    ensures
        nation.ruled(game, tick) == (game, nation.rule()),
{
}

proof fn lemma_mopping_keeps_borders(game: GameView, owner: u16, target: u16, tiles: Seq<TileRef>)
    requires
        game.charted(),
        game.borders_exact(),
        forall|i: int| 0 <= i < tiles.len() ==> game.map.valid(#[trigger] tiles[i]),
    ensures
        game.mopping_tiles(owner, target, tiles).charted(),
        game.mopping_tiles(owner, target, tiles).borders_exact(),
    decreases tiles.len(),
{
    if tiles.len() > 0 {
        let rest = tiles.drop_last();
        assert forall|i: int| 0 <= i < rest.len() implies game.map.valid(#[trigger] rest[i]) by {
            assert(rest[i] == tiles[i]);
        }
        lemma_mopping_keeps_borders(game, owner, target, rest);
        lemma_mopping_keeps_tiles(game, owner, target, rest);
        let before = game.mopping_tiles(owner, target, rest);
        let t = tiles.last();
        assert(game.map.valid(tiles[tiles.len() - 1]));
        let near = before.map.neighbors4(t);
        crate::game_land::law_transfer_keeps_borders_exact(before, t, owner, true);
        crate::game_land::lemma_transfer_keeps_charts(before, t, owner, true);
        match crate::lists::first_where(near, before.claimant(target)) {
            Some(x) => {
                let heir = before.map.owner(x);
                crate::game_land::law_transfer_keeps_borders_exact(before, t, heir, true);
                crate::game_land::lemma_transfer_keeps_charts(before, t, heir, true);
            },
            None => {},
        }
    }
}

proof fn lemma_mopping_keeps_tiles(game: GameView, owner: u16, target: u16, tiles: Seq<TileRef>)
    requires
        forall|i: int| 0 <= i < tiles.len() ==> game.map.valid(#[trigger] tiles[i]),
    ensures
        game.mopping_tiles(owner, target, tiles).map.tiles.len() == game.map.tiles.len(),
    decreases tiles.len(),
{
    if tiles.len() > 0 {
        let rest = tiles.drop_last();
        assert forall|i: int| 0 <= i < rest.len() implies game.map.valid(#[trigger] rest[i]) by {
            assert(rest[i] == tiles[i]);
        }
        lemma_mopping_keeps_tiles(game, owner, target, rest);
        assert(game.map.valid(tiles[tiles.len() - 1]));
    }
}

proof fn lemma_rounds_keep_borders(game: GameView, owner: u16, target: u16, n: nat)
    requires
        game.charted(),
        game.borders_exact(),
    ensures
        game.mopping_rounds(owner, target, n).charted(),
        game.mopping_rounds(owner, target, n).borders_exact(),
    decreases n,
{
    if n > 0 {
        lemma_rounds_keep_borders(game, owner, target, (n - 1) as nat);
        let before = game.mopping_rounds(owner, target, (n - 1) as nat);
        let land = before.map.territory(target);
        crate::lists::lemma_filter_holds(before.map.all_tiles(), before.map.owned_by(target));
        assert forall|i: int| 0 <= i < land.len() implies before.map.valid(#[trigger] land[i]) by {
            assert(land.contains(land[i]));
            let all = before.map.all_tiles();
            let k = choose|k: int| 0 <= k < all.len() && all[k] == land[i];
        }
        lemma_mopping_keeps_borders(before, owner, target, land);
    }
}

/// However an attack fights, every border stays exact: it holds just the player's tiles that
/// lie next to somebody else's.
pub proof fn law_fights_keep_borders_exact(
    attack: AttackExecution,
    game: GameView,
    t: TileRef,
    attacker_loss: int,
    defender_loss: int,
)
    requires
        game.charted(),
        game.borders_exact(),
        game.map.valid(t),
    ensures
        attack.taking_tile(game, t, attacker_loss, defender_loss).charted(),
        attack.taking_tile(game, t, attacker_loss, defender_loss).borders_exact(),
{
    let owner = attack.owner_small_id;
    let target = attack.target_small_id;
    let manned = game.manning(owner, attack.attack_id@, attack.left_after(attacker_loss));
    assert(manned.borders_exact());
    if attack.target_is_player {
        let bled = manned.losing(target, defender_loss);
        assert(bled.borders_exact());
        crate::game_land::law_transfer_keeps_borders_exact(bled, t, owner, true);
        crate::game_land::lemma_transfer_keeps_charts(bled, t, owner, true);
        let taken = bled.transferring(t, owner, true);
        if taken.has(target) && taken.tiles_owned(target) < crate::attack::OVERRUN_TILES {
            let robbed = taken.plundering(owner, target);
            assert(robbed.borders_exact());
            lemma_rounds_keep_borders(
                robbed,
                owner,
                target,
                crate::attack::OVERRUN_ROUNDS as nat,
            );
        }
    } else {
        crate::game_land::law_transfer_keeps_borders_exact(manned, t, owner, true);
        crate::game_land::lemma_transfer_keeps_charts(manned, t, owner, true);
    }
}

/// Land that changes hands as a whole leaves every border exact.
pub proof fn law_annexed_land_keeps_borders_exact(game: GameView, sid: u16, tiles: Seq<TileRef>)
    requires
        game.charted(),
        game.borders_exact(),
        forall|i: int| 0 <= i < tiles.len() ==> game.map.valid(#[trigger] tiles[i]),
    ensures
        game.taking(sid, tiles).charted(),
        game.taking(sid, tiles).borders_exact(),
        game.taking(sid, tiles).map.tiles.len() == game.map.tiles.len(),
    decreases tiles.len(),
{
    if tiles.len() > 0 {
        let rest = tiles.drop_last();
        assert forall|i: int| 0 <= i < rest.len() implies game.map.valid(#[trigger] rest[i]) by {
            assert(rest[i] == tiles[i]);
        }
        law_annexed_land_keeps_borders_exact(game, sid, rest);
        let before = game.taking(sid, rest);
        assert(game.map.valid(tiles[tiles.len() - 1]));
        crate::game_land::law_transfer_keeps_borders_exact(before, tiles.last(), sid, true);
        crate::game_land::lemma_transfer_keeps_charts(before, tiles.last(), sid, true);
    }
}

/// Fallout moves no border.
proof fn lemma_scorching_keeps_borders(game: GameView, t: TileRef)
    requires
        game.charted(),
        game.borders_exact(),
        game.map.valid(t),
    ensures
        game.scorching(t).charted(),
        game.scorching(t).borders_exact(),
        game.scorching(t).map.tiles.len() == game.map.tiles.len(),
{
    let after = game.scorching(t);
    assert forall|sid: u16, x: TileRef| after.has(sid) && after.map.valid(x) implies (
    #[trigger] after.borders[sid - 1].contains(x) == (after.map.owner(x) == sid
        && after.map.is_border(x))) by {
        assert(game.borders[sid - 1].contains(x) == (game.map.owner(x) == sid
            && game.map.is_border(x)));
        let near = game.map.neighbors4(x);
        assert(after.map.neighbors4(x) == near);
        game.map.lemma_neighbors4(x);
        assert forall|k: int| 0 <= k < near.len() implies after.map.owner(#[trigger] near[k])
            == game.map.owner(near[k]) by {}
        if game.map.is_border(x) {
            let k = choose|k: int|
                0 <= k < near.len() && game.map.owner(#[trigger] near[k]) != game.map.owner(x);
            assert(after.map.owner(after.map.neighbors4(x)[k]) != after.map.owner(x));
        }
        if after.map.is_border(x) {
            let k = choose|k: int|
                0 <= k < after.map.neighbors4(x).len() && after.map.owner(
                    #[trigger] after.map.neighbors4(x)[k],
                ) != after.map.owner(x);
            assert(game.map.owner(near[k]) != game.map.owner(x));
        }
    }
}

/// Land that a nuke lays waste leaves every border exact.
pub proof fn law_razed_land_keeps_borders_exact(game: GameView, tiles: Seq<TileRef>)
    requires
        game.charted(),
        game.borders_exact(),
        forall|i: int| 0 <= i < tiles.len() ==> game.map.valid(#[trigger] tiles[i]),
    ensures
        game.razing(tiles).0.charted(),
        game.razing(tiles).0.borders_exact(),
        game.razing(tiles).0.map.tiles.len() == game.map.tiles.len(),
    decreases tiles.len(),
{
    if tiles.len() > 0 {
        let rest = tiles.drop_last();
        assert forall|i: int| 0 <= i < rest.len() implies game.map.valid(#[trigger] rest[i]) by {
            assert(rest[i] == tiles[i]);
        }
        law_razed_land_keeps_borders_exact(game, rest);
        let before = game.razing(rest).0;
        let t = tiles.last();
        assert(game.map.valid(tiles[tiles.len() - 1]));
        crate::game_land::law_transfer_keeps_borders_exact(before, t, 0, false);
        crate::game_land::lemma_transfer_keeps_charts(before, t, 0, false);
        let freed = if before.map.owner(t) != 0 {
            before.transferring(t, 0, false)
        } else {
            before
        };
        lemma_scorching_keeps_borders(freed, t);
    }
}

/// A path's points are the farther from its start the later they come.
proof fn lemma_travelled_grows(points: Seq<crate::parabola::Pt>, i: int, j: int)
    requires
        0 <= i <= j < points.len(),
    ensures
        crate::parabola::travelled(points, i) <= crate::parabola::travelled(points, j),
    decreases j - i,
{
    if i < j {
        lemma_travelled_grows(points, i, j - 1);
        lemma_dist_is_no_debt(points[j], points[j - 1]);
    }
}

proof fn lemma_dist_is_no_debt(a: crate::parabola::Pt, b: crate::parabola::Pt)
    ensures
        a.dist(b) >= 0,
{
    let n = (a.x - b.x) * (a.x - b.x) + (a.y - b.y) * (a.y - b.y);
    assert(n >= 0) by (nonlinear_arith)
        requires
            n == (a.x - b.x) * (a.x - b.x) + (a.y - b.y) * (a.y - b.y),
    ;
    crate::parabola::lemma_root_exists(n);
}

/// A missile that has flown farther than its path is long is at the path's end.
pub proof fn law_flights_end(points: Seq<crate::parabola::Pt>, at: int, total: int)
    requires
        0 <= at < points.len(),
        total > crate::parabola::travelled(points, points.len() - 1),
    ensures
        crate::parabola::passed(points, at, total) == points.len() - 1,
    decreases points.len() - at,
{
    if at < points.len() - 1 {
        lemma_travelled_grows(points, at + 1, points.len() - 1);
        law_flights_end(points, at + 1, total);
    }
}

/// A nuke in the air gets on by its speed with every tick, and goes off once it has flown
/// farther than its path is long.
pub proof fn law_nukes_arrive(
    nuke: crate::nuke_execution::NukeExecution,
    game: GameView,
    tick: u32,
    next: crate::nuke_execution::NukeExecution,
)
    requires
        nuke.ready(game),
        nuke.active,
        nuke.wait_ticks == 0,
        nuke.curve is Some,
        nuke.nuke_unit_id is Some,
        game.unit(nuke.owner_small_id, nuke.nuke_unit_id->0) is Some,
        nuke.curve->0.total_distance + nuke.pace(game) * crate::parabola::TILE_UNITS <= u64::MAX,
        nuke.ticked_as(game, tick, next),
    ensures
        next.curve is Some,
        next.curve->0.points@ == nuke.curve->0.points@,
        next.curve->0.total_distance == nuke.curve->0.total_distance + nuke.pace(game)
            * crate::parabola::TILE_UNITS,
        next.curve->0.total_distance > crate::parabola::travelled(
            nuke.curve->0.points@,
            nuke.curve->0.points@.len() - 1,
        ) ==> !next.going() && nuke.ticked(game, tick) == nuke.detonating(game),
{
    let points = nuke.curve->0.points@;
    let total = nuke.next_distance(game);
    if total > crate::parabola::travelled(points, points.len() - 1) {
        law_flights_end(points, nuke.curve->0.current_index as int, total);
    }
}

/// What has begun does not begin again.
pub proof fn law_nothing_begins_twice(
    attack: AttackExecution,
    request: crate::alliance_exec::AllianceRequestExecution,
    troops: crate::donate::DonateTroopsExecution,
    gold: crate::donate_gold::DonateGoldExecution,
    game: GameView,
    tick: u32,
)
    ensures
        attack.initialized ==> attack.begun(game, tick) == game && attack.begun_as(
            game,
            tick,
            attack,
        ),
        request.initialized ==> request.begun(game, tick) == game && request.begun_as(
            game,
            tick,
            request,
        ),
        troops.initialized ==> troops.begun(game, tick) == game && troops.begun_as(
            game,
            tick,
            troops,
        ),
        gold.initialized ==> gold.begun(game, tick) == game && gold.begun_as(game, tick, gold),
{
}

/// A boat that a nation sends to a random place takes no more troops to a player's land than
/// the nation may send.
pub proof fn law_random_boats_keep_the_cap(
    game: GameView,
    rng: u64,
    sid: u16,
    bordering: Seq<u16>,
)
    ensures
        ({
            let (after, _, sent) = game.boating_randomly(rng, sid, bordering);
            let order = after.pending.last();
            &&& !sent ==> after == game
            &&& sent ==> after.pending == game.pending.push(order) && order is TransportShip
            &&& sent && game.map.owner(order->TransportShip_dst) != 0 && game.send_cap(
                sid,
            ) is Some ==> order->TransportShip_troops <= game.send_cap(sid)->0
        }),
{
    let (after, _, sent) = game.boating_randomly(rng, sid, bordering);
    if sent {
        assert(after.pending =~= game.pending.push(after.pending.last()));
    }
}

/// What is known of shared water is worked out anew where nothing is known, or once it is
/// thirty ticks old; until then it stays as it is.
pub proof fn law_shared_water_is_rebuilt_when_stale(game: GameView)
    ensures
        ({
            let stale = game.water_tick is None || game.tick - game.water_tick->0 >= 30;
            &&& stale ==> game.charting().water_tick == Some(game.tick) && game.charting().water
                == game.traders().map_values(game.trade_entry())
            &&& !stale ==> game.charting() == game
        }),
{
}

} // verus!
