//! What holds of trade, of the doomsday clock, and of how realms are kept up.

use vstd::prelude::*;

use crate::config::GameMode;
use crate::construction::ConstructionExecution;
use crate::delete_unit::DeleteUnitExecution;
use crate::doomsday_clock_execution::{drain_percent, first_largest};
use crate::execution::Execution;
use crate::game::GameView;
use crate::ordered_tiles::TileRef;
use crate::port_execution::{as_trade_port, luck, TradePort};
use crate::state::{Launch, Unit};
use crate::unit_type::UnitType;

verus! {

/// Whether ships from `tile` reach a port.
pub open spec fn is_reached(game: GameView, tile: TileRef, port: TileRef) -> bool {
    crate::lists::some_where(game.map.bodies_at(tile), game.map.touching(port))
}

proof fn lemma_ports(game: GameView, sid: u16, tile: TileRef, ids: Seq<u16>, p: TradePort)
    ensures
        game.ports_among(sid, tile, ids).contains(p) == (exists|i: int|
            0 <= i < game.units.len() && as_trade_port()(#[trigger] game.units[i]) == p
                && ids.contains(game.units[i].owner) && game.units[i].unit_type == UnitType::Port
                && game.units[i].owner != sid && game.can_trade(game.units[i].owner, sid)
                && is_reached(game, tile, game.units[i].tile)),
    decreases ids.len(),
{
    let all = game.ports_among(sid, tile, ids);
    if ids.len() > 0 {
        let front = ids.drop_last();
        let last = ids.last();
        let q = game.trades_with(sid, last, tile);
        let kept = game.units.filter(q);
        let rest = game.ports_among(sid, tile, front);
        let own = kept.map_values(as_trade_port());
        lemma_ports(game, sid, tile, front, p);
        crate::lists::lemma_filter_members(game.units, q);
        assert(ids[ids.len() - 1] == last);
        if all.contains(p) {
            let k = choose|k: int| 0 <= k < all.len() && all[k] == p;
            if k < rest.len() {
                assert(rest[k] == p);
                assert(rest.contains(p));
                let i = choose|i: int|
                    0 <= i < game.units.len() && as_trade_port()(#[trigger] game.units[i]) == p
                        && front.contains(game.units[i].owner) && game.units[i].unit_type
                        == UnitType::Port && game.units[i].owner != sid && game.can_trade(
                        game.units[i].owner,
                        sid,
                    ) && is_reached(game, tile, game.units[i].tile);
                let m = choose|m: int| 0 <= m < front.len() && front[m] == game.units[i].owner;
                assert(ids[m] == game.units[i].owner);
            } else {
                let m = k - rest.len();
                assert(own[m] == p);
                assert(kept.contains(kept[m]));
                assert(game.units.contains(kept[m]) && q(kept[m]));
                let i = choose|i: int| 0 <= i < game.units.len() && game.units[i] == kept[m];
                assert(as_trade_port()(game.units[i]) == p);
            }
        }
        if exists|i: int|
            0 <= i < game.units.len() && as_trade_port()(#[trigger] game.units[i]) == p
                && ids.contains(game.units[i].owner) && game.units[i].unit_type == UnitType::Port
                && game.units[i].owner != sid && game.can_trade(game.units[i].owner, sid)
                && is_reached(game, tile, game.units[i].tile) {
            let i = choose|i: int|
                0 <= i < game.units.len() && as_trade_port()(#[trigger] game.units[i]) == p
                    && ids.contains(game.units[i].owner) && game.units[i].unit_type
                    == UnitType::Port && game.units[i].owner != sid && game.can_trade(
                    game.units[i].owner,
                    sid,
                ) && is_reached(game, tile, game.units[i].tile);
            let u = game.units[i];
            if u.owner == last {
                assert(q(u));
                assert(game.units.contains(u));
                assert(kept.contains(u));
                let m = choose|m: int| 0 <= m < kept.len() && kept[m] == u;
                assert(own[m] == p);
                assert(all[rest.len() + m] == p);
            } else {
                let m = choose|m: int| 0 <= m < ids.len() && ids[m] == u.owner;
                assert(front[m] == u.owner);
                assert(front.contains(u.owner));
                assert(rest.contains(p));
                let k = choose|k: int| 0 <= k < rest.len() && rest[k] == p;
                assert(all[k] == p);
            }
        }
    } else {
        assert(all.len() == 0);
    }
}

/// A port trades with the ports of other living players that its ships reach and that no
/// embargo keeps apart, with all of them, and the nearest are listed first.
pub proof fn law_trade_partners(game: GameView, sid: u16, tile: TileRef)
    requires
        forall|a: TileRef, b: TileRef| 0 <= #[trigger] game.map.manhattan(a, b) <= i64::MAX,
    ensures
        ({
            let ports = game.trade_partners(sid, tile);
            &&& forall|i: int, j: int|
                0 <= i <= j < ports.len() ==> game.map.manhattan(tile, (#[trigger] ports[i]).tile)
                    <= game.map.manhattan(tile, (#[trigger] ports[j]).tile)
            &&& forall|i: int|
                0 <= i < game.units.len() && (#[trigger] game.units[i]).unit_type == UnitType::Port
                    && game.units[i].owner != sid && game.alive_ids().contains(game.units[i].owner)
                    && !game.embargoed(game.units[i].owner, sid) && !game.embargoed(
                    sid,
                    game.units[i].owner,
                ) && is_reached(game, tile, game.units[i].tile) ==> exists|k: int|
                    0 <= k < ports.len() && (#[trigger] ports[k]).unit_id == game.units[i].id
                        && ports[k].owner == game.units[i].owner && ports[k].tile
                        == game.units[i].tile
            &&& forall|k: int|
                0 <= k < ports.len() ==> {
                    let p = #[trigger] ports[k];
                    &&& p.owner != sid
                    &&& game.alive_ids().contains(p.owner)
                    &&& !game.embargoed(p.owner, sid)
                    &&& !game.embargoed(sid, p.owner)
                    &&& is_reached(game, tile, p.tile)
                    &&& p.level >= 1
                }
        }),
{
    let ids = game.alive_ids();
    let found = game.ports_among(sid, tile, ids);
    let key = game.map.by_port_distance(tile);
    let ports = game.trade_partners(sid, tile);
    crate::lists::law_sorting_by(found, key);
    assert forall|i: int, j: int| 0 <= i <= j < ports.len() implies game.map.manhattan(
        tile,
        (#[trigger] ports[i]).tile,
    ) <= game.map.manhattan(tile, (#[trigger] ports[j]).tile) by {
        assert(key(ports[i]).0 <= key(ports[j]).0);
    }
    assert forall|i: int|
        0 <= i < game.units.len() && (#[trigger] game.units[i]).unit_type == UnitType::Port
            && game.units[i].owner != sid && game.alive_ids().contains(game.units[i].owner)
            && !game.embargoed(game.units[i].owner, sid) && !game.embargoed(
            sid,
            game.units[i].owner,
        ) && is_reached(game, tile, game.units[i].tile) implies exists|k: int|
        0 <= k < ports.len() && (#[trigger] ports[k]).unit_id == game.units[i].id && ports[k].owner
            == game.units[i].owner && ports[k].tile == game.units[i].tile by {
        let p = as_trade_port()(game.units[i]);
        lemma_ports(game, sid, tile, ids, p);
        assert(found.contains(p));
        assert(ports.contains(p));
        let k = choose|k: int| 0 <= k < ports.len() && ports[k] == p;
        assert(ports[k].unit_id == game.units[i].id);
    }
    assert forall|k: int| 0 <= k < ports.len() implies ({
        let p = #[trigger] ports[k];
        &&& p.owner != sid
        &&& game.alive_ids().contains(p.owner)
        &&& !game.embargoed(p.owner, sid)
        &&& !game.embargoed(sid, p.owner)
        &&& is_reached(game, tile, p.tile)
        &&& p.level >= 1
    }) by {
        assert(ports.contains(ports[k]));
        assert(found.contains(ports[k]));
        lemma_ports(game, sid, tile, ids, ports[k]);
    }
}

/// A port counts once for each level, once more where it is among the nearest, and once more
/// where it is a friend's; nearby ports get nothing on top.
pub proof fn law_port_share(game: GameView, sid: u16, tile: TileRef, p: TradePort, i: int, n: int)
    ensures
        ({
            let share = game.port_share(sid, tile, p, i, n);
            let near = game.map.manhattan(tile, p.tile) < game.config.trade_ship_short_range_debuff;
            &&& 1 <= share <= 3
            &&& near ==> share == 1
            &&& !near && game.is_friendly(sid, p.owner) ==> share >= 2
            &&& !near && i < 4 ==> share >= 2
            &&& !near && 3 * i < n ==> share >= 2
            &&& i >= 4 && 3 * i >= n && !game.is_friendly(sid, p.owner) ==> share == 1
            &&& !near && i < 4 && game.is_friendly(sid, p.owner) ==> share == 3
        }),
{
}

proof fn lemma_state_after(rng: u64, k: nat)
    ensures
        crate::prng::state_after(crate::prng::next_state(rng), k) == crate::prng::state_after(
            rng,
            k + 1,
        ),
    decreases k,
{
    if k > 0 {
        lemma_state_after(rng, (k - 1) as nat);
        assert(crate::prng::state_after(crate::prng::next_state(rng), k)
            == crate::prng::next_state(
            crate::prng::state_after(crate::prng::next_state(rng), (k - 1) as nat),
        ));
        assert(crate::prng::state_after(rng, k + 1) == crate::prng::next_state(
            crate::prng::state_after(rng, k),
        ));
    } else {
        assert(crate::prng::state_after(rng, 1) == crate::prng::next_state(
            crate::prng::state_after(rng, 0),
        ));
    }
}

/// Luck strikes at the first of `n` draws that hits; all draws before it missed, and without
/// any that hits all `n` did.
pub proof fn law_luck(rng: u64, rate: int, n: nat)
    ensures
        ({
            let (hit, missed, after) = luck(rng, rate, n);
            &&& missed <= n
            &&& hit == (missed < n)
            &&& hit ==> crate::prng::chance_drawn(crate::prng::state_after(rng, missed), rate)
            &&& hit ==> after == crate::prng::state_after(rng, missed + 1)
            &&& !hit ==> after == crate::prng::state_after(rng, n)
            &&& forall|k: nat|
                k < missed ==> !crate::prng::chance_drawn(
                    #[trigger] crate::prng::state_after(rng, k),
                    rate,
                )
        }),
    decreases n,
{
    assert(crate::prng::state_after(rng, 0) == rng);
    assert(crate::prng::state_after(rng, 1) == crate::prng::next_state(
        crate::prng::state_after(rng, 0),
    ));
    if n > 0 && !crate::prng::chance_drawn(rng, rate) {
        let next = crate::prng::next_state(rng);
        law_luck(next, rate, (n - 1) as nat);
        let (hit, missed, after) = luck(next, rate, (n - 1) as nat);
        lemma_state_after(rng, missed);
        lemma_state_after(rng, missed + 1);
        lemma_state_after(rng, (n - 1) as nat);
        assert forall|k: nat| k < missed + 1 implies !crate::prng::chance_drawn(
            #[trigger] crate::prng::state_after(rng, k),
            rate,
        ) by {
            if k > 0 {
                lemma_state_after(rng, (k - 1) as nat);
                assert(!crate::prng::chance_drawn(
                    crate::prng::state_after(next, (k - 1) as nat),
                    rate,
                ));
            }
        }
    }
}

/// What the clock drains grows from the first percentage to the last, which it reaches when
/// the ramp is over and then keeps.
pub proof fn law_drain(seconds: int, later: int, start: int, end: int, ramp: int)
    requires
        0 <= seconds <= later,
        start <= end,
        ramp > 0,
    ensures
        start <= drain_percent(seconds, start, end, ramp) <= drain_percent(later, start, end, ramp)
            <= end,
        drain_percent(0, start, end, ramp) == start,
        seconds >= ramp ==> drain_percent(seconds, start, end, ramp) == end,
{
    let a = if seconds < ramp {
        seconds
    } else {
        ramp
    };
    let b = if later < ramp {
        later
    } else {
        ramp
    };
    let d = end - start;
    assert(0 <= d * a <= d * b <= d * ramp) by (nonlinear_arith)
        requires
            d >= 0,
            0 <= a <= b <= ramp,
    ;
    vstd::arithmetic::div_mod::lemma_div_is_ordered(0, d * a, ramp);
    vstd::arithmetic::div_mod::lemma_div_is_ordered(d * a, d * b, ramp);
    vstd::arithmetic::div_mod::lemma_div_is_ordered(d * b, d * ramp, ramp);
    assert(d * ramp / ramp == d) by (nonlinear_arith)
        requires
            ramp > 0,
    ;
    assert(0int / ramp == 0) by (nonlinear_arith)
        requires
            ramp > 0,
    ;
    assert(d * 0 == 0);
}

/// The first of the largest has none before it as large, and none after it larger.
pub proof fn law_first_largest(tiles: Seq<int>)
    requires
        tiles.len() > 0,
    ensures
        ({
            let at = first_largest(tiles);
            &&& 0 <= at < tiles.len()
            &&& forall|i: int| 0 <= i < tiles.len() ==> #[trigger] tiles[i] <= tiles[at]
            &&& forall|i: int| 0 <= i < at ==> #[trigger] tiles[i] < tiles[at]
        }),
    decreases tiles.len(),
{
    if tiles.len() > 1 {
        let front = tiles.drop_last();
        law_first_largest(front);
        assert forall|i: int| 0 <= i < front.len() implies front[i] == #[trigger] tiles[i] by {}
    }
}

proof fn lemma_wearing(game: GameView, sid: u16, ships: Seq<Unit>, damage: int)
    ensures
        game.wearing_all(sid, ships, damage).players == game.players,
        game.wearing_all(sid, ships, damage).map == game.map,
        game.wearing_all(sid, ships, damage).config == game.config,
        game.wearing_all(sid, ships, damage).tick == game.tick,
    decreases ships.len(),
{
    if ships.len() > 0 {
        lemma_wearing(game, sid, ships.drop_last(), damage);
    }
}

/// The clock against a player: it is doomed from then on; while it is only warned nothing is
/// taken, and afterwards no more than its share. Nobody else is touched.
pub proof fn law_dooming(game: GameView, sid: u16)
    requires
        game.is_alive(sid),
        game.troops(sid) >= 0,
    ensures
        ({
            let after = game.dooming(sid);
            &&& after.is_doomed(sid)
            &&& after.is_alive(sid)
            &&& after.players.len() == game.players.len()
            &&& 0 <= after.troops(sid) <= game.troops(sid)
            &&& game.is_doomed(sid) ==> after.player(sid).doomsday_since == game.player(
                sid,
            ).doomsday_since
            &&& !game.is_doomed(sid) ==> after.player(sid).doomsday_since == Some(game.tick)
            &&& !game.is_doomed(sid) && game.config.doomsday.warn_seconds > 0 ==> after.troops(sid)
                == game.troops(sid) && after.units == game.units
            &&& game.is_doomed(sid) && game.tick - game.player(sid).doomsday_since->0 < 10
                * game.config.doomsday.warn_seconds ==> after.troops(sid) == game.troops(sid)
                && after.units == game.units
            &&& forall|id: u16| #[trigger]
                game.has(id) && id != sid ==> after.player(id) == game.player(id)
            &&& after.map == game.map
            &&& after.config == game.config
            &&& after.tick == game.tick
        }),
{
    let entered = game.entering_doom(sid);
    let seconds = entered.doomed_ticks(sid) / 10;
    let s = seconds - game.config.doomsday.warn_seconds;
    let drained = entered.troop_drain(sid, s);
    let bled = entered.losing(sid, drained * crate::config::TROOP_SCALE);
    lemma_wearing(
        bled,
        sid,
        bled.units_of(sid, UnitType::Warship),
        entered.warship_drain(s),
    );
}

/// Whoever does not fall behind is no longer doomed, and loses nothing.
pub proof fn law_clearing(game: GameView, sid: u16)
    requires
        game.is_alive(sid),
    ensures
        ({
            let after = game.clearing_doom(sid);
            &&& !after.is_doomed(sid)
            &&& after.is_alive(sid)
            &&& after.players.len() == game.players.len()
            &&& after.troops(sid) == game.troops(sid)
            &&& forall|id: u16| #[trigger]
                game.has(id) && id != sid ==> after.player(id) == game.player(id)
            &&& after.map == game.map
            &&& after.config == game.config
            &&& after.tick == game.tick
        }),
{
}

proof fn lemma_judged(game: GameView, sides: Seq<Seq<u16>>, ids: Seq<u16>, n: nat)
    requires
        n <= ids.len(),
        sides.len() == ids.len(),
        forall|i: int| 0 <= i < ids.len() ==> #[trigger] sides[i] == seq![ids[i]],
        ids.no_duplicates(),
        forall|i: int|
            0 <= i < ids.len() ==> game.is_alive(#[trigger] ids[i]) && game.troops(ids[i]) >= 0,
    ensures
        ({
            let after = game.judging_sides(sides, n);
            &&& after.players.len() == game.players.len()
            &&& forall|i: int|
                0 <= i < n ==> after.is_alive(#[trigger] ids[i]) && after.is_doomed(ids[i])
                    == game.falls_behind(sides, i)
            &&& forall|i: int|
                n <= i < ids.len() ==> after.player(#[trigger] ids[i]) == game.player(ids[i])
        }),
    decreases n,
{
    if n > 0 {
        let m = (n - 1) as nat;
        lemma_judged(game, sides, ids, m);
        let before = game.judging_sides(sides, m);
        let id = ids[n - 1];
        assert(sides[n - 1] == seq![id]);
        assert(seq![id].drop_last() =~= Seq::<u16>::empty());
        assert(before.player(id) == game.player(id));
        assert(before.is_alive(id));
        assert(before.dooming_all(Seq::<u16>::empty()) == before);
        assert(before.clearing_all(Seq::<u16>::empty()) == before);
        assert(before.dooming_all(seq![id]) == before.dooming(id));
        assert(before.clearing_all(seq![id]) == before.clearing_doom(id));
        law_dooming(before, id);
        law_clearing(before, id);
        let after = game.judging_sides(sides, n);
        assert forall|i: int| 0 <= i < n implies after.is_alive(#[trigger] ids[i])
            && after.is_doomed(ids[i]) == game.falls_behind(sides, i) by {
            if i < n - 1 {
                assert(ids[i] != id);
                assert(before.has(ids[i]));
            }
        }
        assert forall|i: int| n <= i < ids.len() implies after.player(#[trigger] ids[i])
            == game.player(ids[i]) by {
            assert(ids[i] != id);
            assert(game.is_alive(ids[i]));
            assert(before.has(ids[i]));
        }
    }
}

/// Where everybody plays alone, a contender is doomed after a second of the clock exactly where
/// it holds too little and another leads: one that holds more, or as much and comes first.
/// Whoever holds the most of all is never doomed.
pub proof fn law_doom(game: GameView)
    requires
        game.config.game_mode == GameMode::FreeForAll,
        game.contenders().len() >= 2,
        game.contenders().no_duplicates(),
        forall|id: u16| #[trigger]
            game.contenders().contains(id) ==> game.is_alive(id) && game.troops(id) >= 0,
    ensures
        ({
            let ids = game.contenders();
            let after = game.clock_ticking();
            forall|i: int|
                0 <= i < ids.len() ==> {
                    let id = #[trigger] ids[i];
                    let few = game.tiles_owned(id) < game.contested_land() * game.config.doomsday_bar
                        / 10_000;
                    &&& !few ==> !after.is_doomed(id)
                    &&& (forall|j: int|
                        0 <= j < ids.len() && j != i ==> game.tiles_owned(#[trigger] ids[j])
                            < game.tiles_owned(id)) ==> !after.is_doomed(id)
                    &&& few && (exists|j: int|
                        0 <= j < ids.len() && game.tiles_owned(#[trigger] ids[j])
                            > game.tiles_owned(id)) ==> after.is_doomed(id)
                }
        }),
{
    let ids = game.contenders();
    let sides = game.sides(ids);
    let tiles = game.side_tiles(sides);
    assert forall|i: int| 0 <= i < ids.len() implies #[trigger] sides[i] == seq![ids[i]] by {}
    assert forall|i: int| 0 <= i < ids.len() implies game.is_alive(#[trigger] ids[i])
        && game.troops(ids[i]) >= 0 by {
        assert(ids.contains(ids[i]));
    }
    lemma_judged(game, sides, ids, ids.len());
    law_first_largest(tiles);
    assert forall|i: int| 0 <= i < ids.len() implies #[trigger] tiles[i] == game.tiles_owned(
        ids[i],
    ) by {
        assert(sides[i] == seq![ids[i]]);
        assert(seq![ids[i]].drop_last() =~= Seq::<u16>::empty());
        assert(game.tiles_of_side(Seq::<u16>::empty()) == 0);
    }
    let after = game.clock_ticking();
    let at = first_largest(tiles);
    assert forall|i: int| 0 <= i < ids.len() implies ({
        let id = #[trigger] ids[i];
        let few = game.tiles_owned(id) < game.contested_land() * game.config.doomsday_bar / 10_000;
        &&& !few ==> !after.is_doomed(id)
        &&& (forall|j: int|
            0 <= j < ids.len() && j != i ==> game.tiles_owned(#[trigger] ids[j])
                < game.tiles_owned(id)) ==> !after.is_doomed(id)
        &&& few && (exists|j: int|
            0 <= j < ids.len() && game.tiles_owned(#[trigger] ids[j]) > game.tiles_owned(id))
            ==> after.is_doomed(id)
    }) by {
        let id = ids[i];
        assert(sides[i].len() == 1);
        let land = game.contested_land() * game.config.doomsday_bar;
        assert(land * 1 == land);
        assert(tiles[i] == game.tiles_owned(id));
        assert(tiles[at] == game.tiles_owned(ids[at]));
        if at != i {
            assert(tiles[i] <= tiles[at]);
        }
    }
}

/// A player that died has no gold and no allies, and of its units only nukes are left.
pub proof fn law_dying(game: GameView, sid: u16)
    requires
        game.has(sid),
    ensures
        ({
            let after = game.dying(sid);
            &&& !after.is_alive(sid)
            &&& after.gold(sid) == 0
            &&& forall|x: u16| !#[trigger] after.allied(sid, x)
            &&& forall|u: Unit| #[trigger]
                after.units.contains(u) == (game.units.contains(u) && (u.owner != sid
                    || u.unit_type.nuke()))
            &&& forall|a: u16, b: u16|
                a != sid && b != sid && game.allied(a, b) ==> #[trigger] after.allied(a, b)
        }),
{
    let after = game.dying(sid);
    let p = crate::game_diplomacy::without_member(sid);
    crate::lists::lemma_filter_members(game.units, crate::player::outlives(sid));
    crate::lists::lemma_filter_members(game.alliances, p);
    assert forall|x: u16| !#[trigger] after.allied(sid, x) by {
        if after.allied(sid, x) {
            let i = choose|i: int|
                0 <= i < after.alliances.len() && (#[trigger] after.alliances[i]).joins(sid, x);
            assert(after.alliances.contains(after.alliances[i]));
            assert(p(after.alliances[i]));
        }
    }
    assert forall|a: u16, b: u16|
        a != sid && b != sid && game.allied(a, b) implies #[trigger] after.allied(a, b) by {
        let i = choose|i: int|
            0 <= i < game.alliances.len() && (#[trigger] game.alliances[i]).joins(a, b);
        assert(game.alliances.contains(game.alliances[i]) && p(game.alliances[i]));
        assert(after.alliances.contains(game.alliances[i]));
        let k = choose|k: int|
            0 <= k < after.alliances.len() && after.alliances[k] == game.alliances[i];
        assert(after.alliances[k].joins(a, b));
    }
}

/// A structure stays with a player while it owns the land, goes to whoever owns it then, and is
/// lost where nobody does; defense posts are never taken over.
pub proof fn law_structures_follow_the_land(game: GameView, sid: u16, u: Unit)
    requires
        game.unit(sid, u.id) == Some(u),
        sid != 0,
    ensures
        ({
            let owner = game.map.owner(u.tile);
            let after = game.settling_structure(sid, u);
            &&& owner == sid ==> after == game
            &&& owner == 0 ==> !after.units.contains(u)
            &&& owner != sid && u.unit_type == UnitType::DefensePost ==> !after.units.contains(u)
            &&& owner != sid && owner != 0 && u.unit_type != UnitType::DefensePost && game.has(
                owner,
            ) ==> {
                &&& after.units.last().id == u.id
                &&& after.units.last().owner == owner
                &&& after.units.last().tile == u.tile
                &&& after.units.last().level == u.level
                &&& after.units.last().unit_type == u.unit_type
                &&& !after.units.contains(u)
            }
            &&& forall|x: Unit| #[trigger]
                game.units.contains(x) && !(x.owner == sid && x.id == u.id)
                    ==> after.units.contains(x)
        }),
{
    let p = |x: Unit| !(x.owner == sid && x.id == u.id);
    let kept = game.units.filter(p);
    let after = game.settling_structure(sid, u);
    crate::lists::lemma_filter_members(game.units, p);
    crate::game_units::lemma_unit_at(game.units, sid, u.id);
    let owner = game.map.owner(u.tile);
    assert(u.owner == sid);
    assert(!p(u));
    if owner != sid && owner != 0 && u.unit_type != UnitType::DefensePost && game.has(owner) {
        let taken = Unit { owner, deletion_tick: None, ..u };
        assert(after.units =~= kept.push(taken));
        assert(after.units.last() == taken);
        assert forall|x: Unit| #[trigger] game.units.contains(x) && !(x.owner == sid && x.id
            == u.id) implies after.units.contains(x) by {
            assert(kept.contains(x));
            let k = choose|k: int| 0 <= k < kept.len() && kept[k] == x;
            assert(after.units[k] == x);
        }
        if after.units.contains(u) {
            let k = choose|k: int| 0 <= k < after.units.len() && after.units[k] == u;
            if k < kept.len() {
                assert(kept[k] == u);
                assert(kept.contains(u));
            } else {
                assert(u == taken);
            }
        }
        assert(!after.units.contains(u));
    } else if owner != sid && (owner == 0 || u.unit_type == UnitType::DefensePost) {
        assert(after.units == kept);
        assert(!p(u));
        assert forall|x: Unit| #[trigger] game.units.contains(x) && !(x.owner == sid && x.id
            == u.id) implies after.units.contains(x) by {
            assert(p(x));
        }
    } else {
        assert(after == game);
    }
}

/// Who has a structure laid out can pay for it and pays its price; the structure is new, of the
/// first level and finished only where building takes no time. Nothing else is built.
pub proof fn law_laid_out(c: ConstructionExecution, game: GameView)
    requires
        game.gold(c.small_id) >= 0,
        game.cost(c.small_id, c.unit_type) >= 0,
        game.gold(c.small_id) <= i64::MAX,
        game.unit(c.small_id, game.next_unit_id) is None,
    ensures
        ({
            let after = c.laid_out(game);
            match c.place(game) {
                Some(site) => {
                    &&& game.gold(c.small_id) >= game.cost(c.small_id, c.unit_type)
                    &&& after.gold(c.small_id) == game.gold(c.small_id) - game.cost(
                        c.small_id,
                        c.unit_type,
                    )
                    &&& after.units.len() == game.units.len() + 1
                    &&& after.units.last().owner == c.small_id
                    &&& after.units.last().unit_type == c.unit_type
                    &&& after.units.last().tile == site
                    &&& after.units.last().level == 1
                    &&& after.units.last().under_construction == (game.config.build_ticks(
                        c.unit_type,
                    ) > 0)
                    &&& forall|i: int|
                        0 <= i < game.units.len() ==> after.units[i] == #[trigger] game.units[i]
                },
                None => after == game,
            }
        }),
{
    match c.place(game) {
        Some(site) => {
            let built = game.building(c.small_id, c.unit_type, site);
            let id = game.next_unit_id;
            lemma_newest(game.units, built.units.last(), c.small_id, id);
            assert(built.units =~= game.units.push(built.units.last()));
            assert(crate::game_units::unit_at(built.units, c.small_id, id) == game.units.len());
        },
        None => {},
    }
}

proof fn lemma_newest(units: Seq<Unit>, u: Unit, sid: u16, id: i32)
    requires
        crate::game_units::unit_at(units, sid, id) >= units.len(),
        u.owner == sid,
        u.id == id,
    ensures
        crate::game_units::unit_at(units.push(u), sid, id) == units.len(),
    decreases units.len(),
{
    let more = units.push(u);
    if units.len() > 0 {
        assert(more[0] == units[0]);
        assert(more.skip(1) =~= units.skip(1).push(u));
        lemma_newest(units.skip(1), u, sid, id);
    } else {
        assert(more[0] == u);
    }
}

/// A structure under construction has one tick less to go after each, and works once there is
/// none left, not before.
pub proof fn law_construction_time(c: ConstructionExecution, game: GameView, tick: u32)
    requires
        c.active,
        c.unit_type.structure(),
        c.unit_id is Some,
        game.unit_owner(c.unit_id->0) is Some,
    ensures
        c.ticks_until_complete > 0 ==> c.next(game).active && c.next(game).ticks_until_complete
            == c.ticks_until_complete - 1 && c.ticked(game, tick) == game,
        c.ticks_until_complete == 0 ==> !c.next(game).active,
        c.next(game).small_id == game.unit_owner(c.unit_id->0)->0,
{
}

/// What a player deletes is its own and stands on its own land; it is marked at once and goes
/// when its time is over, and not before.
pub proof fn law_deleting(d: DeleteUnitExecution, game: GameView, tick: u32)
    requires
        d.active,
    ensures
        d.first(game).active ==> {
            let u = game.unit(d.small_id, d.unit_id);
            &&& u is Some
            &&& u->0.owner == d.small_id
            &&& game.map.owner(u->0.tile) == d.small_id
            &&& game.map.is_land(u->0.tile)
            &&& !game.spawn_phase
            &&& d.begun(game, tick).player(d.small_id).last_delete_tick == Some(game.tick)
            &&& d.begun(game, tick).units.len() == game.units.len()
        },
        d.marked && game.unit(d.small_id, d.unit_id) is Some ==> {
            let u = game.unit(d.small_id, d.unit_id)->0;
            &&& u.deletion_tick is Some && game.tick > u.deletion_tick->0 ==> !d.ticked(
                game,
                tick,
            ).units.contains(u)
            &&& u.deletion_tick is Some && game.tick <= u.deletion_tick->0 ==> d.ticked(game, tick)
                == game
            &&& u.deletion_tick is None ==> d.ticked(game, tick) == game
        },
{
    crate::game_units::lemma_unit_at(game.units, d.small_id, d.unit_id);
    let p = |x: Unit| !(x.owner == d.small_id && x.id == d.unit_id);
    crate::lists::lemma_filter_members(game.units, p);
}

/// Reloading forgets one launch of the unit, the oldest, and none of others.
pub proof fn law_reloading(launches: Seq<Launch>, id: i32)
    ensures
        ({
            let after = crate::game_structures::reloaded(launches, id);
            let own = |l: Launch| l.unit_id == id;
            let foreign = |l: Launch| l.unit_id != id;
            &&& launches.filter(own).len() > 0 ==> after.filter(own) == launches.filter(own).skip(1)
                && after.len() == launches.len() - 1
            &&& launches.filter(own).len() == 0 ==> after == launches
            &&& after.filter(foreign) == launches.filter(foreign)
        }),
    decreases launches.len(),
{
    let own = |l: Launch| l.unit_id == id;
    let foreign = |l: Launch| l.unit_id != id;
    reveal(Seq::filter);
    if launches.len() > 0 {
        let rest = launches.skip(1);
        let head = launches[0];
        law_reloading(rest, id);
        let after = crate::game_structures::reloaded(launches, id);
        assert(launches =~= seq![head] + rest);
        lemma_filter_first(head, rest, own);
        lemma_filter_first(head, rest, foreign);
        if head.unit_id == id {
            assert((seq![head] + rest.filter(own)).skip(1) =~= rest.filter(own));
        } else {
            let inner = crate::game_structures::reloaded(rest, id);
            lemma_filter_first(head, inner, own);
            lemma_filter_first(head, inner, foreign);
            if rest.filter(own).len() == 0 {
                assert(seq![head] + inner =~= launches);
            }
        }
    }
}

proof fn lemma_filter_first(x: Launch, s: Seq<Launch>, p: spec_fn(Launch) -> bool)
    ensures
        (seq![x] + s).filter(p) == (if p(x) {
            seq![x] + s.filter(p)
        } else {
            s.filter(p)
        }),
    decreases s.len(),
{
    reveal(Seq::filter);
    let all = seq![x] + s;
    if s.len() == 0 {
        assert(all =~= seq![x]);
        assert(all.drop_last() =~= Seq::<Launch>::empty());
        assert(all.drop_last().filter(p) =~= Seq::<Launch>::empty());
        assert(all.filter(p) =~= (if p(x) {
            seq![x] + s.filter(p)
        } else {
            s.filter(p)
        }));
    } else {
        let front = s.drop_last();
        lemma_filter_first(x, front, p);
        assert(all.drop_last() =~= seq![x] + front);
        assert(all.last() == s.last());
        if p(s.last()) {
            if p(x) {
                assert((seq![x] + front.filter(p)).push(s.last()) =~= seq![x] + front.filter(p).push(
                    s.last(),
                ));
            }
        }
    }
}

/// The higher the level of a SAM launcher, the farther it reaches; one of the first level
/// reaches seventy tiles, and none as far as a hundred and fifty.
pub proof fn law_sam_range(dist2: int, level: int)
    requires
        dist2 >= 0,
        level >= 1,
    ensures
        crate::config::within_sam_range(dist2, level) ==> crate::config::within_sam_range(
            dist2,
            level + 1,
        ),
        crate::config::within_sam_range(dist2, level) ==> dist2 < 150 * 150,
        crate::config::within_sam_range(dist2, 1) == (dist2 <= 70 * 70),
        forall|nearer: int|
            0 <= nearer <= dist2 && crate::config::within_sam_range(dist2, level)
                ==> #[trigger] crate::config::within_sam_range(nearer, level),
{
    let l = level + 5;
    let (a, b) = (150 * l - 480, 150 * (l + 1) - 480);
    let (p, q) = (l * l, (l + 1) * (l + 1));
    assert(6int * 6 == 36 && 420int * 420 == 176_400);
    assert(dist2 * (6int * 6) == dist2 * 36);
    if crate::config::within_sam_range(dist2, level) {
        assert(dist2 * q <= b * b) by (nonlinear_arith)
            requires
                dist2 * p <= a * a,
                p == l * l,
                q == (l + 1) * (l + 1),
                a == 150 * l - 480,
                b == 150 * (l + 1) - 480,
                l >= 6,
                dist2 >= 0,
        {
            assert(a * a * q <= b * b * p) by (nonlinear_arith)
                requires
                    p == l * l,
                    q == (l + 1) * (l + 1),
                    a == 150 * l - 480,
                    b == 150 * (l + 1) - 480,
                    l >= 6,
            {
                assert(0 <= a * (l + 1) <= b * l) by (nonlinear_arith)
                    requires
                        a == 150 * l - 480,
                        b == 150 * (l + 1) - 480,
                        l >= 6,
                ;
                assert((a * (l + 1)) * (a * (l + 1)) <= (b * l) * (b * l)) by (nonlinear_arith)
                    requires
                        0 <= a * (l + 1) <= b * l,
                ;
                assert((a * (l + 1)) * (a * (l + 1)) == a * a * ((l + 1) * (l + 1)))
                    by (nonlinear_arith);
                assert((b * l) * (b * l) == b * b * (l * l)) by (nonlinear_arith);
            }
            assert(dist2 * p * q <= a * a * q) by (nonlinear_arith)
                requires
                    dist2 * p <= a * a,
                    q >= 0,
            ;
            assert((dist2 * q) * p == dist2 * p * q) by (nonlinear_arith);
            assert((dist2 * q) * p <= (b * b) * p);
            assert(p > 0);
        }
        assert(dist2 < 22_500) by (nonlinear_arith)
            requires
                dist2 * p <= a * a,
                p == l * l,
                a == 150 * l - 480,
                l >= 6,
        ;
        assert forall|nearer: int|
            0 <= nearer <= dist2 implies #[trigger] crate::config::within_sam_range(
            nearer,
            level,
        ) by {
            assert(nearer * p <= dist2 * p) by (nonlinear_arith)
                requires
                    nearer <= dist2,
                    p >= 0,
            ;
        }
    }
}

} // verus!
