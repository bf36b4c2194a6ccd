//! What holds of arms and structures: what shoots down what, what is built, and what it does.

use vstd::prelude::*;

use crate::config::Difficulty;
use crate::construction::ConstructionExecution;
use crate::execution::Execution;
use crate::game::GameView;
use crate::mirv_ai::hesitation;
use crate::missile_silo_execution::MissileSiloExecution;
use crate::nation_emoji::Mind;
use crate::nuke_ai::{first_index, NukeMemory};
use crate::ordered_tiles::TileRef;
use crate::orders::Order;
use crate::port_execution::PortExecution;
use crate::state::{AllianceRequest, PlayerType, Unit};
use crate::unit_type::UnitType;

verus! {

/// Structures, nukes and ships are of different kinds; all structures but defense posts can be
/// upgraded, and trains stop at cities, ports and factories.
pub proof fn law_unit_kinds(kind: UnitType)
    ensures
        !(kind.structure() && kind.nuke()),
        kind.station() ==> kind.upgradable(),
        kind.upgradable() == (kind.structure() && kind != UnitType::DefensePost),
        UnitType::City.station() && UnitType::Port.station() && UnitType::Factory.station(),
        !UnitType::MissileSilo.station() && !UnitType::SamLauncher.station(),
        UnitType::DefensePost.structure() && UnitType::MissileSilo.structure()
            && UnitType::SamLauncher.structure() && UnitType::City.structure(),
        UnitType::AtomBomb.nuke() && UnitType::HydrogenBomb.nuke() && UnitType::Mirv.nuke()
            && UnitType::MirvWarhead.nuke(),
        !UnitType::SamMissile.nuke() && !UnitType::Transport.nuke() && !UnitType::Warship.nuke(),
        !UnitType::Transport.structure() && !UnitType::Warship.structure()
            && !UnitType::Train.structure() && !UnitType::TradeShip.structure(),
{
}

/// Levels add up, and what is still being built counts once among what is owned.
pub proof fn law_levels(units: Seq<Unit>, u: Unit)
    ensures
        crate::game_units::level_sum(units.push(u)) == crate::game_units::level_sum(units) + u.level,
        u.under_construction ==> crate::game_units::owned_sum(units.push(u))
            == crate::game_units::owned_sum(units) + 1,
        !u.under_construction ==> crate::game_units::owned_sum(units.push(u))
            == crate::game_units::owned_sum(units) + u.level,
{
    assert(units.push(u).drop_last() =~= units);
}

proof fn lemma_first_index(s: Seq<TileRef>, from: int, p: spec_fn(TileRef) -> bool)
    requires
        0 <= from,
    ensures
        ({
            let at = first_index(s, from, p);
            &&& at <= s.len()
            &&& from <= s.len() ==> from <= at
            &&& from <= at < s.len() ==> p(s[at])
            &&& forall|i: int| from <= i < at ==> !p(#[trigger] s[i])
        }),
    decreases s.len() - from,
{
    if from < s.len() && !p(s[from]) {
        lemma_first_index(s, from + 1, p);
    }
}

/// Where a missile cannot be shot down it has left the surroundings of its start, and has not
/// come near its target yet.
pub proof fn law_safe_part(game: GameView, path: Seq<TileRef>, src: TileRef, dst: TileRef)
    ensures
        ({
            let (start, end) = game.safe_part(path, src, dst);
            let reach = game.config.nuke_targetable_range * game.config.nuke_targetable_range;
            &&& 0 <= start <= end <= path.len()
            &&& start < end ==> game.map.dist2(path[start], src) > reach
            &&& forall|i: int|
                start <= i < end ==> game.map.dist2(dst, #[trigger] path[i]) >= reach
            &&& start < end ==> forall|i: int|
                0 <= i < start ==> game.map.dist2(#[trigger] path[i], src) <= reach
            &&& start < end ==> end < path.len() && game.map.dist2(dst, path[end]) < reach
        }),
{
    let far = game.beyond_reach(src);
    let near = game.nearing(dst);
    lemma_first_index(path, 0, far);
    let start = first_index(path, 0, far);
    lemma_first_index(path, start + 1, near);
    let end = first_index(path, start + 1, near);
    let reach = game.config.nuke_targetable_range * game.config.nuke_targetable_range;
    if start < path.len() {
        assert(far(path[start]));
        if end < path.len() {
            assert(near(path[end]));
        }
    }
    assert forall|i: int| 0 <= i < start implies game.map.dist2(#[trigger] path[i], src)
        <= reach by {
        assert(!far(path[i]));
    }
    let part = game.safe_part(path, src, dst);
    assert forall|i: int| part.0 <= i < part.1 implies game.map.dist2(dst, #[trigger] path[i])
        >= reach by {
        if i > start {
            assert(!near(path[i]));
        }
    }
}

/// A SAM launcher reaches a tile for a nation to fear where it is an enemy's and in range; those
/// of friends and its own never do.
pub proof fn law_covering(game: GameView, sid: u16, tile: TileRef, u: Unit)
    requires
        u.level >= 1,
        game.map.dist2(tile, u.tile) >= 0,
    ensures
        game.covering(sid, tile)(u) ==> u.unit_type == UnitType::SamLauncher && !game.is_friendly(
            sid,
            u.owner,
        ) && game.map.dist2(tile, u.tile) < 150 * 150,
        u.unit_type == UnitType::SamLauncher && !game.is_friendly(sid, u.owner) && game.map.dist2(
            tile,
            u.tile,
        ) <= 70 * 70 && u.level == 1 ==> game.covering(sid, tile)(u),
        game.is_friendly(sid, u.owner) ==> !game.covering(sid, tile)(u),
{
    crate::laws_realm::law_sam_range(game.map.dist2(tile, u.tile), u.level as int);
}

/// A nuke can be shot down exactly where its path, but for the safe part, meets a tile that an
/// enemy's SAM launcher reaches which is not ignored; ignoring more never makes it worse.
pub proof fn law_interceptable(
    game: GameView,
    sid: u16,
    src: TileRef,
    dst: TileRef,
    ignored: Seq<i32>,
    more: i32,
)
    ensures
        game.interceptable(sid, src, dst, ignored.push(more)) ==> game.interceptable(
            sid,
            src,
            dst,
            ignored,
        ),
        (forall|i: int|
            0 <= i < game.units.len() && (#[trigger] game.units[i]).unit_type
                == UnitType::SamLauncher ==> game.is_friendly(sid, game.units[i].owner))
            ==> !game.interceptable(sid, src, dst, ignored),
{
    let path = game.map.flight(src, dst, game.config.nuke_speed as int, true, true);
    let (start, end) = game.safe_part(path, src, dst);
    if game.interceptable(sid, src, dst, ignored.push(more)) {
        let i = choose|i: int|
            0 <= i < path.len() && !(start <= i < end) && game.covered(
                sid,
                #[trigger] path[i],
                ignored.push(more),
            );
        let k = choose|k: int|
            0 <= k < game.units.len() && game.covering(sid, path[i])(#[trigger] game.units[k])
                && !ignored.push(more).contains(game.units[k].id);
        if ignored.contains(game.units[k].id) {
            let m = choose|m: int| 0 <= m < ignored.len() && ignored[m] == game.units[k].id;
            assert(ignored.push(more)[m] == game.units[k].id);
        }
        assert(game.covering(sid, path[i])(game.units[k]));
        assert(game.covered(sid, path[i], ignored));
    }
    if game.interceptable(sid, src, dst, ignored) {
        let i = choose|i: int|
            0 <= i < path.len() && !(start <= i < end) && game.covered(
                sid,
                #[trigger] path[i],
                ignored,
            );
        let k = choose|k: int|
            0 <= k < game.units.len() && game.covering(sid, path[i])(#[trigger] game.units[k])
                && !ignored.contains(game.units[k].id);
        assert(game.units[k].unit_type == UnitType::SamLauncher);
        assert(!game.is_friendly(sid, game.units[k].owner));
    }
}

/// A tough nation sends no nuke that can be shot down; in a team game, but the easiest, none
/// sends one where a friend's is about to hit.
pub proof fn law_wise_nukes(game: GameView, sid: u16, target: u16, t: TileRef, nuke: UnitType, u: Unit)
    requires
        game.nukable(sid, target, t, nuke),
        game.units.contains(u),
    ensures
        game.config.difficulty == Difficulty::Hard || game.config.difficulty
            == Difficulty::Impossible ==> !game.interceptable(
            sid,
            game.launch_site(sid, nuke, t)->0,
            t,
            Seq::empty(),
        ),
        game.config.is_team() && game.config.difficulty != Difficulty::Easy && u.owner != sid
            && game.has(u.owner) && game.is_friendly(sid, u.owner) && (u.unit_type
            == UnitType::AtomBomb || u.unit_type == UnitType::HydrogenBomb) && u.target_tile
            is Some ==> {
            let r = game.config.magnitude(nuke).inner + game.config.magnitude(u.unit_type).inner;
            game.map.dist2(t, u.target_tile->0) > r * r
        },
{
    let i = choose|i: int| 0 <= i < game.units.len() && game.units[i] == u;
    if game.shared_target(sid, t, nuke)(u) {
        assert(game.shared_target(sid, t, nuke)(game.units[i]));
        assert(crate::lists::some_where(game.units, game.shared_target(sid, t, nuke)));
    }
}

/// SAM launchers that a hydrogen bomb destroys from out of their range count a hundred thousand
/// for each level; those of the fifth level on, and those that could defend themselves, nothing.
pub proof fn law_outranged(game: GameView, t: TileRef, outer: int, units: Seq<Unit>, u: Unit)
    ensures
        ({
            let more = game.outranged(t, outer, units.push(u)) - game.outranged(t, outer, units);
            let d2 = game.map.dist2(t, u.tile);
            &&& u.unit_type != UnitType::SamLauncher ==> more == 0
            &&& d2 > outer * outer || u.level >= 5 || crate::config::within_sam_range(
                d2,
                u.level as int,
            ) ==> more == 0
            &&& u.unit_type == UnitType::SamLauncher && d2 <= outer * outer && u.level < 5
                && !crate::config::within_sam_range(d2, u.level as int) ==> more == 100_000
                * u.level
        }),
{
    assert(units.push(u).drop_last() =~= units);
}

/// While a nation saves for a MIRV its nukes seem as dear as it remembers; it stops where it is
/// overrun on the two highest difficulties.
pub proof fn law_saving_for_mirvs(game: GameView, sid: u16, memory: NukeMemory)
    requires
        game.alive_ids().len() != 2,
        !game.config.disabled(UnitType::Mirv),
        !game.config.is_team(),
        game.gold(sid) <= game.cost(sid, UnitType::Mirv) + game.cost(sid, UnitType::HydrogenBomb),
    ensures
        crate::game_war::troop_sum(game.incoming(sid, false)) < game.troops(sid) * 100_000
            ==> game.perceived_cost(sid, memory, UnitType::AtomBomb) == memory.atom_cost
            && game.perceived_cost(sid, memory, UnitType::HydrogenBomb) == memory.hydrogen_cost,
        game.config.difficulty == Difficulty::Easy || game.config.difficulty == Difficulty::Medium
            ==> game.perceived_cost(sid, memory, UnitType::AtomBomb) == memory.atom_cost,
        crate::game_war::troop_sum(game.incoming(sid, false)) >= game.troops(sid) * 100_000 && (
        game.config.difficulty == Difficulty::Hard || game.config.difficulty
            == Difficulty::Impossible) ==> game.perceived_cost(sid, memory, UnitType::AtomBomb)
            == game.cost(sid, UnitType::AtomBomb),
{
}

/// The harder the game, the less a nation hesitates to send a MIRV.
pub proof fn law_hesitation()
    ensures
        2 <= hesitation(Difficulty::Easy) < hesitation(Difficulty::Medium),
        hesitation(Difficulty::Medium) < hesitation(Difficulty::Hard),
        hesitation(Difficulty::Hard) < hesitation(Difficulty::Impossible),
{
}

/// A nation that sends a MIRV has a silo and the gold for it, and did not hesitate.
pub proof fn law_considering(m: Mind, sid: u16)
    ensures
        m.considering(sid).1 ==> {
            &&& !m.game.config.disabled(UnitType::Mirv)
            &&& m.game.gold(sid) >= m.game.cost(sid, UnitType::Mirv)
            &&& m.game.units_of(sid, UnitType::MissileSilo).len() > 0
            &&& !crate::prng::chance_drawn(m.rng, hesitation(m.game.config.difficulty))
            &&& m.game.mirv_choice(sid) is Some
        },
        !m.considering(sid).1 ==> m.considering(sid).0.game == m.game,
{
}

/// The largest member of a team is one of it, and none of it has more tiles.
pub proof fn law_largest_mate(game: GameView, sid: u16, ids: Seq<u16>)
    ensures
        ({
            let (best, most) = game.largest_mate(sid, ids);
            &&& best is Some ==> ids.contains(best->0) && game.teamed(best->0, sid) && most
                == game.tiles_owned(best->0)
            &&& best is None ==> most == -1
            &&& most >= -1
            &&& forall|id: u16| #[trigger]
                ids.contains(id) && game.teamed(id, sid) ==> game.tiles_owned(id) <= most
        }),
    decreases ids.len(),
{
    if ids.len() > 0 {
        let front = ids.drop_last();
        let last = ids.last();
        law_largest_mate(game, sid, front);
        assert(ids[ids.len() - 1] == last);
        assert forall|id: u16| #[trigger] front.contains(id) implies ids.contains(id) by {
            let i = choose|i: int| 0 <= i < front.len() && front[i] == id;
            assert(ids[i] == id);
        }
        assert forall|id: u16| #[trigger] ids.contains(id) implies id == last || front.contains(
            id,
        ) by {
            let i = choose|i: int| 0 <= i < ids.len() && ids[i] == id;
            if i < front.len() {
                assert(front[i] == id);
            }
        }
    }
}

/// A team threatens to win with nine tenths of the land on the lowest difficulty and three
/// fifths on the highest, and only its largest member is held to it.
pub proof fn law_team_threat(game: GameView, sid: u16)
    requires
        game.teamed(sid, sid),
        game.threat(sid, Difficulty::Impossible) > 0,
    ensures
        game.team_tiles(sid, game.alive_ids()) * 10 >= game.land() * 6,
        game.threat(sid, Difficulty::Easy) > 0 ==> game.team_tiles(sid, game.alive_ids()) * 10
            >= game.land() * 9,
        forall|id: u16| #[trigger]
            game.alive_ids().contains(id) && game.teamed(id, sid) ==> game.tiles_owned(id)
                <= game.tiles_owned(sid),
{
    law_largest_mate(game, sid, game.alive_ids());
}

/// The tile nearest as the crow flies is one of those given, and none of them is nearer.
pub proof fn law_nearest_straight(game: GameView, tiles: Seq<TileRef>, t: TileRef)
    ensures
        match game.nearest_straight(tiles, t) {
            Some(best) => tiles.contains(best) && forall|x: TileRef| #[trigger]
                tiles.contains(x) ==> game.map.dist2(best, t) <= game.map.dist2(x, t),
            None => tiles.len() == 0,
        },
    decreases tiles.len(),
{
    if tiles.len() > 0 {
        let front = tiles.drop_last();
        let last = tiles.last();
        law_nearest_straight(game, front, t);
        assert(tiles[tiles.len() - 1] == last);
        assert forall|x: TileRef| #[trigger] front.contains(x) implies tiles.contains(x) by {
            let i = choose|i: int| 0 <= i < front.len() && front[i] == x;
            assert(tiles[i] == x);
        }
        assert forall|x: TileRef| #[trigger] tiles.contains(x) implies x == last || front.contains(
            x,
        ) by {
            let i = choose|i: int| 0 <= i < tiles.len() && tiles[i] == x;
            if i < front.len() {
                assert(front[i] == x);
            }
        }
    }
}

/// A MIRV goes to the middle of the target's land, or to the border tile nearest to it where the
/// middle is not the target's.
pub proof fn law_heartland(game: GameView, sid: u16)
    ensures
        match game.heartland(sid) {
            Some(t) => {
                &&& game.center(sid) is Some
                &&& game.map.owner(game.center(sid)->0) == sid ==> t == game.center(sid)->0
                &&& game.map.owner(game.center(sid)->0) != sid ==> game.border(sid).contains(t)
                    && forall|x: TileRef| #[trigger]
                    game.border(sid).contains(x) ==> game.map.dist2(t, game.center(sid)->0)
                        <= game.map.dist2(x, game.center(sid)->0)
            },
            None => game.border(sid).len() == 0,
        },
{
    match game.center(sid) {
        Some(t) => law_nearest_straight(game, game.border(sid), t),
        None => {
            assert(game.map.bbox(game.border(sid)) is None);
        },
    }
}

/// A silo reloads a missile once its cooldown is over, not before, and one at a time.
pub proof fn law_silo_reload(silo: MissileSiloExecution, game: GameView, tick: u32)
    requires
        game.unit(silo.small_id, silo.unit_id) is Some,
        !game.unit(silo.small_id, silo.unit_id)->0.under_construction,
        game.launches_of(silo.unit_id).len() > 0,
    ensures
        ({
            let launched = game.launches_of(silo.unit_id)[0].tick;
            let after = silo.ticked(game, tick);
            &&& game.tick - launched < game.config.silo_cooldown ==> after == game
            &&& game.tick - launched >= game.config.silo_cooldown ==> after.launches_of(
                silo.unit_id,
            ) == game.launches_of(silo.unit_id).skip(1)
        }),
{
    crate::laws_realm::law_reloading(game.launches, silo.unit_id);
    let own = |l: crate::state::Launch| l.unit_id == silo.unit_id;
    assert(game.launches_of(silo.unit_id) == game.launches.filter(own));
    let after = game.reloading(silo.small_id, silo.unit_id);
    assert(after.launches_of(silo.unit_id) == after.launches.filter(own));
}

/// What is finished begins to work: for each kind of structure the order that runs it.
pub proof fn law_completing(game: GameView, sid: u16, id: i32)
    ensures
        game.completing(sid, UnitType::City, id).pending.last() == (Order::City {
            small_id: sid,
            unit_id: id,
        }),
        game.completing(sid, UnitType::Port, id).pending.last() == (Order::Port {
            small_id: sid,
            unit_id: id,
        }),
        game.completing(sid, UnitType::Factory, id).pending.last() == (Order::Factory {
            small_id: sid,
            unit_id: id,
        }),
        game.completing(sid, UnitType::DefensePost, id).pending.last() == (Order::DefensePost {
            small_id: sid,
            unit_id: id,
        }),
        game.completing(sid, UnitType::MissileSilo, id).pending.last() == (Order::MissileSilo {
            small_id: sid,
            unit_id: id,
        }),
        game.completing(sid, UnitType::SamLauncher, id).pending.last() == (Order::SamLauncher {
            small_id: sid,
            unit_id: id,
        }),
{
}

/// What is no structure is launched at once, at the tile that was asked for.
pub proof fn law_launching(c: ConstructionExecution, game: GameView, tick: u32)
    requires
        c.active,
        !c.delegated,
        !c.unit_type.structure(),
    ensures
        c.unit_type == UnitType::Mirv ==> c.ticked(game, tick).pending.last() == (Order::Mirv {
            owner: c.small_id,
            dst: c.tile,
        }),
        c.unit_type == UnitType::Warship ==> c.ticked(game, tick).pending.last() == (
        Order::Warship { small_id: c.small_id, tile: c.tile }),
        c.unit_type == UnitType::AtomBomb || c.unit_type == UnitType::HydrogenBomb ==> c.ticked(
            game,
            tick,
        ).pending.last() == (Order::Nuke {
            nuke_type: c.unit_type,
            owner: c.small_id,
            dst: c.tile,
            src: None,
            speed: None,
            wait_ticks: 0,
            rocket_direction_up: c.rocket_direction_up,
        }),
        !c.next(game).active,
{
}

/// A structure gets a train station where a factory stands within range, and nothing happens
/// where none does.
pub proof fn law_connecting(game: GameView, sid: u16, id: i32, u: Unit)
    requires
        game.unit(sid, id) == Some(u),
    ensures
        ({
            let range = game.config.train_station_max_range as int;
            let near = exists|i: int|
                0 <= i < game.units.len() && (#[trigger] game.units[i]).unit_type
                    == UnitType::Factory && game.map.dist2(u.tile, game.units[i].tile) <= range
                    * range;
            let after = game.connecting(sid, id);
            &&& !near ==> after == game
            &&& near ==> after.pending == game.pending.push(
                Order::TrainStation { small_id: sid, unit_id: id, spawns_trains: false },
            ) && after.units.len() == game.units.len() && exists|i: int|
                0 <= i < after.units.len() && (#[trigger] after.units[i]).id == id
                    && after.units[i].owner == sid && after.units[i].has_train_station
        }),
{
    crate::game_units::lemma_unit_at(game.units, sid, id);
    let at = crate::game_units::unit_at(game.units, sid, id);
    let after = game.connecting(sid, id);
    if after != game {
        assert(after.units[at].id == id);
    }
}

/// A port sends a ship at most every tenth tick, only where its luck holds, and only to one of
/// the ports that it trades with.
pub proof fn law_port_ships(port: PortExecution, game: GameView, tick: u32)
    requires
        port.active,
        port.stands(game),
        port.random is Some,
    ensures
        ({
            let opened = port.connected(game);
            let after = port.ticked(game, tick);
            let tile = game.unit(port.small_id, port.unit_id)->0.tile;
            let ports = opened.trading_ports(port.small_id, tile);
            let due = (tick + port.check_offset) % 10 == 0;
            &&& !due || !port.draws(game).0 || ports.len() == 0 ==> after.pending == opened.pending
            &&& due && port.draws(game).0 && ports.len() > 0 ==> exists|i: int|
                0 <= i < ports.len() && after.pending == opened.pending.push(
                    Order::TradeShip {
                        small_id: port.small_id,
                        src_unit_id: port.unit_id,
                        dst_unit_id: (#[trigger] ports[i]).1,
                    },
                )
            &&& due && port.draws(game).0 ==> port.rejections_after(game, tick) == 0
            &&& due && !port.draws(game).0 && port.trade_ship_spawn_rejections < 1_000_000_000
                && 0 <= port.trade_ship_spawn_rejections && port.draws(game).1 < 1_000_000_000
                ==> port.rejections_after(game, tick) == port.trade_ship_spawn_rejections
                + port.draws(game).1
            &&& !due ==> port.rejections_after(game, tick) == port.trade_ship_spawn_rejections
        }),
{
    let opened = port.connected(game);
    let tile = game.unit(port.small_id, port.unit_id)->0.tile;
    let ports = opened.trading_ports(port.small_id, tile);
    if ports.len() > 0 {
        let s = port.draws(game).2;
        crate::prng::lemma_int_drawn(s, 0, ports.len() as int);
        let i = crate::prng::int_drawn(s, 0, ports.len() as int);
        assert(crate::prng::element_drawn(s, ports).0 == Some(ports[i]));
    }
}

/// A nation answers each request: it turns down those from the time in which players spawn, and
/// allies with whom it decides to.
pub proof fn law_answered_requests(m: Mind, sid: u16, r: AllianceRequest)
    requires
        r.requestor_small_id != sid,
    ensures
        ({
            let after = m.answering(sid, seq![r]);
            let from = r.requestor_small_id;
            let early = r.created_at <= m.game.config.num_spawn_phase_turns + 1;
            let (wanted, decided) = m.deciding(sid, from, true);
            &&& !after.game.requested(from, sid)
            &&& early ==> after.game.alliances == m.game.alliances
            &&& !early && wanted ==> after.game.allied(from, sid)
            &&& !early && !wanted ==> after.game.alliances == decided.game.alliances
        }),
{
    assert(seq![r].drop_last() =~= Seq::<AllianceRequest>::empty());
    assert(m.answering(sid, Seq::<AllianceRequest>::empty()) == m);
    assert(seq![r].last() == r);
    let from = r.requestor_small_id;
    let (wanted, decided) = m.deciding(sid, from, true);
    crate::laws_diplomacy::law_answering(
        m.game,
        from,
        sid,
        crate::state::AllianceRequestStatus::Rejected,
    );
    crate::laws_diplomacy::law_answering(
        decided.game,
        from,
        sid,
        crate::state::AllianceRequestStatus::Rejected,
    );
    crate::laws_diplomacy::law_accepting(decided.game, from, sid, m.game.tick);
}

/// A nation asks only those for an alliance that it may ask and wants, one time in thirty, and
/// no bots but in an easy game.
pub proof fn law_courting(m: Mind, sid: u16, enemy: u16)
    ensures
        ({
            let after = m.courting(sid, seq![enemy]);
            let asks = m.hit(30) && m.game.has(enemy) && m.game.may_request(sid, enemy) && (
            !m.game.of_type(enemy, PlayerType::Bot) || m.game.config.difficulty
                == Difficulty::Easy);
            let (wanted, decided) = m.drawn().deciding(sid, enemy, false);
            &&& !asks ==> after.game == m.game
            &&& asks && wanted ==> after.game.pending == decided.game.pending.push(
                Order::AllianceRequest { requestor: sid, recipient: m.game.player(enemy).id@ },
            )
            &&& asks && !wanted ==> after == decided
        }),
{
    assert(seq![enemy].drop_last() =~= Seq::<u16>::empty());
    assert(m.courting(sid, Seq::<u16>::empty()) == m);
    assert(seq![enemy].last() == enemy);
}

/// Draws lie in their range, one out of one always hits, and what is drawn from a list is one
/// of its members.
pub proof fn law_draws<T>(rng: u64, lo: int, hi: int, s: Seq<T>)
    requires
        lo < hi,
    ensures
        lo <= crate::prng::int_drawn(rng, lo, hi) < hi,
        crate::prng::chance_drawn(rng, 1),
        s.len() > 0 ==> crate::prng::element_drawn(rng, s).0 is Some && s.contains(
            crate::prng::element_drawn(rng, s).0->0,
        ),
        s.len() == 0 ==> crate::prng::element_drawn(rng, s).0 is None,
{
    crate::prng::lemma_int_drawn(rng, lo, hi);
    crate::prng::lemma_int_drawn(rng, 0, 1);
    if s.len() > 0 {
        crate::prng::lemma_int_drawn(rng, 0, s.len() as int);
        assert(s.contains(s[crate::prng::int_drawn(rng, 0, s.len() as int)]));
    }
}

} // verus!
