//! What holds of the manners of players and nations: when they act, whom they spare and what
//! they remember.

use vstd::prelude::*;

use crate::ai_forces::Campaign;
use crate::ai_strategy::Stance;
use crate::config::Difficulty;
use crate::doomsday_clock_execution::DoomsdayClockExecution;
use crate::execution::Execution;
use crate::game::GameView;
use crate::game_land::BBox;
use crate::map::MapView;
use crate::nation_emoji::Mind;
use crate::nuke_ai::Arsenal;
use crate::ordered_tiles::TileRef;
use crate::parabola::{weight0, weight1, weight2, weight3};
use crate::player::PlayerExecution;
use crate::port_execution::{is_close_port, port_level, PortExecution};
use crate::retreat::RetreatExecution;
use crate::state::{Alliance, PlayerType, Relation, Unit};
use crate::unit_type::UnitType;

verus! {

/// No missile is launched at the own team before the game is won, at a place that nothing can
/// reach, by someone without a silo, or by someone without land.
pub proof fn law_missiles_spare_the_team(game: GameView, sid: u16, nuke: UnitType, dst: TileRef)
    requires
        nuke != UnitType::MirvWarhead,
    ensures
        game.winner is None && game.map.owner(dst) != 0 && game.on_same_team(
            sid,
            game.map.owner(dst),
        ) ==> game.launch_site(sid, nuke, dst) is None,
        game.map.is_impassable(dst) ==> game.launch_site(sid, nuke, dst) is None,
        game.tiles_owned(sid) <= 0 ==> game.launch_site(sid, nuke, dst) is None,
        !game.has(sid) ==> game.launch_site(sid, nuke, dst) is None,
        (forall|i: int|
            0 <= i < game.units.len() && (#[trigger] game.units[i]).owner == sid
                ==> game.units[i].unit_type != UnitType::MissileSilo) ==> game.launch_site(
            sid,
            nuke,
            dst,
        ) is None,
{
    if game.launch_site(sid, nuke, dst) is Some {
        crate::laws_fight::law_launch_site(game, sid, nuke, dst);
    }
}

/// A silo has a bay for each of its levels, and is shut while as many missiles were launched as
/// it has bays.
pub proof fn law_bays_are_levels(game: GameView, sid: u16, u: Unit)
    requires
        u.owner == sid,
        u.unit_type == UnitType::MissileSilo,
        !u.under_construction,
    ensures
        game.ready_silo(sid)(u) == (game.launches_of(u.id).len() < u.level),
        game.in_cooldown(u) == (game.launches_of(u.id).len() >= u.level),
{
}

/// No landing is tried at a player that is to be avoided.
pub proof fn law_landings_avoid(
    game: GameView,
    rng: u64,
    sid: u16,
    src: TileRef,
    eager: bool,
    avoided: Seq<u16>,
    bordering: Seq<u16>,
    tries: nat,
    other: u16,
)
    requires
        avoided.contains(other),
        other != 0,
    ensures
        game.place_to_land(rng, sid, src, eager, avoided, bordering, tries).0 is Some
            ==> game.map.owner(
            game.place_to_land(rng, sid, src, eager, avoided, bordering, tries).0->0,
        ) != other,
    decreases tries,
{
    if tries > 0 {
        let (x, y) = (game.map.x(src), game.map.y(src));
        let rx = crate::prng::int_drawn(rng, x - 150, x + 150);
        let rng1 = crate::prng::next_state(rng);
        let ry = crate::prng::int_drawn(rng1, y - 150, y + 150);
        let rng2 = crate::prng::next_state(rng1);
        let left = (tries - 1) as nat;
        let owner = game.map.owner(game.map.at(rx, ry));
        let more = avoided.push(owner);
        let k = choose|k: int| 0 <= k < avoided.len() && avoided[k] == other;
        assert(more[k] == other);
        law_landings_avoid(game, rng2, sid, src, eager, avoided, bordering, left, other);
        law_landings_avoid(game, rng2, sid, src, eager, more, bordering, left, other);
    }
}

/// A port counts as close where it is among the first four, or in the first third.
pub proof fn law_close_ports(i: int, n: int, level: i32)
    requires
        0 <= i < n,
    ensures
        i < 4 ==> is_close_port(i, n),
        3 * i < n ==> is_close_port(i, n),
        i >= 4 && 3 * i >= n ==> !is_close_port(i, n),
        port_level(level) >= 1,
        level >= 1 ==> port_level(level) == level,
{
}

/// Damage is taken from the health of a ship, and one that has none left is gone. Others are
/// untouched.
pub proof fn law_wearing(game: GameView, sid: u16, id: i32, damage: int, u: Unit)
    requires
        game.unit(sid, id) == Some(u),
        0 <= damage <= 1_000_000_000,
        u.health <= 1_000_000_000,
    ensures
        ({
            let at = crate::game_units::unit_at(game.units, sid, id);
            let after = game.wearing(sid, id, damage);
            &&& u.health > damage ==> after.units.len() == game.units.len() && after.units[at].health
                == u.health - damage && after.units[at].tile == u.tile
            &&& u.health <= damage ==> forall|x: Unit| #[trigger]
                after.units.contains(x) == (game.units.contains(x) && !(x.owner == sid && x.id == id))
            &&& u.health > damage ==> forall|i: int|
                0 <= i < game.units.len() && i != at ==> after.units[i] == #[trigger] game.units[i]
        }),
{
    crate::game_units::lemma_unit_at(game.units, sid, id);
    let p = |x: Unit| !(x.owner == sid && x.id == id);
    crate::lists::lemma_filter_members(game.units, p);
    if u.health <= damage {
        assert(game.wearing(sid, id, damage).units == game.units.filter(p));
    }
}

/// Who leaves has no alliances any more, and all others keep theirs.
pub proof fn law_leaving_alliances(game: GameView, sid: u16, a: Alliance, other: u16)
    ensures
        game.leaving_alliances(sid).alliances.contains(a) == (game.alliances.contains(a)
            && a.requestor != sid && a.recipient != sid),
        !game.leaving_alliances(sid).allied(sid, other),
        !game.leaving_alliances(sid).allied(other, sid),
{
    let p = crate::game_diplomacy::without_member(sid);
    crate::lists::lemma_filter_members(game.alliances, p);
    let after = game.leaving_alliances(sid);
    assert forall|i: int| 0 <= i < after.alliances.len() implies !(
    #[trigger] after.alliances[i]).involves(sid) by {
        assert(after.alliances.contains(after.alliances[i]));
        assert(p(after.alliances[i]));
    }
}

/// A player deletes no more than one unit in three hundred ticks, and a unit that is marked
/// stays for three hundred ticks.
pub proof fn law_deletion_times(game: GameView, sid: u16, id: i32, u: Unit)
    requires
        game.has(sid),
        game.unit(sid, id) == Some(u),
        game.tick <= 4_000_000_000,
    ensures
        game.player(sid).last_delete_tick is Some ==> game.may_delete(sid) == (game.tick >= 300
            + game.player(sid).last_delete_tick->0),
        game.player(sid).last_delete_tick is None && game.tick >= 300 ==> game.may_delete(sid),
        game.deletion_due() == game.tick + 300,
        u.deletion_tick is None ==> !game.is_overdue(sid, id),
        u.deletion_tick is Some ==> game.is_overdue(sid, id) == (game.tick > u.deletion_tick->0),
{
}

/// There is room for what a player is below its limit, and the fuller it is the less.
pub proof fn law_room_for_troops(game: GameView, sid: u16)
    ensures
        game.room_for_troops(sid) == 100 * game.max_troops_milli(sid) - 100_000 * game.troops(sid),
{
    let m = game.max_troops_milli(sid);
    let t = game.troops(sid);
    assert(crate::config::TROOP_SCALE / 1000 == 100);
    assert((m - t * 1000) * 100 == 100 * m - 100_000 * t);
}

/// A piece of land is enclosed where it lies inland and some foreign land reaches around it on
/// every side.
pub proof fn law_enclosed(game: GameView, sid: u16, cluster: Seq<TileRef>, i: int)
    requires
        0 <= i < cluster.len(),
        game.enclosed(sid, cluster),
    ensures
        !game.map.is_shore(cluster[i]),
        !game.map.on_edge(cluster[i]),
        ({
            let foes = crate::ai_attack::flatten_neighbors(game.map, cluster).filter(
                game.map.hostile(sid),
            );
            let (o, c) = (game.map.bbox(foes), game.map.bbox(cluster));
            &&& o is Some && c is Some
            &&& o->0.min_x <= c->0.min_x && c->0.max_x <= o->0.max_x
            &&& o->0.min_y <= c->0.min_y && c->0.max_y <= o->0.max_y
        }),
{
    if game.map.is_shore(cluster[i]) || game.map.on_edge(cluster[i]) {
        assert(game.map.open_to_water()(cluster[i]));
        assert(crate::lists::some_where(cluster, game.map.open_to_water()));
    }
}

/// A nation rests on its troops where it has the part of its limit that is asked for.
pub proof fn law_holding_a_ratio(game: GameView, sid: u16, percent: int, less: int)
    requires
        less <= percent,
        game.has(sid),
        game.max_troops_milli(sid) > 0,
    ensures
        game.holds_ratio(sid, percent) == (100_000 * game.troops(sid) >= percent
            * game.max_troops_milli(sid)),
        game.holds_ratio(sid, percent) ==> game.holds_ratio(sid, less),
{
    let m = game.max_troops_milli(sid);
    assert(m * less <= m * percent && m * percent == percent * m) by (nonlinear_arith)
        requires
            less <= percent,
            m > 0,
    ;
}

/// Only who is careful and not under attack finds its troops too few, and then where they are
/// less than a fifth of the target's.
pub proof fn law_too_weak(game: GameView, sid: u16, troops: int, target: u16)
    ensures
        game.too_weak(sid, troops, target) ==> game.incoming(sid, false).len() == 0 && 5 * troops
            < 100_000 * game.troops(target),
        game.of_type(sid, PlayerType::Bot) || game.config.is_team() || game.config.difficulty
            == Difficulty::Easy || game.config.difficulty == Difficulty::Medium ==> !game.too_weak(
            sid,
            troops,
            target,
        ),
        game.has(sid) && !game.of_type(sid, PlayerType::Bot) && !game.config.is_team() && (
        game.config.difficulty == Difficulty::Hard || game.config.difficulty
            == Difficulty::Impossible) && game.incoming(sid, false).len() == 0 && 5 * troops
            < 100_000 * game.troops(target) ==> game.too_weak(sid, troops, target),
{
}

/// In a team game a nation sends its nukes at someone who lives, is of another team and is no
/// friend.
pub proof fn law_team_targets(game: GameView, rng: u64, sid: u16)
    requires
        game.team_target(rng, sid).0 is Some,
    ensures
        ({
            let t = game.team_target(rng, sid).0->0;
            &&& game.config.is_team()
            &&& game.alive_ids().contains(t)
            &&& !game.is_friendly(sid, t)
        }),
{
    let targets = game.team_targets(sid);
    match crate::lists::first_where(game.team_ranking(), game.other_team(sid)) {
        Some(captain) => {
            let p = game.hostile_mate(sid, captain);
            crate::lists::lemma_filter_members(game.alive_ids(), p);
            let t = game.team_target(rng, sid).0->0;
            crate::laws_missiles::law_largest_limit(game, targets);
            crate::laws_arms::law_draws(crate::prng::next_state(rng), 0, 1, targets);
            assert(targets.contains(t));
            assert(p(t));
        },
        None => {},
    }
}

/// A nation never allies itself with someone whom it dislikes, and in a team game on the
/// highest difficulty with nobody at all.
pub proof fn law_dislike(m: Mind, sid: u16, other: u16, asked: bool)
    ensures
        m.game.config.is_team() && m.game.config.difficulty == Difficulty::Impossible
            ==> !m.deciding_freely(sid, other, asked).0,
        m.game.relation(sid, other) == Relation::Hostile || m.game.relation(sid, other)
            == Relation::Distrustful ==> !m.deciding_freely(sid, other, asked).0,
        !m.game.config.is_team() && m.game.relation(sid, other) == Relation::Friendly && (
        m.game.config.difficulty == Difficulty::Easy || m.game.config.difficulty
            == Difficulty::Medium) ==> m.deciding_freely(sid, other, asked).0,
{
}

/// Once the game is won, a nation remembers that it was; it says so to the winner only where it
/// is the largest nation, and says nothing where its own team won.
pub proof fn law_congratulating(m: Mind, sid: u16)
    ensures
        m.game.winner is None ==> m.congratulating(sid) == m,
        m.game.winner is Some ==> m.congratulating(sid).emoji.over,
        m.game.winner is Some && m.game.config.is_team() && m.game.in_team(sid, m.game.winner->0)
            ==> m.congratulating(sid).game == m.game,
        m.game.winner is Some && !m.game.config.is_team() && m.congratulating(sid).game != m.game
            ==> crate::nation_emoji::largest(m.game, m.game.ids().filter(m.game.nation())) == Some(
            sid,
        ),
{
}

/// A random tile of a player is a tile of that player.
pub proof fn law_random_tile(game: GameView, rng: u64, sid: u16, b: BBox, tries: nat)
    ensures
        game.land_tile(rng, sid, b, tries).0 is Some ==> game.map.owner(
            game.land_tile(rng, sid, b, tries).0->0,
        ) == sid,
        game.random_tile(rng, sid, b).0 is Some ==> game.map.owner(
            game.random_tile(rng, sid, b).0->0,
        ) == sid || game.map.territory(sid).contains(game.random_tile(rng, sid, b).0->0),
{
    lemma_land_tile(game, rng, sid, b, tries);
    lemma_land_tile(game, rng, sid, b, 100);
    let (found, after) = game.land_tile(rng, sid, b, 100);
    if found is None && game.map.territory(sid).len() > 0 {
        crate::laws_arms::law_draws(after, 0, 1, game.map.territory(sid));
    }
}

proof fn lemma_land_tile(game: GameView, rng: u64, sid: u16, b: BBox, tries: nat)
    ensures
        game.land_tile(rng, sid, b, tries).0 is Some ==> game.map.owner(
            game.land_tile(rng, sid, b, tries).0->0,
        ) == sid,
    decreases tries,
{
    if tries > 0 {
        let rng1 = crate::prng::next_state(rng);
        lemma_land_tile(game, crate::prng::next_state(rng1), sid, b, (tries - 1) as nat);
    }
}

/// Nations of a higher difficulty choose what to upgrade by chance less often.
pub proof fn law_care(a: Difficulty)
    ensures
        crate::nation_structures::careless_chance(Difficulty::Impossible)
            < crate::nation_structures::careless_chance(Difficulty::Hard)
            < crate::nation_structures::careless_chance(Difficulty::Medium)
            < crate::nation_structures::careless_chance(Difficulty::Easy),
        10 <= crate::nation_structures::careless_chance(a) <= 70,
        crate::nation_structures::sam_ratio(Difficulty::Easy) < crate::nation_structures::sam_ratio(
            Difficulty::Medium,
        ) < crate::nation_structures::sam_ratio(Difficulty::Hard)
            < crate::nation_structures::sam_ratio(Difficulty::Impossible),
{
}

/// An attack is called back twenty ticks after the order, not before, and from then on; a port
/// looks for trade on every tenth tick.
pub proof fn law_waiting(retreat: RetreatExecution, port: PortExecution, tick: u32)
    requires
        tick < u32::MAX,
    ensures
        retreat.is_due(tick) == (tick - retreat.start_tick >= 20),
        retreat.is_due(tick) ==> retreat.is_due((tick + 1) as u32),
        port.is_due(tick) && tick <= 4_000_000_000 ==> port.is_due((tick + 10) as u32),
        port.is_due(tick) ==> !port.is_due((tick + 1) as u32),
{
}

/// Land that is not enclosed stays with its owner, and so does the largest piece.
pub proof fn law_open_land_stays(
    game: GameView,
    sid: u16,
    clusters: Seq<Seq<TileRef>>,
    main: int,
    n: nat,
)
    requires
        n <= clusters.len(),
        forall|i: int|
            0 <= i < n && i != main ==> !game.enclosed(sid, #[trigger] clusters[i]),
    ensures
        game.annexing_minor(sid, clusters, main, n) == game,
    decreases n,
{
    if n > 0 {
        law_open_land_stays(game, sid, clusters, main, (n - 1) as nat);
    }
}

/// An enclosed piece that is not the largest is annexed.
pub proof fn law_enclosed_land_is_annexed(
    game: GameView,
    sid: u16,
    clusters: Seq<Seq<TileRef>>,
    main: int,
    k: int,
)
    requires
        0 <= k < clusters.len(),
        k != main,
        game.annexing_minor(sid, clusters, main, k as nat).enclosed(sid, clusters[k]),
    ensures
        game.annexing_minor(sid, clusters, main, (k + 1) as nat) == game.annexing_minor(
            sid,
            clusters,
            main,
            k as nat,
        ).annexing(sid, clusters[k]),
{
}

/// The clock strikes on every tenth tick and on no other, and only where it is set.
pub proof fn law_clock_ticks(clock: DoomsdayClockExecution, game: GameView, tick: u32)
    ensures
        !game.config.doomsday.enabled ==> clock.ticked(game, tick) == game,
        tick % 10 != 0 ==> clock.ticked(game, tick) == game,
        tick % 10 == 0 && game.config.doomsday.enabled ==> clock.ticked(game, tick)
            == game.clock_ticking(),
{
}

/// What a guard is worth grows with the level of what it guards on the two highest difficulties
/// and does not depend on it on the others; guards that are there already never make it worth
/// more.
pub proof fn law_guard_share(game: GameView, sid: u16, u: Unit, v: Unit)
    requires
        0 <= u.level <= v.level,
        u.tile == v.tile,
        game.structure_spacing() >= 0,
        game.protection(u.tile, game.units_of(sid, UnitType::SamLauncher)) >= 0,
    ensures
        game.config.difficulty == Difficulty::Hard || game.config.difficulty
            == Difficulty::Impossible ==> game.guard_share(sid, u, false) <= game.guard_share(
            sid,
            v,
            false,
        ),
        (game.config.difficulty == Difficulty::Hard || game.config.difficulty
            == Difficulty::Impossible) && u.level < v.level && game.structure_spacing() > 0
            ==> game.guard_share(sid, u, false) < game.guard_share(sid, v, false),
        game.config.difficulty == Difficulty::Easy || game.config.difficulty == Difficulty::Medium
            ==> game.guard_share(sid, u, false) == game.guard_share(sid, v, false),
        game.guard_share(sid, u, true) <= game.guard_share(sid, u, false),
{
    let d = game.structure_spacing();
    let (a, b) = (u.level as int, v.level as int);
    let g = crate::structure_value::GUARD_SCALE as int;
    assert(d * a * g <= d * b * g && (a < b && d > 0 ==> d * a * g < d * b * g) && 0 <= d * a * g
        && 0 <= d * 1 * g) by (nonlinear_arith)
        requires
            0 <= a <= b,
            d >= 0,
            g > 0,
    ;
    let p = 1 + game.protection(u.tile, game.units_of(sid, UnitType::SamLauncher));
    let full = game.guard_share(sid, u, false);
    vstd::arithmetic::div_mod::lemma_div_is_ordered_by_denominator(full, 1, p);
    assert(full / 1 == full);
}

/// A raid skips friends and who is not there. A bot is never spared by chance: it is attacked
/// where the troops suffice, and then nobody else is.
pub proof fn law_raided_bots(c: Campaign, s: Stance, targets: Seq<u16>)
    requires
        targets.len() > 0,
        c.mind.game.of_type(targets[0], PlayerType::Bot),
    ensures
        !c.mind.game.is_friendly(s.sid, targets[0]) && c.engaging(s, targets[0], false).1
            ==> c.raiding(s, targets) == c.engaging(s, targets[0], false).0,
        !c.mind.game.is_friendly(s.sid, targets[0]) && !c.engaging(s, targets[0], false).1
            ==> c.raiding(s, targets) == c.engaging(s, targets[0], false).0.raiding(
            s,
            targets.skip(1),
        ),
        c.mind.game.is_friendly(s.sid, targets[0]) ==> c.raiding(s, targets) == c.raiding(
            s,
            targets.skip(1),
        ),
{
}

/// Players have spawned once they are there and have a place.
pub proof fn law_spawned(game: GameView, sid: u16)
    ensures
        !game.has(sid) ==> !game.has_spawned(sid),
        game.has(sid) && game.player(sid).spawn_tile is None ==> !game.has_spawned(sid),
        game.has(sid) && game.player(sid).spawn_tile is Some ==> game.has_spawned(sid),
{
}

proof fn lemma_firing(
    a: Arsenal,
    sid: u16,
    tile: TileRef,
    target: u16,
    waits: Seq<u32>,
    n: nat,
)
    ensures
        a.firing(sid, tile, target, waits, n).mind.game.pending.len() == a.mind.game.pending.len()
            + n,
    decreases n,
{
    if n > 0 {
        let m = (n - 1) as nat;
        lemma_firing(a, sid, tile, target, waits, m);
        crate::laws_campaigns::law_sending(
            a.firing(sid, tile, target, waits, m),
            sid,
            tile,
            UnitType::AtomBomb,
            target,
            waits[n - 1],
        );
    }
}

/// No volley is sent where atom bombs are not allowed, while some are in the air, or without a
/// silo. Else the first launcher for which a volley is ready and paid for gets all its bombs.
pub proof fn law_sam_strikes(a: Arsenal, sid: u16, target: u16, u: Unit)
    ensures
        ({
            let game = a.mind.game;
            let after = a.striking_sams(sid, target);
            let silent = game.config.disabled(UnitType::AtomBomb) || game.units_of(
                sid,
                UnitType::AtomBomb,
            ).len() >= 1 || !game.has_open_silo(sid);
            let found = crate::lists::first_where(
                game.sams_by_level(target),
                game.volley_target(sid),
            );
            &&& silent ==> after == a
            &&& !silent && found == Some(u) ==> after.mind.game.pending.len()
                == game.pending.len() + game.volley(sid, u.tile)->waits.len()
        }),
{
    let game = a.mind.game;
    let waits = game.volley(sid, u.tile)->waits;
    lemma_firing(a, sid, u.tile, target, waits, waits.len());
}

/// Nations without bombs or silos do not think of nuking; the others choose whom.
pub proof fn law_nuking_starts(a: Arsenal, sid: u16, hydro: bool)
    ensures
        ({
            let game = a.mind.game;
            let (target, rng) = game.nuke_target(a.mind.rng, sid);
            &&& game.config.disabled(UnitType::AtomBomb) && game.config.disabled(
                UnitType::HydrogenBomb,
            ) ==> a.nuking(sid, hydro) == a
            &&& game.silo_tiles(sid).len() == 0 || game.config.disabled(UnitType::MissileSilo)
                ==> a.nuking(sid, hydro) == a
            &&& game.silo_tiles(sid).len() > 0 && !game.config.disabled(UnitType::MissileSilo) && (
            !game.config.disabled(UnitType::AtomBomb) || !game.config.disabled(
                UnitType::HydrogenBomb,
            )) && target is None ==> a.nuking(sid, hydro).mind.rng == rng
        }),
{
}

/// Without MIRVs a nation saves for five hydrogen bombs, without those for twenty atom bombs.
pub proof fn law_further_savings(game: GameView)
    requires
        !game.config.disabled(UnitType::MissileSilo),
        game.config.game_mode != crate::config::GameMode::Team,
        game.config.disabled(UnitType::Mirv),
    ensures
        !game.config.disabled(UnitType::HydrogenBomb) ==> game.savings() == 5
            * game.config.hydrogen_bomb_cost,
        game.config.disabled(UnitType::HydrogenBomb) && !game.config.disabled(UnitType::AtomBomb)
            ==> game.savings() == 20 * game.config.atom_bomb_cost,
        game.config.disabled(UnitType::HydrogenBomb) && game.config.disabled(UnitType::AtomBomb)
            ==> game.savings() == game.config.sam_launcher_cost,
{
}

/// A nation attacks all bots that it has in mind where they are no more than it attacks at
/// once, else the first of them.
pub proof fn law_bots_at_once(c: Campaign, s: Stance)
    ensures
        ({
            let game = c.mind.game;
            let near = game.near_in_order(s.sid).filter(game.hostile_bot(s.sid));
            let bots = crate::lists::sort_with(near, game.easier());
            let (n, rng) = crate::ai_strategy::parallelism(c.mind.rng, s.difficulty);
            let fresh = Campaign { mind: Mind { rng, ..c.mind }, sent: 0 };
            &&& near.len() > 0 && n >= bots.len() ==> c.attacking_bots(s) == fresh.striking(s, bots)
            &&& near.len() > 0 && 0 <= n < bots.len() ==> c.attacking_bots(s) == fresh.striking(
                s,
                bots.take(n),
            )
        }),
{
    let game = c.mind.game;
    let near = game.near_in_order(s.sid).filter(game.hostile_bot(s.sid));
    let bots = crate::lists::sort_with(near, game.easier());
    assert(bots.take(bots.len() as int) =~= bots);
}

/// Structures are kept two blasts of an atom bomb apart.
pub proof fn law_spacing(game: GameView)
    ensures
        game.structure_spacing() == game.config.atom_bomb.outer + game.config.atom_bomb.outer,
{
}

/// A silo helps a volley only where its bombs are neither shot down nor stopped on the way.
pub proof fn law_helpful_silos(game: GameView, sid: u16, tile: TileRef, ignored: Seq<i32>, u: Unit)
    ensures
        game.interceptable(sid, u.tile, tile, ignored) ==> !game.helpful_silo(sid, tile, ignored)(
            u,
        ),
        game.blocked(u.tile, tile, game.config.nuke_speed as int, true, true)
            ==> !game.helpful_silo(sid, tile, ignored)(u),
        !game.interceptable(sid, u.tile, tile, ignored) && !game.blocked(
            u.tile,
            tile,
            game.config.nuke_speed as int,
            true,
            true,
        ) ==> game.helpful_silo(sid, tile, ignored)(u),
{
}

/// Bots do not count among the neighbours of whom a nation wants allies.
pub proof fn law_neighbours_that_count(game: GameView, id: u16)
    ensures
        game.of_type(id, PlayerType::Bot) ==> !game.no_bot()(id),
        !game.has(id) ==> !game.no_bot()(id),
        game.has(id) && !game.of_type(id, PlayerType::Bot) ==> game.no_bot()(id),
{
}

/// A tile is on the edge of the map where a step from it leads off the map.
pub proof fn law_edges(map: MapView, t: TileRef)
    requires
        map.wf(),
        map.valid(t),
    ensures
        map.on_edge(t) == (!map.valid_coord(map.x(t) - 1, map.y(t)) || !map.valid_coord(
            map.x(t) + 1,
            map.y(t),
        ) || !map.valid_coord(map.x(t), map.y(t) - 1) || !map.valid_coord(map.x(t), map.y(t) + 1)),
{
    map.lemma_xy(t);
}

/// Every structure of the target is thought of, each place once.
pub proof fn law_nuke_spots(game: GameView, rng: u64, target: u16, u: Unit)
    requires
        game.structures_of(target).contains(u),
    ensures
        game.nuke_spots(rng, target).0.contains(u.tile),
        game.nuke_spots(rng, target).0.no_duplicates(),
        game.config.difficulty == Difficulty::Impossible ==> game.nuke_spots(rng, target).1
            == game.random_tiles(rng, target, 30).1,
        game.config.difficulty != Difficulty::Impossible ==> game.nuke_spots(rng, target).1
            == game.random_tiles(rng, target, 10).1,
{
    let n = if game.config.difficulty == Difficulty::Impossible {
        30nat
    } else {
        10nat
    };
    let tiles = game.random_tiles(rng, target, n).0;
    let owned = game.structures_of(target);
    let k = choose|k: int| 0 <= k < owned.len() && owned[k] == u;
    let all = tiles + game.structure_tiles(target);
    assert(game.structure_tiles(target)[k] == u.tile);
    assert(all[tiles.len() + k] == u.tile);
    crate::lists::law_distinct(all);
}

/// Bombs, warheads and the missiles that meet them are in the air; nothing that stands or
/// swims is.
pub proof fn law_in_the_air()
    ensures
        crate::game_blast::in_the_air(UnitType::AtomBomb),
        crate::game_blast::in_the_air(UnitType::HydrogenBomb),
        crate::game_blast::in_the_air(UnitType::Mirv),
        crate::game_blast::in_the_air(UnitType::MirvWarhead),
        crate::game_blast::in_the_air(UnitType::SamMissile),
        !crate::game_blast::in_the_air(UnitType::City),
        !crate::game_blast::in_the_air(UnitType::Port),
        !crate::game_blast::in_the_air(UnitType::Factory),
        !crate::game_blast::in_the_air(UnitType::MissileSilo),
        !crate::game_blast::in_the_air(UnitType::SamLauncher),
        !crate::game_blast::in_the_air(UnitType::Warship),
        !crate::game_blast::in_the_air(UnitType::Transport),
{
}

/// On the two highest difficulties nations keep three quarters and nine tenths of their
/// strongest neighbour's troops at home, on the others nothing.
pub proof fn law_retained()
    ensures
        100 * 3 == 4 * crate::ai_forces::retained_percent(Difficulty::Hard),
        100 * 9 == 10 * crate::ai_forces::retained_percent(Difficulty::Impossible),
        crate::ai_forces::retained_percent(Difficulty::Easy) == 0,
        crate::ai_forces::retained_percent(Difficulty::Medium) == 0,
{
}

/// SAM launchers guard what is within fifty tiles, and nothing else guards.
pub proof fn law_guarded(game: GameView, tile: TileRef, u: Unit)
    ensures
        game.guarded(tile)(u) ==> u.unit_type == UnitType::SamLauncher,
        u.unit_type == UnitType::SamLauncher ==> game.guarded(tile)(u) == (game.map.dist2(
            tile,
            u.tile,
        ) <= 50 * 50),
{
}

/// The weights of a curve's four points are positive between its ends and make up the whole;
/// at its ends only the end points count.
pub proof fn law_curve_weights(k: int)
    requires
        0 <= k <= 500,
    ensures
        weight0(k) + weight1(k) + weight2(k) + weight3(k) == 500 * 500 * 500,
        weight0(k) >= 0 && weight1(k) >= 0 && weight2(k) >= 0 && weight3(k) >= 0,
        weight0(0) == 500 * 500 * 500,
        weight3(500) == 500 * 500 * 500,
        weight0(500 - k) == weight3(k),
        weight1(500 - k) == weight2(k),
{
    let j = 500 - k;
    assert(j * j * j + 3 * (j * j * k) + 3 * (j * k * k) + k * k * k == (j + k) * (j + k) * (j + k)
        && j * j * j >= 0 && 3 * (j * j * k) >= 0 && 3 * (j * k * k) >= 0 && k * k * k >= 0 && k * k
        * j == j * k * k) by (nonlinear_arith)
        requires
            j >= 0,
            k >= 0,
    ;
    assert(500 - j == k);
}

/// A player goes on until it has no land left, unless it never had any or players still spawn.
pub proof fn law_going_on(player: PlayerExecution, game: GameView)
    requires
        player.active,
        game.has(player.small_id),
    ensures
        game.spawn_phase ==> player.next(game).active,
        game.player(player.small_id).spawn_tile is None ==> player.next(game).active,
        !game.spawn_phase && game.player(player.small_id).spawn_tile is Some ==> player.next(
            game,
        ).active == (game.decaying(player.small_id).reconciling(player.small_id).tiles_owned(
            player.small_id,
        ) != 0),
{
}

} // verus!
