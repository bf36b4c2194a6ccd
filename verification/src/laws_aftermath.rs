//! What holds after blasts and fights, and of the rules that nations build by.

use vstd::prelude::*;

use crate::ai_forces::Campaign;
use crate::ai_strategy::{Stance, Strategy};
use crate::attack::AttackExecution;
use crate::config::{Config, Difficulty};
use crate::game::GameView;
use crate::game_blast::nuke_deaths;
use crate::nation::NationExecution;
use crate::nuke_volley::launch_order;
use crate::ordered_tiles::TileRef;
use crate::state::{LandAttackView, PlayerType, Unit};
use crate::unit_type::UnitType;

verus! {

/// With each tile that a bomb takes, its owner loses troops at home and under way, and never
/// more than it has. Nobody else loses any, and nobody loses gold or land by it.
pub proof fn law_suffering(game: GameView, sid: u16, nuke: UnitType, left: int, milli: int)
    requires
        nuke != UnitType::MirvWarhead,
        game.has(sid),
        0 <= game.troops(sid) <= crate::state::MAX_TROOPS,
        left >= 1,
    ensures
        ({
            let after = game.suffering(sid, nuke, left, milli);
            let lost = game.troops(sid) - after.troops(sid);
            &&& 0 <= after.troops(sid) <= game.troops(sid)
            &&& lost * left <= 5 * game.troops(sid)
            &&& left <= 5 ==> after.troops(sid) == 0
            &&& after.gold(sid) == game.gold(sid)
            &&& after.map == game.map
            &&& after.players.len() == game.players.len()
            &&& forall|id: u16| #[trigger]
                game.has(id) && id != sid ==> after.player(id) == game.player(id)
            &&& forall|i: int|
                0 <= i < game.attacks.len() && (#[trigger] game.attacks[i]).attacker != sid
                    ==> after.attacks[i] == game.attacks[i]
            &&& forall|i: int|
                0 <= i < game.attacks.len() && (#[trigger] game.attacks[i]).attacker == sid
                    && game.attacks[i].troops >= 0 ==> 0 <= after.attacks[i].troops
                    <= game.attacks[i].troops
        }),
{
    let amount = game.troops(sid) * 100_000;
    lemma_deaths(game.config, nuke, amount, left, milli);
    let n = nuke_deaths(game.config, nuke, amount, left, milli);
    let dead = n / 100_000;
    assert(dead * left <= 5 * game.troops(sid)) by (nonlinear_arith)
        requires
            n * left <= 5 * amount,
            amount == game.troops(sid) * 100_000,
            dead * 100_000 <= n,
            left >= 1,
    ;
    assert(game.suffering(sid, nuke, left, milli).troops(sid) == (if dead >= game.troops(sid) {
        0
    } else {
        game.troops(sid) - dead
    }));
    if left <= 5 {
        assert(dead >= game.troops(sid));
    }
    let after = game.suffering(sid, nuke, left, milli);
    let lost = game.troops(sid) - after.troops(sid);
    assert(lost <= dead);
    assert(lost * left <= dead * left) by (nonlinear_arith)
        requires
            lost <= dead,
            left >= 1,
    ;
    assert forall|i: int|
        0 <= i < game.attacks.len() && (#[trigger] game.attacks[i]).attacker == sid
            && game.attacks[i].troops >= 0 implies 0 <= after.attacks[i].troops
        <= game.attacks[i].troops by {
        crate::laws_fight::law_nuke_deaths(
            game.config,
            nuke,
            game.attacks[i].troops as int,
            left,
            left,
            milli,
        );
    }
}

proof fn lemma_deaths(config: Config, nuke: UnitType, amount: int, left: int, milli: int)
    requires
        nuke != UnitType::MirvWarhead,
        amount >= 0,
        left >= 1,
    ensures
        nuke_deaths(config, nuke, amount, left, milli) >= 0,
        nuke_deaths(config, nuke, amount, left, milli) * left <= 5 * amount,
        left <= 5 ==> nuke_deaths(config, nuke, amount, left, milli) >= amount,
{
    crate::laws_fight::law_nuke_deaths(config, nuke, amount, left, left, milli);
    let q = (5 * amount) / left;
    vstd::arithmetic::div_mod::lemma_div_pos_is_pos(5 * amount, left);
    assert(nuke_deaths(config, nuke, amount, left, milli) == q);
    if left <= 5 {
        assert(q >= amount) by (nonlinear_arith)
            requires
                5 * amount < (q + 1) * left,
                1 <= left <= 5,
                amount >= 0,
        ;
    }
}

proof fn lemma_mourning(game: GameView, sid: u16, nuke: UnitType, before: int, n: nat)
    requires
        nuke != UnitType::MirvWarhead,
        game.has(sid),
        0 <= game.troops(sid) <= crate::state::MAX_TROOPS,
        before >= n,
    ensures
        ({
            let after = game.mourning(sid, nuke, before, n);
            &&& 0 <= after.troops(sid) <= game.troops(sid)
            &&& after.players.len() == game.players.len()
            &&& after.map == game.map
            &&& forall|id: u16| #[trigger]
                game.has(id) && id != sid ==> after.player(id) == game.player(id)
        }),
    decreases n,
{
    if n > 0 {
        lemma_mourning(game, sid, nuke, before, (n - 1) as nat);
        let mid = game.mourning(sid, nuke, before, (n - 1) as nat);
        law_suffering(mid, sid, nuke, before - (n - 1), game.max_troops_milli(sid));
        let after = game.mourning(sid, nuke, before, n);
        assert forall|id: u16| #[trigger] game.has(id) && id != sid implies after.player(id)
            == game.player(id) by {
            assert(mid.has(id));
        }
    }
}

/// After a bomb nobody has more troops than before, and who lost no tile has as many.
pub proof fn law_bleeding(game: GameView, nuke: UnitType, losers: Seq<u16>, victims: Seq<u16>)
    requires
        nuke != UnitType::MirvWarhead,
        forall|i: int| 0 <= i < victims.len() ==> game.has(#[trigger] victims[i]),
        forall|id: u16| #[trigger]
            game.has(id) ==> 0 <= game.troops(id) <= crate::state::MAX_TROOPS && game.tiles_owned(id)
                >= 0,
    ensures
        ({
            let after = game.bleeding(nuke, losers, victims);
            &&& after.players.len() == game.players.len()
            &&& after.map == game.map
            &&& forall|id: u16| #[trigger]
                game.has(id) ==> 0 <= after.troops(id) <= game.troops(id) && after.tiles_owned(id)
                    == game.tiles_owned(id)
            &&& forall|id: u16| #[trigger]
                game.has(id) && !victims.contains(id) ==> after.player(id) == game.player(id)
        }),
    decreases victims.len(),
{
    if victims.len() > 0 {
        let front = victims.drop_last();
        let last = victims.last();
        assert forall|i: int| 0 <= i < front.len() implies game.has(#[trigger] front[i]) by {
            assert(front[i] == victims[i]);
        }
        law_bleeding(game, nuke, losers, front);
        let mid = game.bleeding(nuke, losers, front);
        let n = losers.filter(crate::game_blast::is_id(last)).len();
        assert(victims[victims.len() - 1] == last);
        assert(game.has(last) && mid.has(last));
        lemma_mourning(mid, last, nuke, mid.tiles_owned(last) + n, n);
        lemma_mourning_tiles(mid, last, nuke, mid.tiles_owned(last) + n, n);
        let after = game.bleeding(nuke, losers, victims);
        assert forall|id: u16| #[trigger] game.has(id) implies 0 <= after.troops(id)
            <= game.troops(id) && after.tiles_owned(id) == game.tiles_owned(id) by {
            assert(mid.has(id));
        }
        assert forall|id: u16| #[trigger] game.has(id) && !victims.contains(
            id,
        ) implies after.player(id) == game.player(id) by {
            assert(mid.has(id));
            assert(victims.contains(last));
            if front.contains(id) {
                let i = choose|i: int| 0 <= i < front.len() && front[i] == id;
                assert(victims[i] == id);
            }
        }
    }
}

proof fn lemma_mourning_tiles(game: GameView, sid: u16, nuke: UnitType, before: int, n: nat)
    requires
        game.has(sid),
    ensures
        ({
            let after = game.mourning(sid, nuke, before, n);
            after.players.len() == game.players.len() && after.tiles_owned(sid) == game.tiles_owned(
                sid,
            )
        }),
    decreases n,
{
    if n > 0 {
        lemma_mourning_tiles(game, sid, nuke, before, (n - 1) as nat);
    }
}

/// A boat that is called back turns back, and only a boat does; a warship goes where it is sent,
/// if that is on the map.
pub proof fn law_ships_obey(game: GameView, sid: u16, id: i32, position: TileRef, u: Unit)
    requires
        game.unit(sid, id) == Some(u),
    ensures
        ({
            let at = crate::game_units::unit_at(game.units, sid, id);
            let back = game.turning_back(sid, id);
            let away = game.patrolling(sid, id, position);
            &&& u.unit_type == UnitType::Transport ==> back.units[at].retreating
            &&& u.unit_type != UnitType::Transport ==> back == game
            &&& u.unit_type == UnitType::Warship && game.map.valid(position)
                ==> away.units[at].target_tile == Some(position)
            &&& u.unit_type != UnitType::Warship || !game.map.valid(position) ==> away == game
            &&& back.units.len() == game.units.len() && away.units.len() == game.units.len()
            &&& forall|i: int|
                0 <= i < game.units.len() && i != at ==> back.units[i] == #[trigger] game.units[i]
                    && away.units[i] == game.units[i]
        }),
{
    crate::game_units::lemma_unit_at(game.units, sid, id);
}

/// Friends never attack one another; while spawned players are immune, humans spare each other,
/// and otherwise everyone may attack everyone else.
pub proof fn law_may_attack(game: GameView, a: u16, b: u16)
    ensures
        game.is_friendly(a, b) ==> !game.may_attack(a, b),
        game.spawn_immunity && game.of_type(a, PlayerType::Human) && game.of_type(
            b,
            PlayerType::Human,
        ) ==> !game.may_attack(a, b),
        !game.is_friendly(a, b) && !game.spawn_immunity ==> game.may_attack(a, b),
        !game.is_friendly(a, b) && !game.of_type(a, PlayerType::Human) ==> game.may_attack(a, b),
{
}

/// In a team game no bomb is sent where it would reach a structure of the own team, until the
/// game is won.
pub proof fn law_own_structures_are_spared(
    game: GameView,
    sid: u16,
    nuke: UnitType,
    dst: TileRef,
    i: int,
)
    requires
        game.config.is_team(),
        game.winner is None,
        nuke == UnitType::AtomBomb || nuke == UnitType::HydrogenBomb,
        0 <= i < game.units.len(),
        game.units[i].unit_type.structure(),
        game.units[i].owner != 0,
        game.on_same_team(sid, game.units[i].owner),
        game.map.dist2(dst, game.units[i].tile) <= game.config.magnitude(nuke).outer
            * game.config.magnitude(nuke).outer,
    ensures
        game.launch_site(sid, nuke, dst) is None,
{
    assert(game.standing_within(dst, game.config.magnitude(nuke).outer as int)(game.units[i]));
    assert(game.endangers(sid, dst, nuke));
}

/// An attack that is over is no longer listed, and all others still are.
pub proof fn law_ended_attacks(game: GameView, owner: u16, id: Seq<char>, a: LandAttackView)
    ensures
        game.ending_attack(owner, id).attacks.contains(a) == (game.attacks.contains(a) && !(
        a.attacker == owner && a.id == id)),
{
    crate::lists::lemma_filter_members(
        game.attacks,
        crate::game_attacks::is_other_attack(owner, id),
    );
}

/// Whoever an attack engages thinks less of its owner, by sixty points or more.
pub proof fn law_engaged(attack: AttackExecution, out: GameView, target: u16, id: Seq<char>, start: int)
    requires
        attack.target_player_id is Some,
        attack.meeting(out, target, start).goes_on,
        -4_000 <= out.relation_value(target, attack.owner_small_id) <= 10_000,
    ensures
        attack.engaged(out, target, id, start).relation_value(target, attack.owner_small_id)
            <= out.relation_value(target, attack.owner_small_id) - 6_000,
{
    let meeting = attack.meeting(out, target, start);
    let met = GameView { attacks: meeting.attacks, ..out };
    let sid = attack.owner_small_id;
    reveal(crate::attack::joined);
    let joined = crate::attack::joined(
        met,
        sid,
        target,
        id,
        meeting.troops,
        attack.source_tile is Some,
    ).0;
    assert(joined.relations == out.relations);
    assert(joined.relation_value(target, sid) == out.relation_value(target, sid));
    crate::laws_diplomacy::law_relating(
        joined,
        target,
        sid,
        crate::attack::grudge(out.config.difficulty),
    );
}

/// A train earns what its stop is set to: one's team's, an ally's or another's.
pub proof fn law_trade_weight(game: GameView, sid: u16, other: u16)
    ensures
        game.on_same_team(sid, other) ==> game.trade_weight(sid, other)
            == game.config.train_gold_team,
        game.allied(sid, other) && !game.on_same_team(sid, other) ==> game.trade_weight(sid, other)
            == game.config.train_gold_ally,
        !game.allied(sid, other) && !game.on_same_team(sid, other) ==> game.trade_weight(sid, other)
            == game.config.train_gold_other,
        game.rail_partner(sid)(other) ==> !game.of_type(other, PlayerType::Bot) && !game.embargoed(
            sid,
            other,
        ) && !game.embargoed(other, sid),
{
}

/// Each tick a living player gets its gold, bots theirs, and the troops that it raises.
pub proof fn law_upkeep(game: GameView, sid: u16, tick: u32)
    requires
        game.has(sid),
        0 <= game.gold(sid) <= 1_000_000_000_000,
        0 <= game.config.gold_rate <= 1_000_000_000,
        0 <= game.config.gold_rate_bot <= 1_000_000_000,
        0 <= game.troops(sid) <= 1_000_000_000,
        0 <= game.player(sid).troop_rate <= 100_000_000_000_000,
    ensures
        ({
            let paid = game.reinforcing(sid, game.player(sid).troop_rate as int).enriching(
                sid,
                game.income(sid) as int,
            );
            &&& game.prospering(sid, tick) == paid.expiring_alliances(sid).expiring_embargoes(
                sid,
            ).pruning(sid, tick)
            &&& game.of_type(sid, PlayerType::Bot) ==> paid.gold(sid) == game.gold(sid)
                + game.config.gold_rate_bot
            &&& !game.of_type(sid, PlayerType::Bot) ==> paid.gold(sid) == game.gold(sid)
                + game.config.gold_rate
            &&& paid.troops(sid) == game.troops(sid) + game.player(sid).troop_rate / 100_000
        }),
{
}

/// Where no bot that is a foe is near, a nation attacks none; else it attacks no more of them
/// than it attacks at once.
pub proof fn law_attacking_bots(c: Campaign, s: Stance)
    ensures
        c.attacking_bots(s).1 ==> exists|id: u16| #[trigger]
            c.mind.game.near_in_order(s.sid).contains(id) && c.mind.game.of_type(
                id,
                PlayerType::Bot,
            ) && !c.mind.game.is_friendly(s.sid, id),
{
    let game = c.mind.game;
    let p = game.hostile_bot(s.sid);
    let bots = game.near_in_order(s.sid).filter(p);
    crate::lists::lemma_filter_members(game.near_in_order(s.sid), p);
    if bots.len() > 0 {
        assert(bots.contains(bots[0]));
        assert(p(bots[0]));
    }
}

/// Whom a nation betrays lies at its border and is its ally until then; once it is attacked the
/// two are allied no more.
pub proof fn law_betrayal_strategy(c: Campaign, s: Stance, bordering: Seq<u16>)
    requires
        c.trying(s, Strategy::Betray, bordering).1,
    ensures
        exists|t: u16| #[trigger]
            c.mind.game.bordering(s.sid).contains(t) && t != s.sid && c.mind.game.is_friendly(
                s.sid,
                t,
            ) && c.mind.game.allied(s.sid, t),
{
    let game = c.mind.game;
    let friends = game.bordering_friends(s.sid);
    let count = bordering.len() + friends.len();
    let p = game.betrayable(s.sid, count as int);
    crate::lists::lemma_first_where(friends, p);
    crate::lists::lemma_filter_members(game.bordering(s.sid), game.friend_of(s.sid));
    match crate::lists::first_where(friends, p) {
        Some(t) => {
            let k = crate::lists::lemma_first_where_at(friends, p);
            assert(friends.contains(friends[k]));
            assert(game.friend_of(s.sid)(t));
            assert(p(t));
        },
        None => {},
    }
}

/// A structure that may be upgraded gets the points of its guards, and eight more at most by
/// chance; each is listed once, in order.
pub proof fn law_ranked(game: GameView, rng: u64, sid: u16, units: Seq<Unit>)
    requires
        forall|i: int|
            0 <= i < units.len() ==> 0 <= game.sheltered(
                (#[trigger] units[i]).tile,
                game.units_of(sid, UnitType::SamLauncher),
            ) <= 1_000_000_000_000,
    ensures
        ({
            let ranks = game.ranked(rng, sid, units).0;
            &&& ranks.len() == units.len()
            &&& forall|i: int|
                0 <= i < units.len() ==> {
                    let points = game.sheltered(
                        units[i].tile,
                        game.units_of(sid, UnitType::SamLauncher),
                    );
                    (#[trigger] ranks[i]).1 == units[i].id && points <= ranks[i].0 <= points + 8
                }
        }),
    decreases units.len(),
{
    if units.len() > 0 {
        let front = units.drop_last();
        assert forall|i: int| 0 <= i < front.len() implies 0 <= game.sheltered(
            (#[trigger] front[i]).tile,
            game.units_of(sid, UnitType::SamLauncher),
        ) <= 1_000_000_000_000 by {
            assert(front[i] == units[i]);
        }
        law_ranked(game, rng, sid, front);
        let (held, state) = game.ranked(rng, sid, front);
        crate::prng::lemma_int_drawn(state, 0, 5);
        let ranks = game.ranked(rng, sid, units).0;
        assert(units[units.len() - 1] == units.last());
        assert forall|i: int| 0 <= i < units.len() implies ({
            let points = game.sheltered(
                units[i].tile,
                game.units_of(sid, UnitType::SamLauncher),
            );
            (#[trigger] ranks[i]).1 == units[i].id && points <= ranks[i].0 <= points + 8
        }) by {
            if i < front.len() {
                assert(held[i] == ranks[i]);
                assert(front[i] == units[i]);
            }
        }
    }
}

/// What a nation thinks pointless: what is disabled, ports without a coast, and what serves
/// nukes where none are allowed. Everything else it thinks of.
pub proof fn law_pointless(game: GameView, kind: UnitType, coastal: bool)
    ensures
        game.config.disabled(kind) ==> game.pointless(kind, coastal),
        kind == UnitType::Port && !coastal ==> game.pointless(kind, coastal),
        kind == UnitType::Port && coastal && !game.config.disabled(kind) ==> !game.pointless(
            kind,
            coastal,
        ),
        kind == UnitType::Factory && !game.config.disabled(kind) ==> !game.pointless(kind, coastal),
        kind == UnitType::MissileSilo && !game.config.disabled(kind) && !game.config.disabled(
            UnitType::AtomBomb,
        ) ==> !game.pointless(kind, coastal),
        kind == UnitType::SamLauncher && game.config.disabled(UnitType::MissileSilo)
            ==> game.pointless(kind, coastal),
        game.config.disabled(UnitType::AtomBomb) && game.config.disabled(UnitType::HydrogenBomb)
            && game.config.disabled(UnitType::Mirv) && kind == UnitType::MissileSilo
            ==> game.pointless(kind, coastal),
{
}

/// Only a rich nation on the two highest difficulties starts with a SAM launcher. One that
/// lives close to many others starts with a port, or a factory where it has no coast.
pub proof fn law_first_structures(game: GameView, placements: int, coastal: bool)
    ensures
        game.guards_first(placements) ==> placements == 0 && game.config.starting_gold_nation
            >= 3_000_000 && (game.config.difficulty == Difficulty::Hard || game.config.difficulty
            == Difficulty::Impossible),
        game.config.starting_gold_nation < 3_000_000 ==> !game.guards_first(placements),
        coastal && !game.config.disabled(UnitType::Port) ==> game.first_structure(coastal)
            == UnitType::Port,
        !coastal ==> game.first_structure(coastal) == UnitType::Factory,
        crate::nation_structures::build_order()[0] == UnitType::Port,
        crate::nation_structures::build_order()[1] == UnitType::Factory,
        crate::nation_structures::build_order()[2] == UnitType::SamLauncher,
        crate::nation_structures::build_order()[3] == UnitType::MissileSilo,
{
}

/// Asked to think of one kind of structure, a nation orders it only where it wants more of the
/// kind and the kind has a point, and then whenever it finds a place.
pub proof fn law_balancing(
    game: GameView,
    rng: u64,
    sid: u16,
    kind: UnitType,
    cities: int,
    coastal: bool,
)
    ensures
        ({
            let done = game.balancing(rng, sid, seq![kind], cities, coastal).2;
            &&& done ==> game.wants(sid, kind, cities, coastal) && !game.pointless(kind, coastal)
            &&& game.wants(sid, kind, cities, coastal) && !game.pointless(kind, coastal) ==> done
                == game.developing(rng, sid, kind).2
        }),
{
    reveal_with_fuel(GameView::balancing, 2);
    assert(seq![kind].skip(1) =~= Seq::<UnitType>::empty());
    assert(seq![kind][0] == kind);
}

/// Bombs of a volley arrive at least a tick apart, and all within half of what a SAM launcher
/// takes to reload, where there is time enough.
pub proof fn law_arrivals(game: GameView, total: int)
    requires
        total > 0,
    ensures
        game.arrival_interval(total) >= 1,
        game.arrival_spread() >= total ==> game.arrival_interval(total) * total
            <= game.arrival_spread(),
        2 * game.arrival_spread() <= game.config.sam_cooldown,
{
    let n = game.arrival_spread();
    vstd::arithmetic::div_mod::lemma_fundamental_div_mod(n, total);
    vstd::arithmetic::div_mod::lemma_mod_bound(n, total);
    let q = n / total;
    assert(q * total <= n) by (nonlinear_arith)
        requires
            n == total * q + n % total,
            n % total >= 0,
    ;
    if n >= total {
        assert(q >= 1) by (nonlinear_arith)
            requires
                n == total * q + n % total,
                n % total < total,
                n >= total,
                total > 0,
        ;
    }
}

/// A MIRV separates midway between its silo and its target, 450 rows above the target or, on
/// the first rows of the map, in row fifty.
pub proof fn law_separation_place(game: GameView, src: TileRef, dst: TileRef)
    requires
        game.map.wf(),
        game.map.valid(src),
        game.map.valid(dst),
        game.map.height > 50,
    ensures
        ({
            let t = game.separation(src, dst);
            &&& game.map.y(dst) >= 500 ==> game.map.y(t) == game.map.y(dst) - 450
            &&& game.map.y(dst) < 500 ==> game.map.y(t) == 50
            &&& 0 <= game.map.x(src) + game.map.x(dst) - 2 * game.map.x(t) <= 1
        }),
{
    game.map.lemma_xy(src);
    game.map.lemma_xy(dst);
    game.map.lemma_at(
        (game.map.x(dst) + game.map.x(src)) / 2,
        if game.map.y(dst) < 500 {
            50
        } else {
            game.map.y(dst) - 450
        },
    );
}

/// Cities count with all their levels once they are finished, and not before.
pub proof fn law_city_levels(game: GameView, sid: u16, u: Unit)
    requires
        u.owner == sid,
        u.unit_type == UnitType::City,
    ensures
        ({
            let more = GameView { units: game.units.push(u), ..game };
            &&& u.under_construction ==> more.city_levels(sid) == game.city_levels(sid)
            &&& !u.under_construction ==> more.city_levels(sid) == game.city_levels(sid) + u.level
        }),
{
    reveal(Seq::filter);
    let more = GameView { units: game.units.push(u), ..game };
    let city = |x: Unit| x.owner == sid && x.unit_type == UnitType::City;
    assert(more.units.drop_last() =~= game.units);
    assert(more.units.last() == u);
    let cities = game.units_of(sid, UnitType::City);
    assert(cities == game.units.filter(city));
    assert(more.units_of(sid, UnitType::City) == more.units.filter(city));
    assert(more.units.filter(city) == cities.push(u));
    let done = crate::game_structures::finished();
    assert(cities.push(u).drop_last() =~= cities);
    if done(u) {
        assert(cities.push(u).filter(done) == cities.filter(done).push(u));
        assert(cities.filter(done).push(u).drop_last() =~= cities.filter(done));
    } else {
        assert(cities.push(u).filter(done) == cities.filter(done));
    }
}

/// The silo that a nation has upgraded for a volley is one from which bombs get through, and
/// only where enough bombs could ever be had.
pub proof fn law_preparing(game: GameView, sid: u16, tile: TileRef)
    ensures
        game.preparing(sid, tile) != game ==> game.preparing(sid, tile).pending.len()
            == game.pending.len() + 1 && game.preparing(sid, tile).pending.last()
            is UpgradeStructure && game.units_of(sid, UnitType::MissileSilo).filter(
            game.helpful_silo(sid, tile, game.guard_ids(sid, tile)),
        ).len() > 0,
{
}

/// Of an attack on a player that is called back a quarter dies on the way, of one on free land
/// nobody; nobody comes home who did not set out.
pub proof fn law_homecoming(attack: AttackExecution, troops: int)
    requires
        0 <= troops <= 1_000_000_000_000_000,
        attack.remove_troops || attack.source_tile is Some,
    ensures
        attack.target_is_player ==> attack.survivors(troops, attack.malus()) == troops - troops / 4,
        !attack.target_is_player ==> attack.survivors(troops, attack.malus()) == troops,
        attack.survivors(troops, 0) == troops,
{
    assert(troops * 25 / 100 == troops / 4);
    assert(troops * 0 / 100 == 0);
}

/// Troops that were never taken from their owner do not come home on top: only what they grew
/// by does.
pub proof fn law_borrowed_troops(attack: AttackExecution, troops: int, start: i64)
    requires
        0 <= troops <= 1_000_000_000_000_000,
        !attack.remove_troops,
        attack.source_tile is None,
        attack.start_troops == Some(start),
        start >= 0,
    ensures
        troops <= start ==> attack.survivors(troops, attack.malus()) == 0,
        troops > start ==> attack.survivors(troops, 0) == troops - start,
        attack.survivors(troops, attack.malus()) <= attack.survivors(troops, 0),
{
    assert(troops * 0 / 100 == 0);
    assert(troops * 25 / 100 >= 0);
}

/// The troops that come home join those there, and the attack is no longer listed.
pub proof fn law_returned(
    attack: AttackExecution,
    game: GameView,
    troops: int,
    malus: int,
    called: bool,
    a: LandAttackView,
)
    requires
        game.has(attack.owner_small_id),
        0 <= game.troops(attack.owner_small_id) <= 1_000_000_000,
        0 <= attack.survivors(troops, malus) <= 100_000_000_000_000,
        attack.attack_live,
    ensures
        ({
            let after = attack.returned(game, troops, malus, called);
            let sid = attack.owner_small_id;
            let home = attack.survivors(troops, malus);
            &&& after.troops(sid) == game.troops(sid) + home / 100_000
            &&& after.gold(sid) == game.gold(sid)
            &&& after.map == game.map
            &&& after.attacks.contains(a) == (game.attacks.contains(a) && !(a.attacker == sid && a.id
                == attack.attack_id@))
        }),
{
    law_ended_attacks(game, attack.owner_small_id, attack.attack_id@, a);
}

/// Nobody is sent on an attack while players spawn, on a friend, by someone who is not there,
/// or on someone who is not there. Everyone else is.
pub proof fn law_refused_attacks(attack: AttackExecution, game: GameView)
    ensures
        game.spawn_phase ==> attack.is_refused(game),
        !game.has(attack.owner_small_id) ==> attack.is_refused(game),
        attack.target_player_id is Some && attack.aim(game) is None ==> attack.is_refused(game),
        attack.target_player_id is Some && attack.aim(game) is Some && game.is_friendly(
            attack.owner_small_id,
            attack.aim(game)->0,
        ) ==> attack.is_refused(game),
        attack.target_player_id is None && !game.spawn_phase && game.has(attack.owner_small_id)
            ==> !attack.is_refused(game),
        attack.target_player_id is Some && !game.spawn_phase && game.has(attack.owner_small_id)
            && attack.aim(game) is Some && !game.is_friendly(
            attack.owner_small_id,
            attack.aim(game)->0,
        ) ==> !attack.is_refused(game),
{
}

/// A player sends a fifth of its troops where no number is named, a bot a twentieth.
pub proof fn law_usual_attack(game: GameView, sid: u16)
    ensures
        game.of_type(sid, PlayerType::Bot) ==> 20 * game.usual_attack(sid) == 100_000 * game.troops(
            sid,
        ),
        !game.of_type(sid, PlayerType::Bot) ==> 5 * game.usual_attack(sid) == 100_000 * game.troops(
            sid,
        ),
{
    let t = game.troops(sid);
    if game.of_type(sid, PlayerType::Bot) {
        assert(game.usual_attack(sid) == t * 5_000);
    } else {
        assert(game.usual_attack(sid) == t * 20_000);
    }
}

/// What a player sends is added to what it sent before, and nothing else is changed by it.
pub proof fn law_counting_sent(game: GameView, sid: u16, amount: int)
    requires
        game.has(sid),
        -1_000_000_000_000 <= amount <= 1_000_000_000_000,
        -1_000_000_000_000 <= game.player(sid).attacks_sent <= 1_000_000_000_000,
    ensures
        ({
            let after = game.counting_sent(sid, amount);
            &&& after.player(sid).attacks_sent == game.player(sid).attacks_sent + amount
            &&& after.troops(sid) == game.troops(sid)
            &&& after.gold(sid) == game.gold(sid)
            &&& after.attacks == game.attacks
        }),
{
}

/// Nations are crowded where each has less than 7500 tiles of land, the more so the more
/// nations there are.
pub proof fn law_crowded(game: GameView)
    ensures
        game.is_crowded() == (7500 * game.nations() > game.land()),
{
}

/// Where cities are not allowed, each two thousand tiles count as one, and one counts at least.
pub proof fn law_city_basis(game: GameView, sid: u16)
    ensures
        !game.config.disabled(UnitType::City) ==> game.city_basis(sid) == game.owned(
            sid,
            UnitType::City,
        ),
        game.config.disabled(UnitType::City) ==> game.city_basis(sid) >= 1,
        game.config.disabled(UnitType::City) && game.tiles_owned(sid) >= 2000 ==> 2000
            * game.city_basis(sid) <= game.tiles_owned(sid) < 2000 * game.city_basis(sid) + 2000,
{
}

/// A volley is sent only by who can pay for all of its bombs, and who has more can pay too.
pub proof fn law_affording(game: GameView, sid: u16, n: int, m: int)
    requires
        0 <= m <= n,
        game.cost(sid, UnitType::AtomBomb) >= 0,
    ensures
        game.affords(sid, n) == (game.gold(sid) >= n * game.cost(sid, UnitType::AtomBomb)),
        game.affords(sid, n) ==> game.affords(sid, m),
{
    let c = game.cost(sid, UnitType::AtomBomb);
    assert(c * m <= c * n && c * n == n * c) by (nonlinear_arith)
        requires
            0 <= m <= n,
            c >= 0,
    ;
}

/// A missile that flies on is where it flew to, and can be shot down while the place that it
/// left is near its target.
pub proof fn law_flying(game: GameView, sid: u16, id: i32, tile: TileRef, index: u32, u: Unit)
    requires
        game.unit(sid, id) == Some(u),
    ensures
        ({
            let at = crate::game_units::unit_at(game.units, sid, id);
            let after = game.flying(sid, id, tile, index);
            let reach = game.config.nuke_targetable_range;
            &&& after.units[at].tile == tile
            &&& after.units[at].trajectory_index == index
            &&& u.target_tile is Some ==> after.units[at].targetable == (game.map.dist2(
                u.target_tile->0,
                u.tile,
            ) < reach * reach)
            &&& u.target_tile is None ==> after.units[at].targetable == u.targetable
            &&& after.units.len() == game.units.len()
            &&& forall|i: int|
                0 <= i < game.units.len() && i != at ==> after.units[i] == #[trigger] game.units[i]
        }),
{
    crate::game_units::lemma_unit_at(game.units, sid, id);
}

/// Whoever a bomb hits turns down what its owner was asked by them: nothing stays pending, and
/// no alliance comes of it.
pub proof fn law_refusing(game: GameView, nuker: u16, targets: Seq<u16>, a: u16, b: u16)
    ensures
        targets.contains(a) ==> !game.refusing(nuker, targets).requested(a, nuker),
        game.refusing(nuker, targets).alliances == game.alliances,
        game.refusing(nuker, targets).requested(a, b) ==> game.requested(a, b),
        b != nuker && game.requested(a, b) ==> game.refusing(nuker, targets).requested(a, b),
    decreases targets.len(),
{
    if targets.len() > 0 {
        let front = targets.drop_last();
        let t = targets.last();
        law_refusing(game, nuker, front, a, b);
        law_refusing(game, nuker, front, a, nuker);
        let mid = game.refusing(nuker, front);
        let rejected = crate::state::AllianceRequestStatus::Rejected;
        let after = game.refusing(nuker, targets);
        assert(targets.contains(a) ==> front.contains(a) || a == t) by {
            if targets.contains(a) {
                let k = choose|k: int| 0 <= k < targets.len() && targets[k] == a;
                if k < front.len() {
                    assert(front[k] == a);
                }
            }
        }
        if mid.requested(t, nuker) {
            crate::laws_diplomacy::law_answering(mid, t, nuker, rejected);
            assert(after == mid.answering(t, nuker, rejected));
            if after.requested(a, b) {
                let i = choose|i: int|
                    0 <= i < after.requests.len() && (#[trigger] after.requests[i]).pends(a, b);
                assert(mid.requests[i].pends(a, b));
            }
            if after.requested(a, nuker) {
                let i = choose|i: int|
                    0 <= i < after.requests.len() && (#[trigger] after.requests[i]).pends(a, nuker);
                assert(mid.requests[i].pends(a, nuker));
            }
            if b != nuker && mid.requested(a, b) {
                let i = choose|i: int|
                    0 <= i < mid.requests.len() && (#[trigger] mid.requests[i]).pends(a, b);
                assert(after.requests[i].pends(a, b));
            }
        }
    }
}

/// A nation without a place of its own spawns anywhere; one with a place spawns there, unless
/// its team has an area and the place is outside of it. A place in the area is kept.
pub proof fn law_places_kept(nation: NationExecution, game: GameView, sid: u16)
    ensures
        nation.nation.spawn_cell is None ==> nation.spawns_anywhere(game, sid),
        nation.nation.spawn_cell is Some && game.player(sid).team is None
            ==> !nation.spawns_anywhere(game, sid),
        nation.nation.spawn_cell is Some && (forall|i: int|
            0 <= i < game.config.spawn_areas@.len() ==> ({
                let area = #[trigger] game.config.spawn_areas@[i];
                let cell = nation.nation.spawn_cell->0;
                &&& area.x <= cell[0] < area.x + area.width
                &&& area.y <= cell[1] < area.y + area.height
            })) ==> !nation.spawns_anywhere(game, sid),
        nation.nation.spawn_cell is Some && game.player(sid).team is Some && (exists|i: int|
            0 <= i < game.config.spawn_areas@.len() && (#[trigger] game.config.spawn_areas@[i]).team@
                == game.player(sid).team->0@) && (forall|i: int|
            0 <= i < game.config.spawn_areas@.len() ==> ({
                let area = #[trigger] game.config.spawn_areas@[i];
                let cell = nation.nation.spawn_cell->0;
                cell[0] < area.x || cell[1] < area.y || cell[0] >= area.x + area.width || cell[1]
                    >= area.y + area.height
            })) ==> nation.spawns_anywhere(game, sid),
{
    if let Some(team) = game.player(sid).team {
        let areas = game.config.spawn_areas@;
        let p = crate::config::area_of(team@);
        crate::lists::lemma_first_where(areas, p);
        if crate::lists::first_where(areas, p) is Some {
            let k = crate::lists::lemma_first_where_at(areas, p);
            assert(crate::lists::first_where(areas, p) == Some(areas[k]));
        } else if exists|i: int|
            0 <= i < areas.len() && (#[trigger] areas[i]).team@ == team@ {
            let i = choose|i: int| 0 <= i < areas.len() && (#[trigger] areas[i]).team@ == team@;
            assert(p(areas[i]));
        }
    }
}

/// A nation that was not placed yet spawns once, and one that was spawns anew on its turns.
pub proof fn law_spawning_turns(nation: NationExecution, game: GameView, sid: u16, tick: u32)
    ensures
        !game.has_spawned(sid) ==> nation.may_spawn(game, sid, tick) == !nation.spawn_exec_added,
        game.has_spawned(sid) && nation.attack_rate > 0 ==> nation.may_spawn(game, sid, tick) == (
        tick % nation.attack_rate == nation.attack_tick),
{
}

/// The bombs of a volley are launched in the order in which they were counted, and are the
/// same bombs.
pub proof fn law_launch_order(bombs: Seq<(usize, usize)>)
    requires
        forall|i: int| 0 <= i < bombs.len() ==> (#[trigger] bombs[i]).0 <= i64::MAX,
    ensures
        launch_order(bombs).len() == bombs.len(),
        launch_order(bombs).to_multiset() == bombs.to_multiset(),
        forall|i: int, j: int|
            0 <= i <= j < launch_order(bombs).len() ==> (#[trigger] launch_order(bombs)[i]).0 <= (
            #[trigger] launch_order(bombs)[j]).0,
{
    let key = crate::nuke_volley::by_index();
    let sorted = launch_order(bombs);
    crate::lists::law_sorting_by(bombs, key);
    assert forall|i: int, j: int| 0 <= i <= j < sorted.len() implies (#[trigger] sorted[i]).0 <= (
    #[trigger] sorted[j]).0 by {
        assert(key(sorted[i]).0 <= key(sorted[j]).0);
        assert(sorted.contains(sorted[i]) && sorted.contains(sorted[j]));
        let a = choose|a: int| 0 <= a < bombs.len() && bombs[a] == sorted[i];
        let b = choose|b: int| 0 <= b < bombs.len() && bombs[b] == sorted[j];
        assert(bombs[a].0 <= i64::MAX && bombs[b].0 <= i64::MAX);
    }
}

/// A kind of unit goes by the names that are given to it: a name that nobody gave means none,
/// and one that was given means what some entry of that name says.
pub proof fn law_unit_names(config: Config, name: Seq<char>)
    ensures
        (forall|i: int|
            0 <= i < config.unit_names@.len() ==> (#[trigger] config.unit_names@[i]).name@ != name)
            ==> config.unit_called(name) == UnitType::Unknown,
        (exists|i: int|
            0 <= i < config.unit_names@.len() && (#[trigger] config.unit_names@[i]).name@ == name)
            ==> exists|i: int|
            0 <= i < config.unit_names@.len() && (#[trigger] config.unit_names@[i]).name@ == name
                && config.unit_names@[i].unit == config.unit_called(name),
{
    let names = config.unit_names@;
    let p = crate::config::called(name);
    crate::lists::lemma_first_where(names, p);
    if crate::lists::first_where(names, p) is Some {
        let k = crate::lists::lemma_first_where_at(names, p);
        assert(p(names[k]) && names[k].name@ == name);
    } else if exists|i: int| 0 <= i < names.len() && (#[trigger] names[i]).name@ == name {
        let i = choose|i: int| 0 <= i < names.len() && (#[trigger] names[i]).name@ == name;
        assert(p(names[i]));
    }
}

} // verus!
