//! What holds of the campaigns of nations and tribes, step by step.

use vstd::prelude::*;

use crate::ai_forces::Campaign;
use crate::ai_strategy::{parallelism, plan_of, Stance};
use crate::config::Difficulty;
use crate::game::GameView;
use crate::nation_emoji::Mind;
use crate::nuke_ai::Arsenal;
use crate::orders::Order;
use crate::state::{PlayerType, Relation};
use crate::unit_type::UnitType;

verus! {

/// A nation without its reserve attacks nobody by plan. One that has what triggers it follows
/// its plan; in between it does so only where one draw of ten hits.
pub proof fn law_committing(c: Campaign, s: Stance, bordering: Seq<u16>)
    requires
        c.mind.game.has(s.sid),
        c.mind.game.max_troops_milli(s.sid) > 0,
    ensures
        ({
            let game = c.mind.game;
            let troops = game.troops(s.sid) * 100_000;
            let limit = game.max_troops_milli(s.sid);
            &&& troops < limit * s.reserve ==> c.committing(s, bordering) == (c, false)
            &&& troops >= limit * s.reserve && troops >= limit * s.trigger ==> c.committing(
                s,
                bordering,
            ) == c.following(s, plan_of(s.difficulty), bordering)
            &&& limit * s.reserve <= troops < limit * s.trigger && !crate::prng::chance_drawn(
                c.mind.rng,
                10,
            ) ==> !c.committing(s, bordering).1 && c.committing(s, bordering).0.mind.game == game
        }),
{
}

/// A nation that can take free land at its border with troops above what it holds back does that
/// and nothing else.
pub proof fn law_free_land_first(c: Campaign, s: Stance)
    requires
        c.mind.game.borders_free_land(s.sid),
        c.mind.game.borders_unowned_land(s.sid),
        c.mind.game.has(s.sid),
    ensures
        ({
            let game = c.mind.game;
            let spare = game.troops(s.sid) * 100_000 - game.max_troops_milli(s.sid) * s.expand;
            spare >= 100_000 ==> c.waging(s).mind.game.pending == game.pending.push(
                Order::Attack { owner: s.sid, target: None, troops: Some(spare), source: None },
            ) && c.waging(s).mind.rng == c.mind.rng
        }),
{
}

/// Free land over the water is settled by boat, with a fifth of the troops, where none lies at
/// the border.
pub proof fn law_settling_by_boat(game: GameView, sid: u16, expand: int)
    requires
        !game.borders_unowned_land(sid),
        game.expanding(sid, expand).1,
    ensures
        ({
            let after = game.expanding(sid, expand).0;
            &&& game.troops(sid) * 20_000 >= 100_000
            &&& after.pending.len() == game.pending.len() + 1
            &&& after.pending.last() is TransportShip
            &&& after.pending.last()->TransportShip_owner == sid
            &&& after.pending.last()->TransportShip_troops * 5 == game.troops(sid) * 100_000
            &&& game.map.owner(after.pending.last()->TransportShip_dst) == 0
            &&& game.map.is_land(after.pending.last()->TransportShip_dst)
            &&& !game.map.has_fallout(after.pending.last()->TransportShip_dst)
        }),
{
    crate::lists::lemma_first_where(game.overseas(sid), game.free_landing(sid));
}

/// Who attacks another goes over land where the two share a border, and by boat otherwise; bots
/// are attacked in another way, with what it takes.
pub proof fn law_attack_routes(
    c: Campaign,
    sid: u16,
    target: u16,
    reserve: int,
    expand: int,
    difficulty: Difficulty,
    force: bool,
)
    requires
        !c.mind.game.of_type(target, PlayerType::Bot),
        c.mind.game.has(target),
    ensures
        ({
            let game = c.mind.game;
            let (after, sent) = c.attacking(sid, target, reserve, expand, difficulty, false, force);
            &&& !sent ==> after.mind.game == game
            &&& sent ==> after.mind.game.pending.len() == game.pending.len() + 1
            &&& sent && game.shares_border(sid, target) ==> {
                let order = after.mind.game.pending.last();
                &&& order is Attack
                &&& order->Attack_owner == sid
                &&& order->Attack_target == Some(game.player(target).id@)
                &&& order->Attack_troops is Some
                &&& game.troops(sid) * 100_000 - order->Attack_troops->0 >= game.max_troops_milli(
                    sid,
                ) * reserve
            }
            &&& sent && !game.shares_border(sid, target) ==> {
                let order = after.mind.game.pending.last();
                &&& order is TransportShip
                &&& order->TransportShip_owner == sid
                &&& order->TransportShip_troops * 5 <= game.troops(sid) * 100_000
            }
            &&& after.sent == c.sent
        }),
{
}

/// Whatever is sent against bots is counted, up to the most that can be.
pub proof fn law_counting(c: Campaign, troops: int)
    requires
        0 <= c.sent,
        0 <= troops,
        c.sent + troops <= i64::MAX,
    ensures
        c.counting(troops).sent == c.sent + troops,
        c.counting(troops).mind == c.mind,
{
}

/// The harder the game, the more bots a nation attacks at once: one, one or two, three, or as
/// many as there are.
pub proof fn law_parallelism(rng: u64)
    ensures
        parallelism(rng, Difficulty::Easy).0 == 1,
        1 <= parallelism(rng, Difficulty::Medium).0 <= 2,
        parallelism(rng, Difficulty::Hard).0 == 3,
        parallelism(rng, Difficulty::Impossible).0 == 100,
        parallelism(rng, Difficulty::Medium).0 == 1 ==> crate::prng::chance_drawn(rng, 2),
{
}

/// A tribe attacks a traitor only where it is no friend of it, alliances are allowed and one
/// draw of three hits.
pub proof fn law_punishing(c: Campaign, s: Stance, breaking: bool)
    requires
        c.punishing(s, breaking).1,
    ensures
        !c.mind.game.config.disable_alliances,
        exists|t: u16| #[trigger]
            c.mind.game.near_in_order(s.sid).contains(t) && c.mind.game.is_traitor(t)
                && !c.mind.game.is_friendly(s.sid, t),
{
    let game = c.mind.game;
    let near = game.near_in_order(s.sid);
    let p = game.unfriendly_traitor(s.sid);
    let traitors = near.filter(p);
    crate::lists::lemma_filter_members(near, p);
    if traitors.len() > 0 {
        assert(traitors.contains(traitors[0]));
        assert(near.contains(traitors[0]) && p(traitors[0]));
    }
}

/// A tribe that raids its only neighbor leaves friends alone.
pub proof fn law_raiding_spares_friends(c: Campaign, s: Stance, t: u16)
    requires
        c.mind.game.is_friendly(s.sid, t),
    ensures
        c.raiding(s, seq![t]) == c,
{
    assert(seq![t].skip(1) =~= Seq::<u16>::empty());
    assert(c.raiding(s, Seq::<u16>::empty()) == c);
}

/// A tribe with free land at its border takes it before it attacks anybody, and below its trigger
/// attacks nobody.
pub proof fn law_settling(c: Campaign, s: Stance, frontier: bool)
    ensures
        ({
            let game = c.mind.game;
            let free = game.borders_free_land(s.sid) || game.sees_free_land(s.sid);
            let (after, sent) = game.expanding(s.sid, s.expand as int);
            &&& frontier && free && sent ==> c.settling(s, frontier).0.mind.game == after
            &&& !(frontier && free) && game.troops(s.sid) * 100_000 < game.max_troops_milli(s.sid)
                * s.trigger ==> c.settling(s, frontier).0 == c
            &&& !free ==> !c.settling(s, frontier).1
        }),
{
}

/// No nation is confused on the highest difficulty, and each the less the harder the game. Only
/// in team games do nations refuse for their team's sake, on the highest difficulty always.
pub proof fn law_moods(m: Mind, sid: u16, other: u16)
    ensures
        m.game.config.difficulty == Difficulty::Impossible ==> !m.confused().0,
        m.confused().0 && m.game.config.difficulty == Difficulty::Easy ==> m.hit(10),
        m.confused().0 && m.game.config.difficulty == Difficulty::Medium ==> m.hit(20),
        m.confused().0 && m.game.config.difficulty == Difficulty::Hard ==> m.hit(40),
        !m.game.config.is_team() ==> !m.loyal().0,
        m.game.config.is_team() && m.game.config.difficulty == Difficulty::Impossible
            ==> m.loyal().0,
        m.game.config.is_team() && m.game.config.difficulty == Difficulty::Easy ==> m.loyal().0 == (
        m.roll(100) < 25),
        m.game.config.is_team() && m.game.config.difficulty == Difficulty::Hard ==> m.loyal().0 == (
        m.roll(100) < 75),
        m.fond(sid, other).0 ==> m.game.relation(sid, other) == Relation::Friendly,
        m.game.relation(sid, other) == Relation::Friendly && m.game.config.difficulty
            == Difficulty::Easy ==> m.fond(sid, other).0,
        m.game.relation(sid, other) == Relation::Friendly && m.game.config.difficulty
            == Difficulty::Impossible ==> m.fond(sid, other).0 == (m.roll(100) >= 33),
{
}

/// One with half as many allies as there are players with land has too many on hard difficulty,
/// with a quarter on the highest; on the others nobody has.
pub proof fn law_overallied(game: GameView, other: u16)
    ensures
        ({
            let players = game.ids().filter(game.landed()).len();
            let allies = game.alliance_count(other);
            &&& game.config.difficulty == Difficulty::Hard ==> game.overallied(other) == (2 * allies
                >= players)
            &&& game.config.difficulty == Difficulty::Impossible ==> game.overallied(other) == (4
                * allies >= players)
            &&& game.config.difficulty == Difficulty::Easy || game.config.difficulty
                == Difficulty::Medium ==> !game.overallied(other)
        }),
        forall|id: u16| #[trigger]
            game.ids().filter(game.landed()).contains(id) == (game.ids().contains(id)
                && game.tiles_owned(id) > 0 && !game.of_type(id, PlayerType::Bot)),
{
    crate::lists::lemma_filter_members(game.ids(), game.landed());
}

/// A nation without a finished plan for nukes sends none: it needs a silo, a kind of bomb that is
/// allowed, a target that is neither a bot nor of its team, and the gold.
pub proof fn law_nuking(a: Arsenal, sid: u16, hydro: bool)
    ensures
        a.nuking(sid, hydro).memory != a.memory ==> {
            let game = a.mind.game;
            let target = game.nuke_target(a.mind.rng, sid).0;
            &&& game.silo_tiles(sid).len() > 0
            &&& !game.config.disabled(UnitType::MissileSilo)
            &&& target is Some
            &&& !game.of_type(target->0, PlayerType::Bot)
            &&& !game.on_same_team(sid, target->0)
            &&& game.nuke_choice(sid, a.memory, hydro) is Some
        },
{
}

/// A nuke that a nation sends is ordered at the tile, in its own name, and remembered.
pub proof fn law_sending(a: Arsenal, sid: u16, tile: u32, nuke: UnitType, target: u16, wait: u32)
    ensures
        ({
            let after = a.sending(sid, tile, nuke, target, wait);
            &&& after.mind.game.pending.len() == a.mind.game.pending.len() + 1
            &&& after.mind.game.pending.last() == (Order::Nuke {
                nuke_type: nuke,
                owner: sid,
                dst: tile,
                src: None,
                speed: None,
                wait_ticks: wait,
                rocket_direction_up: true,
            })
            &&& after.memory.recent == a.memory.recent.push((a.mind.game.tick, tile, nuke))
        }),
{
}

/// A nation sends its bomb to the best spot; where that is worth nothing, on the highest
/// difficulty it turns against the SAM launchers of the target instead.
pub proof fn law_bombing(a: Arsenal, sid: u16, target: u16, nuke: UnitType)
    ensures
        ({
            let game = a.mind.game;
            let (tiles, rng) = game.nuke_spots(a.mind.rng, target);
            let recent = crate::nuke_ai::remembered(a.memory.recent, game.tick);
            let (best, score) = game.best_spot(sid, target, nuke, recent, tiles);
            let after = a.bombing(sid, target, nuke);
            &&& best is Some && score > 0 ==> after.mind.game.pending.last() == (Order::Nuke {
                nuke_type: nuke,
                owner: sid,
                dst: best->0,
                src: None,
                speed: None,
                wait_ticks: 0,
                rocket_direction_up: true,
            })
            &&& best is None && game.config.difficulty != Difficulty::Impossible
                ==> after.mind.game == game
        }),
{
}

/// What a nation saves for: a SAM launcher without silos, a hydrogen bomb in a team, else a MIRV
/// with one, or as many bombs as make up for it.
pub proof fn law_savings(game: GameView)
    ensures
        ({
            let c = game.config;
            &&& c.disabled(UnitType::MissileSilo) ==> game.savings() == c.sam_launcher_cost
            &&& !c.disabled(UnitType::MissileSilo) && c.game_mode == crate::config::GameMode::Team
                ==> game.savings() == c.hydrogen_bomb_cost
            &&& !c.disabled(UnitType::MissileSilo) && c.game_mode != crate::config::GameMode::Team
                && !c.disabled(UnitType::Mirv) ==> game.savings() == c.mirv_cost
                + c.hydrogen_bomb_cost
        }),
{
}

/// A nation that spends what it saved does so for fifteen seconds, then saves again as long, and
/// so on.
pub proof fn law_saving_again(
    game: GameView,
    sid: u16,
    state: crate::nation_tick::NationStructureState,
    start: u32,
)
    requires
        !game.config.disabled(UnitType::MissileSilo),
        game.savings() != 0,
        state.post_save_up_start_tick == Some(start),
        start <= game.tick,
    ensures
        game.spending_since(sid, state) == Some(start),
        game.tick - start < 150 ==> !game.saving_again(sid, state),
        150 <= game.tick - start < 300 ==> game.saving_again(sid, state),
        300 <= game.tick - start < 450 ==> !game.saving_again(sid, state),
{
    let n = game.tick - start;
    assert(crate::nation_tick::since(game.tick, start) == n);
    assert(crate::nation_tick::TEAM_POST_SAVE_UP_PHASE_TICKS * 2 == 300);
    if n < 300 {
        assert(n % 300 == n);
    } else if n < 450 {
        assert(n % 300 == n - 300);
    }
}

} // verus!
