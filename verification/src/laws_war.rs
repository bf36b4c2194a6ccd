//! What holds of whom nations and tribes attack, and with how many troops.

use vstd::prelude::*;

use crate::ai_forces::Campaign;
use crate::ai_strategy::{plan_of, Stance, Strategy};
use crate::config::Difficulty;
use crate::game::GameView;
use crate::game_war::{largest_attacker, AttackInfo};
use crate::map::MapView;
use crate::ordered_tiles::TileRef;
use crate::state::{PlayerType, Relation};

verus! {

/// Whether an attack on `sid` calls for an answer: bots only bother bots.
pub open spec fn bothers(game: GameView, sid: u16, attacker: u16) -> bool {
    game.of_type(sid, PlayerType::Bot) || !game.of_type(attacker, PlayerType::Bot)
}

proof fn lemma_largest(attacks: Seq<AttackInfo>)
    ensures
        match largest_attacker(attacks) {
            Some(a) => attacks.contains(a) && a.troops > 0 && forall|i: int|
                0 <= i < attacks.len() ==> (#[trigger] attacks[i]).troops <= a.troops,
            None => forall|i: int| 0 <= i < attacks.len() ==> (#[trigger] attacks[i]).troops <= 0,
        },
    decreases attacks.len(),
{
    if attacks.len() > 0 {
        let front = attacks.drop_last();
        lemma_largest(front);
        assert(attacks[attacks.len() - 1] == attacks.last());
        assert forall|i: int| 0 <= i < front.len() implies front[i] == #[trigger] attacks[i] by {}
        if largest_attacker(front) is Some {
            let k = choose|k: int| 0 <= k < front.len() && front[k] == largest_attacker(front)->0;
            assert(attacks[k] == front[k]);
        }
    }
}

/// The main attacker of a player has an attack on it that bothers it, and no other such
/// attack has more troops. There is none only where no such attack has troops.
pub proof fn law_main_attacker(game: GameView, sid: u16)
    ensures
        match game.main_attacker(sid) {
            Some(t) => exists|k: int|
                0 <= k < game.attacks.len() && (#[trigger] game.attacks[k]).attacker == t
                    && game.attacks[k].target == sid && bothers(game, sid, t)
                    && game.attacks[k].troops > 0 && (forall|i: int|
                    0 <= i < game.attacks.len() && (#[trigger] game.attacks[i]).target == sid
                        && bothers(game, sid, game.attacks[i].attacker) ==> game.attacks[i].troops
                        <= game.attacks[k].troops),
            None => forall|i: int|
                0 <= i < game.attacks.len() && (#[trigger] game.attacks[i]).target == sid && bothers(
                    game,
                    sid,
                    game.attacks[i].attacker,
                ) ==> game.attacks[i].troops <= 0,
        },
{
    let land_only = false;
    let on = |a: crate::state::LandAttackView| a.target == sid && !(land_only && a.from_sea);
    let grave = |a: AttackInfo|
        game.of_type(sid, PlayerType::Bot) || !game.of_type(a.attacker_small_id, PlayerType::Bot);
    let filtered = game.attacks.filter(on);
    let infos = game.incoming(sid, false);
    let serious = infos.filter(grave);
    assert(infos =~= filtered.map_values(
        |a: crate::state::LandAttackView| crate::game_war::info(a),
    ));
    crate::lists::lemma_filter_members(game.attacks, on);
    crate::lists::lemma_filter_members(infos, grave);
    lemma_largest(serious);
    assert forall|i: int|
        0 <= i < game.attacks.len() && (#[trigger] game.attacks[i]).target == sid && bothers(
            game,
            sid,
            game.attacks[i].attacker,
        ) implies exists|j: int|
        0 <= j < serious.len() && (#[trigger] serious[j]) == crate::game_war::info(
            game.attacks[i],
        ) by {
        let a = game.attacks[i];
        assert(game.attacks.contains(a) && on(a));
        assert(filtered.contains(a));
        let m = choose|m: int| 0 <= m < filtered.len() && filtered[m] == a;
        assert(infos[m] == crate::game_war::info(a));
        assert(infos.contains(crate::game_war::info(a)));
        assert(grave(crate::game_war::info(a)));
        assert(serious.contains(crate::game_war::info(a)));
    }
    match largest_attacker(serious) {
        Some(best) => {
            assert(infos.contains(best) && grave(best));
            let m = choose|m: int| 0 <= m < infos.len() && infos[m] == best;
            assert(filtered.contains(filtered[m]));
            assert(game.attacks.contains(filtered[m]) && on(filtered[m]));
            let k = choose|k: int|
                0 <= k < game.attacks.len() && game.attacks[k] == filtered[m];
            assert(crate::game_war::info(game.attacks[k]) == best);
            assert forall|i: int|
                0 <= i < game.attacks.len() && (#[trigger] game.attacks[i]).target == sid
                    && bothers(game, sid, game.attacks[i].attacker) implies game.attacks[i].troops
                <= game.attacks[k].troops by {
                let j = choose|j: int|
                    0 <= j < serious.len() && (#[trigger] serious[j]) == crate::game_war::info(
                        game.attacks[i],
                    );
                assert(serious[j].troops <= best.troops);
            }
        },
        None => {
            assert forall|i: int|
                0 <= i < game.attacks.len() && (#[trigger] game.attacks[i]).target == sid
                    && bothers(game, sid, game.attacks[i].attacker) implies game.attacks[i].troops
                <= 0 by {
                let j = choose|j: int|
                    0 <= j < serious.len() && (#[trigger] serious[j]) == crate::game_war::info(
                        game.attacks[i],
                    );
                assert(serious[j].troops <= 0);
            }
        },
    }
}

/// A player loses the whole troops of what is asked, all it has where it has fewer, and
/// nothing else changes.
pub proof fn law_losing(game: GameView, sid: u16, amount: int)
    requires
        game.has(sid),
        game.troops(sid) >= 0,
        amount >= 0,
    ensures
        ({
            let after = game.losing(sid, amount);
            let lost = game.troops(sid) - after.troops(sid);
            &&& after.troops(sid) >= 0
            &&& 0 <= lost
            &&& lost * 100_000 <= amount
            &&& after.troops(sid) > 0 ==> amount < (lost + 1) * 100_000
            &&& after.gold(sid) == game.gold(sid)
            &&& after.map == game.map
            &&& after.units == game.units
            &&& forall|id: u16| #[trigger]
                game.has(id) && id != sid ==> after.player(id) == game.player(id)
        }),
{
    let after = game.losing(sid, amount);
    assert forall|id: u16| #[trigger] game.has(id) && id != sid implies after.player(id)
        == game.player(id) by {}
}

/// A player gains the whole troops of what it is given, up to the most that anybody holds.
pub proof fn law_reinforcing(game: GameView, sid: u16, amount: int)
    requires
        game.has(sid),
        0 <= game.troops(sid) <= crate::state::MAX_TROOPS,
        amount >= 0,
    ensures
        ({
            let after = game.reinforcing(sid, amount);
            let gained = after.troops(sid) - game.troops(sid);
            &&& 0 <= gained
            &&& gained * 100_000 <= amount
            &&& after.troops(sid) <= crate::state::MAX_TROOPS
            &&& after.troops(sid) < crate::state::MAX_TROOPS ==> amount < (gained + 1) * 100_000
            &&& after.gold(sid) == game.gold(sid)
        }),
{
}

/// Gold is added or taken, but nobody owes any.
pub proof fn law_enriching(game: GameView, sid: u16, amount: int)
    requires
        game.has(sid),
        0 <= game.gold(sid) <= crate::config::MAX_GOLD,
    ensures
        ({
            let after = game.enriching(sid, amount);
            &&& 0 <= after.gold(sid) <= crate::config::MAX_GOLD
            &&& 0 <= game.gold(sid) + amount <= crate::config::MAX_GOLD ==> after.gold(sid)
                == game.gold(sid) + amount
            &&& amount >= 0 ==> after.gold(sid) >= game.gold(sid)
            &&& amount <= 0 ==> after.gold(sid) <= game.gold(sid)
            &&& after.troops(sid) == game.troops(sid)
        }),
{
}

/// Whether `id` is one whom `sid` has to fear.
pub open spec fn is_dangerous(game: GameView, sid: u16, id: u16) -> bool {
    game.has(id) && !game.of_type(id, PlayerType::Bot) && !game.is_friendly(sid, id)
}

/// No dangerous player has more troops than the strongest, and one has as many, unless none
/// has any.
pub proof fn law_strongest(game: GameView, sid: u16, ids: Seq<u16>)
    ensures
        game.strongest(sid, ids) >= 0,
        forall|id: u16| #[trigger]
            ids.contains(id) && is_dangerous(game, sid, id) ==> game.troops(id) <= game.strongest(
                sid,
                ids,
            ),
        game.strongest(sid, ids) > 0 ==> exists|id: u16| #[trigger]
            ids.contains(id) && is_dangerous(game, sid, id) && game.troops(id) == game.strongest(
                sid,
                ids,
            ),
    decreases ids.len(),
{
    if ids.len() > 0 {
        let front = ids.drop_last();
        let last = ids.last();
        law_strongest(game, sid, front);
        assert(ids[ids.len() - 1] == last);
        assert(ids.contains(last));
        assert forall|id: u16| #[trigger] ids.contains(id) implies id == last || front.contains(
            id,
        ) by {
            let i = choose|i: int| 0 <= i < ids.len() && ids[i] == id;
            if i < front.len() {
                assert(front[i] == id);
            }
        }
        assert forall|id: u16| #[trigger] front.contains(id) implies ids.contains(id) by {
            let i = choose|i: int| 0 <= i < front.len() && front[i] == id;
            assert(ids[i] == id);
        }
    }
}

/// What is sent over land leaves the reserve at home, exactly.
pub proof fn law_reserve(game: GameView, sid: u16, percent: int)
    ensures
        match game.land_troops(sid, percent) {
            Some(sent) => sent >= 100_000 && game.troops(sid) * 100_000 - sent
                == game.max_troops_milli(sid) * percent,
            None => !game.has(sid) || game.troops(sid) * 100_000 - 100_000
                < game.max_troops_milli(sid) * percent,
        },
{
}

/// What a nation on the two highest difficulties sends against `target` is no more than it
/// wanted to. Unless it is under attack, it keeps three quarters, or nine tenths, of the
/// troops of every dangerous player nearby, and sends a fifth of the target's troops or more.
/// Where that cannot be, it sends none.
pub proof fn law_guard(game: GameView, sid: u16, target: u16, wanted: int)
    requires
        game.has(sid),
        !game.of_type(sid, PlayerType::Bot),
        !game.config.is_team(),
        game.troops(sid) >= 0,
    ensures
        game.capped(sid, target, wanted) is Some ==> 100_000 <= game.capped(sid, target, wanted)->0
            <= wanted,
        game.capped(sid, target, wanted) is Some && game.incoming(sid, false).len() == 0 ==> {
            let sent = game.capped(sid, target, wanted)->0;
            &&& game.config.difficulty == Difficulty::Hard || game.config.difficulty
                == Difficulty::Impossible ==> sent * 5 >= game.troops(target) * 100_000
            &&& game.config.difficulty == Difficulty::Hard ==> forall|id: u16| #[trigger]
                game.near_in_order(sid).contains(id) && is_dangerous(game, sid, id)
                    && game.troops(id) > 0 ==> (game.troops(sid) * 100_000 - sent) * 100
                    >= game.troops(id) * 100_000 * 75
            &&& game.config.difficulty == Difficulty::Impossible ==> forall|id: u16| #[trigger]
                game.near_in_order(sid).contains(id) && is_dangerous(game, sid, id)
                    && game.troops(id) > 0 ==> (game.troops(sid) * 100_000 - sent) * 100
                    >= game.troops(id) * 100_000 * 90
        },
        (game.config.difficulty == Difficulty::Easy || game.config.difficulty == Difficulty::Medium)
            && wanted >= 100_000 ==> game.capped(sid, target, wanted) == Some(wanted),
{
    law_strongest(game, sid, game.near_in_order(sid));
    let infos = game.incoming(sid, false);
    if infos.len() == 0 {
        assert(crate::game_war::troop_sum(infos) == 0);
    }
}

/// Under attack a nation may send as many troops as come at it.
pub proof fn law_full_answer(game: GameView, sid: u16, target: u16, wanted: int)
    requires
        game.incoming(sid, false).len() > 0,
        100_000 <= wanted <= crate::game_war::troop_sum(game.incoming(sid, false)),
    ensures
        game.capped(sid, target, wanted) == Some(wanted),
{
}

/// Against a bot a nation sends four times its troops where it can spare them, otherwise
/// all it can spare if that is twice as many; on the lowest difficulty always all of that.
pub proof fn law_bot_troops(
    game: GameView,
    sid: u16,
    target: u16,
    percent: int,
    sent: int,
    difficulty: Difficulty,
)
    requires
        game.has(sid),
        game.has(target),
        game.troops(target) > 0,
    ensures
        ({
            let spare = game.troops(sid) * 100_000 - game.max_troops_milli(sid) * percent - sent;
            match game.bot_troops(sid, target, percent, sent, difficulty) {
                Some(n) => {
                    &&& 100_000 <= n <= spare
                    &&& difficulty != Difficulty::Easy ==> game.troops(target) * 200_000 <= n
                        <= game.troops(target) * 400_000
                    &&& difficulty != Difficulty::Easy && spare >= game.troops(target) * 400_000
                        ==> n == game.troops(target) * 400_000
                    &&& difficulty == Difficulty::Easy || spare < game.troops(target) * 400_000
                        ==> n == spare
                },
                None => spare < 100_000 || (difficulty != Difficulty::Easy && spare < game.troops(
                    target,
                ) * 200_000),
            }
        }),
{
}

/// Whoever is attacked first is attacked back; nobody but humans is ever spared, and those
/// only on the two lowest difficulties, unless they are traitors.
pub proof fn law_willing(game: GameView, rng: u64, sid: u16, target: u16, force: bool)
    requires
        game.has(sid),
    ensures
        force ==> game.willing(rng, sid, target, force).0,
        !game.willing(rng, sid, target, force).0 ==> {
            &&& game.of_type(target, PlayerType::Human)
            &&& !game.is_traitor(target)
            &&& !game.of_type(sid, PlayerType::Bot)
            &&& game.config.difficulty == Difficulty::Easy || game.config.difficulty
                == Difficulty::Medium
            &&& game.config.difficulty == Difficulty::Easy ==> crate::prng::int_drawn(rng, 0, 4)
                != 0
            &&& game.config.difficulty == Difficulty::Medium ==> crate::prng::chance_drawn(rng, 4)
        },
        !force && game.has(target) && game.of_type(target, PlayerType::Human) && !game.is_traitor(
            target,
        ) && !game.of_type(sid, PlayerType::Bot) && !game.config.humans_vs_nations && (
        game.config.difficulty == Difficulty::Easy && crate::prng::int_drawn(rng, 0, 4) != 0
            || game.config.difficulty == Difficulty::Medium && crate::prng::chance_drawn(rng, 4))
            ==> !game.willing(rng, sid, target, force).0,
{
}

/// Whether `t` is land that can be entered.
pub open spec fn can_be_entered(map: MapView, t: TileRef) -> bool {
    map.is_land(t) && !map.is_impassable(t)
}

/// Whether a tile of `sid`'s border has `t` as a neighbor.
pub open spec fn lies_next_to(game: GameView, sid: u16, t: TileRef) -> bool {
    exists|b: TileRef| #[trigger]
        game.border(sid).contains(b) && game.map.neighbors4(b).contains(t)
}

/// A player has free land at its border exactly where a neighbor of a border tile can be
/// entered, has no owner and no fallout, and nuked land where one has fallout instead.
pub proof fn law_free_land(game: GameView, sid: u16)
    ensures
        game.borders_free_land(sid) == (exists|t: TileRef| #[trigger]
            lies_next_to(game, sid, t) && can_be_entered(game.map, t) && game.map.owner(t) == 0
                && !game.map.has_fallout(t)),
        game.borders_unowned_land(sid) == (exists|t: TileRef| #[trigger]
            lies_next_to(game, sid, t) && can_be_entered(game.map, t) && game.map.owner(t) == 0),
        game.borders_nuked_land(sid) == (!game.config.disabled(crate::unit_type::MISSILE_SILO) && (
        exists|t: TileRef| #[trigger]
            lies_next_to(game, sid, t) && game.map.is_land(t) && game.map.owner(t) == 0
                && game.map.has_fallout(t))),
{
    let near = game.adjacent(sid);
    assert forall|t: TileRef| #[trigger] lies_next_to(game, sid, t) == near.contains(t) by {
        crate::shared_water::lemma_flattened(game.map, game.border(sid), t);
    }
    let free = |t: TileRef| game.map.free_land(t);
    let unowned = |t: TileRef| game.map.open_land(t) && game.map.owner(t) == 0;
    let nuked = |t: TileRef|
        game.map.is_land(t) && game.map.owner(t) == 0 && game.map.has_fallout(t);
    lemma_somewhere(near, free);
    lemma_somewhere(near, unowned);
    lemma_somewhere(near, nuked);
    if game.borders_free_land(sid) {
        let t = choose|t: TileRef| #[trigger] near.contains(t) && free(t);
        assert(lies_next_to(game, sid, t) && can_be_entered(game.map, t));
    }
    if game.borders_unowned_land(sid) {
        let t = choose|t: TileRef| #[trigger] near.contains(t) && unowned(t);
        assert(lies_next_to(game, sid, t) && can_be_entered(game.map, t));
    }
    if game.borders_nuked_land(sid) {
        let t = choose|t: TileRef| #[trigger] near.contains(t) && nuked(t);
        assert(lies_next_to(game, sid, t));
    }
    if exists|t: TileRef| #[trigger]
        lies_next_to(game, sid, t) && can_be_entered(game.map, t) && game.map.owner(t) == 0 {
        let t = choose|t: TileRef| #[trigger]
            lies_next_to(game, sid, t) && can_be_entered(game.map, t) && game.map.owner(t) == 0;
        assert(near.contains(t) && unowned(t));
    }
    if exists|t: TileRef| #[trigger]
        lies_next_to(game, sid, t) && can_be_entered(game.map, t) && game.map.owner(t) == 0
            && !game.map.has_fallout(t) {
        let t = choose|t: TileRef| #[trigger]
            lies_next_to(game, sid, t) && can_be_entered(game.map, t) && game.map.owner(t) == 0
                && !game.map.has_fallout(t);
        assert(near.contains(t) && free(t));
    }
    if exists|t: TileRef| #[trigger]
        lies_next_to(game, sid, t) && game.map.is_land(t) && game.map.owner(t) == 0
            && game.map.has_fallout(t) {
        let t = choose|t: TileRef| #[trigger]
            lies_next_to(game, sid, t) && game.map.is_land(t) && game.map.owner(t) == 0
                && game.map.has_fallout(t);
        assert(near.contains(t) && nuked(t));
    }
}

proof fn lemma_somewhere<T>(s: Seq<T>, p: spec_fn(T) -> bool)
    ensures
        crate::lists::some_where(s, p) == (exists|x: T| #[trigger] s.contains(x) && p(x)),
{
    if crate::lists::some_where(s, p) {
        let i = choose|i: int| 0 <= i < s.len() && p(#[trigger] s[i]);
        assert(s.contains(s[i]));
    }
    if exists|x: T| #[trigger] s.contains(x) && p(x) {
        let x = choose|x: T| #[trigger] s.contains(x) && p(x);
        let i = choose|i: int| 0 <= i < s.len() && s[i] == x;
        assert(p(s[i]));
    }
}

/// The players at the border of `sid` are listed with the weakest first, and without `sid`
/// or the same one twice. Everyone who owns land that can be entered next to the border is
/// listed.
pub proof fn law_bordering(game: GameView, sid: u16)
    requires
        forall|id: u16| 0 <= #[trigger] game.troops(id) <= i64::MAX,
    ensures
        ({
            let all = game.bordering(sid);
            &&& all.no_duplicates()
            &&& !all.contains(sid) && !all.contains(0)
            &&& forall|i: int, j: int|
                0 <= i <= j < all.len() ==> game.troops(#[trigger] all[i]) <= game.troops(
                    #[trigger] all[j],
                )
            &&& forall|t: TileRef| #[trigger]
                lies_next_to(game, sid, t) && can_be_entered(game.map, t) && game.map.owner(t) != 0
                    && game.map.owner(t) != sid ==> all.contains(game.map.owner(t))
        }),
{
    let key = game.by_troops();
    let seen = game.first_seen(sid);
    let found = game.land_owners(sid) + game.near_in_order(sid);
    crate::lists::law_sorting_by(seen, key);
    crate::lists::law_distinct(found.filter(crate::ai_attack::is_other(sid)));
    crate::lists::lemma_filter_members(found, crate::ai_attack::is_other(sid));
    let all = game.bordering(sid);
    assert forall|i: int, j: int| 0 <= i <= j < all.len() implies game.troops(#[trigger] all[i])
        <= game.troops(#[trigger] all[j]) by {
        assert(key(all[i]).0 <= key(all[j]).0);
    }
    let open = |t: TileRef| game.map.open_land(t);
    let near = game.adjacent(sid);
    let entered = near.filter(open);
    crate::lists::lemma_filter_members(near, open);
    assert forall|t: TileRef| #[trigger]
        lies_next_to(game, sid, t) && can_be_entered(game.map, t) && game.map.owner(t) != 0
            && game.map.owner(t) != sid implies all.contains(game.map.owner(t)) by {
        crate::shared_water::lemma_flattened(game.map, game.border(sid), t);
        assert(near.contains(t) && open(t));
        assert(entered.contains(t));
        let i = choose|i: int| 0 <= i < entered.len() && entered[i] == t;
        let owners = game.land_owners(sid);
        assert(owners[i] == game.map.owner(t));
        assert(found[i] == owners[i]);
        assert(found.contains(game.map.owner(t)));
        assert(found.filter(crate::ai_attack::is_other(sid)).contains(game.map.owner(t)));
        assert(seen.contains(game.map.owner(t)));
    }
}

/// The one whom a nation attacks for its weakness has fewer troops than the nation, and no
/// foe at its border has fewer.
pub proof fn law_weakest(game: GameView, sid: u16)
    requires
        forall|id: u16| 0 <= #[trigger] game.troops(id) <= i64::MAX,
    ensures
        ({
            let foes = game.bordering_enemies(sid);
            match game.target(Strategy::Weakest, sid, foes) {
                Some(t) => {
                    &&& foes.contains(t)
                    &&& t != sid && !game.is_friendly(sid, t)
                    &&& game.troops(t) < game.troops(sid)
                    &&& forall|id: u16| #[trigger]
                        game.bordering(sid).contains(id) && !game.is_friendly(sid, id)
                            ==> game.troops(t) <= game.troops(id)
                },
                None => forall|id: u16| #[trigger]
                    game.bordering(sid).contains(id) && !game.is_friendly(sid, id) ==> game.troops(
                        id,
                    ) >= game.troops(sid),
            }
        }),
{
    law_bordering(game, sid);
    let all = game.bordering(sid);
    let foe = game.enemy_of(sid);
    let foes = game.bordering_enemies(sid);
    crate::lists::lemma_filter_members(all, foe);
    crate::lists::lemma_first_where(all, foe);
    if foes.len() > 0 {
        assert(foes.contains(foes[0]));
        lemma_head(all, foe);
        let at = crate::lists::lemma_first_where_at(all, foe);
        assert forall|id: u16| #[trigger] all.contains(id) && !game.is_friendly(
            sid,
            id,
        ) implies game.troops(foes[0]) <= game.troops(id) by {
            let k = choose|k: int| 0 <= k < all.len() && all[k] == id;
            assert(foe(all[k]));
            assert(at <= k);
            assert(game.troops(all[at]) <= game.troops(all[k]));
        }
    } else {
        assert forall|id: u16| #[trigger] all.contains(id) && !game.is_friendly(
            sid,
            id,
        ) implies game.troops(id) >= game.troops(sid) by {
            assert(foe(id));
            assert(foes.contains(id));
        }
    }
}

/// The first of those that are kept is the first that qualifies.
proof fn lemma_head<T>(s: Seq<T>, p: spec_fn(T) -> bool)
    requires
        s.filter(p).len() > 0,
    ensures
        crate::lists::first_where(s, p) == Some(s.filter(p)[0]),
    decreases s.len(),
{
    reveal(Seq::filter);
    if s.len() > 0 {
        let front = s.drop_last();
        crate::lists::lemma_take_all(s);
        if front.filter(p).len() > 0 {
            lemma_head(front, p);
            crate::lists::lemma_first_where(front, p);
            let at = crate::lists::lemma_first_where_at(front, p);
            assert(s[at] == front[at]);
            lemma_first_at(s, p, at);
            assert(s.filter(p)[0] == front.filter(p)[0]);
        } else {
            assert(p(s.last()));
            crate::lists::lemma_filter_members(front, p);
            assert forall|j: int| 0 <= j < s.len() - 1 implies !p(#[trigger] s[j]) by {
                assert(front[j] == s[j]);
                if p(front[j]) {
                    assert(front.contains(front[j]));
                    assert(front.filter(p).contains(front[j]));
                }
            }
            lemma_first_at(s, p, s.len() - 1);
        }
    }
}

proof fn lemma_first_at<T>(s: Seq<T>, p: spec_fn(T) -> bool, at: int)
    requires
        0 <= at < s.len(),
        p(s[at]),
        forall|j: int| 0 <= j < at ==> !p(#[trigger] s[j]),
    ensures
        crate::lists::first_where(s, p) == Some(s[at]),
{
    crate::lists::lemma_first_where(s, p);
    match crate::lists::first_where(s, p) {
        Some(x) => {
            let k = crate::lists::lemma_first_where_at(s, p);
            if k < at {
                assert(!p(s[k]));
            }
            if at < k {
                assert(p(s[at]));
            }
        },
        None => {
            assert(p(s[at]));
        },
    }
}

/// Whom a nation picks by its other strategies: those that left the game, traitors, those
/// with few troops for their land, those under heavy attack. Where nations play on their own,
/// none of them is much stronger than the nation.
pub proof fn law_targets(game: GameView, sid: u16, bordering: Seq<u16>)
    ensures
        ({
            let t = game.target(Strategy::Afk, sid, bordering);
            t is Some ==> bordering.contains(t->0) && game.player(t->0).is_disconnected && (
            game.config.is_team() || game.troops(t->0) < game.troops(sid) * 3)
        }),
        ({
            let t = game.target(Strategy::Traitor, sid, bordering);
            t is Some ==> bordering.contains(t->0) && game.is_traitor(t->0) && (
            game.config.is_team() || game.troops(t->0) * 5 < game.troops(sid) * 6)
        }),
        ({
            let t = game.target(Strategy::VeryWeak, sid, bordering);
            t is Some ==> bordering.contains(t->0) && game.troops(t->0) * 100_000
                < game.max_troops_milli(t->0) * 15 && (game.config.is_team() || game.troops(t->0)
                * 10 < game.troops(sid) * 12)
        }),
        ({
            let t = game.target(Strategy::Victim, sid, bordering);
            t is Some ==> bordering.contains(t->0) && crate::game_war::troop_sum(
                game.incoming(t->0, false),
            ) * 2 > game.troops(t->0) * 100_000 && (game.config.is_team() || game.troops(t->0) * 10
                <= game.troops(sid) * 12)
        }),
        ({
            let t = game.target(Strategy::Hated, sid, bordering);
            t is Some ==> game.relation(sid, t->0) == Relation::Hostile && !game.is_friendly(
                sid,
                t->0,
            ) && (game.config.is_team() || game.troops(t->0) <= game.troops(sid) * 3)
        }),
        forall|id: u16| #[trigger]
            bordering.contains(id) && game.has(id) && game.player(id).is_disconnected && game.troops(
                id,
            ) < game.troops(sid) * 3 ==> game.target(Strategy::Afk, sid, bordering) is Some,
        forall|id: u16| #[trigger]
            bordering.contains(id) && game.is_traitor(id) && game.troops(id) < game.troops(sid)
                ==> game.troops(sid) >= 5 ==> game.target(Strategy::Traitor, sid, bordering) is Some,
        forall|id: u16| #[trigger]
            bordering.contains(id) && game.has(id) && game.troops(id) * 100_000
                < game.max_troops_milli(id) * 15 && game.troops(id) < game.troops(sid) && 0
                <= game.troops(id) ==> game.target(Strategy::VeryWeak, sid, bordering) is Some,
        forall|id: u16| #[trigger]
            bordering.contains(id) && game.has(id) && crate::game_war::troop_sum(
                game.incoming(id, false),
            ) * 2 > game.troops(id) * 100_000 && 0 <= game.troops(id) <= game.troops(sid)
                ==> game.target(Strategy::Victim, sid, bordering) is Some,
{
    crate::lists::lemma_first_where(bordering, game.deserted(sid));
    crate::lists::lemma_first_where(bordering, game.outlaw(sid));
    crate::lists::lemma_first_where(bordering, game.feeble(sid));
    crate::lists::lemma_first_where(bordering, game.beset(sid));
    crate::lists::lemma_first_where(game.relations_sorted(sid), game.hated_by(sid));
    assert forall|id: u16| #[trigger]
        bordering.contains(id) && game.has(id) && game.player(id).is_disconnected && game.troops(id)
            < game.troops(sid) * 3 implies game.target(Strategy::Afk, sid, bordering) is Some by {
        let i = choose|i: int| 0 <= i < bordering.len() && bordering[i] == id;
        assert(game.deserted(sid)(bordering[i]));
    }
    assert forall|id: u16| #[trigger]
        bordering.contains(id) && game.is_traitor(id) && game.troops(id) < game.troops(
            sid,
        ) && game.troops(sid) >= 5 implies game.target(Strategy::Traitor, sid, bordering)
        is Some by {
        let i = choose|i: int| 0 <= i < bordering.len() && bordering[i] == id;
        assert(game.outlaw(sid)(bordering[i]));
    }
    assert forall|id: u16| #[trigger]
        bordering.contains(id) && game.has(id) && game.troops(id) * 100_000 < game.max_troops_milli(
            id,
        ) * 15 && game.troops(id) < game.troops(sid) && 0 <= game.troops(id) implies game.target(
        Strategy::VeryWeak,
        sid,
        bordering,
    ) is Some by {
        let i = choose|i: int| 0 <= i < bordering.len() && bordering[i] == id;
        assert(game.feeble(sid)(bordering[i]));
    }
    assert forall|id: u16| #[trigger]
        bordering.contains(id) && game.has(id) && crate::game_war::troop_sum(
            game.incoming(id, false),
        ) * 2 > game.troops(id) * 100_000 && 0 <= game.troops(id) <= game.troops(
            sid,
        ) implies game.target(Strategy::Victim, sid, bordering) is Some by {
        let i = choose|i: int| 0 <= i < bordering.len() && bordering[i] == id;
        assert(game.beset(sid)(bordering[i]));
    }
}

/// The rivals over the water are listed with the nearest first; each is a living foe, weaker
/// than the nation where nations play on their own.
pub proof fn law_islanders(game: GameView, sid: u16)
    requires
        forall|t: TileRef, u: TileRef| 0 <= #[trigger] game.map.manhattan(t, u) <= i64::MAX,
    ensures
        ({
            let all = game.islanders(sid);
            let home = game.center(sid)->0;
            &&& forall|i: int|
                0 <= i < all.len() ==> {
                    let id = #[trigger] all[i];
                    id != sid && game.is_alive(id) && !game.is_friendly(sid, id) && (
                    game.config.is_team() || game.troops(id) < game.troops(sid)) && game.landing(
                        sid,
                        id,
                    ) is Some
                }
            &&& forall|i: int, j: int|
                0 <= i <= j < all.len() ==> game.map.manhattan(
                    home,
                    game.center(#[trigger] all[i])->0,
                ) <= game.map.manhattan(home, game.center(#[trigger] all[j])->0)
        }),
{
    let home = game.center(sid)->0;
    let key = game.by_distance(home);
    let rivals = game.ids().filter(game.rival(sid));
    let sorted = crate::lists::payloads(crate::lists::sort_by_key(rivals.map_values(key)));
    crate::lists::lemma_filter_members(game.ids(), game.rival(sid));
    crate::lists::law_sorting_by(rivals, key);
    crate::lists::lemma_filter_members(sorted, game.landable(sid));
    let all = game.islanders(sid);
    assert forall|i: int| 0 <= i < all.len() implies ({
        let id = #[trigger] all[i];
        id != sid && game.is_alive(id) && !game.is_friendly(sid, id) && (game.config.is_team()
            || game.troops(id) < game.troops(sid)) && game.landing(sid, id) is Some
    }) by {
        assert(all.contains(all[i]));
        assert(sorted.contains(all[i]) && game.landable(sid)(all[i]));
        assert(rivals.contains(all[i]));
        assert(game.rival(sid)(all[i]));
    }
    let score = |id: u16| game.map.manhattan(home, game.center(id)->0);
    assert forall|i: int, j: int| 0 <= i <= j < sorted.len() implies score(#[trigger] sorted[i])
        <= score(#[trigger] sorted[j]) by {
        assert(key(sorted[i]).0 <= key(sorted[j]).0);
    }
    lemma_order_kept(sorted, game.landable(sid), score);
    assert forall|i: int, j: int| 0 <= i <= j < all.len() implies game.map.manhattan(
        home,
        game.center(#[trigger] all[i])->0,
    ) <= game.map.manhattan(home, game.center(#[trigger] all[j])->0) by {
        assert(score(all[i]) <= score(all[j]));
    }
}

/// What is kept of an ordered list is ordered.
proof fn lemma_order_kept<T>(s: Seq<T>, p: spec_fn(T) -> bool, score: spec_fn(T) -> int)
    requires
        forall|i: int, j: int|
            0 <= i <= j < s.len() ==> score(#[trigger] s[i]) <= score(#[trigger] s[j]),
    ensures
        forall|i: int, j: int|
            0 <= i <= j < s.filter(p).len() ==> score(#[trigger] s.filter(p)[i]) <= score(
                #[trigger] s.filter(p)[j],
            ),
    decreases s.len(),
{
    reveal(Seq::filter);
    if s.len() > 0 {
        let front = s.drop_last();
        assert forall|i: int, j: int| 0 <= i <= j < front.len() implies score(#[trigger] front[i])
            <= score(#[trigger] front[j]) by {
            assert(score(s[i]) <= score(s[j]));
        }
        lemma_order_kept(front, p, score);
        crate::lists::lemma_filter_members(front, p);
        if p(s.last()) {
            let kept = front.filter(p);
            assert(s.filter(p) == kept.push(s.last()));
            assert forall|i: int| 0 <= i < kept.len() implies score(#[trigger] kept[i]) <= score(
                s.last(),
            ) by {
                assert(kept.contains(kept[i]));
                let k = choose|k: int| 0 <= k < front.len() && front[k] == kept[i];
                assert(score(s[k]) <= score(s[s.len() - 1]));
            }
        }
    }
}

/// The rival over the water that a nation picks is one of the two nearest; the nearest two
/// times in three.
pub proof fn law_island_target(game: GameView, rng: u64, sid: u16)
    ensures
        game.island_target(rng, sid).0 is Some ==> {
            let t = game.island_target(rng, sid).0->0;
            let all = game.islanders(sid);
            &&& t == all[0] || (all.len() > 1 && t == all[1] && crate::prng::chance_drawn(rng, 3))
            &&& all.len() > 0
        },
        game.may_ship(sid) && game.shores(sid).len() > 0 && game.center(sid) is Some
            && game.islanders(sid).len() > 0 ==> game.island_target(rng, sid).0 is Some,
{
}

/// A boat to a random place goes to land that is not the nation's own, within 150 tiles of the
/// shore in each direction, to nobody who borders on the nation and to no friend. Where nations
/// play on their own its owner is not stronger. Looked for eagerly, it is free or a bot's.
pub proof fn law_place_to_land(
    game: GameView,
    rng: u64,
    sid: u16,
    src: TileRef,
    eager: bool,
    avoided: Seq<u16>,
    bordering: Seq<u16>,
    tries: nat,
)
    requires
        game.has(sid),
    ensures
        game.place_to_land(rng, sid, src, eager, avoided, bordering, tries).0 is Some ==> {
            let t = game.place_to_land(rng, sid, src, eager, avoided, bordering, tries).0->0;
            let owner = game.map.owner(t);
            &&& game.map.is_land(t)
            &&& owner != sid
            &&& game.boat_source(sid, t) is Some
            &&& owner != 0 ==> !bordering.contains(owner)
            &&& owner != 0 && game.has(owner) && !game.config.is_team() ==> game.troops(owner)
                <= game.troops(sid)
            &&& owner != 0 && eager ==> game.of_type(owner, PlayerType::Bot)
            &&& owner != 0 && !eager ==> !game.is_friendly(sid, owner)
            &&& exists|x: int, y: int|
                -150 <= x - game.map.x(src) < 150 && -150 <= y - game.map.y(src) < 150
                    && game.map.valid_coord(x, y) && t == #[trigger] game.map.at(x, y)
        },
    decreases tries,
{
    if tries > 0 {
        let (x, y) = (game.map.x(src), game.map.y(src));
        let rx = crate::prng::int_drawn(rng, x - 150, x + 150);
        let rng1 = crate::prng::next_state(rng);
        let ry = crate::prng::int_drawn(rng1, y - 150, y + 150);
        let rng2 = crate::prng::next_state(rng1);
        let left = (tries - 1) as nat;
        let t = game.map.at(rx, ry);
        crate::prng::lemma_int_drawn(rng, x - 150, x + 150);
        crate::prng::lemma_int_drawn(rng1, y - 150, y + 150);
        law_place_to_land(game, rng2, sid, src, eager, avoided, bordering, left);
        law_place_to_land(
            game,
            rng2,
            sid,
            src,
            eager,
            avoided.push(game.map.owner(t)),
            bordering,
            left,
        );
    }
}

/// A boat to a random place takes a fifth of the troops at most; on its way to another's land
/// a careful nation keeps as much at home as it would otherwise.
pub proof fn law_random_boat(game: GameView, sid: u16, target: u16)
    requires
        game.has(sid),
        game.troops(sid) >= 0,
        crate::game_war::troop_sum(game.incoming(sid, false)) >= 0,
    ensures
        0 <= game.random_boat_troops(sid, target) * 5 <= game.troops(sid) * 100_000,
        target == 0 ==> game.random_boat_troops(sid, target) * 5 == game.troops(sid) * 100_000,
        game.is_careful(sid) && target != 0 && crate::game_war::troop_sum(game.incoming(sid, false))
            == 0 && game.random_boat_troops(sid, target) > 0 ==> {
            let sent = game.random_boat_troops(sid, target);
            &&& game.has(target) ==> sent * 5 >= game.troops(target) * 100_000
            &&& game.config.difficulty == Difficulty::Hard ==> forall|id: u16| #[trigger]
                game.near_in_order(sid).contains(id) && is_dangerous(game, sid, id)
                    && game.troops(id) > 0 ==> (game.troops(sid) * 100_000 - sent) * 100
                    >= game.troops(id) * 100_000 * 75
        },
{
    law_strongest(game, sid, game.near_in_order(sid));
}

/// On the highest difficulty a nation under attack answers that attack, and does nothing else.
pub proof fn law_retaliation(c: Campaign, s: Stance, bordering: Seq<u16>)
    requires
        s.difficulty == Difficulty::Impossible,
        c.mind.game.main_attacker(s.sid) is Some,
    ensures
        c.following(s, plan_of(s.difficulty), bordering) == c.attacking(
            s.sid,
            c.mind.game.main_attacker(s.sid)->0,
            s.reserve as int,
            s.expand as int,
            s.difficulty,
            s.voiced,
            true,
        ),
{
    assert(plan_of(s.difficulty)[0] == Strategy::Retaliate);
}

/// Every plan that answers attacks does so before it looks for weak neighbors, and looks for
/// rivals over the water last.
pub proof fn law_plans(difficulty: Difficulty)
    ensures
        ({
            let plan = plan_of(difficulty);
            &&& plan.no_duplicates()
            &&& exists|i: int, j: int|
                0 <= i < j < plan.len() && #[trigger] plan[i] == Strategy::Retaliate
                    && #[trigger] plan[j] == Strategy::Weakest
            &&& exists|i: int, j: int|
                0 <= i < j < plan.len() && #[trigger] plan[i] == Strategy::Bots
                    && #[trigger] plan[j] == Strategy::Hated
            &&& exists|i: int, j: int|
                0 <= i < j < plan.len() && #[trigger] plan[i] == Strategy::Retaliate
                    && #[trigger] plan[j] == Strategy::Betray
            &&& forall|i: int|
                0 <= i < plan.len() && #[trigger] plan[i] == Strategy::Island ==> i == plan.len() - 1
            &&& difficulty != Difficulty::Easy ==> plan.last() == Strategy::Island
            &&& difficulty == Difficulty::Easy ==> plan.last() == Strategy::Weakest
        }),
{
    let plan = plan_of(difficulty);
    match difficulty {
        Difficulty::Easy => {
            assert(plan[2] == Strategy::Retaliate && plan[3] == Strategy::Betray && plan[5]
                == Strategy::Weakest && plan[1] == Strategy::Bots && plan[4] == Strategy::Hated);
        },
        Difficulty::Medium => {
            assert(plan[2] == Strategy::Retaliate && plan[3] == Strategy::Betray && plan[7]
                == Strategy::Weakest && plan[0] == Strategy::Bots && plan[4] == Strategy::Hated);
        },
        Difficulty::Hard => {
            assert(plan[1] == Strategy::Retaliate && plan[2] == Strategy::Betray && plan[9]
                == Strategy::Weakest && plan[0] == Strategy::Bots && plan[6] == Strategy::Hated);
        },
        _ => {
            assert(plan[0] == Strategy::Retaliate && plan[5] == Strategy::Betray && plan[9]
                == Strategy::Weakest && plan[1] == Strategy::Bots && plan[8] == Strategy::Hated);
        },
    }
}

/// A bot with structures comes before one without; of two others the one with fewer troops
/// for its tiles comes first.
pub proof fn law_bots_in_order(game: GameView, bots: Seq<u16>)
    requires
        forall|id: u16| 0 <= #[trigger] game.troops(id),
    ensures
        ({
            let sorted = crate::lists::sort_with(bots, game.easier());
            forall|i: int, j: int|
                0 <= i < j < sorted.len() ==> {
                    let (a, b) = (#[trigger] sorted[i], #[trigger] sorted[j]);
                    &&& game.settled(b) ==> game.settled(a)
                    &&& game.settled(a) == game.settled(b) && game.tiles_owned(a) > 0
                        && game.tiles_owned(b) > 0 ==> game.troops(a) * game.tiles_owned(b)
                        <= game.troops(b) * game.tiles_owned(a)
                }
        }),
{
    let before = game.easier();
    assert forall|x: u16, y: u16, z: u16|
        #![trigger before(x, y), before(y, z)]
        !before(x, y) && !before(y, z) implies !before(x, z) by {
        let (a, b, c) = (game.troops(x), game.troops(y), game.troops(z));
        let (p, q, r) = (game.spread(x), game.spread(y), game.spread(z));
        if game.settled(x) == game.settled(y) && game.settled(y) == game.settled(z) {
            assert(a * r >= c * p) by (nonlinear_arith)
                requires
                    a * q >= b * p,
                    b * r >= c * q,
                    p > 0,
                    q > 0,
                    r > 0,
                    a >= 0,
                    b >= 0,
                    c >= 0,
            ;
        }
    }
    assert forall|x: u16, y: u16| #[trigger] before(x, y) implies !before(y, x) by {}
    lemma_ranked(bots, before);
    let sorted = crate::lists::sort_with(bots, before);
    assert forall|i: int, j: int| 0 <= i < j < sorted.len() implies ({
        let (a, b) = (#[trigger] sorted[i], #[trigger] sorted[j]);
        &&& game.settled(b) ==> game.settled(a)
        &&& game.settled(a) == game.settled(b) && game.tiles_owned(a) > 0 && game.tiles_owned(b) > 0
            ==> game.troops(a) * game.tiles_owned(b) <= game.troops(b) * game.tiles_owned(a)
    }) by {
        assert(!before(sorted[j], sorted[i]));
    }
}

proof fn lemma_ranked(s: Seq<u16>, before: spec_fn(u16, u16) -> bool)
    requires
        forall|x: u16, y: u16, z: u16|
            #![trigger before(x, y), before(y, z)]
            !before(x, y) && !before(y, z) ==> !before(x, z),
        forall|x: u16, y: u16| #[trigger] before(x, y) ==> !before(y, x),
    ensures
        forall|i: int, j: int|
            0 <= i < j < crate::lists::sort_with(s, before).len() ==> !before(
                #[trigger] crate::lists::sort_with(s, before)[j],
                #[trigger] crate::lists::sort_with(s, before)[i],
            ),
    decreases s.len(),
{
    if s.len() > 0 {
        lemma_ranked(s.drop_last(), before);
        lemma_ranked_in(crate::lists::sort_with(s.drop_last(), before), s.last(), before);
    }
}

proof fn lemma_ranked_in(sorted: Seq<u16>, x: u16, before: spec_fn(u16, u16) -> bool)
    requires
        forall|x: u16, y: u16, z: u16|
            #![trigger before(x, y), before(y, z)]
            !before(x, y) && !before(y, z) ==> !before(x, z),
        forall|x: u16, y: u16| #[trigger] before(x, y) ==> !before(y, x),
        forall|i: int, j: int|
            0 <= i < j < sorted.len() ==> !before(#[trigger] sorted[j], #[trigger] sorted[i]),
    ensures
        ({
            let more = crate::lists::insert_with(sorted, x, before);
            &&& more.len() == sorted.len() + 1
            &&& forall|i: int, j: int|
                0 <= i < j < more.len() ==> !before(#[trigger] more[j], #[trigger] more[i])
            &&& forall|y: u16| #[trigger] more.contains(y) ==> y == x || sorted.contains(y)
        }),
    decreases sorted.len(),
{
    let more = crate::lists::insert_with(sorted, x, before);
    if sorted.len() == 0 {
        assert(more =~= seq![x]);
    } else if !before(x, sorted.last()) {
        assert(more =~= sorted.push(x));
        assert forall|i: int, j: int| 0 <= i < j < more.len() implies !before(
            #[trigger] more[j],
            #[trigger] more[i],
        ) by {
            let n = sorted.len() - 1;
            if j == sorted.len() {
                if i < n {
                    assert(!before(sorted[n], sorted[i]));
                    assert(!before(x, sorted[n]));
                }
            }
        }
    } else {
        let front = sorted.drop_last();
        let last = sorted.last();
        assert forall|i: int, j: int| 0 <= i < j < front.len() implies !before(
            #[trigger] front[j],
            #[trigger] front[i],
        ) by {
            assert(!before(sorted[j], sorted[i]));
        }
        lemma_ranked_in(front, x, before);
        let inner = crate::lists::insert_with(front, x, before);
        assert(more =~= inner.push(last));
        assert forall|i: int, j: int| 0 <= i < j < more.len() implies !before(
            #[trigger] more[j],
            #[trigger] more[i],
        ) by {
            if j == inner.len() {
                assert(inner.contains(inner[i]));
                if inner[i] == x {
                    assert(before(x, last));
                } else {
                    let k = choose|k: int| 0 <= k < front.len() && front[k] == inner[i];
                    assert(!before(sorted[sorted.len() - 1], sorted[k]));
                }
            }
        }
        assert forall|y: u16| #[trigger] more.contains(y) implies y == x || sorted.contains(y) by {
            let k = choose|k: int| 0 <= k < more.len() && more[k] == y;
            if k < inner.len() {
                assert(inner.contains(inner[k]));
                if y != x {
                    let m = choose|m: int| 0 <= m < front.len() && front[m] == y;
                    assert(sorted[m] == y);
                }
            } else {
                assert(sorted[sorted.len() - 1] == y);
            }
        }
    }
}

/// A boat of `sid` against `target` lands on a shore of `target`, and no two shores of theirs
/// are closer to one another; it is sent only where it takes troops and one more boat may go.
pub proof fn law_landing(game: GameView, sid: u16, target: u16, troops: int)
    requires
        game.boating(sid, target, troops).1,
    ensures
        troops >= 100_000,
        game.units_of(sid, crate::unit_type::UnitType::Transport).len() < game.config.boat_max_number,
        ({
            let after = game.boating(sid, target, troops).0;
            exists|src: TileRef, dst: TileRef| #[trigger]
                game.shores(sid).contains(src) && #[trigger] game.shores(target).contains(dst)
                    && game.boat_source(sid, dst) is Some && after.pending == game.pending.push(
                    crate::orders::Order::TransportShip { owner: sid, dst, troops },
                ) && forall|a: TileRef, b: TileRef| #[trigger]
                    game.shores(sid).contains(a) && #[trigger] game.shores(target).contains(b)
                        ==> game.map.manhattan(dst, src) <= game.map.manhattan(b, a)
        }),
{
    crate::laws_building::law_nearest_pair(game.map, game.shores(sid), game.shores(target));
    let pair = crate::game_land::nearest_pair(game.map, game.shores(sid), game.shores(target))->0;
    assert(game.shores(sid).contains(pair.0) && game.shores(target).contains(pair.1));
}

} // verus!
