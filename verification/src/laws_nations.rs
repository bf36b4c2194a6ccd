//! What holds of the turns of nations: when they come, and what is done in them.

use vstd::prelude::*;

use crate::config::Difficulty;
use crate::game::GameView;
use crate::map::{MapView, TerrainType};
use crate::nation::{attack_rates, NationExecution};
use crate::nation_emoji::{largest, Mind};
use crate::nation_tick::{due_at, Due, NationStructureState, Reign};
use crate::ordered_tiles::TileRef;
use crate::orders::Order;
use crate::state::PlayerType;
use crate::unit_type::UnitType;

verus! {

/// A nation has a turn once in every `rate` ticks: a turn now comes again after that many, and
/// not sooner.
pub proof fn law_turns(now: u32, rate: u32, tick: u32, k: int)
    requires
        rate > 0,
        tick < rate,
        0 < k,
        now + k <= u32::MAX,
        due_at(now, rate, tick) == Due::Turn,
    ensures
        k % (rate as int) == 0 ==> due_at((now + k) as u32, rate, tick) == Due::Turn,
        k < rate ==> due_at((now + k) as u32, rate, tick) != Due::Turn,
{
    let r = rate as int;
    assert(now as int % r == tick);
    vstd::arithmetic::div_mod::lemma_fundamental_div_mod(now as int, r);
    let q = now as int / r;
    if k % r == 0 {
        vstd::arithmetic::div_mod::lemma_fundamental_div_mod(k, r);
        let m = k / r;
        assert(now + k == r * (q + m) + tick) by (nonlinear_arith)
            requires
                now as int == r * q + tick,
                k == r * m,
        ;
        vstd::arithmetic::div_mod::lemma_fundamental_div_mod_converse(
            now + k,
            r,
            q + m,
            tick as int,
        );
    }
    if k < rate {
        if tick + k < r {
            assert(now + k == q * r + (tick + k)) by (nonlinear_arith)
                requires
                    now as int == r * q + tick,
            ;
            vstd::arithmetic::div_mod::lemma_fundamental_div_mod_converse(
                now + k,
                r,
                q,
                tick + k,
            );
        } else {
            assert(now + k == r * (q + 1) + (tick + k - r)) by (nonlinear_arith)
                requires
                    now as int == r * q + tick,
            ;
            vstd::arithmetic::div_mod::lemma_fundamental_div_mod_converse(
                now + k,
                r,
                q + 1,
                tick + k - r,
            );
        }
    }
}

/// The harder the game, the less time passes between turns.
pub proof fn law_attack_rates(difficulty: Difficulty)
    ensures
        attack_rates(Difficulty::Impossible).1 < attack_rates(Difficulty::Hard).1,
        attack_rates(Difficulty::Impossible).0 < attack_rates(Difficulty::Hard).0,
        attack_rates(Difficulty::Hard).0 < attack_rates(Difficulty::Medium).0,
        attack_rates(Difficulty::Medium).0 < attack_rates(Difficulty::Easy).0,
        attack_rates(Difficulty::Hard).1 < attack_rates(Difficulty::Medium).1,
        attack_rates(Difficulty::Medium).1 < attack_rates(Difficulty::Easy).1,
        attack_rates(difficulty).0 < attack_rates(difficulty).1,
{
}

/// Only a nation that is not an easy one and that is attacked by a third of its troops or more
/// is under threat, and each such is.
pub proof fn law_under_threat(game: GameView, sid: u16)
    requires
        game.has(sid),
        game.troops(sid) > 0,
    ensures
        ({
            let incoming = crate::game_war::troop_sum(game.incoming(sid, false));
            &&& game.config.difficulty == Difficulty::Easy ==> !game.under_threat(sid)
            &&& incoming * 20 < game.troops(sid) * 100_000 * 7 ==> !game.under_threat(sid)
            &&& game.config.difficulty != Difficulty::Easy && incoming * 20 >= game.troops(sid)
                * 100_000 * 7 ==> game.under_threat(sid)
        }),
{
}

/// Where nations start with much gold, they pause after their second, third and fourth
/// structure, each time less; otherwise they never do.
pub proof fn law_cooling(game: GameView, state: NationStructureState)
    requires
        state.last_structure_tick is Some,
        game.tick >= state.last_structure_tick->0,
    ensures
        ({
            let passed = game.tick - state.last_structure_tick->0;
            let rich = game.config.starting_gold_nation >= 3_000_000;
            let n = state.placements_count;
            &&& !rich ==> !game.cooling(state)
            &&& passed >= 250 ==> !game.cooling(state)
            &&& n < 2 || n > 4 ==> !game.cooling(state)
            &&& rich && n == 2 ==> game.cooling(state) == (passed < 250)
            &&& rich && n == 3 ==> game.cooling(state) == (passed < 150)
            &&& rich && n == 4 ==> game.cooling(state) == (passed < 100)
        }),
{
}

/// After a nation made up its mind about trade with another, it holds an embargo against one
/// that it hates, unless that is on its team, and on the two highest difficulties of a team
/// game against all of other teams but bots; it holds none against a friend, except there and
/// on the highest difficulty.
pub proof fn law_trade_with(game: GameView, sid: u16, other: u16)
    ensures
        ({
            let after = game.trade_with(sid, other);
            let hard = game.config.difficulty == Difficulty::Hard || game.config.difficulty
                == Difficulty::Impossible;
            let war = game.config.is_team() && hard && !game.of_type(other, PlayerType::Bot)
                && !game.on_same_team(sid, other);
            &&& war ==> after.embargoed(sid, other)
            &&& game.relation_value(sid, other) < -5_000 && !game.on_same_team(sid, other)
                ==> after.embargoed(sid, other)
            &&& !war && game.relation_value(sid, other) >= 5_000 && game.config.difficulty
                != Difficulty::Impossible ==> !after.embargoed(sid, other)
            &&& !hard && 0 <= game.relation_value(sid, other) ==> !after.embargoed(sid, other)
            &&& -5_000 <= game.relation_value(sid, other) < 0 && !war ==> after.embargoed(sid, other)
                == game.embargoed(sid, other)
            &&& forall|a: u16, b: u16|
                a != sid || b != other ==> #[trigger] after.embargoed(a, b) == game.embargoed(a, b)
        }),
{
    lemma_embargo(game, sid, other);
}

proof fn lemma_embargo(game: GameView, sid: u16, other: u16)
    ensures
        !game.unembargoing(sid, other).embargoed(sid, other),
        game.embargoing(sid, other, false, game.tick).embargoed(sid, other),
        forall|a: u16, b: u16|
            a != sid || b != other ==> #[trigger] game.unembargoing(sid, other).embargoed(a, b)
                == game.embargoed(a, b),
        forall|a: u16, b: u16|
            a != sid || b != other ==> #[trigger] game.embargoing(
                sid,
                other,
                false,
                game.tick,
            ).embargoed(a, b) == game.embargoed(a, b),
{
    let p = |e: crate::state::Embargo| !(e.from == sid && e.to == other);
    let lifted = game.unembargoing(sid, other);
    let laid = game.embargoing(sid, other, false, game.tick);
    crate::lists::lemma_filter_members(game.embargoes, p);
    if lifted.embargoed(sid, other) {
        let i = choose|i: int|
            0 <= i < lifted.embargoes.len() && (#[trigger] lifted.embargoes[i]).from == sid
                && lifted.embargoes[i].to == other;
        assert(lifted.embargoes.contains(lifted.embargoes[i]));
        assert(p(lifted.embargoes[i]));
    }
    if !game.permanently_embargoed(sid, other) {
        assert(laid.embargoes[lifted.embargoes.len() as int].from == sid);
    }
    assert forall|a: u16, b: u16| a != sid || b != other implies #[trigger] lifted.embargoed(a, b)
        == game.embargoed(a, b) by {
        lemma_kept_embargo(game, sid, other, a, b);
    }
    assert forall|a: u16, b: u16| a != sid || b != other implies #[trigger] laid.embargoed(a, b)
        == game.embargoed(a, b) by {
        lemma_kept_embargo(game, sid, other, a, b);
        if !game.permanently_embargoed(sid, other) {
            if lifted.embargoed(a, b) {
                let i = choose|i: int|
                    0 <= i < lifted.embargoes.len() && (#[trigger] lifted.embargoes[i]).from == a
                        && lifted.embargoes[i].to == b;
                assert(laid.embargoes[i] == lifted.embargoes[i]);
            }
            if laid.embargoed(a, b) {
                let i = choose|i: int|
                    0 <= i < laid.embargoes.len() && (#[trigger] laid.embargoes[i]).from == a
                        && laid.embargoes[i].to == b;
                assert(i < lifted.embargoes.len());
                assert(laid.embargoes[i] == lifted.embargoes[i]);
            }
        }
    }
}

proof fn lemma_kept_embargo(game: GameView, sid: u16, other: u16, a: u16, b: u16)
    requires
        a != sid || b != other,
    ensures
        game.unembargoing(sid, other).embargoed(a, b) == game.embargoed(a, b),
{
    let p = |e: crate::state::Embargo| !(e.from == sid && e.to == other);
    let lifted = game.unembargoing(sid, other);
    crate::lists::lemma_filter_members(game.embargoes, p);
    if game.embargoed(a, b) {
        let i = choose|i: int|
            0 <= i < game.embargoes.len() && (#[trigger] game.embargoes[i]).from == a
                && game.embargoes[i].to == b;
        assert(p(game.embargoes[i]) && game.embargoes.contains(game.embargoes[i]));
        assert(lifted.embargoes.contains(game.embargoes[i]));
        let k = choose|k: int|
            0 <= k < lifted.embargoes.len() && lifted.embargoes[k] == game.embargoes[i];
        assert(lifted.embargoes[k].from == a);
    }
    if lifted.embargoed(a, b) {
        let i = choose|i: int|
            0 <= i < lifted.embargoes.len() && (#[trigger] lifted.embargoes[i]).from == a
                && lifted.embargoes[i].to == b;
        assert(lifted.embargoes.contains(lifted.embargoes[i]));
        assert(game.embargoes.contains(lifted.embargoes[i]));
        let k = choose|k: int|
            0 <= k < game.embargoes.len() && game.embargoes[k] == lifted.embargoes[i];
        assert(game.embargoes[k].from == a);
    }
}

/// A nation thinks twenty points worse of one that stops trading with it, once, and as much
/// better when it trades again; it remembers exactly those that do not.
pub proof fn law_resenting(r: Reign, sid: u16, other: u16)
    requires
        -8_000 <= r.game.relation_value(sid, other) <= 8_000,
    ensures
        ({
            let after = r.resenting(sid, other);
            let (was, is) = (
                r.game.relation_value(sid, other),
                after.game.relation_value(sid, other),
            );
            let resented = r.temper.maluses.contains(other);
            let embargo = r.game.embargoed(other, sid);
            &&& after.temper.maluses.contains(other) == embargo
            &&& embargo && !resented ==> is == was - 2_000
            &&& !embargo && resented ==> is == was + 2_000
            &&& embargo == resented ==> is == was
            &&& forall|x: u16|
                x != other ==> #[trigger] after.temper.maluses.contains(x)
                    == r.temper.maluses.contains(x)
            &&& after.rng == r.rng
        }),
{
    crate::laws_diplomacy::law_relating(r.game, sid, other, -20);
    crate::laws_diplomacy::law_relating(r.game, sid, other, 20);
}

/// The front of a player under attack is made of those of its border tiles that have land of
/// an attacker next to them, and of all of those.
pub proof fn law_front(game: GameView, sid: u16, attackers: Seq<u16>, t: TileRef)
    ensures
        game.front(sid, attackers).contains(t) == (game.border(sid).contains(t) && exists|n: int|
            0 <= n < game.map.neighbors4(t).len() && game.map.owner(
                #[trigger] game.map.neighbors4(t)[n],
            ) != 0 && attackers.contains(game.map.owner(game.map.neighbors4(t)[n]))),
{
    crate::lists::lemma_filter_members(game.border(sid), game.facing(attackers));
    let held = game.held_by(attackers);
    let next = game.map.neighbors4(t);
    if game.facing(attackers)(t) {
        let n = choose|n: int| 0 <= n < next.len() && held(#[trigger] next[n]);
        assert(game.map.owner(next[n]) != 0);
    }
    if exists|n: int|
        0 <= n < next.len() && game.map.owner(#[trigger] next[n]) != 0 && attackers.contains(
            game.map.owner(next[n]),
        ) {
        let n = choose|n: int|
            0 <= n < next.len() && game.map.owner(#[trigger] next[n]) != 0 && attackers.contains(
                game.map.owner(next[n]),
            );
        assert(held(next[n]));
    }
}

/// The defense posts that count for a front lie within one and a half border spacings of it.
pub proof fn law_anchors(game: GameView, sid: u16, front: Seq<TileRef>)
    ensures
        ({
            let anchors = game.anchors(sid, front);
            let posts = game.kind_tiles(sid, UnitType::DefensePost);
            let far = |t: TileRef|
                forall|k: int|
                    0 <= k < posts.len() ==> game.map.dist2(#[trigger] posts[k], t)
                        >= game.front_range2();
            &&& front.len() > 0 ==> anchors.len() > 0
            &&& forall|t: TileRef| #[trigger] anchors.contains(t) ==> front.contains(t)
            &&& (exists|t: TileRef| #[trigger] front.contains(t) && far(t)) ==> forall|t: TileRef|
                #[trigger] anchors.contains(t) ==> far(t)
        }),
{
    let posts = game.kind_tiles(sid, UnitType::DefensePost);
    let p = game.unfortified(posts);
    let apart = front.filter(p);
    crate::lists::lemma_filter_members(front, p);
    let far = |t: TileRef|
        forall|k: int|
            0 <= k < posts.len() ==> game.map.dist2(#[trigger] posts[k], t) >= game.front_range2();
    assert forall|t: TileRef| #[trigger] p(t) == far(t) by {
        let q = game.spread_from(t);
        if far(t) && crate::lists::some_where(posts, q) {
            let k = choose|k: int| 0 <= k < posts.len() && q(#[trigger] posts[k]);
            assert(game.map.dist2(posts[k], t) >= game.front_range2());
        }
        if p(t) {
            assert forall|k: int| 0 <= k < posts.len() implies game.map.dist2(
                #[trigger] posts[k],
                t,
            ) >= game.front_range2() by {
                if game.map.dist2(posts[k], t) < game.front_range2() {
                    assert(q(posts[k]));
                }
            }
        }
    }
    if exists|t: TileRef| #[trigger] front.contains(t) && far(t) {
        let t = choose|t: TileRef| #[trigger] front.contains(t) && far(t);
        assert(p(t));
        assert(apart.contains(t));
    }
    let anchors = game.anchors(sid, front);
    assert forall|t: TileRef| #[trigger] anchors.contains(t) implies front.contains(t) by {
        if apart.len() > 0 {
            assert(apart.contains(t));
        }
    }
}

/// Every place that a search finds is the nation's own, can be built on, and lies behind the
/// border: three quarters of a border spacing at least, one and a half at most.
pub proof fn law_searching(
    game: GameView,
    rng: u64,
    sid: u16,
    anchors: Seq<TileRef>,
    found: Seq<TileRef>,
    tries: nat,
)
    ensures
        ({
            let all = game.searching(rng, sid, anchors, found, tries).0;
            &&& found.len() <= 25 ==> all.len() <= 25
            &&& found.len() <= all.len()
            &&& forall|i: int| 0 <= i < found.len() ==> all[i] == #[trigger] found[i]
            &&& forall|i: int|
                found.len() <= i < all.len() ==> {
                    let t = #[trigger] all[i];
                    &&& game.map.owner(t) == sid
                    &&& game.site(sid, UnitType::City, t) is Some
                    &&& exists|b: TileRef| #[trigger]
                        game.border(sid).contains(b) && 4 * game.map.manhattan(b, t) >= 3
                            * game.config.atom_bomb.outer && 2 * game.map.manhattan(b, t) <= 3
                            * game.config.atom_bomb.outer + 1 && forall|c: TileRef| #[trigger]
                            game.border(sid).contains(c) ==> game.map.manhattan(b, t)
                                <= game.map.manhattan(c, t)
                }
        }),
    decreases tries,
{
    if !(tries == 0 || found.len() >= 25) {
        let (anchor, s1) = crate::prng::element_drawn(rng, anchors);
        let r = game.front_radius();
        let (ax, ay) = (game.map.x(anchor->0), game.map.y(anchor->0));
        let x = crate::prng::int_drawn(s1, ax - r, ax + r + 1);
        let s2 = crate::prng::next_state(s1);
        let y = crate::prng::int_drawn(s2, ay - r, ay + r + 1);
        let s3 = crate::prng::next_state(s2);
        let t = game.map.at(x, y);
        let more = if game.serves(sid, x, y) {
            found.push(t)
        } else {
            found
        };
        law_searching(game, s3, sid, anchors, more, (tries - 1) as nat);
        let all = game.searching(rng, sid, anchors, found, tries).0;
        assert forall|i: int| 0 <= i < found.len() implies all[i] == #[trigger] found[i] by {
            assert(more[i] == found[i]);
        }
        if game.serves(sid, x, y) {
            crate::laws_building::law_nearest(game.map, game.border(sid), t);
            let b = crate::game_land::nearest(game.map, game.border(sid), t)->0;
            assert(game.border(sid).contains(b));
            assert(more[found.len() as int] == t);
        }
    }
}

/// A nation that orders a defense post is attacked over land by more than a third of its troops,
/// can pay for it, and orders it where it can be built. Easy nations order none.
pub proof fn law_fortifying(game: GameView, rng: u64, sid: u16)
    requires
        game.troops(sid) >= 0,
    ensures
        ({
            let (after, _, ordered) = game.fortifying(rng, sid);
            let incoming = crate::game_war::troop_sum(game.incoming(sid, true));
            &&& !ordered ==> after == game
            &&& ordered ==> {
                &&& game.config.difficulty != Difficulty::Easy
                &&& incoming * 20 >= game.troops(sid) * 100_000 * 7
                &&& game.gold(sid) >= game.cost(sid, UnitType::DefensePost)
                &&& game.config.difficulty == Difficulty::Medium ==> game.posts_near(
                    sid,
                    game.front(
                        sid,
                        game.incoming(sid, true).map_values(crate::defense_posts::attacker_of()),
                    ),
                ) == 0 && crate::prng::chance_drawn(rng, 2)
                &&& exists|t: TileRef|
                    game.site(sid, UnitType::City, t) is Some && after.pending
                        == game.pending.push(#[trigger] post_at(sid, t))
            }
        }),
{
    let attacks = game.incoming(sid, true);
    let front = game.front(sid, attacks.map_values(crate::defense_posts::attacker_of()));
    let state = if game.config.difficulty == Difficulty::Medium {
        crate::prng::next_state(rng)
    } else {
        rng
    };
    let sites = game.front_sites(state, sid, front).0;
    crate::lists::lemma_first_where(sites, game.buildable(sid));
    let (after, _, ordered) = game.fortifying(rng, sid);
    if ordered {
        let t = crate::lists::first_where(sites, game.buildable(sid))->0;
        assert(after.pending == game.pending.push(post_at(sid, t)));
    }
}

/// The order for a defense post at a tile.
pub open spec fn post_at(sid: u16, tile: TileRef) -> Order {
    Order::Construction {
        small_id: sid,
        unit_type: UnitType::DefensePost,
        tile,
        rocket_direction_up: true,
    }
}

/// The more troops come, the more defense posts a nation allows itself, one at least; five
/// for every two times its own troops.
pub proof fn law_posts_allowed(game: GameView, incoming: int, more: int, troops: int)
    requires
        0 < incoming <= more,
        troops > 0,
    ensures
        1 <= game.posts_allowed(incoming, troops) <= game.posts_allowed(more, troops),
        game.config.difficulty == Difficulty::Medium ==> game.posts_allowed(more, troops) == 1,
        game.config.difficulty != Difficulty::Medium ==> game.posts_allowed(
            2 * troops * 100_000,
            troops,
        ) == 5,
{
    let d = 2 * troops * 100_000;
    vstd::arithmetic::div_mod::lemma_div_is_ordered(d, 5 * incoming + d - 1, d);
    vstd::arithmetic::div_mod::lemma_div_is_ordered(5 * incoming + d - 1, 5 * more + d - 1, d);
    vstd::arithmetic::div_mod::lemma_div_by_self(d);
    vstd::arithmetic::div_mod::lemma_fundamental_div_mod_converse(6 * d - 1, d, 5, d - 1);
    assert(d == 2 * troops * crate::config::TROOP_SCALE);
}

/// A nation spawns on land that nobody owns and that can be entered, less than 25 tiles
/// away from its place in each direction.
pub proof fn law_spawn_place(map: MapView, rng: u64, cell: [i32; 2], tries: nat)
    ensures
        map.landing(rng, cell, tries).1 is Some ==> {
            let t = map.landing(rng, cell, tries).1->0;
            &&& map.is_land(t)
            &&& map.owner(t) == 0
            &&& !map.is_impassable(t)
            &&& exists|x: int, y: int|
                -25 <= x - cell[0] < 25 && -25 <= y - cell[1] < 25 && map.valid_coord(x, y) && t
                    == #[trigger] map.at(x, y)
        },
    decreases tries,
{
    if tries > 0 {
        let x = crate::prng::int_drawn(rng, cell[0] - 25, cell[0] + 25);
        let second = crate::prng::next_state(rng);
        let y = crate::prng::int_drawn(second, cell[1] - 25, cell[1] + 25);
        let third = crate::prng::next_state(second);
        crate::prng::lemma_int_drawn(rng, cell[0] - 25, cell[0] + 25);
        crate::prng::lemma_int_drawn(second, cell[1] - 25, cell[1] + 25);
        law_spawn_place(map, third, cell, (tries - 1) as nat);
        law_spawn_place(map, crate::prng::next_state(third), cell, (tries - 1) as nat);
        assert(map.at(x, y) == map.at(x, y));
    }
}

/// The first place drawn that is free and no mountain is taken.
pub proof fn law_first_place(map: MapView, rng: u64, cell: [i32; 2], tries: nat)
    requires
        tries > 0,
    ensures
        ({
            let x = crate::prng::int_drawn(rng, cell[0] - 25, cell[0] + 25);
            let y = crate::prng::int_drawn(
                crate::prng::state_after(rng, 1),
                cell[1] - 25,
                cell[1] + 25,
            );
            let t = map.at(x, y);
            map.valid_coord(x, y) && map.is_land(t) && map.owner(t) == 0 && !map.is_impassable(t)
                && map.terrain_type(t) != TerrainType::Mountain ==> map.landing(rng, cell, tries).1
                == Some(t)
        }),
{
    assert(crate::prng::state_after(rng, 1) == crate::prng::next_state(
        crate::prng::state_after(rng, 0),
    ));
    assert(crate::prng::state_after(rng, 0) == rng);
}

/// When the game begins, a nation that lives sends half of its troops out to take free land,
/// once.
pub proof fn law_first_attack(n: NationExecution, game: GameView, tick: u32, sid: u16)
    requires
        n.active,
        game.known(n.nation.player_info.id@) == Some(sid),
        !game.spawn_phase,
        game.has_spawned(sid),
        game.player(sid).alive,
        game.tiles_owned(sid) > 0,
        game.troops(sid) >= 2,
    ensures
        !n.behaviors_initialized ==> n.settled(game, tick).1.initialized && n.settled(
            game,
            tick,
        ).0.pending == game.pending.push(
            Order::Attack {
                owner: sid,
                target: None,
                troops: Some(game.troops(sid) * 50_000),
                source: None,
            },
        ),
        n.behaviors_initialized ==> n.settled(game, tick).0 == game,
{
    assert(game.troops(sid) * crate::config::TROOP_SCALE / 2 == game.troops(sid) * 50_000);
}

/// A nation without land, or that is dead, is over.
pub proof fn law_nations_end(n: NationExecution, game: GameView, tick: u32, sid: u16)
    requires
        n.active,
        game.known(n.nation.player_info.id@) == Some(sid),
        !game.spawn_phase,
        game.has_spawned(sid),
    ensures
        !game.player(sid).alive || game.tiles_owned(sid) == 0 ==> !n.ruled(game, tick).1.active
            && n.ruled(game, tick).0 == game,
{
}

/// The largest player is one of those given, and none of them has more tiles.
pub proof fn law_largest(game: GameView, ids: Seq<u16>)
    ensures
        match largest(game, ids) {
            Some(best) => ids.contains(best) && forall|id: u16| #[trigger]
                ids.contains(id) ==> game.tiles_owned(id) <= game.tiles_owned(best),
            None => ids.len() == 0,
        },
    decreases ids.len(),
{
    if ids.len() > 0 {
        let front = ids.drop_last();
        let last = ids.last();
        law_largest(game, front);
        assert(ids[ids.len() - 1] == last);
        assert forall|id: u16| #[trigger] ids.contains(id) implies id == last || front.contains(
            id,
        ) by {
            let i = choose|i: int| 0 <= i < ids.len() && ids[i] == id;
            if i < front.len() {
                assert(front[i] == id);
            }
        }
        if largest(game, front) is Some {
            let best = largest(game, front)->0;
            let i = choose|i: int| 0 <= i < front.len() && front[i] == best;
            assert(ids[i] == best);
        }
    }
}

/// Emojis are sent to humans only, by nobody but nations and humans, and of a nation's own
/// accord not again within three hundred ticks.
pub proof fn law_emojis(m: Mind, sid: u16, to: u16)
    ensures
        m.pacing(sid, Some(to)).game.emojis != m.game.emojis ==> {
            &&& m.game.of_type(to, PlayerType::Human)
            &&& !m.game.of_type(sid, PlayerType::Bot)
            &&& m.game.has(sid)
            &&& m.emoji.last.contains_key(to) ==> m.game.tick - m.emoji.last[to] > 300
            &&& m.pacing(sid, Some(to)).game.emojis.last().sender == sid
            &&& m.pacing(sid, Some(to)).game.emojis.last().recipient == Some(to)
            &&& m.pacing(sid, Some(to)).emoji.last.contains_key(to)
            &&& m.pacing(sid, Some(to)).emoji.last[to] == m.game.tick
        },
        m.sending(sid, Some(to)).game.emojis != m.game.emojis ==> m.game.of_type(
            to,
            PlayerType::Human,
        ) && to != sid,
{
}

/// A nation complains to all where the troops that come are three times its own, and laughs at a
/// human whose attack is less than a tenth of its troops.
pub proof fn law_comments(m: Mind, sid: u16)
    ensures
        m.overwhelmed(sid).game != m.game ==> crate::game_war::troop_sum(
            m.game.incoming(sid, false),
        ) >= 300_000 * m.game.troops(sid) && m.hit(16),
        m.bragging(sid).game != m.game ==> m.hit(300) && forall|id: u16| #[trigger]
            m.game.ids().contains(id) ==> m.game.tiles_owned(id) <= m.game.tiles_owned(sid),
        m.greeting(sid).game != m.game ==> m.game.tick <= 600 && m.hit(250),
        m.ratting(sid).game != m.game ==> m.game.tick >= 6000 && m.hit(10000),
{
    law_largest(m.game, m.game.ids());
}

/// Those whom a nation annoys are human traitors that are no friends of it, and those whom it
/// mocks own less than a hundredth of the land, but some.
pub proof fn law_audience(m: Mind, sid: u16)
    ensures
        forall|i: int|
            0 <= i < m.human_traitors(sid).len() ==> {
                let id = #[trigger] m.human_traitors(sid)[i];
                m.game.of_type(id, PlayerType::Human) && m.game.is_traitor(id)
                    && !m.game.is_friendly(sid, id)
            },
        forall|i: int|
            0 <= i < m.small_humans().len() ==> {
                let id = #[trigger] m.small_humans()[i];
                m.game.of_type(id, PlayerType::Human) && 0 < m.game.tiles_owned(id)
                    && m.game.tiles_owned(id) * 100 < m.game.land()
            },
        forall|i: int|
            0 <= i < m.near_humans(sid).len() ==> {
                let id = #[trigger] m.near_humans(sid)[i];
                m.game.of_type(id, PlayerType::Human) && m.game.near_ids(sid).contains(id)
            },
{
    crate::lists::lemma_filter_members(m.game.ids(), m.game.human_traitor_to(sid));
    crate::lists::lemma_filter_members(m.game.ids(), m.game.small_human());
    crate::lists::lemma_filter_members(m.game.near_ids(sid), m.game.human());
    assert forall|i: int| 0 <= i < m.human_traitors(sid).len() implies ({
        let id = #[trigger] m.human_traitors(sid)[i];
        m.game.of_type(id, PlayerType::Human) && m.game.is_traitor(id) && !m.game.is_friendly(
            sid,
            id,
        )
    }) by {
        assert(m.human_traitors(sid).contains(m.human_traitors(sid)[i]));
        assert(m.game.human_traitor_to(sid)(m.human_traitors(sid)[i]));
    }
    assert forall|i: int| 0 <= i < m.small_humans().len() implies ({
        let id = #[trigger] m.small_humans()[i];
        m.game.of_type(id, PlayerType::Human) && 0 < m.game.tiles_owned(id) && m.game.tiles_owned(
            id,
        ) * 100 < m.game.land()
    }) by {
        assert(m.small_humans().contains(m.small_humans()[i]));
        assert(m.game.small_human()(m.small_humans()[i]));
    }
    assert forall|i: int| 0 <= i < m.near_humans(sid).len() implies ({
        let id = #[trigger] m.near_humans(sid)[i];
        m.game.of_type(id, PlayerType::Human) && m.game.near_ids(sid).contains(id)
    }) by {
        assert(m.near_humans(sid).contains(m.near_humans(sid)[i]));
        assert(m.game.human()(m.near_humans(sid)[i]));
    }
}

} // verus!
