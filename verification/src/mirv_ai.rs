//! Whether and at whom nations send MIRVs.

use vstd::prelude::*;

use crate::config::Difficulty;
use crate::exec_enum::ExecEnum;
use crate::game::{Game, GameView};
use crate::mirv_execution::MirvExecution;
use crate::nation_emoji::{
    maybe_send_attack_emoji, mind, respond_to_mirv, send_emoji, Mind, NationEmojiState,
};
use crate::nuke_execution::can_build_nuke;
use crate::nuke_targets::{are_teamed, tiles_of_team};
use crate::ordered_tiles::TileRef;
use crate::orders::Order;
use crate::prng::PseudoRandom;
use crate::state::{MirvHit, PlayerType, Unit};
use crate::unit_type::UnitType;

verus! {

/// For how many ticks a player that was hit is spared.
pub const MIRV_COOLDOWN_TICKS: i64 = 300;

/// How many emojis go with a MIRV.
pub const EMOJI_NUKE_LEN: i32 = 2;

/// One time in this many a nation that could send a MIRV does not.
pub open spec fn hesitation(difficulty: Difficulty) -> int {
    match difficulty {
        Difficulty::Easy => 2,
        Difficulty::Medium => 4,
        Difficulty::Hard => 8,
        Difficulty::Impossible => 16,
        Difficulty::Other => 4,
    }
}

/// The share of the land, in percent, from which a team is about to win.
pub open spec fn team_share_limit(difficulty: Difficulty) -> int {
    match difficulty {
        Difficulty::Easy => 90,
        Difficulty::Medium => 80,
        Difficulty::Hard => 70,
        Difficulty::Impossible => 60,
        Difficulty::Other => 80,
    }
}

/// The share of the land, in percent, from which a player is about to win.
pub open spec fn share_limit(difficulty: Difficulty) -> int {
    match difficulty {
        Difficulty::Easy => 75,
        Difficulty::Medium => 65,
        Difficulty::Hard => 55,
        Difficulty::Impossible => 40,
        Difficulty::Other => 65,
    }
}

/// How far ahead in cities a steamroller is, in percent of the second.
pub open spec fn city_gap(difficulty: Difficulty) -> int {
    match difficulty {
        Difficulty::Easy => 200,
        Difficulty::Medium => 150,
        Difficulty::Hard => 125,
        Difficulty::Impossible => 115,
        Difficulty::Other => 150,
    }
}

/// A steamroller has more cities than this.
pub open spec fn min_leader_cities(difficulty: Difficulty) -> int {
    match difficulty {
        Difficulty::Easy => 20,
        Difficulty::Medium => 10,
        Difficulty::Hard => 10,
        Difficulty::Impossible => 8,
        Difficulty::Other => 10,
    }
}

impl GameView {
    /// Players whom `sid` may send a MIRV at.
    pub open spec fn mirv_target(self, sid: u16) -> spec_fn(u16) -> bool {
        |id: u16|
            self.is_alive(id) && id != sid && !self.of_type(id, PlayerType::Bot)
                && !self.on_same_team(sid, id)
    }

    pub open spec fn mirv_targets(self, sid: u16) -> Seq<u16> {
        self.ids().filter(self.mirv_target(sid))
    }

    /// MIRVs of `from` that fly to the land of `sid`.
    pub open spec fn inbound_mirv(self, from: u16, sid: u16) -> spec_fn(Unit) -> bool {
        |u: Unit|
            u.owner == from && u.unit_type == UnitType::Mirv && u.target_tile is Some
                && self.map.owner(u.target_tile->0) == sid && sid != 0
    }

    /// Players who sent a MIRV at `sid`.
    pub open spec fn mirv_sender(self, sid: u16) -> spec_fn(u16) -> bool {
        |id: u16| crate::lists::some_where(self.units, self.inbound_mirv(id, sid))
    }

    /// The largest of those who sent a MIRV at `sid`.
    pub open spec fn counter_target(self, sid: u16) -> Option<u16> {
        let senders = crate::lists::payloads(
            crate::lists::sort_by_key(
                self.mirv_targets(sid).filter(self.mirv_sender(sid)).map_values(self.by_tiles()),
            ),
        );
        if senders.len() == 0 {
            None
        } else {
            Some(senders[0])
        }
    }

    /// The member of a player's team in `ids` with the most tiles, the first where several
    /// have as many, and its tiles.
    pub open spec fn largest_mate(self, sid: u16, ids: Seq<u16>) -> (Option<u16>, int)
        decreases ids.len(),
    {
        if ids.len() == 0 {
            (None, -1)
        } else {
            let (best, most) = self.largest_mate(sid, ids.drop_last());
            let id = ids.last();
            if self.teamed(id, sid) && self.tiles_owned(id) > most {
                (Some(id), self.tiles_owned(id))
            } else {
                (best, most)
            }
        }
    }

    /// The tiles by which a player, or its team of which it is the largest member, is about
    /// to win; none where it is not.
    pub open spec fn threat(self, sid: u16, difficulty: Difficulty) -> int {
        if self.teamed(sid, sid) {
            let tiles = self.team_tiles(sid, self.alive_ids());
            if tiles * 100 >= self.land() * team_share_limit(difficulty) && self.largest_mate(
                sid,
                self.alive_ids(),
            ).0 == Some(sid) {
                tiles
            } else {
                0
            }
        } else if self.tiles_owned(sid) * 100 >= self.land() * share_limit(difficulty) {
            self.tiles_owned(sid)
        } else {
            0
        }
    }

    /// The one of `ids` that is nearest to winning, and its threat.
    pub open spec fn worst_threat(self, ids: Seq<u16>, difficulty: Difficulty) -> (Option<u16>, int)
        decreases ids.len(),
    {
        if ids.len() == 0 {
            (None, 0)
        } else {
            let (worst, most) = self.worst_threat(ids.drop_last(), difficulty);
            if self.threat(ids.last(), difficulty) > most {
                (Some(ids.last()), self.threat(ids.last(), difficulty))
            } else {
                (worst, most)
            }
        }
    }

    /// The player to be kept from winning.
    pub open spec fn denial_target(self, sid: u16, difficulty: Difficulty) -> Option<u16> {
        if self.land() == 0 {
            None
        } else {
            self.worst_threat(self.mirv_targets(sid), difficulty).0
        }
    }

    /// The levels of a player's cities, added up.
    pub open spec fn cities(self, sid: u16) -> int {
        crate::game_units::level_sum(self.units_of(sid, UnitType::City))
    }

    pub open spec fn more_cities(self) -> spec_fn(u16, u16) -> bool {
        |a: u16, b: u16| self.cities(a) > self.cities(b)
    }

    /// The living players, those with the most cities first.
    pub open spec fn by_cities(self) -> Seq<u16> {
        crate::lists::sort_with(self.alive_ids(), self.more_cities())
    }

    /// The player with the most cities, where it is far ahead.
    pub open spec fn steamroll_target(self, sid: u16, difficulty: Difficulty) -> Option<u16> {
        let ranking = self.by_cities();
        if ranking.len() < 2 || self.cities(ranking[0]) <= min_leader_cities(difficulty) {
            None
        } else if self.cities(ranking[0]) * 100 >= self.cities(ranking[1]) * city_gap(difficulty)
            && self.mirv_target(sid)(ranking[0]) {
            Some(ranking[0])
        } else {
            None
        }
    }

    /// Whether a MIRV was sent at a player lately.
    pub open spec fn recently_mirved(self, sid: u16) -> bool {
        exists|i: int|
            0 <= i < self.mirv_hits.len() && (#[trigger] self.mirv_hits[i]).target == sid
                && self.tick - self.mirv_hits[i].tick < MIRV_COOLDOWN_TICKS
    }

    /// The tile of `tiles` nearest to `t` as the crow flies, the first where several are.
    pub open spec fn nearest_straight(self, tiles: Seq<TileRef>, t: TileRef) -> Option<TileRef>
        decreases tiles.len(),
    {
        if tiles.len() == 0 {
            None
        } else {
            match self.nearest_straight(tiles.drop_last(), t) {
                Some(best) => if self.map.dist2(tiles.last(), t) < self.map.dist2(best, t) {
                    Some(tiles.last())
                } else {
                    Some(best)
                },
                None => Some(tiles.last()),
            }
        }
    }

    /// The middle of a player's land, or its border tile nearest to it where the middle
    /// belongs to somebody else.
    pub open spec fn heartland(self, sid: u16) -> Option<TileRef> {
        match self.center(sid) {
            Some(t) => if self.map.owner(t) == sid {
                Some(t)
            } else {
                self.nearest_straight(self.border(sid), t)
            },
            None => None,
        }
    }

    /// The player whom a nation sends a MIRV at.
    pub open spec fn mirv_choice(self, sid: u16) -> Option<u16> {
        let counter = self.counter_target(sid);
        let denial = self.denial_target(sid, self.config.difficulty);
        let steamroll = self.steamroll_target(sid, self.config.difficulty);
        if counter is Some && !self.recently_mirved(counter->0) {
            counter
        } else if denial is Some && !self.recently_mirved(denial->0) {
            denial
        } else if steamroll is Some && !self.recently_mirved(steamroll->0) {
            steamroll
        } else {
            None
        }
    }
}

impl Mind {
    /// After a nation sent a MIRV at a tile of `target`.
    pub open spec fn launching_mirv(self, sid: u16, target: u16, tile: TileRef) -> Mind {
        let game = self.game.ordering(Order::Mirv { owner: sid, dst: tile });
        let m = Mind {
            game: GameView {
                mirv_hits: game.mirv_hits.push(MirvHit { target, tick: game.tick }),
                ..game
            },
            ..self
        }.sending(sid, None);
        let (after, rng) = crate::nation_emoji::crying_out(m.game, m.rng, target);
        Mind { game: after, rng, ..m }
    }

    /// After a nation that chose `target` sent a MIRV at it, where it could.
    pub open spec fn mirving(self, sid: u16, target: u16) -> Mind {
        let m = self.taunting(sid, target);
        match m.game.heartland(target) {
            Some(t) => if m.game.launch_site(sid, UnitType::Mirv, t) is Some {
                m.launching_mirv(sid, target, t)
            } else {
                m
            },
            None => m,
        }
    }

    /// After a nation considered a MIRV, and whether it chose a target.
    pub open spec fn considering(self, sid: u16) -> (Mind, bool) {
        let game = self.game;
        let m = Mind { rng: crate::prng::next_state(self.rng), ..self };
        if game.config.disabled(UnitType::Mirv) || game.units_of(sid, UnitType::MissileSilo).len()
            == 0 || game.gold(sid) < game.cost(sid, UnitType::Mirv) {
            (self, false)
        } else if crate::prng::chance_drawn(self.rng, hesitation(game.config.difficulty)) {
            (m, false)
        } else {
            match game.mirv_choice(sid) {
                Some(target) => (m.mirving(sid, target), true),
                None => (m, false),
            }
        }
    }
}

fn hesitation_odds(difficulty: Difficulty) -> (odds: i32)
    ensures
        odds == hesitation(difficulty),
{
    match difficulty {
        Difficulty::Easy => 2,
        Difficulty::Medium => 4,
        Difficulty::Hard => 8,
        Difficulty::Impossible => 16,
        Difficulty::Other => 4,
    }
}

fn victory_denial_team_threshold(difficulty: Difficulty) -> (percent: i64)
    ensures
        percent == team_share_limit(difficulty),
        0 <= percent <= 100,
{
    match difficulty {
        Difficulty::Easy => 90,
        Difficulty::Medium => 80,
        Difficulty::Hard => 70,
        Difficulty::Impossible => 60,
        Difficulty::Other => 80,
    }
}

fn victory_denial_individual_threshold(difficulty: Difficulty) -> (percent: i64)
    ensures
        percent == share_limit(difficulty),
        0 <= percent <= 100,
{
    match difficulty {
        Difficulty::Easy => 75,
        Difficulty::Medium => 65,
        Difficulty::Hard => 55,
        Difficulty::Impossible => 40,
        Difficulty::Other => 65,
    }
}

fn steamroll_city_gap(difficulty: Difficulty) -> (percent: i128)
    ensures
        percent == city_gap(difficulty),
        0 <= percent <= 200,
{
    match difficulty {
        Difficulty::Easy => 200,
        Difficulty::Medium => 150,
        Difficulty::Hard => 125,
        Difficulty::Impossible => 115,
        Difficulty::Other => 150,
    }
}

fn steamroll_min_leader_cities(difficulty: Difficulty) -> (cities: i128)
    ensures
        cities == min_leader_cities(difficulty),
{
    match difficulty {
        Difficulty::Easy => 20,
        Difficulty::Medium => 10,
        Difficulty::Hard => 10,
        Difficulty::Impossible => 8,
        Difficulty::Other => 10,
    }
}

fn is_mirv_target(game: &Game, small_id: u16, id: u16) -> (valid: bool)
    ensures
        valid == game@.mirv_target(small_id)(id),
{
    game.is_player_alive(id) && id != small_id && !game.is_of_type(id, PlayerType::Bot)
        && !game.players_on_same_team(small_id, id)
}

/// The players whom a nation may send a MIRV at.
pub fn valid_mirv_target_players(game: &Game, small_id: u16) -> (ids: Vec<u16>)
    requires
        game@.wf(),
    ensures
        ids@ == game@.mirv_targets(small_id),
{
    let all = game.player_ids();
    let accepts = |id: u16| -> (valid: bool)
        ensures
            valid == game@.mirv_target(small_id)(id),
        { is_mirv_target(game, small_id, id) };
    crate::lists::filter_by(&all, accepts, Ghost(game@.mirv_target(small_id)))
}

/// Whether a MIRV of the attacker flies to the land of a player.
fn is_inbound_mirv_from(game: &Game, attacker: u16, small_id: u16) -> (inbound: bool)
    requires
        game@.wf(),
    ensures
        inbound == game@.mirv_sender(small_id)(attacker),
{
    let ghost p = game@.inbound_mirv(attacker, small_id);
    for i in 0..game.units.len()
        invariant
            game@.wf(),
            p == game@.inbound_mirv(attacker, small_id),
            forall|k: int| 0 <= k < i ==> !p(#[trigger] game@.units[k]),
    {
        let u: Unit = game.units[i];
        assert(game@.units[i as int] == u);
        if u.owner == attacker && u.unit_type == UnitType::Mirv && small_id != 0 {
            match u.target_tile {
                Some(t) => {
                    if game.map.owner_id(t) == small_id {
                        assert(p(game@.units[i as int]));
                        return true;
                    }
                },
                None => {},
            }
        }
    }
    false
}

/// The largest of those who sent a MIRV at a player.
pub fn select_counter_mirv_target(game: &Game, small_id: u16) -> (target: Option<u16>)
    requires
        game@.wf(),
    ensures
        target == game@.counter_target(small_id),
{
    let valid = valid_mirv_target_players(game, small_id);
    let accepts = |id: u16| -> (sender: bool)
        ensures
            sender == game@.mirv_sender(small_id)(id),
        { is_inbound_mirv_from(game, id, small_id) };
    let senders = crate::lists::filter_by(&valid, accepts, Ghost(game@.mirv_sender(small_id)));
    let ghost key = game@.by_tiles();
    let mut keyed: Vec<(i64, u16)> = Vec::new();
    for i in 0..senders.len()
        invariant
            game@.wf(),
            key == game@.by_tiles(),
            keyed@ == senders@.take(i as int).map_values(key),
    {
        keyed.push((-game.tiles_of(senders[i]), senders[i]));
        assert(senders@.take(i + 1).map_values(key) =~= senders@.take(i as int).map_values(
            key,
        ).push(key(senders@[i as int])));
    }
    proof {
        crate::lists::lemma_take_all(senders@);
    }
    let sorted = crate::lists::sorted_payloads(&keyed);
    if sorted.len() == 0 {
        None
    } else {
        Some(sorted[0])
    }
}

fn find_largest_mate(game: &Game, sid: u16, ids: &Vec<u16>) -> (mate: Option<u16>)
    requires
        game@.wf(),
    ensures
        mate == game@.largest_mate(sid, ids@).0,
{
    let mut best: Option<u16> = None;
    let mut most: i64 = -1;
    assert(ids@.take(0) =~= Seq::<u16>::empty());
    for i in 0..ids.len()
        invariant
            game@.wf(),
            (best, most as int) == game@.largest_mate(sid, ids@.take(i as int)),
    {
        assert(ids@.take(i + 1).drop_last() =~= ids@.take(i as int));
        let id: u16 = ids[i];
        if are_teamed(game, id, sid) && game.tiles_of(id) > most {
            best = Some(id);
            most = game.tiles_of(id);
        }
    }
    assert(ids@.take(ids@.len() as int) =~= ids@);
    best
}

fn threat_of(game: &Game, sid: u16, alive: &Vec<u16>, land: i64, difficulty: Difficulty) -> (tiles: i64)
    requires
        game@.wf(),
        alive@ == game@.alive_ids(),
        alive@.len() <= 65_535,
        land == game@.land(),
        0 <= land <= 0xffff_ffff,
    ensures
        tiles == game@.threat(sid, difficulty),
{
    if are_teamed(game, sid, sid) {
        let tiles: i64 = tiles_of_team(game, sid, alive);
        if tiles * 100 >= land * victory_denial_team_threshold(difficulty) && find_largest_mate(
            game,
            sid,
            alive,
        ) == Some(sid) {
            tiles
        } else {
            0
        }
    } else {
        let tiles: i64 = game.tiles_of(sid);
        if tiles * 100 >= land * victory_denial_individual_threshold(difficulty) {
            tiles
        } else {
            0
        }
    }
}

/// The player to be kept from winning.
pub fn select_victory_denial_target(game: &Game, small_id: u16, difficulty: Difficulty) -> (target:
    Option<u16>)
    requires
        game@.wf(),
    ensures
        target == game@.denial_target(small_id, difficulty),
{
    let land: i64 = game.num_land_tiles() as i64;
    if land == 0 {
        return None;
    }
    let alive = game.players_alive();
    let valid = valid_mirv_target_players(game, small_id);
    let mut worst: Option<u16> = None;
    let mut most: i64 = 0;
    assert(valid@.take(0) =~= Seq::<u16>::empty());
    for i in 0..valid.len()
        invariant
            game@.wf(),
            alive@ == game@.alive_ids(),
            alive@.len() <= 65_535,
            land == game@.land(),
            0 <= land <= 0xffff_ffff,
            (worst, most as int) == game@.worst_threat(valid@.take(i as int), difficulty),
    {
        assert(valid@.take(i + 1).drop_last() =~= valid@.take(i as int));
        let tiles: i64 = threat_of(game, valid[i], &alive, land, difficulty);
        if tiles > most {
            worst = Some(valid[i]);
            most = tiles;
        }
    }
    assert(valid@.take(valid@.len() as int) =~= valid@);
    worst
}

/// The player with the most cities, where it is far ahead.
pub fn select_steamroll_stop_target(game: &Game, small_id: u16, difficulty: Difficulty) -> (target:
    Option<u16>)
    requires
        game@.wf(),
    ensures
        target == game@.steamroll_target(small_id, difficulty),
{
    let alive = game.players_alive();
    let before = |a: u16, b: u16| -> (more: bool)
        ensures
            more == game@.more_cities()(a, b),
        { game.unit_level_sum(a, UnitType::City) > game.unit_level_sum(b, UnitType::City) };
    let ranking = crate::lists::sort_by(&alive, before, Ghost(game@.more_cities()));
    if ranking.len() < 2 {
        return None;
    }
    let top: u16 = ranking[0];
    assert(game.units.len() <= 0xffff_ffff_ffff_ffff);
    let first = game.units_of_type(top, UnitType::City);
    let cities: i128 = crate::game_units::total_level(&first);
    if cities <= steamroll_min_leader_cities(difficulty) {
        return None;
    }
    let second = game.units_of_type(ranking[1], UnitType::City);
    let next: i128 = crate::game_units::total_level(&second);
    let gap: i128 = steamroll_city_gap(difficulty);
    assert(0 <= next * gap <= 10_000 * 0xffff_ffff_ffff_ffff * 200) by (nonlinear_arith)
        requires
            0 <= next <= 10_000 * 0xffff_ffff_ffff_ffff,
            0 <= gap <= 200,
    ;
    if cities * 100 >= next * gap && is_mirv_target(game, small_id, top) {
        Some(top)
    } else {
        None
    }
}

/// Whether a MIRV was sent at a player lately.
pub fn was_recently_mirved(game: &Game, target_small_id: u16) -> (recently: bool)
    ensures
        recently == game@.recently_mirved(target_small_id),
{
    for i in 0..game.mirv_hits.len()
        invariant
            forall|k: int|
                0 <= k < i ==> !((#[trigger] game@.mirv_hits[k]).target == target_small_id
                    && game@.tick - game@.mirv_hits[k].tick < MIRV_COOLDOWN_TICKS),
    {
        let hit: MirvHit = game.mirv_hits[i];
        assert(game@.mirv_hits[i as int] == hit);
        if hit.target == target_small_id && (game.tick as i64 - hit.tick as i64)
            < MIRV_COOLDOWN_TICKS {
            return true;
        }
    }
    false
}

fn closest_straight(game: &Game, tiles: &Vec<TileRef>, t: TileRef) -> (closest: Option<TileRef>)
    requires
        game@.wf(),
        game@.map.valid(t),
        forall|i: int| 0 <= i < tiles@.len() ==> game@.map.valid(#[trigger] tiles@[i]),
    ensures
        closest == game@.nearest_straight(tiles@, t),
        closest is Some ==> game@.map.valid(closest->0),
{
    let mut best: Option<TileRef> = None;
    assert(tiles@.take(0) =~= Seq::<TileRef>::empty());
    for i in 0..tiles.len()
        invariant
            game@.wf(),
            game@.map.valid(t),
            forall|k: int| 0 <= k < tiles@.len() ==> game@.map.valid(#[trigger] tiles@[k]),
            best == game@.nearest_straight(tiles@.take(i as int), t),
            best is Some ==> game@.map.valid(best->0),
    {
        assert(tiles@.take(i + 1).drop_last() =~= tiles@.take(i as int));
        let here: TileRef = tiles[i];
        assert(tiles@[i as int] == here);
        best = match best {
            Some(b) => if game.map.euclidean_dist_squared(here, t)
                < game.map.euclidean_dist_squared(b, t) {
                Some(here)
            } else {
                Some(b)
            },
            None => Some(here),
        };
    }
    assert(tiles@.take(tiles@.len() as int) =~= tiles@);
    best
}

/// The middle of a player's land.
pub fn calculate_territory_center(game: &Game, target_small_id: u16) -> (center: Option<TileRef>)
    requires
        game@.wf(),
    ensures
        center == game@.heartland(target_small_id),
        center is Some ==> game@.map.valid(center->0),
{
    match crate::ai_strategy::player_center_tile(game, target_small_id) {
        Some(t) => if game.map.owner_id(t) == target_small_id {
            Some(t)
        } else {
            let border = game.border_tiles_for(target_small_id);
            closest_straight(game, &border, t)
        },
        None => None,
    }
}

/// Sends a MIRV at a player, where that is possible.
fn maybe_send_mirv(
    game: &mut Game,
    random: &mut PseudoRandom,
    small_id: u16,
    target_small_id: u16,
    emoji_state: &mut NationEmojiState,
)
    requires
        old(game).wf(),
    ensures
        final(game).wf(),
        mind(*final(game), *final(random), *final(emoji_state)) == mind(
            *old(game),
            *old(random),
            *old(emoji_state),
        ).mirving(small_id, target_small_id),
{
    maybe_send_attack_emoji(game, random, small_id, emoji_state, target_small_id);
    let tile: TileRef = match calculate_territory_center(game, target_small_id) {
        Some(tile) => tile,
        None => {
            return;
        },
    };
    if can_build_nuke(game, small_id, UnitType::Mirv, tile).is_none() {
        return;
    }
    let ghost m = mind(*game, *random, *emoji_state);
    game.add_execution(ExecEnum::Mirv(MirvExecution::new(small_id, tile)));
    let tick: u32 = game.tick;
    game.mirv_hits.push(MirvHit { target: target_small_id, tick });
    send_emoji(random, game, small_id, emoji_state, None, EMOJI_NUKE_LEN);
    respond_to_mirv(game, random, target_small_id);
    assert(mind(*game, *random, *emoji_state) == m.launching_mirv(small_id, target_small_id, tile));
}

/// The player whom a nation sends a MIRV at.
fn choose_target(game: &Game, small_id: u16) -> (target: Option<u16>)
    requires
        game@.wf(),
    ensures
        target == game@.mirv_choice(small_id),
{
    match select_counter_mirv_target(game, small_id) {
        Some(target) => {
            if !was_recently_mirved(game, target) {
                return Some(target);
            }
        },
        None => {},
    }
    match select_victory_denial_target(game, small_id, game.wire.difficulty) {
        Some(target) => {
            if !was_recently_mirved(game, target) {
                return Some(target);
            }
        },
        None => {},
    }
    match select_steamroll_stop_target(game, small_id, game.wire.difficulty) {
        Some(target) => {
            if !was_recently_mirved(game, target) {
                return Some(target);
            }
        },
        None => {},
    }
    None
}

/// Has a nation consider a MIRV; whether it chose a target.
pub fn consider_mirv(
    game: &mut Game,
    random: &mut PseudoRandom,
    small_id: u16,
    emoji_state: &mut NationEmojiState,
) -> (chose: bool)
    requires
        old(game).wf(),
    ensures
        final(game).wf(),
        (mind(*final(game), *final(random), *final(emoji_state)), chose) == mind(
            *old(game),
            *old(random),
            *old(emoji_state),
        ).considering(small_id),
{
    if game.wire.is_unit_disabled(UnitType::Mirv) {
        return false;
    }
    if game.unit_count(small_id, UnitType::MissileSilo) == 0 {
        return false;
    }
    if game.gold_of(small_id) < game.structure_cost(small_id, UnitType::Mirv) {
        return false;
    }
    if random.chance(hesitation_odds(game.wire.difficulty)) {
        return false;
    }
    match choose_target(game, small_id) {
        Some(target) => {
            maybe_send_mirv(game, random, small_id, target, emoji_state);
            true
        },
        None => false,
    }
}

/// No nation sends a MIRV at itself, at a bot, at a member of its team or at the dead.
pub proof fn law_mirv_targets_are_fair(game: GameView, sid: u16)
    ensures
        game.mirv_choice(sid) is Some ==> game.mirv_target(sid)(game.mirv_choice(sid)->0),
{
    let target = game.mirv_target(sid);
    let valid = game.mirv_targets(sid);
    crate::lists::lemma_filter_holds(game.ids(), target);
    if game.counter_target(sid) is Some {
        let kept = valid.filter(game.mirv_sender(sid));
        crate::lists::lemma_sorted_members(kept, game.by_tiles());
        crate::lists::lemma_filter_holds(valid, game.mirv_sender(sid));
        let sorted = crate::lists::payloads(
            crate::lists::sort_by_key(kept.map_values(game.by_tiles())),
        );
        assert(sorted.contains(sorted[0]));
        assert(kept.contains(sorted[0]));
        assert(valid.contains(sorted[0]));
    }
    lemma_worst_threat(game, valid, game.config.difficulty);
}

proof fn lemma_worst_threat(game: GameView, ids: Seq<u16>, difficulty: Difficulty)
    ensures
        game.worst_threat(ids, difficulty).0 is Some ==> ids.contains(
            game.worst_threat(ids, difficulty).0->0,
        ),
    decreases ids.len(),
{
    if ids.len() > 0 {
        let front = ids.drop_last();
        lemma_worst_threat(game, front, difficulty);
        if game.threat(ids.last(), difficulty) > game.worst_threat(front, difficulty).1 {
            assert(ids[ids.len() - 1] == ids.last());
        } else if game.worst_threat(front, difficulty).0 is Some {
            let x = game.worst_threat(front, difficulty).0->0;
            let k = choose|k: int| 0 <= k < front.len() && front[k] == x;
            assert(ids[k] == x);
        }
    }
}

impl Mind {
    /// Whether a nation that considers a MIRV now sends one at `target`.
    pub open spec fn sends_mirv(self, sid: u16, target: u16) -> bool {
        self.considering(sid).0.game.mirv_hits == self.game.mirv_hits.push(
            MirvHit { target, tick: self.game.tick },
        )
    }

    /// A nation that considers a MIRV orders one exactly where it enters it, with its target
    /// and the tick, at the end of the list of those that were sent. The target is the one it
    /// chose. Otherwise it orders nothing, and the list stays as it is.
    pub proof fn law_mirvs_are_entered(self, sid: u16)
        ensures
            self.considering(sid).0.game.tick == self.game.tick,
            self.considering(sid).0.game.mirv_hits == self.game.mirv_hits
                && self.considering(sid).0.game.pending == self.game.pending
                || self.considering(sid).1 && self.game.mirv_choice(sid) is Some
                && self.sends_mirv(sid, self.game.mirv_choice(sid)->0) && exists|tile: TileRef|
                self.considering(sid).0.game.pending == #[trigger] self.game.ordering(
                    Order::Mirv { owner: sid, dst: tile },
                ).pending,
    {
        if let Some(target) = self.game.mirv_choice(sid) {
            let drawn = Mind { rng: crate::prng::next_state(self.rng), ..self };
            let m = drawn.taunting(sid, target);
            assert(m.game.mirv_hits == self.game.mirv_hits && m.game.pending == self.game.pending
                && m.game.tick == self.game.tick);
            if let Some(t) = m.game.heartland(target) {
                assert(self.game.ordering(Order::Mirv { owner: sid, dst: t }).pending
                    == self.game.pending.push(Order::Mirv { owner: sid, dst: t }));
            }
        }
    }

    /// Two MIRVs at one player are 300 ticks or more apart, whoever sends them: as long as
    /// the earlier one stays on the list, a nation spares the player.
    pub proof fn law_mirvs_are_apart(self, by: u16, later: Mind, later_by: u16, target: u16)
        requires
            self.sends_mirv(by, target),
            self.considering(by).0.game.mirv_hits.is_prefix_of(later.game.mirv_hits),
            later.sends_mirv(later_by, target),
        ensures
            later.game.tick - self.game.tick >= MIRV_COOLDOWN_TICKS,
    {
        let entered = self.considering(by).0.game.mirv_hits;
        let hits = later.game.mirv_hits;
        let n = self.game.mirv_hits.len() as int;
        assert(entered[n].target == target && entered[n].tick == self.game.tick);
        assert(hits[n] == entered[n]);
        later.law_mirvs_are_entered(later_by);
        let after = later.considering(later_by).0.game.mirv_hits;
        assert(after.len() == hits.len() + 1);
        let chosen = later.game.mirv_choice(later_by)->0;
        assert(after[hits.len() as int] == (MirvHit { target: chosen, tick: later.game.tick }));
        assert(chosen == target);
        assert(!later.game.recently_mirved(target));
    }
}

} // verus!
