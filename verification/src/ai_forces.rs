//! How many troops nations and tribes send, and by which way.

use vstd::prelude::*;

use crate::ai_attack::nearby_players_in_order;
use crate::config::{Difficulty, GameMode, TROOP_SCALE};
use crate::game::{Game, GameView};
use crate::nation_emoji::{maybe_send_attack_emoji, mind, Mind, NationEmojiState};
use crate::ordered_tiles::TileRef;
use crate::prng::PseudoRandom;
use crate::state::{PlayerType, MAX_ATTACK, MAX_TROOPS};
use crate::unit_type::UnitType;

verus! {

/// A fifth of a troop, scaled: the part of its troops that a player sends by boat.
pub const BOAT_SHARE: i64 = 20_000;

/// The count at which the troops sent against bots are no longer told apart.
pub const MAX_SENT: i64 = 0x7fff_ffff_ffff_ffff;

/// A nation's world and the troops it has sent against bots, scaled.
#[verifier::ext_equal]
pub struct Campaign {
    pub mind: Mind,
    pub sent: int,
}

/// The campaign that a nation is on.
pub open spec fn campaign(
    game: Game,
    random: PseudoRandom,
    emoji: NationEmojiState,
    sent: i64,
) -> Campaign {
    Campaign { mind: mind(game, random, emoji), sent: sent as int }
}

/// The part of the strongest neighbour's troops that has to stay at home, in percent.
pub open spec fn retained_percent(difficulty: Difficulty) -> int {
    match difficulty {
        Difficulty::Hard => 75,
        Difficulty::Impossible => 90,
        _ => 0,
    }
}

impl GameView {
    /// The troops above `percent` of the limit, scaled; `None` where that is less than one.
    pub open spec fn land_troops(self, sid: u16, percent: int) -> Option<int> {
        let spare = self.troops(sid) * TROOP_SCALE - self.max_troops_milli(sid) * percent;
        if self.has(sid) && spare >= TROOP_SCALE {
            Some(spare)
        } else {
            None
        }
    }

    /// Whether a player has `percent` of its troop limit or more.
    pub open spec fn holds_ratio(self, sid: u16, percent: int) -> bool {
        self.has(sid) && self.max_troops_milli(sid) > 0 && self.troops(sid) * TROOP_SCALE
            >= self.max_troops_milli(sid) * percent
    }

    /// The troops of the strongest of `ids` that is neither bot nor friend.
    pub open spec fn strongest(self, sid: u16, ids: Seq<u16>) -> int
        decreases ids.len(),
    {
        if ids.len() == 0 {
            0
        } else {
            let held = self.strongest(sid, ids.drop_last());
            let id = ids.last();
            if self.has(id) && !self.of_type(id, PlayerType::Bot) && !self.is_friendly(sid, id)
                && self.troops(id) > held {
                self.troops(id)
            } else {
                held
            }
        }
    }

    /// Whether a player has to keep troops back: bots and teams need not, nor does anyone
    /// on the lower difficulties.
    pub open spec fn is_careful(self, sid: u16) -> bool {
        self.has(sid) && !self.of_type(sid, PlayerType::Bot) && !self.config.is_team()
            && retained_percent(self.config.difficulty) > 0
    }

    /// The most troops that a player may send, scaled; `None` where there is no limit. An
    /// attack may always be answered in full.
    pub open spec fn send_cap(self, sid: u16) -> Option<int> {
        let strongest = self.strongest(sid, self.near_in_order(sid));
        let retained = (strongest * retained_percent(self.config.difficulty) + 99) / 100;
        let spare = if self.troops(sid) > retained {
            (self.troops(sid) - retained) * TROOP_SCALE
        } else {
            0
        };
        let incoming = crate::game_war::troop_sum(self.incoming(sid, false));
        if !self.is_careful(sid) || strongest == 0 {
            None
        } else if incoming > spare {
            Some(incoming)
        } else {
            Some(spare)
        }
    }

    /// Whether an attack of `troops` is too small to be worth sending.
    pub open spec fn too_weak(self, sid: u16, troops: int, target: u16) -> bool {
        self.is_careful(sid) && self.incoming(sid, false).len() == 0 && troops * 5 < self.troops(
            target,
        ) * TROOP_SCALE
    }

    /// What is left of `troops` for an attack on `target`; `None` where it must not be sent.
    pub open spec fn capped(self, sid: u16, target: u16, troops: int) -> Option<int> {
        let left = match self.send_cap(sid) {
            Some(cap) => if cap < troops {
                cap
            } else {
                troops
            },
            None => troops,
        };
        if left < TROOP_SCALE || self.too_weak(sid, left, target) {
            None
        } else {
            Some(left)
        }
    }

    /// Whether a player can send one more boat.
    pub open spec fn may_ship(self, sid: u16) -> bool {
        !self.config.disabled(UnitType::Transport) && self.units_of(sid, UnitType::Transport).len()
            < self.config.boat_max_number
    }

    /// The shore of `target` that a boat of `sid` would land on.
    pub open spec fn landing(self, sid: u16, target: u16) -> Option<TileRef> {
        match crate::game_land::nearest_pair(self.map, self.shores(sid), self.shores(target)) {
            Some(pair) => if self.boat_source(sid, pair.1) is Some {
                Some(pair.1)
            } else {
                None
            },
            None => None,
        }
    }

    /// The game after `sid` tried to send a boat to `target`, and whether it did.
    pub open spec fn boating(self, sid: u16, target: u16, troops: int) -> (GameView, bool) {
        match self.landing(sid, target) {
            Some(dst) => if troops >= TROOP_SCALE && self.may_ship(sid) {
                (self.shipping(sid, dst, troops), true)
            } else {
                (self, false)
            },
            None => (self, false),
        }
    }

    /// Land over the water that is free and that a boat of `sid` can reach.
    pub open spec fn free_landing(self, sid: u16) -> spec_fn(TileRef) -> bool {
        |t: TileRef| self.map.free_land(t) && self.boat_source(sid, t) is Some
    }

    /// The game after `sid` tried to send a boat to free land, and whether it did.
    pub open spec fn boating_to_free_land(self, sid: u16) -> (GameView, bool) {
        let troops = self.troops(sid) * BOAT_SHARE;
        match crate::lists::first_where(self.overseas(sid), self.free_landing(sid)) {
            Some(dst) => if self.may_ship(sid) && troops >= TROOP_SCALE {
                (self.shipping(sid, dst, troops), true)
            } else {
                (self, false)
            },
            None => (self, false),
        }
    }

    /// The game after `sid` tried to take land that nobody owns, and whether it did.
    pub open spec fn expanding(self, sid: u16, expand: int) -> (GameView, bool) {
        if self.borders_unowned_land(sid) {
            match self.land_troops(sid, expand) {
                Some(troops) => (self.attacking(sid, None, troops), true),
                None => (self, false),
            }
        } else {
            self.boating_to_free_land(sid)
        }
    }

    /// The troops that a nation sends against a bot, scaled.
    pub open spec fn bot_troops(
        self,
        sid: u16,
        target: u16,
        percent: int,
        sent: int,
        difficulty: Difficulty,
    ) -> Option<int> {
        let most = self.troops(sid) * TROOP_SCALE - self.max_troops_milli(sid) * percent - sent;
        let bot = self.troops(target) * TROOP_SCALE;
        if !self.has(sid) || !self.has(target) || most < TROOP_SCALE {
            None
        } else if difficulty == Difficulty::Easy {
            Some(most)
        } else if bot * 4 > most {
            if most < bot * 2 {
                None
            } else {
                Some(most)
            }
        } else if bot * 4 < TROOP_SCALE {
            None
        } else {
            Some(bot * 4)
        }
    }

    /// Whether `attacker` is willing to attack `target`, and the random state after it
    /// made up its mind. On the lower difficulties humans are often left alone.
    pub open spec fn willing(self, rng: u64, attacker: u16, target: u16, force: bool) -> (bool, u64) {
        if force || !self.has(target) {
            (true, rng)
        } else if !self.has(attacker) {
            (false, rng)
        } else if !self.of_type(target, PlayerType::Human) || self.is_traitor(target)
            || self.of_type(attacker, PlayerType::Bot) || self.config.humans_vs_nations {
            (true, rng)
        } else {
            match self.config.difficulty {
                Difficulty::Easy => (
                    crate::prng::int_drawn(rng, 0, 4) == 0,
                    crate::prng::next_state(rng),
                ),
                Difficulty::Medium => (
                    !crate::prng::chance_drawn(rng, 4),
                    crate::prng::next_state(rng),
                ),
                _ => (true, rng),
            }
        }
    }
}

impl Campaign {
    /// The campaign in a game that has changed.
    pub open spec fn in_game(self, game: GameView) -> Campaign {
        Campaign { mind: Mind { game, ..self.mind }, ..self }
    }

    /// After `troops` were sent against a bot.
    pub open spec fn counting(self, troops: int) -> Campaign {
        Campaign {
            sent: if self.sent + troops > MAX_SENT {
                MAX_SENT as int
            } else {
                self.sent + troops
            },
            ..self
        }
    }

    /// After `sid` tried to attack the bot `target`, and whether it did.
    pub open spec fn attacking_bot(
        self,
        sid: u16,
        target: u16,
        percent: int,
        difficulty: Difficulty,
    ) -> (Campaign, bool) {
        let game = self.mind.game;
        match game.bot_troops(sid, target, percent, self.sent, difficulty) {
            None => (self, false),
            Some(wanted) => match game.capped(sid, target, wanted) {
                None => (self, false),
                Some(troops) => if game.shares_border(sid, target) {
                    (
                        self.in_game(
                            game.attacking(sid, Some(game.player(target).id@), troops),
                        ).counting(troops),
                        true,
                    )
                } else {
                    let (after, sent) = game.boating(sid, target, troops);
                    (if sent {
                        self.in_game(after).counting(troops)
                    } else {
                        self
                    }, sent)
                },
            },
        }
    }

    /// After `sid` tried to attack `target` over land, and whether it did.
    pub open spec fn attacking_by_land(
        self,
        sid: u16,
        target: u16,
        reserve: int,
        voiced: bool,
    ) -> (Campaign, bool) {
        let game = self.mind.game;
        match game.land_troops(sid, reserve) {
            None => (self, false),
            Some(wanted) => match game.capped(sid, target, wanted) {
                None => (self, false),
                Some(troops) => {
                    let m = if voiced && game.of_type(sid, PlayerType::Nation) && game.of_type(
                        target,
                        PlayerType::Human,
                    ) {
                        self.mind.taunting(sid, target)
                    } else {
                        self.mind
                    };
                    (
                        Campaign {
                            mind: Mind {
                                game: m.game.attacking(sid, Some(game.player(target).id@), troops),
                                ..m
                            },
                            ..self
                        },
                        true,
                    )
                },
            },
        }
    }

    /// After `sid` tried to attack `target`, and whether it did. Bots are attacked with no
    /// more than it takes; others over land where they share a border, else by boat.
    pub open spec fn attacking(
        self,
        sid: u16,
        target: u16,
        reserve: int,
        expand: int,
        difficulty: Difficulty,
        voiced: bool,
        force: bool,
    ) -> (Campaign, bool) {
        let (willing, rng) = self.mind.game.willing(self.mind.rng, sid, target, force);
        let c = Campaign { mind: Mind { rng, ..self.mind }, ..self };
        let game = c.mind.game;
        if !willing {
            (c, false)
        } else if game.of_type(target, PlayerType::Bot) && !game.of_type(sid, PlayerType::Bot) {
            c.attacking_bot(
                sid,
                target,
                if game.structures_of(target).len() > 0 {
                    expand
                } else {
                    reserve
                },
                difficulty,
            )
        } else if game.shares_border(sid, target) {
            if game.has(target) {
                c.attacking_by_land(sid, target, reserve, voiced)
            } else {
                (c, false)
            }
        } else {
            match game.capped(sid, target, game.troops(sid) * BOAT_SHARE) {
                None => (c, false),
                Some(troops) => {
                    let (after, sent) = game.boating(sid, target, troops);
                    (c.in_game(after), sent)
                },
            }
        }
    }
}

/// The troops above `percent` of the limit, scaled.
pub fn land_attack_troops(game: &Game, small_id: u16, percent: u32) -> (troops: Option<i64>)
    requires
        game@.wf(),
        percent <= 100,
    ensures
        troops is Some == game@.land_troops(small_id, percent as int) is Some,
        troops is Some ==> troops->0 == game@.land_troops(small_id, percent as int)->0 && 0
            <= troops->0 <= MAX_ATTACK,
{
    if game.player_by_small_id(small_id).is_none() {
        return None;
    }
    let milli: i64 = game.max_troops_for(small_id);
    assert(0 <= milli * percent <= 1_000_000_000_000 * 100) by (nonlinear_arith)
        requires
            0 <= milli <= 1_000_000_000_000,
            0 <= percent <= 100,
    ;
    let spare: i64 = game.troops_of(small_id) * TROOP_SCALE - milli * percent as i64;
    if spare < TROOP_SCALE {
        return None;
    }
    Some(spare)
}

fn has_ratio(game: &Game, small_id: u16, percent: u32) -> (has: bool)
    requires
        game@.wf(),
        percent <= 100,
    ensures
        has == game@.holds_ratio(small_id, percent as int),
{
    if game.player_by_small_id(small_id).is_none() {
        return false;
    }
    let milli: i64 = game.max_troops_for(small_id);
    assert(0 <= milli * percent <= 1_000_000_000_000 * 100) by (nonlinear_arith)
        requires
            0 <= milli <= 1_000_000_000_000,
            0 <= percent <= 100,
    ;
    milli > 0 && game.troops_of(small_id) * TROOP_SCALE >= milli * percent as i64
}

/// Whether a player has its reserve, a percentage of its troop limit.
pub fn has_reserve_ratio(game: &Game, small_id: u16, reserve_ratio: u32) -> (has: bool)
    requires
        game@.wf(),
        reserve_ratio <= 100,
    ensures
        has == game@.holds_ratio(small_id, reserve_ratio as int),
{
    has_ratio(game, small_id, reserve_ratio)
}

/// Whether a player has the percentage of its troop limit from which it attacks.
pub fn has_trigger_ratio(game: &Game, small_id: u16, trigger_ratio: u32) -> (has: bool)
    requires
        game@.wf(),
        trigger_ratio <= 100,
    ensures
        has == game@.holds_ratio(small_id, trigger_ratio as int),
{
    has_ratio(game, small_id, trigger_ratio)
}

pub(crate) fn strongest_of(game: &Game, small_id: u16, ids: &Vec<u16>) -> (troops: i64)
    requires
        game@.wf(),
    ensures
        troops == game@.strongest(small_id, ids@),
        0 <= troops <= MAX_TROOPS,
{
    let mut troops: i64 = 0;
    assert(ids@.take(0) =~= Seq::<u16>::empty());
    for i in 0..ids.len()
        invariant
            game@.wf(),
            troops == game@.strongest(small_id, ids@.take(i as int)),
            0 <= troops <= MAX_TROOPS,
    {
        assert(ids@.take(i + 1).drop_last() =~= ids@.take(i as int));
        let id: u16 = ids[i];
        let counts: bool = match game.player_by_small_id(id) {
            Some(p) => p.player_type != PlayerType::Bot,
            None => false,
        };
        if counts && !game.is_friendly(small_id, id) && game.troops_of(id) > troops {
            troops = game.troops_of(id);
        }
    }
    proof {
        crate::lists::lemma_take_all(ids@);
    }
    troops
}

pub(crate) fn retain_percent(difficulty: Difficulty) -> (percent: i64)
    ensures
        percent == retained_percent(difficulty),
        0 <= percent <= 90,
{
    match difficulty {
        Difficulty::Hard => 75,
        Difficulty::Impossible => 90,
        _ => 0,
    }
}

pub(crate) fn keeps_back(game: &Game, small_id: u16) -> (careful: bool)
    ensures
        careful == game@.is_careful(small_id),
{
    match game.player_by_small_id(small_id) {
        Some(p) => p.player_type != PlayerType::Bot && game.wire.game_mode != GameMode::Team
            && retain_percent(game.wire.difficulty) > 0,
        None => false,
    }
}

/// The most troops that a player may send, scaled.
fn troop_send_cap(game: &Game, small_id: u16) -> (cap: Option<i128>)
    requires
        game@.wf(),
    ensures
        cap is Some == game@.send_cap(small_id) is Some,
        cap is Some ==> cap->0 == game@.send_cap(small_id)->0 && cap->0 >= 0,
{
    if !keeps_back(game, small_id) {
        return None;
    }
    let near = nearby_players_in_order(game, small_id);
    let strongest: i64 = strongest_of(game, small_id, &near);
    if strongest == 0 {
        return None;
    }
    let percent: i64 = retain_percent(game.wire.difficulty);
    assert(0 <= strongest * percent <= 2_147_483_647 * 90) by (nonlinear_arith)
        requires
            0 <= strongest <= 2_147_483_647,
            0 <= percent <= 90,
    ;
    let retained: i64 = (strongest * percent + 99) / 100;
    let held: i64 = game.troops_of(small_id);
    let spare: i64 = if held > retained {
        (held - retained) * TROOP_SCALE
    } else {
        0
    };
    let incoming: i128 = game.incoming_land_troops(small_id);
    if incoming > spare as i128 {
        Some(incoming)
    } else {
        Some(spare as i128)
    }
}

/// Whether an attack is too small to be worth sending.
fn is_attack_too_weak(game: &Game, small_id: u16, troops: i64, target_small_id: u16) -> (weak: bool)
    requires
        game@.wf(),
        0 <= troops <= MAX_ATTACK,
    ensures
        weak == game@.too_weak(small_id, troops as int, target_small_id),
{
    if !keeps_back(game, small_id) {
        return false;
    }
    if game.incoming_attacks(small_id, false).len() != 0 {
        return false;
    }
    troops * 5 < game.troops_of(target_small_id) * TROOP_SCALE
}

/// What is left of an attack's troops; `None` where it must not be sent.
pub fn cap_player_attack_troops(
    game: &Game,
    small_id: u16,
    target_small_id: u16,
    troops: i64,
) -> (left: Option<i64>)
    requires
        game@.wf(),
        0 <= troops <= MAX_ATTACK,
    ensures
        left is Some == game@.capped(small_id, target_small_id, troops as int) is Some,
        left is Some ==> left->0 == game@.capped(small_id, target_small_id, troops as int)->0
            && TROOP_SCALE <= left->0 <= troops,
{
    let left: i64 = match troop_send_cap(game, small_id) {
        Some(cap) => if cap < troops as i128 {
            cap as i64
        } else {
            troops
        },
        None => troops,
    };
    if left < TROOP_SCALE {
        return None;
    }
    if is_attack_too_weak(game, small_id, left, target_small_id) {
        return None;
    }
    Some(left)
}

pub(crate) fn can_ship(game: &Game, small_id: u16) -> (may: bool)
    requires
        game@.wf(),
    ensures
        may == game@.may_ship(small_id),
{
    !game.wire.is_unit_disabled(UnitType::Transport) && game.unit_count(
        small_id,
        UnitType::Transport,
    ) < game.wire.boat_max_number as usize
}

/// The shore of the target that a boat would land on.
pub fn landing_shore(game: &Game, small_id: u16, target_small_id: u16) -> (dst: Option<TileRef>)
    requires
        game@.wf(),
    ensures
        dst == game@.landing(small_id, target_small_id),
{
    let own = game.shore_border_tiles(small_id);
    let theirs = game.shore_border_tiles(target_small_id);
    match game.closest_two_tiles(&own, &theirs) {
        Some((_, dst)) => if game.can_build_transport_ship(small_id, dst).is_some() {
            Some(dst)
        } else {
            None
        },
        None => None,
    }
}

/// Sends a boat with `troops` scaled troops to the nearest shore of the target.
pub fn send_boat_attack_to_player(
    game: &mut Game,
    attacker_small_id: u16,
    target_small_id: u16,
    troops: i64,
) -> (sent: bool)
    requires
        old(game).wf(),
    ensures
        final(game).wf(),
        (final(game)@, sent) == old(game)@.boating(
            attacker_small_id,
            target_small_id,
            troops as int,
        ),
{
    if troops < TROOP_SCALE {
        return false;
    }
    if !can_ship(game, attacker_small_id) {
        return false;
    }
    match landing_shore(game, attacker_small_id, target_small_id) {
        Some(dst) => {
            game.add_transport_attack(attacker_small_id, dst, troops);
            true
        },
        None => false,
    }
}

/// Sends a boat with a fifth of the player's troops to free land over the water.
pub fn send_boat_attack_to_nearby_tn(game: &mut Game, small_id: u16) -> (sent: bool)
    requires
        old(game).wf(),
    ensures
        final(game).wf(),
        (final(game)@, sent) == old(game)@.boating_to_free_land(small_id),
{
    if !can_ship(game, small_id) {
        return false;
    }
    let tiles = crate::ai_attack::overseas_tiles(game, small_id);
    let game_now: &Game = game;
    let accepts = |t: TileRef| -> (lands: bool)
        requires
            game_now@.map.valid(t),
        ensures
            lands == (game_now@.map.free_land(t) && game_now@.boat_source(small_id, t) is Some),
        {
            game_now.map.is_land(t) && !game_now.map.is_impassable(t) && game_now.map.owner_id(t) == 0
                && !game_now.map.has_fallout(t) && game_now.can_build_transport_ship(
                small_id,
                t,
            ).is_some()
        };
    match crate::lists::find_by(&tiles, accepts, Ghost(game_now@.free_landing(small_id))) {
        Some(dst) => {
            let troops: i64 = game.troops_of(small_id) * BOAT_SHARE;
            if troops < TROOP_SCALE {
                return false;
            }
            game.add_transport_attack(small_id, dst, troops);
            true
        },
        None => false,
    }
}

/// Takes land that nobody owns, over land where it can, else by boat.
pub fn try_send_tn_attack(game: &mut Game, small_id: u16, expand_ratio: u32) -> (sent: bool)
    requires
        old(game).wf(),
        expand_ratio <= 100,
    ensures
        final(game).wf(),
        (final(game)@, sent) == old(game)@.expanding(small_id, expand_ratio as int),
{
    if crate::ai_attack::has_land_border_with_terra_nullius(game, small_id) {
        match land_attack_troops(game, small_id, expand_ratio) {
            Some(troops) => {
                game.add_land_attack(small_id, None, troops);
                return true;
            },
            None => {
                return false;
            },
        }
    }
    send_boat_attack_to_nearby_tn(game, small_id)
}

/// Takes land that nobody owns.
pub fn send_tn_attack(game: &mut Game, small_id: u16, expand_ratio: u32) -> (sent: bool)
    requires
        old(game).wf(),
        expand_ratio <= 100,
    ensures
        final(game).wf(),
        (final(game)@, sent) == old(game)@.expanding(small_id, expand_ratio as int),
{
    try_send_tn_attack(game, small_id, expand_ratio)
}

/// Whether a player is willing to attack another.
pub fn should_attack(
    game: &Game,
    random: &mut PseudoRandom,
    attacker_small_id: u16,
    target_small_id: u16,
    force: bool,
) -> (willing: bool)
    ensures
        (willing, final(random).state) == game@.willing(
            old(random).state,
            attacker_small_id,
            target_small_id,
            force,
        ),
{
    if force {
        return true;
    }
    if game.player_by_small_id(target_small_id).is_none() {
        return true;
    }
    if game.player_by_small_id(attacker_small_id).is_none() {
        return false;
    }
    if !game.is_of_type(target_small_id, PlayerType::Human) || game.is_traitor(target_small_id)
        || game.is_of_type(attacker_small_id, PlayerType::Bot) || game.wire.humans_vs_nations {
        return true;
    }
    match game.wire.difficulty {
        Difficulty::Easy => random.next_int(0, 4) == 0,
        Difficulty::Medium => !random.chance(4),
        _ => true,
    }
}

/// The troops that a nation sends against a bot, scaled.
fn nation_bot_attack_troops(
    game: &Game,
    attacker_small_id: u16,
    target_small_id: u16,
    percent: u32,
    sent: i64,
    difficulty: Difficulty,
) -> (troops: Option<i64>)
    requires
        game@.wf(),
        percent <= 100,
        0 <= sent <= MAX_SENT,
    ensures
        troops is Some == game@.bot_troops(
            attacker_small_id,
            target_small_id,
            percent as int,
            sent as int,
            difficulty,
        ) is Some,
        troops is Some ==> troops->0 == game@.bot_troops(
            attacker_small_id,
            target_small_id,
            percent as int,
            sent as int,
            difficulty,
        )->0 && 0 <= troops->0 <= MAX_ATTACK,
{
    if game.player_by_small_id(attacker_small_id).is_none() || game.player_by_small_id(
        target_small_id,
    ).is_none() {
        return None;
    }
    let milli: i64 = game.max_troops_for(attacker_small_id);
    assert(0 <= milli * percent <= 1_000_000_000_000 * 100) by (nonlinear_arith)
        requires
            0 <= milli <= 1_000_000_000_000,
            0 <= percent <= 100,
    ;
    let spare: i64 = game.troops_of(attacker_small_id) * TROOP_SCALE - milli * percent as i64;
    if spare < TROOP_SCALE || spare - TROOP_SCALE < sent {
        return None;
    }
    let most: i64 = spare - sent;
    if difficulty == Difficulty::Easy {
        return Some(most);
    }
    let bot: i64 = game.troops_of(target_small_id) * TROOP_SCALE;
    if bot * 4 > most {
        if most < bot * 2 {
            return None;
        }
        return Some(most);
    }
    if bot * 4 < TROOP_SCALE {
        return None;
    }
    Some(bot * 4)
}

fn count_sent(sent: i64, troops: i64) -> (sum: i64)
    requires
        0 <= sent <= MAX_SENT,
        0 <= troops <= MAX_ATTACK,
    ensures
        sum == (if sent + troops > MAX_SENT {
            MAX_SENT as int
        } else {
            sent + troops
        }),
        0 <= sum <= MAX_SENT,
{
    if sent > MAX_SENT - troops {
        MAX_SENT
    } else {
        sent + troops
    }
}

/// Attacks a bot with no more than it takes.
pub(crate) fn try_send_nation_bot_attack(
    game: &mut Game,
    attacker_small_id: u16,
    target_small_id: u16,
    percent: u32,
    bot_attack_troops_sent: &mut i64,
    difficulty: Difficulty,
) -> (sent: bool)
    requires
        old(game).wf(),
        percent <= 100,
        0 <= *old(bot_attack_troops_sent) <= MAX_SENT,
    ensures
        final(game).wf(),
        0 <= *final(bot_attack_troops_sent) <= MAX_SENT,
        forall|c: Campaign|
            #![trigger c.attacking_bot(attacker_small_id, target_small_id, percent as int, difficulty)]
            c.mind.game == old(game)@ && c.sent == *old(bot_attack_troops_sent)
                ==> c.attacking_bot(
                attacker_small_id,
                target_small_id,
                percent as int,
                difficulty,
            ) == (
                Campaign {
                    mind: Mind { game: final(game)@, ..c.mind },
                    sent: *final(bot_attack_troops_sent) as int,
                },
                sent,
            ),
{
    let wanted: i64 = match nation_bot_attack_troops(
        game,
        attacker_small_id,
        target_small_id,
        percent,
        *bot_attack_troops_sent,
        difficulty,
    ) {
        Some(wanted) => wanted,
        None => {
            return false;
        },
    };
    let troops: i64 = match cap_player_attack_troops(
        game,
        attacker_small_id,
        target_small_id,
        wanted,
    ) {
        Some(troops) => troops,
        None => {
            return false;
        },
    };
    if game.shares_land_border_with(attacker_small_id, target_small_id) {
        let target_id: String = match game.player_by_small_id(target_small_id) {
            Some(p) => p.id.clone(),
            None => {
                return false;
            },
        };
        game.add_land_attack(attacker_small_id, Some(target_id), troops);
        *bot_attack_troops_sent = count_sent(*bot_attack_troops_sent, troops);
        return true;
    }
    if send_boat_attack_to_player(game, attacker_small_id, target_small_id, troops) {
        *bot_attack_troops_sent = count_sent(*bot_attack_troops_sent, troops);
        return true;
    }
    false
}

fn try_send_land_attack(
    game: &mut Game,
    random: &mut PseudoRandom,
    attacker_small_id: u16,
    target_small_id: u16,
    reserve_ratio: u32,
    emoji: &mut NationEmojiState,
    voiced: bool,
) -> (sent: bool)
    requires
        old(game).wf(),
        reserve_ratio <= 100,
        old(game)@.has(target_small_id),
    ensures
        final(game).wf(),
        forall|sent_before: int|
            (
                Campaign {
                    mind: mind(*final(game), *final(random), *final(emoji)),
                    sent: sent_before,
                },
                sent,
            ) == (#[trigger] (Campaign {
                mind: mind(*old(game), *old(random), *old(emoji)),
                sent: sent_before,
            }).attacking_by_land(
                attacker_small_id,
                target_small_id,
                reserve_ratio as int,
                voiced,
            )),
{
    let target_id: String = match game.player_by_small_id(target_small_id) {
        Some(p) => p.id.clone(),
        None => {
            return false;
        },
    };
    let wanted: i64 = match land_attack_troops(game, attacker_small_id, reserve_ratio) {
        Some(wanted) => wanted,
        None => {
            return false;
        },
    };
    let troops: i64 = match cap_player_attack_troops(
        game,
        attacker_small_id,
        target_small_id,
        wanted,
    ) {
        Some(troops) => troops,
        None => {
            return false;
        },
    };
    if voiced && game.is_of_type(attacker_small_id, PlayerType::Nation) && game.is_of_type(
        target_small_id,
        PlayerType::Human,
    ) {
        maybe_send_attack_emoji(game, random, attacker_small_id, emoji, target_small_id);
    }
    game.add_land_attack(attacker_small_id, Some(target_id), troops);
    true
}

/// Attacks a player where the attacker is willing to and can spare the troops.
pub fn try_send_player_attack(
    game: &mut Game,
    random: &mut PseudoRandom,
    attacker_small_id: u16,
    target_small_id: u16,
    reserve_ratio: u32,
    expand_ratio: u32,
    bot_attack_troops_sent: &mut i64,
    difficulty: Difficulty,
    emoji: &mut NationEmojiState,
    voiced: bool,
) -> (sent: bool)
    requires
        old(game).wf(),
        reserve_ratio <= 100,
        expand_ratio <= 100,
        0 <= *old(bot_attack_troops_sent) <= MAX_SENT,
    ensures
        final(game).wf(),
        0 <= *final(bot_attack_troops_sent) <= MAX_SENT,
        (campaign(*final(game), *final(random), *final(emoji), *final(bot_attack_troops_sent)), sent)
            == campaign(
            *old(game),
            *old(random),
            *old(emoji),
            *old(bot_attack_troops_sent),
        ).attacking(
            attacker_small_id,
            target_small_id,
            reserve_ratio as int,
            expand_ratio as int,
            difficulty,
            voiced,
            false,
        ),
{
    try_send_player_attack_forced(
        game,
        random,
        attacker_small_id,
        target_small_id,
        reserve_ratio,
        expand_ratio,
        bot_attack_troops_sent,
        difficulty,
        emoji,
        voiced,
        false,
    )
}

/// As `try_send_player_attack`; with `force` the attacker is always willing.
pub fn try_send_player_attack_forced(
    game: &mut Game,
    random: &mut PseudoRandom,
    attacker_small_id: u16,
    target_small_id: u16,
    reserve_ratio: u32,
    expand_ratio: u32,
    bot_attack_troops_sent: &mut i64,
    difficulty: Difficulty,
    emoji: &mut NationEmojiState,
    voiced: bool,
    force: bool,
) -> (sent: bool)
    requires
        old(game).wf(),
        reserve_ratio <= 100,
        expand_ratio <= 100,
        0 <= *old(bot_attack_troops_sent) <= MAX_SENT,
    ensures
        final(game).wf(),
        0 <= *final(bot_attack_troops_sent) <= MAX_SENT,
        (campaign(*final(game), *final(random), *final(emoji), *final(bot_attack_troops_sent)), sent)
            == campaign(
            *old(game),
            *old(random),
            *old(emoji),
            *old(bot_attack_troops_sent),
        ).attacking(
            attacker_small_id,
            target_small_id,
            reserve_ratio as int,
            expand_ratio as int,
            difficulty,
            voiced,
            force,
        ),
{
    if !should_attack(game, random, attacker_small_id, target_small_id, force) {
        return false;
    }
    let ghost c = campaign(*game, *random, *emoji, *bot_attack_troops_sent);
    if game.is_of_type(target_small_id, PlayerType::Bot) && !game.is_of_type(
        attacker_small_id,
        PlayerType::Bot,
    ) {
        let percent: u32 = if game.structures_of_player(target_small_id).len() > 0 {
            expand_ratio
        } else {
            reserve_ratio
        };
        let sent = try_send_nation_bot_attack(
            game,
            attacker_small_id,
            target_small_id,
            percent,
            bot_attack_troops_sent,
            difficulty,
        );
        assert(c.attacking_bot(attacker_small_id, target_small_id, percent as int, difficulty).1
            == sent);
        return sent;
    }
    if game.shares_land_border_with(attacker_small_id, target_small_id) {
        if game.player_by_small_id(target_small_id).is_none() {
            return false;
        }
        let sent = try_send_land_attack(
            game,
            random,
            attacker_small_id,
            target_small_id,
            reserve_ratio,
            emoji,
            voiced,
        );
        assert(c.attacking_by_land(
            attacker_small_id,
            target_small_id,
            reserve_ratio as int,
            voiced,
        ) == (campaign(*game, *random, *emoji, *bot_attack_troops_sent), sent));
        return sent;
    }
    let wanted: i64 = game.troops_of(attacker_small_id) * BOAT_SHARE;
    match cap_player_attack_troops(game, attacker_small_id, target_small_id, wanted) {
        Some(troops) => send_boat_attack_to_player(
            game,
            attacker_small_id,
            target_small_id,
            troops,
        ),
        None => false,
    }
}

} // verus!
