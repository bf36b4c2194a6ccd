//! Whom nations and tribes attack.

use vstd::prelude::*;

use crate::ai_attack::{
    bordering_enemies_by_troops, bordering_friends_by_troops, has_land_border_tn, has_non_nuked_tn,
    has_shore_reachable_tn, is_bordering_nuked_territory, nearby_player_small_ids,
    nearby_players_in_order,
};
use crate::ai_forces::{
    campaign, cap_player_attack_troops, has_reserve_ratio, has_trigger_ratio, landing_shore,
    retain_percent, send_boat_attack_to_player, send_tn_attack, strongest_of, try_send_nation_bot_attack,
    try_send_player_attack, try_send_player_attack_forced, Campaign, BOAT_SHARE, MAX_SENT,
};
use crate::config::{Difficulty, GameMode, TROOP_SCALE};
use crate::game::{Game, GameView};
use crate::nation_alliance::{maybe_betray, maybe_send_alliance_requests};
use crate::nation_emoji::{mind, EmojiView, Mind, NationEmojiState};
use crate::ordered_tiles::TileRef;
use crate::prng::PseudoRandom;
use crate::state::{PlayerType, Relation};

verus! {

/// How far from its shore a nation looks for a place to land.
pub const BOAT_REACH: i32 = 150;

/// How many places a nation looks at.
pub const BOAT_TRIES: u32 = 500;

/// A way in which a nation picks whom to attack.
#[derive(Clone, Copy, PartialEq, Eq, Structural)]
pub enum Strategy {
    Nuked,
    Bots,
    Retaliate,
    Betray,
    Hated,
    Afk,
    Traitor,
    VeryWeak,
    Victim,
    Weakest,
    Island,
}

/// Who attacks, and with which shares of its troop limit, in percent.
#[derive(Clone, Copy)]
pub struct Stance {
    pub sid: u16,
    pub trigger: u32,
    pub reserve: u32,
    pub expand: u32,
    pub difficulty: Difficulty,
    pub voiced: bool,
}

impl Stance {
    pub open spec fn wf(self) -> bool {
        self.trigger <= 100 && self.reserve <= 100 && self.expand <= 100
    }
}

/// The order in which a nation goes through its strategies.
pub open spec fn plan_of(difficulty: Difficulty) -> Seq<Strategy> {
    match difficulty {
        Difficulty::Easy => seq![
            Strategy::Nuked,
            Strategy::Bots,
            Strategy::Retaliate,
            Strategy::Betray,
            Strategy::Hated,
            Strategy::Weakest,
        ],
        Difficulty::Medium => seq![
            Strategy::Bots,
            Strategy::Nuked,
            Strategy::Retaliate,
            Strategy::Betray,
            Strategy::Hated,
            Strategy::Afk,
            Strategy::Traitor,
            Strategy::Weakest,
            Strategy::Island,
        ],
        Difficulty::Hard => seq![
            Strategy::Bots,
            Strategy::Retaliate,
            Strategy::Betray,
            Strategy::Nuked,
            Strategy::Traitor,
            Strategy::Afk,
            Strategy::Hated,
            Strategy::VeryWeak,
            Strategy::Victim,
            Strategy::Weakest,
            Strategy::Island,
        ],
        _ => seq![
            Strategy::Retaliate,
            Strategy::Bots,
            Strategy::VeryWeak,
            Strategy::Traitor,
            Strategy::Afk,
            Strategy::Betray,
            Strategy::Victim,
            Strategy::Nuked,
            Strategy::Hated,
            Strategy::Weakest,
            Strategy::Island,
        ],
    }
}

/// How many bots a nation attacks at once, and the random state after it chose.
pub open spec fn parallelism(rng: u64, difficulty: Difficulty) -> (int, u64) {
    match difficulty {
        Difficulty::Easy => (1, rng),
        Difficulty::Medium => (
            if crate::prng::chance_drawn(rng, 2) {
                1
            } else {
                2
            },
            crate::prng::next_state(rng),
        ),
        Difficulty::Hard => (3, rng),
        Difficulty::Impossible => (100, rng),
        Difficulty::Other => (2, rng),
    }
}

/// A player's world in which it sends no emojis.
pub open spec fn silent(game: GameView, rng: u64) -> Mind {
    Mind { game, rng, emoji: EmojiView { last: Map::empty(), over: false } }
}

impl GameView {
    pub open spec fn settled(self, sid: u16) -> bool {
        self.structures_of(sid).len() > 0
    }

    /// Bots that hold structures.
    pub open spec fn settled_bot(self) -> spec_fn(u16) -> bool {
        |id: u16| self.of_type(id, PlayerType::Bot) && self.settled(id)
    }

    /// Bots that `sid` may attack.
    pub open spec fn hostile_bot(self, sid: u16) -> spec_fn(u16) -> bool {
        |id: u16| self.of_type(id, PlayerType::Bot) && !self.is_friendly(sid, id)
    }

    /// The tiles of a player as a divisor.
    pub open spec fn spread(self, sid: u16) -> int {
        if self.tiles_owned(sid) > 1 {
            self.tiles_owned(sid)
        } else {
            1
        }
    }

    /// Bots with structures come first, then those with the fewest troops to a tile.
    pub open spec fn easier(self) -> spec_fn(u16, u16) -> bool {
        |a: u16, b: u16|
            if self.settled(a) != self.settled(b) {
                self.settled(a)
            } else {
                self.troops(a) * self.spread(b) < self.troops(b) * self.spread(a)
            }
    }

    /// Those whom `sid` hates and who are not far stronger.
    pub open spec fn hated_by(self, sid: u16) -> spec_fn(u16) -> bool {
        |id: u16|
            self.relation(sid, id) == Relation::Hostile && !self.is_friendly(sid, id) && !(
            !self.config.is_team() && self.troops(id) > self.troops(sid) * 3)
    }

    /// Those who left the game and are not far stronger than `sid`.
    pub open spec fn deserted(self, sid: u16) -> spec_fn(u16) -> bool {
        |id: u16|
            self.has(id) && self.player(id).is_disconnected && !(!self.config.is_team()
                && self.troops(id) >= self.troops(sid) * 3)
    }

    /// Traitors that are not much stronger than `sid`.
    pub open spec fn outlaw(self, sid: u16) -> spec_fn(u16) -> bool {
        |id: u16|
            self.is_traitor(id) && !(!self.config.is_team() && self.troops(id) >= (self.troops(sid)
                * 6) / 5)
    }

    /// Those with less than 15 percent of their troop limit.
    pub open spec fn feeble(self, sid: u16) -> spec_fn(u16) -> bool {
        |id: u16|
            self.has(id) && self.troops(id) * TROOP_SCALE < self.max_troops_milli(id) * 15 && (
            self.config.is_team() || self.troops(id) * 10 < self.troops(sid) * 12)
    }

    /// Those who are under attack by more than half of their troops.
    pub open spec fn beset(self, sid: u16) -> spec_fn(u16) -> bool {
        |id: u16|
            self.has(id) && (self.config.is_team() || self.troops(id) * 10 <= self.troops(sid) * 12)
                && crate::game_war::troop_sum(self.incoming(id, false)) * 2 > self.troops(id)
                * TROOP_SCALE
    }

    /// Friends that `sid` stands to gain by betraying.
    pub open spec fn betrayable(self, sid: u16, count: int) -> spec_fn(u16) -> bool {
        |id: u16| self.betrays(sid, id, count)
    }

    /// Traitors that `sid` is not friends with.
    pub open spec fn unfriendly_traitor(self, sid: u16) -> spec_fn(u16) -> bool {
        |id: u16| !self.is_friendly(sid, id) && self.is_traitor(id)
    }

    /// The player that a strategy picks out of those at the border.
    pub open spec fn target(self, strategy: Strategy, sid: u16, bordering: Seq<u16>) -> Option<u16> {
        match strategy {
            Strategy::Hated => if self.has(sid) {
                crate::lists::first_where(self.relations_sorted(sid), self.hated_by(sid))
            } else {
                None
            },
            Strategy::Afk => crate::lists::first_where(bordering, self.deserted(sid)),
            Strategy::Traitor => crate::lists::first_where(bordering, self.outlaw(sid)),
            Strategy::VeryWeak => crate::lists::first_where(bordering, self.feeble(sid)),
            Strategy::Victim => crate::lists::first_where(bordering, self.beset(sid)),
            Strategy::Weakest => if bordering.len() > 0 && self.troops(bordering[0]) < self.troops(
                sid,
            ) {
                Some(bordering[0])
            } else {
                None
            },
            _ => None,
        }
    }

    /// The tile in the middle of a player's land.
    pub open spec fn center(self, sid: u16) -> Option<TileRef> {
        match self.map.bbox(self.border(sid)) {
            Some(b) => Some(self.map.middle(b)),
            None => None,
        }
    }

    /// Those whom `sid` may attack over the water.
    pub open spec fn rival(self, sid: u16) -> spec_fn(u16) -> bool {
        |id: u16|
            id != sid && self.is_alive(id) && !self.is_friendly(sid, id) && (self.config.is_team()
                || self.troops(id) < self.troops(sid)) && self.center(id) is Some
    }

    /// Players with how far their middle is from `t`.
    pub open spec fn by_distance(self, t: TileRef) -> spec_fn(u16) -> (i64, u16) {
        |id: u16| (self.map.manhattan(t, self.center(id)->0) as i64, id)
    }

    /// Those whose shore a boat of `sid` can reach.
    pub open spec fn landable(self, sid: u16) -> spec_fn(u16) -> bool {
        |id: u16| self.landing(sid, id) is Some
    }

    /// The rivals whose shore a boat of `sid` can reach, nearest first.
    pub open spec fn islanders(self, sid: u16) -> Seq<u16> {
        crate::lists::payloads(
            crate::lists::sort_by_key(
                self.ids().filter(self.rival(sid)).map_values(self.by_distance(self.center(sid)->0)),
            ),
        ).filter(self.landable(sid))
    }

    /// The rival over the water that `sid` picks, and the random state after that. One
    /// time in three it is the second nearest.
    pub open spec fn island_target(self, rng: u64, sid: u16) -> (Option<u16>, u64) {
        if !self.may_ship(sid) || self.shores(sid).len() == 0 || self.center(sid) is None {
            (None, rng)
        } else if self.islanders(sid).len() == 0 {
            (None, rng)
        } else if self.islanders(sid).len() == 1 {
            (Some(self.islanders(sid)[0]), rng)
        } else if crate::prng::chance_drawn(rng, 3) {
            (Some(self.islanders(sid)[1]), crate::prng::next_state(rng))
        } else {
            (Some(self.islanders(sid)[0]), crate::prng::next_state(rng))
        }
    }

    /// The scaled troops of a boat that is sent to a random place.
    pub open spec fn random_boat_troops(self, sid: u16, target: u16) -> int {
        let base = self.troops(sid) * BOAT_SHARE;
        let strongest = self.strongest(sid, self.near_in_order(sid));
        let retained = (strongest * crate::ai_forces::retained_percent(self.config.difficulty) + 99)
            / 100;
        let spare = if self.troops(sid) > retained {
            (self.troops(sid) - retained) * TROOP_SCALE
        } else {
            0
        };
        let kept = if strongest > 0 && spare < base {
            spare
        } else {
            base
        };
        let incoming = crate::game_war::troop_sum(self.incoming(sid, false));
        let answer = if incoming < base {
            incoming
        } else {
            base
        };
        if !self.has(sid) {
            0
        } else if target == 0 || !self.is_careful(sid) {
            base
        } else if incoming > 0 {
            if answer > kept {
                answer
            } else {
                kept
            }
        } else if self.has(target) && kept * 5 < self.troops(target) * TROOP_SCALE {
            0
        } else {
            kept
        }
    }

    /// Whether a nation would land at a tile. At first it looks for free land and bots.
    pub open spec fn worth_landing(
        self,
        sid: u16,
        t: TileRef,
        eager: bool,
        avoided: Seq<u16>,
        bordering: Seq<u16>,
    ) -> bool {
        let owner = self.map.owner(t);
        &&& self.map.is_land(t)
        &&& owner != sid
        &&& owner != 0 ==> !avoided.contains(owner) && !bordering.contains(owner)
        &&& owner != 0 && !self.config.is_team() && self.has(owner) && self.has(sid)
            ==> self.troops(owner) <= self.troops(sid)
        &&& if eager {
            owner == 0 || self.of_type(owner, PlayerType::Bot)
        } else {
            owner == 0 || !self.is_friendly(sid, owner)
        }
    }

    /// The place to land that a nation finds in `tries` tries, and the random state after
    /// that. Owners whose land no boat reaches are not tried again.
    pub open spec fn place_to_land(
        self,
        rng: u64,
        sid: u16,
        src: TileRef,
        eager: bool,
        avoided: Seq<u16>,
        bordering: Seq<u16>,
        tries: nat,
    ) -> (Option<TileRef>, u64)
        decreases tries,
    {
        if tries == 0 {
            (None, rng)
        } else {
            let (x, y) = (self.map.x(src), self.map.y(src));
            let rx = crate::prng::int_drawn(rng, x - BOAT_REACH, x + BOAT_REACH);
            let rng1 = crate::prng::next_state(rng);
            let ry = crate::prng::int_drawn(rng1, y - BOAT_REACH, y + BOAT_REACH);
            let rng2 = crate::prng::next_state(rng1);
            let left = (tries - 1) as nat;
            let t = self.map.at(rx, ry);
            if !self.map.valid_coord(rx, ry) || !self.worth_landing(sid, t, eager, avoided, bordering) {
                self.place_to_land(rng2, sid, src, eager, avoided, bordering, left)
            } else if self.boat_source(sid, t) is Some {
                (Some(t), rng2)
            } else if self.map.owner(t) != 0 {
                self.place_to_land(
                    rng2,
                    sid,
                    src,
                    eager,
                    avoided.push(self.map.owner(t)),
                    bordering,
                    left,
                )
            } else {
                self.place_to_land(rng2, sid, src, eager, avoided, bordering, left)
            }
        }
    }

    /// The place to land that a nation finds, looking eagerly first.
    pub open spec fn any_place_to_land(
        self,
        rng: u64,
        sid: u16,
        src: TileRef,
        bordering: Seq<u16>,
    ) -> (Option<TileRef>, u64) {
        let first = self.place_to_land(
            rng,
            sid,
            src,
            true,
            Seq::empty(),
            bordering,
            BOAT_TRIES as nat,
        );
        if first.0 is Some {
            first
        } else {
            self.place_to_land(
                first.1,
                sid,
                src,
                false,
                Seq::empty(),
                bordering,
                BOAT_TRIES as nat,
            )
        }
    }

    /// The game after a nation tried to send a boat to a random place near one of its
    /// shores, the random state after that, and whether it sent one.
    pub open spec fn boating_randomly(self, rng: u64, sid: u16, bordering: Seq<u16>) -> (
        GameView,
        u64,
        bool,
    ) {
        let shores = self.shores(sid);
        let src = shores[crate::prng::int_drawn(rng, 0, shores.len() as int)];
        let (place, rng1) = self.any_place_to_land(
            crate::prng::next_state(rng),
            sid,
            src,
            bordering,
        );
        if !self.may_ship(sid) || shores.len() == 0 {
            (self, rng, false)
        } else {
            match place {
                Some(t) => {
                    let troops = self.random_boat_troops(sid, self.map.owner(t));
                    if troops < TROOP_SCALE {
                        (self, rng1, false)
                    } else {
                        (self.shipping(sid, t, troops), rng1, true)
                    }
                },
                None => if bordering.len() == 0 {
                    (self, rng1, false)
                } else {
                    let target = bordering[crate::prng::int_drawn(rng1, 0, bordering.len() as int)];
                    match self.capped(sid, target, self.troops(sid) * BOAT_SHARE) {
                        Some(troops) => {
                            let (after, sent) = self.boating(sid, target, troops);
                            (after, crate::prng::next_state(rng1), sent)
                        },
                        None => (self, crate::prng::next_state(rng1), false),
                    }
                },
            }
        }
    }
}

impl Campaign {
    /// After `s.sid` attacked those of `targets` that it could, and whether there were any.
    pub open spec fn striking(self, s: Stance, targets: Seq<u16>) -> (Campaign, bool)
        decreases targets.len(),
    {
        if targets.len() == 0 {
            (self, false)
        } else {
            let (c, before) = self.striking(s, targets.drop_last());
            let t = targets.last();
            let (after, sent) = c.attacking_bot(
                s.sid,
                t,
                if c.mind.game.settled(t) {
                    s.expand as int
                } else {
                    s.reserve as int
                },
                s.difficulty,
            );
            (after, before || sent)
        }
    }

    /// After `s.sid` attacked the bots around it, and whether it did.
    pub open spec fn attacking_bots(self, s: Stance) -> (Campaign, bool) {
        let game = self.mind.game;
        let bots = game.near_in_order(s.sid).filter(game.hostile_bot(s.sid));
        let sorted = crate::lists::sort_with(bots, game.easier());
        let (n, rng) = parallelism(self.mind.rng, s.difficulty);
        if bots.len() == 0 {
            (self, false)
        } else {
            Campaign { mind: Mind { rng, ..self.mind }, sent: 0 }.striking(
                s,
                sorted.take(
                    if n < sorted.len() {
                        n
                    } else {
                        sorted.len() as int
                    },
                ),
            )
        }
    }

    /// `attacking` with what `s` holds.
    pub open spec fn engaging(self, s: Stance, target: u16, force: bool) -> (Campaign, bool) {
        self.attacking(
            s.sid,
            target,
            s.reserve as int,
            s.expand as int,
            s.difficulty,
            s.voiced,
            force,
        )
    }

    pub open spec fn engaging_any(self, s: Stance, target: Option<u16>, force: bool) -> (
        Campaign,
        bool,
    ) {
        match target {
            Some(t) => self.engaging(s, t, force),
            None => (self, false),
        }
    }

    /// After a nation tried one strategy, and whether it attacked.
    pub open spec fn trying(self, s: Stance, strategy: Strategy, bordering: Seq<u16>) -> (
        Campaign,
        bool,
    ) {
        let game = self.mind.game;
        match strategy {
            Strategy::Nuked => if game.borders_nuked_land(s.sid) {
                let (after, sent) = game.expanding(s.sid, s.expand as int);
                (self.in_game(after), sent)
            } else {
                (self, false)
            },
            Strategy::Bots => self.attacking_bots(s),
            Strategy::Retaliate => self.engaging_any(s, game.main_attacker(s.sid), true),
            Strategy::Betray => {
                let friends = game.bordering_friends(s.sid);
                let count = bordering.len() + friends.len();
                match crate::lists::first_where(friends, game.betrayable(s.sid, count as int)) {
                    Some(friend) => self.in_game(game.betraying(s.sid, friend)).engaging(
                        s,
                        friend,
                        true,
                    ),
                    None => (self, false),
                }
            },
            Strategy::Island => if bordering.len() > 0 {
                (self, false)
            } else {
                let (target, rng) = game.island_target(self.mind.rng, s.sid);
                Campaign { mind: Mind { rng, ..self.mind }, ..self }.engaging_any(s, target, false)
            },
            _ => self.engaging_any(s, game.target(strategy, s.sid, bordering), false),
        }
    }

    /// Whether a strategy is the last that the nation tries.
    pub open spec fn settles(self, s: Stance, strategy: Strategy) -> bool {
        strategy == Strategy::Retaliate && self.mind.game.main_attacker(s.sid) is Some
    }

    /// After a nation went through `plan` up to the strategy by which it attacked, and
    /// whether it attacked. Under attack it answers that attack and tries nothing else.
    pub open spec fn following(self, s: Stance, plan: Seq<Strategy>, bordering: Seq<u16>) -> (
        Campaign,
        bool,
    )
        decreases plan.len(),
    {
        if plan.len() == 0 {
            (self, false)
        } else {
            let (after, sent) = self.trying(s, plan[0], bordering);
            if sent || self.settles(s, plan[0]) {
                (after, sent)
            } else {
                after.following(s, plan.skip(1), bordering)
            }
        }
    }

    /// After a nation that has its reserve went through its plan. Below its trigger it
    /// does so one time in ten.
    pub open spec fn committing(self, s: Stance, bordering: Seq<u16>) -> (Campaign, bool) {
        let game = self.mind.game;
        let rng = crate::prng::next_state(self.mind.rng);
        if !game.holds_ratio(s.sid, s.reserve as int) {
            (self, false)
        } else if game.holds_ratio(s.sid, s.trigger as int) {
            self.following(s, plan_of(s.difficulty), bordering)
        } else if crate::prng::chance_drawn(self.mind.rng, 10) {
            Campaign { mind: Mind { rng, ..self.mind }, ..self }.following(
                s,
                plan_of(s.difficulty),
                bordering,
            )
        } else {
            (Campaign { mind: Mind { rng, ..self.mind }, ..self }, false)
        }
    }

    /// After a nation attacked the best target it has, and whether it attacked. Bots with
    /// structures nearby come before everything else.
    pub open spec fn attacking_best(self, s: Stance, bordering: Seq<u16>) -> (Campaign, bool) {
        let game = self.mind.game;
        if crate::lists::some_where(game.near_ids(s.sid), game.settled_bot()) {
            let (c, sent) = self.attacking_bots(s);
            if sent {
                (c, true)
            } else {
                c.committing(s, bordering)
            }
        } else {
            self.committing(s, bordering)
        }
    }

    /// After a nation tried to send a boat to a random place.
    pub open spec fn boating_randomly(self, sid: u16, bordering: Seq<u16>) -> Campaign {
        let (game, rng, sent) = self.mind.game.boating_randomly(self.mind.rng, sid, bordering);
        Campaign { mind: Mind { game, rng, ..self.mind }, ..self }
    }

    /// After a nation sought allies among `bordering` and attacked its best target.
    pub open spec fn seeking(self, s: Stance, bordering: Seq<u16>) -> Campaign {
        let m = if s.voiced && bordering.len() > 0 && !self.mind.game.config.disable_alliances {
            self.mind.courting(s.sid, bordering)
        } else {
            self.mind
        };
        Campaign { mind: m, ..self }.attacking_best(s, bordering).0
    }

    /// After a nation that takes no free land had a turn.
    pub open spec fn campaigning(self, s: Stance) -> Campaign {
        let bordering = self.mind.game.bordering_enemies(s.sid);
        let c = Campaign {
            mind: Mind { rng: crate::prng::next_state(self.mind.rng), ..self.mind },
            ..self
        };
        if bordering.len() == 0 {
            if crate::prng::chance_drawn(self.mind.rng, 5) {
                c.boating_randomly(s.sid, bordering).seeking(s, bordering)
            } else {
                c.seeking(s, bordering)
            }
        } else if crate::prng::chance_drawn(self.mind.rng, 10) {
            c.boating_randomly(s.sid, bordering)
        } else {
            c.seeking(s, bordering)
        }
    }

    /// After a nation had a turn to attack: free land first, then others.
    pub open spec fn waging(self, s: Stance) -> Campaign {
        let game = self.mind.game;
        if game.borders_free_land(s.sid) || game.sees_free_land(s.sid) {
            let (after, sent) = game.expanding(s.sid, s.expand as int);
            if sent {
                self.in_game(after)
            } else {
                self.in_game(after).campaigning(s)
            }
        } else {
            self.campaigning(s)
        }
    }

    /// After a tribe tried, one time in three, to attack a traitor nearby, and whether it
    /// did; `breaking` ends an alliance first.
    pub open spec fn punishing(self, s: Stance, breaking: bool) -> (Campaign, bool) {
        let game = self.mind.game;
        if game.config.disable_alliances {
            (self, false)
        } else {
            let (traitor, rng) = crate::prng::element_drawn(
                self.mind.rng,
                game.near_in_order(s.sid).filter(game.unfriendly_traitor(s.sid)),
            );
            match traitor {
                None => (self, false),
                Some(t) => {
                    let c = Campaign {
                        mind: Mind { rng: crate::prng::next_state(rng), ..self.mind },
                        ..self
                    };
                    if !crate::prng::chance_drawn(rng, 3) {
                        (c, false)
                    } else if breaking {
                        c.in_game(game.betraying(s.sid, t)).engaging(s, t, false)
                    } else {
                        c.engaging(s, t, false)
                    }
                },
            }
        }
    }

    /// After a tribe went through `targets` until it attacked one. Nations and humans are
    /// passed over half of the time.
    pub open spec fn raiding(self, s: Stance, targets: Seq<u16>) -> Campaign
        decreases targets.len(),
    {
        if targets.len() == 0 {
            self
        } else {
            let game = self.mind.game;
            let t = targets[0];
            let rest = targets.skip(1);
            let picky = game.of_type(t, PlayerType::Nation) || game.of_type(t, PlayerType::Human);
            let c = Campaign {
                mind: Mind {
                    rng: if picky {
                        crate::prng::next_state(self.mind.rng)
                    } else {
                        self.mind.rng
                    },
                    ..self.mind
                },
                ..self
            };
            if !game.has(t) || game.is_friendly(s.sid, t) {
                self.raiding(s, rest)
            } else if picky && crate::prng::chance_drawn(self.mind.rng, 2) {
                c.raiding(s, rest)
            } else {
                let (after, sent) = c.engaging(s, t, false);
                if sent {
                    after
                } else {
                    after.raiding(s, rest)
                }
            }
        }
    }

    /// After a tribe above its trigger answered an attack, punished a traitor or raided a
    /// neighbour, whichever came first.
    pub open spec fn lashing_out(self, s: Stance) -> Campaign {
        let (c, sent) = self.engaging_any(s, self.mind.game.main_attacker(s.sid), true);
        if sent {
            c
        } else {
            let (c, sent) = c.punishing(s, false);
            if sent {
                c
            } else {
                let (targets, rng) = crate::prng::shuffled(
                    c.mind.rng,
                    c.mind.game.near_in_order(s.sid),
                );
                Campaign { mind: Mind { rng, ..c.mind }, ..c }.raiding(s, targets)
            }
        }
    }

    /// After a tribe that punishes no traitor had its turn; whether it still has free land
    /// nearby is given and returned.
    pub open spec fn settling(self, s: Stance, frontier: bool) -> (Campaign, bool) {
        let game = self.mind.game;
        let free = game.borders_free_land(s.sid) || game.sees_free_land(s.sid);
        let (after, sent) = game.expanding(s.sid, s.expand as int);
        let c = if frontier && free {
            self.in_game(after)
        } else {
            self
        };
        if frontier && free && sent {
            (c, frontier)
        } else if !c.mind.game.holds_ratio(s.sid, s.trigger as int) {
            (c, frontier && free)
        } else {
            (c.lashing_out(s), frontier && free)
        }
    }

    /// After a tribe had its turn to attack.
    pub open spec fn roaming(self, s: Stance, frontier: bool) -> (Campaign, bool) {
        let (c, sent) = self.punishing(s, true);
        if sent {
            (c, frontier)
        } else {
            c.settling(s, frontier)
        }
    }
}

/// Whether a player holds structures.
fn player_has_structure_units(game: &Game, small_id: u16) -> (has: bool)
    requires
        game@.wf(),
    ensures
        has == game@.settled(small_id),
{
    game.structures_of_player(small_id).len() > 0
}

fn has_neighboring_bot_with_structures(game: &Game, small_id: u16) -> (has: bool)
    requires
        game@.wf(),
    ensures
        has == crate::lists::some_where(game@.near_ids(small_id), game@.settled_bot()),
{
    let ids = nearby_player_small_ids(game, small_id);
    let accepts = |id: u16| -> (bot: bool)
        ensures
            bot == (game@.of_type(id, PlayerType::Bot) && game@.settled(id)),
        { game.is_of_type(id, PlayerType::Bot) && player_has_structure_units(game, id) };
    crate::lists::any_by(&ids, accepts, Ghost(game@.settled_bot()))
}

/// The player with the largest attack on this one.
pub(crate) fn find_incoming_attacker(game: &Game, small_id: u16) -> (attacker: Option<u16>)
    requires
        game@.wf(),
    ensures
        attacker == game@.main_attacker(small_id),
{
    game.find_incoming_land_attacker(small_id)
}

fn find_victim(game: &Game, attacker_small_id: u16, bordering: &Vec<u16>) -> (victim: Option<u16>)
    requires
        game@.wf(),
    ensures
        victim == crate::lists::first_where(bordering@, game@.beset(attacker_small_id)),
{
    let team = game.wire.game_mode == GameMode::Team;
    let own: i64 = game.troops_of(attacker_small_id);
    let accepts = |id: u16| -> (beset: bool)
        ensures
            beset == (game@.has(id) && (game@.config.is_team() || game@.troops(id) * 10
                <= game@.troops(attacker_small_id) * 12) && crate::game_war::troop_sum(
                game@.incoming(id, false),
            ) * 2 > game@.troops(id) * TROOP_SCALE),
        {
            if game.player_by_small_id(id).is_none() {
                false
            } else {
                let troops: i64 = game.troops_of(id);
                (team || troops * 10 <= own * 12) && game.incoming_land_troops(id) * 2 > (troops
                    * TROOP_SCALE) as i128
            }
        };
    crate::lists::find_by(bordering, accepts, Ghost(game@.beset(attacker_small_id)))
}

fn find_very_weak_enemy(game: &Game, attacker_small_id: u16, bordering: &Vec<u16>) -> (weak: Option<
    u16,
>)
    requires
        game@.wf(),
    ensures
        weak == crate::lists::first_where(bordering@, game@.feeble(attacker_small_id)),
{
    let team = game.wire.game_mode == GameMode::Team;
    let own: i64 = game.troops_of(attacker_small_id);
    let accepts = |id: u16| -> (feeble: bool)
        ensures
            feeble == (game@.has(id) && game@.troops(id) * TROOP_SCALE < game@.max_troops_milli(id)
                * 15 && (game@.config.is_team() || game@.troops(id) * 10 < game@.troops(
                attacker_small_id,
            ) * 12)),
        {
            if game.player_by_small_id(id).is_none() {
                false
            } else {
                let troops: i64 = game.troops_of(id);
                troops * TROOP_SCALE < game.max_troops_for(id) * 15 && (team || troops * 10 < own
                    * 12)
            }
        };
    crate::lists::find_by(bordering, accepts, Ghost(game@.feeble(attacker_small_id)))
}

fn find_hated(game: &Game, sid: u16) -> (hated: Option<u16>)
    requires
        game@.wf(),
    ensures
        hated == crate::lists::first_where(game@.relations_sorted(sid), game@.hated_by(sid)),
{
    let others = game.all_relations_sorted(sid);
    let team = game.wire.game_mode == GameMode::Team;
    let own: i64 = game.troops_of(sid);
    let accepts = |id: u16| -> (hated: bool)
        ensures
            hated == (game@.relation(sid, id) == Relation::Hostile && !game@.is_friendly(sid, id)
                && !(!game@.config.is_team() && game@.troops(id) > game@.troops(sid) * 3)),
        {
            game.relation(sid, id) == Relation::Hostile && !game.is_friendly(sid, id) && (team
                || game.troops_of(id) <= own * 3)
        };
    crate::lists::find_by(&others, accepts, Ghost(game@.hated_by(sid)))
}

fn find_afk(game: &Game, sid: u16, bordering: &Vec<u16>) -> (afk: Option<u16>)
    requires
        game@.wf(),
    ensures
        afk == crate::lists::first_where(bordering@, game@.deserted(sid)),
{
    let team = game.wire.game_mode == GameMode::Team;
    let own: i64 = game.troops_of(sid);
    let accepts = |id: u16| -> (deserted: bool)
        ensures
            deserted == (game@.has(id) && game@.player(id).is_disconnected && !(
            !game@.config.is_team() && game@.troops(id) >= game@.troops(sid) * 3)),
        {
            match game.player_by_small_id(id) {
                Some(p) => p.is_disconnected && (team || game.troops_of(id) < own * 3),
                None => false,
            }
        };
    crate::lists::find_by(bordering, accepts, Ghost(game@.deserted(sid)))
}

fn find_traitor(game: &Game, sid: u16, bordering: &Vec<u16>) -> (traitor: Option<u16>)
    requires
        game@.wf(),
    ensures
        traitor == crate::lists::first_where(bordering@, game@.outlaw(sid)),
{
    let team = game.wire.game_mode == GameMode::Team;
    let own: i64 = game.troops_of(sid);
    let accepts = |id: u16| -> (outlaw: bool)
        ensures
            outlaw == (game@.is_traitor(id) && !(!game@.config.is_team() && game@.troops(id) >= (
            game@.troops(sid) * 6) / 5)),
        { game.is_traitor(id) && (team || game.troops_of(id) < (own * 6) / 5) };
    crate::lists::find_by(bordering, accepts, Ghost(game@.outlaw(sid)))
}

/// The player that a strategy picks.
fn find_target(game: &Game, strategy: Strategy, sid: u16, bordering: &Vec<u16>) -> (target: Option<
    u16,
>)
    requires
        game@.wf(),
    ensures
        target == game@.target(strategy, sid, bordering@),
{
    match strategy {
        Strategy::Hated => if game.player_by_small_id(sid).is_some() {
            find_hated(game, sid)
        } else {
            None
        },
        Strategy::Afk => find_afk(game, sid, bordering),
        Strategy::Traitor => find_traitor(game, sid, bordering),
        Strategy::VeryWeak => find_very_weak_enemy(game, sid, bordering),
        Strategy::Victim => find_victim(game, sid, bordering),
        Strategy::Weakest => if bordering.len() > 0 && game.troops_of(bordering[0])
            < game.troops_of(sid) {
            Some(bordering[0])
        } else {
            None
        },
        _ => None,
    }
}

/// The tile in the middle of a player's land.
pub fn player_center_tile(game: &Game, small_id: u16) -> (center: Option<TileRef>)
    requires
        game@.wf(),
    ensures
        center == game@.center(small_id),
        center is Some ==> game@.map.valid(center->0),
{
    let border = game.border_tiles_for(small_id);
    match game.bounding_box(&border) {
        Some(b) => Some(game.middle_of(b)),
        None => None,
    }
}

/// The rivals that a player can reach by boat, nearest first.
fn reachable_islanders(game: &Game, sid: u16, center: TileRef) -> (ids: Vec<u16>)
    requires
        game@.wf(),
        game@.center(sid) == Some(center),
        game@.map.valid(center),
    ensures
        ids@ == game@.islanders(sid),
{
    let all = game.player_ids();
    let team = game.wire.game_mode == GameMode::Team;
    let own: i64 = game.troops_of(sid);
    let accepts = |id: u16| -> (rival: bool)
        ensures
            rival == (id != sid && game@.is_alive(id) && !game@.is_friendly(sid, id) && (
            game@.config.is_team() || game@.troops(id) < game@.troops(sid)) && game@.center(
                id,
            ) is Some),
        {
            id != sid && game.is_player_alive(id) && !game.is_friendly(sid, id) && (team
                || game.troops_of(id) < own) && player_center_tile(game, id).is_some()
        };
    let rivals = crate::lists::filter_by(&all, accepts, Ghost(game@.rival(sid)));
    let ghost key = game@.by_distance(center);
    let mut keyed: Vec<(i64, u16)> = Vec::new();
    for i in 0..rivals.len()
        invariant
            game@.wf(),
            game@.map.valid(center),
            key == game@.by_distance(center),
            forall|k: int|
                0 <= k < rivals@.len() ==> game@.rival(sid)(#[trigger] rivals@[k]),
            keyed@ == rivals@.take(i as int).map_values(key),
    {
        let id: u16 = rivals[i];
        assert(game@.rival(sid)(rivals@[i as int]));
        let d: u32 = match player_center_tile(game, id) {
            Some(t) => game.map.manhattan_dist(center, t),
            None => 0,
        };
        keyed.push((d as i64, id));
        assert(rivals@.take(i + 1).map_values(key) =~= rivals@.take(i as int).map_values(key).push(
            key(rivals@[i as int]),
        ));
    }
    proof {
        crate::lists::lemma_take_all(rivals@);
    }
    let sorted = crate::lists::sorted_payloads(&keyed);
    let lands = |id: u16| -> (landable: bool)
        ensures
            landable == (game@.landing(sid, id) is Some),
        { landing_shore(game, sid, id).is_some() };
    crate::lists::filter_by(&sorted, lands, Ghost(game@.landable(sid)))
}

/// A rival over the water, the nearest or the second nearest.
fn find_nearest_island_enemy(
    game: &Game,
    random: &mut PseudoRandom,
    attacker_small_id: u16,
) -> (enemy: Option<u16>)
    requires
        game@.wf(),
    ensures
        (enemy, final(random).state) == game@.island_target(old(random).state, attacker_small_id),
{
    if !crate::ai_forces::can_ship(game, attacker_small_id) {
        return None;
    }
    if game.shore_border_tiles(attacker_small_id).len() == 0 {
        return None;
    }
    let center: TileRef = match player_center_tile(game, attacker_small_id) {
        Some(center) => center,
        None => {
            return None;
        },
    };
    let reachable = reachable_islanders(game, attacker_small_id, center);
    if reachable.len() == 0 {
        return None;
    }
    if reachable.len() >= 2 && random.chance(3) {
        Some(reachable[1])
    } else {
        Some(reachable[0])
    }
}

fn bot_attack_max_parallelism(random: &mut PseudoRandom, difficulty: Difficulty) -> (n: usize)
    ensures
        (n as int, final(random).state) == parallelism(old(random).state, difficulty),
{
    match difficulty {
        Difficulty::Easy => 1,
        Difficulty::Medium => if random.chance(2) {
            1
        } else {
            2
        },
        Difficulty::Hard => 3,
        Difficulty::Impossible => 100,
        Difficulty::Other => 2,
    }
}

fn spread_of(game: &Game, sid: u16) -> (tiles: i64)
    requires
        game@.wf(),
    ensures
        tiles == game@.spread(sid),
        1 <= tiles <= 0xfffe_0001,
{
    let tiles: i64 = game.tiles_of(sid);
    if tiles > 1 {
        tiles
    } else {
        1
    }
}

fn is_easier(game: &Game, a: u16, b: u16) -> (easier: bool)
    requires
        game@.wf(),
    ensures
        easier == game@.easier()(a, b),
{
    let settled_a = player_has_structure_units(game, a);
    if settled_a != player_has_structure_units(game, b) {
        return settled_a;
    }
    let ta: i64 = game.troops_of(a);
    let tb: i64 = game.troops_of(b);
    let na: i64 = spread_of(game, a);
    let nb: i64 = spread_of(game, b);
    assert(0 <= ta * nb <= 2_147_483_647 * 0xfffe_0001) by (nonlinear_arith)
        requires
            0 <= ta <= 2_147_483_647,
            0 <= nb <= 0xfffe_0001,
    ;
    assert(0 <= tb * na <= 2_147_483_647 * 0xfffe_0001) by (nonlinear_arith)
        requires
            0 <= tb <= 2_147_483_647,
            0 <= na <= 0xfffe_0001,
    ;
    ta as i128 * (nb as i128) < tb as i128 * (na as i128)
}

/// The bots that a nation attacks, the easiest first.
fn bots_to_attack(game: &Game, sid: u16) -> (bots: Vec<u16>)
    requires
        game@.wf(),
    ensures
        bots@ == crate::lists::sort_with(
            game@.near_in_order(sid).filter(game@.hostile_bot(sid)),
            game@.easier(),
        ),
        (bots@.len() == 0) == (game@.near_in_order(sid).filter(game@.hostile_bot(sid)).len() == 0),
{
    let near = nearby_players_in_order(game, sid);
    let accepts = |id: u16| -> (bot: bool)
        ensures
            bot == (game@.of_type(id, PlayerType::Bot) && !game@.is_friendly(sid, id)),
        { game.is_of_type(id, PlayerType::Bot) && !game.is_friendly(sid, id) };
    let bots = crate::lists::filter_by(&near, accepts, Ghost(game@.hostile_bot(sid)));
    let before = |a: u16, b: u16| -> (easier: bool)
        ensures
            easier == game@.easier()(a, b),
        { is_easier(game, a, b) };
    let sorted = crate::lists::sort_by(&bots, before, Ghost(game@.easier()));
    proof {
        crate::lists::lemma_sort_with_len(bots@, game@.easier());
    }
    sorted
}

/// Attacks the bots around a nation.
fn attack_bots(
    game: &mut Game,
    random: &mut PseudoRandom,
    s: Stance,
    bot_attack_troops_sent: &mut i64,
    emoji: &NationEmojiState,
) -> (sent: bool)
    requires
        old(game).wf(),
        s.wf(),
        0 <= *old(bot_attack_troops_sent) <= MAX_SENT,
    ensures
        final(game).wf(),
        0 <= *final(bot_attack_troops_sent) <= MAX_SENT,
        (campaign(*final(game), *final(random), *emoji, *final(bot_attack_troops_sent)), sent)
            == campaign(*old(game), *old(random), *emoji, *old(bot_attack_troops_sent)).attacking_bots(s),
{
    let bots = bots_to_attack(game, s.sid);
    if bots.len() == 0 {
        return false;
    }
    *bot_attack_troops_sent = 0;
    let most: usize = bot_attack_max_parallelism(random, s.difficulty);
    let n: usize = if most < bots.len() {
        most
    } else {
        bots.len()
    };
    let ghost start = campaign(*game, *random, *emoji, 0);
    let ghost targets = bots@.take(n as int);
    let mut sent = false;
    assert(targets.take(0) =~= Seq::<u16>::empty());
    for i in 0..n
        invariant
            game.wf(),
            s.wf(),
            n <= bots@.len(),
            targets == bots@.take(n as int),
            0 <= *bot_attack_troops_sent <= MAX_SENT,
            start.striking(s, targets.take(i as int)) == (
                campaign(*game, *random, *emoji, *bot_attack_troops_sent),
                sent,
            ),
    {
        let target: u16 = bots[i];
        let ghost c = campaign(*game, *random, *emoji, *bot_attack_troops_sent);
        proof {
            assert(targets.take(i + 1).drop_last() =~= targets.take(i as int));
            assert(targets.take(i + 1).last() == target);
        }
        let percent: u32 = if player_has_structure_units(game, target) {
            s.expand
        } else {
            s.reserve
        };
        let hit = try_send_nation_bot_attack(
            game,
            s.sid,
            target,
            percent,
            bot_attack_troops_sent,
            s.difficulty,
        );
        assert(c.attacking_bot(s.sid, target, percent as int, s.difficulty) == (
            campaign(*game, *random, *emoji, *bot_attack_troops_sent),
            hit,
        ));
        if hit {
            sent = true;
        }
    }
    proof {
        crate::lists::lemma_take_all(targets);
    }
    sent
}

/// Attacks a player with what the stance holds.
fn nation_try_attack_player(
    game: &mut Game,
    random: &mut PseudoRandom,
    s: Stance,
    target: Option<u16>,
    bot_attack_troops_sent: &mut i64,
    emoji: &mut NationEmojiState,
    force: bool,
) -> (sent: bool)
    requires
        old(game).wf(),
        s.wf(),
        0 <= *old(bot_attack_troops_sent) <= MAX_SENT,
    ensures
        final(game).wf(),
        0 <= *final(bot_attack_troops_sent) <= MAX_SENT,
        (campaign(*final(game), *final(random), *final(emoji), *final(bot_attack_troops_sent)), sent)
            == campaign(
            *old(game),
            *old(random),
            *old(emoji),
            *old(bot_attack_troops_sent),
        ).engaging_any(s, target, force),
{
    match target {
        Some(t) => try_send_player_attack_forced(
            game,
            random,
            s.sid,
            t,
            s.reserve,
            s.expand,
            bot_attack_troops_sent,
            s.difficulty,
            emoji,
            s.voiced,
            force,
        ),
        None => false,
    }
}

/// The first friend that a nation stands to gain by betraying, betrayed.
fn betray_a_friend(game: &mut Game, sid: u16, enemies: usize) -> (friend: Option<u16>)
    requires
        old(game).wf(),
    ensures
        final(game).wf(),
        friend == crate::lists::first_where(
            old(game)@.bordering_friends(sid),
            old(game)@.betrayable(sid, enemies + old(game)@.bordering_friends(sid).len()),
        ),
        final(game)@ == (match friend {
            Some(f) => old(game)@.betraying(sid, f),
            None => old(game)@,
        }),
{
    let friends = bordering_friends_by_troops(game, sid);
    let count: usize = if friends.len() <= usize::MAX - enemies {
        enemies + friends.len()
    } else {
        usize::MAX
    };
    let ghost before = game@;
    let ghost around = enemies + friends@.len();
    let ghost p = game@.betrayable(sid, around);
    proof {
        crate::lists::lemma_take_all(friends@);
    }
    for i in 0..friends.len()
        invariant
            game.wf(),
            game@ == before,
            before == old(game)@,
            friends@ == before.bordering_friends(sid),
            around == enemies + friends@.len(),
            around == 1 <==> count == 1,
            p == before.betrayable(sid, around),
            crate::lists::first_where(friends@, p) == crate::lists::first_where(
                friends@.skip(i as int),
                p,
            ),
    {
        let friend: u16 = friends[i];
        assert(p(friends@[i as int]) == before.betrays(sid, friend, count as int));
        if maybe_betray(game, sid, friend, count) {
            proof {
                crate::lists::lemma_first_where_found(friends@, p, i as int);
            }
            return Some(friend);
        }
        proof {
            crate::lists::lemma_first_where_step(friends@, p, i as int);
        }
    }
    None
}

/// Tries one strategy.
fn try_strategy(
    game: &mut Game,
    random: &mut PseudoRandom,
    s: Stance,
    strategy: Strategy,
    bot_attack_troops_sent: &mut i64,
    bordering: &Vec<u16>,
    emoji: &mut NationEmojiState,
) -> (sent: bool)
    requires
        old(game).wf(),
        s.wf(),
        0 <= *old(bot_attack_troops_sent) <= MAX_SENT,
    ensures
        final(game).wf(),
        0 <= *final(bot_attack_troops_sent) <= MAX_SENT,
        (campaign(*final(game), *final(random), *final(emoji), *final(bot_attack_troops_sent)), sent)
            == campaign(
            *old(game),
            *old(random),
            *old(emoji),
            *old(bot_attack_troops_sent),
        ).trying(s, strategy, bordering@),
{
    match strategy {
        Strategy::Nuked => is_bordering_nuked_territory(game, s.sid) && send_tn_attack(
            game,
            s.sid,
            s.expand,
        ),
        Strategy::Bots => attack_bots(game, random, s, bot_attack_troops_sent, emoji),
        Strategy::Retaliate => {
            let target = find_incoming_attacker(game, s.sid);
            nation_try_attack_player(game, random, s, target, bot_attack_troops_sent, emoji, true)
        },
        Strategy::Betray => {
            let friend = betray_a_friend(game, s.sid, bordering.len());
            nation_try_attack_player(game, random, s, friend, bot_attack_troops_sent, emoji, true)
        },
        Strategy::Island => {
            if bordering.len() > 0 {
                return false;
            }
            let target = find_nearest_island_enemy(game, random, s.sid);
            nation_try_attack_player(game, random, s, target, bot_attack_troops_sent, emoji, false)
        },
        _ => {
            let target = find_target(game, strategy, s.sid, bordering);
            nation_try_attack_player(game, random, s, target, bot_attack_troops_sent, emoji, false)
        },
    }
}

/// The order in which a nation goes through its strategies.
fn strategies_for(difficulty: Difficulty) -> (plan: Vec<Strategy>)
    ensures
        plan@ == plan_of(difficulty),
{
    match difficulty {
        Difficulty::Easy => vec![
            Strategy::Nuked,
            Strategy::Bots,
            Strategy::Retaliate,
            Strategy::Betray,
            Strategy::Hated,
            Strategy::Weakest,
        ],
        Difficulty::Medium => vec![
            Strategy::Bots,
            Strategy::Nuked,
            Strategy::Retaliate,
            Strategy::Betray,
            Strategy::Hated,
            Strategy::Afk,
            Strategy::Traitor,
            Strategy::Weakest,
            Strategy::Island,
        ],
        Difficulty::Hard => vec![
            Strategy::Bots,
            Strategy::Retaliate,
            Strategy::Betray,
            Strategy::Nuked,
            Strategy::Traitor,
            Strategy::Afk,
            Strategy::Hated,
            Strategy::VeryWeak,
            Strategy::Victim,
            Strategy::Weakest,
            Strategy::Island,
        ],
        _ => vec![
            Strategy::Retaliate,
            Strategy::Bots,
            Strategy::VeryWeak,
            Strategy::Traitor,
            Strategy::Afk,
            Strategy::Betray,
            Strategy::Victim,
            Strategy::Nuked,
            Strategy::Hated,
            Strategy::Weakest,
            Strategy::Island,
        ],
    }
}

/// Goes through the strategies until one of them leads to an attack.
#[verifier::rlimit(60)]
#[verifier::spinoff_prover]
fn follow_plan(
    game: &mut Game,
    random: &mut PseudoRandom,
    s: Stance,
    bot_attack_troops_sent: &mut i64,
    bordering: &Vec<u16>,
    emoji: &mut NationEmojiState,
) -> (sent: bool)
    requires
        old(game).wf(),
        s.wf(),
        0 <= *old(bot_attack_troops_sent) <= MAX_SENT,
    ensures
        final(game).wf(),
        0 <= *final(bot_attack_troops_sent) <= MAX_SENT,
        (campaign(*final(game), *final(random), *final(emoji), *final(bot_attack_troops_sent)), sent)
            == campaign(
            *old(game),
            *old(random),
            *old(emoji),
            *old(bot_attack_troops_sent),
        ).following(s, plan_of(s.difficulty), bordering@),
{
    let plan = strategies_for(s.difficulty);
    let ghost goal = campaign(*game, *random, *emoji, *bot_attack_troops_sent).following(
        s,
        plan@,
        bordering@,
    );
    assert(plan@.skip(0) =~= plan@);
    for i in 0..plan.len()
        invariant
            game.wf(),
            s.wf(),
            0 <= *bot_attack_troops_sent <= MAX_SENT,
            goal == campaign(*old(game), *old(random), *old(emoji), *old(bot_attack_troops_sent)).following(
                s,
                plan_of(s.difficulty),
                bordering@,
            ),
            campaign(*game, *random, *emoji, *bot_attack_troops_sent).following(
                s,
                plan@.skip(i as int),
                bordering@,
            ) == goal,
    {
        let strategy: Strategy = plan[i];
        assert(plan@.skip(i as int)[0] == strategy);
        assert(plan@.skip(i as int).skip(1) =~= plan@.skip(i + 1));
        let last = strategy == Strategy::Retaliate && find_incoming_attacker(game, s.sid).is_some();
        let sent = try_strategy(
            game,
            random,
            s,
            strategy,
            bot_attack_troops_sent,
            bordering,
            emoji,
        );
        if sent || last {
            return sent;
        }
    }
    false
}

/// Attacks the best target that a nation has.
fn nation_attack_best_target(
    game: &mut Game,
    random: &mut PseudoRandom,
    s: Stance,
    bot_attack_troops_sent: &mut i64,
    bordering: &Vec<u16>,
    emoji: &mut NationEmojiState,
) -> (sent: bool)
    requires
        old(game).wf(),
        s.wf(),
        0 <= *old(bot_attack_troops_sent) <= MAX_SENT,
    ensures
        final(game).wf(),
        0 <= *final(bot_attack_troops_sent) <= MAX_SENT,
        (campaign(*final(game), *final(random), *final(emoji), *final(bot_attack_troops_sent)), sent)
            == campaign(
            *old(game),
            *old(random),
            *old(emoji),
            *old(bot_attack_troops_sent),
        ).attacking_best(s, bordering@),
{
    if has_neighboring_bot_with_structures(game, s.sid) {
        if attack_bots(game, random, s, bot_attack_troops_sent, emoji) {
            return true;
        }
    }
    if !has_reserve_ratio(game, s.sid, s.reserve) {
        return false;
    }
    if !has_trigger_ratio(game, s.sid, s.trigger) && !random.chance(10) {
        return false;
    }
    follow_plan(game, random, s, bot_attack_troops_sent, bordering, emoji)
}

/// The scaled troops of a boat that is sent to a random place.
fn random_boat_attack_troops(game: &Game, attacker_small_id: u16, target_small_id: u16) -> (troops:
    i64)
    requires
        game@.wf(),
    ensures
        troops == game@.random_boat_troops(attacker_small_id, target_small_id),
{
    if game.player_by_small_id(attacker_small_id).is_none() {
        return 0;
    }
    let own: i64 = game.troops_of(attacker_small_id);
    let base: i64 = own * BOAT_SHARE;
    if target_small_id == 0 || !crate::ai_forces::keeps_back(game, attacker_small_id) {
        return base;
    }
    let near = nearby_players_in_order(game, attacker_small_id);
    let strongest: i64 = strongest_of(game, attacker_small_id, &near);
    let percent: i64 = retain_percent(game.wire.difficulty);
    assert(0 <= strongest * percent <= 2_147_483_647 * 90) by (nonlinear_arith)
        requires
            0 <= strongest <= 2_147_483_647,
            0 <= percent <= 90,
    ;
    let retained: i64 = (strongest * percent + 99) / 100;
    let spare: i64 = if own > retained {
        (own - retained) * TROOP_SCALE
    } else {
        0
    };
    let kept: i64 = if strongest > 0 && spare < base {
        spare
    } else {
        base
    };
    let incoming: i128 = game.incoming_land_troops(attacker_small_id);
    if incoming > 0 {
        let answer: i64 = if incoming < base as i128 {
            incoming as i64
        } else {
            base
        };
        if answer > kept {
            return answer;
        }
        return kept;
    }
    if game.player_by_small_id(target_small_id).is_some() && kept * 5 < game.troops_of(
        target_small_id,
    ) * TROOP_SCALE {
        return 0;
    }
    kept
}

/// Whether a nation would land at a tile.
fn is_worth_landing(
    game: &Game,
    sid: u16,
    t: TileRef,
    eager: bool,
    avoided: &Vec<u16>,
    bordering: &Vec<u16>,
) -> (worth: bool)
    requires
        game@.wf(),
        game@.map.valid(t),
    ensures
        worth == game@.worth_landing(sid, t, eager, avoided@, bordering@),
{
    if !game.map.is_land(t) {
        return false;
    }
    let owner: u16 = game.map.owner_id(t);
    if owner == sid {
        return false;
    }
    if owner == 0 {
        return true;
    }
    if crate::lists::has_id(avoided, owner) || crate::lists::has_id(bordering, owner) {
        return false;
    }
    if game.wire.game_mode != GameMode::Team && game.player_by_small_id(owner).is_some()
        && game.player_by_small_id(sid).is_some() && game.troops_of(owner) > game.troops_of(sid) {
        return false;
    }
    if eager {
        game.is_of_type(owner, PlayerType::Bot)
    } else {
        !game.is_friendly(sid, owner)
    }
}

/// A place to land near a shore.
fn find_place_to_land(
    game: &Game,
    random: &mut PseudoRandom,
    sid: u16,
    src: TileRef,
    eager: bool,
    bordering: &Vec<u16>,
) -> (place: Option<TileRef>)
    requires
        game@.wf(),
        game@.map.valid(src),
    ensures
        (place, final(random).state) == game@.place_to_land(
            old(random).state,
            sid,
            src,
            eager,
            Seq::empty(),
            bordering@,
            BOAT_TRIES as nat,
        ),
        place is Some ==> game@.map.valid(place->0),
{
    let mut avoided: Vec<u16> = Vec::new();
    let x: i32 = game.map.x(src) as i32;
    let y: i32 = game.map.y(src) as i32;
    proof {
        game@.map.lemma_xy(src);
    }
    let ghost goal = game@.place_to_land(
        random.state,
        sid,
        src,
        eager,
        Seq::empty(),
        bordering@,
        BOAT_TRIES as nat,
    );
    for k in 0..BOAT_TRIES
        invariant
            game@.wf(),
            game@.map.valid(src),
            x == game@.map.x(src),
            y == game@.map.y(src),
            0 <= x <= 0xffff,
            0 <= y <= 0xffff,
            goal == game@.place_to_land(
                old(random).state,
                sid,
                src,
                eager,
                Seq::empty(),
                bordering@,
                BOAT_TRIES as nat,
            ),
            game@.place_to_land(
                random.state,
                sid,
                src,
                eager,
                avoided@,
                bordering@,
                (BOAT_TRIES - k) as nat,
            ) == goal,
    {
        let rx: i32 = random.next_int(x - BOAT_REACH, x + BOAT_REACH);
        let ry: i32 = random.next_int(y - BOAT_REACH, y + BOAT_REACH);
        if game.map.is_valid_coord(rx, ry) {
            let t: TileRef = game.map.ref_xy(rx as u32, ry as u32);
            if is_worth_landing(game, sid, t, eager, &avoided, bordering) {
                if game.can_build_transport_ship(sid, t).is_some() {
                    return Some(t);
                }
                let owner: u16 = game.map.owner_id(t);
                if owner != 0 {
                    avoided.push(owner);
                }
            }
        }
    }
    None
}

/// Sends a boat to a random place near one of a nation's shores.
fn attack_with_random_boat(
    game: &mut Game,
    random: &mut PseudoRandom,
    small_id: u16,
    bordering_enemies: &Vec<u16>,
) -> (sent: bool)
    requires
        old(game).wf(),
    ensures
        final(game).wf(),
        (final(game)@, final(random).state, sent) == old(game)@.boating_randomly(
            old(random).state,
            small_id,
            bordering_enemies@,
        ),
{
    if !crate::ai_forces::can_ship(game, small_id) {
        return false;
    }
    let shores = game.shore_border_tiles(small_id);
    if shores.len() == 0 {
        return false;
    }
    let src: TileRef = shores[random.next_index(shores.len())];
    let mut place = find_place_to_land(game, random, small_id, src, true, bordering_enemies);
    if place.is_none() {
        place = find_place_to_land(game, random, small_id, src, false, bordering_enemies);
    }
    match place {
        Some(t) => {
            let owner: u16 = game.map.owner_id(t);
            let troops: i64 = random_boat_attack_troops(game, small_id, owner);
            if troops < TROOP_SCALE {
                return false;
            }
            game.add_transport_attack(small_id, t, troops);
            true
        },
        None => {
            if bordering_enemies.len() == 0 {
                return false;
            }
            let target: u16 = bordering_enemies[random.next_index(bordering_enemies.len())];
            let share: i64 = game.troops_of(small_id) * BOAT_SHARE;
            match cap_player_attack_troops(game, small_id, target, share) {
                Some(troops) => send_boat_attack_to_player(game, small_id, target, troops),
                None => false,
            }
        },
    }
}

/// Gives a nation its turn to attack: free land first, then others.
pub fn nation_maybe_attack(
    game: &mut Game,
    random: &mut PseudoRandom,
    attacker_small_id: u16,
    trigger_ratio: u32,
    reserve_ratio: u32,
    expand_ratio: u32,
    bot_attack_troops_sent: &mut i64,
    difficulty: Difficulty,
    emoji: &mut NationEmojiState,
    voiced: bool,
)
    requires
        old(game).wf(),
        trigger_ratio <= 100,
        reserve_ratio <= 100,
        expand_ratio <= 100,
        0 <= *old(bot_attack_troops_sent) <= MAX_SENT,
    ensures
        final(game).wf(),
        0 <= *final(bot_attack_troops_sent) <= MAX_SENT,
        campaign(*final(game), *final(random), *final(emoji), *final(bot_attack_troops_sent))
            == campaign(
            *old(game),
            *old(random),
            *old(emoji),
            *old(bot_attack_troops_sent),
        ).waging(
            Stance {
                sid: attacker_small_id,
                trigger: trigger_ratio,
                reserve: reserve_ratio,
                expand: expand_ratio,
                difficulty,
                voiced,
            },
        ),
{
    let s = Stance {
        sid: attacker_small_id,
        trigger: trigger_ratio,
        reserve: reserve_ratio,
        expand: expand_ratio,
        difficulty,
        voiced,
    };
    if has_non_nuked_tn(game, attacker_small_id) {
        if send_tn_attack(game, attacker_small_id, expand_ratio) {
            return;
        }
    }
    let bordering = bordering_enemies_by_troops(game, attacker_small_id);
    if bordering.len() == 0 {
        if random.chance(5) {
            attack_with_random_boat(game, random, attacker_small_id, &bordering);
        }
    } else if random.chance(10) {
        attack_with_random_boat(game, random, attacker_small_id, &bordering);
        return;
    }
    if voiced && bordering.len() > 0 {
        maybe_send_alliance_requests(game, random, attacker_small_id, &bordering, emoji);
    }
    nation_attack_best_target(game, random, s, bot_attack_troops_sent, &bordering, emoji);
}

/// A traitor near a tribe.
fn get_neighbor_traitor_to_attack(game: &Game, random: &mut PseudoRandom, small_id: u16) -> (traitor:
    Option<u16>)
    requires
        game@.wf(),
    ensures
        (traitor, final(random).state) == (if game@.config.disable_alliances {
            (None::<u16>, old(random).state)
        } else {
            crate::prng::element_drawn(
                old(random).state,
                game@.near_in_order(small_id).filter(game@.unfriendly_traitor(small_id)),
            )
        }),
        traitor is Some ==> !game@.is_friendly(small_id, traitor->0),
{
    if game.wire.disable_alliances {
        return None;
    }
    let near = nearby_players_in_order(game, small_id);
    let accepts = |id: u16| -> (traitor: bool)
        ensures
            traitor == (!game@.is_friendly(small_id, id) && game@.is_traitor(id)),
        { !game.is_friendly(small_id, id) && game.is_traitor(id) };
    let traitors = crate::lists::filter_by(
        &near,
        accepts,
        Ghost(game@.unfriendly_traitor(small_id)),
    );
    random.rand_element(traitors.as_slice())
}

/// Attacks a traitor near a tribe, now and then.
fn punish_traitor(
    game: &mut Game,
    random: &mut PseudoRandom,
    s: Stance,
    bot_attack_troops_sent: &mut i64,
    emoji: &mut NationEmojiState,
    breaking: bool,
) -> (sent: bool)
    requires
        old(game).wf(),
        s.wf(),
        0 <= *old(bot_attack_troops_sent) <= MAX_SENT,
    ensures
        final(game).wf(),
        0 <= *final(bot_attack_troops_sent) <= MAX_SENT,
        (campaign(*final(game), *final(random), *final(emoji), *final(bot_attack_troops_sent)), sent)
            == campaign(
            *old(game),
            *old(random),
            *old(emoji),
            *old(bot_attack_troops_sent),
        ).punishing(s, breaking),
{
    match get_neighbor_traitor_to_attack(game, random, s.sid) {
        Some(traitor) => {
            let odds: i32 = if game.is_friendly(s.sid, traitor) {
                6
            } else {
                3
            };
            if !random.chance(odds) {
                return false;
            }
            if breaking {
                game.break_alliance_between(s.sid, traitor);
            }
            try_send_player_attack(
                game,
                random,
                s.sid,
                traitor,
                s.reserve,
                s.expand,
                bot_attack_troops_sent,
                s.difficulty,
                emoji,
                s.voiced,
            )
        },
        None => false,
    }
}

/// Goes through players in a random order until a tribe attacks one.
fn raid(
    game: &mut Game,
    random: &mut PseudoRandom,
    s: Stance,
    targets: &Vec<u16>,
    bot_attack_troops_sent: &mut i64,
    emoji: &mut NationEmojiState,
)
    requires
        old(game).wf(),
        s.wf(),
        0 <= *old(bot_attack_troops_sent) <= MAX_SENT,
    ensures
        final(game).wf(),
        0 <= *final(bot_attack_troops_sent) <= MAX_SENT,
        campaign(*final(game), *final(random), *final(emoji), *final(bot_attack_troops_sent))
            == campaign(
            *old(game),
            *old(random),
            *old(emoji),
            *old(bot_attack_troops_sent),
        ).raiding(s, targets@),
{
    let ghost goal = campaign(*game, *random, *emoji, *bot_attack_troops_sent).raiding(s, targets@);
    assert(targets@.skip(0) =~= targets@);
    for i in 0..targets.len()
        invariant
            game.wf(),
            s.wf(),
            0 <= *bot_attack_troops_sent <= MAX_SENT,
            goal == campaign(*old(game), *old(random), *old(emoji), *old(bot_attack_troops_sent)).raiding(
                s,
                targets@,
            ),
            campaign(*game, *random, *emoji, *bot_attack_troops_sent).raiding(
                s,
                targets@.skip(i as int),
            ) == goal,
    {
        let target: u16 = targets[i];
        assert(targets@.skip(i as int)[0] == target);
        assert(targets@.skip(i as int).skip(1) =~= targets@.skip(i + 1));
        if game.player_by_small_id(target).is_some() && !game.is_friendly(s.sid, target) {
            let picky = game.is_of_type(target, PlayerType::Nation) || game.is_of_type(
                target,
                PlayerType::Human,
            );
            let skip = picky && random.chance(2);
            if !skip {
                if try_send_player_attack(
                    game,
                    random,
                    s.sid,
                    target,
                    s.reserve,
                    s.expand,
                    bot_attack_troops_sent,
                    s.difficulty,
                    emoji,
                    s.voiced,
                ) {
                    return;
                }
            }
        }
    }
}

/// Gives a tribe its turn to attack. `neighbors_terra_nullius` says whether it still may
/// have free land nearby.
pub fn tribe_maybe_attack(
    game: &mut Game,
    random: &mut PseudoRandom,
    attacker_small_id: u16,
    trigger_ratio: u32,
    reserve_ratio: u32,
    expand_ratio: u32,
    neighbors_terra_nullius: &mut bool,
)
    requires
        old(game).wf(),
        trigger_ratio <= 100,
        reserve_ratio <= 100,
        expand_ratio <= 100,
    ensures
        final(game).wf(),
        ({
            let s = Stance {
                sid: attacker_small_id,
                trigger: trigger_ratio,
                reserve: reserve_ratio,
                expand: expand_ratio,
                difficulty: old(game)@.config.difficulty,
                voiced: false,
            };
            let (after, frontier) = (Campaign {
                mind: silent(old(game)@, old(random).state),
                sent: 0,
            }).roaming(s, *old(neighbors_terra_nullius));
            &&& final(game)@ == after.mind.game
            &&& final(random).state == after.mind.rng
            &&& *final(neighbors_terra_nullius) == frontier
        }),
{
    let s = Stance {
        sid: attacker_small_id,
        trigger: trigger_ratio,
        reserve: reserve_ratio,
        expand: expand_ratio,
        difficulty: game.wire.difficulty,
        voiced: false,
    };
    let mut bot_attack_troops_sent: i64 = 0;
    let mut emoji = NationEmojiState::default();
    if punish_traitor(game, random, s, &mut bot_attack_troops_sent, &mut emoji, true) {
        return;
    }
    if *neighbors_terra_nullius {
        if has_land_border_tn(game, attacker_small_id) || has_shore_reachable_tn(
            game,
            attacker_small_id,
        ) {
            if send_tn_attack(game, attacker_small_id, expand_ratio) {
                return;
            }
        } else {
            *neighbors_terra_nullius = false;
        }
    }
    if !has_trigger_ratio(game, attacker_small_id, trigger_ratio) {
        return;
    }
    let attacker = find_incoming_attacker(game, attacker_small_id);
    if nation_try_attack_player(
        game,
        random,
        s,
        attacker,
        &mut bot_attack_troops_sent,
        &mut emoji,
        true,
    ) {
        return;
    }
    if punish_traitor(game, random, s, &mut bot_attack_troops_sent, &mut emoji, false) {
        return;
    }
    let neighbors = nearby_players_in_order(game, attacker_small_id);
    let targets = random.shuffle_array(&neighbors);
    raid(game, random, s, &targets, &mut bot_attack_troops_sent, &mut emoji);
}

} // verus!
