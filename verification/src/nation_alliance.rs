//! How nations answer, seek and break alliances.

use vstd::prelude::*;

use crate::alliance_exec::{AllianceExtensionExecution, AllianceRequestExecution};
use crate::config::{Difficulty, GameMode, TROOP_SCALE};
use crate::exec_enum::ExecEnum;
use crate::game::{Game, GameView};
use crate::nation_emoji::{
    mind, send_emoji, Mind, NationEmojiState, EMOJI_CONFUSED_LEN, EMOJI_LOVE_LEN,
};
use crate::orders::Order;
use crate::prng::PseudoRandom;
use crate::state::{Alliance, AllianceRequest, AllianceRequestStatus, PlayerType, Relation};

verus! {

pub const EMOJI_SCARED_OF_THREAT_LEN: i32 = 2;

pub const EMOJI_HANDSHAKE_LEN: i32 = 1;

impl GameView {
    /// A request to `sid` that waits for its answer.
    pub open spec fn request_to(sid: u16) -> spec_fn(AllianceRequest) -> bool {
        |r: AllianceRequest|
            r.recipient_small_id == sid && r.status == AllianceRequestStatus::Pending
    }

    /// An alliance of `sid` that exactly one side wants to extend.
    pub open spec fn extendable(sid: u16) -> spec_fn(Alliance) -> bool {
        |x: Alliance| x.involves(sid) && x.requestor_extends != x.recipient_extends
    }

    /// The partner of `sid`.
    pub open spec fn partner(sid: u16) -> spec_fn(Alliance) -> u16 {
        |x: Alliance| x.other(sid)
    }

    /// A player, other than a bot, that owns land.
    pub open spec fn landed(self) -> spec_fn(u16) -> bool {
        |id: u16| self.tiles_owned(id) > 0 && !self.of_type(id, PlayerType::Bot)
    }

    pub open spec fn no_bot(self) -> spec_fn(u16) -> bool {
        |id: u16| self.has(id) && !self.of_type(id, PlayerType::Bot)
    }

    pub open spec fn friend(self, sid: u16) -> spec_fn(u16) -> bool {
        |id: u16| self.is_friendly(sid, id)
    }

    /// A player's troops at home and under way, scaled.
    pub open spec fn total_troops(self, sid: u16) -> int {
        self.troops(sid) * TROOP_SCALE + crate::game_war::troop_sum(self.outgoing(sid))
    }

    /// Whether `other` is so strong that `sid` had better be its ally.
    pub open spec fn threatened_by(self, sid: u16, other: u16) -> bool {
        self.has(sid) && self.has(other) && match self.config.difficulty {
            Difficulty::Medium => self.troops(other) * 2 > self.troops(sid) * 5,
            Difficulty::Hard => self.troops(other) > self.troops(sid) && self.max_troops_milli(other)
                > self.max_troops_milli(sid) * 2,
            Difficulty::Impossible => {
                ||| self.troops(other) * 2 > self.troops(sid) * 3
                ||| self.troops(other) > self.troops(sid) && self.max_troops_milli(other) * 2
                    > self.max_troops_milli(sid) * 3
                ||| self.troops(other) > self.troops(sid) && self.tiles_owned(other)
                    > self.tiles_owned(sid) * 3 / 2
            },
            _ => false,
        }
    }

    /// Whether `other` has so many allies that one more is not wanted.
    pub open spec fn overallied(self, other: u16) -> bool {
        let players = self.ids().filter(self.landed()).len();
        match self.config.difficulty {
            Difficulty::Hard => self.alliance_count(other) * 2 >= players,
            Difficulty::Impossible => self.alliance_count(other) * 4 >= players,
            _ => false,
        }
    }

    /// Whether `attacker` would end its alliance with `target` to attack it.
    pub open spec fn betrays(self, attacker: u16, target: u16, bordering: int) -> bool {
        let easy = self.config.difficulty == Difficulty::Easy;
        let mild = easy || self.config.difficulty == Difficulty::Medium;
        let a = self.troops(attacker);
        let t = self.troops(target);
        self.allied(attacker, target) && self.has(attacker) && self.has(target) && {
            ||| !mild && self.total_troops(target) * 5 < self.max_troops_milli(target) * 100 && t < a
            ||| mild && !(easy && self.of_type(target, PlayerType::Human)) && a >= t * 10
            ||| !easy && self.is_traitor(target) && t < a * 6 / 5
            ||| !easy && bordering == 1 && t * 3 < a
        }
    }

    /// The requests to `sid` that wait for their answer, oldest first.
    pub open spec fn requests_to(self, sid: u16) -> Seq<AllianceRequest> {
        self.requests.filter(GameView::request_to(sid))
    }

    /// The allies of `sid` with whom exactly one side wants to extend the alliance.
    pub open spec fn extension_partners(self, sid: u16) -> Seq<u16> {
        self.alliances.filter(GameView::extendable(sid)).map_values(GameView::partner(sid))
    }
}

impl Mind {
    /// The number that the next draw up to `n` yields.
    pub open spec fn roll(self, n: int) -> int {
        crate::prng::int_drawn(self.rng, 0, n)
    }

    /// Whether the nation is confused, and its world after it found out.
    pub open spec fn confused(self) -> (bool, Mind) {
        match self.game.config.difficulty {
            Difficulty::Easy => (self.hit(10), self.drawn()),
            Difficulty::Hard => (self.hit(40), self.drawn()),
            Difficulty::Impossible => (false, self),
            _ => (self.hit(20), self.drawn()),
        }
    }

    /// Whether the nation turns alliances down for the sake of its team.
    pub open spec fn loyal(self) -> (bool, Mind) {
        if !self.game.config.is_team() {
            (false, self)
        } else {
            match self.game.config.difficulty {
                Difficulty::Easy => (self.roll(100) < 25, self.drawn()),
                Difficulty::Medium => (self.roll(100) < 50, self.drawn()),
                Difficulty::Hard => (self.roll(100) < 75, self.drawn()),
                Difficulty::Impossible => (true, self),
                Difficulty::Other => (false, self),
            }
        }
    }

    /// Whether the nation counts `other` among its friends.
    pub open spec fn fond(self, sid: u16, other: u16) -> (bool, Mind) {
        let friendly = self.game.relation(sid, other) == Relation::Friendly;
        match self.game.config.difficulty {
            Difficulty::Easy => (friendly, self),
            Difficulty::Medium => (friendly, self),
            Difficulty::Hard => if friendly {
                (self.roll(100) >= 17, self.drawn())
            } else {
                (false, self)
            },
            Difficulty::Impossible => if friendly {
                (self.roll(100) >= 33, self.drawn())
            } else {
                (false, self)
            },
            Difficulty::Other => (false, self),
        }
    }

    /// Whether the nation has allies enough.
    pub open spec fn satisfied(self, sid: u16, other: u16) -> (bool, Mind) {
        let count = self.game.alliance_count(sid);
        let near = self.game.near_ids(sid).filter(self.game.no_bot());
        let friends = near.filter(self.game.friend(sid));
        let hemmed = near.len() >= 2 && near.contains(other);
        match self.game.config.difficulty {
            Difficulty::Medium => (
                count >= crate::prng::int_drawn(self.rng, 4, 6),
                self.drawn(),
            ),
            Difficulty::Hard => if hemmed {
                (near.len() <= friends.len() + 1, self)
            } else {
                (count >= crate::prng::int_drawn(self.rng, 3, 5), self.drawn())
            },
            Difficulty::Impossible => if hemmed {
                (near.len() <= friends.len() + 1, self)
            } else {
                (count >= crate::prng::int_drawn(self.rng, 2, 4), self.drawn())
            },
            _ => (false, self),
        }
    }

    /// Whether the game is young enough to take any ally.
    pub open spec fn young(self) -> (bool, Mind) {
        let age = self.game.tick - self.game.config.num_spawn_phase_turns;
        match self.game.config.difficulty {
            Difficulty::Easy => if age < 3000 {
                (self.roll(100) >= 10, self.drawn())
            } else {
                (false, self)
            },
            Difficulty::Medium => if age < 1800 {
                (self.roll(100) >= 30, self.drawn())
            } else {
                (false, self)
            },
            Difficulty::Hard => if age < 1800 {
                (self.roll(100) >= 50, self.drawn())
            } else {
                (false, self)
            },
            Difficulty::Impossible => if age < 600 {
                (self.roll(100) >= 70, self.drawn())
            } else {
                (false, self)
            },
            Difficulty::Other => (false, self),
        }
    }

    /// Whether `other` is about as strong as `sid`.
    pub open spec fn matched(self, sid: u16, other: u16) -> (bool, Mind) {
        if !self.game.has(sid) || !self.game.has(other) {
            (false, self)
        } else {
            let (troop_lo, tile_lo) = match self.game.config.difficulty {
                Difficulty::Easy => (60int, 70int),
                Difficulty::Medium => (70int, 80int),
                Difficulty::Hard => (75int, 85int),
                Difficulty::Impossible => (80int, 90int),
                Difficulty::Other => (70int, 80int),
            };
            let own = self.game.total_troops(sid);
            let theirs = self.game.total_troops(other);
            let troop_percent = crate::prng::int_drawn(self.rng, troop_lo, troop_lo + 10);
            let tile_percent = crate::prng::int_drawn(self.drawn().rng, tile_lo, tile_lo + 10);
            (
                theirs * 100 > own * troop_percent || (self.game.tiles_owned(other) * 100
                    > self.game.tiles_owned(sid) * tile_percent && theirs * 2 > own),
                self.drawn().drawn(),
            )
        }
    }

    /// After an emoji, one time in `odds`.
    pub open spec fn quipping(self, sid: u16, other: u16, odds: int) -> Mind {
        if self.hit(odds) {
            self.drawn().sending(sid, Some(other))
        } else {
            self.drawn()
        }
    }

    /// Whether `sid` wants to be the ally of `other`, and its world after it decided.
    /// `asked` tells whether the other side asked.
    #[verifier::opaque]
    pub open spec fn deciding(self, sid: u16, other: u16, asked: bool) -> (bool, Mind) {
        let (confused, m) = self.confused();
        if confused {
            (m.hit(2), m.drawn())
        } else {
            m.deciding_clearly(sid, other, asked)
        }
    }

    pub open spec fn deciding_clearly(self, sid: u16, other: u16, asked: bool) -> (bool, Mind) {
        let traitor = self.game.is_traitor(other);
        let m = if traitor {
            self.drawn()
        } else {
            self
        };
        if traitor && self.roll(100) >= 10 {
            (false, if asked {
                m.quipping(sid, other, 3)
            } else {
                m
            })
        } else if m.game.overallied(other) {
            (false, m)
        } else if m.game.threatened_by(sid, other) {
            (true, m.quipping(sid, other, 6))
        } else {
            m.deciding_freely(sid, other, asked)
        }
    }

    pub open spec fn deciding_freely(self, sid: u16, other: u16, asked: bool) -> (bool, Mind) {
        let (loyal, m) = self.loyal();
        if loyal {
            (false, m)
        } else if m.game.relation(sid, other).rank() < Relation::Neutral.rank() {
            (false, if asked {
                m.quipping(sid, other, 3)
            } else {
                m
            })
        } else {
            let (fond, m) = m.fond(sid, other);
            if fond {
                (true, m.quipping(sid, other, 3))
            } else {
                let (satisfied, m) = m.satisfied(sid, other);
                if satisfied {
                    (false, m)
                } else {
                    let (young, m) = m.young();
                    if young {
                        (true, m)
                    } else {
                        m.matched(sid, other)
                    }
                }
            }
        }
    }

    /// After `sid` answered `requests`.
    pub open spec fn answering(self, sid: u16, requests: Seq<AllianceRequest>) -> Mind
        decreases requests.len(),
    {
        if requests.len() == 0 {
            self
        } else {
            let m = self.answering(sid, requests.drop_last());
            let r = requests.last();
            let from = r.requestor_small_id;
            if r.created_at <= m.game.config.num_spawn_phase_turns + 1 {
                Mind { game: m.game.answering(from, sid, AllianceRequestStatus::Rejected), ..m }
            } else {
                let (wanted, m) = m.deciding(sid, from, true);
                Mind {
                    game: if wanted {
                        m.game.accepting(from, sid, self.game.tick)
                    } else {
                        m.game.answering(from, sid, AllianceRequestStatus::Rejected)
                    },
                    ..m
                }
            }
        }
    }

    /// After `sid` decided whether to extend its alliances with `partners`.
    pub open spec fn extending(self, sid: u16, partners: Seq<u16>) -> Mind
        decreases partners.len(),
    {
        if partners.len() == 0 {
            self
        } else {
            let m = self.extending(sid, partners.drop_last());
            let other = partners.last();
            let (wanted, m) = m.deciding(sid, other, true);
            if wanted && m.game.has(other) {
                Mind {
                    game: m.game.ordering(
                        Order::AllianceExtension { from: sid, recipient: m.game.player(other).id@ },
                    ),
                    ..m
                }
            } else {
                m
            }
        }
    }

    /// After `sid` thought of asking each of `enemies` for an alliance.
    pub open spec fn courting(self, sid: u16, enemies: Seq<u16>) -> Mind
        decreases enemies.len(),
    {
        if enemies.len() == 0 {
            self
        } else {
            let m = self.courting(sid, enemies.drop_last());
            let enemy = enemies.last();
            let acceptable = m.game.has(enemy) && (!m.game.of_type(enemy, PlayerType::Bot)
                || m.game.config.difficulty == Difficulty::Easy);
            let id = m.game.player(enemy).id@;
            if m.hit(30) && acceptable && m.game.may_request(sid, enemy) {
                let (wanted, m) = m.drawn().deciding(sid, enemy, false);
                if wanted {
                    Mind {
                        game: m.game.ordering(
                            Order::AllianceRequest { requestor: sid, recipient: id },
                        ),
                        ..m
                    }
                } else {
                    m
                }
            } else {
                m.drawn()
            }
        }
    }
}

fn is_confused(random: &mut PseudoRandom, difficulty: Difficulty) -> (confused: bool)
    ensures
        forall|m: Mind|
            #![trigger m.confused()]
            m.rng == old(random).state && m.game.config.difficulty == difficulty ==> confused
                == m.confused().0 && m.confused().1 == (Mind { rng: final(random).state, ..m }),
{
    match difficulty {
        Difficulty::Easy => random.chance(10),
        Difficulty::Hard => random.chance(40),
        Difficulty::Impossible => false,
        _ => random.chance(20),
    }
}

fn should_reject_in_team_game(random: &mut PseudoRandom, game: &Game) -> (reject: bool)
    ensures
        forall|m: Mind|
            #![trigger m.loyal()]
            m.rng == old(random).state && m.game == game@ ==> reject == m.loyal().0 && m.loyal().1 == (
            Mind { rng: final(random).state, ..m }),
{
    if game.wire.game_mode != GameMode::Team {
        return false;
    }
    match game.wire.difficulty {
        Difficulty::Easy => random.next_int(0, 100) < 25,
        Difficulty::Medium => random.next_int(0, 100) < 50,
        Difficulty::Hard => random.next_int(0, 100) < 75,
        Difficulty::Impossible => true,
        Difficulty::Other => false,
    }
}

fn is_alliance_partner_threat(game: &Game, small_id: u16, other_small_id: u16) -> (threat: bool)
    requires
        game@.wf(),
    ensures
        threat == game@.threatened_by(small_id, other_small_id),
{
    if game.player_by_small_id(small_id).is_none() || game.player_by_small_id(
        other_small_id,
    ).is_none() {
        return false;
    }
    let own: i64 = game.troops_of(small_id);
    let theirs: i64 = game.troops_of(other_small_id);
    let own_max: i64 = game.max_troops_for(small_id);
    let their_max: i64 = game.max_troops_for(other_small_id);
    let own_tiles: i64 = game.tiles_of(small_id);
    let their_tiles: i64 = game.tiles_of(other_small_id);
    match game.wire.difficulty {
        Difficulty::Medium => theirs * 2 > own * 5,
        Difficulty::Hard => theirs > own && their_max > own_max * 2,
        Difficulty::Impossible => theirs * 2 > own * 3 || (theirs > own && their_max * 2 > own_max * 3)
            || (theirs > own && their_tiles > own_tiles * 3 / 2),
        _ => false,
    }
}

fn has_too_many_alliances(game: &Game, other_small_id: u16) -> (many: bool)
    requires
        game@.wf(),
    ensures
        many == game@.overallied(other_small_id),
{
    if game.wire.difficulty != Difficulty::Hard && game.wire.difficulty != Difficulty::Impossible {
        return false;
    }
    let ids = game.player_ids();
    let accepts = |id: u16| -> (landed: bool)
        ensures
            landed == (game@.tiles_owned(id) > 0 && !game@.of_type(id, PlayerType::Bot)),
        { game.tiles_of(id) > 0 && !game.is_of_type(id, PlayerType::Bot) };
    let landed = crate::lists::filter_by(&ids, accepts, Ghost(game@.landed()));
    let players: u128 = landed.len() as u128;
    let allies: u128 = game.alliance_count(other_small_id) as u128;
    if game.wire.difficulty == Difficulty::Hard {
        allies * 2 >= players
    } else {
        allies * 4 >= players
    }
}

fn check_already_enough_alliances(
    game: &Game,
    random: &mut PseudoRandom,
    small_id: u16,
    other_small_id: u16,
) -> (enough: bool)
    requires
        game@.wf(),
    ensures
        forall|m: Mind|
            #![trigger m.satisfied(small_id, other_small_id)]
            m.rng == old(random).state && m.game == game@ ==> enough == m.satisfied(
                small_id,
                other_small_id,
            ).0 && m.satisfied(small_id, other_small_id).1 == (Mind {
                rng: final(random).state,
                ..m
            }),
{
    let difficulty = game.wire.difficulty;
    match difficulty {
        Difficulty::Medium => {
            let bar: i32 = random.next_int(4, 6);
            game.alliance_count(small_id) >= bar as usize
        },
        Difficulty::Hard | Difficulty::Impossible => {
            let near = crate::ai_attack::nearby_player_small_ids(game, small_id);
            let accepts = |id: u16| -> (no_bot: bool)
                ensures
                    no_bot == (game@.has(id) && !game@.of_type(id, PlayerType::Bot)),
                {
                    match game.player_by_small_id(id) {
                        Some(p) => p.player_type != PlayerType::Bot,
                        None => false,
                    }
                };
            let bordering = crate::lists::filter_by(&near, accepts, Ghost(game@.no_bot()));
            let accepts = |id: u16| -> (friend: bool)
                ensures
                    friend == game@.is_friendly(small_id, id),
                { game.is_friendly(small_id, id) };
            let friends = crate::lists::filter_by(
                &bordering,
                accepts,
                Ghost(game@.friend(small_id)),
            );
            if bordering.len() >= 2 && crate::lists::has_id(&bordering, other_small_id) {
                return bordering.len() - 1 <= friends.len();
            }
            let bar: i32 = if difficulty == Difficulty::Hard {
                random.next_int(3, 5)
            } else {
                random.next_int(2, 4)
            };
            game.alliance_count(small_id) >= bar as usize
        },
        _ => false,
    }
}

fn is_earlygame(game: &Game, random: &mut PseudoRandom) -> (early: bool)
    ensures
        forall|m: Mind|
            #![trigger m.young()]
            m.rng == old(random).state && m.game == game@ ==> early == m.young().0 && m.young().1 == (
            Mind { rng: final(random).state, ..m }),
{
    let age: i64 = game.tick as i64 - game.wire.num_spawn_phase_turns as i64;
    match game.wire.difficulty {
        Difficulty::Easy => age < 3000 && random.next_int(0, 100) >= 10,
        Difficulty::Medium => age < 1800 && random.next_int(0, 100) >= 30,
        Difficulty::Hard => age < 1800 && random.next_int(0, 100) >= 50,
        Difficulty::Impossible => age < 600 && random.next_int(0, 100) >= 70,
        Difficulty::Other => false,
    }
}

fn is_alliance_partner_friendly(
    game: &Game,
    random: &mut PseudoRandom,
    small_id: u16,
    other_small_id: u16,
) -> (friendly: bool)
    ensures
        forall|m: Mind|
            #![trigger m.fond(small_id, other_small_id)]
            m.rng == old(random).state && m.game == game@ ==> friendly == m.fond(
                small_id,
                other_small_id,
            ).0 && m.fond(small_id, other_small_id).1 == (Mind { rng: final(random).state, ..m }),
{
    let friendly = game.relation(small_id, other_small_id) == Relation::Friendly;
    match game.wire.difficulty {
        Difficulty::Easy => friendly,
        Difficulty::Medium => friendly,
        Difficulty::Hard => friendly && random.next_int(0, 100) >= 17,
        Difficulty::Impossible => friendly && random.next_int(0, 100) >= 33,
        Difficulty::Other => false,
    }
}

fn is_alliance_partner_similarly_strong(
    game: &Game,
    random: &mut PseudoRandom,
    small_id: u16,
    other_small_id: u16,
) -> (similar: bool)
    requires
        game@.wf(),
    ensures
        forall|m: Mind|
            #![trigger m.matched(small_id, other_small_id)]
            m.rng == old(random).state && m.game == game@ ==> similar == m.matched(
                small_id,
                other_small_id,
            ).0 && m.matched(small_id, other_small_id).1 == (Mind {
                rng: final(random).state,
                ..m
            }),
{
    let (troop_lo, tile_lo): (i32, i32) = match game.wire.difficulty {
        Difficulty::Easy => (60, 70),
        Difficulty::Medium => (70, 80),
        Difficulty::Hard => (75, 85),
        Difficulty::Impossible => (80, 90),
        Difficulty::Other => (70, 80),
    };
    if game.player_by_small_id(small_id).is_none() || game.player_by_small_id(
        other_small_id,
    ).is_none() {
        return false;
    }
    let own: i128 = game.total_troops_of(small_id);
    let theirs: i128 = game.total_troops_of(other_small_id);
    let troop_percent: i32 = random.next_int(troop_lo, troop_lo + 10);
    let tile_percent: i32 = random.next_int(tile_lo, tile_lo + 10);
    let ghost most = 1_700_000_000_000_000_000_000_000_000_000_000_000int;
    assert(-most * 100 <= own * troop_percent <= most * 100) by (nonlinear_arith)
        requires
            -most <= own <= most,
            0 <= troop_percent <= 100,
    ;
    let own_tiles: i64 = game.tiles_of(small_id);
    assert(0 <= own_tiles * tile_percent <= own_tiles * 100) by (nonlinear_arith)
        requires
            0 <= own_tiles,
            0 <= tile_percent <= 100,
    ;
    theirs * 100 > own * troop_percent as i128 || (game.tiles_of(other_small_id) * 100 > own_tiles
        * tile_percent as i64 && theirs * 2 > own)
}

fn maybe_quip(
    game: &mut Game,
    random: &mut PseudoRandom,
    small_id: u16,
    emoji: &mut NationEmojiState,
    other_small_id: u16,
    odds: i32,
    list_len: i32,
)
    requires
        old(game).wf(),
        odds >= 0,
        list_len >= 0,
    ensures
        final(game).wf(),
        mind(*final(game), *final(random), *final(emoji)) == mind(
            *old(game),
            *old(random),
            *old(emoji),
        ).quipping(small_id, other_small_id, odds as int),
{
    if random.chance(odds) {
        send_emoji(random, game, small_id, emoji, Some(other_small_id), list_len);
    }
}

fn get_alliance_decision(
    game: &mut Game,
    random: &mut PseudoRandom,
    small_id: u16,
    other_small_id: u16,
    is_response: bool,
    emoji: &mut NationEmojiState,
) -> (wanted: bool)
    requires
        old(game).wf(),
    ensures
        final(game).wf(),
        (wanted, mind(*final(game), *final(random), *final(emoji))) == mind(
            *old(game),
            *old(random),
            *old(emoji),
        ).deciding(small_id, other_small_id, is_response),
{
    reveal(Mind::deciding);
    let ghost m = mind(*game, *random, *emoji);
    let confused = is_confused(random, game.wire.difficulty);
    assert(m.confused() == (confused, mind(*game, *random, *emoji)));
    if confused {
        return random.chance(2);
    }
    decide_clearly(game, random, small_id, other_small_id, is_response, emoji)
}

fn decide_clearly(
    game: &mut Game,
    random: &mut PseudoRandom,
    small_id: u16,
    other_small_id: u16,
    is_response: bool,
    emoji: &mut NationEmojiState,
) -> (wanted: bool)
    requires
        old(game).wf(),
    ensures
        final(game).wf(),
        (wanted, mind(*final(game), *final(random), *final(emoji))) == mind(
            *old(game),
            *old(random),
            *old(emoji),
        ).deciding_clearly(small_id, other_small_id, is_response),
{
    if game.is_traitor(other_small_id) && random.next_int(0, 100) >= 10 {
        if is_response {
            maybe_quip(game, random, small_id, emoji, other_small_id, 3, EMOJI_CONFUSED_LEN);
        }
        return false;
    }
    if has_too_many_alliances(game, other_small_id) {
        return false;
    }
    if is_alliance_partner_threat(game, small_id, other_small_id) {
        let list_len: i32 = if is_response {
            EMOJI_LOVE_LEN
        } else {
            EMOJI_SCARED_OF_THREAT_LEN
        };
        maybe_quip(game, random, small_id, emoji, other_small_id, 6, list_len);
        return true;
    }
    decide_freely(game, random, small_id, other_small_id, is_response, emoji)
}

fn decide_freely(
    game: &mut Game,
    random: &mut PseudoRandom,
    small_id: u16,
    other_small_id: u16,
    is_response: bool,
    emoji: &mut NationEmojiState,
) -> (wanted: bool)
    requires
        old(game).wf(),
    ensures
        final(game).wf(),
        (wanted, mind(*final(game), *final(random), *final(emoji))) == mind(
            *old(game),
            *old(random),
            *old(emoji),
        ).deciding_freely(small_id, other_small_id, is_response),
{
    let ghost m = mind(*game, *random, *emoji);
    let reject = should_reject_in_team_game(random, game);
    assert(m.loyal() == (reject, mind(*game, *random, *emoji)));
    if reject {
        return false;
    }
    if !game.relation(small_id, other_small_id).is_at_least(Relation::Neutral) {
        if is_response {
            maybe_quip(game, random, small_id, emoji, other_small_id, 3, EMOJI_CONFUSED_LEN);
        }
        return false;
    }
    let ghost m = mind(*game, *random, *emoji);
    let friendly = is_alliance_partner_friendly(game, random, small_id, other_small_id);
    assert(m.fond(small_id, other_small_id) == (friendly, mind(*game, *random, *emoji)));
    if friendly {
        maybe_quip(game, random, small_id, emoji, other_small_id, 3, EMOJI_HANDSHAKE_LEN);
        return true;
    }
    let ghost m = mind(*game, *random, *emoji);
    let enough = check_already_enough_alliances(game, random, small_id, other_small_id);
    assert(m.satisfied(small_id, other_small_id) == (enough, mind(*game, *random, *emoji)));
    if enough {
        return false;
    }
    let ghost m = mind(*game, *random, *emoji);
    let early = is_earlygame(game, random);
    assert(m.young() == (early, mind(*game, *random, *emoji)));
    if early {
        return true;
    }
    let ghost m = mind(*game, *random, *emoji);
    let similar = is_alliance_partner_similarly_strong(game, random, small_id, other_small_id);
    assert(m.matched(small_id, other_small_id) == (similar, mind(*game, *random, *emoji)));
    similar
}

impl Game {
    /// A player's troops at home and under way, scaled.
    pub fn total_troops_of(&self, sid: u16) -> (total: i128)
        requires
            self@.wf(),
        ensures
            total == self@.total_troops(sid),
            -1_700_000_000_000_000_000_000_000_000_000_000_000 <= total
                <= 1_700_000_000_000_000_000_000_000_000_000_000_000,
    {
        let home: i64 = self.troops_of(sid) * TROOP_SCALE;
        let away: i128 = self.outgoing_attack_troops(sid);
        home as i128 + away
    }

    /// The requests to `sid` that wait for their answer, oldest first.
    pub fn incoming_alliance_requests(&self, sid: u16) -> (requests: Vec<AllianceRequest>)
        ensures
            requests@ == self@.requests_to(sid),
    {
        let accepts = |r: AllianceRequest| -> (pends: bool)
            ensures
                pends == (r.recipient_small_id == sid && r.status == AllianceRequestStatus::Pending),
            { r.recipient_small_id == sid && r.status == AllianceRequestStatus::Pending };
        crate::lists::filter_by(
            &self.alliance_requests,
            accepts,
            Ghost(GameView::request_to(sid)),
        )
    }

    /// The allies of `sid` with whom exactly one side wants to extend the alliance.
    pub fn alliance_extension_candidates(&self, sid: u16) -> (partners: Vec<u16>)
        ensures
            partners@ == self@.extension_partners(sid),
    {
        let accepts = |x: Alliance| -> (extendable: bool)
            ensures
                extendable == (x.involves(sid) && x.requestor_extends != x.recipient_extends),
            {
                (x.requestor == sid || x.recipient == sid) && x.requestor_extends
                    != x.recipient_extends
            };
        let found = crate::lists::filter_by(
            &self.alliances,
            accepts,
            Ghost(GameView::extendable(sid)),
        );
        let mut partners: Vec<u16> = Vec::new();
        for i in 0..found.len()
            invariant
                partners@ == found@.take(i as int).map_values(GameView::partner(sid)),
        {
            let x: Alliance = found[i];
            partners.push(if x.requestor == sid {
                x.recipient
            } else {
                x.requestor
            });
            assert(found@.take(i + 1).map_values(GameView::partner(sid)) =~= found@.take(
                i as int,
            ).map_values(GameView::partner(sid)).push(x.other(sid)));
        }
        proof {
            crate::lists::lemma_take_all(found@);
        }
        partners
    }
}

/// Answers the requests to a nation. One from before the end of the spawn phase is turned
/// down.
pub fn handle_alliance_requests(
    game: &mut Game,
    random: &mut PseudoRandom,
    small_id: u16,
    emoji: &mut NationEmojiState,
)
    requires
        old(game).wf(),
    ensures
        final(game).wf(),
        mind(*final(game), *final(random), *final(emoji)) == (if old(
            game,
        )@.config.disable_alliances {
            mind(*old(game), *old(random), *old(emoji))
        } else {
            mind(*old(game), *old(random), *old(emoji)).answering(
                small_id,
                old(game)@.requests_to(small_id),
            )
        }),
{
    if game.wire.disable_alliances {
        return;
    }
    let ghost start = mind(*game, *random, *emoji);
    let tick: u32 = game.ticks();
    let requests = game.incoming_alliance_requests(small_id);
    assert(requests@.take(0) =~= Seq::<AllianceRequest>::empty());
    for i in 0..requests.len()
        invariant
            game.wf(),
            tick == start.game.tick,
            mind(*game, *random, *emoji) == start.answering(small_id, requests@.take(i as int)),
    {
        assert(requests@.take(i + 1).drop_last() =~= requests@.take(i as int));
        let r: AllianceRequest = requests[i];
        if r.created_at as u64 <= game.wire.num_spawn_phase_turns as u64 + 1 {
            game.reject_alliance_request(r.requestor_small_id, small_id);
        } else if get_alliance_decision(game, random, small_id, r.requestor_small_id, true, emoji) {
            game.accept_alliance_request(r.requestor_small_id, small_id, tick);
        } else {
            game.reject_alliance_request(r.requestor_small_id, small_id);
        }
    }
    proof {
        crate::lists::lemma_take_all(requests@);
    }
}

/// Decides whether a nation wants to extend the alliances that can be.
pub fn handle_alliance_extension_requests(
    game: &mut Game,
    random: &mut PseudoRandom,
    small_id: u16,
    emoji: &mut NationEmojiState,
)
    requires
        old(game).wf(),
    ensures
        final(game).wf(),
        mind(*final(game), *final(random), *final(emoji)) == (if old(
            game,
        )@.config.disable_alliances {
            mind(*old(game), *old(random), *old(emoji))
        } else {
            mind(*old(game), *old(random), *old(emoji)).extending(
                small_id,
                old(game)@.extension_partners(small_id),
            )
        }),
{
    if game.wire.disable_alliances {
        return;
    }
    let ghost start = mind(*game, *random, *emoji);
    let partners = game.alliance_extension_candidates(small_id);
    assert(partners@.take(0) =~= Seq::<u16>::empty());
    for i in 0..partners.len()
        invariant
            game.wf(),
            mind(*game, *random, *emoji) == start.extending(small_id, partners@.take(i as int)),
    {
        assert(partners@.take(i + 1).drop_last() =~= partners@.take(i as int));
        let other: u16 = partners[i];
        if get_alliance_decision(game, random, small_id, other, true, emoji) {
            let id: Option<String> = match game.player_by_small_id(other) {
                Some(p) => Some(p.id.clone()),
                None => None,
            };
            if let Some(id) = id {
                game.add_execution(
                    ExecEnum::AllianceExtension(AllianceExtensionExecution::new(small_id, id)),
                );
            }
        }
    }
    proof {
        crate::lists::lemma_take_all(partners@);
    }
}

/// Has a nation ask those at its border for alliances, now and then.
pub fn maybe_send_alliance_requests(
    game: &mut Game,
    random: &mut PseudoRandom,
    small_id: u16,
    bordering_enemies: &Vec<u16>,
    emoji: &mut NationEmojiState,
)
    requires
        old(game).wf(),
    ensures
        final(game).wf(),
        mind(*final(game), *final(random), *final(emoji)) == (if old(
            game,
        )@.config.disable_alliances {
            mind(*old(game), *old(random), *old(emoji))
        } else {
            mind(*old(game), *old(random), *old(emoji)).courting(small_id, bordering_enemies@)
        }),
{
    if game.wire.disable_alliances {
        return;
    }
    let ghost start = mind(*game, *random, *emoji);
    assert(bordering_enemies@.take(0) =~= Seq::<u16>::empty());
    for i in 0..bordering_enemies.len()
        invariant
            game.wf(),
            mind(*game, *random, *emoji) == start.courting(
                small_id,
                bordering_enemies@.take(i as int),
            ),
    {
        assert(bordering_enemies@.take(i + 1).drop_last() =~= bordering_enemies@.take(i as int));
        let enemy: u16 = bordering_enemies[i];
        if random.chance(30) {
            let id: Option<String> = match game.player_by_small_id(enemy) {
                Some(p) => if p.player_type != PlayerType::Bot || game.wire.difficulty
                    == Difficulty::Easy {
                    Some(p.id.clone())
                } else {
                    None
                },
                None => None,
            };
            if let Some(id) = id {
                if game.can_send_alliance_request(small_id, enemy) && get_alliance_decision(
                    game,
                    random,
                    small_id,
                    enemy,
                    false,
                    emoji,
                ) {
                    game.add_execution(
                        ExecEnum::AllianceRequest(AllianceRequestExecution::new(small_id, id)),
                    );
                }
            }
        }
    }
    proof {
        crate::lists::lemma_take_all(bordering_enemies@);
    }
}

/// Ends the alliance with `target_small_id` where the attacker stands to gain by it.
pub fn maybe_betray(
    game: &mut Game,
    attacker_small_id: u16,
    target_small_id: u16,
    bordering_player_count: usize,
) -> (betrayed: bool)
    requires
        old(game).wf(),
    ensures
        final(game).wf(),
        betrayed == old(game)@.betrays(
            attacker_small_id,
            target_small_id,
            bordering_player_count as int,
        ),
        final(game)@ == (if betrayed {
            old(game)@.betraying(attacker_small_id, target_small_id)
        } else {
            old(game)@
        }),
{
    if !would_betray(game, attacker_small_id, target_small_id, bordering_player_count) {
        return false;
    }
    game.break_alliance_between(attacker_small_id, target_small_id);
    true
}

/// Whether the attacker stands to gain by ending its alliance with the target.
pub fn would_betray(
    game: &Game,
    attacker_small_id: u16,
    target_small_id: u16,
    bordering_player_count: usize,
) -> (betrays: bool)
    requires
        game@.wf(),
    ensures
        betrays == game@.betrays(
            attacker_small_id,
            target_small_id,
            bordering_player_count as int,
        ),
{
    if !game.is_allied_with(attacker_small_id, target_small_id) {
        return false;
    }
    if game.player_by_small_id(attacker_small_id).is_none() || game.player_by_small_id(
        target_small_id,
    ).is_none() {
        return false;
    }
    let easy = game.wire.difficulty == Difficulty::Easy;
    let mild = easy || game.wire.difficulty == Difficulty::Medium;
    let a: i64 = game.troops_of(attacker_small_id);
    let t: i64 = game.troops_of(target_small_id);
    if !mild {
        let limit: i128 = game.max_troops_for(target_small_id) as i128 * 100;
        let total: i128 = game.total_troops_of(target_small_id);
        if total * 5 < limit && t < a {
            return true;
        }
    }
    if mild && !(easy && game.is_of_type(target_small_id, PlayerType::Human)) && a >= t * 10 {
        return true;
    }
    if !easy && game.is_traitor(target_small_id) && t < a * 6 / 5 {
        return true;
    }
    !easy && bordering_player_count == 1 && t * 3 < a
}

} // verus!
