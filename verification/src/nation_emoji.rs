//! When nations send emojis.

use std::collections::HashMap;
use vstd::prelude::*;

use crate::config::TROOP_SCALE;
use crate::game::{Game, GameView};
use crate::game_war::AttackInfo;
use crate::prng::PseudoRandom;
use crate::state::{PlayerType, Relation};

verus! {

pub const EMOJI_OVERWHELMED_LEN: i32 = 8;

pub const EMOJI_CONFUSED_LEN: i32 = 2;

pub const EMOJI_BORED_LEN: i32 = 1;

pub const EMOJI_CONGRATULATE_LEN: i32 = 1;

pub const EMOJI_BRAG_LEN: i32 = 3;

pub const EMOJI_LOVE_LEN: i32 = 3;

pub const EMOJI_CHARM_ALLIES_LEN: i32 = 3;

pub const EMOJI_CLOWN_LEN: i32 = 2;

pub const EMOJI_RAT_LEN: i32 = 1;

pub const EMOJI_GREET_LEN: i32 = 1;

pub const EMOJI_ATTACK_LEN: i32 = 1;

/// The ticks between two emojis that a nation sends of its own accord to one player.
pub const EMOJI_PAUSE: u32 = 300;

/// What a nation remembers of the emojis it sent.
pub struct NationEmojiState {
    last_emoji_sent: HashMap<u16, u32>,
    game_over: bool,
}

/// What a nation remembers of its emojis, as contracts see it.
#[verifier::ext_equal]
pub struct EmojiView {
    /// When each player was last sent one.
    pub last: Map<u16, u32>,
    /// Whether the nation has congratulated the winner.
    pub over: bool,
}

impl View for NationEmojiState {
    type V = EmojiView;

    closed spec fn view(&self) -> EmojiView {
        EmojiView { last: self.last_emoji_sent@, over: self.game_over }
    }
}

impl Default for NationEmojiState {
    fn default() -> (state: Self)
        ensures
            state@ == (EmojiView { last: Map::empty(), over: false }),
    {
        NationEmojiState { last_emoji_sent: HashMap::new(), game_over: false }
    }
}

/// A nation's world: the game, its random numbers and its memory of emojis.
#[verifier::ext_equal]
pub struct Mind {
    pub game: GameView,
    pub rng: u64,
    pub emoji: EmojiView,
}

/// The world that a nation acts in.
pub open spec fn mind(game: Game, random: PseudoRandom, emoji: NationEmojiState) -> Mind {
    Mind { game: game@, rng: random.state, emoji: emoji@ }
}

/// The player with the most tiles, the last where several have as many.
pub open spec fn largest(game: GameView, ids: Seq<u16>) -> Option<u16>
    decreases ids.len(),
{
    if ids.len() == 0 {
        None
    } else {
        match largest(game, ids.drop_last()) {
            Some(best) => if game.tiles_owned(ids.last()) >= game.tiles_owned(best) {
                Some(ids.last())
            } else {
                Some(best)
            },
            None => Some(ids.last()),
        }
    }
}

impl GameView {
    pub open spec fn human(self) -> spec_fn(u16) -> bool {
        |id: u16| self.of_type(id, PlayerType::Human)
    }

    pub open spec fn nation(self) -> spec_fn(u16) -> bool {
        |id: u16| self.of_type(id, PlayerType::Nation)
    }

    pub open spec fn human_traitor_to(self, sid: u16) -> spec_fn(u16) -> bool {
        |id: u16|
            self.of_type(id, PlayerType::Human) && !self.is_friendly(sid, id) && self.is_traitor(id)
    }

    /// A human that owns some land, but less than a hundredth of it all.
    pub open spec fn small_human(self) -> spec_fn(u16) -> bool {
        |id: u16|
            self.of_type(id, PlayerType::Human) && self.tiles_owned(id) * 100 < self.land()
                && self.tiles_owned(id) > 0
    }
}

impl Mind {
    /// After one draw.
    pub open spec fn drawn(self) -> Mind {
        Mind { rng: crate::prng::next_state(self.rng), ..self }
    }

    pub open spec fn hit(self, n: int) -> bool {
        crate::prng::chance_drawn(self.rng, n)
    }

    /// Whether nothing keeps `sid` from sending an emoji to `recipient`: only humans get
    /// one, bots send none, and where `paced`, the last one has to be a while ago. One to
    /// everybody is always wanted.
    pub open spec fn wants_emoji(self, sid: u16, recipient: Option<u16>, paced: bool) -> bool {
        match recipient {
            None => true,
            Some(r) => {
                &&& self.game.has(sid)
                &&& !self.game.of_type(sid, PlayerType::Bot)
                &&& self.game.of_type(r, PlayerType::Human)
                &&& paced && self.emoji.last.contains_key(r) ==> self.game.tick - self.emoji.last[r]
                    > EMOJI_PAUSE
                &&& paced && !self.emoji.last.contains_key(r) ==> self.game.tick + 300 > EMOJI_PAUSE
            },
        }
    }

    /// After the nation decided whether to send an emoji, which starts the pause.
    pub open spec fn paced(self, sid: u16, recipient: Option<u16>) -> Mind {
        if self.wants_emoji(sid, recipient, true) && recipient is Some {
            Mind {
                emoji: EmojiView {
                    last: self.emoji.last.insert(recipient->0, self.game.tick),
                    ..self.emoji
                },
                ..self
            }
        } else {
            self
        }
    }

    /// After an emoji was sent where that is allowed; which one takes a draw.
    pub open spec fn sending(self, sid: u16, recipient: Option<u16>) -> Mind {
        if self.wants_emoji(sid, recipient, false) && self.game.may_send_emoji(sid, recipient) {
            Mind { game: self.game.emoting(sid, recipient), ..self.drawn() }
        } else {
            self
        }
    }

    /// After an emoji was sent where that is allowed and the pause is over.
    pub open spec fn pacing(self, sid: u16, recipient: Option<u16>) -> Mind {
        if self.wants_emoji(sid, recipient, true) {
            self.paced(sid, recipient).sending(sid, recipient)
        } else {
            self
        }
    }

    /// After the nation commented on an attack it is about to send.
    pub open spec fn taunting(self, sid: u16, target: u16) -> Mind {
        if !self.wants_emoji(sid, Some(target), true) {
            self
        } else {
            let m = self.paced(sid, Some(target));
            let odds = if self.game.relation(sid, target).rank() >= Relation::Neutral.rank() {
                2int
            } else {
                4
            };
            if m.hit(odds) {
                m.drawn().sending(sid, Some(target))
            } else {
                m.drawn()
            }
        }
    }

    pub open spec fn overwhelmed(self, sid: u16) -> Mind {
        let m = self.drawn();
        let incoming = self.game.incoming(sid, false);
        if self.hit(16) && incoming.len() > 0 && crate::game_war::troop_sum(incoming)
            >= self.game.troops(sid) * 3 * TROOP_SCALE {
            m.sending(sid, None)
        } else {
            m
        }
    }

    /// After the nation answered each of `attacks` that is too small to matter.
    pub open spec fn puzzled_by(self, sid: u16, attacks: Seq<AttackInfo>) -> Mind
        decreases attacks.len(),
    {
        if attacks.len() == 0 {
            self
        } else {
            let m = self.puzzled_by(sid, attacks.drop_last());
            let a = attacks.last();
            if m.game.of_type(a.attacker_small_id, PlayerType::Human) && a.troops * 10
                < m.game.troops(sid) * TROOP_SCALE {
                m.drawn().pacing(sid, Some(a.attacker_small_id))
            } else {
                m
            }
        }
    }

    pub open spec fn puzzled(self, sid: u16) -> Mind {
        let m = self.drawn();
        if self.hit(8) && self.game.troops(sid) > 0 {
            m.puzzled_by(sid, self.game.incoming(sid, false))
        } else {
            m
        }
    }

    pub open spec fn congratulating(self, sid: u16) -> Mind {
        match self.game.winner {
            None => self,
            Some(winner) => {
                let m = Mind { emoji: EmojiView { over: true, ..self.emoji }, ..self };
                if self.game.config.is_team() {
                    if self.game.in_team(sid, winner) {
                        m
                    } else {
                        m.sending(sid, None)
                    }
                } else {
                    match self.game.by_id(winner) {
                        None => m,
                        Some(p) => if largest(
                            self.game,
                            self.game.ids().filter(self.game.nation()),
                        ) == Some(sid) {
                            m.sending(sid, Some(p.small_id))
                        } else {
                            m
                        },
                    }
                }
            },
        }
    }

    pub open spec fn bragging(self, sid: u16) -> Mind {
        let m = self.drawn();
        if self.hit(300) && largest(self.game, self.game.ids()) == Some(sid) {
            m.sending(sid, None)
        } else {
            m
        }
    }

    /// The allies of a player that are human.
    pub open spec fn human_allies(self, sid: u16) -> Seq<u16> {
        self.game.allies(sid).filter(self.game.human())
    }

    pub open spec fn charming(self, sid: u16) -> Mind {
        let m = self.drawn();
        let allies = self.human_allies(sid);
        if self.hit(250) && allies.len() > 0 {
            let ally = crate::prng::element_drawn(m.rng, allies).0;
            m.drawn().drawn().sending(sid, ally)
        } else {
            m
        }
    }

    /// The humans that are traitors and not friendly to `sid`.
    pub open spec fn human_traitors(self, sid: u16) -> Seq<u16> {
        self.game.ids().filter(self.game.human_traitor_to(sid))
    }

    pub open spec fn annoying(self, sid: u16) -> Mind {
        let m = self.drawn();
        let traitors = self.human_traitors(sid);
        if self.hit(40) && traitors.len() > 0 {
            m.drawn().sending(sid, crate::prng::element_drawn(m.rng, traitors).0)
        } else {
            m
        }
    }

    /// The humans that own some land, but less than a hundredth of it all.
    pub open spec fn small_humans(self) -> Seq<u16> {
        self.game.ids().filter(self.game.small_human())
    }

    pub open spec fn ratting(self, sid: u16) -> Mind {
        if self.game.tick < 6000 {
            self
        } else {
            let m = self.drawn();
            let small = self.small_humans();
            if self.hit(10000) && small.len() > 0 {
                m.drawn().sending(sid, crate::prng::element_drawn(m.rng, small).0)
            } else {
                m
            }
        }
    }

    /// The humans near `sid`.
    pub open spec fn near_humans(self, sid: u16) -> Seq<u16> {
        self.game.near_ids(sid).filter(self.game.human())
    }

    pub open spec fn greeting(self, sid: u16) -> Mind {
        if self.game.tick > 600 {
            self
        } else {
            let m = self.drawn();
            let near = self.near_humans(sid);
            if self.hit(250) && near.len() > 0 {
                m.drawn().sending(sid, crate::prng::element_drawn(m.rng, near).0)
            } else {
                m
            }
        }
    }

    /// After the nation went through everything it might want to say.
    pub open spec fn chatting(self, sid: u16) -> Mind {
        if self.emoji.over {
            self
        } else {
            self.overwhelmed(sid).puzzled(sid).congratulating(sid).bragging(sid).charming(sid).annoying(
                sid,
            ).ratting(sid).greeting(sid)
        }
    }
}

/// Whether a nation has no reason not to send an emoji; where `paced`, notes that it does.
fn should_send_emoji(
    game: &Game,
    small_id: u16,
    state: &mut NationEmojiState,
    recipient: Option<u16>,
    paced: bool,
) -> (should: bool)
    ensures
        forall|rng: u64|
            should == (Mind { game: game@, rng, emoji: old(state)@ }).wants_emoji(
                small_id,
                recipient,
                paced,
            ),
        forall|rng: u64|
            #![trigger (Mind { game: game@, rng, emoji: old(state)@ }).paced(small_id, recipient)]
            final(state)@ == (if paced {
                (Mind { game: game@, rng, emoji: old(state)@ }).paced(small_id, recipient).emoji
            } else {
                old(state)@
            }),
{
    broadcast use vstd::std_specs::hash::group_hash_axioms;

    let to: u16 = match recipient {
        None => {
            return true;
        },
        Some(to) => to,
    };
    match game.player_by_small_id(small_id) {
        None => {
            return false;
        },
        Some(sender) => {
            if sender.player_type == PlayerType::Bot {
                return false;
            }
        },
    }
    if !game.is_of_type(to, PlayerType::Human) {
        return false;
    }
    if paced {
        let last: i64 = match state.last_emoji_sent.get(&to) {
            Some(tick) => *tick as i64,
            None => -300,
        };
        if game.tick as i64 - last <= EMOJI_PAUSE as i64 {
            return false;
        }
        state.last_emoji_sent.insert(to, game.tick);
    }
    true
}

/// Sends an emoji where that is allowed and the pause is over.
pub(crate) fn maybe_send_emoji(
    random: &mut PseudoRandom,
    game: &mut Game,
    small_id: u16,
    state: &mut NationEmojiState,
    recipient: Option<u16>,
    emoji_list_len: i32,
)
    requires
        old(game).wf(),
        emoji_list_len >= 0,
    ensures
        final(game).wf(),
        mind(*final(game), *final(random), *final(state)) == mind(
            *old(game),
            *old(random),
            *old(state),
        ).pacing(small_id, recipient),
{
    let ghost m = mind(*game, *random, *state);
    if !should_send_emoji(game, small_id, state, recipient, true) {
        assert(!m.wants_emoji(small_id, recipient, true));
        assert(m.paced(small_id, recipient) == m);
        return;
    }
    assert(m.wants_emoji(small_id, recipient, true));
    assert(mind(*game, *random, *state) == m.paced(small_id, recipient));
    send_emoji(random, game, small_id, state, recipient, emoji_list_len);
}

/// Sends an emoji where that is allowed; which of `emoji_list_len` takes a draw.
pub fn send_emoji(
    random: &mut PseudoRandom,
    game: &mut Game,
    small_id: u16,
    state: &mut NationEmojiState,
    recipient: Option<u16>,
    emoji_list_len: i32,
)
    requires
        old(game).wf(),
        emoji_list_len >= 0,
    ensures
        final(game).wf(),
        mind(*final(game), *final(random), *final(state)) == mind(
            *old(game),
            *old(random),
            *old(state),
        ).sending(small_id, recipient),
{
    let ghost m = mind(*game, *random, *state);
    if !should_send_emoji(game, small_id, state, recipient, false) {
        assert(!m.wants_emoji(small_id, recipient, false));
        assert(m.paced(small_id, recipient).game == m.game);
        return;
    }
    assert(m.wants_emoji(small_id, recipient, false));
    assert(m.paced(small_id, recipient).game == m.game);
    if !game.can_send_emoji(small_id, recipient) {
        return;
    }
    random.next_int(0, emoji_list_len);
    game.record_emoji_send(small_id, recipient);
}

/// Comments on an attack that is about to be sent.
pub fn maybe_send_attack_emoji(
    game: &mut Game,
    random: &mut PseudoRandom,
    small_id: u16,
    state: &mut NationEmojiState,
    target_small_id: u16,
)
    requires
        old(game).wf(),
    ensures
        final(game).wf(),
        mind(*final(game), *final(random), *final(state)) == mind(
            *old(game),
            *old(random),
            *old(state),
        ).taunting(small_id, target_small_id),
{
    let ghost m = mind(*game, *random, *state);
    if !should_send_emoji(game, small_id, state, Some(target_small_id), true) {
        assert(!m.wants_emoji(small_id, Some(target_small_id), true));
        assert(m.paced(small_id, Some(target_small_id)) == m);
        return;
    }
    assert(m.wants_emoji(small_id, Some(target_small_id), true));
    assert(mind(*game, *random, *state) == m.paced(small_id, Some(target_small_id)));
    let odds: i32 = if game.relation(small_id, target_small_id).is_at_least(Relation::Neutral) {
        2
    } else {
        4
    };
    if !random.chance(odds) {
        return;
    }
    send_emoji(random, game, small_id, state, Some(target_small_id), EMOJI_ATTACK_LEN);
}

/// The world of whoever a MIRV is sent at, which may cry out.
pub open spec fn crying_out(game: GameView, rng: u64, target: u16) -> (GameView, u64) {
    let drawn = crate::prng::next_state(rng);
    if crate::prng::chance_drawn(rng, 8) && game.may_send_emoji(target, None) {
        (game.emoting(target, None), crate::prng::next_state(drawn))
    } else {
        (game, drawn)
    }
}

/// Has whoever a MIRV is sent at cry out, now and then.
pub fn respond_to_mirv(game: &mut Game, random: &mut PseudoRandom, mirv_target_small_id: u16)
    requires
        old(game).wf(),
    ensures
        final(game).wf(),
        (final(game)@, final(random).state) == crying_out(
            old(game)@,
            old(random).state,
            mirv_target_small_id,
        ),
{
    if !random.chance(8) {
        return;
    }
    if !game.can_send_emoji(mirv_target_small_id, None) {
        return;
    }
    random.next_int(0, EMOJI_OVERWHELMED_LEN);
    game.record_emoji_send(mirv_target_small_id, None);
}

fn largest_of(game: &Game, ids: &Vec<u16>) -> (best: Option<u16>)
    requires
        game@.wf(),
    ensures
        best == largest(game@, ids@),
{
    let mut best: Option<u16> = None;
    assert(ids@.take(0) =~= Seq::<u16>::empty());
    for i in 0..ids.len()
        invariant
            game@.wf(),
            best == largest(game@, ids@.take(i as int)),
    {
        assert(ids@.take(i + 1).drop_last() =~= ids@.take(i as int));
        match best {
            Some(held) => {
                if game.tiles_of(ids[i]) >= game.tiles_of(held) {
                    best = Some(ids[i]);
                }
            },
            None => {
                best = Some(ids[i]);
            },
        }
    }
    proof {
        crate::lists::lemma_take_all(ids@);
    }
    best
}

fn check_overwhelmed_by_attacks(
    game: &mut Game,
    random: &mut PseudoRandom,
    small_id: u16,
    state: &mut NationEmojiState,
)
    requires
        old(game).wf(),
    ensures
        final(game).wf(),
        mind(*final(game), *final(random), *final(state)) == mind(
            *old(game),
            *old(random),
            *old(state),
        ).overwhelmed(small_id),
{
    if !random.chance(16) {
        return;
    }
    let incoming = game.incoming_attacks(small_id, false);
    if incoming.len() == 0 {
        return;
    }
    let incoming_troops: i128 = crate::game_war::total_troops(&incoming);
    let our_troops: i64 = game.troops_of(small_id);
    if incoming_troops >= our_troops as i128 * 3 * TROOP_SCALE as i128 {
        send_emoji(random, game, small_id, state, None, EMOJI_OVERWHELMED_LEN);
    }
}

fn check_very_small_attack(
    game: &mut Game,
    random: &mut PseudoRandom,
    small_id: u16,
    state: &mut NationEmojiState,
)
    requires
        old(game).wf(),
    ensures
        final(game).wf(),
        mind(*final(game), *final(random), *final(state)) == mind(
            *old(game),
            *old(random),
            *old(state),
        ).puzzled(small_id),
{
    let ghost start = mind(*game, *random, *state).drawn();
    if !random.chance(8) {
        return;
    }
    let incoming = game.incoming_attacks(small_id, false);
    let our_troops: i64 = game.troops_of(small_id);
    if our_troops <= 0 {
        return;
    }
    assert(incoming@.take(0) =~= Seq::<AttackInfo>::empty());
    for i in 0..incoming.len()
        invariant
            game.wf(),
            our_troops == game@.troops(small_id),
            0 <= our_troops <= crate::state::MAX_TROOPS,
            forall|k: int|
                0 <= k < incoming@.len() ==> -crate::state::MAX_ATTACK <= (
                #[trigger] incoming@[k]).troops <= crate::state::MAX_ATTACK,
            mind(*game, *random, *state) == start.puzzled_by(small_id, incoming@.take(i as int)),
    {
        assert(incoming@.take(i + 1).drop_last() =~= incoming@.take(i as int));
        let attack: AttackInfo = incoming[i];
        assert(incoming@[i as int] == attack);
        if game.is_of_type(attack.attacker_small_id, PlayerType::Human) && attack.troops * 10
            < our_troops * TROOP_SCALE {
            let emoji_len: i32 = if random.chance(2) {
                EMOJI_CONFUSED_LEN
            } else {
                EMOJI_BORED_LEN
            };
            maybe_send_emoji(
                random,
                game,
                small_id,
                state,
                Some(attack.attacker_small_id),
                emoji_len,
            );
        }
    }
    proof {
        crate::lists::lemma_take_all(incoming@);
    }
}

fn congratulate_winner(
    game: &mut Game,
    random: &mut PseudoRandom,
    small_id: u16,
    state: &mut NationEmojiState,
)
    requires
        old(game).wf(),
    ensures
        final(game).wf(),
        mind(*final(game), *final(random), *final(state)) == mind(
            *old(game),
            *old(random),
            *old(state),
        ).congratulating(small_id),
{
    let winner: String = match &game.winner {
        None => {
            return;
        },
        Some(winner) => winner.clone(),
    };
    state.game_over = true;
    if game.wire.game_mode == crate::config::GameMode::Team {
        if game.is_on_same_team(small_id, &winner) {
            return;
        }
        send_emoji(random, game, small_id, state, None, EMOJI_CONGRATULATE_LEN);
        return;
    }
    let winner_id: u16 = match game.player_by_id(&winner) {
        None => {
            return;
        },
        Some(p) => p.small_id,
    };
    let ids = game.player_ids();
    let game_now: &Game = game;
    let accepts = |id: u16| -> (nation: bool)
        ensures
            nation == game_now@.of_type(id, PlayerType::Nation),
        { game_now.is_of_type(id, PlayerType::Nation) };
    let nations = crate::lists::filter_by(&ids, accepts, Ghost(game_now@.nation()));
    let best = largest_of(game, &nations);
    match best {
        None => {
            return;
        },
        Some(best) => {
            if best != small_id {
                return;
            }
        },
    }
    send_emoji(random, game, small_id, state, Some(winner_id), EMOJI_CONGRATULATE_LEN);
}

fn brag(game: &mut Game, random: &mut PseudoRandom, small_id: u16, state: &mut NationEmojiState)
    requires
        old(game).wf(),
    ensures
        final(game).wf(),
        mind(*final(game), *final(random), *final(state)) == mind(
            *old(game),
            *old(random),
            *old(state),
        ).bragging(small_id),
{
    if !random.chance(300) {
        return;
    }
    let ids = game.player_ids();
    match largest_of(game, &ids) {
        None => {
            return;
        },
        Some(best) => {
            if best != small_id {
                return;
            }
        },
    }
    send_emoji(random, game, small_id, state, None, EMOJI_BRAG_LEN);
}

fn charm_allies(
    game: &mut Game,
    random: &mut PseudoRandom,
    small_id: u16,
    state: &mut NationEmojiState,
)
    requires
        old(game).wf(),
    ensures
        final(game).wf(),
        mind(*final(game), *final(random), *final(state)) == mind(
            *old(game),
            *old(random),
            *old(state),
        ).charming(small_id),
{
    if !random.chance(250) {
        return;
    }
    let allies = game.allied_small_ids(small_id);
    let game_now: &Game = game;
    let accepts = |id: u16| -> (human: bool)
        ensures
            human == game_now@.of_type(id, PlayerType::Human),
        { game_now.is_of_type(id, PlayerType::Human) };
    let human_allies = crate::lists::filter_by(&allies, accepts, Ghost(game_now@.human()));
    if human_allies.len() == 0 {
        return;
    }
    let ally = random.rand_element(human_allies.as_slice());
    let emoji_len: i32 = if random.chance(3) {
        EMOJI_LOVE_LEN
    } else {
        EMOJI_CHARM_ALLIES_LEN
    };
    send_emoji(random, game, small_id, state, ally, emoji_len);
}

fn annoy_traitors(
    game: &mut Game,
    random: &mut PseudoRandom,
    small_id: u16,
    state: &mut NationEmojiState,
)
    requires
        old(game).wf(),
    ensures
        final(game).wf(),
        mind(*final(game), *final(random), *final(state)) == mind(
            *old(game),
            *old(random),
            *old(state),
        ).annoying(small_id),
{
    if !random.chance(40) {
        return;
    }
    let ids = game.player_ids();
    let game_now: &Game = game;
    let accepts = |id: u16| -> (traitor: bool)
        ensures
            traitor == (game_now@.of_type(id, PlayerType::Human) && !game_now@.is_friendly(
                small_id,
                id,
            ) && game_now@.is_traitor(id)),
        {
            game_now.is_of_type(id, PlayerType::Human) && !game_now.is_friendly(small_id, id)
                && game_now.is_traitor(id)
        };
    let traitors = crate::lists::filter_by(
        &ids,
        accepts,
        Ghost(game_now@.human_traitor_to(small_id)),
    );
    if traitors.len() == 0 {
        return;
    }
    let traitor = random.rand_element(traitors.as_slice());
    send_emoji(random, game, small_id, state, traitor, EMOJI_CLOWN_LEN);
}

fn find_rat(game: &mut Game, random: &mut PseudoRandom, small_id: u16, state: &mut NationEmojiState)
    requires
        old(game).wf(),
    ensures
        final(game).wf(),
        mind(*final(game), *final(random), *final(state)) == mind(
            *old(game),
            *old(random),
            *old(state),
        ).ratting(small_id),
{
    if game.ticks() < 6000 {
        return;
    }
    if !random.chance(10000) {
        return;
    }
    let land: i64 = game.num_land_tiles() as i64;
    let ids = game.player_ids();
    let game_now: &Game = game;
    let accepts = |id: u16| -> (small: bool)
        ensures
            small == (game_now@.of_type(id, PlayerType::Human) && game_now@.tiles_owned(id) * 100
                < game_now@.land() && game_now@.tiles_owned(id) > 0),
        {
            game_now.is_of_type(id, PlayerType::Human) && game_now.tiles_of(id) * 100 < land
                && game_now.tiles_of(id) > 0
        };
    let small = crate::lists::filter_by(&ids, accepts, Ghost(game_now@.small_human()));
    if small.len() == 0 {
        return;
    }
    let target = random.rand_element(small.as_slice());
    send_emoji(random, game, small_id, state, target, EMOJI_RAT_LEN);
}

fn greet_nearby_players(
    game: &mut Game,
    random: &mut PseudoRandom,
    small_id: u16,
    state: &mut NationEmojiState,
)
    requires
        old(game).wf(),
    ensures
        final(game).wf(),
        mind(*final(game), *final(random), *final(state)) == mind(
            *old(game),
            *old(random),
            *old(state),
        ).greeting(small_id),
{
    if game.ticks() > 600 {
        return;
    }
    if !random.chance(250) {
        return;
    }
    let near = crate::ai_attack::nearby_player_small_ids(game, small_id);
    let game_now: &Game = game;
    let accepts = |id: u16| -> (human: bool)
        ensures
            human == game_now@.of_type(id, PlayerType::Human),
        { game_now.is_of_type(id, PlayerType::Human) };
    let humans = crate::lists::filter_by(&near, accepts, Ghost(game_now@.human()));
    if humans.len() == 0 {
        return;
    }
    let neighbor = random.rand_element(humans.as_slice());
    send_emoji(random, game, small_id, state, neighbor, EMOJI_GREET_LEN);
}

/// Goes through everything a nation might want to say.
pub fn maybe_send_casual_emoji(
    game: &mut Game,
    random: &mut PseudoRandom,
    small_id: u16,
    state: &mut NationEmojiState,
)
    requires
        old(game).wf(),
    ensures
        final(game).wf(),
        mind(*final(game), *final(random), *final(state)) == mind(
            *old(game),
            *old(random),
            *old(state),
        ).chatting(small_id),
{
    if state.game_over {
        return;
    }
    check_overwhelmed_by_attacks(game, random, small_id, state);
    check_very_small_attack(game, random, small_id, state);
    congratulate_winner(game, random, small_id, state);
    brag(game, random, small_id, state);
    charm_allies(game, random, small_id, state);
    annoy_traitors(game, random, small_id, state);
    find_rat(game, random, small_id, state);
    greet_nearby_players(game, random, small_id, state);
}

} // verus!
