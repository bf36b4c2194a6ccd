//! What a nation does on its ticks.
//!
//! The ships that a nation sends out are steered by the engine. [`watches_ships`] says whether
//! a nation begins its tick with them, [`due`] what it does next. [`open_turn`], [`wage_war`]
//! and [`launch_nukes`] are the parts of a turn between which the engine gives the ships their
//! orders; [`tick_nation_post_spawn`] runs all three.

use std::collections::HashSet;

use vstd::prelude::*;

use crate::ai_forces::{Campaign, MAX_SENT};
use crate::ai_strategy::Stance;
use crate::config::{Difficulty, GameMode, TROOP_SCALE};
use crate::game::{Game, GameView};
use crate::map::MapView;
use crate::nation_emoji::{EmojiView, Mind, NationEmojiState};
use crate::nuke_ai::{Arsenal, NationNukeState, NukeMemory, MAX_PERCEIVED_COST};
use crate::ordered_tiles::TileRef;
use crate::prng::PseudoRandom;
use crate::state::{PlayerType, Relation};
use crate::unit_type::UnitType;

verus! {

/// The part of its own troops that has to come against a nation before it puts defence
/// first, in percent.
pub const UNDER_ATTACK_THREAT_PERCENT: i64 = 35;

/// From this much gold to start with, nations space out their first structures.
pub const HIGH_STARTING_GOLD_THRESHOLD: i64 = 3_000_000;

/// How long a nation in a team builds, and then saves, once it has saved up.
pub const TEAM_POST_SAVE_UP_PHASE_TICKS: u32 = 150;

/// How much a nation thinks less of a player that does not trade with it.
pub const EMBARGO_MALUS: i32 = -20;

/// What a nation does on a tick, its ships aside.
#[derive(Clone, Copy, Debug, PartialEq, Eq, Structural)]
pub enum Due {
    Nothing,
    Structures,
    Turn,
}

/// What a nation does on a tick: it has a turn once in `rate` ticks, and structures twice in
/// between.
pub open spec fn due_at(now: u32, rate: u32, tick: u32) -> Due {
    let offset = now % rate;
    if offset == tick {
        Due::Turn
    } else if offset == (tick + rate / 3) % (rate as int) || offset == (tick + rate * 2 / 3) % (
    rate as int) {
        Due::Structures
    } else {
        Due::Nothing
    }
}

/// What a nation remembers of its structures.
#[derive(Clone, Copy, Debug, PartialEq, Eq, Structural)]
pub struct NationStructureState {
    pub placements_count: u32,
    pub last_structure_tick: Option<u32>,
    pub post_save_up_start_tick: Option<u32>,
}

impl Default for NationStructureState {
    fn default() -> (state: Self)
        ensures
            state.placements_count == 0,
            state.last_structure_tick is None,
            state.post_save_up_start_tick is None,
    {
        NationStructureState {
            placements_count: 0,
            last_structure_tick: None,
            post_save_up_start_tick: None,
        }
    }
}

/// What a nation remembers from one turn to the next.
pub struct NationBehaviorState {
    pub structure: NationStructureState,
    /// The players that the nation thinks less of for their embargo.
    pub embargo_malus_applied: HashSet<u16>,
    pub emoji: NationEmojiState,
    pub is_hydro_nation: bool,
    pub nuke: NationNukeState,
}

/// A nation's memory as contracts see it.
#[verifier::ext_equal]
pub struct Temper {
    pub structure: NationStructureState,
    pub maluses: Set<u16>,
    pub emoji: EmojiView,
    pub hydro: bool,
    pub memory: NukeMemory,
}

impl View for NationBehaviorState {
    type V = Temper;

    open spec fn view(&self) -> Temper {
        Temper {
            structure: self.structure,
            maluses: self.embargo_malus_applied@,
            emoji: self.emoji@,
            hydro: self.is_hydro_nation,
            memory: self.nuke@,
        }
    }
}

/// The memory of a nation that has had no turn.
pub open spec fn blank() -> Temper {
    Temper {
        structure: NationStructureState {
            placements_count: 0,
            last_structure_tick: None,
            post_save_up_start_tick: None,
        },
        maluses: Set::empty(),
        emoji: EmojiView { last: Map::empty(), over: false },
        hydro: false,
        memory: NukeMemory {
            recent: Seq::empty(),
            atoms: 0,
            atom_cost: 0,
            hydrogens: 0,
            hydrogen_cost: 0,
        },
    }
}

impl Default for NationBehaviorState {
    fn default() -> (state: Self)
        ensures
            state@ == blank(),
            state@.wf(),
    {
        broadcast use vstd::std_specs::hash::group_hash_axioms;

        let structure = NationStructureState {
            placements_count: 0,
            last_structure_tick: None,
            post_save_up_start_tick: None,
        };
        NationBehaviorState {
            structure,
            embargo_malus_applied: HashSet::new(),
            emoji: NationEmojiState::default(),
            is_hydro_nation: false,
            nuke: NationNukeState::default(),
        }
    }
}

impl Temper {
    /// The prices that the nation has in mind are prices.
    pub open spec fn wf(self) -> bool {
        0 <= self.memory.atom_cost <= MAX_PERCEIVED_COST && 0 <= self.memory.hydrogen_cost
            <= MAX_PERCEIVED_COST
    }
}

/// A nation's turn: the game, its random numbers and its memory.
#[verifier::ext_equal]
pub struct Reign {
    pub game: GameView,
    pub rng: u64,
    pub temper: Temper,
}

pub open spec fn reign(game: Game, random: PseudoRandom, behavior: NationBehaviorState) -> Reign {
    Reign { game: game@, rng: random.state, temper: behavior@ }
}

/// How long after a structure the next one may follow where nations start with much gold,
/// by how many the nation has placed.
pub open spec fn structure_gap(placements: int) -> int {
    if placements == 2 {
        250
    } else if placements == 3 {
        150
    } else if placements == 4 {
        100
    } else {
        0
    }
}

impl GameView {
    /// The ids of all players but one.
    pub open spec fn others(self, sid: u16) -> Seq<u16> {
        self.ids().filter(crate::nation_tick::another(sid))
    }

    /// Whether a nation's enemies outweigh a third of its troops.
    pub open spec fn under_threat(self, sid: u16) -> bool {
        let incoming = crate::game_war::troop_sum(self.incoming(sid, false));
        self.config.difficulty != Difficulty::Easy && incoming > 0 && self.has(sid) && self.troops(
            sid,
        ) > 0 && incoming * 100 >= UNDER_ATTACK_THREAT_PERCENT * self.troops(sid) * TROOP_SCALE
    }

    /// Whether a nation has to wait before its next structure.
    pub open spec fn cooling(self, state: NationStructureState) -> bool {
        state.last_structure_tick is Some && self.config.starting_gold_nation
            >= HIGH_STARTING_GOLD_THRESHOLD && structure_gap(state.placements_count as int) > 0
            && crate::nation_tick::since(self.tick, state.last_structure_tick->0) < structure_gap(
            state.placements_count as int,
        )
    }

    /// When a nation began to spend what it saved up.
    pub open spec fn spending_since(self, sid: u16, state: NationStructureState) -> Option<u32> {
        if self.config.disabled(UnitType::MissileSilo) || self.savings() == 0
            || state.post_save_up_start_tick is Some || self.gold(sid) < self.savings() {
            state.post_save_up_start_tick
        } else {
            Some(self.tick)
        }
    }

    /// Whether a nation that has saved up saves again.
    pub open spec fn saving_again(self, sid: u16, state: NationStructureState) -> bool {
        !self.config.disabled(UnitType::MissileSilo) && self.savings() != 0 && self.spending_since(
            sid,
            state,
        ) is Some && crate::nation_tick::since(self.tick, self.spending_since(sid, state)->0) % (
        TEAM_POST_SAVE_UP_PHASE_TICKS * 2) >= TEAM_POST_SAVE_UP_PHASE_TICKS
    }

    /// The game after a nation made up its mind about trade with one player.
    pub open spec fn trade_with(self, sid: u16, other: u16) -> GameView {
        let difficulty = self.config.difficulty;
        let hard = difficulty == Difficulty::Hard || difficulty == Difficulty::Impossible;
        let relation = self.relation(sid, other);
        let embargo = self.embargoed(sid, other);
        if self.config.is_team() && hard && !self.of_type(other, PlayerType::Bot)
            && !self.on_same_team(sid, other) {
            if embargo {
                self
            } else {
                self.embargoing(sid, other, false, self.tick)
            }
        } else if relation == Relation::Hostile && !embargo && !self.on_same_team(sid, other) {
            self.embargoing(sid, other, false, self.tick)
        } else if embargo && (relation == Relation::Friendly && difficulty
            != Difficulty::Impossible || relation == Relation::Neutral && !hard) {
            self.unembargoing(sid, other)
        } else {
            self
        }
    }

    pub open spec fn trade_with_all(self, sid: u16, others: Seq<u16>) -> GameView
        decreases others.len(),
    {
        if others.len() == 0 {
            self
        } else {
            self.trade_with_all(sid, others.drop_last()).trade_with(sid, others.last())
        }
    }
}

/// Everybody but one.
pub open spec fn another(sid: u16) -> spec_fn(u16) -> bool {
    |id: u16| id != sid
}

/// The ticks from one to a later one, none where it is not later.
pub open spec fn since(tick: u32, start: u32) -> int {
    if tick > start {
        tick - start
    } else {
        0
    }
}

/// Nukes on the map.
pub open spec fn on_map(map: MapView) -> spec_fn((u32, TileRef, UnitType)) -> bool {
    |n: (u32, TileRef, UnitType)| map.valid(n.1)
}

impl Reign {
    pub open spec fn mind(self) -> Mind {
        Mind { game: self.game, rng: self.rng, emoji: self.temper.emoji }
    }

    /// The turn after the nation's mind changed.
    pub open spec fn minding(self, mind: Mind) -> Reign {
        Reign {
            game: mind.game,
            rng: mind.rng,
            temper: Temper { emoji: mind.emoji, ..self.temper },
        }
    }

    /// The turn after the nation noted whether one player trades with it.
    pub open spec fn resenting(self, sid: u16, other: u16) -> Reign {
        let embargo = self.game.embargoed(other, sid);
        let resented = self.temper.maluses.contains(other);
        if embargo && !resented {
            Reign {
                game: self.game.relating(sid, other, EMBARGO_MALUS as int),
                temper: Temper { maluses: self.temper.maluses.insert(other), ..self.temper },
                ..self
            }
        } else if !embargo && resented {
            Reign {
                game: self.game.relating(sid, other, -EMBARGO_MALUS),
                temper: Temper { maluses: self.temper.maluses.remove(other), ..self.temper },
                ..self
            }
        } else {
            self
        }
    }

    pub open spec fn resenting_all(self, sid: u16, others: Seq<u16>) -> Reign
        decreases others.len(),
    {
        if others.len() == 0 {
            self
        } else {
            self.resenting_all(sid, others.drop_last()).resenting(sid, others.last())
        }
    }

    /// The turn after the nation tried to build anything but a defence post.
    pub open spec fn building_up(self, sid: u16) -> Reign {
        let state = self.temper.structure;
        if self.game.cooling(state) {
            self
        } else {
            let noted = NationStructureState {
                post_save_up_start_tick: self.game.spending_since(sid, state),
                ..state
            };
            if self.game.saving_again(sid, state) {
                Reign { temper: Temper { structure: noted, ..self.temper }, ..self }
            } else {
                let (game, rng, built) = self.game.handling_structures(
                    self.rng,
                    sid,
                    state.placements_count as int,
                );
                let structure = if built {
                    NationStructureState {
                        last_structure_tick: Some(game.tick),
                        placements_count: crate::nation_tick::one_more(state.placements_count),
                        ..noted
                    }
                } else {
                    noted
                };
                Reign { game, rng, temper: Temper { structure, ..self.temper } }
            }
        }
    }

    /// The turn after the nation saw to its structures. Defence posts come first once it has
    /// built anything.
    #[verifier::opaque]
    pub open spec fn building(self, sid: u16) -> Reign {
        if self.temper.structure.placements_count > 0 && !self.game.config.disabled(
            UnitType::DefensePost,
        ) {
            let (game, rng, ordered) = self.game.fortifying(self.rng, sid);
            let fortified = Reign { game, rng, ..self };
            if ordered || game.under_threat(sid) {
                fortified
            } else {
                fortified.building_up(sid)
            }
        } else {
            self.building_up(sid)
        }
    }

    /// The turn after the nation sent an emoji for no reason.
    #[verifier::opaque]
    pub open spec fn talking(self, sid: u16) -> Reign {
        self.minding(self.mind().chatting(sid))
    }

    /// The turn after the nation answered requests for alliances.
    #[verifier::opaque]
    pub open spec fn answering(self, sid: u16) -> Reign {
        if self.game.config.disable_alliances {
            self
        } else {
            self.minding(self.mind().answering(sid, self.game.requests_to(sid)))
        }
    }

    /// The turn after the nation answered requests to extend alliances.
    #[verifier::opaque]
    pub open spec fn extending(self, sid: u16) -> Reign {
        if self.game.config.disable_alliances {
            self
        } else {
            self.minding(self.mind().extending(sid, self.game.extension_partners(sid)))
        }
    }

    /// The turn after the nation thought about a MIRV.
    #[verifier::opaque]
    pub open spec fn considering(self, sid: u16) -> Reign {
        self.minding(self.mind().considering(sid).0)
    }

    /// The first part of a turn: talk, alliances, a MIRV and structures.
    #[verifier::opaque]
    pub open spec fn opening(self, sid: u16) -> Reign {
        let talked = self.talking(sid);
        talked.resenting_all(sid, talked.game.others(sid)).answering(sid).extending(
            sid,
        ).considering(sid).building(sid)
    }

    /// The second part of a turn: trade and attacks. The troops sent against bots are
    /// counted.
    #[verifier::opaque]
    pub open spec fn warring(self, stance: Stance, sent: int) -> (Reign, int) {
        let traded = self.game.trade_with_all(stance.sid, self.game.others(stance.sid));
        let fought = Campaign { mind: Mind { game: traded, ..self.mind() }, sent }.waging(stance);
        (self.minding(fought.mind), fought.sent)
    }

    /// The last part of a turn: nukes. Those that went to no tile of the map are forgotten.
    #[verifier::opaque]
    pub open spec fn nuking(self, sid: u16) -> Reign {
        let memory = NukeMemory {
            recent: self.temper.memory.recent.filter(on_map(self.game.map)),
            ..self.temper.memory
        };
        let after = Arsenal { mind: self.mind(), memory }.nuking(sid, self.temper.hydro);
        let minded = self.minding(after.mind);
        Reign { temper: Temper { memory: after.memory, ..minded.temper }, ..minded }
    }

    /// A nation's tick, its ships aside.
    pub open spec fn ticking(self, stance: Stance, rate: u32, tick: u32, sent: int) -> (Reign, int) {
        match due_at(self.game.tick, rate, tick) {
            Due::Turn => {
                let (fought, total) = self.opening(stance.sid).warring(stance, sent);
                (fought.nuking(stance.sid), total)
            },
            Due::Structures => (self.building(stance.sid), sent),
            Due::Nothing => (self, sent),
        }
    }
}

/// A count after one more, as far as it goes.
pub open spec fn one_more(n: u32) -> u32 {
    if n < u32::MAX {
        (n + 1) as u32
    } else {
        n
    }
}

/// Sets up what a nation goes by: how dear its nukes seem, and whether it prefers hydrogen
/// bombs.
pub fn initialize_nation_behaviors(
    game: &Game,
    random: &mut PseudoRandom,
    small_id: u16,
    state: &mut NationBehaviorState,
)
    requires
        game@.wf(),
    ensures
        final(state)@ == (Temper {
            hydro: crate::prng::chance_drawn(old(random).state, 3),
            memory: NukeMemory {
                atom_cost: game@.cost(small_id, UnitType::AtomBomb) as i64,
                hydrogen_cost: game@.cost(small_id, UnitType::HydrogenBomb) as i64,
                ..old(state)@.memory
            },
            ..old(state)@
        }),
        final(state)@.wf(),
        final(random).state == crate::prng::next_state(old(random).state),
{
    state.nuke.atom_bomb_perceived_cost = game.structure_cost(small_id, UnitType::AtomBomb);
    state.nuke.hydrogen_bomb_perceived_cost = game.structure_cost(small_id, UnitType::HydrogenBomb);
    state.is_hydro_nation = random.chance(3);
}

fn other_ids(game: &Game, small_id: u16) -> (others: Vec<u16>)
    requires
        game@.wf(),
    ensures
        others@ == game@.others(small_id),
{
    let ids = game.player_ids();
    let accepts = |id: u16| -> (other: bool)
        ensures
            other == another(small_id)(id),
        { id != small_id };
    crate::lists::filter_by(&ids, accepts, Ghost(another(small_id)))
}

fn update_relations_from_embargos(
    game: &mut Game,
    random: &PseudoRandom,
    state: &mut NationBehaviorState,
    small_id: u16,
)
    requires
        old(game).wf(),
        old(state)@.wf(),
    ensures
        final(game).wf(),
        final(state)@.wf(),
        reign(*final(game), *random, *final(state)) == reign(
            *old(game),
            *random,
            *old(state),
        ).resenting_all(small_id, old(game)@.others(small_id)),
{
    broadcast use vstd::std_specs::hash::group_hash_axioms;

    let others = other_ids(game, small_id);
    assert(others@.take(0) =~= Seq::empty());
    for i in 0..others.len()
        invariant
            game.wf(),
            state@.wf(),
            reign(*game, *random, *state) == reign(*old(game), *random, *old(state)).resenting_all(
                small_id,
                others@.take(i as int),
            ),
    {
        assert(others@.take(i + 1).drop_last() =~= others@.take(i as int));
        let ghost before = reign(*game, *random, *state);
        let other: u16 = others[i];
        let embargo: bool = game.has_embargo_against(other, small_id);
        let resented: bool = state.embargo_malus_applied.contains(&other);
        if embargo && !resented {
            game.update_relation(small_id, other, EMBARGO_MALUS);
            state.embargo_malus_applied.insert(other);
        } else if !embargo && resented {
            game.update_relation(small_id, other, -EMBARGO_MALUS);
            state.embargo_malus_applied.remove(&other);
        }
        assert(reign(*game, *random, *state) =~= before.resenting(small_id, other));
    }
    proof {
        crate::lists::lemma_take_all(others@);
    }
}

fn has_high_starting_gold(game: &Game) -> (high: bool)
    ensures
        high == (game@.config.starting_gold_nation >= HIGH_STARTING_GOLD_THRESHOLD),
{
    game.wire.starting_gold_nation >= HIGH_STARTING_GOLD_THRESHOLD
}

fn is_on_structure_cooldown(game: &Game, state: &NationStructureState) -> (cooling: bool)
    ensures
        cooling == game@.cooling(*state),
{
    let last: u32 = match state.last_structure_tick {
        Some(last) => last,
        None => {
            return false;
        },
    };
    if !has_high_starting_gold(game) {
        return false;
    }
    let placed: u32 = state.placements_count;
    let gap: u32 = if placed == 2 {
        250
    } else if placed == 3 {
        150
    } else if placed == 4 {
        100
    } else {
        0
    };
    let now: u32 = game.ticks();
    let elapsed: u32 = if now > last {
        now - last
    } else {
        0
    };
    gap > 0 && elapsed < gap
}

fn is_in_post_save_up_blocked_phase(
    game: &Game,
    small_id: u16,
    state: &mut NationStructureState,
) -> (blocked: bool)
    requires
        game@.wf(),
    ensures
        blocked == game@.saving_again(small_id, *old(state)),
        *final(state) == (NationStructureState {
            post_save_up_start_tick: game@.spending_since(small_id, *old(state)),
            ..*old(state)
        }),
{
    if game.wire.is_unit_disabled(UnitType::MissileSilo) {
        return false;
    }
    let save_up: i64 = crate::nation_structures::save_up_target(game);
    if save_up == 0 {
        return false;
    }
    let now: u32 = game.ticks();
    let start: u32 = match state.post_save_up_start_tick {
        Some(start) => start,
        None => {
            if game.gold_of(small_id) < save_up {
                return false;
            }
            state.post_save_up_start_tick = Some(now);
            now
        },
    };
    let elapsed: u32 = if now > start {
        now - start
    } else {
        0
    };
    elapsed % (TEAM_POST_SAVE_UP_PHASE_TICKS * 2) >= TEAM_POST_SAVE_UP_PHASE_TICKS
}

fn defense_post_needed(game: &Game, small_id: u16) -> (needed: bool)
    requires
        game@.wf(),
    ensures
        needed == game@.under_threat(small_id),
{
    if game.wire.difficulty == Difficulty::Easy {
        return false;
    }
    let incoming: i128 = game.incoming_land_troops(small_id);
    if incoming <= 0 || game.player_by_small_id(small_id).is_none() {
        return false;
    }
    let troops: i64 = game.troops_of(small_id);
    troops > 0 && incoming * 100 >= UNDER_ATTACK_THREAT_PERCENT as i128 * troops as i128
        * TROOP_SCALE as i128
}

/// Sees to a nation's structures.
pub fn handle_structures(
    game: &mut Game,
    random: &mut PseudoRandom,
    small_id: u16,
    behavior: &mut NationBehaviorState,
)
    requires
        old(game).wf(),
        old(behavior)@.wf(),
    ensures
        final(game).wf(),
        final(behavior)@.wf(),
        reign(*final(game), *final(random), *final(behavior)) == reign(
            *old(game),
            *old(random),
            *old(behavior),
        ).building(small_id),
{
    reveal(Reign::building);
    if behavior.structure.placements_count > 0 && !game.wire.is_unit_disabled(
        UnitType::DefensePost,
    ) {
        if crate::defense_posts::try_build_defense_post(game, random, small_id) {
            return;
        }
        if defense_post_needed(game, small_id) {
            return;
        }
    }
    if is_on_structure_cooldown(game, &behavior.structure) {
        return;
    }
    if is_in_post_save_up_blocked_phase(game, small_id, &mut behavior.structure) {
        return;
    }
    let placed: u32 = behavior.structure.placements_count;
    let built: bool = crate::nation_structures::do_handle_structures(
        game,
        random,
        small_id,
        placed,
    );
    if built {
        behavior.structure.last_structure_tick = Some(game.ticks());
        behavior.structure.placements_count = if placed < u32::MAX {
            placed + 1
        } else {
            placed
        };
    }
}

/// Stops and takes up trade by how the nation regards the others.
fn handle_embargoes_to_hostile_nations(game: &mut Game, small_id: u16)
    requires
        old(game).wf(),
    ensures
        final(game).wf(),
        final(game)@ == old(game)@.trade_with_all(small_id, old(game)@.others(small_id)),
{
    let others = other_ids(game, small_id);
    assert(others@.take(0) =~= Seq::empty());
    for i in 0..others.len()
        invariant
            game.wf(),
            game@ == old(game)@.trade_with_all(small_id, others@.take(i as int)),
    {
        assert(others@.take(i + 1).drop_last() =~= others@.take(i as int));
        let other: u16 = others[i];
        let tick: u32 = game.ticks();
        let difficulty = game.wire.difficulty;
        let hard: bool = difficulty == Difficulty::Hard || difficulty == Difficulty::Impossible;
        let relation = game.relation(small_id, other);
        let embargo: bool = game.has_embargo_against(small_id, other);
        let team_mates: bool = game.players_on_same_team(small_id, other);
        if game.wire.game_mode == GameMode::Team && hard && !game.is_of_type(
            other,
            PlayerType::Bot,
        ) && !team_mates {
            if !embargo {
                game.add_embargo(small_id, other, false, tick);
            }
        } else if relation == Relation::Hostile && !embargo && !team_mates {
            game.add_embargo(small_id, other, false, tick);
        } else if embargo && (relation == Relation::Friendly && difficulty
            != Difficulty::Impossible || relation == Relation::Neutral && !hard) {
            game.stop_embargo(small_id, other);
        }
    }
    proof {
        crate::lists::lemma_take_all(others@);
    }
}

fn talk(
    game: &mut Game,
    random: &mut PseudoRandom,
    small_id: u16,
    behavior: &mut NationBehaviorState,
)
    requires
        old(game).wf(),
        old(behavior)@.wf(),
    ensures
        final(game).wf(),
        final(behavior)@.wf(),
        reign(*final(game), *final(random), *final(behavior)) == reign(
            *old(game),
            *old(random),
            *old(behavior),
        ).talking(small_id),
{
    reveal(Reign::talking);
    crate::nation_emoji::maybe_send_casual_emoji(game, random, small_id, &mut behavior.emoji);
}

fn answer_requests(
    game: &mut Game,
    random: &mut PseudoRandom,
    small_id: u16,
    behavior: &mut NationBehaviorState,
)
    requires
        old(game).wf(),
        old(behavior)@.wf(),
    ensures
        final(game).wf(),
        final(behavior)@.wf(),
        reign(*final(game), *final(random), *final(behavior)) == reign(
            *old(game),
            *old(random),
            *old(behavior),
        ).answering(small_id),
{
    reveal(Reign::answering);
    crate::nation_alliance::handle_alliance_requests(game, random, small_id, &mut behavior.emoji);
}

fn answer_extensions(
    game: &mut Game,
    random: &mut PseudoRandom,
    small_id: u16,
    behavior: &mut NationBehaviorState,
)
    requires
        old(game).wf(),
        old(behavior)@.wf(),
    ensures
        final(game).wf(),
        final(behavior)@.wf(),
        reign(*final(game), *final(random), *final(behavior)) == reign(
            *old(game),
            *old(random),
            *old(behavior),
        ).extending(small_id),
{
    reveal(Reign::extending);
    crate::nation_alliance::handle_alliance_extension_requests(
        game,
        random,
        small_id,
        &mut behavior.emoji,
    );
}

fn think_of_mirv(
    game: &mut Game,
    random: &mut PseudoRandom,
    small_id: u16,
    behavior: &mut NationBehaviorState,
)
    requires
        old(game).wf(),
        old(behavior)@.wf(),
    ensures
        final(game).wf(),
        final(behavior)@.wf(),
        reign(*final(game), *final(random), *final(behavior)) == reign(
            *old(game),
            *old(random),
            *old(behavior),
        ).considering(small_id),
{
    reveal(Reign::considering);
    let _ = crate::mirv_ai::consider_mirv(game, random, small_id, &mut behavior.emoji);
}

/// The first part of a nation's turn.
pub fn open_turn(
    game: &mut Game,
    random: &mut PseudoRandom,
    small_id: u16,
    behavior: &mut NationBehaviorState,
)
    requires
        old(game).wf(),
        old(behavior)@.wf(),
    ensures
        final(game).wf(),
        final(behavior)@.wf(),
        reign(*final(game), *final(random), *final(behavior)) == reign(
            *old(game),
            *old(random),
            *old(behavior),
        ).opening(small_id),
{
    reveal(Reign::opening);
    talk(game, random, small_id, behavior);
    update_relations_from_embargos(game, random, behavior, small_id);
    answer_requests(game, random, small_id, behavior);
    answer_extensions(game, random, small_id, behavior);
    think_of_mirv(game, random, small_id, behavior);
    handle_structures(game, random, small_id, behavior);
}

/// The second part of a nation's turn.
pub fn wage_war(
    game: &mut Game,
    random: &mut PseudoRandom,
    small_id: u16,
    behavior: &mut NationBehaviorState,
    trigger_ratio: u32,
    reserve_ratio: u32,
    expand_ratio: u32,
    bot_attack_troops_sent: &mut i64,
    difficulty: Difficulty,
)
    requires
        old(game).wf(),
        old(behavior)@.wf(),
        trigger_ratio <= 100,
        reserve_ratio <= 100,
        expand_ratio <= 100,
        0 <= *old(bot_attack_troops_sent) <= MAX_SENT,
    ensures
        final(game).wf(),
        final(behavior)@.wf(),
        0 <= *final(bot_attack_troops_sent) <= MAX_SENT,
        (
            reign(*final(game), *final(random), *final(behavior)),
            *final(bot_attack_troops_sent) as int,
        ) == reign(*old(game), *old(random), *old(behavior)).warring(
            Stance {
                sid: small_id,
                trigger: trigger_ratio,
                reserve: reserve_ratio,
                expand: expand_ratio,
                difficulty,
                voiced: true,
            },
            *old(bot_attack_troops_sent) as int,
        ),
{
    reveal(Reign::warring);
    handle_embargoes_to_hostile_nations(game, small_id);
    crate::ai_strategy::nation_maybe_attack(
        game,
        random,
        small_id,
        trigger_ratio,
        reserve_ratio,
        expand_ratio,
        bot_attack_troops_sent,
        difficulty,
        &mut behavior.emoji,
        true,
    );
}

/// The last part of a nation's turn.
pub fn launch_nukes(
    game: &mut Game,
    random: &mut PseudoRandom,
    small_id: u16,
    behavior: &mut NationBehaviorState,
)
    requires
        old(game).wf(),
        old(behavior)@.wf(),
    ensures
        final(game).wf(),
        final(behavior)@.wf(),
        reign(*final(game), *final(random), *final(behavior)) == reign(
            *old(game),
            *old(random),
            *old(behavior),
        ).nuking(small_id),
{
    reveal(Reign::nuking);
    let game_now: &Game = game;
    let accepts = |n: (u32, TileRef, UnitType)| -> (on: bool)
        ensures
            on == on_map(game_now@.map)(n),
        { game_now.map.is_on_map(n.1) };
    behavior.nuke.recently_sent_nukes = crate::lists::filter_by(
        &behavior.nuke.recently_sent_nukes,
        accepts,
        Ghost(on_map(game_now@.map)),
    );
    let hydro: bool = behavior.is_hydro_nation;
    crate::nuke_volley::maybe_send_nuke(
        game,
        random,
        small_id,
        hydro,
        &mut behavior.nuke,
        &mut behavior.emoji,
    );
}

impl GameView {
    /// Whether a nation begins its tick with its ships: where it lives, has land and a port,
    /// is not an easy one, and warships are allowed.
    pub open spec fn watches_ships(self, sid: u16) -> bool {
        &&& self.has(sid)
        &&& self.player(sid).alive
        &&& self.tiles_owned(sid) > 0
        &&& self.config.difficulty != Difficulty::Easy
        &&& self.units_of(sid, UnitType::Port).len() > 0
        &&& !self.config.disabled(UnitType::Warship)
    }
}

/// Whether a nation begins its tick with its ships.
pub fn watches_ships(game: &Game, small_id: u16) -> (watches: bool)
    requires
        game@.wf(),
    ensures
        watches == game@.watches_ships(small_id),
{
    let alive: bool = match game.player_by_small_id(small_id) {
        Some(p) => p.alive,
        None => false,
    };
    alive && game.tiles_of(small_id) > 0 && game.wire.difficulty != Difficulty::Easy
        && game.unit_count(small_id, UnitType::Port) > 0 && !game.wire.is_unit_disabled(
        UnitType::Warship,
    )
}

/// What a nation does on the present tick.
pub fn due(game: &Game, attack_rate: u32, attack_tick: u32) -> (due: Due)
    requires
        0 < attack_rate,
        attack_rate * 2 <= i32::MAX,
        attack_tick + attack_rate <= i32::MAX,
    ensures
        due == due_at(game@.tick, attack_rate, attack_tick),
{
    let offset: u32 = game.ticks() % attack_rate;
    let one_third: u32 = (attack_tick + attack_rate / 3) % attack_rate;
    let two_thirds: u32 = (attack_tick + attack_rate * 2 / 3) % attack_rate;
    if offset == attack_tick {
        Due::Turn
    } else if offset == one_third || offset == two_thirds {
        Due::Structures
    } else {
        Due::Nothing
    }
}

/// Gives a nation its tick once the game has begun.
pub fn tick_nation_post_spawn(
    game: &mut Game,
    random: &mut PseudoRandom,
    small_id: u16,
    behavior: &mut NationBehaviorState,
    attack_rate: u32,
    attack_tick: u32,
    trigger_ratio: u32,
    reserve_ratio: u32,
    expand_ratio: u32,
    bot_attack_troops_sent: &mut i64,
)
    requires
        old(game).wf(),
        old(behavior)@.wf(),
        0 < attack_rate,
        attack_rate * 2 <= i32::MAX,
        attack_tick + attack_rate <= i32::MAX,
        trigger_ratio <= 100,
        reserve_ratio <= 100,
        expand_ratio <= 100,
        0 <= *old(bot_attack_troops_sent) <= MAX_SENT,
    ensures
        final(game).wf(),
        final(behavior)@.wf(),
        0 <= *final(bot_attack_troops_sent) <= MAX_SENT,
        (
            reign(*final(game), *final(random), *final(behavior)),
            *final(bot_attack_troops_sent) as int,
        ) == reign(*old(game), *old(random), *old(behavior)).ticking(
            Stance {
                sid: small_id,
                trigger: trigger_ratio,
                reserve: reserve_ratio,
                expand: expand_ratio,
                difficulty: old(game)@.config.difficulty,
                voiced: true,
            },
            attack_rate,
            attack_tick,
            *old(bot_attack_troops_sent) as int,
        ),
{
    match due(game, attack_rate, attack_tick) {
        Due::Nothing => {
            return;
        },
        Due::Structures => {
            handle_structures(game, random, small_id, behavior);
            return;
        },
        Due::Turn => {},
    }
    let difficulty = game.wire.difficulty;
    open_turn(game, random, small_id, behavior);
    wage_war(
        game,
        random,
        small_id,
        behavior,
        trigger_ratio,
        reserve_ratio,
        expand_ratio,
        bot_attack_troops_sent,
        difficulty,
    );
    launch_nukes(game, random, small_id, behavior);
}

} // verus!
