//! Nations: players that the game itself plays.

use vstd::prelude::*;

use crate::ai_forces::MAX_SENT;
use crate::ai_strategy::Stance;
use crate::config::Difficulty;
use crate::exec_enum::ExecEnum;
use crate::execution::Execution;
use crate::game::{Game, GameView, MAX_PLAYERS};
use crate::map::{GameMap, MapView, TerrainType};
use crate::nation_tick::{NationBehaviorState, Reign, Temper};
use crate::ordered_tiles::TileRef;
use crate::orders::{Order, SpawnExecution};
use crate::prng::PseudoRandom;
use crate::state::{Player, PlayerInfo};

verus! {

/// How far from its place on the map a nation looks for land, along each axis.
pub const SPAWN_DELTA: i32 = 25;

/// How often a nation looks for land before it waits for its next chance.
pub const SPAWN_TRIES: u32 = 50;

/// A nation that a map has a place for.
pub struct NationRuntime {
    pub spawn_cell: Option<[i32; 2]>,
    pub player_info: PlayerInfo,
}

impl NationRuntime {
    /// The tiles around the nation's place have coordinates.
    pub open spec fn wf(&self) -> bool {
        match self.spawn_cell {
            Some(cell) => has_surroundings(cell),
            None => true,
        }
    }
}

/// Whether the tiles around a place have coordinates.
pub open spec fn has_surroundings(cell: [i32; 2]) -> bool {
    &&& i32::MIN + SPAWN_DELTA <= cell[0] <= i32::MAX - SPAWN_DELTA
    &&& i32::MIN + SPAWN_DELTA <= cell[1] <= i32::MAX - SPAWN_DELTA
}

/// The copy of who a player is.
pub fn copy_of(info: &PlayerInfo) -> (copy: PlayerInfo)
    ensures
        copy == *info,
{
    PlayerInfo {
        name: info.name.clone(),
        player_type: info.player_type,
        client_id: copy_text(&info.client_id),
        id: info.id.clone(),
        team: copy_text(&info.team),
    }
}

fn copy_text(text: &Option<String>) -> (copy: Option<String>)
    ensures
        copy == *text,
{
    match text {
        Some(s) => Some(s.clone()),
        None => None,
    }
}

/// The player that joins a game as `info` says.
pub fn newcomer(info: &PlayerInfo) -> (player: Player)
    ensures
        player.wf(),
        player.is_new(),
        player.id == info.id,
        player.name == info.name,
        player.client_id@ == (match info.client_id {
            Some(client) => client@,
            None => Seq::empty(),
        }),
        player.player_type == info.player_type,
        player.team == info.team,
{
    let mut player = Player::default();
    player.id = info.id.clone();
    player.name = info.name.clone();
    if let Some(client) = &info.client_id {
        player.client_id = client.clone();
    }
    player.player_type = info.player_type;
    player.team = copy_text(&info.team);
    player
}

/// A nation, from the start of the game until it has no land left. Ratios are in percent.
pub struct NationExecution {
    pub game_id: String,
    pub nation: NationRuntime,
    pub random: PseudoRandom,
    pub active: bool,
    pub spawn_exec_added: bool,
    pub behaviors_initialized: bool,
    /// The ticks from one turn to the next; none before the nation has begun.
    pub attack_rate: u32,
    pub attack_tick: u32,
    pub trigger_ratio: u32,
    pub reserve_ratio: u32,
    pub expand_ratio: u32,
    pub bot_attack_troops_sent: i64,
    pub behavior: NationBehaviorState,
    /// The player that joins the game for the nation, until it has.
    pub player: Option<Player>,
}

/// What changes in a nation from tick to tick.
#[verifier::ext_equal]
pub struct Rule {
    pub rng: u64,
    pub active: bool,
    pub added: bool,
    pub initialized: bool,
    pub sent: int,
    pub temper: Temper,
}

/// The seed of a nation's random numbers.
pub open spec fn nation_seed(id: Seq<char>, game_id: Seq<char>) -> i32 {
    (crate::util::hash_of(id) as i32).wrapping_add(crate::util::hash_of(game_id) as i32)
}

/// The range that a nation's time between turns is drawn from.
pub open spec fn attack_rates(difficulty: Difficulty) -> (int, int) {
    match difficulty {
        Difficulty::Easy => (65, 100),
        Difficulty::Hard => (45, 60),
        Difficulty::Impossible => (30, 50),
        _ => (55, 70),
    }
}

impl GameView {
    /// Whether a player has taken its place on the map.
    pub open spec fn has_spawned(self, sid: u16) -> bool {
        self.has(sid) && self.player(sid).spawn_tile is Some
    }
}

impl MapView {
    /// Whether a nation can spawn on a tile.
    pub open spec fn is_free_land(self, t: TileRef) -> bool {
        self.is_land(t) && self.owner(t) == 0 && !self.is_impassable(t)
    }

    /// Where a nation spawns: the first free land among places drawn around its own. Every
    /// other mountain is passed over.
    pub open spec fn landing(self, rng: u64, cell: [i32; 2], tries: nat) -> (u64, Option<TileRef>)
        decreases tries,
    {
        if tries == 0 {
            (rng, None)
        } else {
            let x = crate::prng::int_drawn(rng, cell[0] - SPAWN_DELTA, cell[0] + SPAWN_DELTA);
            let second = crate::prng::next_state(rng);
            let y = crate::prng::int_drawn(second, cell[1] - SPAWN_DELTA, cell[1] + SPAWN_DELTA);
            let third = crate::prng::next_state(second);
            let t = self.at(x, y);
            if !self.valid_coord(x, y) || !self.is_free_land(t) {
                self.landing(third, cell, (tries - 1) as nat)
            } else if self.terrain_type(t) != TerrainType::Mountain {
                (third, Some(t))
            } else if crate::prng::chance_drawn(third, 2) {
                self.landing(crate::prng::next_state(third), cell, (tries - 1) as nat)
            } else {
                (crate::prng::next_state(third), Some(t))
            }
        }
    }
}

impl NationExecution {
    /// What the execution was created with.
    pub open spec fn order(&self) -> Order {
        Order::Nation { game_id: self.game_id@, id: self.nation.player_info.id@ }
    }

    pub open spec fn wf(&self) -> bool {
        &&& self.behavior@.wf()
        &&& self.attack_rate <= 100
        &&& self.attack_tick <= 100
        &&& self.trigger_ratio <= 100
        &&& self.reserve_ratio <= 100
        &&& self.expand_ratio <= 100
        &&& 0 <= self.bot_attack_troops_sent <= MAX_SENT
        &&& self.player is Some ==> self.player->0.wf()
        &&& self.nation.wf()
    }

    pub open spec fn rule(&self) -> Rule {
        Rule {
            rng: self.random.state,
            active: self.active,
            added: self.spawn_exec_added,
            initialized: self.behaviors_initialized,
            sent: self.bot_attack_troops_sent as int,
            temper: self.behavior@,
        }
    }

    /// Whether another state of the nation differs in its rule at most.
    pub open spec fn same_nation(&self, other: &NationExecution) -> bool {
        self.game_id == other.game_id && self.nation == other.nation && self.attack_rate
            == other.attack_rate && self.attack_tick == other.attack_tick && self.trigger_ratio
            == other.trigger_ratio && self.reserve_ratio == other.reserve_ratio
            && self.expand_ratio == other.expand_ratio && self.player == other.player
    }

    pub open spec fn stance(&self, game: GameView, sid: u16) -> Stance {
        Stance {
            sid,
            trigger: self.trigger_ratio,
            reserve: self.reserve_ratio,
            expand: self.expand_ratio,
            difficulty: game.config.difficulty,
            voiced: true,
        }
    }

    /// The order to spawn.
    pub open spec fn spawn_order(&self, tile: Option<TileRef>) -> Order {
        let info = self.nation.player_info;
        Order::Spawn {
            game_id: self.game_id@,
            name: info.name@,
            player_type: info.player_type,
            client_id: crate::orders::text(info.client_id),
            id: info.id@,
            team: crate::orders::text(info.team),
            tile,
        }
    }

    /// Whether the nation has its turn on a tick. It has none before it has begun.
    pub open spec fn has_turn(&self, tick: u32) -> bool {
        self.attack_rate > 0 && tick % self.attack_rate == self.attack_tick
    }

    /// Whether the nation spawns, or spawns anew, on a tick.
    pub open spec fn may_spawn(&self, game: GameView, sid: u16, tick: u32) -> bool {
        if game.has_spawned(sid) {
            self.has_turn(tick)
        } else {
            !self.spawn_exec_added
        }
    }

    /// Whether the nation is sent to wherever there is room: where it has no place of its
    /// own, or one outside of its team's area.
    pub open spec fn spawns_anywhere(&self, game: GameView, sid: u16) -> bool {
        match self.nation.spawn_cell {
            Some(cell) => game.config.out_of_area(
                game.player(sid).team,
                cell[0] as int,
                cell[1] as int,
            ),
            None => true,
        }
    }

    /// The game and the nation after a tick on which players spawn.
    pub open spec fn spawned(&self, game: GameView, sid: u16, tick: u32) -> (GameView, Rule) {
        let rule = self.rule();
        if !self.may_spawn(game, sid, tick) {
            (game, rule)
        } else if self.spawns_anywhere(game, sid) {
            (game.ordering(self.spawn_order(None)), Rule { added: true, ..rule })
        } else {
            match game.map.landing(rule.rng, self.nation.spawn_cell->0, SPAWN_TRIES as nat) {
                (rng, Some(t)) => (
                    game.ordering(self.spawn_order(Some(t))),
                    Rule { rng, added: true, ..rule },
                ),
                (rng, None) => (game, Rule { rng, ..rule }),
            }
        }
    }

    /// The nation's memory once the game has begun.
    pub open spec fn settled_in(&self, game: GameView, sid: u16) -> Rule {
        let rule = self.rule();
        Rule {
            initialized: true,
            rng: crate::prng::next_state(rule.rng),
            temper: Temper {
                hydro: crate::prng::chance_drawn(rule.rng, 3),
                memory: crate::nuke_ai::NukeMemory {
                    atom_cost: game.cost(sid, crate::unit_type::UnitType::AtomBomb) as i64,
                    hydrogen_cost: game.cost(sid, crate::unit_type::UnitType::HydrogenBomb) as i64,
                    ..rule.temper.memory
                },
                ..rule.temper
            },
            ..rule
        }
    }

    /// The player that the nation rules on a tick: once the game has begun and it has settled
    /// in, as long as it lives.
    pub open spec fn ruling(&self, game: GameView) -> Option<u16> {
        match game.known(self.nation.player_info.id@) {
            None => None,
            Some(sid) => if !self.active || game.spawn_phase || (self.spawn_exec_added
                && !game.has_spawned(sid)) || !game.player(sid).alive || game.tiles_owned(sid) == 0
                || !self.behaviors_initialized || self.attack_rate == 0 {
                None
            } else {
                Some(sid)
            },
        }
    }

    /// The game and the nation after what comes on a tick before it rules. On its first one
    /// in the game a nation sends half of its troops out.
    pub open spec fn settled(&self, game: GameView, tick: u32) -> (GameView, Rule) {
        let rule = self.rule();
        match game.known(self.nation.player_info.id@) {
            None => (game, rule),
            Some(sid) => if !self.active {
                (game, rule)
            } else if game.spawn_phase {
                self.spawned(game, sid, tick)
            } else if self.spawn_exec_added && !game.has_spawned(sid) {
                (game, rule)
            } else if !game.player(sid).alive || game.tiles_owned(sid) == 0 {
                (game, Rule { active: false, ..rule })
            } else if !self.behaviors_initialized {
                (
                    if game.troops(sid) >= 2 {
                        game.attacking(
                            sid,
                            None,
                            game.troops(sid) * crate::config::TROOP_SCALE / 2,
                        )
                    } else {
                        game
                    },
                    self.settled_in(game, sid),
                )
            } else {
                (game, rule)
            },
        }
    }

    /// The game and the nation after a tick, its ships aside.
    pub open spec fn ruled(&self, game: GameView, tick: u32) -> (GameView, Rule) {
        let rule = self.rule();
        match self.ruling(game) {
            None => self.settled(game, tick),
            Some(sid) => {
                let (after, sent) = Reign {
                    game,
                    rng: rule.rng,
                    temper: rule.temper,
                }.ticking(self.stance(game, sid), self.attack_rate, self.attack_tick, rule.sent);
                (
                    after.game,
                    Rule { rng: after.rng, temper: after.temper, sent, ..rule },
                )
            },
        }
    }
}

impl Game {
    pub fn has_spawned(&self, sid: u16) -> (spawned: bool)
        ensures
            spawned == self@.has_spawned(sid),
    {
        match self.player_by_small_id(sid) {
            Some(p) => p.spawn_tile.is_some(),
            None => false,
        }
    }
}

/// The ticks from one turn of a nation to its next.
fn attack_rate_for_difficulty(random: &mut PseudoRandom, difficulty: Difficulty) -> (rate: u32)
    ensures
        ({
            let (lo, hi) = attack_rates(difficulty);
            rate == crate::prng::int_drawn(old(random).state, lo, hi)
        }),
        final(random).state == crate::prng::next_state(old(random).state),
        0 < rate < 100,
{
    let (lo, hi): (i32, i32) = match difficulty {
        Difficulty::Easy => (65, 100),
        Difficulty::Hard => (45, 60),
        Difficulty::Impossible => (30, 50),
        _ => (55, 70),
    };
    random.next_int(lo, hi) as u32
}

/// Looks for free land around a place.
fn random_spawn_land(random: &mut PseudoRandom, map: &GameMap, cell: [i32; 2]) -> (tile: Option<
    TileRef,
>)
    requires
        map@.wf(),
        has_surroundings(cell),
    ensures
        (final(random).state, tile) == map@.landing(
            old(random).state,
            cell,
            SPAWN_TRIES as nat,
        ),
        tile is Some ==> map@.valid(tile->0) && map@.is_free_land(tile->0),
{
    let mut left: u32 = SPAWN_TRIES;
    let ghost goal = map@.landing(random.state, cell, left as nat);
    while left > 0
        invariant
            map@.wf(),
            has_surroundings(cell),
            map@.landing(random.state, cell, left as nat) == goal,
            goal == map@.landing(old(random).state, cell, SPAWN_TRIES as nat),
        decreases left,
    {
        left = left - 1;
        let x: i32 = random.next_int(cell[0] - SPAWN_DELTA, cell[0] + SPAWN_DELTA);
        let y: i32 = random.next_int(cell[1] - SPAWN_DELTA, cell[1] + SPAWN_DELTA);
        if map.is_valid_coord(x, y) {
            let tile: TileRef = map.ref_xy(x as u32, y as u32);
            if map.is_land(tile) && map.owner_id(tile) == 0 && !map.is_impassable(tile) {
                if map.terrain_type(tile) != TerrainType::Mountain || !random.chance(2) {
                    return Some(tile);
                }
            }
        }
    }
    None
}

impl NationExecution {
    /// Whether the nation is as it was created. It has drawn how eager it is.
    pub open spec fn is_new(&self, game_id: String, nation: NationRuntime) -> bool {
        let first = crate::prng::seed_state(nation_seed(nation.player_info.id@, game_id@));
        let second = crate::prng::next_state(first);
        let third = crate::prng::next_state(second);
        &&& self.game_id == game_id
        &&& self.nation == nation
        &&& self.active
        &&& !self.spawn_exec_added
        &&& !self.behaviors_initialized
        &&& self.attack_rate == 0
        &&& self.attack_tick == 0
        &&& self.trigger_ratio == crate::prng::int_drawn(first, 50, 60)
        &&& self.reserve_ratio == crate::prng::int_drawn(second, 30, 40)
        &&& self.expand_ratio == crate::prng::int_drawn(third, 10, 20)
        &&& self.random.state == crate::prng::next_state(third)
        &&& self.bot_attack_troops_sent == 0
        &&& self.behavior@ == crate::nation_tick::blank()
    }

    pub fn new(game_id: String, nation: NationRuntime) -> (execution: Self)
        requires
            nation.wf(),
        ensures
            execution.wf(),
            execution.is_new(game_id, nation),
            execution.player is Some,
            execution.player->0.is_new(),
            execution.player->0.id == nation.player_info.id,
            execution.player->0.name == nation.player_info.name,
            execution.player->0.team == nation.player_info.team,
            execution.player->0.player_type == nation.player_info.player_type,
    {
        let seed: i32 = crate::util::simple_hash(&nation.player_info.id).wrapping_add(
            crate::util::simple_hash(&game_id),
        );
        let mut random = PseudoRandom::new(seed);
        let trigger_ratio: u32 = random.next_int(50, 60) as u32;
        let reserve_ratio: u32 = random.next_int(30, 40) as u32;
        let expand_ratio: u32 = random.next_int(10, 20) as u32;
        let player = newcomer(&nation.player_info);
        NationExecution {
            game_id,
            nation,
            random,
            active: true,
            spawn_exec_added: false,
            behaviors_initialized: false,
            attack_rate: 0,
            attack_tick: 0,
            trigger_ratio,
            reserve_ratio,
            expand_ratio,
            bot_attack_troops_sent: 0,
            behavior: NationBehaviorState::default(),
            player: Some(player),
        }
    }

    /// Whether this is the nation once it has drawn when it has its turns.
    pub open spec fn has_drawn(&self, before: NationExecution, difficulty: Difficulty) -> bool {
        let (lo, hi) = attack_rates(difficulty);
        let second = crate::prng::next_state(before.random.state);
        &&& self.attack_rate == crate::prng::int_drawn(before.random.state, lo, hi)
        &&& self.attack_tick == crate::prng::int_drawn(second, 0, self.attack_rate as int)
        &&& self.random.state == crate::prng::next_state(second)
    }

    /// Whether the nation differs from what it was in when it has its turns at most.
    pub open spec fn differs_in_turns(&self, before: NationExecution) -> bool {
        *self == (NationExecution {
            attack_rate: self.attack_rate,
            attack_tick: self.attack_tick,
            random: self.random,
            ..before
        })
    }

    /// Draws when the nation has its turns.
    pub fn draw_turns(&mut self, difficulty: Difficulty)
        requires
            old(self).wf(),
        ensures
            final(self).wf(),
            final(self).has_drawn(*old(self), difficulty),
            0 < final(self).attack_rate,
            final(self).attack_tick < final(self).attack_rate,
            final(self).differs_in_turns(*old(self)),
    {
        self.attack_rate = attack_rate_for_difficulty(&mut self.random, difficulty);
        self.attack_tick = self.random.next_int(0, self.attack_rate as i32) as u32;
    }

    fn order_spawn(&self, game: &mut Game, tile: Option<TileRef>)
        requires
            old(game).wf(),
        ensures
            final(game).wf(),
            final(game)@ == old(game)@.ordering(self.spawn_order(tile)),
    {
        let order = SpawnExecution::new(
            self.game_id.clone(),
            copy_of(&self.nation.player_info),
            tile,
        );
        game.add_execution(ExecEnum::Spawn(order));
    }

    /// A tick on which players spawn.
    fn spawn(&mut self, game: &mut Game, sid: u16, tick: u32)
        requires
            old(game).wf(),
            old(self).wf(),
            old(game)@.has(sid),
        ensures
            final(game).wf(),
            final(self).wf(),
            final(self).same_nation(old(self)),
            (final(game)@, final(self).rule()) == old(self).spawned(
                old(game)@,
                sid,
                tick,
            ),
    {
        if game.has_spawned(sid) {
            if self.attack_rate == 0 || tick % self.attack_rate != self.attack_tick {
                return;
            }
        } else if self.spawn_exec_added {
            return;
        }
        let cell: [i32; 2] = match self.nation.spawn_cell {
            Some(cell) => cell,
            None => {
                self.order_spawn(game, None);
                self.spawn_exec_added = true;
                return;
            },
        };
        let astray: bool = match game.player_by_small_id(sid) {
            Some(p) => game.wire.is_out_of_area(&p.team, cell[0], cell[1]),
            None => false,
        };
        if astray {
            self.order_spawn(game, None);
            self.spawn_exec_added = true;
            return;
        }
        let tile: Option<TileRef> = random_spawn_land(&mut self.random, &game.map, cell);
        if tile.is_some() {
            self.order_spawn(game, tile);
            self.spawn_exec_added = true;
        }
    }

    /// Does what comes on a tick before the nation rules. Returns the player it now rules.
    pub fn settle(&mut self, game: &mut Game, tick: u32) -> (ruling: Option<u16>)
        requires
            old(game).wf(),
            old(self).wf(),
        ensures
            final(game).wf(),
            final(self).wf(),
            final(self).same_nation(old(self)),
            ruling == old(self).ruling(old(game)@),
            (final(game)@, final(self).rule()) == old(self).settled(old(game)@, tick),
            ruling is Some ==> final(game)@ == old(game)@ && final(self).rule()
                == old(self).rule() && 0 < final(self).attack_rate,
    {
        let found: Option<u16> = game.small_id_of(&self.nation.player_info.id);
        let sid: u16 = match found {
            Some(sid) => sid,
            None => {
                return None;
            },
        };
        if !self.active {
            return None;
        }
        if game.in_spawn_phase() {
            self.spawn(game, sid, tick);
            return None;
        }
        if self.spawn_exec_added && !game.has_spawned(sid) {
            return None;
        }
        let alive: bool = match game.player_by_small_id(sid) {
            Some(p) => p.alive,
            None => false,
        };
        if !alive || game.tiles_of(sid) == 0 {
            self.active = false;
            return None;
        }
        if !self.behaviors_initialized {
            self.behaviors_initialized = true;
            crate::nation_tick::initialize_nation_behaviors(
                game,
                &mut self.random,
                sid,
                &mut self.behavior,
            );
            let troops: i64 = game.troops_of(sid);
            if troops >= 2 {
                game.add_land_attack(sid, None, troops * crate::config::TROOP_SCALE / 2);
            }
            return None;
        }
        if self.attack_rate == 0 {
            return None;
        }
        Some(sid)
    }

    /// Gives the nation a tick, its ships aside.
    pub fn rule_tick(&mut self, game: &mut Game, tick: u32)
        requires
            old(game).wf(),
            old(self).wf(),
        ensures
            final(game).wf(),
            final(self).wf(),
            final(self).same_nation(old(self)),
            (final(game)@, final(self).rule()) == old(self).ruled(old(game)@, tick),
    {
        let sid: u16 = match self.settle(game, tick) {
            Some(sid) => sid,
            None => {
                return;
            },
        };
        crate::nation_tick::tick_nation_post_spawn(
            game,
            &mut self.random,
            sid,
            &mut self.behavior,
            self.attack_rate,
            self.attack_tick,
            self.trigger_ratio,
            self.reserve_ratio,
            self.expand_ratio,
            &mut self.bot_attack_troops_sent,
        );
    }
}

impl NationExecution {
    /// Whether the nation joins a game: where no player of it stands for the nation yet.
    pub open spec fn joins(&self, game: GameView) -> bool {
        game.known(self.nation.player_info.id@) is None && self.player is Some
            && game.players.len() < MAX_PLAYERS
    }
}

impl Execution for NationExecution {
    open spec fn ready(&self, game: GameView) -> bool {
        self.wf()
    }

    open spec fn begun(&self, game: GameView, tick: u32) -> GameView {
        if self.joins(game) {
            GameView {
                players: game.players.push(
                    Player { small_id: (game.players.len() + 1) as u16, ..self.player->0 },
                ),
                borders: game.borders.push(Seq::empty()),
                ..game
            }
        } else {
            game
        }
    }

    open spec fn ticked(&self, game: GameView, tick: u32) -> GameView {
        self.ruled(game, tick).0
    }

    open spec fn begun_as(&self, game: GameView, tick: u32, next: Self) -> bool {
        &&& next.has_drawn(*self, game.config.difficulty)
        &&& 0 < next.attack_rate
        &&& next.attack_tick < next.attack_rate
        &&& next == (NationExecution {
            attack_rate: next.attack_rate,
            attack_tick: next.attack_tick,
            random: next.random,
            player: if self.joins(game) {
                None
            } else {
                self.player
            },
            ..*self
        })
    }

    open spec fn ticked_as(&self, game: GameView, tick: u32, next: Self) -> bool {
        &&& next.rule() == self.ruled(game, tick).1
        &&& next.same_nation(self)
    }

    open spec fn going(&self) -> bool {
        self.active
    }

    fn init(&mut self, game: &mut Game, tick: u32) {
        let difficulty = game.wire.difficulty;
        self.draw_turns(difficulty);
        if game.small_id_of(&self.nation.player_info.id).is_none() && game.players.len()
            < MAX_PLAYERS as usize {
            match self.player.take() {
                Some(player) => {
                    game.add_player(player);
                },
                None => {},
            }
        }
    }

    fn tick(&mut self, game: &mut Game, tick: u32) {
        self.rule_tick(game, tick);
    }

    fn is_active(&self) -> (active: bool) {
        self.active
    }

    fn active_during_spawn(&self) -> (active: bool)
        ensures
            active,
    {
        true
    }
}

} // verus!
