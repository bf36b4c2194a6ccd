use execution::attack::AttackExecution;
use execution::attack_fight::FightStep;
use execution::config::{Config, Difficulty, GameMode, TROOP_SCALE};
use execution::exec_enum::ExecEnum;
use execution::execution::Execution;
use execution::game::Game;
use execution::map::{GameMap, MapMeta};
use execution::mark_disconnected::MarkDisconnectedExecution;
use execution::state::{Player, PlayerType};

#[allow(dead_code)]
const IMPASSABLE: u8 = 0x9f;

/// A map of plains with the tiles that `f` changes.
#[allow(dead_code)]
fn terrain(width: u32, height: u32, f: fn(u32, u32) -> Option<u8>) -> GameMap {
    let mut bytes: Vec<u8> = Vec::new();
    for y in 0..height {
        for x in 0..width {
            bytes.push(f(x, y).unwrap_or(0x80));
        }
    }
    GameMap::from_terrain_bytes(&MapMeta { width, height, num_land_tiles: width * height }, &bytes)
        .expect("a map")
}

#[allow(dead_code)]
fn no_change(_x: u32, _y: u32) -> Option<u8> {
    None
}

/// A game on plains, past the spawn phase.
#[allow(dead_code)]
fn plains_game(width: u32, height: u32) -> Game {
    let mut game = Game::new(
        Config::new(Difficulty::Medium, GameMode::FreeForAll),
        terrain(width, height, no_change),
    );
    game.end_spawn_phase();
    game
}

#[allow(dead_code)]
fn player(id: &str, player_type: PlayerType) -> Player {
    Player {
        id: id.to_string(),
        name: id.to_string(),
        client_id: id.to_string(),
        player_type,
        id_prng: execution::prng::PseudoRandom::new(id.bytes().map(|b| b as i32).sum()),
        ..Default::default()
    }
}

#[allow(dead_code)]
fn join(game: &mut Game, id: &str, player_type: PlayerType) -> u16 {
    game.add_player(player(id, player_type))
}

/// Gives a game's executions their ticks.
#[allow(dead_code)]
struct Runner {
    active: Vec<ExecEnum>,
    /// How many tiles an attack takes in a tick.
    pace: u32,
}

#[allow(dead_code)]
impl Runner {
    fn new() -> Runner {
        Runner { active: Vec::new(), pace: 10 }
    }

    fn step(&mut self, game: &mut Game) {
        let tick = game.tick;
        for e in self.active.iter_mut() {
            if (!game.in_spawn_phase() || e.active_during_spawn()) && e.is_active() {
                e.tick(game, tick);
                if let Some(attack) = e.as_attack() {
                    if attack.fighting {
                        fight(attack, game, tick, self.pace);
                    }
                }
            }
        }
        let queued = std::mem::take(&mut game.pending);
        for mut e in queued {
            if !game.in_spawn_phase() || e.active_during_spawn() {
                e.init(game, tick);
                self.active.push(e);
            } else {
                game.pending.push(e);
            }
        }
        self.active.retain(|e| e.is_active());
        game.tick += 1;
    }
}

/// Lets an attack take up to so many tiles at half a troop each.
#[allow(dead_code)]
fn fight(attack: &mut AttackExecution, game: &mut Game, tick: u32, pace: u32) {
    let width = attack.front_width();
    assert!(width >= attack.border_tile_count() as u128);
    for _ in 0..pace {
        match attack.next_tile(game, tick) {
            FightStep::Over => return,
            FightStep::Take(tile) => attack.conquer_tile(game, tile, TROOP_SCALE / 2, 0),
        }
    }
    attack.rest();
}

fn human_game() -> Game {
    Game::new(
        Config::new(Difficulty::Medium, GameMode::FreeForAll),
        terrain(4, 4, no_change),
    )
}

#[test]
fn players_initialize_as_not_disconnected() {
    let mut game = human_game();
    let p1 = join(&mut game, "p1", PlayerType::Human);
    let p2 = join(&mut game, "p2", PlayerType::Human);
    assert!(!game.player_by_small_id(p1).unwrap().is_disconnected);
    assert!(!game.player_by_small_id(p2).unwrap().is_disconnected);
}

#[test]
fn mark_disconnected_toggles_state() {
    let mut game = human_game();
    let p1 = join(&mut game, "p1", PlayerType::Human);
    game.player_by_small_id_mut(p1).unwrap().is_disconnected = true;
    assert!(game.player_by_small_id(p1).unwrap().is_disconnected);
    game.player_by_small_id_mut(p1).unwrap().is_disconnected = false;
    assert!(!game.player_by_small_id(p1).unwrap().is_disconnected);
}

#[test]
fn disconnected_state_is_visible_through_shared_game_state() {
    let mut game = human_game();
    let p2 = join(&mut game, "p2", PlayerType::Human);
    game.player_by_small_id_mut(p2).unwrap().is_disconnected = true;
    assert!(game.player_by_small_id(p2).unwrap().is_disconnected);
    game.player_by_small_id_mut(p2).unwrap().is_disconnected = false;
    assert!(!game.player_by_small_id(p2).unwrap().is_disconnected);
}

#[test]
fn disconnected_state_persists_across_ticks() {
    let mut game = human_game();
    game.end_spawn_phase();
    let p2 = join(&mut game, "p2", PlayerType::Human);
    game.player_by_small_id_mut(p2).unwrap().is_disconnected = true;
    let mut runner = Runner::new();
    for _ in 0..5 {
        runner.step(&mut game);
    }
    assert!(game.player_by_small_id(p2).unwrap().is_disconnected);
}

#[test]
fn execution_marks_player_disconnected_and_deactivates() {
    let mut game = human_game();
    game.end_spawn_phase();
    let p1 = join(&mut game, "p1", PlayerType::Human);
    game.add_execution(ExecEnum::MarkDisconnected(MarkDisconnectedExecution::new(p1, true)));
    Runner::new().step(&mut game);
    assert!(game.player_by_small_id(p1).unwrap().is_disconnected);
    assert!(!MarkDisconnectedExecution::new(p1, true).is_active());
}

#[test]
fn multiple_executions_handle_different_players_independently() {
    let mut game = human_game();
    game.end_spawn_phase();
    let p1 = join(&mut game, "p1", PlayerType::Human);
    let p2 = join(&mut game, "p2", PlayerType::Human);
    game.add_execution(ExecEnum::MarkDisconnected(MarkDisconnectedExecution::new(p1, true)));
    game.add_execution(ExecEnum::MarkDisconnected(MarkDisconnectedExecution::new(p2, false)));
    Runner::new().step(&mut game);
    assert!(game.player_by_small_id(p1).unwrap().is_disconnected);
    assert!(!game.player_by_small_id(p2).unwrap().is_disconnected);
}

#[test]
fn not_active_during_spawn_phase() {
    let exec = MarkDisconnectedExecution::new(1, true);
    assert!(!exec.active_during_spawn());
}

#[test]
fn last_execution_wins_for_same_player_same_tick() {
    let mut game = human_game();
    game.end_spawn_phase();
    let p1 = join(&mut game, "p1", PlayerType::Human);
    game.add_execution(ExecEnum::MarkDisconnected(MarkDisconnectedExecution::new(p1, true)));
    game.add_execution(ExecEnum::MarkDisconnected(MarkDisconnectedExecution::new(p1, false)));
    Runner::new().step(&mut game);
    assert!(!game.player_by_small_id(p1).unwrap().is_disconnected);
}

#[test]
fn setting_same_disconnected_state_repeatedly_is_a_no_op() {
    let mut game = human_game();
    let p1 = join(&mut game, "p1", PlayerType::Human);
    for _ in 0..3 {
        game.player_by_small_id_mut(p1).unwrap().is_disconnected = true;
    }
    assert!(game.player_by_small_id(p1).unwrap().is_disconnected);
    for _ in 0..3 {
        game.player_by_small_id_mut(p1).unwrap().is_disconnected = false;
    }
    assert!(!game.player_by_small_id(p1).unwrap().is_disconnected);
}

#[test]
fn execution_with_already_matching_state_is_idempotent() {
    let mut game = human_game();
    game.end_spawn_phase();
    let p1 = join(&mut game, "p1", PlayerType::Human);
    game.player_by_small_id_mut(p1).unwrap().is_disconnected = true;
    game.add_execution(ExecEnum::MarkDisconnected(MarkDisconnectedExecution::new(p1, true)));
    Runner::new().step(&mut game);
    assert!(game.player_by_small_id(p1).unwrap().is_disconnected);
}
