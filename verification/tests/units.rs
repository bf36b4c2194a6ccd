use execution::attack::AttackExecution;
use execution::attack_fight::FightStep;
use execution::config::{Config, Difficulty, GameMode, TROOP_SCALE};
use execution::construction::ConstructionExecution;
use execution::defense_post_execution::DefensePostExecution;
use execution::delete_unit::DeleteUnitExecution;
use execution::exec_enum::ExecEnum;
use execution::execution::Execution;
use execution::game::Game;
use execution::game_structures::{DELETE_UNIT_COOLDOWN_TICKS, DELETION_MARK_DURATION_TICKS};
use execution::map::{GameMap, MapMeta};
use execution::state::{Player, PlayerType};
use execution::unit_type::{CITY, PORT, WARSHIP};

#[allow(dead_code)]
const IMPASSABLE: u8 = 0x9f;

/// A map of plains with the tiles that `f` changes.
#[allow(dead_code)]
fn terrain(width: u32, height: u32, f: fn(u32, u32) -> Option<u8>) -> GameMap {
    let mut bytes: Vec<u8> = Vec::new();
    for y in 0..height {
        for x in 0..width {
            bytes.push(f(x, y).unwrap_or(0x80));
        }
    }
    GameMap::from_terrain_bytes(&MapMeta { width, height, num_land_tiles: width * height }, &bytes)
        .expect("a map")
}

#[allow(dead_code)]
fn no_change(_x: u32, _y: u32) -> Option<u8> {
    None
}

/// A game on plains, past the spawn phase.
#[allow(dead_code)]
fn plains_game(width: u32, height: u32) -> Game {
    let mut game = Game::new(
        Config::new(Difficulty::Medium, GameMode::FreeForAll),
        terrain(width, height, no_change),
    );
    game.end_spawn_phase();
    game
}

#[allow(dead_code)]
fn player(id: &str, player_type: PlayerType) -> Player {
    Player {
        id: id.to_string(),
        name: id.to_string(),
        client_id: id.to_string(),
        player_type,
        id_prng: execution::prng::PseudoRandom::new(id.bytes().map(|b| b as i32).sum()),
        ..Default::default()
    }
}

#[allow(dead_code)]
fn join(game: &mut Game, id: &str, player_type: PlayerType) -> u16 {
    game.add_player(player(id, player_type))
}

/// Gives a game's executions their ticks.
#[allow(dead_code)]
struct Runner {
    active: Vec<ExecEnum>,
    /// How many tiles an attack takes in a tick.
    pace: u32,
}

#[allow(dead_code)]
impl Runner {
    fn new() -> Runner {
        Runner { active: Vec::new(), pace: 10 }
    }

    fn step(&mut self, game: &mut Game) {
        let tick = game.tick;
        for e in self.active.iter_mut() {
            if (!game.in_spawn_phase() || e.active_during_spawn()) && e.is_active() {
                e.tick(game, tick);
                if let Some(attack) = e.as_attack() {
                    if attack.fighting {
                        fight(attack, game, tick, self.pace);
                    }
                }
            }
        }
        let queued = std::mem::take(&mut game.pending);
        for mut e in queued {
            if !game.in_spawn_phase() || e.active_during_spawn() {
                e.init(game, tick);
                self.active.push(e);
            } else {
                game.pending.push(e);
            }
        }
        self.active.retain(|e| e.is_active());
        game.tick += 1;
    }
}

/// Lets an attack take up to so many tiles at half a troop each.
#[allow(dead_code)]
fn fight(attack: &mut AttackExecution, game: &mut Game, tick: u32, pace: u32) {
    let width = attack.front_width();
    assert!(width >= attack.border_tile_count() as u128);
    for _ in 0..pace {
        match attack.next_tile(game, tick) {
            FightStep::Over => return,
            FightStep::Take(tile) => attack.conquer_tile(game, tile, TROOP_SCALE / 2, 0),
        }
    }
    attack.rest();
}

fn setup() -> (Game, u16, u16, i32) {
    let mut game = plains_game(20, 20);
    let p1 = join(&mut game, "p1", PlayerType::Human);
    let p2 = join(&mut game, "p2", PlayerType::Human);
    let p1_tile = game.map.ref_xy(0, 0);
    let p2_tile = game.map.ref_xy(10, 0);
    game.map.set_owner_id(p1_tile, p1);
    game.map.set_owner_id(p2_tile, p2);
    let unit = game.build_unit(p1, CITY, p1_tile);
    let mut runner = Runner::new();
    for _ in 0..DELETE_UNIT_COOLDOWN_TICKS + 1 {
        runner.step(&mut game);
    }
    (game, p1, p2, unit)
}

#[test]
fn rejects_deleting_a_unit_not_owned_by_the_caller() {
    let (mut game, p1, p2, _) = setup();
    let p2_tile = game.map.ref_xy(10, 0);
    let enemy_unit = game.build_unit(p2, CITY, p2_tile);
    let mut exec = DeleteUnitExecution::new(p1, enemy_unit);
    exec.init(&mut game, 0);
    assert!(!exec.is_active());
    assert!(!game.is_unit_marked_for_deletion(p2, enemy_unit));
}

#[test]
fn rejects_deleting_a_unit_on_territory_the_owner_no_longer_holds() {
    let (mut game, p1, _, unit) = setup();
    let p2_tile = game.map.ref_xy(10, 0);
    let moved = execution::state::Unit { tile: p2_tile, ..game.unit(p1, unit).unwrap() };
    game.replace_unit(p1, unit, moved);
    let mut exec = DeleteUnitExecution::new(p1, unit);
    exec.init(&mut game, 0);
    assert!(!exec.is_active());
    assert!(!game.is_unit_marked_for_deletion(p1, unit));
}

#[test]
fn rejects_deleting_during_spawn_phase() {
    let mut game = Game::new(
        Config::new(Difficulty::Medium, GameMode::FreeForAll),
        terrain(4, 4, no_change),
    );
    assert!(game.in_spawn_phase());
    let p1 = join(&mut game, "p1", PlayerType::Human);
    let tile = game.map.ref_xy(0, 0);
    game.map.set_owner_id(tile, p1);
    let unit = game.build_unit(p1, CITY, tile);
    let mut exec = DeleteUnitExecution::new(p1, unit);
    exec.init(&mut game, 0);
    assert!(!exec.is_active());
    assert!(!game.is_unit_marked_for_deletion(p1, unit));
}

#[test]
fn rejects_deleting_while_the_cooldown_is_active() {
    let (mut game, p1, _, unit) = setup();
    game.record_delete_unit(p1);
    let mut exec = DeleteUnitExecution::new(p1, unit);
    exec.init(&mut game, 0);
    assert!(!exec.is_active());
    assert!(!game.is_unit_marked_for_deletion(p1, unit));
}

#[test]
fn marks_the_unit_when_all_conditions_are_met() {
    let (mut game, p1, _, unit) = setup();
    let mut exec = DeleteUnitExecution::new(p1, unit);
    exec.init(&mut game, 0);
    assert!(game.is_unit_marked_for_deletion(p1, unit));
}

#[test]
fn deletes_the_unit_once_the_mark_duration_elapses() {
    let (mut game, p1, _, unit) = setup();
    game.add_execution(ExecEnum::DeleteUnit(DeleteUnitExecution::new(p1, unit)));
    let mut runner = Runner::new();
    runner.step(&mut game);
    assert!(game.is_unit_marked_for_deletion(p1, unit));
    assert!(!game.is_unit_overdue_deletion(p1, unit));
    for _ in 0..DELETION_MARK_DURATION_TICKS + 1 {
        runner.step(&mut game);
    }
    assert!(game.unit(p1, unit).is_none());
}

#[test]
fn capturing_the_unit_clears_the_pending_deletion() {
    let (mut game, p1, p2, unit) = setup();
    game.add_execution(ExecEnum::DeleteUnit(DeleteUnitExecution::new(p1, unit)));
    Runner::new().step(&mut game);
    assert!(game.is_unit_marked_for_deletion(p1, unit));
    game.capture_unit(p1, p2, unit);
    assert!(game.unit(p1, unit).is_none());
    assert!(!game.is_unit_marked_for_deletion(p2, unit));
    assert!(game.unit(p2, unit).is_some());
}

#[test]
fn captured_city_under_construction_completes_for_new_owner() {
    let mut game = plains_game(20, 20);
    let builder = join(&mut game, "builder", PlayerType::Nation);
    let capturer = join(&mut game, "capturer", PlayerType::Nation);
    for sid in [builder, capturer] {
        let tile = game.map.ref_xy(if sid == builder { 0 } else { 5 }, 0);
        game.conquer(sid, tile);
        let p = game.player_by_small_id_mut(sid).unwrap();
        p.spawn_tile = Some(tile);
        p.alive = true;
        p.gold = 1_000_000;
    }
    let city_tile = game.map.ref_xy(0, 0);
    let city_id = game.build_unit(builder, CITY, city_tile);
    game.set_unit_under_construction(builder, city_id, true);
    game.add_execution(ExecEnum::Construction(ConstructionExecution::mid_build(
        builder, CITY, city_id, 2,
    )));
    game.capture_unit(builder, capturer, city_id);
    assert!(game.units.iter().all(|u| u.owner != builder));
    assert_eq!(game.completed_city_level_sum(capturer), 0);
    let mut runner = Runner::new();
    for _ in 0..4 {
        runner.step(&mut game);
    }
    let city = game.unit(capturer, city_id).expect("capturer still owns the city");
    assert!(!city.under_construction);
    assert_eq!(game.completed_city_level_sum(capturer), 1);
    assert_eq!(game.completed_city_level_sum(builder), 0);
}

#[test]
fn defense_post_never_fires_since_ship_targeting_is_deferred_upstream() {
    let mut game = plains_game(20, 20);
    join(&mut game, "1", PlayerType::Human);
    join(&mut game, "2", PlayerType::Human);
    let post_id = game.build_unit(1, PORT, game.map.ref_xy(0, 0));
    let target = game.build_unit(2, WARSHIP, game.map.ref_xy(1, 0));
    let initial_health = game.unit(2, target).unwrap().health;
    let mut post = DefensePostExecution::new(1, post_id);
    post.init(&mut game, 0);
    let mut runner = Runner::new();
    for tick in 0..100u32 {
        post.tick(&mut game, tick);
        runner.step(&mut game);
    }
    assert_eq!(game.unit(2, target).unwrap().health, initial_health);
}
