use execution::attack::AttackExecution;
use execution::attack_fight::FightStep;
use execution::config::{Config, Difficulty, GameMode, TROOP_SCALE};
use execution::defense_posts::sample_front_coordinate;
use execution::exec_enum::ExecEnum;
use execution::execution::Execution;
use execution::game::Game;
use execution::map::{GameMap, MapMeta};
use execution::missile_silo_execution::MissileSiloExecution;
use execution::nation_emoji::{EMOJI_OVERWHELMED_LEN, respond_to_mirv};
use execution::nuke_execution::{NukeExecution, unit_is_in_cooldown};
use execution::ordered_tiles::TileRef;
use execution::player::PlayerExecution;
use execution::player_clusters::TICKS_PER_CLUSTER_CALC;
use execution::port_execution::PortExecution;
use execution::prng::PseudoRandom;
use execution::state::{Player, PlayerType};
use execution::structure_value::city_value_with_connectivity;
use execution::unit_type::{ATOM_BOMB, MISSILE_SILO, PORT};
use execution::util::simple_hash;

#[allow(dead_code)]
const IMPASSABLE: u8 = 0x9f;

/// A map of plains with the tiles that `f` changes.
#[allow(dead_code)]
fn terrain(width: u32, height: u32, f: fn(u32, u32) -> Option<u8>) -> GameMap {
    let mut bytes: Vec<u8> = Vec::new();
    for y in 0..height {
        for x in 0..width {
            bytes.push(f(x, y).unwrap_or(0x80));
        }
    }
    GameMap::from_terrain_bytes(&MapMeta { width, height, num_land_tiles: width * height }, &bytes)
        .expect("a map")
}

#[allow(dead_code)]
fn no_change(_x: u32, _y: u32) -> Option<u8> {
    None
}

/// A game on plains, past the spawn phase.
#[allow(dead_code)]
fn plains_game(width: u32, height: u32) -> Game {
    let mut game = Game::new(
        Config::new(Difficulty::Medium, GameMode::FreeForAll),
        terrain(width, height, no_change),
    );
    game.end_spawn_phase();
    game
}

#[allow(dead_code)]
fn player(id: &str, player_type: PlayerType) -> Player {
    Player {
        id: id.to_string(),
        name: id.to_string(),
        client_id: id.to_string(),
        player_type,
        id_prng: execution::prng::PseudoRandom::new(id.bytes().map(|b| b as i32).sum()),
        ..Default::default()
    }
}

#[allow(dead_code)]
fn join(game: &mut Game, id: &str, player_type: PlayerType) -> u16 {
    game.add_player(player(id, player_type))
}

/// Gives a game's executions their ticks.
#[allow(dead_code)]
struct Runner {
    active: Vec<ExecEnum>,
    /// How many tiles an attack takes in a tick.
    pace: u32,
}

#[allow(dead_code)]
impl Runner {
    fn new() -> Runner {
        Runner { active: Vec::new(), pace: 10 }
    }

    fn step(&mut self, game: &mut Game) {
        let tick = game.tick;
        for e in self.active.iter_mut() {
            if (!game.in_spawn_phase() || e.active_during_spawn()) && e.is_active() {
                e.tick(game, tick);
                if let Some(attack) = e.as_attack() {
                    if attack.fighting {
                        fight(attack, game, tick, self.pace);
                    }
                }
            }
        }
        let queued = std::mem::take(&mut game.pending);
        for mut e in queued {
            if !game.in_spawn_phase() || e.active_during_spawn() {
                e.init(game, tick);
                self.active.push(e);
            } else {
                game.pending.push(e);
            }
        }
        self.active.retain(|e| e.is_active());
        game.tick += 1;
    }
}

/// Lets an attack take up to so many tiles at half a troop each.
#[allow(dead_code)]
fn fight(attack: &mut AttackExecution, game: &mut Game, tick: u32, pace: u32) {
    let width = attack.front_width();
    assert!(width >= attack.border_tile_count() as u128);
    for _ in 0..pace {
        match attack.next_tile(game, tick) {
            FightStep::Over => return,
            FightStep::Take(tile) => attack.conquer_tile(game, tile, TROOP_SCALE / 2, 0),
        }
    }
    attack.rest();
}

fn game_with_silo(width: u32, height: u32) -> (Game, Runner, u16, i32) {
    let mut game = plains_game(width, height);
    let attacker = game.add_player(Player { gold: 1_000_000_000, ..player("attacker", PlayerType::Human) });
    let silo_tile = game.map.ref_xy(1, 1);
    game.conquer(attacker, silo_tile);
    let silo_id = game.build_unit(attacker, MISSILE_SILO, silo_tile);
    game.add_execution(ExecEnum::MissileSilo(MissileSiloExecution::new(attacker, silo_id)));
    (game, Runner::new(), attacker, silo_id)
}

fn build_nuke(game: &mut Game, runner: &mut Runner, attacker: u16, target: TileRef) {
    game.add_execution(ExecEnum::Nuke(NukeExecution::new(
        ATOM_BOMB, attacker, target, None, None, 0, true,
    )));
    runner.step(game);
    runner.step(game);
}

#[test]
fn missile_silo_launches_a_nuke_and_it_eventually_detonates() {
    let (mut game, mut runner, attacker, _) = game_with_silo(60, 60);
    let target = game.map.ref_xy(7, 7);
    build_nuke(&mut game, &mut runner, attacker, target);
    assert_eq!(game.unit_count(attacker, ATOM_BOMB), 1);
    let bomb = game.units_of_type(attacker, ATOM_BOMB)[0];
    assert_ne!(bomb.tile, target, "bomb should still be in flight, not already at its target");
    for _ in 0..60 {
        if game.unit_count(attacker, ATOM_BOMB) == 0 {
            break;
        }
        runner.step(&mut game);
    }
    assert_eq!(game.unit_count(attacker, ATOM_BOMB), 0);
}

#[test]
fn missile_silo_only_launches_one_nuke_at_a_time() {
    let (mut game, mut runner, attacker, _) = game_with_silo(60, 60);
    let target = game.map.ref_xy(50, 50);
    build_nuke(&mut game, &mut runner, attacker, target);
    build_nuke(&mut game, &mut runner, attacker, target);
    assert_eq!(game.unit_count(attacker, ATOM_BOMB), 1);
}

fn cools_down(game: &Game, sid: u16, id: i32) -> bool {
    unit_is_in_cooldown(game, game.unit(sid, id).unwrap())
}

#[test]
fn missile_silo_stays_in_cooldown_for_exactly_silo_cooldown_ticks() {
    let (mut game, mut runner, attacker, silo_id) = game_with_silo(60, 60);
    assert!(!cools_down(&game, attacker, silo_id));
    let target = game.map.ref_xy(50, 50);
    build_nuke(&mut game, &mut runner, attacker, target);
    assert_eq!(game.unit_count(attacker, ATOM_BOMB), 1);
    for _ in 0..(game.wire.silo_cooldown - 2) {
        runner.step(&mut game);
        assert!(cools_down(&game, attacker, silo_id));
    }
    runner.step(&mut game);
    runner.step(&mut game);
    assert!(!cools_down(&game, attacker, silo_id));
}

fn game_with_two_ports(dist: u32) -> (Game, u16, TileRef, i32, u16, i32) {
    let width = dist + 20;
    let (player_x, other_x) = (5, 5 + dist);
    let mut bytes = vec![0u8; width as usize];
    bytes[player_x as usize] = 0x80;
    bytes[other_x as usize] = 0x80;
    let map = GameMap::from_terrain_bytes(
        &MapMeta { width, height: 1, num_land_tiles: 2 },
        &bytes,
    )
    .unwrap();
    let mut game = Game::new(Config::new(Difficulty::Medium, GameMode::FreeForAll), map);
    game.end_spawn_phase();
    let own = game.add_player(Player { gold: 1_000_000_000, ..player("player_id", PlayerType::Human) });
    let other = game.add_player(Player { gold: 1_000_000_000, ..player("other_id", PlayerType::Human) });
    let own_tile = game.map.ref_xy(player_x, 0);
    let other_tile = game.map.ref_xy(other_x, 0);
    game.conquer(own, own_tile);
    game.conquer(other, other_tile);
    let own_port = game.build_unit(own, PORT, own_tile);
    let other_port = game.build_unit(other, PORT, other_tile);
    (game, own, own_tile, own_port, other, other_port)
}

fn started(game: &mut Game, sid: u16, port: i32) -> PortExecution {
    let mut execution = PortExecution::new(sid, port);
    execution.init(game, 0);
    execution.tick(game, 0);
    execution
}

#[test]
fn trading_ports_weighted_list_scales_with_level_when_not_bonus_eligible() {
    let (mut game, own, own_tile, own_port, other, other_port) = game_with_two_ports(10);
    let execution = started(&mut game, own, own_port);
    let raised = execution::state::Unit { level: 3, ..game.unit(other, other_port).unwrap() };
    game.replace_unit(other, other_port, raised);
    let ports = execution.trading_ports(&game, own_tile);
    assert_eq!(ports.len(), 3);
    assert!(ports.iter().all(|&(sid, uid)| sid == other && uid == other_port));
}

#[test]
fn trading_ports_gets_a_proximity_bonus_copy_when_far_enough_but_not_too_far() {
    let (mut game, own, own_tile, own_port, _, _) = game_with_two_ports(310);
    let execution = started(&mut game, own, own_port);
    assert_eq!(execution.trading_ports(&game, own_tile).len(), 2);
}

#[test]
fn trading_ports_short_range_debuff_cancels_the_proximity_bonus() {
    let (mut game, own, own_tile, own_port, _, _) = game_with_two_ports(50);
    let execution = started(&mut game, own, own_port);
    assert_eq!(execution.trading_ports(&game, own_tile).len(), 1);
}

#[test]
fn cluster_calc_seed_uses_player_id_like_ts() {
    let mut game = plains_game(4, 4);
    let small_id = game.add_player(Player {
        name: "Arawak Colony".into(),
        ..player("w5d7jk0b", PlayerType::Human)
    });
    let mut exec = PlayerExecution::new(small_id);
    exec.init(&mut game, 100);
    let p = game.player_by_small_id(small_id).unwrap();
    let id_seed = simple_hash(&p.id) as u32 % TICKS_PER_CLUSTER_CALC;
    let name_seed = simple_hash(&p.name) as u32 % TICKS_PER_CLUSTER_CALC;
    assert_ne!(id_seed, name_seed, "fixture should catch id/name swaps");
    assert_eq!(p.last_cluster_calc, 100 + id_seed);
}

#[test]
fn add_troops_negative_uses_magnitude_floor_like_ts() {
    let mut game = plains_game(4, 4);
    game.add_player(Player { troops: 10_000, ..player("p", PlayerType::Human) });
    game.add_troops(1, -636_028_289);
    assert_eq!(game.player_by_small_id(1).unwrap().troops, 10_000 - 6360);
}

fn seed_with_chance8_true() -> i32 {
    for seed in 1..500 {
        if PseudoRandom::new(seed).chance(8) {
            return seed;
        }
    }
    panic!("no seed with chance(8)=true in 1..500");
}

#[test]
fn respond_to_mirv_skips_draw_when_allplayers_on_cooldown() {
    let mut game = plains_game(4, 4);
    let target = join(&mut game, "bulgaria", PlayerType::Nation);
    game.record_emoji_send(target, None);
    let mut runner = Runner::new();
    for _ in 0..30 {
        runner.step(&mut game);
    }
    assert!(!game.can_send_emoji(target, None));
    let seed = seed_with_chance8_true();
    let mut random = PseudoRandom::new(seed);
    let mut expected = PseudoRandom::new(seed);
    assert!(expected.chance(8));
    respond_to_mirv(&mut game, &mut random, target);
    assert_eq!(random.state, expected.state);
}

#[test]
fn respond_to_mirv_draws_when_allplayers_not_on_cooldown() {
    let mut game = plains_game(4, 4);
    let target = join(&mut game, "bulgaria", PlayerType::Nation);
    assert!(game.can_send_emoji(target, None));
    let seed = seed_with_chance8_true();
    let mut random = PseudoRandom::new(seed);
    let mut expected = PseudoRandom::new(seed);
    assert!(expected.chance(8));
    let _ = expected.next_int(0, EMOJI_OVERWHELMED_LEN);
    respond_to_mirv(&mut game, &mut random, target);
    assert_eq!(random.state, expected.state);
    assert!(!game.can_send_emoji(target, None));
}

#[test]
fn defense_post_sampling_includes_positive_radius_edge() {
    let center = 100;
    let radius = 7;
    let mut random = PseudoRandom::new(0);
    let samples: Vec<i32> =
        (0..10_000).map(|_| sample_front_coordinate(&mut random, center, radius)).collect();
    assert!(samples.contains(&(center - radius)));
    assert!(samples.contains(&(center + radius)));
    assert!(samples.iter().all(|s| (center - radius..=center + radius).contains(s)));
}

#[test]
fn city_connectivity_weight_can_change_candidate_ranking() {
    let spacing = 100;
    let disconnected = city_value_with_connectivity(120, 0, 2, spacing, true);
    let connected = city_value_with_connectivity(100, 1, 2, spacing, true);
    assert!(connected > disconnected);
    assert_eq!(city_value_with_connectivity(100, 1, 2, spacing, false), 200);
}
