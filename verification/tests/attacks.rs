use execution::ai_attack::{is_bordering_nuked_territory, nearby_player_small_ids, nearby_players_in_order};
use execution::ai_forces::{cap_player_attack_troops, land_attack_troops, try_send_player_attack, try_send_player_attack_forced, try_send_tn_attack};
use execution::ai_strategy::nation_maybe_attack;
use execution::attack::AttackExecution;
use execution::attack_fight::FightStep;
use execution::config::{Config, Difficulty, GameMode, TROOP_SCALE};
use execution::exec_enum::ExecEnum;
use execution::execution::Execution;
use execution::game::Game;
use execution::map::{GameMap, MapMeta};
use execution::nation_emoji::NationEmojiState;
use execution::prng::PseudoRandom;
use execution::state::{Player, PlayerType};
use execution::unit_type::UnitType;

#[allow(dead_code)]
const IMPASSABLE: u8 = 0x9f;

/// A map of plains with the tiles that `f` changes.
#[allow(dead_code)]
fn terrain(width: u32, height: u32, f: fn(u32, u32) -> Option<u8>) -> GameMap {
    let mut bytes: Vec<u8> = Vec::new();
    for y in 0..height {
        for x in 0..width {
            bytes.push(f(x, y).unwrap_or(0x80));
        }
    }
    GameMap::from_terrain_bytes(&MapMeta { width, height, num_land_tiles: width * height }, &bytes)
        .expect("a map")
}

#[allow(dead_code)]
fn no_change(_x: u32, _y: u32) -> Option<u8> {
    None
}

/// A game on plains, past the spawn phase.
#[allow(dead_code)]
fn plains_game(width: u32, height: u32) -> Game {
    let mut game = Game::new(
        Config::new(Difficulty::Medium, GameMode::FreeForAll),
        terrain(width, height, no_change),
    );
    game.end_spawn_phase();
    game
}

#[allow(dead_code)]
fn player(id: &str, player_type: PlayerType) -> Player {
    Player {
        id: id.to_string(),
        name: id.to_string(),
        client_id: id.to_string(),
        player_type,
        id_prng: execution::prng::PseudoRandom::new(id.bytes().map(|b| b as i32).sum()),
        ..Default::default()
    }
}

#[allow(dead_code)]
fn join(game: &mut Game, id: &str, player_type: PlayerType) -> u16 {
    game.add_player(player(id, player_type))
}

/// Gives a game's executions their ticks.
#[allow(dead_code)]
struct Runner {
    active: Vec<ExecEnum>,
    /// How many tiles an attack takes in a tick.
    pace: u32,
}

#[allow(dead_code)]
impl Runner {
    fn new() -> Runner {
        Runner { active: Vec::new(), pace: 10 }
    }

    fn step(&mut self, game: &mut Game) {
        let tick = game.tick;
        for e in self.active.iter_mut() {
            if (!game.in_spawn_phase() || e.active_during_spawn()) && e.is_active() {
                e.tick(game, tick);
                if let Some(attack) = e.as_attack() {
                    if attack.fighting {
                        fight(attack, game, tick, self.pace);
                    }
                }
            }
        }
        let queued = std::mem::take(&mut game.pending);
        for mut e in queued {
            if !game.in_spawn_phase() || e.active_during_spawn() {
                e.init(game, tick);
                self.active.push(e);
            } else {
                game.pending.push(e);
            }
        }
        self.active.retain(|e| e.is_active());
        game.tick += 1;
    }
}

/// Lets an attack take up to so many tiles at half a troop each.
#[allow(dead_code)]
fn fight(attack: &mut AttackExecution, game: &mut Game, tick: u32, pace: u32) {
    let width = attack.front_width();
    assert!(width >= attack.border_tile_count() as u128);
    for _ in 0..pace {
        match attack.next_tile(game, tick) {
            FightStep::Over => return,
            FightStep::Take(tile) => attack.conquer_tile(game, tile, TROOP_SCALE / 2, 0),
        }
    }
    attack.rest();
}

const BLOCK: i64 = TROOP_SCALE;

fn new_game(difficulty: Difficulty, game_mode: GameMode) -> Game {
    let mut game = Game::new(Config::new(difficulty, game_mode), terrain(200, 200, no_change));
    game.end_spawn_phase();
    game
}

fn conquer_round_robin(game: &mut Game, owners: &[u16], count: u32) {
    for i in 0..count {
        game.conquer(owners[(i as usize) % owners.len()], i);
    }
}

fn troop_floor_setup(difficulty: Difficulty, game_mode: GameMode) -> (Game, u16, u16, u16) {
    let mut game = new_game(difficulty, game_mode);
    let attacker = join(&mut game, "attacker_id", PlayerType::Nation);
    let neighbor = join(&mut game, "neighbor_id", PlayerType::Human);
    let bot = game.add_player(Player { troops: 10_000, ..player("bot_id", PlayerType::Bot) });
    conquer_round_robin(&mut game, &[attacker, neighbor, bot], 90);
    game.add_troops(bot, 100 * BLOCK);
    (game, attacker, neighbor, bot)
}

/// The troops of the attack from `owner` on `target` once what is queued has begun.
fn queued_attack_troops(game: &mut Game, owner: u16, target: u16) -> Option<i64> {
    Runner::new().step(game);
    game.attacks.iter().find(|a| a.attacker == owner && a.target == target).map(|a| a.troops)
}

fn outgoing(game: &Game, owner: u16) -> Vec<u16> {
    game.attacks.iter().filter(|a| a.attacker == owner).map(|a| a.target).collect()
}

#[test]
fn bot_cannot_attack_allied_player() {
    let mut game = new_game(Difficulty::Medium, GameMode::FreeForAll);
    let bot = join(&mut game, "bot_test", PlayerType::Bot);
    let human = join(&mut game, "human_test", PlayerType::Human);
    conquer_round_robin(&mut game, &[bot, human], 200);
    game.add_troops(bot, 5000 * BLOCK);
    game.add_troops(human, 5000 * BLOCK);
    assert!(game.create_alliance_request(bot, human, 0));
    game.accept_alliance_request(bot, human, 1);
    assert!(game.is_friendly(bot, human));
    let before = outgoing(&game, bot).len();
    let mut random = PseudoRandom::new(42);
    let mut sent = 0;
    let mut emoji = NationEmojiState::default();
    try_send_player_attack(
        &mut game,
        &mut random,
        bot,
        human,
        50,
        50,
        &mut sent,
        Difficulty::Medium,
        &mut emoji,
        false,
    );
    let mut runner = Runner::new();
    for _ in 0..5 {
        runner.step(&mut game);
    }
    assert!(game.is_friendly(bot, human));
    assert_eq!(game.incoming_attacks(human, false).len(), 0);
    assert_eq!(outgoing(&game, bot).len(), before);
}

#[test]
fn nation_cannot_attack_allied_player() {
    let mut game = new_game(Difficulty::Medium, GameMode::FreeForAll);
    let bot = join(&mut game, "bot_test", PlayerType::Bot);
    let human = join(&mut game, "human_test", PlayerType::Human);
    let nation = join(&mut game, "nation_test", PlayerType::Nation);
    conquer_round_robin(&mut game, &[bot, human, nation], 21);
    game.add_troops(nation, 1000 * BLOCK);
    assert!(game.create_alliance_request(nation, human, 0));
    game.accept_alliance_request(nation, human, 1);
    assert!(game.is_friendly(nation, human));
    let before = outgoing(&game, nation).len();
    game.add_troops(nation, 50_000 * BLOCK);
    let mut random = PseudoRandom::new(42);
    let mut sent = 0;
    let mut emoji = NationEmojiState::default();
    try_send_player_attack_forced(
        &mut game,
        &mut random,
        nation,
        human,
        50,
        50,
        &mut sent,
        Difficulty::Medium,
        &mut emoji,
        false,
        true,
    );
    let mut runner = Runner::new();
    for _ in 0..5 {
        runner.step(&mut game);
    }
    assert!(game.is_friendly(nation, human));
    assert_eq!(outgoing(&game, nation).len(), before);
}

fn send(game: &mut Game, attacker: u16, target: u16, difficulty: Difficulty) -> bool {
    let mut random = PseudoRandom::new(42);
    let mut sent = 0;
    let mut emoji = NationEmojiState::default();
    try_send_player_attack(
        game,
        &mut random,
        attacker,
        target,
        30,
        20,
        &mut sent,
        difficulty,
        &mut emoji,
        false,
    )
}

/// What an attacker may send where so many percent of a neighbour's troops stay at home.
fn cap(game: &Game, attacker: u16, neighbor: u16, percent: i64) -> i64 {
    let retained = (game.troops_of(neighbor) * percent + 99) / 100;
    ((game.troops_of(attacker) - retained) * BLOCK).max(0)
}

#[test]
fn hard_caps_attack_troops_to_75pct_of_strongest_neighbor() {
    let (mut game, attacker, neighbor, _) = troop_floor_setup(Difficulty::Hard, GameMode::FreeForAll);
    game.add_troops(attacker, 100_000 * BLOCK);
    game.add_troops(neighbor, 90_000 * BLOCK);
    let expected_cap = cap(&game, attacker, neighbor, 75);
    assert!(send(&mut game, attacker, neighbor, Difficulty::Hard));
    let start = queued_attack_troops(&mut game, attacker, neighbor).expect("attack should be queued");
    assert!(start <= expected_cap, "start={start} expected_cap={expected_cap}");
}

#[test]
fn hard_prevents_attack_below_75pct_troop_floor() {
    let (mut game, attacker, neighbor, bot) = troop_floor_setup(Difficulty::Hard, GameMode::FreeForAll);
    game.add_troops(attacker, 3_000 * BLOCK);
    game.add_troops(neighbor, 5_000 * BLOCK);
    assert!(!send(&mut game, attacker, bot, Difficulty::Hard));
    assert!(queued_attack_troops(&mut game, attacker, bot).is_none());
}

#[test]
fn hard_skips_attack_when_capped_troops_too_weak() {
    let (mut game, attacker, neighbor, _) = troop_floor_setup(Difficulty::Hard, GameMode::FreeForAll);
    let target = join(&mut game, "target_id", PlayerType::Human);
    for i in 0..20 {
        game.conquer(target, 3 * i);
    }
    game.add_troops(attacker, 100_000 * BLOCK);
    game.add_troops(neighbor, 100_000 * BLOCK);
    game.add_troops(target, 300_000 * BLOCK);
    assert!(!send(&mut game, attacker, target, Difficulty::Hard));
    assert!(queued_attack_troops(&mut game, attacker, target).is_none());
}

#[test]
fn impossible_caps_attack_troops_to_90pct_of_strongest_neighbor() {
    let (mut game, attacker, neighbor, _) =
        troop_floor_setup(Difficulty::Impossible, GameMode::FreeForAll);
    game.add_troops(attacker, 100_000 * BLOCK);
    game.add_troops(neighbor, 90_000 * BLOCK);
    let expected_cap = cap(&game, attacker, neighbor, 90);
    assert!(send(&mut game, attacker, neighbor, Difficulty::Impossible));
    let start = queued_attack_troops(&mut game, attacker, neighbor).expect("attack should be queued");
    assert!(start <= expected_cap, "start={start} expected_cap={expected_cap}");
}

#[test]
fn easy_has_no_troop_floor() {
    let (mut game, attacker, neighbor, bot) = troop_floor_setup(Difficulty::Easy, GameMode::FreeForAll);
    game.add_troops(attacker, 100_000 * BLOCK);
    game.add_troops(neighbor, 90_000 * BLOCK);
    assert!(send(&mut game, attacker, bot, Difficulty::Easy));
    let start = queued_attack_troops(&mut game, attacker, bot).expect("attack should be queued");
    assert!(start > 0);
    assert!(start > cap(&game, attacker, neighbor, 75));
}

#[test]
fn hard_send_attack_uncapped_with_no_player_neighbors() {
    let mut game = new_game(Difficulty::Hard, GameMode::FreeForAll);
    let bot = join(&mut game, "lone_id", PlayerType::Bot);
    for tile in (0..40_000u32).step_by(2) {
        game.conquer(bot, tile);
    }
    game.add_troops(bot, 100_000 * BLOCK);
    assert!(nearby_player_small_ids(&game, bot).is_empty());
    assert!(try_send_tn_attack(&mut game, bot, 20));
    let tn = game.terra_nullius_id();
    let start = queued_attack_troops(&mut game, bot, tn).expect("attack should be queued");
    assert!(start > 40_000 * BLOCK);
}

#[test]
fn team_mode_troop_send_cap_is_uncapped() {
    let (mut game, attacker, neighbor, bot) = troop_floor_setup(Difficulty::Hard, GameMode::Team);
    game.add_troops(attacker, 100_000 * BLOCK);
    game.add_troops(neighbor, 90_000 * BLOCK);
    assert!(send(&mut game, attacker, bot, Difficulty::Hard));
    let start = queued_attack_troops(&mut game, attacker, bot).expect("attack should be queued");
    assert!(start > 32_500 * BLOCK);
}

#[test]
fn team_mode_is_attack_too_weak_never_blocks() {
    let (mut game, attacker, neighbor, _) = troop_floor_setup(Difficulty::Hard, GameMode::Team);
    let target = join(&mut game, "target_id", PlayerType::Human);
    conquer_round_robin(&mut game, &[attacker, neighbor, target], 90);
    game.add_troops(attacker, 100_000 * BLOCK);
    game.add_troops(neighbor, 100_000 * BLOCK);
    game.add_troops(target, 300_000 * BLOCK);
    assert!(send(&mut game, attacker, target, Difficulty::Hard));
    let start = queued_attack_troops(&mut game, attacker, target).expect("attack should be queued");
    assert!(start > 0);
}

#[test]
fn hard_nation_under_attack_bypasses_troop_send_cap() {
    let (mut game, attacker, neighbor, _) = troop_floor_setup(Difficulty::Hard, GameMode::FreeForAll);
    game.add_troops(attacker, 100_000 * BLOCK);
    game.add_troops(neighbor, 200_000 * BLOCK);
    assert_eq!(cap(&game, attacker, neighbor, 75), 0);
    game.add_land_attack(neighbor, Some("attacker_id".to_string()), 50_000 * BLOCK);
    Runner::new().step(&mut game);
    assert!(!game.incoming_attacks(attacker, false).is_empty());
    let raw = land_attack_troops(&game, attacker, 30).expect("reserve check should pass");
    let capped = cap_player_attack_troops(&game, attacker, neighbor, raw)
        .expect("retaliation should bypass the cap");
    assert!(capped >= 50_000 * BLOCK, "capped={capped}");
}

fn conquer_rect(game: &mut Game, owner: u16, x0: u32, y0: u32, x1: u32, y1: u32) {
    for x in x0..x1 {
        for y in y0..y1 {
            let t = game.map.ref_xy(x, y);
            game.conquer(owner, t);
        }
    }
}

fn setup_behavior(difficulty: Difficulty, with_enemy: bool, disabled: Vec<UnitType>) -> (Game, u16, u16) {
    let mut game = new_game(difficulty, GameMode::FreeForAll);
    game.wire.disabled_units = disabled;
    let nation = join(&mut game, "nation_id", PlayerType::Nation);
    let enemy = join(&mut game, "enemy_id", PlayerType::Human);
    conquer_rect(&mut game, nation, 60, 60, 80, 80);
    if with_enemy {
        conquer_rect(&mut game, enemy, 40, 60, 60, 80);
    }
    for x in 40..120 {
        for y in 40..100 {
            let t = game.map.ref_xy(x, y);
            if game.map.owner_id(t) == 0 {
                game.map.set_fallout(t, true);
            }
        }
    }
    game.add_troops(nation, 5_000_000 * BLOCK);
    game.add_troops(enemy, 50_000 * BLOCK);
    assert!(game.tiles_of(nation) > 0);
    (game, nation, enemy)
}

fn attack_turn(game: &mut Game, nation: u16, difficulty: Difficulty, runner: &mut Runner) -> Vec<u16> {
    let before: Vec<String> = game.attacks.iter().map(|a| a.id.clone()).collect();
    let mut random = PseudoRandom::new(42);
    let mut sent = 0;
    let mut emoji = NationEmojiState::default();
    nation_maybe_attack(
        game,
        &mut random,
        nation,
        0,
        0,
        0,
        &mut sent,
        difficulty,
        &mut emoji,
        false,
    );
    runner.step(game);
    game.attacks
        .iter()
        .filter(|a| a.attacker == nation && !before.contains(&a.id))
        .map(|a| a.target)
        .collect()
}

#[test]
fn nearby_excludes_directly_adjacent_nuked_terra_nullius() {
    let (game, nation, _) = setup_behavior(Difficulty::Impossible, false, Vec::new());
    assert!(is_bordering_nuked_territory(&game, nation));
    let nearby = nearby_players_in_order(&game, nation);
    assert!(nearby.is_empty(), "nearby={nearby:?} should be empty");
}

#[test]
fn maybe_attack_does_not_preempt_retaliation_with_nuked_tn_attack() {
    let (mut game, nation, enemy) = setup_behavior(Difficulty::Impossible, true, Vec::new());
    let mut runner = Runner::new();
    for _ in 0..60 {
        runner.step(&mut game);
    }
    game.add_land_attack(enemy, Some("nation_id".to_string()), 100_000 * BLOCK);
    runner.step(&mut game);
    assert!(!game.incoming_attacks(nation, false).is_empty());
    let targets = attack_turn(&mut game, nation, Difficulty::Impossible, &mut runner);
    assert!(!targets.is_empty(), "expected at least one new outgoing attack");
    for target in targets {
        assert_eq!(target, enemy);
    }
}

#[test]
fn maybe_attack_early_gate_bypassed_when_only_nuked_tn_borders() {
    let (mut game, nation, _) = setup_behavior(Difficulty::Impossible, false, Vec::new());
    assert!(game.incoming_attacks(nation, false).is_empty());
    let targets = attack_turn(&mut game, nation, Difficulty::Impossible, &mut Runner::new());
    assert!(!targets.is_empty(), "expected at least one new outgoing attack");
    for target in targets {
        assert_eq!(target, game.terra_nullius_id());
    }
}

#[test]
fn nuked_strategy_captures_tiles_when_idle() {
    let (mut game, nation, _) = setup_behavior(Difficulty::Impossible, false, Vec::new());
    let mut runner = Runner::new();
    let targets = attack_turn(&mut game, nation, Difficulty::Impossible, &mut runner);
    assert!(!targets.is_empty());
    for target in targets {
        assert_eq!(target, game.terra_nullius_id());
    }
    for _ in 0..60 {
        runner.step(&mut game);
    }
    let mut conquered_east = 0;
    for x in 80..120 {
        for y in 60..100 {
            if game.map.owner_id(game.map.ref_xy(x, y)) == nation {
                conquered_east += 1;
            }
        }
    }
    assert!(conquered_east > 0);
}

#[test]
fn easy_difficulty_nuked_strategy_still_fires_when_idle() {
    let (mut game, nation, _) = setup_behavior(Difficulty::Easy, false, Vec::new());
    let targets = attack_turn(&mut game, nation, Difficulty::Easy, &mut Runner::new());
    assert!(!targets.is_empty());
    for target in targets {
        assert_eq!(target, game.terra_nullius_id());
    }
}

#[test]
fn missile_silo_disabled_disables_nuked_strategy() {
    let (mut game, nation, _) =
        setup_behavior(Difficulty::Impossible, false, vec![UnitType::MissileSilo]);
    let targets = attack_turn(&mut game, nation, Difficulty::Impossible, &mut Runner::new());
    assert!(targets.is_empty(), "expected no attack, got {targets:?}");
}

fn wall(x: u32, _y: u32) -> Option<u8> {
    if x == 30 || x == 31 {
        Some(IMPASSABLE)
    } else {
        None
    }
}

fn walled_game() -> Game {
    let mut game = Game::new(
        Config::new(Difficulty::Medium, GameMode::FreeForAll),
        terrain(60, 20, wall),
    );
    game.end_spawn_phase();
    game
}

fn wall_scenario() -> Game {
    let mut game = walled_game();
    for id in ["nation", "enemy"] {
        game.add_player(Player { troops: 200_000, ..player(id, PlayerType::Nation) });
    }
    for y in 0..20 {
        for x in 28..30 {
            game.conquer(1, game.map.ref_xy(x, y));
        }
        for x in 23..28 {
            game.conquer(2, game.map.ref_xy(x, y));
        }
    }
    game
}

#[test]
fn nearby_players_excludes_terra_nullius_from_an_impassable_wall() {
    let game = wall_scenario();
    let neighbors = nearby_players_in_order(&game, 1);
    assert!(neighbors.contains(&2), "enemy should be a nearby neighbor: {neighbors:?}");
    assert!(!neighbors.contains(&0), "the wall is nobody's land: {neighbors:?}");
}

#[test]
fn attack_execution_can_target_enemy_across_from_an_impassable_wall() {
    let mut game = wall_scenario();
    game.add_execution(ExecEnum::Attack(AttackExecution::new(
        1,
        Some("enemy".to_string()),
        Some(1000 * BLOCK),
    )));
    let mut runner = Runner::new();
    runner.pace = 1;
    runner.step(&mut game);
    runner.step(&mut game);
    assert!(!outgoing(&game, 1).is_empty());
}

#[test]
fn alliance_formed_mid_attack_returns_all_remaining_troops() {
    let mut game = plains_game(4, 4);
    game.spawn_phase = true;
    game.add_player(Player {
        troops: 1_000,
        team: Some("Blue".to_string()),
        ..player("attacker", PlayerType::Human)
    });
    game.add_player(Player {
        team: Some("Blue".to_string()),
        ..player("target", PlayerType::Human)
    });
    let mut attack = AttackExecution::new(1, Some("target".to_string()), Some(400 * BLOCK));
    attack.initialized = true;
    attack.target_is_player = true;
    attack.target_small_id = 2;
    attack.troops = 400 * BLOCK;
    attack.tick(&mut game, 1);
    assert_eq!(game.player_by_small_id(1).unwrap().troops, 1_400);
    assert!(!attack.is_active());
}

fn bot(id: &str, troops: i64, seed: i32) -> Player {
    Player { troops, id_prng: PseudoRandom::new(seed), ..player(id, PlayerType::Bot) }
}

#[test]
fn boat_landed_attack_cancels_opposing_land_attack() {
    let mut game = plains_game(4, 4);
    game.add_player(bot("attacker", 1_000, 1));
    game.add_player(bot("defender", 1_000, 2));
    let mut first = AttackExecution::new(1, Some("defender".to_string()), Some(100 * BLOCK));
    let mut second = AttackExecution::new_with_source(
        2,
        Some("attacker".to_string()),
        Some(40 * BLOCK),
        Some(0),
    );
    first.init(&mut game, 0);
    second.init(&mut game, 0);
    assert_eq!(game.attacks.len(), 1);
    assert_eq!(game.attacks[0].attacker, 1);
    assert_eq!(game.attacks[0].target, 2);
    assert_eq!(game.attacks[0].troops, 60 * BLOCK);
    assert_eq!(game.attacks[0].id, first.attack_id());
    assert!(first.is_active());
    assert!(first.attack_live());
    assert_eq!(second.owner_small_id(), 2);
    assert_eq!(second.target_small_id(), 1);
    assert!(!second.is_active());
}

fn check_border_invariant(game: &Game) {
    for sid in game.player_ids() {
        let border = game.border_tiles_for(sid);
        for t in 0..game.map.width * game.map.height {
            let owned = game.map.owner_id(t) == sid;
            let exposed = game.map.neighbors4(t).iter().any(|&n| game.map.owner_id(n) != sid);
            assert_eq!(border.contains(&t), owned && exposed, "player {sid} at tile {t}");
        }
    }
}

#[test]
fn border_invariant_holds_after_expanding_into_terra_nullius() {
    let mut game = plains_game(40, 40);
    game.add_player(bot("attacker", 1_000_000, 1));
    game.conquer(1, game.map.ref_xy(0, 0));
    game.add_execution(ExecEnum::Attack(AttackExecution::new(1, None, Some(1000 * BLOCK))));
    let mut runner = Runner::new();
    for _ in 0..30 {
        runner.step(&mut game);
    }
    assert!(game.tiles_of(1) > 10);
    check_border_invariant(&game);
}

#[test]
fn border_invariant_holds_while_two_players_fight_over_territory() {
    let mut game = plains_game(40, 40);
    game.add_player(bot("attacker", 1_000_000, 1));
    game.add_player(bot("defender", 1_000_000, 2));
    game.conquer(1, game.map.ref_xy(0, 0));
    game.conquer(2, game.map.ref_xy(30, 30));
    game.add_execution(ExecEnum::Attack(AttackExecution::new(1, None, Some(500 * BLOCK))));
    game.add_execution(ExecEnum::Attack(AttackExecution::new(2, None, Some(500 * BLOCK))));
    let mut runner = Runner::new();
    for _ in 0..40 {
        runner.step(&mut game);
    }
    game.add_execution(ExecEnum::Attack(AttackExecution::new(
        1,
        Some("defender".to_string()),
        Some(5000 * BLOCK),
    )));
    for i in 0..40 {
        runner.step(&mut game);
        if i % 10 == 0 {
            check_border_invariant(&game);
        }
    }
    assert!(game.tiles_of(1) > 10);
    check_border_invariant(&game);
}

#[test]
fn conquering_terra_nullius_updates_owner_and_neighbors_border_status() {
    let mut game = plains_game(40, 40);
    game.add_player(bot("attacker", 1_000_000, 1));
    game.conquer(1, game.map.ref_xy(0, 0));
    game.add_execution(ExecEnum::Attack(AttackExecution::new(1, None, Some(1000 * BLOCK))));
    let mut runner = Runner::new();
    for _ in 0..30 {
        runner.step(&mut game);
    }
    let owned = (0..1600u32).filter(|&t| game.map.owner_id(t) == 1).count();
    assert_eq!(owned as i64, game.tiles_of(1));
    check_border_invariant(&game);
}

#[test]
fn attack_does_not_expand_into_impassable_tiles() {
    let mut game = walled_game();
    game.add_player(bot("attacker", 1_000_000, 1));
    game.add_player(bot("other", 1_000_000, 2));
    for y in 8..=12 {
        game.conquer(2, game.map.ref_xy(32, y));
        game.conquer(1, game.map.ref_xy(28, y));
    }
    game.add_execution(ExecEnum::Attack(AttackExecution::new(
        1,
        Some("other".to_string()),
        Some(1000 * BLOCK),
    )));
    let mut runner = Runner::new();
    for _ in 0..50 {
        runner.step(&mut game);
    }
    for y in 8..=12 {
        assert_ne!(game.map.owner_id(game.map.ref_xy(30, y)), 1);
        assert_ne!(game.map.owner_id(game.map.ref_xy(31, y)), 1);
    }
}

#[test]
fn an_attack_called_back_from_a_players_land_leaves_a_quarter_behind() {
    let mut game = plains_game(8, 8);
    game.add_player(bot("attacker", 1_000, 1));
    game.add_player(bot("defender", 1_000, 2));
    let mut attack = AttackExecution::new(1, Some("defender".to_string()), Some(400 * BLOCK));
    attack.init(&mut game, 0);
    assert_eq!(game.troops_of(1), 600);
    game.order_retreat(1, &attack.attack_id().to_string());
    attack.tick(&mut game, 1);
    assert!(attack.is_active());
    game.execute_retreat(1, &attack.attack_id().to_string());
    attack.tick(&mut game, 21);
    assert!(!attack.is_active());
    assert_eq!(game.troops_of(1), 900);
    assert!(game.attacks.is_empty());
}

#[test]
fn attacks_of_one_player_on_one_target_become_one() {
    let mut game = plains_game(8, 8);
    game.add_player(bot("attacker", 1_000, 1));
    game.conquer(1, 0);
    let mut first = AttackExecution::new(1, None, Some(100 * BLOCK));
    let mut second = AttackExecution::new(1, None, Some(50 * BLOCK));
    first.init(&mut game, 0);
    second.init(&mut game, 0);
    assert_eq!(game.attacks.len(), 1);
    assert_eq!(game.attacks[0].troops, 150 * BLOCK);
    first.tick(&mut game, 1);
    assert!(!first.is_active());
    second.tick(&mut game, 1);
    assert!(second.fighting);
    assert!(second.to_conquer_len() > 0);
}

#[test]
fn an_overrun_defender_loses_its_land_and_gold() {
    let mut game = plains_game(20, 20);
    game.add_player(bot("attacker", 1_000, 1));
    game.add_player(Player { gold: 700, ..bot("defender", 10, 2) });
    for t in 0..40 {
        game.conquer(1, t);
    }
    for t in 40..80 {
        game.conquer(2, t);
    }
    let mut attack = AttackExecution::new(1, Some("defender".to_string()), Some(500 * BLOCK));
    attack.init(&mut game, 0);
    attack.tick(&mut game, 1);
    assert!(attack.fighting);
    match attack.next_tile(&mut game, 1) {
        FightStep::Take(tile) => attack.conquer_tile(&mut game, tile, BLOCK, 2 * BLOCK),
        FightStep::Over => panic!("the front has tiles"),
    }
    attack.rest();
    assert_eq!(game.tiles_of(2), 0);
    assert_eq!(game.tiles_of(1), 80);
    assert_eq!(game.troops_of(2), 8);
    assert_eq!(game.gold_of(2), 0);
    assert_eq!(attack.troops(), 499 * BLOCK);
    check_border_invariant(&game);
}
