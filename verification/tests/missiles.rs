use execution::attack::AttackExecution;
use execution::attack_fight::FightStep;
use execution::config::{Config, Difficulty, GameMode, TROOP_SCALE};
use execution::exec_enum::ExecEnum;
use execution::execution::Execution;
use execution::game::Game;
use execution::map::{GameMap, MapMeta};
use execution::mirv_ai::{calculate_territory_center, consider_mirv, select_counter_mirv_target, select_steamroll_stop_target, select_victory_denial_target, was_recently_mirved};
use execution::nation_emoji::NationEmojiState;
use execution::nuke_ai::{NationNukeState, bounding_box_tiles, get_perceived_nuke_cost, is_valid_nuke_tile, nuke_tile_score, remove_old_nuke_events, send_nuke};
use execution::nuke_execution::{NukeExecution, can_build_nuke};
use execution::nuke_targets::{find_high_density_target, is_richest_nation};
use execution::nuke_volley::maybe_send_nuke;
use execution::ordered_tiles::TileRef;
use execution::prng::PseudoRandom;
use execution::state::{MirvHit, Player, PlayerType, Unit};
use execution::unit_type::{ATOM_BOMB, CITY, DEFENSE_POST, HYDROGEN_BOMB, MIRV, MISSILE_SILO, SAM_LAUNCHER};

#[allow(dead_code)]
const IMPASSABLE: u8 = 0x9f;

/// A map of plains with the tiles that `f` changes.
#[allow(dead_code)]
fn terrain(width: u32, height: u32, f: fn(u32, u32) -> Option<u8>) -> GameMap {
    let mut bytes: Vec<u8> = Vec::new();
    for y in 0..height {
        for x in 0..width {
            bytes.push(f(x, y).unwrap_or(0x80));
        }
    }
    GameMap::from_terrain_bytes(&MapMeta { width, height, num_land_tiles: width * height }, &bytes)
        .expect("a map")
}

#[allow(dead_code)]
fn no_change(_x: u32, _y: u32) -> Option<u8> {
    None
}

/// A game on plains, past the spawn phase.
#[allow(dead_code)]
fn plains_game(width: u32, height: u32) -> Game {
    let mut game = Game::new(
        Config::new(Difficulty::Medium, GameMode::FreeForAll),
        terrain(width, height, no_change),
    );
    game.end_spawn_phase();
    game
}

#[allow(dead_code)]
fn player(id: &str, player_type: PlayerType) -> Player {
    Player {
        id: id.to_string(),
        name: id.to_string(),
        client_id: id.to_string(),
        player_type,
        id_prng: execution::prng::PseudoRandom::new(id.bytes().map(|b| b as i32).sum()),
        ..Default::default()
    }
}

#[allow(dead_code)]
fn join(game: &mut Game, id: &str, player_type: PlayerType) -> u16 {
    game.add_player(player(id, player_type))
}

/// Gives a game's executions their ticks.
#[allow(dead_code)]
struct Runner {
    active: Vec<ExecEnum>,
    /// How many tiles an attack takes in a tick.
    pace: u32,
}

#[allow(dead_code)]
impl Runner {
    fn new() -> Runner {
        Runner { active: Vec::new(), pace: 10 }
    }

    fn step(&mut self, game: &mut Game) {
        let tick = game.tick;
        for e in self.active.iter_mut() {
            if (!game.in_spawn_phase() || e.active_during_spawn()) && e.is_active() {
                e.tick(game, tick);
                if let Some(attack) = e.as_attack() {
                    if attack.fighting {
                        fight(attack, game, tick, self.pace);
                    }
                }
            }
        }
        let queued = std::mem::take(&mut game.pending);
        for mut e in queued {
            if !game.in_spawn_phase() || e.active_during_spawn() {
                e.init(game, tick);
                self.active.push(e);
            } else {
                game.pending.push(e);
            }
        }
        self.active.retain(|e| e.is_active());
        game.tick += 1;
    }
}

/// Lets an attack take up to so many tiles at half a troop each.
#[allow(dead_code)]
fn fight(attack: &mut AttackExecution, game: &mut Game, tick: u32, pace: u32) {
    let width = attack.front_width();
    assert!(width >= attack.border_tile_count() as u128);
    for _ in 0..pace {
        match attack.next_tile(game, tick) {
            FightStep::Over => return,
            FightStep::Take(tile) => attack.conquer_tile(game, tile, TROOP_SCALE / 2, 0),
        }
    }
    attack.rest();
}

fn sized_game(size: u32, difficulty: Difficulty) -> Game {
    let mut game = plains_game(size, size);
    game.wire.difficulty = difficulty;
    game
}

fn team_mate(game: &mut Game, id: &str, player_type: PlayerType, team: &str) -> u16 {
    game.add_player(Player { team: Some(team.to_string()), ..player(id, player_type) })
}

fn aim(game: &mut Game, owner: u16, id: i32, target: TileRef) {
    let aimed = Unit { target_tile: Some(target), ..game.unit(owner, id).unwrap() };
    game.replace_unit(owner, id, aimed);
}

fn conquer_row(game: &mut Game, owner: u16, y: u32, n: u32) {
    for x in 0..n {
        game.conquer(owner, game.map.ref_xy(x, y));
    }
}

#[test]
fn select_counter_mirv_target_prefers_the_larger_of_two_inbound_attackers() {
    let mut game = plains_game(20, 20);
    let nation = join(&mut game, "nation", PlayerType::Nation);
    let small_attacker = join(&mut game, "small_attacker", PlayerType::Human);
    let big_attacker = join(&mut game, "big_attacker", PlayerType::Human);
    let bot = join(&mut game, "bot", PlayerType::Bot);
    let nation_tile = game.map.ref_xy(10, 10);
    game.conquer(nation, nation_tile);
    conquer_row(&mut game, small_attacker, 0, 2);
    conquer_row(&mut game, big_attacker, 1, 5);
    conquer_row(&mut game, bot, 2, 5);
    for (i, attacker) in [small_attacker, big_attacker, bot].into_iter().enumerate() {
        let tile = game.map.ref_xy(0, 5 + i as u32);
        let id = game.build_unit(attacker, MIRV, tile);
        aim(&mut game, attacker, id, nation_tile);
    }
    assert_eq!(select_counter_mirv_target(&game, nation), Some(big_attacker));
}

#[test]
fn select_counter_mirv_target_ignores_a_teammates_inbound_mirv() {
    let mut game = plains_game(20, 20);
    game.wire.game_mode = GameMode::Team;
    let nation = team_mate(&mut game, "nation", PlayerType::Nation, "ALPHA");
    let teammate = team_mate(&mut game, "teammate", PlayerType::Human, "ALPHA");
    let nation_tile = game.map.ref_xy(10, 10);
    game.conquer(nation, nation_tile);
    let id = game.build_unit(teammate, MIRV, game.map.ref_xy(0, 0));
    aim(&mut game, teammate, id, nation_tile);
    assert_eq!(select_counter_mirv_target(&game, nation), None);
}

#[test]
fn select_victory_denial_target_flags_a_dominant_individual_player() {
    let mut game = plains_game(10, 10);
    let nation = join(&mut game, "nation", PlayerType::Nation);
    let dominant = join(&mut game, "dominant", PlayerType::Human);
    let small = join(&mut game, "small", PlayerType::Human);
    for i in 0..70 {
        game.conquer(dominant, game.map.ref_xy(i % 10, i / 10));
    }
    game.conquer(small, game.map.ref_xy(0, 7));
    game.conquer(nation, game.map.ref_xy(0, 8));
    assert_eq!(
        select_victory_denial_target(&game, nation, Difficulty::Medium),
        Some(dominant)
    );
    assert_eq!(select_victory_denial_target(&game, nation, Difficulty::Easy), None);
}

#[test]
fn select_victory_denial_target_targets_the_largest_member_of_a_dominant_team() {
    let mut game = plains_game(10, 10);
    game.wire.game_mode = GameMode::Team;
    let nation = join(&mut game, "nation", PlayerType::Nation);
    let team1 = team_mate(&mut game, "team1", PlayerType::Human, "ALPHA");
    let team2 = team_mate(&mut game, "team2", PlayerType::Human, "ALPHA");
    for i in 0..60 {
        game.conquer(team1, game.map.ref_xy(i % 10, i / 10));
    }
    for i in 60..85 {
        game.conquer(team2, game.map.ref_xy(i % 10, i / 10));
    }
    game.conquer(nation, game.map.ref_xy(9, 9));
    assert_eq!(select_victory_denial_target(&game, nation, Difficulty::Medium), Some(team1));
}

fn cities(game: &mut Game, owner: u16, tile: TileRef, count: u32, level: i32) {
    game.conquer(owner, tile);
    for _ in 0..count {
        let id = game.build_unit(owner, CITY, tile);
        let city = Unit { level, ..game.unit(owner, id).unwrap() };
        game.replace_unit(owner, id, city);
    }
}

#[test]
fn select_steamroll_stop_target_returns_the_leader_when_gap_exceeds_threshold() {
    let mut game = plains_game(20, 20);
    let nation = join(&mut game, "nation", PlayerType::Nation);
    let steamroller = join(&mut game, "steamroller", PlayerType::Human);
    let second = join(&mut game, "second", PlayerType::Human);
    cities(&mut game, steamroller, 0, 12, 1);
    cities(&mut game, second, 1, 5, 1);
    game.conquer(nation, 2);
    assert_eq!(
        select_steamroll_stop_target(&game, nation, Difficulty::Medium),
        Some(steamroller)
    );
}

#[test]
fn select_steamroll_stop_target_uses_city_level_sum_not_unit_cardinality() {
    let mut game = plains_game(20, 20);
    let nation = join(&mut game, "nation", PlayerType::Nation);
    let many_l1 = join(&mut game, "many_l1", PlayerType::Human);
    let few_upgraded = join(&mut game, "few_upgraded", PlayerType::Human);
    cities(&mut game, many_l1, 0, 12, 1);
    cities(&mut game, few_upgraded, 1, 5, 3);
    game.conquer(nation, 2);
    assert_eq!(game.unit_count(many_l1, CITY), 12);
    assert_eq!(game.unit_level_sum(few_upgraded, CITY), 15);
    assert_eq!(select_steamroll_stop_target(&game, nation, Difficulty::Medium), None);
}

#[test]
fn select_steamroll_stop_target_returns_none_when_leader_has_le_min_cities() {
    let mut game = plains_game(20, 20);
    let nation = join(&mut game, "nation", PlayerType::Nation);
    let steamroller = join(&mut game, "steamroller", PlayerType::Human);
    let second = join(&mut game, "second", PlayerType::Human);
    cities(&mut game, steamroller, 0, 10, 1);
    cities(&mut game, second, 1, 5, 1);
    game.conquer(nation, 2);
    assert_eq!(select_steamroll_stop_target(&game, nation, Difficulty::Medium), None);
}

#[test]
fn calculate_territory_center_returns_the_bounding_box_center_when_owned() {
    let mut game = plains_game(10, 10);
    let target = join(&mut game, "target", PlayerType::Human);
    for x in 2..8 {
        for y in 2..8 {
            game.conquer(target, game.map.ref_xy(x, y));
        }
    }
    assert_eq!(calculate_territory_center(&game, target), Some(game.map.ref_xy(4, 4)));
}

#[test]
fn calculate_territory_center_falls_back_to_nearest_border_tile_when_center_is_unowned() {
    let mut game = plains_game(10, 10);
    let target = join(&mut game, "target", PlayerType::Human);
    for i in 0..5 {
        game.conquer(target, game.map.ref_xy(i, 0));
        game.conquer(target, game.map.ref_xy(0, i));
    }
    let center = calculate_territory_center(&game, target);
    assert!(center.is_some());
    assert_eq!(game.map.owner_id(center.unwrap()), target);
}

#[test]
fn was_recently_mirved_respects_the_cooldown_window() {
    let mut game = plains_game(5, 5);
    let target = join(&mut game, "target", PlayerType::Human);
    game.mirv_hits.push(MirvHit { target, tick: 0 });
    assert!(was_recently_mirved(&game, target));
    let mut runner = Runner::new();
    for _ in 0..299 {
        runner.step(&mut game);
    }
    assert_eq!(game.ticks(), 299);
    assert!(was_recently_mirved(&game, target));
    runner.step(&mut game);
    assert_eq!(game.ticks(), 300);
    assert!(!was_recently_mirved(&game, target));
}

#[test]
fn consider_mirv_launches_a_real_mirv_in_counter_retaliation_end_to_end() {
    let size = 40u32;
    for seed in 1..50i32 {
        let mut game = sized_game(size, Difficulty::Hard);
        let nation = join(&mut game, "nation", PlayerType::Nation);
        let attacker = join(&mut game, "attacker", PlayerType::Human);
        for x in 0..size {
            for y in 0..size {
                let owner = if x < 5 && y < 5 { attacker } else { nation };
                game.conquer(owner, game.map.ref_xy(x, y));
            }
        }
        let silo_tile = game.map.ref_xy(20, 20);
        game.build_unit(nation, MISSILE_SILO, silo_tile);
        game.player_by_small_id_mut(nation).unwrap().gold = 1_000_000_000;
        let mirv_id = game.build_unit(attacker, MIRV, game.map.ref_xy(0, 0));
        aim(&mut game, attacker, mirv_id, silo_tile);
        let mut random = PseudoRandom::new(seed);
        let mut emoji_state = NationEmojiState::default();
        if !consider_mirv(&mut game, &mut random, nation, &mut emoji_state) {
            continue;
        }
        let mut runner = Runner::new();
        runner.step(&mut game);
        runner.step(&mut game);
        assert_eq!(game.unit_count(nation, MIRV), 1);
        return;
    }
    panic!("consider_mirv never launched a retaliatory MIRV across 50 seeds");
}

#[test]
fn maybe_send_nuke_is_noop_without_a_missile_silo() {
    let mut game = plains_game(4, 4);
    let attacker = join(&mut game, "attacker", PlayerType::Nation);
    join(&mut game, "target", PlayerType::Human);
    let p = game.player_by_small_id_mut(attacker).unwrap();
    p.gold = 10_000_000;
    p.tiles_owned = 1;
    let mut random = PseudoRandom::new(1);
    let mut nuke_state = NationNukeState::default();
    let mut emoji_state = NationEmojiState::default();
    maybe_send_nuke(&mut game, &mut random, attacker, false, &mut nuke_state, &mut emoji_state);
    assert!(nuke_state.recently_sent_nukes.is_empty());
    assert_eq!(game.gold_of(attacker), 10_000_000);
}

#[test]
fn maybe_send_nuke_is_noop_when_missile_silo_is_disabled() {
    let mut game = sized_game(20, Difficulty::Hard);
    game.wire.disabled_units = vec![MISSILE_SILO];
    let attacker = join(&mut game, "attacker", PlayerType::Nation);
    join(&mut game, "target", PlayerType::Human);
    game.build_unit(attacker, MISSILE_SILO, game.map.ref_xy(0, 0));
    let p = game.player_by_small_id_mut(attacker).unwrap();
    p.gold = 10_000_000;
    p.tiles_owned = 1;
    let mut random = PseudoRandom::new(1);
    let mut nuke_state = NationNukeState::default();
    let mut emoji_state = NationEmojiState::default();
    maybe_send_nuke(&mut game, &mut random, attacker, false, &mut nuke_state, &mut emoji_state);
    assert!(nuke_state.recently_sent_nukes.is_empty());
}

#[test]
fn is_richest_nation_true_only_when_no_nation_has_more_gold() {
    let mut game = sized_game(10, Difficulty::Medium);
    let me = join(&mut game, "me", PlayerType::Nation);
    let richer = join(&mut game, "richer", PlayerType::Nation);
    let human = join(&mut game, "human", PlayerType::Human);
    game.player_by_small_id_mut(me).unwrap().gold = 1_000;
    game.player_by_small_id_mut(richer).unwrap().gold = 2_000;
    game.player_by_small_id_mut(human).unwrap().gold = 1_000_000;
    assert!(!is_richest_nation(&game, me));
    game.player_by_small_id_mut(richer).unwrap().gold = 500;
    assert!(is_richest_nation(&game, me));
}

#[test]
fn find_high_density_target_ignores_bots_friendlies_and_low_structure_counts() {
    let mut game = sized_game(30, Difficulty::Impossible);
    let me = join(&mut game, "me", PlayerType::Nation);
    let bot = join(&mut game, "bot", PlayerType::Bot);
    let sparse = join(&mut game, "sparse", PlayerType::Human);
    let dense = join(&mut game, "dense", PlayerType::Human);
    for (sid, count) in [(bot, 50), (sparse, 50), (dense, 4)] {
        for i in 0..count {
            game.conquer(sid, i);
        }
    }
    for i in 0..10 {
        game.build_unit(bot, CITY, i);
    }
    game.build_unit(sparse, CITY, 0);
    for i in 0..6 {
        game.build_unit(dense, DEFENSE_POST, 30 + i % 4);
    }
    assert_eq!(find_high_density_target(&game, me), Some(dense));
}

#[test]
fn get_perceived_nuke_cost_uses_actual_cost_with_two_players_left() {
    let mut game = sized_game(10, Difficulty::Medium);
    let me = join(&mut game, "me", PlayerType::Nation);
    join(&mut game, "other", PlayerType::Human);
    let nuke_state =
        NationNukeState { atom_bomb_perceived_cost: 999_999_999, ..Default::default() };
    let cost = get_perceived_nuke_cost(&game, me, &nuke_state, ATOM_BOMB);
    assert_eq!(cost, game.structure_cost(me, ATOM_BOMB));
}

#[test]
fn get_perceived_nuke_cost_uses_escalated_value_with_more_players_and_low_gold() {
    let mut game = sized_game(10, Difficulty::Medium);
    let me = join(&mut game, "me", PlayerType::Nation);
    join(&mut game, "p2", PlayerType::Human);
    join(&mut game, "p3", PlayerType::Human);
    game.player_by_small_id_mut(me).unwrap().gold = 0;
    let nuke_state =
        NationNukeState { atom_bomb_perceived_cost: 999_999_999, ..Default::default() };
    let cost = get_perceived_nuke_cost(&game, me, &nuke_state, ATOM_BOMB);
    assert_eq!(cost, 999_999_999);
}

#[test]
fn send_nuke_escalates_perceived_cost_and_records_the_event() {
    let mut game = sized_game(10, Difficulty::Medium);
    let me = join(&mut game, "me", PlayerType::Nation);
    let target = join(&mut game, "target", PlayerType::Human);
    let atom_cost = game.structure_cost(me, ATOM_BOMB);
    let mut nuke_state =
        NationNukeState { atom_bomb_perceived_cost: atom_cost, ..Default::default() };
    let mut emoji_state = NationEmojiState::default();
    let mut random = PseudoRandom::new(7);
    let tile = game.map.ref_xy(3, 3);
    send_nuke(
        &mut game,
        &mut random,
        me,
        &mut nuke_state,
        &mut emoji_state,
        tile,
        ATOM_BOMB,
        target,
        0,
    );
    assert_eq!(nuke_state.atom_bombs_launched, 1);
    assert_eq!(nuke_state.atom_bomb_perceived_cost, atom_cost * 150 / 100);
    assert_eq!(nuke_state.recently_sent_nukes.len(), 1);
    assert_eq!(nuke_state.recently_sent_nukes[0].1, tile);
}

#[test]
fn remove_old_nuke_events_drops_only_entries_past_max_age() {
    let mut game = sized_game(10, Difficulty::Medium);
    let mut runner = Runner::new();
    for _ in 0..1_000 {
        runner.step(&mut game);
    }
    let mut nuke_state = NationNukeState {
        recently_sent_nukes: vec![(100, 0, ATOM_BOMB), (500, 1, ATOM_BOMB)],
        ..Default::default()
    };
    remove_old_nuke_events(&game, &mut nuke_state);
    assert_eq!(nuke_state.recently_sent_nukes.len(), 1);
    assert_eq!(nuke_state.recently_sent_nukes[0].0, 500);
}

#[test]
fn is_valid_nuke_tile_on_medium_only_allows_the_targets_own_tiles() {
    let mut game = sized_game(10, Difficulty::Medium);
    let me = join(&mut game, "me", PlayerType::Nation);
    let target = join(&mut game, "target", PlayerType::Human);
    let their_tile = game.map.ref_xy(1, 1);
    let unowned_tile = game.map.ref_xy(5, 5);
    game.conquer(target, their_tile);
    assert!(is_valid_nuke_tile(&game, me, their_tile, target));
    assert!(!is_valid_nuke_tile(&game, me, unowned_tile, target));
}

#[test]
fn is_valid_nuke_tile_on_hard_allows_terra_nullius_too() {
    let mut game = sized_game(10, Difficulty::Hard);
    let me = join(&mut game, "me", PlayerType::Nation);
    let target = join(&mut game, "target", PlayerType::Human);
    let unowned_tile = game.map.ref_xy(5, 5);
    assert!(is_valid_nuke_tile(&game, me, unowned_tile, target));
}

#[test]
fn nuke_tile_score_on_medium_penalizes_a_nearby_sam_to_negative() {
    let mut game = sized_game(20, Difficulty::Medium);
    let target = join(&mut game, "target", PlayerType::Human);
    let sam_tile = game.map.ref_xy(10, 10);
    let sam = game.build_unit(target, SAM_LAUNCHER, sam_tile);
    let structures = vec![game.unit(target, sam).unwrap()];
    let silo_tiles = vec![game.map.ref_xy(0, 0)];
    let value = nuke_tile_score(&game, sam_tile, &silo_tiles, &structures, ATOM_BOMB, &Vec::new());
    assert_eq!(value, -1000);
}

#[test]
fn nuke_tile_score_penalizes_overlap_with_a_recently_sent_nuke() {
    let mut game = sized_game(20, Difficulty::Medium);
    join(&mut game, "target", PlayerType::Human);
    let tile = game.map.ref_xy(10, 10);
    let silo_tiles = vec![tile];
    let recently_sent = vec![(0u32, tile, ATOM_BOMB)];
    let none = Vec::new();
    let with_recent =
        nuke_tile_score(&game, tile, &silo_tiles, &Vec::new(), ATOM_BOMB, &recently_sent);
    let without_recent = nuke_tile_score(&game, tile, &silo_tiles, &Vec::new(), ATOM_BOMB, &none);
    assert_eq!(without_recent - with_recent, 1_000_000 * 1000);
}

#[test]
fn bounding_box_tiles_returns_only_the_perimeter() {
    let game = sized_game(20, Difficulty::Medium);
    let center = game.map.ref_xy(10, 10);
    let perimeter = bounding_box_tiles(&game, center, 2);
    assert_eq!(perimeter.len(), 16);
    assert!(!perimeter.contains(&center));
    assert!(perimeter.contains(&game.map.ref_xy(8, 8)));
    assert!(perimeter.contains(&game.map.ref_xy(12, 12)));
}

fn priced(game: &Game, sid: u16) -> NationNukeState {
    NationNukeState {
        atom_bomb_perceived_cost: game.structure_cost(sid, ATOM_BOMB),
        hydrogen_bomb_perceived_cost: game.structure_cost(sid, HYDROGEN_BOMB),
        ..Default::default()
    }
}

#[test]
fn maybe_send_nuke_builds_and_launches_a_real_nuke_end_to_end() {
    let size = 70u32;
    let mut game = sized_game(size, Difficulty::Hard);
    let attacker = join(&mut game, "attacker", PlayerType::Nation);
    let target = join(&mut game, "target", PlayerType::Human);
    for t in 1..size * size {
        game.conquer(target, t);
    }
    game.conquer(attacker, 0);
    game.build_unit(attacker, MISSILE_SILO, 0);
    game.player_by_small_id_mut(attacker).unwrap().gold = 1_000_000;
    game.build_unit(target, CITY, game.map.ref_xy(35, 35));
    let mut random = PseudoRandom::new(42);
    let mut nuke_state = priced(&game, attacker);
    let mut emoji_state = NationEmojiState::default();
    maybe_send_nuke(&mut game, &mut random, attacker, false, &mut nuke_state, &mut emoji_state);
    assert_eq!(nuke_state.recently_sent_nukes.len(), 1);
    assert_eq!(nuke_state.atom_bombs_launched, 1);
    let mut runner = Runner::new();
    runner.step(&mut game);
    runner.step(&mut game);
    assert_eq!(game.unit_count(attacker, ATOM_BOMB), 1);
    assert!(game.gold_of(attacker) < 1_000_000);
}

#[test]
fn maybe_send_nuke_overwhelms_enemy_sam_with_atom_bomb_salvo_on_impossible() {
    let size = 100u32;
    let mut game = sized_game(size, Difficulty::Impossible);
    let nation = join(&mut game, "nation", PlayerType::Nation);
    let human = join(&mut game, "human", PlayerType::Human);
    for x in 10..40 {
        for y in 10..40 {
            game.conquer(nation, game.map.ref_xy(x, y));
        }
    }
    for x in 60..90 {
        for y in 60..90 {
            game.conquer(human, game.map.ref_xy(x, y));
        }
    }
    let sam_tile = game.map.ref_xy(75, 75);
    game.build_unit(human, SAM_LAUNCHER, sam_tile);
    for (x, y) in [(20u32, 20u32), (25, 25), (30, 30)] {
        game.build_unit(nation, MISSILE_SILO, game.map.ref_xy(x, y));
    }
    let p = game.player_by_small_id_mut(nation).unwrap();
    p.gold = 1_000_000_000;
    p.troops = 100_000;
    game.player_by_small_id_mut(human).unwrap().troops = 100_000;
    let mut random = PseudoRandom::new(42);
    let mut nuke_state = priced(&game, nation);
    let mut emoji_state = NationEmojiState::default();
    maybe_send_nuke(&mut game, &mut random, nation, false, &mut nuke_state, &mut emoji_state);
    assert_eq!(nuke_state.atom_bombs_launched, 2);
    let mut runner = Runner::new();
    runner.step(&mut game);
    runner.step(&mut game);
    let bombs = game.units_of_type(nation, ATOM_BOMB);
    assert!(bombs.len() >= 2, "expected at least 2 atom bombs in flight, got {}", bombs.len());
    for bomb in bombs {
        assert_eq!(bomb.target_tile, Some(sam_tile));
    }
}

const WALL_X: u32 = 30;

fn wall(x: u32, _y: u32) -> Option<u8> {
    if x == WALL_X || x == WALL_X + 1 {
        Some(IMPASSABLE)
    } else {
        None
    }
}

fn wall_game(home_x: u32) -> Game {
    let mut game = Game::new(
        Config::new(Difficulty::Medium, GameMode::FreeForAll),
        terrain(60, 20, wall),
    );
    game.end_spawn_phase();
    game.add_player(Player { gold: 1_000_000_000, ..player("player", PlayerType::Bot) });
    let home = game.map.ref_xy(home_x, 10);
    game.conquer(1, home);
    game.build_unit(1, MISSILE_SILO, home);
    game
}

fn run_to_completion(nuke: &mut NukeExecution, game: &mut Game, max_ticks: u32) {
    for tick in 0..max_ticks {
        if !nuke.is_active() {
            break;
        }
        nuke.tick(game, tick);
    }
}

fn launched(game: &mut Game, target: TileRef, max_ticks: u32) -> NukeExecution {
    let mut nuke = NukeExecution::new(ATOM_BOMB, 1, target, None, None, 0, true);
    nuke.init(game, 0);
    run_to_completion(&mut nuke, game, max_ticks);
    nuke
}

#[test]
fn can_build_atom_bomb_returns_none_for_impassable_target() {
    let game = wall_game(10);
    let target = game.map.ref_xy(WALL_X, 10);
    assert!(can_build_nuke(&game, 1, ATOM_BOMB, target).is_none());
}

#[test]
fn can_build_mirv_returns_none_for_impassable_target() {
    let game = wall_game(10);
    let target = game.map.ref_xy(WALL_X, 10);
    assert!(can_build_nuke(&game, 1, MIRV, target).is_none());
}

#[test]
fn nuke_execution_deactivates_when_targeting_impassable_tile() {
    let mut game = wall_game(10);
    let target = game.map.ref_xy(WALL_X, 10);
    let nuke = launched(&mut game, target, 5);
    assert!(!nuke.is_active());
    assert_eq!(game.unit_count(1, ATOM_BOMB), 0);
}

#[test]
fn nuke_blast_does_not_set_fallout_on_impassable_tiles() {
    let mut game = wall_game(10);
    game.add_player(Player { gold: 1_000_000_000, ..player("other", PlayerType::Bot) });
    let target = game.map.ref_xy(WALL_X - 1, 10);
    game.conquer(2, target);
    let nuke = launched(&mut game, target, 60);
    assert!(!nuke.is_active(), "nuke should have detonated");
    for y in 5..=15 {
        let t = game.map.ref_xy(WALL_X, y);
        assert!(game.map.is_land(t));
        assert!(game.map.is_impassable(t));
        assert!(!game.map.has_fallout(t));
    }
}

#[test]
fn nuke_trajectory_blocked_by_impassable_terrain_aborts_launch() {
    let mut game = wall_game(5);
    let target = game.map.ref_xy(50, 10);
    assert!(!game.map.is_impassable(target));
    let nuke = launched(&mut game, target, 10);
    assert!(!nuke.is_active(), "should have been blocked");
    assert_eq!(game.unit_count(1, ATOM_BOMB), 0);
    assert!(can_build_nuke(&game, 1, ATOM_BOMB, target).is_none());
}

#[test]
fn nuke_can_launch_when_trajectory_does_not_cross_impassable_terrain() {
    let mut game = wall_game(5);
    let target = game.map.ref_xy(15, 10);
    assert!(!game.map.is_impassable(target));
    let nuke = launched(&mut game, target, 60);
    assert!(!nuke.is_active(), "should have detonated and deactivated normally");
}

#[test]
fn queue_water_conversion_skips_tiles_conquered_before_flush() {
    let mut game = plains_game(32, 32);
    game.wire.water_nukes = true;
    join(&mut game, "p1", PlayerType::Human);
    let target = game.map.ref_xy(10, 10);
    let free = game.map.ref_xy(11, 10);
    assert!(game.map.is_land(target));
    assert_eq!(game.map.owner_id(target), 0);
    game.queue_water_conversion(target);
    game.queue_water_conversion(free);
    game.conquer(1, target);
    assert_eq!(game.map.owner_id(target), 1);
    assert_eq!(game.take_water_conversions(), vec![free]);
    assert!(game.map.is_land(target), "owned tile must stay land");
    assert_eq!(game.map.owner_id(target), 1);
    assert!(!game.map.is_water(target));
    assert!(game.take_water_conversions().is_empty());
}

#[test]
fn without_water_nukes_nuke_applies_fallout_not_water() {
    let mut game = plains_game(64, 64);
    game.add_player(Player { gold: 1_000_000_000, ..player("p1", PlayerType::Human) });
    let home = game.map.ref_xy(1, 1);
    game.conquer(1, home);
    game.build_unit(1, MISSILE_SILO, home);
    let target = game.map.ref_xy(10, 10);
    assert!(can_build_nuke(&game, 1, ATOM_BOMB, target).is_some());
    game.add_execution(ExecEnum::Nuke(NukeExecution::new(
        ATOM_BOMB, 1, target, None, None, 0, true,
    )));
    let mut runner = Runner::new();
    for _ in 0..80 {
        runner.step(&mut game);
    }
    assert!(game.map.is_land(target), "default path keeps land");
    assert!(game.map.has_fallout(target), "default path paints fallout");
    assert!(game.drowning.is_empty());
}

fn attack_under_way(troops: i64) -> (Game, u16) {
    let mut game = plains_game(4, 4);
    let owner = game.add_player(Player {
        troops: 1_000,
        tiles_owned: 5,
        ..player("owner", PlayerType::Bot)
    });
    game.add_player(Player { tiles_owned: 5, ..player("target", PlayerType::Bot) });
    game.add_execution(ExecEnum::Attack(AttackExecution::new(
        owner,
        Some("target".to_string()),
        Some(troops * TROOP_SCALE),
    )));
    Runner::new().step(&mut game);
    (game, owner)
}

#[test]
fn nuke_reduces_troops_of_a_live_outgoing_attack_owned_by_the_impacted_player() {
    let (mut game, owner) = attack_under_way(300);
    assert_eq!(game.attacks[0].troops, 300 * TROOP_SCALE);
    game.apply_nuke_deaths_to_deployed_forces(owner, ATOM_BOMB, 100, 10_000_000);
    assert_eq!(game.attacks[0].troops, 285 * TROOP_SCALE);
}

#[test]
fn nuke_deaths_never_push_deployed_forces_below_zero() {
    let (mut game, owner) = attack_under_way(10);
    game.apply_nuke_deaths_to_deployed_forces(owner, ATOM_BOMB, 1, 10_000_000);
    assert_eq!(game.attacks[0].troops, 0);
}

#[test]
fn nuke_at_a_players_structure_revokes_the_nukers_pending_alliance_request() {
    let mut game = plains_game(4, 4);
    let nuker = join(&mut game, "nuker", PlayerType::Bot);
    let target = join(&mut game, "target", PlayerType::Bot);
    assert!(game.create_alliance_request(nuker, target, game.ticks()));
    assert!(game.has_pending_request(nuker, target));
    let dst = game.map.ref_xy(0, 0);
    game.build_unit(target, CITY, dst);
    game.maybe_break_alliances(nuker, dst, ATOM_BOMB);
    assert!(!game.has_pending_request(nuker, target));
    assert!(!game.is_allied_with(nuker, target));
    assert!(!game.is_allied_with(target, nuker));
}

#[test]
fn cannot_build_a_nuke_during_spawn_immunity_but_can_after_it_ends() {
    let mut game = plains_game(4, 4);
    game.spawn_immunity = true;
    let owner = join(&mut game, "owner", PlayerType::Human);
    let p = game.player_by_small_id_mut(owner).unwrap();
    p.gold = 10_000_000;
    p.tiles_owned = 1;
    let dst = game.map.ref_xy(0, 0);
    game.build_unit(owner, MISSILE_SILO, dst);
    assert!(can_build_nuke(&game, owner, ATOM_BOMB, dst).is_none());
    game.spawn_immunity = false;
    assert!(can_build_nuke(&game, owner, ATOM_BOMB, dst).is_some());
}
