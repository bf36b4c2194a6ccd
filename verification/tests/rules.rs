use execution::attack::AttackExecution;
use execution::attack_fight::FightStep;
use execution::city_execution::CityExecution;
use execution::config::{Config, Difficulty, GameMode, TROOP_SCALE};
use execution::donate_gold::calculate_relation_update;
use execution::exec_enum::ExecEnum;
use execution::execution::Execution;
use execution::game::Game;
use execution::lists::{distinct_ids, sort_entries, sort_ids, sorted_payloads};
use execution::map::{GameMap, MapMeta};
use execution::nation_tick::{NationBehaviorState, initialize_nation_behaviors, tick_nation_post_spawn};
use execution::nuke_ai::bounding_box_tiles;
use execution::nuke_execution::{NukeExecution, can_build_nuke};
use execution::ordered_map::OrderedMap;
use execution::parabola::find_path_tiles;
use execution::player::PlayerExecution;
use execution::player_clusters::maybe_remove_clusters;
use execution::port_execution::PortExecution;
use execution::prng::PseudoRandom;
use execution::recompute_rail_cluster::RecomputeRailClusterExecution;
use execution::retreat::RetreatExecution;
use execution::spawn_tiles::valid_structure_spawn_tiles;
use execution::state::{Player, PlayerType};
use execution::territory::owned_tiles;
use execution::unit_type::{ATOM_BOMB, CITY, MISSILE_SILO, PORT};
use execution::util::simple_hash;

#[allow(dead_code)]
const IMPASSABLE: u8 = 0x9f;

/// A map of plains with the tiles that `f` changes.
#[allow(dead_code)]
fn terrain(width: u32, height: u32, f: fn(u32, u32) -> Option<u8>) -> GameMap {
    let mut bytes: Vec<u8> = Vec::new();
    for y in 0..height {
        for x in 0..width {
            bytes.push(f(x, y).unwrap_or(0x80));
        }
    }
    GameMap::from_terrain_bytes(&MapMeta { width, height, num_land_tiles: width * height }, &bytes)
        .expect("a map")
}

#[allow(dead_code)]
fn no_change(_x: u32, _y: u32) -> Option<u8> {
    None
}

/// A game on plains, past the spawn phase.
#[allow(dead_code)]
fn plains_game(width: u32, height: u32) -> Game {
    let mut game = Game::new(
        Config::new(Difficulty::Medium, GameMode::FreeForAll),
        terrain(width, height, no_change),
    );
    game.end_spawn_phase();
    game
}

#[allow(dead_code)]
fn player(id: &str, player_type: PlayerType) -> Player {
    Player {
        id: id.to_string(),
        name: id.to_string(),
        client_id: id.to_string(),
        player_type,
        id_prng: execution::prng::PseudoRandom::new(id.bytes().map(|b| b as i32).sum()),
        ..Default::default()
    }
}

#[allow(dead_code)]
fn join(game: &mut Game, id: &str, player_type: PlayerType) -> u16 {
    game.add_player(player(id, player_type))
}

/// Gives a game's executions their ticks.
#[allow(dead_code)]
struct Runner {
    active: Vec<ExecEnum>,
    /// How many tiles an attack takes in a tick.
    pace: u32,
}

#[allow(dead_code)]
impl Runner {
    fn new() -> Runner {
        Runner { active: Vec::new(), pace: 10 }
    }

    fn step(&mut self, game: &mut Game) {
        let tick = game.tick;
        for e in self.active.iter_mut() {
            if (!game.in_spawn_phase() || e.active_during_spawn()) && e.is_active() {
                e.tick(game, tick);
                if let Some(attack) = e.as_attack() {
                    if attack.fighting {
                        fight(attack, game, tick, self.pace);
                    }
                }
            }
        }
        let queued = std::mem::take(&mut game.pending);
        for mut e in queued {
            if !game.in_spawn_phase() || e.active_during_spawn() {
                e.init(game, tick);
                self.active.push(e);
            } else {
                game.pending.push(e);
            }
        }
        self.active.retain(|e| e.is_active());
        game.tick += 1;
    }
}

/// Lets an attack take up to so many tiles at half a troop each.
#[allow(dead_code)]
fn fight(attack: &mut AttackExecution, game: &mut Game, tick: u32, pace: u32) {
    let width = attack.front_width();
    assert!(width >= attack.border_tile_count() as u128);
    for _ in 0..pace {
        match attack.next_tile(game, tick) {
            FightStep::Over => return,
            FightStep::Take(tile) => attack.conquer_tile(game, tile, TROOP_SCALE / 2, 0),
        }
    }
    attack.rest();
}

#[test]
fn sorting_keeps_entries_of_one_key_in_order() {
    let entries = vec![(3i64, 'a'), (1, 'b'), (3, 'c'), (2, 'd'), (1, 'e')];
    let sorted = sort_entries(&entries);
    assert_eq!(sorted, vec![(1, 'b'), (1, 'e'), (2, 'd'), (3, 'a'), (3, 'c')]);
    assert_eq!(sorted_payloads(&entries), vec!['b', 'e', 'd', 'a', 'c']);
}

#[test]
fn distinct_ids_keep_their_first_place() {
    assert_eq!(distinct_ids(&vec![4, 2, 4, 9, 2]), vec![4, 2, 9]);
    assert_eq!(sort_ids(&vec![4, 2, 9]), vec![2, 4, 9]);
}

#[test]
fn an_ordered_map_gives_back_what_was_set() {
    let mut map: OrderedMap<u32, char> = OrderedMap::new();
    map.set(5, 'a');
    map.set(7, 'b');
    map.set(5, 'c');
    assert_eq!(map.get(&5), Some(&'c'));
    assert_eq!(map.get(&6), None);
    assert_eq!(map.keys(), vec![5, 7]);
    assert_eq!(map.remove(&5), Some('c'));
    map.set(5, 'd');
    assert_eq!(map.keys(), vec![7, 5]);
    assert_eq!(map.len(), 2);
}

#[test]
fn missiles_fly_from_their_silo_to_their_target() {
    let game = plains_game(50, 50);
    let (from, to) = (game.map.ref_xy(3, 40), game.map.ref_xy(45, 8));
    for up in [true, false] {
        let path = find_path_tiles(&game.map, from, to, 6, true, up);
        assert_eq!(path[0], from);
        assert_eq!(*path.last().unwrap(), to);
        assert!(path.iter().all(|&t| t < 2500));
    }
}

#[test]
fn shuffling_keeps_the_members() {
    let mut random = PseudoRandom::new(11);
    let cards: Vec<u32> = (0..40).collect();
    let mut mixed = random.shuffle_array(&cards);
    assert_ne!(mixed, cards);
    mixed.sort();
    assert_eq!(mixed, cards);
}

#[test]
fn draws_stay_in_their_range_and_repeat_with_their_seed() {
    let mut a = PseudoRandom::new(99);
    let mut b = PseudoRandom::new(99);
    for _ in 0..1000 {
        let n = a.next_int(-3, 4);
        assert!((-3..4).contains(&n));
        assert_eq!(n, b.next_int(-3, 4));
    }
    assert_eq!(a.next_int(8, 8), 8);
    assert_eq!(a.next_id().len(), 8);
}

#[test]
fn hashes_do_not_depend_on_the_machine() {
    assert_eq!(simple_hash(&"".to_string()), 0);
    assert_eq!(simple_hash(&"a".to_string()), 97);
    assert_eq!(simple_hash(&"ab".to_string()), 97 * 31 + 98);
}

#[test]
fn a_player_without_land_dies_with_its_alliances() {
    let mut game = plains_game(6, 6);
    let a = game.add_player(Player { gold: 50, ..player("a", PlayerType::Human) });
    let b = join(&mut game, "b", PlayerType::Human);
    game.player_by_small_id_mut(a).unwrap().spawn_tile = Some(0);
    assert!(game.create_alliance_request(a, b, 0));
    assert!(game.create_alliance_request(b, a, 0));
    let mut execution = PlayerExecution::new(a);
    execution.init(&mut game, 0);
    execution.tick(&mut game, 1);
    assert!(!execution.is_active());
    assert!(!game.is_player_alive(a));
    assert_eq!(game.gold_of(a), 0);
    assert!(!game.is_allied_with(a, b));
}

#[test]
fn an_encircled_cluster_falls_to_the_one_around_it() {
    let mut game = plains_game(12, 12);
    let a = join(&mut game, "a", PlayerType::Human);
    let b = join(&mut game, "b", PlayerType::Human);
    for t in 0..144 {
        game.conquer(b, t);
    }
    for x in 5..7 {
        for y in 5..7 {
            game.conquer(a, game.map.ref_xy(x, y));
        }
    }
    game.tick = 50;
    let p = game.player_by_small_id_mut(a).unwrap();
    p.last_cluster_calc = 1;
    p.last_tile_change = 49;
    p.gold = 30;
    maybe_remove_clusters(&mut game, a, 50);
    assert_eq!(game.tiles_of(a), 0);
    assert_eq!(game.tiles_of(b), 144);
    assert_eq!(game.gold_of(b), 30);
    assert!(game.border_tiles_for(b).is_empty());
}

#[test]
fn building_sites_are_own_land_with_room() {
    let mut game = plains_game(40, 40);
    let a = join(&mut game, "a", PlayerType::Human);
    for x in 0..40 {
        for y in 0..20 {
            game.conquer(a, game.map.ref_xy(x, y));
        }
    }
    let wanted = game.map.ref_xy(20, 10);
    let sites = valid_structure_spawn_tiles(&game, a, wanted);
    assert!(sites.contains(&wanted));
    assert!(sites.iter().all(|&t| game.map.owner_id(t) == a));
    game.build_unit(a, CITY, wanted);
    assert!(!valid_structure_spawn_tiles(&game, a, wanted).contains(&wanted));
}

#[test]
fn a_retreat_is_carried_out_after_its_delay() {
    let mut game = plains_game(6, 6);
    game.add_player(Player { troops: 100, ..player("a", PlayerType::Bot) });
    game.conquer(1, 0);
    let mut attack = AttackExecution::new(1, None, Some(40 * TROOP_SCALE));
    attack.init(&mut game, 0);
    let mut retreat = RetreatExecution::new(1, attack.attack_id().to_string());
    retreat.init(&mut game, 10);
    retreat.tick(&mut game, 11);
    assert!(game.attacks[0].retreating);
    retreat.tick(&mut game, 29);
    assert!(!game.attacks[0].retreated);
    assert!(retreat.is_active());
    retreat.tick(&mut game, 30);
    assert!(game.attacks[0].retreated);
    assert!(!retreat.is_active());
    attack.tick(&mut game, 31);
    assert_eq!(game.troops_of(1), 100);
}

#[test]
fn friends_are_not_attacked() {
    let mut game = plains_game(6, 6);
    for id in ["a", "b"] {
        game.add_player(Player {
            troops: 100,
            team: Some("Red".to_string()),
            ..player(id, PlayerType::Human)
        });
    }
    let mut attack = AttackExecution::new(1, Some("b".to_string()), Some(TROOP_SCALE));
    attack.init(&mut game, 0);
    assert!(!attack.is_active());
    assert!(game.attacks.is_empty());
    assert!(game.embargoes.is_empty());
    assert_eq!(game.troops_of(1), 100);
}

#[test]
fn an_attack_costs_the_attacker_its_targets_trade_and_goodwill() {
    let mut game = plains_game(6, 6);
    for id in ["a", "b"] {
        game.add_player(Player { troops: 100, ..player(id, PlayerType::Human) });
    }
    assert!(game.create_alliance_request(2, 1, 0));
    let mut attack = AttackExecution::new(1, Some("b".to_string()), None);
    attack.init(&mut game, 5);
    assert!(attack.is_active());
    assert_eq!(attack.troops(), 20 * TROOP_SCALE);
    assert_eq!(game.troops_of(1), 80);
    assert!(game.has_embargo_against(2, 1));
    assert!(!game.has_pending_request(2, 1));
    assert_eq!(game.relations[0].value, -7_000);
}

#[test]
fn nukes_spare_team_mates() {
    let mut game = plains_game(40, 40);
    for id in ["a", "b", "c"] {
        game.add_player(Player {
            gold: 10_000_000,
            team: Some(if id == "c" { "Blue" } else { "Red" }.to_string()),
            ..player(id, PlayerType::Human)
        });
    }
    game.conquer(1, 0);
    game.conquer(2, 30);
    game.conquer(3, 35);
    game.build_unit(1, MISSILE_SILO, 0);
    assert!(can_build_nuke(&game, 1, ATOM_BOMB, 30).is_none());
    assert!(can_build_nuke(&game, 1, ATOM_BOMB, 35).is_some());
    game.winner = Some("Red".to_string());
    assert!(can_build_nuke(&game, 1, ATOM_BOMB, 30).is_some());
}

#[test]
fn ships_only_go_to_trade_partners() {
    let mut bytes = vec![0u8; 400];
    bytes[5] = 0x80;
    bytes[200] = 0x80;
    let map = GameMap::from_terrain_bytes(
        &MapMeta { width: 400, height: 1, num_land_tiles: 2 },
        &bytes,
    )
    .unwrap();
    let mut game = Game::new(Config::new(Difficulty::Medium, GameMode::FreeForAll), map);
    game.end_spawn_phase();
    let a = join(&mut game, "a", PlayerType::Human);
    let b = join(&mut game, "b", PlayerType::Human);
    game.conquer(a, 5);
    game.conquer(b, 200);
    let own = game.build_unit(a, PORT, 5);
    game.build_unit(b, PORT, 200);
    let port = PortExecution::new(a, own);
    assert!(!port.trading_ports(&game, 5).is_empty());
    game.add_embargo(b, a, false, 0);
    assert!(port.trading_ports(&game, 5).is_empty());
}

#[test]
fn gratitude_grows_with_gold_and_fades_with_time() {
    let game = plains_game(4, 4);
    assert_eq!(calculate_relation_update(&game, 4_999, 0), 0);
    assert_eq!(calculate_relation_update(&game, 5_000, 0), 5);
    assert_eq!(calculate_relation_update(&game, 1_000_000, 0), 100);
    assert_eq!(calculate_relation_update(&game, 10_000, 3_300), 5);
}

#[test]
fn owned_tiles_are_listed_row_by_row() {
    let mut game = plains_game(5, 5);
    join(&mut game, "a", PlayerType::Human);
    for t in [17, 3, 8] {
        game.conquer(1, t);
    }
    assert_eq!(owned_tiles(&game.map, 1), vec![3, 8, 17]);
}

#[test]
fn a_city_opens_a_station_next_to_a_factory_only() {
    let mut game = plains_game(30, 30);
    join(&mut game, "a", PlayerType::Human);
    game.conquer(1, 0);
    let city = game.build_unit(1, CITY, 0);
    let mut execution = CityExecution::new(1, city);
    execution.init(&mut game, 0);
    execution.tick(&mut game, 1);
    assert!(!game.unit(1, city).unwrap().has_train_station);
}

#[test]
fn nations_resent_embargoes_and_forget_them() {
    let mut game = plains_game(30, 30);
    let nation = game.add_player(Player {
        alive: true,
        troops: 10,
        ..player("nation", PlayerType::Nation)
    });
    let human = join(&mut game, "human", PlayerType::Human);
    game.conquer(nation, 0);
    game.conquer(human, 899);
    let mut random = PseudoRandom::new(3);
    let mut behavior = NationBehaviorState::default();
    initialize_nation_behaviors(&game, &mut random, nation, &mut behavior);
    assert_eq!(behavior.nuke.atom_bomb_perceived_cost, game.structure_cost(nation, ATOM_BOMB));
    let mut sent = 0;
    game.add_embargo(human, nation, false, 0);
    for tick in [60, 61, 120] {
        game.tick = tick;
        tick_nation_post_spawn(
            &mut game, &mut random, nation, &mut behavior, 60, 0, 50, 30, 10, &mut sent,
        );
    }
    let value = |game: &Game| {
        game.relations.iter().find(|r| r.from == nation && r.to == human).map(|r| r.value)
    };
    assert_eq!(value(&game), Some(-2_000));
    game.stop_embargo(human, nation);
    game.tick = 180;
    tick_nation_post_spawn(
        &mut game, &mut random, nation, &mut behavior, 60, 0, 50, 30, 10, &mut sent,
    );
    assert_eq!(value(&game), Some(0));
}

#[test]
fn rail_clusters_are_asked_for_with_every_tick() {
    let mut game = plains_game(4, 4);
    let mut rails = RecomputeRailClusterExecution::new();
    rails.tick(&mut game, 1);
    assert!(rails.is_active());
    assert!(game.take_rails_due());
    assert!(!game.take_rails_due());
}

#[test]
fn a_frame_holds_every_tile_of_its_sides_once() {
    let game = plains_game(20, 20);
    let center = game.map.ref_xy(10, 10);
    assert_eq!(bounding_box_tiles(&game, center, 0), vec![center]);
    assert_eq!(bounding_box_tiles(&game, center, 3).len(), 24);
    assert!(bounding_box_tiles(&game, center, i32::MAX).is_empty());
    assert_eq!(bounding_box_tiles(&game, 0, 2).len(), 5);
}

#[test]
fn what_has_begun_does_not_begin_again() {
    let mut game = plains_game(6, 6);
    game.add_player(Player { troops: 100, ..player("a", PlayerType::Human) });
    game.conquer(1, 0);
    let mut attack = AttackExecution::new(1, None, Some(40 * TROOP_SCALE));
    attack.init(&mut game, 0);
    attack.init(&mut game, 1);
    assert_eq!(game.attacks.len(), 1);
    assert_eq!(game.troops_of(1), 60);
    assert!(attack.is_active());
}

#[test]
fn a_nuke_goes_off_at_the_end_of_its_path() {
    let mut game = plains_game(60, 60);
    game.add_player(Player { gold: 10_000_000, ..player("a", PlayerType::Human) });
    join(&mut game, "b", PlayerType::Human);
    game.conquer(1, 0);
    let target = game.map.ref_xy(55, 55);
    game.conquer(2, target);
    game.build_unit(1, MISSILE_SILO, 0);
    let mut nuke = NukeExecution::new(ATOM_BOMB, 1, target, None, None, 0, true);
    nuke.init(&mut game, 0);
    nuke.tick(&mut game, 1);
    assert!(nuke.is_active());
    assert_eq!(nuke.src, Some(0));
    let mut ticks = 1;
    while nuke.is_active() {
        ticks += 1;
        assert!(ticks < 100);
        nuke.tick(&mut game, ticks);
    }
    assert!(ticks > 10);
    assert_eq!(game.map.owner_id(target), 0);
    assert!(nuke.nuke_unit_id.is_none());
}
