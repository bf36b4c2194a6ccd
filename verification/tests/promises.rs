use execution::ai_attack::{collect_bordering_players_pub, nearby_player_small_ids};
use execution::attack::AttackExecution;
use execution::config::{Config, Difficulty, GameMode, TROOP_SCALE};
use execution::execution::Execution;
use execution::game::Game;
use execution::map::{GameMap, MapMeta};
use execution::mirv_ai::{MIRV_COOLDOWN_TICKS, consider_mirv};
use execution::nation::{NationExecution, NationRuntime};
use execution::nation_emoji::NationEmojiState;
use execution::nation_tick::{
    Due, due, handle_structures, launch_nukes, open_turn, wage_war, watches_ships,
};
use execution::ordered_map::OrderedMap;
use execution::ordered_tiles::OrderedTiles;
use execution::ordered_units::OrderedUnitSet;
use execution::prng::PseudoRandom;
use execution::shared_water::shared_water_components;
use execution::spawn_tiles::resolve_structure_spawn_tile;
use execution::state::{Player, PlayerInfo, PlayerType};
use execution::unit_type::UnitType;

const PLAINS: u8 = 0x80;
const SHORE: u8 = 0xc0;
const LAKE: u8 = 0x40;
const OCEAN: u8 = 0x60;

fn game_on(width: u32, height: u32, difficulty: Difficulty, f: fn(u32, u32) -> u8) -> Game {
    let mut bytes: Vec<u8> = Vec::new();
    for y in 0..height {
        for x in 0..width {
            bytes.push(f(x, y));
        }
    }
    let meta = MapMeta { width, height, num_land_tiles: width * height };
    let map = GameMap::from_terrain_bytes(&meta, &bytes).expect("a map");
    let mut game = Game::new(Config::new(difficulty, GameMode::FreeForAll), map);
    game.end_spawn_phase();
    game
}

fn plains(width: u32, height: u32) -> Game {
    game_on(width, height, Difficulty::Medium, |_, _| PLAINS)
}

fn join(game: &mut Game, id: &str, player_type: PlayerType, troops: i64) -> u16 {
    game.add_player(Player {
        id: id.to_string(),
        name: id.to_string(),
        client_id: id.to_string(),
        player_type,
        alive: true,
        troops,
        ..Default::default()
    })
}

fn settle_on(game: &mut Game, sid: u16, x0: u32, x1: u32) {
    for y in 0..game.map.height {
        for x in x0..x1 {
            let t = game.map.ref_xy(x, y);
            game.conquer(sid, t);
        }
    }
}

#[test]
fn a_map_keeps_the_order_of_its_keys_through_changes() {
    let mut map: OrderedMap<u32, char> = OrderedMap::new();
    map.set(7, 'a');
    map.set(3, 'b');
    map.set(9, 'c');
    map.set(3, 'd');
    assert_eq!(map.keys(), vec![7, 3, 9]);
    assert_eq!(map.get(&3), Some(&'d'));
    assert_eq!(map.remove(&7), Some('a'));
    assert!(!map.contains_key(&7));
    assert_eq!(map.get(&9), Some(&'c'));
    map.set(7, 'e');
    assert_eq!(map.iter(), vec![(3, &'d'), (9, &'c'), (7, &'e')]);
    assert_eq!(map.len(), 3);
}

#[test]
fn tiles_come_in_the_order_of_their_last_arrival() {
    let mut tiles = OrderedTiles::default();
    tiles.insert(4);
    tiles.clear();
    for t in [8, 2, 5, 8] {
        tiles.insert(t);
    }
    tiles.remove(8);
    tiles.insert(8);
    assert_eq!(tiles.iter(), vec![2, 5, 8]);
}

#[test]
fn units_that_leave_take_nothing_with_them() {
    let mut units = OrderedUnitSet::default();
    for id in [3, 1, 2] {
        units.insert(id);
    }
    let before = units.to_vec();
    assert!(units.insert(9));
    units.remove(9);
    assert_eq!(units.to_vec(), before);
    for id in units.to_vec() {
        units.remove(id);
    }
    assert!(units.is_empty());
}

#[test]
fn players_near_by_are_listed_by_id_and_at_the_border_by_troops() {
    let mut game = plains(6, 1);
    let a = join(&mut game, "a", PlayerType::Human, 10);
    let b = join(&mut game, "b", PlayerType::Human, 50);
    let c = join(&mut game, "c", PlayerType::Human, 20);
    game.conquer(a, 2);
    game.conquer(b, 3);
    game.conquer(c, 1);
    assert_eq!(nearby_player_small_ids(&game, a), vec![b, c]);
    assert_eq!(collect_bordering_players_pub(&game, a), vec![c, b]);
    game.players[1].troops = 20;
    assert_eq!(collect_bordering_players_pub(&game, a), vec![c, b]);
    game.players[1].troops = 19;
    assert_eq!(collect_bordering_players_pub(&game, a), vec![b, c]);
}

#[test]
fn a_city_goes_to_the_nearest_free_tile() {
    let mut game = plains(40, 40);
    let a = join(&mut game, "a", PlayerType::Human, 10);
    settle_on(&mut game, a, 0, 40);
    let wanted = game.map.ref_xy(20, 20);
    assert_eq!(resolve_structure_spawn_tile(&game, a, UnitType::City, wanted), Some(wanted));
    let city = game.map.ref_xy(22, 20);
    game.build_unit(a, UnitType::City, city);
    let site = resolve_structure_spawn_tile(&game, a, UnitType::City, wanted).expect("a site");
    assert_eq!(site, game.map.ref_xy(7, 20));
    let near = game.map.euclidean_dist_squared(site, wanted);
    for t in 0..1600 {
        let close = game.map.euclidean_dist_squared(t, wanted);
        if close < near {
            assert!(game.map.euclidean_dist_squared(t, city) < 225);
        }
    }
    game.build_unit(a, UnitType::City, wanted);
    assert_eq!(resolve_structure_spawn_tile(&game, a, UnitType::City, wanted), None);
    assert_eq!(resolve_structure_spawn_tile(&game, a, UnitType::Warship, wanted), None);
}

#[test]
fn a_city_stays_on_the_land_that_it_was_wanted_on() {
    let mut game = plains(40, 5);
    let a = join(&mut game, "a", PlayerType::Human, 10);
    settle_on(&mut game, a, 0, 10);
    settle_on(&mut game, a, 11, 40);
    let wanted = game.map.ref_xy(9, 2);
    let city = game.map.ref_xy(5, 2);
    game.build_unit(a, UnitType::City, city);
    assert_eq!(resolve_structure_spawn_tile(&game, a, UnitType::City, wanted), None);
    let bridge = game.map.ref_xy(10, 4);
    game.conquer(a, bridge);
    let site = resolve_structure_spawn_tile(&game, a, UnitType::City, wanted).expect("a site");
    assert!(game.map.x(site) > 10);
}

#[test]
fn a_port_goes_to_the_shore_with_the_fewest_steps() {
    let mut game = game_on(40, 40, Difficulty::Medium, |x, _| {
        if x < 29 {
            PLAINS
        } else if x == 29 {
            SHORE
        } else {
            OCEAN
        }
    });
    let a = join(&mut game, "a", PlayerType::Human, 10);
    settle_on(&mut game, a, 0, 30);
    let wanted = game.map.ref_xy(25, 20);
    let shore = game.map.ref_xy(29, 20);
    assert_eq!(resolve_structure_spawn_tile(&game, a, UnitType::Port, wanted), Some(shore));
    let inland = game.map.ref_xy(10, 20);
    assert_eq!(resolve_structure_spawn_tile(&game, a, UnitType::Port, inland), None);
}

#[test]
fn a_lake_is_shared_until_its_shores_stop_trading() {
    let mut game = game_on(5, 3, Difficulty::Medium, |x, _| {
        if x == 2 {
            LAKE
        } else if x == 1 || x == 3 {
            SHORE
        } else {
            PLAINS
        }
    });
    let a = join(&mut game, "a", PlayerType::Human, 10);
    let b = join(&mut game, "b", PlayerType::Human, 10);
    settle_on(&mut game, a, 0, 2);
    assert_eq!(shared_water_components(&mut game, a), None);
    game.tick = 30;
    settle_on(&mut game, b, 3, 5);
    let lake = game.map.tiles[2].component.expect("a lake");
    assert_eq!(shared_water_components(&mut game, a), Some(vec![lake]));
    assert_eq!(shared_water_components(&mut game, b), Some(vec![lake]));
    game.add_embargo(b, a, false, 30);
    game.tick = 59;
    assert_eq!(shared_water_components(&mut game, a), Some(vec![lake]));
    game.tick = 60;
    assert_eq!(shared_water_components(&mut game, a), None);
}

#[test]
fn the_ocean_is_shared_by_whoever_lies_on_it() {
    let mut game = game_on(5, 1, Difficulty::Medium, |x, _| {
        if x == 0 {
            OCEAN
        } else if x == 1 {
            SHORE
        } else {
            PLAINS
        }
    });
    let a = join(&mut game, "a", PlayerType::Human, 10);
    let bot = join(&mut game, "bot", PlayerType::Bot, 10);
    game.conquer(a, 1);
    game.conquer(bot, 2);
    assert_eq!(shared_water_components(&mut game, a), Some(vec![u32::MAX]));
    assert_eq!(shared_water_components(&mut game, bot), None);
}

#[test]
fn mirvs_at_one_player_are_apart() {
    let mut game = plains(20, 20);
    let nation = join(&mut game, "nation", PlayerType::Nation, 10);
    let human = join(&mut game, "human", PlayerType::Human, 10);
    settle_on(&mut game, human, 0, 19);
    settle_on(&mut game, nation, 19, 20);
    let home = game.map.ref_xy(19, 10);
    game.build_unit(nation, UnitType::MissileSilo, home);
    game.players[nation as usize - 1].gold = 1_000_000_000;
    let mut random = PseudoRandom::new(5);
    let mut emoji = NationEmojiState::default();
    for tick in 1..1000 {
        game.tick = tick;
        let sent = game.mirv_hits.len();
        let chose = consider_mirv(&mut game, &mut random, nation, &mut emoji);
        assert_eq!(game.mirv_hits.len() > sent, chose);
    }
    assert!(game.mirv_hits.len() >= 3);
    assert_eq!(game.pending.len(), game.mirv_hits.len());
    for w in game.mirv_hits.windows(2) {
        assert_eq!(w[0].target, human);
        assert!(w[1].tick as i64 - w[0].tick as i64 >= MIRV_COOLDOWN_TICKS);
    }
}

#[test]
fn a_nation_watches_its_ships_where_it_has_a_port() {
    let mut game = plains(10, 10);
    let nation = join(&mut game, "nation", PlayerType::Nation, 10);
    let port = game.map.ref_xy(5, 5);
    assert!(!watches_ships(&game, nation));
    game.conquer(nation, port);
    assert!(!watches_ships(&game, nation));
    game.build_unit(nation, UnitType::Port, port);
    assert!(watches_ships(&game, nation));
    assert!(!watches_ships(&game, 9));
    game.wire.difficulty = Difficulty::Easy;
    assert!(!watches_ships(&game, nation));
    game.wire.difficulty = Difficulty::Hard;
    game.wire.disabled_units.push(UnitType::Warship);
    assert!(!watches_ships(&game, nation));
}

#[test]
fn a_nation_has_a_turn_and_structures_in_between() {
    let mut game = plains(4, 4);
    for (tick, expected) in [
        (120, Due::Turn),
        (121, Due::Nothing),
        (140, Due::Structures),
        (160, Due::Structures),
        (179, Due::Nothing),
        (180, Due::Turn),
    ] {
        game.tick = tick;
        assert_eq!(due(&game, 60, 0), expected);
    }
    game.tick = 65;
    assert_eq!(due(&game, 60, 5), Due::Turn);
}

fn ruled() -> (Game, NationExecution) {
    let mut game = plains(30, 30);
    let human = join(&mut game, "human", PlayerType::Human, 500);
    settle_on(&mut game, human, 15, 30);
    let info = PlayerInfo {
        name: "gaul".to_string(),
        player_type: PlayerType::Nation,
        client_id: None,
        id: "gaul".to_string(),
        team: None,
    };
    let mut nation = NationExecution::new(
        "game".to_string(),
        NationRuntime { spawn_cell: None, player_info: info },
    );
    nation.init(&mut game, 0);
    settle_on(&mut game, 2, 0, 10);
    game.players[1].troops = 10_000;
    game.players[1].gold = 5_000_000;
    (game, nation)
}

#[test]
fn a_tick_is_its_parts() {
    let (mut game, mut nation) = ruled();
    let (mut other_game, mut other) = ruled();
    assert_eq!(other.settle(&mut other_game, 0), None);
    nation.rule_tick(&mut game, 0);
    assert!(other.behaviors_initialized);
    for tick in 1..400 {
        game.tick = tick;
        other_game.tick = tick;
        nation.rule_tick(&mut game, tick);
        let sid = other.settle(&mut other_game, tick).expect("a ruler");
        match due(&other_game, other.attack_rate, other.attack_tick) {
            Due::Nothing => {}
            Due::Structures => {
                handle_structures(&mut other_game, &mut other.random, sid, &mut other.behavior);
            }
            Due::Turn => {
                let difficulty = other_game.wire.difficulty;
                open_turn(&mut other_game, &mut other.random, sid, &mut other.behavior);
                wage_war(
                    &mut other_game,
                    &mut other.random,
                    sid,
                    &mut other.behavior,
                    other.trigger_ratio,
                    other.reserve_ratio,
                    other.expand_ratio,
                    &mut other.bot_attack_troops_sent,
                    difficulty,
                );
                launch_nukes(&mut other_game, &mut other.random, sid, &mut other.behavior);
            }
        }
        assert_eq!(nation.random.state, other.random.state);
        assert_eq!(game.pending.len(), other_game.pending.len());
    }
    assert!(!game.pending.is_empty());
}

#[test]
fn an_attack_may_ask_for_less_than_no_troops() {
    let mut game = plains(6, 6);
    let a = join(&mut game, "a", PlayerType::Human, 100);
    game.conquer(a, 0);
    let mut attack = AttackExecution::new(a, None, Some(40 * TROOP_SCALE));
    attack.init(&mut game, 0);
    assert_eq!(game.troops_of(a), 60);
    let mut less = AttackExecution::new(a, None, Some(-5 * TROOP_SCALE));
    less.init(&mut game, 1);
    assert_eq!(game.troops_of(a), 60);
    assert_eq!(game.attacks.len(), 1);
    assert_eq!(game.attacks[0].troops, 35 * TROOP_SCALE);
    assert_eq!(game.players[0].attacks_sent, 35 * TROOP_SCALE);
}
