use execution::attack::AttackExecution;
use execution::attack_fight::FightStep;
use execution::config::{Config, Difficulty, GameMode, TROOP_SCALE};
use execution::doomsday_clock_execution::{DoomsdayClockExecution, WARSHIP_MAX_HEALTH, doomsday_clock_drain};
use execution::exec_enum::ExecEnum;
use execution::execution::Execution;
use execution::game::Game;
use execution::map::{GameMap, MapMeta};
use execution::player::PlayerExecution;
use execution::state::{Player, PlayerType};
use execution::unit_type::WARSHIP;

#[allow(dead_code)]
const IMPASSABLE: u8 = 0x9f;

/// A map of plains with the tiles that `f` changes.
#[allow(dead_code)]
fn terrain(width: u32, height: u32, f: fn(u32, u32) -> Option<u8>) -> GameMap {
    let mut bytes: Vec<u8> = Vec::new();
    for y in 0..height {
        for x in 0..width {
            bytes.push(f(x, y).unwrap_or(0x80));
        }
    }
    GameMap::from_terrain_bytes(&MapMeta { width, height, num_land_tiles: width * height }, &bytes)
        .expect("a map")
}

#[allow(dead_code)]
fn no_change(_x: u32, _y: u32) -> Option<u8> {
    None
}

/// A game on plains, past the spawn phase.
#[allow(dead_code)]
fn plains_game(width: u32, height: u32) -> Game {
    let mut game = Game::new(
        Config::new(Difficulty::Medium, GameMode::FreeForAll),
        terrain(width, height, no_change),
    );
    game.end_spawn_phase();
    game
}

#[allow(dead_code)]
fn player(id: &str, player_type: PlayerType) -> Player {
    Player {
        id: id.to_string(),
        name: id.to_string(),
        client_id: id.to_string(),
        player_type,
        id_prng: execution::prng::PseudoRandom::new(id.bytes().map(|b| b as i32).sum()),
        ..Default::default()
    }
}

#[allow(dead_code)]
fn join(game: &mut Game, id: &str, player_type: PlayerType) -> u16 {
    game.add_player(player(id, player_type))
}

/// Gives a game's executions their ticks.
#[allow(dead_code)]
struct Runner {
    active: Vec<ExecEnum>,
    /// How many tiles an attack takes in a tick.
    pace: u32,
}

#[allow(dead_code)]
impl Runner {
    fn new() -> Runner {
        Runner { active: Vec::new(), pace: 10 }
    }

    fn step(&mut self, game: &mut Game) {
        let tick = game.tick;
        for e in self.active.iter_mut() {
            if (!game.in_spawn_phase() || e.active_during_spawn()) && e.is_active() {
                e.tick(game, tick);
                if let Some(attack) = e.as_attack() {
                    if attack.fighting {
                        fight(attack, game, tick, self.pace);
                    }
                }
            }
        }
        let queued = std::mem::take(&mut game.pending);
        for mut e in queued {
            if !game.in_spawn_phase() || e.active_during_spawn() {
                e.init(game, tick);
                self.active.push(e);
            } else {
                game.pending.push(e);
            }
        }
        self.active.retain(|e| e.is_active());
        game.tick += 1;
    }
}

/// Lets an attack take up to so many tiles at half a troop each.
#[allow(dead_code)]
fn fight(attack: &mut AttackExecution, game: &mut Game, tick: u32, pace: u32) {
    let width = attack.front_width();
    assert!(width >= attack.border_tile_count() as u128);
    for _ in 0..pace {
        match attack.next_tile(game, tick) {
            FightStep::Over => return,
            FightStep::Take(tile) => attack.conquer_tile(game, tile, TROOP_SCALE / 2, 0),
        }
    }
    attack.rest();
}

const BIG_TROOPS: i64 = 100_000;

/// From this tick on, each player is asked for a fifth of the land.
const WAVE_TICK: u32 = 7600;

struct Match {
    game: Game,
    runner: Runner,
    bar: i64,
    rises_at: u32,
}

impl Match {
    fn new(land: u32, mode: GameMode) -> Match {
        let mut game = plains_game(land, 1);
        game.wire.game_mode = mode;
        game.wire.doomsday.enabled = true;
        game.add_execution(ExecEnum::DoomsdayClock(DoomsdayClockExecution::new()));
        Match { game, runner: Runner::new(), bar: 2000, rises_at: WAVE_TICK - 600 }
    }

    fn add(&mut self, id: &str, player_type: PlayerType, team: Option<&str>) -> u16 {
        self.game.add_player(Player { team: team.map(|t| t.to_string()), ..player(id, player_type) })
    }

    fn set(&mut self, id: u16, tiles: i64, troops: i64) {
        let p = self.game.player_by_small_id_mut(id).unwrap();
        p.tiles_owned = tiles;
        p.troops = troops;
    }

    fn step(&mut self) {
        self.game.wire.doomsday_bar = if self.game.tick >= self.rises_at { self.bar } else { 0 };
        self.runner.step(&mut self.game);
    }

    fn advance_to(&mut self, tick: u32) {
        while self.game.ticks() <= tick {
            self.step();
        }
    }

    fn advance_until_flagged(&mut self, id: u16) -> u32 {
        loop {
            self.step();
            if self.game.in_doomsday_clock(id) {
                return self.game.ticks();
            }
        }
    }

    fn troops(&self, id: u16) -> i64 {
        self.game.troops_of(id)
    }

    fn doomed(&self, id: u16) -> bool {
        self.game.in_doomsday_clock(id)
    }
}

fn two_player_game(a_tiles: i64, b_tiles: i64) -> (Match, u16, u16) {
    let mut m = Match::new(1000, GameMode::FreeForAll);
    let a = m.add("a", PlayerType::Human, None);
    let b = m.add("b", PlayerType::Human, None);
    m.set(a, a_tiles, BIG_TROOPS);
    m.set(b, b_tiles, BIG_TROOPS);
    (m, a, b)
}

#[test]
fn does_nothing_when_disabled() {
    let (mut m, _, b) = two_player_game(400, 100);
    m.game.wire.doomsday.enabled = false;
    m.advance_to(WAVE_TICK);
    assert!(!m.doomed(b));
    assert_eq!(m.troops(b), BIG_TROOPS);
}

#[test]
fn does_nothing_before_the_first_wave() {
    let (mut m, _, b) = two_player_game(400, 100);
    m.advance_to(500);
    assert!(!m.doomed(b));
    assert_eq!(m.troops(b), BIG_TROOPS);
}

#[test]
fn flags_a_player_below_the_bar_and_spares_one_above_it() {
    let (mut m, a, b) = two_player_game(400, 100);
    m.advance_to(WAVE_TICK);
    assert!(!m.doomed(a));
    assert!(m.doomed(b));
}

#[test]
fn warns_before_draining_then_drains_harder_over_time() {
    let (mut m, _, b) = two_player_game(400, 100);
    let caught_tick = m.advance_until_flagged(b);
    assert_eq!(m.troops(b), BIG_TROOPS);
    m.advance_to(caught_tick + 98);
    let before_first = m.troops(b);
    m.step();
    let first_drain = before_first - m.troops(b);
    assert!(first_drain > 0);
    m.advance_to(caught_tick + 228);
    m.set(b, 100, BIG_TROOPS);
    m.step();
    let second_drain = BIG_TROOPS - m.troops(b);
    assert!(second_drain > first_drain);
}

#[test]
fn drains_an_unrecovered_player_all_the_way_to_zero() {
    let (mut m, _, b) = two_player_game(400, 50);
    m.advance_to(WAVE_TICK + 2000);
    assert_eq!(m.troops(b), 0);
    assert!(m.doomed(b));
}

#[test]
fn clears_the_mark_and_stops_draining_when_a_player_climbs_back_above_the_bar() {
    let (mut m, _, b) = two_player_game(400, 100);
    m.advance_to(WAVE_TICK);
    m.advance_to(WAVE_TICK + 100);
    let after_drain = m.troops(b);
    assert!(m.doomed(b));
    m.set(b, 400, after_drain);
    m.advance_to(WAVE_TICK + 110);
    assert!(!m.doomed(b));
    assert_eq!(m.troops(b), after_drain);
}

#[test]
fn drops_the_mark_once_a_flagged_player_dies() {
    let (mut m, _, b) = two_player_game(400, 100);
    m.advance_to(WAVE_TICK);
    assert!(m.doomed(b));
    m.game.player_by_small_id_mut(b).unwrap().alive = false;
    assert!(!m.doomed(b));
    assert_eq!(m.game.doomsday_clock_ticks(b), 0);
}

#[test]
fn never_dooms_the_leading_side_even_below_the_bar() {
    let (mut m, a, b) = two_player_game(150, 100);
    m.advance_to(WAVE_TICK);
    assert!(!m.doomed(a));
    assert!(m.doomed(b));
    m.advance_to(WAVE_TICK + 300);
    assert_eq!(m.troops(a), BIG_TROOPS);
    assert!(m.troops(b) < BIG_TROOPS);
}

#[test]
fn applies_to_nations_like_players_and_excludes_map_bots() {
    let mut m = Match::new(1000, GameMode::FreeForAll);
    let leader = m.add("leader", PlayerType::Human, None);
    let human = m.add("human", PlayerType::Human, None);
    let nation = m.add("nation", PlayerType::Nation, None);
    let bot = m.add("bot", PlayerType::Bot, None);
    m.set(leader, 400, BIG_TROOPS);
    m.set(human, 100, BIG_TROOPS);
    m.set(nation, 50, BIG_TROOPS);
    m.set(bot, 5, BIG_TROOPS);
    m.advance_to(WAVE_TICK);
    assert!(m.doomed(human));
    assert!(m.doomed(nation));
    assert!(!m.doomed(bot));
    assert!(!m.doomed(leader));
    m.advance_to(WAVE_TICK + 100);
    assert!(m.troops(nation) < BIG_TROOPS);
    assert_eq!(m.troops(bot), BIG_TROOPS);
}

#[test]
fn is_deterministic_identical_scenarios_give_identical_drains() {
    let run = || {
        let (mut m, _, b) = two_player_game(400, 100);
        m.advance_to(WAVE_TICK + 200);
        m.troops(b)
    };
    assert_eq!(run(), run());
}

fn add_warship(m: &mut Match, small_id: u16) -> i32 {
    m.game.build_unit(small_id, WARSHIP, 0)
}

fn health(m: &Match, small_id: u16, ship: i32) -> i64 {
    m.game.unit(small_id, ship).unwrap().health as i64
}

#[test]
fn warship_matches_the_troop_drain_at_the_start_of_the_ramp() {
    let (mut m, _, b) = two_player_game(400, 100);
    let ship = add_warship(&mut m, b);
    let caught_tick = m.advance_until_flagged(b);
    let max_milli = m.game.max_troops_for(b);
    m.advance_to(caught_tick + 99);
    let troop_loss = BIG_TROOPS - m.troops(b);
    let hp_loss = WARSHIP_MAX_HEALTH - health(&m, b, ship);
    assert_eq!(troop_loss, doomsday_clock_drain(max_milli, 1000, 0, 2, 6, 50));
    assert_eq!(hp_loss, doomsday_clock_drain(WARSHIP_MAX_HEALTH, 1, 0, 2, 50, 50));
}

#[test]
fn warship_scuttles_within_two_events_at_full_attrition() {
    let (mut m, _, b) = two_player_game(400, 100);
    let caught_tick = m.advance_until_flagged(b);
    m.advance_to(caught_tick + 599);
    let ship = add_warship(&mut m, b);
    m.advance_to(caught_tick + 609);
    assert_eq!(health(&m, b, ship), 500);
    m.advance_to(caught_tick + 619);
    assert!(m.game.unit(b, ship).is_none());
}

#[test]
fn warship_destroyed_when_drain_exceeds_remaining_hp() {
    let (mut m, _, b) = two_player_game(400, 100);
    let ship = add_warship(&mut m, b);
    let worn = execution::state::Unit { health: 1, ..m.game.unit(b, ship).unwrap() };
    m.game.replace_unit(b, ship, worn);
    m.advance_to(WAVE_TICK);
    m.advance_to(WAVE_TICK + 100);
    assert!(m.game.unit(b, ship).is_none());
}

#[test]
fn warship_spares_the_leaders_fleet() {
    let (mut m, a, b) = two_player_game(400, 100);
    let leader_ship = add_warship(&mut m, a);
    add_warship(&mut m, b);
    m.advance_to(WAVE_TICK);
    m.advance_to(WAVE_TICK + 300);
    assert_eq!(health(&m, a, leader_ship), WARSHIP_MAX_HEALTH);
}

#[test]
fn warship_not_damaged_during_the_warn_window() {
    let (mut m, _, b) = two_player_game(400, 100);
    let ship = add_warship(&mut m, b);
    m.advance_until_flagged(b);
    assert!(m.doomed(b));
    assert_eq!(health(&m, b, ship), WARSHIP_MAX_HEALTH);
}

fn team_game(land: u32, teams: &[(&str, &[i64])]) -> (Match, Vec<u16>) {
    let mut m = Match::new(land, GameMode::Team);
    let mut ids = Vec::new();
    for (team, tiles) in teams {
        for (n, &t) in tiles.iter().enumerate() {
            let id = m.add(&format!("{team}-{n}"), PlayerType::Human, Some(team));
            m.set(id, t, BIG_TROOPS);
            ids.push(id);
        }
    }
    (m, ids)
}

#[test]
fn team_judges_on_combined_territory_and_skulls_every_member() {
    let (mut m, ids) = team_game(1000, &[("Red", &[250, 250]), ("Blue", &[50, 50])]);
    let (red1, red2, blue1, blue2) = (ids[0], ids[1], ids[2], ids[3]);
    m.advance_to(WAVE_TICK);
    assert!(!m.doomed(red1));
    assert!(!m.doomed(red2));
    assert!(m.doomed(blue1));
    assert!(m.doomed(blue2));
    m.advance_to(WAVE_TICK + 100);
    assert!(m.troops(blue1) < BIG_TROOPS);
    assert!(m.troops(blue2) < BIG_TROOPS);
    assert_eq!(m.troops(red1), BIG_TROOPS);
}

#[test]
fn team_spares_a_tiny_member_whose_team_is_collectively_above_the_bar() {
    let (mut m, ids) = team_game(1000, &[("Red", &[400, 40]), ("Blue", &[50, 50])]);
    let (red_tiny, blue1) = (ids[1], ids[2]);
    m.advance_to(WAVE_TICK);
    assert!(!m.doomed(red_tiny));
    assert!(m.doomed(blue1));
}

#[test]
fn team_scales_the_threshold_by_team_size() {
    let (mut m, ids) = team_game(1000, &[("Red", &[200, 200, 100]), ("Blue", &[700])]);
    let (red1, red2, red3, blue1) = (ids[0], ids[1], ids[2], ids[3]);
    m.advance_to(WAVE_TICK);
    assert!(m.doomed(red1));
    assert!(m.doomed(red2));
    assert!(m.doomed(red3));
    assert!(!m.doomed(blue1));
}

#[test]
fn team_idles_when_only_one_team_remains() {
    let (mut m, ids) = team_game(1000, &[("Red", &[50, 50])]);
    m.advance_to(WAVE_TICK);
    for id in ids {
        assert!(!m.doomed(id));
    }
}

fn give_land_tiles(game: &mut Game, small_id: u16, n: u32) {
    let mut count = 0;
    for t in 0..game.map.width * game.map.height {
        if count < n && game.map.owner_id(t) == 0 {
            game.conquer(small_id, t);
            count += 1;
        }
    }
}

#[test]
fn integration_skulls_below_the_bar_spares_above_it_and_drains() {
    let run = |enabled: bool| {
        let mut m = Match::new(1, GameMode::FreeForAll);
        m.game.map = terrain(60, 60, no_change);
        m.game.wire.doomsday.enabled = enabled;
        m.bar = 300;
        m.rises_at = 2000;
        let big = m.add("big", PlayerType::Human, None);
        let small = m.add("small", PlayerType::Human, None);
        give_land_tiles(&mut m.game, big, 108 + 50);
        give_land_tiles(&mut m.game, small, 3);
        for id in [big, small] {
            m.game.player_by_small_id_mut(id).unwrap().troops = 50_000;
        }
        m.advance_to(3000);
        (m.doomed(small), m.doomed(big), m.troops(small))
    };
    let (small_on, big_on, small_troops_on) = run(true);
    let (small_off, _, small_troops_off) = run(false);
    assert!(small_on);
    assert!(!big_on);
    assert!(!small_off);
    assert!(small_troops_on < small_troops_off);
}

#[test]
fn default_drain_wipes_a_full_troop_side_in_about_a_minute() {
    let mut m = Match::new(1, GameMode::FreeForAll);
    m.game.map = terrain(100, 100, no_change);
    m.bar = 300;
    m.rises_at = 2000;
    let big = m.add("big", PlayerType::Human, None);
    let small = m.add("small", PlayerType::Human, None);
    give_land_tiles(&mut m.game, big, 4000);
    give_land_tiles(&mut m.game, small, 3);
    m.game.player_by_small_id_mut(big).unwrap().spawn_tile = Some(0);
    m.game.player_by_small_id_mut(small).unwrap().spawn_tile = Some(4000);
    m.game.pending.clear();
    m.game.add_execution(ExecEnum::Player(PlayerExecution::new(big)));
    m.game.add_execution(ExecEnum::Player(PlayerExecution::new(small)));
    m.game.add_execution(ExecEnum::DoomsdayClock(DoomsdayClockExecution::new()));
    m.game.player_by_small_id_mut(small).unwrap().max_troops_milli = 103_866_000;
    let caught_tick = m.advance_until_flagged(small);
    let max = m.game.max_troops_for(small) / 1000;
    m.game.player_by_small_id_mut(small).unwrap().troops = max;
    let mut zero_tick = None;
    for _ in 0..1500 {
        let troops = m.troops(small) as f64;
        let income = (10.0 + troops.powf(0.73) / 4.0) * (1.0 - troops / max as f64);
        m.game.player_by_small_id_mut(small).unwrap().troop_rate =
            (income * TROOP_SCALE as f64) as i64;
        m.step();
        if m.troops(small) <= 0 {
            zero_tick = Some(m.game.ticks());
            break;
        }
    }
    let zero_tick = zero_tick.expect("should eventually drain to zero");
    let seconds = (zero_tick - caught_tick) as f64 / 10.0;
    assert!(seconds > 50.0, "seconds={seconds}");
    assert!(seconds < 85.0, "seconds={seconds}");
}
