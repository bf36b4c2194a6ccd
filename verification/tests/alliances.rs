use execution::attack::AttackExecution;
use execution::attack_fight::FightStep;
use execution::config::{Config, Difficulty, GameMode, TROOP_SCALE};
use execution::exec_enum::ExecEnum;
use execution::execution::Execution;
use execution::game::Game;
use execution::map::{GameMap, MapMeta};
use execution::nation_alliance::{handle_alliance_extension_requests, handle_alliance_requests};
use execution::nation_emoji::NationEmojiState;
use execution::prng::PseudoRandom;
use execution::state::{AllianceRequestStatus, Player, PlayerType};

#[allow(dead_code)]
const IMPASSABLE: u8 = 0x9f;

/// A map of plains with the tiles that `f` changes.
#[allow(dead_code)]
fn terrain(width: u32, height: u32, f: fn(u32, u32) -> Option<u8>) -> GameMap {
    let mut bytes: Vec<u8> = Vec::new();
    for y in 0..height {
        for x in 0..width {
            bytes.push(f(x, y).unwrap_or(0x80));
        }
    }
    GameMap::from_terrain_bytes(&MapMeta { width, height, num_land_tiles: width * height }, &bytes)
        .expect("a map")
}

#[allow(dead_code)]
fn no_change(_x: u32, _y: u32) -> Option<u8> {
    None
}

/// A game on plains, past the spawn phase.
#[allow(dead_code)]
fn plains_game(width: u32, height: u32) -> Game {
    let mut game = Game::new(
        Config::new(Difficulty::Medium, GameMode::FreeForAll),
        terrain(width, height, no_change),
    );
    game.end_spawn_phase();
    game
}

#[allow(dead_code)]
fn player(id: &str, player_type: PlayerType) -> Player {
    Player {
        id: id.to_string(),
        name: id.to_string(),
        client_id: id.to_string(),
        player_type,
        id_prng: execution::prng::PseudoRandom::new(id.bytes().map(|b| b as i32).sum()),
        ..Default::default()
    }
}

#[allow(dead_code)]
fn join(game: &mut Game, id: &str, player_type: PlayerType) -> u16 {
    game.add_player(player(id, player_type))
}

/// Gives a game's executions their ticks.
#[allow(dead_code)]
struct Runner {
    active: Vec<ExecEnum>,
    /// How many tiles an attack takes in a tick.
    pace: u32,
}

#[allow(dead_code)]
impl Runner {
    fn new() -> Runner {
        Runner { active: Vec::new(), pace: 10 }
    }

    fn step(&mut self, game: &mut Game) {
        let tick = game.tick;
        for e in self.active.iter_mut() {
            if (!game.in_spawn_phase() || e.active_during_spawn()) && e.is_active() {
                e.tick(game, tick);
                if let Some(attack) = e.as_attack() {
                    if attack.fighting {
                        fight(attack, game, tick, self.pace);
                    }
                }
            }
        }
        let queued = std::mem::take(&mut game.pending);
        for mut e in queued {
            if !game.in_spawn_phase() || e.active_during_spawn() {
                e.init(game, tick);
                self.active.push(e);
            } else {
                game.pending.push(e);
            }
        }
        self.active.retain(|e| e.is_active());
        game.tick += 1;
    }
}

/// Lets an attack take up to so many tiles at half a troop each.
#[allow(dead_code)]
fn fight(attack: &mut AttackExecution, game: &mut Game, tick: u32, pace: u32) {
    let width = attack.front_width();
    assert!(width >= attack.border_tile_count() as u128);
    for _ in 0..pace {
        match attack.next_tile(game, tick) {
            FightStep::Over => return,
            FightStep::Take(tile) => attack.conquer_tile(game, tile, TROOP_SCALE / 2, 0),
        }
    }
    attack.rest();
}

fn ten_tiles(game: &mut Game, id: &str, player_type: PlayerType, troops: i64) -> u16 {
    game.add_player(Player { troops, tiles_owned: 10, ..player(id, player_type) })
}

fn setup(
    player_troops: i64,
    requestor_troops: i64,
    relation_delta: i32,
    is_traitor: bool,
) -> (Game, u16, u16) {
    let mut game = plains_game(4, 4);
    let player = ten_tiles(&mut game, "player_id", PlayerType::Bot, player_troops);
    let requestor = ten_tiles(&mut game, "requestor_id", PlayerType::Human, requestor_troops);
    game.update_relation(player, requestor, relation_delta);
    game.update_relation(requestor, player, relation_delta);
    game.player_by_small_id_mut(requestor).unwrap().traitor = is_traitor;
    assert!(game.create_alliance_request(requestor, player, 1_000));
    (game, player, requestor)
}

fn answer(game: &mut Game, player: u16) {
    let mut random = PseudoRandom::new(46);
    let mut emoji = NationEmojiState::default();
    handle_alliance_requests(game, &mut random, player, &mut emoji);
}

fn request_status(game: &Game, requestor: u16, player: u16) -> AllianceRequestStatus {
    game.alliance_requests
        .iter()
        .find(|r| r.requestor_small_id == requestor && r.recipient_small_id == player)
        .map(|r| r.status)
        .expect("request should still be tracked")
}

#[test]
fn rejects_alliance_request_created_during_the_spawn_phase_cutoff() {
    let mut game = plains_game(4, 4);
    let cutoff = game.wire.num_spawn_phase_turns + 1;
    let player = ten_tiles(&mut game, "player_id", PlayerType::Bot, 1_000);
    let requestor = ten_tiles(&mut game, "requestor_id", PlayerType::Human, 1_000);
    game.update_relation(player, requestor, 2);
    game.update_relation(requestor, player, 2);
    assert!(game.create_alliance_request(requestor, player, cutoff));
    answer(&mut game, player);
    assert!(!game.is_allied_with(player, requestor));
    assert_eq!(request_status(&game, requestor, player), AllianceRequestStatus::Rejected);
}

#[test]
fn accepts_alliance_request_when_all_conditions_are_met() {
    let (mut game, player, requestor) = setup(1_000, 1_000, 2, false);
    answer(&mut game, player);
    assert!(game.is_allied_with(player, requestor));
}

#[test]
fn rejects_alliance_request_from_a_traitor() {
    let (mut game, player, requestor) = setup(1_000, 1_000, 2, true);
    answer(&mut game, player);
    assert!(!game.is_allied_with(player, requestor));
    assert_eq!(request_status(&game, requestor, player), AllianceRequestStatus::Rejected);
}

#[test]
fn rejects_alliance_request_when_relation_is_hostile() {
    let (mut game, player, requestor) = setup(1_000, 1_000, -2, false);
    answer(&mut game, player);
    assert!(!game.is_allied_with(player, requestor));
    assert_eq!(request_status(&game, requestor, player), AllianceRequestStatus::Rejected);
}

#[test]
fn accepts_alliance_request_from_a_much_larger_requestor() {
    let (mut game, player, requestor) = setup(1_000, 4_000, 2, false);
    answer(&mut game, player);
    assert!(game.is_allied_with(player, requestor));
}

#[test]
fn rejects_alliance_request_when_recipient_already_has_many_alliances() {
    let (mut game, player, requestor) = setup(1_000, 1_000, 2, false);
    for i in 0..10 {
        let other = ten_tiles(&mut game, &format!("filler{i}"), PlayerType::Human, 1_000);
        assert!(game.create_alliance_request(player, other, 1_000));
        assert!(game.create_alliance_request(other, player, 1_000));
    }
    assert_eq!(game.alliance_count(player), 10);
    answer(&mut game, player);
    assert!(!game.is_allied_with(player, requestor));
    assert_eq!(request_status(&game, requestor, player), AllianceRequestStatus::Rejected);
}

#[test]
fn does_not_request_extension_when_neither_side_has_agreed() {
    let (mut game, player, requestor) = setup(1_000, 1_000, 2, false);
    assert!(game.create_alliance_request(player, requestor, 1_001));
    assert!(game.is_allied_with(player, requestor));
    assert_eq!(game.alliances.len(), 1);
    let expiration_before = game.alliances[0].expires_at;
    let mut random = PseudoRandom::new(46);
    let mut emoji = NationEmojiState::default();
    handle_alliance_extension_requests(&mut game, &mut random, player, &mut emoji);
    Runner::new().step(&mut game);
    assert_eq!(game.alliances.len(), 1);
    assert!(!game.alliances[0].requestor_extends);
    assert!(!game.alliances[0].recipient_extends);
    assert_eq!(game.alliances[0].expires_at, expiration_before);
}
