use execution::alliance_exec::{AllianceRequestExecution, BreakAllianceExecution};
use execution::attack::AttackExecution;
use execution::attack_fight::FightStep;
use execution::config::{Config, Difficulty, GameMode, TROOP_SCALE};
use execution::donate::DonateTroopsExecution;
use execution::donate_gold::DonateGoldExecution;
use execution::embargo_exec::{EmbargoAllExecution, EmbargoExecution};
use execution::emoji_execution::{EMOJI_MIDDLE_FINGER, EmojiExecution};
use execution::exec_enum::ExecEnum;
use execution::execution::Execution;
use execution::game::Game;
use execution::map::{GameMap, MapMeta};
use execution::state::{Player, PlayerType, Relation};

#[allow(dead_code)]
const IMPASSABLE: u8 = 0x9f;

/// A map of plains with the tiles that `f` changes.
#[allow(dead_code)]
fn terrain(width: u32, height: u32, f: fn(u32, u32) -> Option<u8>) -> GameMap {
    let mut bytes: Vec<u8> = Vec::new();
    for y in 0..height {
        for x in 0..width {
            bytes.push(f(x, y).unwrap_or(0x80));
        }
    }
    GameMap::from_terrain_bytes(&MapMeta { width, height, num_land_tiles: width * height }, &bytes)
        .expect("a map")
}

#[allow(dead_code)]
fn no_change(_x: u32, _y: u32) -> Option<u8> {
    None
}

/// A game on plains, past the spawn phase.
#[allow(dead_code)]
fn plains_game(width: u32, height: u32) -> Game {
    let mut game = Game::new(
        Config::new(Difficulty::Medium, GameMode::FreeForAll),
        terrain(width, height, no_change),
    );
    game.end_spawn_phase();
    game
}

#[allow(dead_code)]
fn player(id: &str, player_type: PlayerType) -> Player {
    Player {
        id: id.to_string(),
        name: id.to_string(),
        client_id: id.to_string(),
        player_type,
        id_prng: execution::prng::PseudoRandom::new(id.bytes().map(|b| b as i32).sum()),
        ..Default::default()
    }
}

#[allow(dead_code)]
fn join(game: &mut Game, id: &str, player_type: PlayerType) -> u16 {
    game.add_player(player(id, player_type))
}

/// Gives a game's executions their ticks.
#[allow(dead_code)]
struct Runner {
    active: Vec<ExecEnum>,
    /// How many tiles an attack takes in a tick.
    pace: u32,
}

#[allow(dead_code)]
impl Runner {
    fn new() -> Runner {
        Runner { active: Vec::new(), pace: 10 }
    }

    fn step(&mut self, game: &mut Game) {
        let tick = game.tick;
        for e in self.active.iter_mut() {
            if (!game.in_spawn_phase() || e.active_during_spawn()) && e.is_active() {
                e.tick(game, tick);
                if let Some(attack) = e.as_attack() {
                    if attack.fighting {
                        fight(attack, game, tick, self.pace);
                    }
                }
            }
        }
        let queued = std::mem::take(&mut game.pending);
        for mut e in queued {
            if !game.in_spawn_phase() || e.active_during_spawn() {
                e.init(game, tick);
                self.active.push(e);
            } else {
                game.pending.push(e);
            }
        }
        self.active.retain(|e| e.is_active());
        game.tick += 1;
    }
}

/// Lets an attack take up to so many tiles at half a troop each.
#[allow(dead_code)]
fn fight(attack: &mut AttackExecution, game: &mut Game, tick: u32, pace: u32) {
    let width = attack.front_width();
    assert!(width >= attack.border_tile_count() as u128);
    for _ in 0..pace {
        match attack.next_tile(game, tick) {
            FightStep::Over => return,
            FightStep::Take(tile) => attack.conquer_tile(game, tile, TROOP_SCALE / 2, 0),
        }
    }
    attack.rest();
}

const BLOCK: i64 = TROOP_SCALE;

fn add_human(game: &mut Game, id: &str, tiles_owned: i64) -> u16 {
    let sid = join(game, id, PlayerType::Human);
    game.player_by_small_id_mut(sid).unwrap().tiles_owned = tiles_owned;
    sid
}

fn ally(game: &mut Game, a: u16, b: u16) {
    assert!(game.create_alliance_request(a, b, game.ticks()));
    game.accept_alliance_request(a, b, game.ticks());
}

/// A donor and a recipient with a tile each.
fn donors() -> (Game, u16, u16) {
    let mut game = plains_game(5, 5);
    let donor = join(&mut game, "donor", PlayerType::Human);
    let recipient = join(&mut game, "recipient", PlayerType::Human);
    game.conquer(donor, game.map.ref_xy(0, 0));
    game.conquer(recipient, game.map.ref_xy(4, 4));
    (game, donor, recipient)
}

#[test]
fn donate_troops_succeeds_once_allied_by_counter_request() {
    let mut game = plains_game(5, 5);
    let player1 = add_human(&mut game, "player1", 1);
    let player2 = add_human(&mut game, "player2", 1);
    game.player_by_small_id_mut(player1).unwrap().troops = 1_000;
    game.player_by_small_id_mut(player2).unwrap().troops = 100;
    assert!(game.create_alliance_request(player1, player2, game.ticks()));
    assert!(game.create_alliance_request(player2, player1, game.ticks()));
    assert!(game.is_allied_with(player1, player2));
    assert!(game.can_donate_troops(player1, player2));
    let troops_before = game.troops_of(player2);
    game.add_execution(ExecEnum::DonateTroops(DonateTroopsExecution::new(
        player1,
        "player2".into(),
        Some(100 * BLOCK),
    )));
    let mut runner = Runner::new();
    runner.step(&mut game);
    runner.step(&mut game);
    assert_eq!(game.troops_of(player2), troops_before + 100);
}

#[test]
fn troops_are_donated_between_allies() {
    let (mut game, donor, recipient) = donors();
    ally(&mut game, donor, recipient);
    game.player_by_small_id_mut(donor).unwrap().troops += 6000;
    let donor_before = game.troops_of(donor);
    let recipient_before = game.troops_of(recipient);
    game.add_execution(ExecEnum::DonateTroops(DonateTroopsExecution::new(
        donor,
        "recipient".into(),
        Some(5000 * BLOCK),
    )));
    let mut runner = Runner::new();
    for _ in 0..5 {
        runner.step(&mut game);
    }
    assert!(game.troops_of(donor) < donor_before);
    assert!(game.troops_of(recipient) > recipient_before);
}

#[test]
fn gold_is_donated_between_allies() {
    let (mut game, donor, recipient) = donors();
    ally(&mut game, donor, recipient);
    game.player_by_small_id_mut(donor).unwrap().gold += 6000;
    let donor_before = game.gold_of(donor);
    let recipient_before = game.gold_of(recipient);
    game.add_execution(ExecEnum::DonateGold(DonateGoldExecution::new(
        donor,
        "recipient".into(),
        Some(5000),
    )));
    let mut runner = Runner::new();
    for _ in 0..5 {
        runner.step(&mut game);
    }
    assert!(game.gold_of(donor) < donor_before);
    assert!(game.gold_of(recipient) > recipient_before);
}

#[test]
fn troops_are_not_donated_to_a_non_ally() {
    let (mut game, donor, recipient) = donors();
    assert!(game.create_alliance_request(donor, recipient, game.ticks()));
    game.reject_alliance_request(donor, recipient);
    let donor_before = game.troops_of(donor);
    let recipient_before = game.troops_of(recipient);
    game.add_execution(ExecEnum::DonateTroops(DonateTroopsExecution::new(
        donor,
        "recipient".into(),
        Some(5000 * BLOCK),
    )));
    Runner::new().step(&mut game);
    assert!(game.troops_of(donor) >= donor_before);
    assert!(game.troops_of(recipient) >= recipient_before);
}

#[test]
fn gold_is_not_donated_to_a_non_ally() {
    let (mut game, donor, recipient) = donors();
    assert!(game.create_alliance_request(donor, recipient, game.ticks()));
    game.reject_alliance_request(donor, recipient);
    let donor_before = game.gold_of(donor);
    let recipient_before = game.gold_of(recipient);
    game.add_execution(ExecEnum::DonateGold(DonateGoldExecution::new(
        donor,
        "recipient".into(),
        Some(5000),
    )));
    Runner::new().step(&mut game);
    assert!(game.gold_of(donor) >= donor_before);
    assert!(game.gold_of(recipient) >= recipient_before);
}

#[test]
fn self_donation_is_disallowed_despite_being_friendly_with_self() {
    let mut game = plains_game(5, 5);
    let player = join(&mut game, "player_self", PlayerType::Human);
    game.conquer(player, game.map.ref_xy(0, 0));
    assert!(game.is_friendly(player, player));
    assert!(!game.can_donate_gold(player, player));
    assert!(!game.can_donate_troops(player, player));
    game.player_by_small_id_mut(player).unwrap().gold += 1000;
    game.player_by_small_id_mut(player).unwrap().troops += 1000;
    let gold_before = game.gold_of(player);
    let troops_before = game.troops_of(player);
    game.add_execution(ExecEnum::DonateGold(DonateGoldExecution::new(
        player,
        "player_self".into(),
        Some(500),
    )));
    game.add_execution(ExecEnum::DonateTroops(DonateTroopsExecution::new(
        player,
        "player_self".into(),
        Some(500 * BLOCK),
    )));
    Runner::new().step(&mut game);
    assert!(game.gold_of(player) >= gold_before);
    assert!(game.troops_of(player) >= troops_before);
}

#[test]
fn donate_gold_succeeds_once_allied_by_counter_request() {
    let mut game = plains_game(5, 5);
    let player1 = add_human(&mut game, "player1", 1);
    let player2 = add_human(&mut game, "player2", 1);
    game.player_by_small_id_mut(player1).unwrap().gold = 1000;
    game.player_by_small_id_mut(player2).unwrap().gold = 100;
    assert!(game.create_alliance_request(player1, player2, game.ticks()));
    assert!(game.create_alliance_request(player2, player1, game.ticks()));
    assert!(game.is_allied_with(player1, player2));
    assert!(game.is_friendly(player1, player2));
    assert!(game.can_donate_gold(player1, player2));
    let gold_before = game.gold_of(player2);
    game.add_execution(ExecEnum::DonateGold(DonateGoldExecution::new(
        player1,
        "player2".into(),
        Some(100),
    )));
    let mut runner = Runner::new();
    runner.step(&mut game);
    runner.step(&mut game);
    assert_eq!(game.gold_of(player2), gold_before + 100);
}

#[test]
fn donation_added_the_same_tick_as_the_counter_request_still_succeeds() {
    let mut game = plains_game(5, 5);
    let player1 = add_human(&mut game, "player1", 1);
    let player2 = add_human(&mut game, "player2", 1);
    game.player_by_small_id_mut(player1).unwrap().gold = 1000;
    game.player_by_small_id_mut(player2).unwrap().gold = 100;
    let mut runner = Runner::new();
    game.add_execution(ExecEnum::AllianceRequest(AllianceRequestExecution::new(
        player1,
        "player2".into(),
    )));
    runner.step(&mut game);
    let gold_before = game.gold_of(player2);
    game.add_execution(ExecEnum::AllianceRequest(AllianceRequestExecution::new(
        player2,
        "player1".into(),
    )));
    game.add_execution(ExecEnum::DonateGold(DonateGoldExecution::new(
        player1,
        "player2".into(),
        Some(100),
    )));
    runner.step(&mut game);
    assert!(game.is_allied_with(player1, player2));
    assert!(game.is_allied_with(player2, player1));
    runner.step(&mut game);
    assert_eq!(game.gold_of(player2), gold_before + 100);
}

/// How `from` regards `to`, in hundredths of a point.
fn relation_value(game: &Game, from: u16, to: u16) -> i32 {
    game.relations.iter().find(|r| r.from == from && r.to == to).map(|r| r.value).unwrap_or(0)
}

fn spawning_game() -> Game {
    Game::new(
        Config::new(Difficulty::Medium, GameMode::FreeForAll),
        terrain(4, 4, no_change),
    )
}

#[test]
fn break_alliance_waits_until_tick_and_penalizes_recipient_relation() {
    let mut game = spawning_game();
    let requestor = join(&mut game, "requestor", PlayerType::Human);
    let recipient = join(&mut game, "recipient", PlayerType::Human);
    assert!(game.create_alliance_request(requestor, recipient, 0));
    assert!(game.create_alliance_request(recipient, requestor, 0));
    game.update_relation(requestor, recipient, -120);
    game.update_relation(recipient, requestor, -50);
    game.end_spawn_phase();
    let mut runner = Runner::new();
    game.add_execution(ExecEnum::BreakAlliance(BreakAllianceExecution::new(
        requestor,
        "recipient".into(),
    )));
    runner.step(&mut game);
    assert!(game.is_allied_with(requestor, recipient));
    assert_eq!(relation_value(&game, requestor, recipient), -2000);
    assert_eq!(relation_value(&game, recipient, requestor), 5000);
    runner.step(&mut game);
    assert!(!game.is_allied_with(requestor, recipient));
    assert_eq!(relation_value(&game, requestor, recipient), -2000);
    assert_eq!(relation_value(&game, recipient, requestor), -5000);
}

#[test]
fn invalid_break_deactivates_without_side_effects() {
    let mut game = spawning_game();
    let requestor = join(&mut game, "requestor", PlayerType::Human);
    let recipient = join(&mut game, "recipient", PlayerType::Human);
    let mut execution = BreakAllianceExecution::new(requestor, "recipient".into());
    execution.init(&mut game, 0);
    execution.tick(&mut game, 1);
    assert!(!execution.is_active());
    assert!(!game.is_allied_with(requestor, recipient));
    assert_eq!(relation_value(&game, recipient, requestor), 0);
}

#[test]
fn middle_finger_makes_nation_hostile_toward_human() {
    let mut game = plains_game(4, 4);
    let human = add_human(&mut game, "human", 10);
    let nation = join(&mut game, "nation", PlayerType::Nation);
    game.player_by_small_id_mut(nation).unwrap().tiles_owned = 10;
    let mut exec = EmojiExecution::new(human, Some("nation".into()), EMOJI_MIDDLE_FINGER);
    exec.init(&mut game, 0);
    Runner::new().step(&mut game);
    let tick = game.ticks();
    exec.tick(&mut game, tick);
    assert_eq!(game.relation(nation, human), Relation::Hostile);
}

#[test]
fn an_embargo_stops_trade_until_it_is_lifted() {
    let mut game = plains_game(4, 4);
    let a = join(&mut game, "a", PlayerType::Human);
    let b = join(&mut game, "b", PlayerType::Human);
    assert!(game.can_trade(a, b));
    let mut start = EmbargoExecution::new(a, "b".into(), true);
    start.init(&mut game, 0);
    start.tick(&mut game, 1);
    assert!(game.has_embargo_against(a, b));
    assert!(!game.can_trade(a, b));
    let mut stop = EmbargoExecution::new(a, "b".into(), false);
    stop.init(&mut game, 2);
    stop.tick(&mut game, 3);
    assert!(game.can_trade(a, b));
}

#[test]
fn an_embargo_on_everybody_spares_bots() {
    let mut game = plains_game(4, 4);
    let a = join(&mut game, "a", PlayerType::Human);
    let b = join(&mut game, "b", PlayerType::Human);
    let c = join(&mut game, "c", PlayerType::Bot);
    let mut all = EmbargoAllExecution::new(a, true);
    all.init(&mut game, 0);
    all.tick(&mut game, 1);
    assert!(game.has_embargo_against(a, b));
    assert!(!game.has_embargo_against(a, c));
    assert!(!game.can_embargo_all(a));
}
