use execution::attack::AttackExecution;
use execution::attack_fight::FightStep;
use execution::config::{Config, Difficulty, GameMode, TROOP_SCALE, UnitName};
use execution::decimal::{decimal_of, parse_fixed};
use execution::exec_enum::ExecEnum;
use execution::execution::Execution;
use execution::game::Game;
use execution::intent::{StampedIntent, intent_to_execution, turn_to_executions};
use execution::map::{GameMap, MapMeta};
use execution::nation::{NationExecution, NationRuntime};
use execution::nation_batch::NationBatch;
use execution::prng::PseudoRandom;
use execution::state::{Player, PlayerInfo, PlayerType};
use execution::unit_type::UnitType;

#[allow(dead_code)]
const IMPASSABLE: u8 = 0x9f;

/// A map of plains with the tiles that `f` changes.
#[allow(dead_code)]
fn terrain(width: u32, height: u32, f: fn(u32, u32) -> Option<u8>) -> GameMap {
    let mut bytes: Vec<u8> = Vec::new();
    for y in 0..height {
        for x in 0..width {
            bytes.push(f(x, y).unwrap_or(0x80));
        }
    }
    GameMap::from_terrain_bytes(&MapMeta { width, height, num_land_tiles: width * height }, &bytes)
        .expect("a map")
}

#[allow(dead_code)]
fn no_change(_x: u32, _y: u32) -> Option<u8> {
    None
}

/// A game on plains, past the spawn phase.
#[allow(dead_code)]
fn plains_game(width: u32, height: u32) -> Game {
    let mut game = Game::new(
        Config::new(Difficulty::Medium, GameMode::FreeForAll),
        terrain(width, height, no_change),
    );
    game.end_spawn_phase();
    game
}

#[allow(dead_code)]
fn player(id: &str, player_type: PlayerType) -> Player {
    Player {
        id: id.to_string(),
        name: id.to_string(),
        client_id: id.to_string(),
        player_type,
        id_prng: execution::prng::PseudoRandom::new(id.bytes().map(|b| b as i32).sum()),
        ..Default::default()
    }
}

#[allow(dead_code)]
fn join(game: &mut Game, id: &str, player_type: PlayerType) -> u16 {
    game.add_player(player(id, player_type))
}

/// Gives a game's executions their ticks.
#[allow(dead_code)]
struct Runner {
    active: Vec<ExecEnum>,
    /// How many tiles an attack takes in a tick.
    pace: u32,
}

#[allow(dead_code)]
impl Runner {
    fn new() -> Runner {
        Runner { active: Vec::new(), pace: 10 }
    }

    fn step(&mut self, game: &mut Game) {
        let tick = game.tick;
        for e in self.active.iter_mut() {
            if (!game.in_spawn_phase() || e.active_during_spawn()) && e.is_active() {
                e.tick(game, tick);
                if let Some(attack) = e.as_attack() {
                    if attack.fighting {
                        fight(attack, game, tick, self.pace);
                    }
                }
            }
        }
        let queued = std::mem::take(&mut game.pending);
        for mut e in queued {
            if !game.in_spawn_phase() || e.active_during_spawn() {
                e.init(game, tick);
                self.active.push(e);
            } else {
                game.pending.push(e);
            }
        }
        self.active.retain(|e| e.is_active());
        game.tick += 1;
    }
}

/// Lets an attack take up to so many tiles at half a troop each.
#[allow(dead_code)]
fn fight(attack: &mut AttackExecution, game: &mut Game, tick: u32, pace: u32) {
    let width = attack.front_width();
    assert!(width >= attack.border_tile_count() as u128);
    for _ in 0..pace {
        match attack.next_tile(game, tick) {
            FightStep::Over => return,
            FightStep::Take(tile) => attack.conquer_tile(game, tile, TROOP_SCALE / 2, 0),
        }
    }
    attack.rest();
}

use serde_json::Value;

fn intent(client: &str, kind: &str, members: Vec<(&str, Value)>) -> StampedIntent {
    let mut fields = serde_json::Map::new();
    for (name, value) in members {
        fields.insert(name.to_string(), value);
    }
    StampedIntent {
        client_id: client.to_string(),
        intent_type: kind.to_string(),
        fields: Value::Object(fields),
    }
}

fn text(s: &str) -> Value {
    Value::String(s.to_string())
}

fn arena() -> Game {
    let mut game = plains_game(8, 8);
    game.wire.unit_names = vec![UnitName { name: "City".to_string(), unit: UnitType::City }];
    join(&mut game, "alice", PlayerType::Human);
    join(&mut game, "bob", PlayerType::Human);
    game
}

fn placed(kind: &str, members: Vec<(&str, Value)>) -> ExecEnum {
    intent_to_execution(&arena(), &"game".to_string(), &intent("bob", kind, members))
}

#[test]
fn orders_of_strangers_come_to_nothing() {
    let order = intent("nobody", "cancel_boat", vec![("unitID", Value::from(7))]);
    let e = intent_to_execution(&arena(), &"game".to_string(), &order);
    assert!(matches!(e, ExecEnum::NoOp(_)));
    assert!(matches!(placed("dance", Vec::new()), ExecEnum::NoOp(_)));
    assert!(matches!(placed("attack", Vec::new()), ExecEnum::NoOp(_)));
}

#[test]
fn a_spawn_order_names_its_tile() {
    match placed("spawn", vec![("tile", Value::from(9))]) {
        ExecEnum::Spawn(e) => {
            assert_eq!(e.tile, Some(9));
            assert_eq!(e.game_id, "game");
            assert_eq!(e.info.id, "bob");
            assert_eq!(e.info.client_id, Some("bob".to_string()));
        }
        _ => panic!("no spawn"),
    }
}

#[test]
fn a_boat_order_takes_its_troops_along() {
    match placed("boat", vec![("dst", Value::from(17)), ("troops", Value::from(12))]) {
        ExecEnum::TransportShip(e) => {
            assert_eq!(e.owner_small_id, 2);
            assert_eq!(e.dst, 17);
            assert_eq!(e.troops, 12 * TROOP_SCALE);
        }
        _ => panic!("no boat"),
    }
}

#[test]
fn members_of_the_wrong_kind_count_as_missing() {
    match placed("cancel_boat", vec![("unitID", text("seven"))]) {
        ExecEnum::BoatRetreat(e) => assert_eq!(e.unit_id, 0),
        _ => panic!("no retreat"),
    }
    match placed("cancel_boat", vec![("unitID", Value::from(-3))]) {
        ExecEnum::BoatRetreat(e) => assert_eq!(e.unit_id, -3),
        _ => panic!("no retreat"),
    }
    match placed("mark_disconnected", Vec::new()) {
        ExecEnum::MarkDisconnected(e) => assert!(e.disconnected),
        _ => panic!("no mark"),
    }
    match placed("mark_disconnected", vec![("isDisconnected", Value::from(false))]) {
        ExecEnum::MarkDisconnected(e) => assert!(!e.disconnected),
        _ => panic!("no mark"),
    }
}

#[test]
fn a_build_order_names_its_unit() {
    let members = vec![
        ("unit", text("City")),
        ("tile", Value::from(5)),
        ("rocketDirectionUp", Value::from(false)),
    ];
    match placed("build_unit", members) {
        ExecEnum::Construction(e) => {
            assert_eq!(e.unit_type, UnitType::City);
            assert_eq!(e.tile, 5);
            assert!(!e.rocket_direction_up);
        }
        _ => panic!("no construction"),
    }
    match placed("build_unit", vec![("unit", text("Castle"))]) {
        ExecEnum::Construction(e) => assert_eq!(e.unit_type, UnitType::Unknown),
        _ => panic!("no construction"),
    }
}

#[test]
fn diplomatic_orders_name_the_other_side() {
    match placed("allianceRequest", vec![("recipient", text("alice"))]) {
        ExecEnum::AllianceRequest(e) => assert_eq!(e.recipient_id(), "alice"),
        _ => panic!("no request"),
    }
    match placed("embargo", vec![("targetID", text("alice")), ("action", text("start"))]) {
        ExecEnum::Embargo(e) => {
            assert_eq!(e.target_id, "alice");
            assert!(e.action_start);
        }
        _ => panic!("no embargo"),
    }
    match placed("embargo_all", vec![("action", text("stop"))]) {
        ExecEnum::EmbargoAll(e) => assert!(!e.action_start),
        _ => panic!("no embargo"),
    }
    match placed("cancel_attack", vec![("attackID", text("abc"))]) {
        ExecEnum::Retreat(e) => assert_eq!(e.attack_id, "abc"),
        _ => panic!("no retreat"),
    }
}

#[test]
fn orders_to_delete_gesture_and_redirect_are_kept() {
    match placed("delete_unit", vec![("unitId", Value::from(7))]) {
        ExecEnum::DeleteUnit(e) => {
            assert_eq!(e.small_id, 2);
            assert_eq!(e.unit_id, 7);
        }
        _ => panic!("no deletion"),
    }
    match placed("emoji", vec![("recipient", text("alice")), ("emoji", Value::from(14))]) {
        ExecEnum::Emoji(e) => {
            assert_eq!(e.recipient_id, Some("alice".to_string()));
            assert_eq!(e.emoji, 14);
        }
        _ => panic!("no emoji"),
    }
    match placed("emoji", vec![("recipient", text("AllPlayers")), ("emoji", Value::from(2))]) {
        ExecEnum::Emoji(e) => assert_eq!(e.recipient_id, None),
        _ => panic!("no emoji"),
    }
    let ids = Value::Array(vec![Value::from(3), text("x"), Value::from(9)]);
    match placed("move_warship", vec![("unitIds", ids), ("tile", Value::from(12))]) {
        ExecEnum::MoveWarship(e) => {
            assert_eq!(e.unit_ids, vec![3, 9]);
            assert_eq!(e.position, 12);
        }
        _ => panic!("no move"),
    }
}

fn gold(value: Option<Value>) -> Option<i64> {
    let mut members = vec![("recipient", text("alice"))];
    if let Some(v) = value {
        members.push(("gold", v));
    }
    match placed("donate_gold", members) {
        ExecEnum::DonateGold(e) => e.gold,
        _ => panic!("no donation"),
    }
}

#[test]
fn donated_gold_is_cut_to_a_whole_number() {
    assert_eq!(gold(Some(Value::from(250))), Some(250));
    assert_eq!(gold(Some(Value::from(12.75))), Some(12));
    assert_eq!(gold(Some(Value::from(-12.75))), Some(-12));
    assert_eq!(gold(Some(Value::from(1e25))), Some(i64::MAX));
    assert_eq!(gold(Some(Value::from(u64::MAX))), Some(i64::MAX));
    assert_eq!(gold(Some(text("many"))), None);
    assert_eq!(gold(None), None);
}

fn troops(value: Option<Value>) -> Option<i64> {
    let mut members = vec![("recipient", text("alice"))];
    if let Some(v) = value {
        members.push(("troops", v));
    }
    match placed("donate_troops", members) {
        ExecEnum::DonateTroops(e) => e.troops,
        _ => panic!("no donation"),
    }
}

#[test]
fn donated_troops_keep_their_fraction() {
    assert_eq!(troops(Some(Value::from(250))), Some(250 * TROOP_SCALE));
    assert_eq!(troops(Some(Value::from(0.25))), Some(TROOP_SCALE / 4));
    assert_eq!(troops(Some(Value::from(1.0 / 3.0))), Some(33_333));
    assert_eq!(troops(Some(Value::from(1e-9))), Some(0));
    assert_eq!(troops(Some(Value::from(-4))), Some(-4 * TROOP_SCALE));
    assert_eq!(troops(Some(Value::from(-0.5))), Some(-TROOP_SCALE / 2));
    assert_eq!(troops(Some(Value::from(1e30))), Some(i64::MAX));
    assert_eq!(troops(Some(Value::from(-1e30))), Some(i64::MIN));
    assert_eq!(troops(Some(text("many"))), None);
    assert_eq!(troops(None), None);
}

#[test]
fn numbers_are_read_up_to_a_place() {
    let read = |s: &str, places: usize| parse_fixed(&s.to_string(), places);
    assert_eq!(read("123.456", 2), 12_345);
    assert_eq!(read("-123.456", 0), -123);
    assert_eq!(read("7", 3), 7_000);
    assert_eq!(read("0.00001", 5), 1);
    assert_eq!(read("", 5), 0);
    assert_eq!(read("9223372036854775807", 0), i64::MAX);
    assert_eq!(read("9223372036854775808", 0), i64::MAX);
    assert_eq!(read("-9223372036854775808", 0), i64::MIN);
    assert_eq!(read("-1000000000000000000000000000000", 0), i64::MIN);
}

#[test]
fn numbers_are_written_in_decimal() {
    assert_eq!(decimal_of(0), "0");
    assert_eq!(decimal_of(90), "90");
    assert_eq!(decimal_of(65_535), "65535");
}

#[test]
fn a_turn_keeps_the_order_of_its_intents() {
    let game = arena();
    let members = vec![("targetID", text("bob")), ("troops", Value::from(5.5))];
    let attack = intent("alice", "attack", members);
    let free = intent("bob", "attack", vec![("targetID", Value::Null)]);
    let stranger = intent("nobody", "attack", Vec::new());
    let cancel = intent("alice", "cancel_attack", vec![("attackID", text("x"))]);
    let out = turn_to_executions(&game, &"game".to_string(), &vec![attack, free, stranger, cancel]);
    assert_eq!(out.len(), 4);
    match &out[0] {
        ExecEnum::Attack(e) => {
            assert_eq!(e.owner_small_id(), 1);
            assert_eq!(e.target_player_id, Some("bob".to_string()));
            assert_eq!(e.start_troops, Some(5 * TROOP_SCALE + TROOP_SCALE / 2));
        }
        _ => panic!("no attack"),
    }
    match &out[1] {
        ExecEnum::Attack(e) => {
            assert_eq!(e.target_player_id, None);
            assert_eq!(e.start_troops, Some(0));
        }
        _ => panic!("no attack"),
    }
    assert!(matches!(&out[2], ExecEnum::NoOp(_)));
    assert!(matches!(&out[3], ExecEnum::Retreat(_)));
    assert!(turn_to_executions(&game, &"game".to_string(), &Vec::new()).is_empty());
}

#[test]
fn labels_name_the_execution_and_its_parties() {
    let mut attack = AttackExecution::new(12, None, None);
    attack.target_small_id = 305;
    assert_eq!(ExecEnum::Attack(attack).debug_label(), "Attack(12->305)");
    assert_eq!(
        placed("allianceRequest", vec![("recipient", text("alice"))]).debug_label(),
        "AllianceRequestExecution(2->alice)"
    );
    assert_eq!(placed("dance", Vec::new()).debug_label(), "NoOp");
    assert_eq!(placed("build_unit", Vec::new()).debug_label(), "ConstructionExecution");
}

fn nation(cell: Option<[i32; 2]>) -> NationRuntime {
    NationRuntime {
        spawn_cell: cell,
        player_info: PlayerInfo {
            name: "Gaul".to_string(),
            player_type: PlayerType::Nation,
            client_id: None,
            id: "gaul".to_string(),
            team: None,
        },
    }
}

#[test]
fn a_nation_joins_spawns_once_and_sends_half_of_its_troops() {
    let mut game = plains_game(60, 60);
    game.spawn_phase = true;
    let mut gaul = NationExecution::new("game".to_string(), nation(Some([30, 30])));
    assert!(gaul.active_during_spawn());
    gaul.init(&mut game, 0);
    assert_eq!(game.players.len(), 1);
    assert!(gaul.attack_rate >= 55 && gaul.attack_rate < 70);
    gaul.tick(&mut game, 1);
    assert_eq!(game.pending.len(), 1);
    let tile = match &game.pending[0] {
        ExecEnum::Spawn(e) => e.tile.expect("a tile"),
        _ => panic!("no spawn"),
    };
    let (x, y) = (tile % 60, tile / 60);
    assert!((5..55).contains(&x) && (5..55).contains(&y));
    gaul.tick(&mut game, 2);
    assert_eq!(game.pending.len(), 1);
    game.pending.clear();
    game.conquer(1, tile);
    let p = game.player_by_small_id_mut(1).unwrap();
    p.spawn_tile = Some(tile);
    p.troops = 101;
    game.end_spawn_phase();
    gaul.tick(&mut game, 3);
    match &game.pending[0] {
        ExecEnum::Attack(e) => assert_eq!(e.start_troops, Some(101 * TROOP_SCALE / 2)),
        _ => panic!("no attack"),
    }
    game.relinquish_tile(tile);
    gaul.tick(&mut game, 4);
    assert!(!gaul.is_active());
}

#[test]
fn a_batch_gives_every_nation_its_tick() {
    let mut game = plains_game(60, 60);
    game.spawn_phase = true;
    join(&mut game, "gaul", PlayerType::Nation);
    let mut batch = NationBatch::new();
    batch.register("game".to_string(), nation(None));
    batch.init_all(Difficulty::Impossible);
    assert!(batch.nations[0].attack_rate >= 30 && batch.nations[0].attack_rate < 50);
    batch.tick(&mut game, 1);
    assert_eq!(game.pending.len(), 1);
    match &game.pending[0] {
        ExecEnum::Spawn(e) => assert_eq!(e.tile, None),
        _ => panic!("no spawn"),
    }
    batch.tick(&mut game, 2);
    assert_eq!(game.pending.len(), 1);
}
