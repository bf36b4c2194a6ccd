//! The orders that players send, as executions.
//!
//! A player's order comes as a JSON object. The object stays as it was read; what the rules
//! need of it is read member by member.

use serde_json::Value;
use vstd::prelude::*;

use crate::alliance_exec::{
    AllianceExtensionExecution, AllianceRejectExecution, AllianceRequestExecution,
    BreakAllianceExecution,
};
use crate::attack::AttackExecution;
use crate::construction::ConstructionExecution;
use crate::decimal::parse_fixed;
use crate::delete_unit::DeleteUnitExecution;
use crate::donate::DonateTroopsExecution;
use crate::donate_gold::DonateGoldExecution;
use crate::embargo_exec::{EmbargoAllExecution, EmbargoExecution};
use crate::emoji_execution::EmojiExecution;
use crate::exec_enum::ExecEnum;
use crate::execution::Execution;
use crate::game::{Game, GameView};
use crate::mark_disconnected::MarkDisconnectedExecution;
use crate::move_warship::MoveWarshipExecution;
use crate::noop::NoOpExecution;
use crate::ordered_tiles::TileRef;
use crate::orders::{
    Order, SpawnExecution, TargetPlayerExecution, TransportShipExecution, UpgradeStructureExecution,
};
use crate::retreat::{BoatRetreatExecution, RetreatExecution};
use crate::state::PlayerInfo;

verus! {

/// How many digits an amount of troops has behind the point.
pub const TROOP_PLACES: usize = 5;

/// A value of `serde_json`. Nothing is known of it but what `members` and `scalar` say.
#[verifier::external_type_specification]
#[verifier::external_body]
pub struct ExValue(Value);

/// What a JSON value is, where it is no object.
pub ghost enum Scalar {
    Bool(bool),
    Text(Seq<char>),
    /// A number: the integer that it is, where it was written as one and fits `i64` or
    /// `u64`, and its digits as a floating point number.
    Number { integer: Option<int>, digits: Seq<char> },
    /// An array, with what its items are.
    List(Seq<Scalar>),
    /// Null or an object.
    Other,
}

/// The members of a JSON object by their names; none where the value is no object.
pub uninterp spec fn members(v: Value) -> Map<Seq<char>, Scalar>;

/// What a JSON value is in itself.
pub uninterp spec fn scalar(v: Value) -> Scalar;

/// `serde_json::Value::get` with a string: the member of that name, where the value is an
/// object that has one.
#[verifier::external_body]
fn member<'a>(v: &'a Value, name: &str) -> (found: Option<&'a Value>)
    ensures
        found is Some == members(*v).dom().contains(name@),
        found is Some ==> scalar(*found->0) == members(*v)[name@],
{
    v.get(name)
}

/// `serde_json::Value::as_bool`: the boolean that the value is, if it is one.
pub assume_specification[ Value::as_bool ](v: &Value) -> (b: Option<bool>)
    ensures
        b == (match scalar(*v) {
            Scalar::Bool(b) => Some(b),
            _ => None,
        }),
;

/// `serde_json::Value::as_u64`: the integer that the value is, if it is one and not negative.
pub assume_specification[ Value::as_u64 ](v: &Value) -> (n: Option<u64>)
    ensures
        n == (match scalar(*v) {
            Scalar::Number { integer: Some(n), .. } => if n >= 0 {
                Some(n as u64)
            } else {
                None
            },
            _ => None,
        }),
;

/// `serde_json::Value::as_i64`: the integer that the value is, if it is one and not too large.
pub assume_specification[ Value::as_i64 ](v: &Value) -> (n: Option<i64>)
    ensures
        n == (match scalar(*v) {
            Scalar::Number { integer: Some(n), .. } => if n <= i64::MAX {
                Some(n as i64)
            } else {
                None
            },
            _ => None,
        }),
;

/// `serde_json::Value::as_array`: the items of the value in order, if it is an array.
pub assume_specification[ Value::as_array ](v: &Value) -> (items: Option<&Vec<Value>>)
    ensures
        items is Some == (scalar(*v) is List),
        items is Some ==> items->0@.len() == scalar(*v)->List_0.len(),
        items is Some ==> forall|i: int|
            0 <= i < items->0@.len() ==> scalar(#[trigger] items->0@[i]) == scalar(
                *v,
            )->List_0[i],
;

/// `serde_json::Value::as_str`: the text that the value is, if it is one.
#[verifier::external_body]
fn text_of(v: &Value) -> (text: Option<String>)
    ensures
        text is Some == (scalar(*v) is Text),
        text is Some ==> text->0@ == scalar(*v)->Text_0,
{
    match v.as_str() {
        Some(s) => Some(s.to_string()),
        None => None,
    }
}

/// `serde_json::Value::as_f64`, with the number written out as `f64`'s `Display` does it:
/// every number has such digits, and nothing else has.
#[verifier::external_body]
fn digits_of(v: &Value) -> (digits: Option<String>)
    ensures
        digits is Some == (scalar(*v) is Number),
        digits is Some ==> digits->0@ == scalar(*v)->digits,
{
    match v.as_f64() {
        Some(x) => Some(format!("{}", x)),
        None => None,
    }
}

/// An order as a client sent it.
pub struct StampedIntent {
    pub client_id: String,
    pub intent_type: String,
    pub fields: Value,
}

/// The flag that an object holds under a name, or what it is by default.
pub open spec fn flag_at(fields: Map<Seq<char>, Scalar>, name: Seq<char>, default: bool) -> bool {
    if fields.dom().contains(name) && fields[name] is Bool {
        fields[name]->Bool_0
    } else {
        default
    }
}

/// The text that an object holds under a name, empty by default.
pub open spec fn text_at(fields: Map<Seq<char>, Scalar>, name: Seq<char>) -> Seq<char> {
    if fields.dom().contains(name) && fields[name] is Text {
        fields[name]->Text_0
    } else {
        Seq::empty()
    }
}

/// The integer that an object holds under a name, if it is one.
pub open spec fn integer_at(fields: Map<Seq<char>, Scalar>, name: Seq<char>) -> Option<int> {
    if fields.dom().contains(name) && fields[name] is Number {
        fields[name]->integer
    } else {
        None
    }
}

/// The number that an object holds under a name, in units of its last place.
pub open spec fn fixed_at(
    fields: Map<Seq<char>, Scalar>,
    name: Seq<char>,
    places: nat,
) -> Option<int> {
    if fields.dom().contains(name) && fields[name] is Number {
        Some(crate::decimal::fixed(fields[name]->digits, places))
    } else {
        None
    }
}

/// The natural number that an object holds under a name, zero by default.
pub open spec fn unsigned_at(fields: Map<Seq<char>, Scalar>, name: Seq<char>) -> u64 {
    match integer_at(fields, name) {
        Some(n) => if n >= 0 {
            n as u64
        } else {
            0
        },
        None => 0,
    }
}

/// The integer that an object holds under a name, zero by default.
pub open spec fn signed_at(fields: Map<Seq<char>, Scalar>, name: Seq<char>) -> i64 {
    match integer_at(fields, name) {
        Some(n) => if n <= i64::MAX {
            n as i64
        } else {
            (n as u64) as i64
        },
        None => 0,
    }
}

/// An integer in 32 bits, where it is one.
pub open spec fn cut_integer(n: int) -> i32 {
    (if n <= i64::MAX {
        n as i64
    } else {
        (n as u64) as i64
    }) as i32
}

/// The integers among items, in order.
pub open spec fn integers_in(items: Seq<Scalar>) -> Seq<i32>
    decreases items.len(),
{
    if items.len() == 0 {
        Seq::empty()
    } else {
        let before = integers_in(items.drop_last());
        match items.last() {
            Scalar::Number { integer: Some(n), .. } => before.push(cut_integer(n)),
            _ => before,
        }
    }
}

/// The integers of the array that an object holds under a name, none by default.
pub open spec fn integers_at(fields: Map<Seq<char>, Scalar>, name: Seq<char>) -> Seq<i32> {
    if fields.dom().contains(name) && fields[name] is List {
        integers_in(fields[name]->List_0)
    } else {
        Seq::empty()
    }
}

/// Whom an emoji is meant for: everybody, or a player.
pub open spec fn emoji_recipient(fields: Map<Seq<char>, Scalar>) -> Option<Seq<char>> {
    if text_at(fields, "recipient"@) == "AllPlayers"@ {
        None
    } else {
        Some(text_at(fields, "recipient"@))
    }
}

/// The gold that an object holds under a name. What is no integer is cut to one.
pub open spec fn gold_at(fields: Map<Seq<char>, Scalar>, name: Seq<char>) -> Option<i64> {
    match integer_at(fields, name) {
        Some(n) => if n <= i64::MAX {
            Some(n as i64)
        } else {
            whole_at(fields, name)
        },
        None => whole_at(fields, name),
    }
}

/// The number that an object holds under a name, cut to an integer.
pub open spec fn whole_at(fields: Map<Seq<char>, Scalar>, name: Seq<char>) -> Option<i64> {
    match fixed_at(fields, name, 0) {
        Some(n) => Some(crate::decimal::saturated(n)),
        None => None,
    }
}

/// The troops that an order names, scaled. An order may name less than none.
pub open spec fn troops_at(fields: Map<Seq<char>, Scalar>) -> Option<int> {
    match fixed_at(fields, "troops"@, TROOP_PLACES as nat) {
        Some(n) => Some(crate::decimal::saturated(n) as int),
        None => None,
    }
}

/// Whether an order starts what it speaks of.
pub open spec fn starts(fields: Map<Seq<char>, Scalar>) -> bool {
    fields.dom().contains("action"@) && fields["action"@] is Text && fields["action"@]->Text_0
        == "start"@
}

/// Whom an attack is meant for: nobody where no player is named.
pub open spec fn target_at(fields: Map<Seq<char>, Scalar>) -> Option<Seq<char>> {
    if fields.dom().contains("targetID"@) && fields["targetID"@] is Text {
        Some(fields["targetID"@]->Text_0)
    } else {
        None
    }
}

impl StampedIntent {
    /// The troops that the order names, none by default.
    pub open spec fn scaled_troops(&self) -> int {
        match troops_at(members(self.fields)) {
            Some(n) => n,
            None => 0,
        }
    }

    /// What the order comes to, but for attacks. Orders of clients that play no player, and
    /// those of kinds that nobody knows, come to nothing.
    pub open spec fn order_in(&self, game: GameView, game_id: Seq<char>) -> Order {
        let fields = members(self.fields);
        match game.by_client(self.client_id@) {
            Some(p) => placed(game, game_id, *self, fields, p),
            None => Order::NoOp,
        }
    }

    /// What the order comes to in a turn.
    pub open spec fn turn_order_in(&self, game: GameView, game_id: Seq<char>) -> Order {
        if self.intent_type@ == "attack"@ {
            match game.by_client(self.client_id@) {
                Some(p) => Order::Attack {
                    owner: p.small_id,
                    target: target_at(members(self.fields)),
                    troops: Some(self.scaled_troops()),
                    source: None,
                },
                None => Order::NoOp,
            }
        } else {
            self.order_in(game, game_id)
        }
    }
}

/// What a player's order comes to.
pub open spec fn placed(
    game: GameView,
    game_id: Seq<char>,
    intent: StampedIntent,
    fields: Map<Seq<char>, Scalar>,
    p: crate::state::Player,
) -> Order {
    let kind = intent.intent_type@;
    let client = intent.client_id@;
    if kind == "spawn"@ {
        Order::Spawn {
            game_id,
            name: p.client_id@,
            player_type: p.player_type,
            client_id: Some(client),
            id: p.id@,
            team: crate::orders::text(p.team),
            tile: Some(unsigned_at(fields, "tile"@) as TileRef),
        }
    } else if kind == "boat"@ {
        Order::TransportShip {
            owner: p.small_id,
            dst: unsigned_at(fields, "dst"@) as TileRef,
            troops: intent.scaled_troops(),
        }
    } else if kind == "cancel_boat"@ {
        Order::BoatRetreat {
            owner: p.small_id,
            unit_id: signed_at(fields, "unitID"@) as i32,
        }
    } else if kind == "mark_disconnected"@ {
        Order::MarkDisconnected {
            small_id: p.small_id,
            disconnected: flag_at(fields, "isDisconnected"@, true),
        }
    } else if kind == "build_unit"@ {
        Order::Construction {
            small_id: p.small_id,
            unit_type: game.config.unit_called(text_at(fields, "unit"@)),
            tile: unsigned_at(fields, "tile"@) as TileRef,
            rocket_direction_up: flag_at(fields, "rocketDirectionUp"@, true),
        }
    } else if kind == "upgrade_structure"@ {
        Order::UpgradeStructure {
            small_id: p.small_id,
            unit_id: signed_at(fields, "unitId"@) as i32,
        }
    } else if kind == "allianceRequest"@ {
        Order::AllianceRequest {
            requestor: p.small_id,
            recipient: text_at(fields, "recipient"@),
        }
    } else if kind == "allianceReject"@ {
        Order::AllianceReject {
            requestor: text_at(fields, "requestor"@),
            recipient: p.small_id,
        }
    } else if kind == "breakAlliance"@ {
        Order::BreakAlliance {
            requestor: p.small_id,
            recipient: text_at(fields, "recipient"@),
        }
    } else if kind == "allianceExtension"@ {
        Order::AllianceExtension {
            from: p.small_id,
            recipient: text_at(fields, "recipient"@),
        }
    } else if kind == "donate_troops"@ {
        Order::DonateTroops {
            sender: p.small_id,
            recipient: text_at(fields, "recipient"@),
            troops: troops_at(fields),
        }
    } else if kind == "donate_gold"@ {
        Order::DonateGold {
            sender: p.small_id,
            recipient: text_at(fields, "recipient"@),
            gold: match gold_at(fields, "gold"@) {
                Some(n) => Some(n as int),
                None => None,
            },
        }
    } else if kind == "embargo"@ {
        Order::Embargo {
            player: p.small_id,
            target: text_at(fields, "targetID"@),
            start: starts(fields),
        }
    } else if kind == "embargo_all"@ {
        Order::EmbargoAll { player: p.small_id, start: starts(fields) }
    } else if kind == "targetPlayer"@ {
        Order::TargetPlayer {
            requestor: p.small_id,
            target: text_at(fields, "target"@),
        }
    } else if kind == "cancel_attack"@ {
        Order::Retreat {
            owner: p.small_id,
            attack_id: text_at(fields, "attackID"@),
        }
    } else if kind == "delete_unit"@ {
        Order::DeleteUnit {
            small_id: p.small_id,
            unit_id: signed_at(fields, "unitId"@) as i32,
        }
    } else if kind == "emoji"@ {
        Order::Emoji {
            requestor: p.small_id,
            recipient: emoji_recipient(fields),
            emoji: signed_at(fields, "emoji"@) as i32,
        }
    } else if kind == "move_warship"@ {
        Order::MoveWarship {
            owner: p.small_id,
            unit_ids: integers_at(fields, "unitIds"@),
            position: unsigned_at(fields, "tile"@) as TileRef,
        }
    } else {
        Order::NoOp
    }
}

fn says(text: &String, word: &str) -> (same: bool)
    ensures
        same == (text@ == word@),
{
    *text == String::from_str(word)
}

fn copy_team(team: &Option<String>) -> (copy: Option<String>)
    ensures
        copy == *team,
{
    match team {
        Some(s) => Some(s.clone()),
        None => None,
    }
}

fn flag_field(fields: &Value, name: &str, default: bool) -> (flag: bool)
    ensures
        flag == flag_at(members(*fields), name@, default),
{
    match member(fields, name) {
        Some(v) => match v.as_bool() {
            Some(b) => b,
            None => default,
        },
        None => default,
    }
}

fn text_field(fields: &Value, name: &str) -> (text: String)
    ensures
        text@ == text_at(members(*fields), name@),
{
    let found: Option<String> = match member(fields, name) {
        Some(v) => text_of(v),
        None => None,
    };
    match found {
        Some(s) => s,
        None => String::new(),
    }
}

fn unsigned_field(fields: &Value, name: &str) -> (n: u64)
    ensures
        n == unsigned_at(members(*fields), name@),
{
    match member(fields, name) {
        Some(v) => match v.as_u64() {
            Some(n) => n,
            None => 0,
        },
        None => 0,
    }
}

fn signed_field(fields: &Value, name: &str) -> (n: i64)
    ensures
        n == signed_at(members(*fields), name@),
{
    match member(fields, name) {
        Some(v) => match v.as_i64() {
            Some(n) => n,
            None => match v.as_u64() {
                Some(n) => #[verifier::truncate] (n as i64),
                None => 0,
            },
        },
        None => 0,
    }
}

/// Reads the integers of an array.
fn integers_field(fields: &Value, name: &str) -> (numbers: Vec<i32>)
    ensures
        numbers@ == integers_at(members(*fields), name@),
{
    let mut numbers: Vec<i32> = Vec::new();
    let items: &Vec<Value> = match member(fields, name) {
        Some(v) => match v.as_array() {
            Some(items) => items,
            None => return numbers,
        },
        None => return numbers,
    };
    let ghost held = members(*fields)[name@]->List_0;
    assert(held.take(0) =~= Seq::empty());
    for i in 0..items.len()
        invariant
            items@.len() == held.len(),
            forall|k: int| 0 <= k < items@.len() ==> scalar(#[trigger] items@[k]) == held[k],
            numbers@ == integers_in(held.take(i as int)),
    {
        assert(held.take(i + 1).drop_last() =~= held.take(i as int));
        let v = &items[i];
        assert(scalar(items@[i as int]) == held[i as int]);
        match v.as_i64() {
            Some(n) => {
                numbers.push(#[verifier::truncate] (n as i32));
            },
            None => match v.as_u64() {
                Some(n) => {
                    numbers.push(#[verifier::truncate] ((n as i64) as i32));
                },
                None => {},
            },
        }
    }
    assert(held.take(items.len() as int) =~= held);
    numbers
}

/// Reads a number, in units of its last place.
fn fixed_field(fields: &Value, name: &str, places: usize) -> (n: Option<i64>)
    ensures
        n == (match fixed_at(members(*fields), name@, places as nat) {
            Some(n) => Some(crate::decimal::saturated(n)),
            None => None,
        }),
{
    let digits: Option<String> = match member(fields, name) {
        Some(v) => digits_of(v),
        None => None,
    };
    match digits {
        Some(digits) => Some(parse_fixed(&digits, places)),
        None => None,
    }
}

fn gold_field(fields: &Value, name: &str) -> (gold: Option<i64>)
    ensures
        gold == gold_at(members(*fields), name@),
{
    let whole: Option<i64> = match member(fields, name) {
        Some(v) => v.as_i64(),
        None => None,
    };
    match whole {
        Some(n) => Some(n),
        None => fixed_field(fields, name, 0),
    }
}

fn troops_field(fields: &Value) -> (troops: Option<i64>)
    ensures
        troops is Some == troops_at(members(*fields)) is Some,
        troops is Some ==> troops->0 == troops_at(members(*fields))->0,
{
    fixed_field(fields, "troops", TROOP_PLACES)
}

fn is_start(fields: &Value) -> (start: bool)
    ensures
        start == starts(members(*fields)),
{
    let action: Option<String> = match member(fields, "action") {
        Some(v) => text_of(v),
        None => None,
    };
    match action {
        Some(action) => says(&action, "start"),
        None => false,
    }
}

fn parse_troops(intent: &StampedIntent) -> (troops: i64)
    ensures
        troops == intent.scaled_troops(),
{
    match troops_field(&intent.fields) {
        Some(n) => n,
        None => 0,
    }
}

fn parse_target_id(fields: &Value) -> (target: Option<String>)
    ensures
        crate::orders::text(target) == target_at(members(*fields)),
{
    match member(fields, "targetID") {
        Some(v) => text_of(v),
        None => None,
    }
}

/// The execution that a player's order comes to.
pub fn intent_to_execution(game: &Game, game_id: &String, intent: &StampedIntent) -> (execution:
    ExecEnum)
    requires
        game@.wf(),
    ensures
        execution.order() == intent.order_in(game@, game_id@),
        execution.is_fresh(),
        execution.ready(game@),
{
    reveal(crate::exec_enum::fits);
    let p = match game.player_by_client_id(&intent.client_id) {
        Some(p) => p,
        None => {
            return ExecEnum::NoOp(NoOpExecution);
        },
    };
    let sid: u16 = p.small_id;
    let fields = &intent.fields;
    let kind = &intent.intent_type;
    if says(kind, "spawn") {
        let info = PlayerInfo {
            name: p.client_id.clone(),
            player_type: p.player_type,
            client_id: Some(intent.client_id.clone()),
            id: p.id.clone(),
            team: copy_team(&p.team),
        };
        let tile: TileRef = #[verifier::truncate] (unsigned_field(fields, "tile") as TileRef);
        ExecEnum::Spawn(SpawnExecution::new(game_id.clone(), info, Some(tile)))
    } else if says(kind, "boat") {
        let dst: TileRef = #[verifier::truncate] (unsigned_field(fields, "dst") as TileRef);
        ExecEnum::TransportShip(TransportShipExecution::new(sid, dst, parse_troops(intent)))
    } else if says(kind, "cancel_boat") {
        let unit_id: i32 = #[verifier::truncate] (signed_field(fields, "unitID") as i32);
        ExecEnum::BoatRetreat(BoatRetreatExecution::new(sid, unit_id))
    } else if says(kind, "mark_disconnected") {
        let disconnected: bool = flag_field(fields, "isDisconnected", true);
        ExecEnum::MarkDisconnected(MarkDisconnectedExecution::new(sid, disconnected))
    } else if says(kind, "build_unit") {
        let tile: TileRef = #[verifier::truncate] (unsigned_field(fields, "tile") as TileRef);
        let unit_type = game.wire.unit_by_name(&text_field(fields, "unit"));
        let up: bool = flag_field(fields, "rocketDirectionUp", true);
        ExecEnum::Construction(ConstructionExecution::new(sid, unit_type, tile, up))
    } else if says(kind, "upgrade_structure") {
        let unit_id: i32 = #[verifier::truncate] (signed_field(fields, "unitId") as i32);
        ExecEnum::UpgradeStructure(UpgradeStructureExecution::new(sid, unit_id))
    } else if says(kind, "allianceRequest") {
        let recipient = text_field(fields, "recipient");
        ExecEnum::AllianceRequest(AllianceRequestExecution::new(sid, recipient))
    } else if says(kind, "allianceReject") {
        let requestor = text_field(fields, "requestor");
        ExecEnum::AllianceReject(AllianceRejectExecution::new(requestor, sid))
    } else if says(kind, "breakAlliance") {
        let recipient = text_field(fields, "recipient");
        ExecEnum::BreakAlliance(BreakAllianceExecution::new(sid, recipient))
    } else if says(kind, "allianceExtension") {
        let recipient = text_field(fields, "recipient");
        ExecEnum::AllianceExtension(AllianceExtensionExecution::new(sid, recipient))
    } else if says(kind, "donate_troops") {
        let recipient = text_field(fields, "recipient");
        ExecEnum::DonateTroops(DonateTroopsExecution::new(sid, recipient, troops_field(fields)))
    } else if says(kind, "donate_gold") {
        let recipient = text_field(fields, "recipient");
        let gold: Option<i64> = gold_field(fields, "gold");
        ExecEnum::DonateGold(DonateGoldExecution::new(sid, recipient, gold))
    } else if says(kind, "embargo") {
        let target = text_field(fields, "targetID");
        ExecEnum::Embargo(EmbargoExecution::new(sid, target, is_start(fields)))
    } else if says(kind, "embargo_all") {
        ExecEnum::EmbargoAll(EmbargoAllExecution::new(sid, is_start(fields)))
    } else if says(kind, "targetPlayer") {
        let target = text_field(fields, "target");
        ExecEnum::TargetPlayer(TargetPlayerExecution::new(sid, target))
    } else if says(kind, "cancel_attack") {
        let attack_id = text_field(fields, "attackID");
        ExecEnum::Retreat(RetreatExecution::new(sid, attack_id))
    } else if says(kind, "delete_unit") {
        let unit_id: i32 = #[verifier::truncate] (signed_field(fields, "unitId") as i32);
        ExecEnum::DeleteUnit(DeleteUnitExecution::new(sid, unit_id))
    } else if says(kind, "emoji") {
        let recipient = text_field(fields, "recipient");
        let emoji: i32 = #[verifier::truncate] (signed_field(fields, "emoji") as i32);
        let recipient_id: Option<String> = if says(&recipient, "AllPlayers") {
            None
        } else {
            Some(recipient)
        };
        ExecEnum::Emoji(EmojiExecution::new(sid, recipient_id, emoji))
    } else if says(kind, "move_warship") {
        let position: TileRef = #[verifier::truncate] (unsigned_field(fields, "tile") as TileRef);
        let unit_ids = integers_field(fields, "unitIds");
        ExecEnum::MoveWarship(MoveWarshipExecution::new(sid, unit_ids, position))
    } else {
        ExecEnum::NoOp(NoOpExecution)
    }
}

impl AttackExecution {
    /// What an attack that a client ordered is created with, where the client plays.
    pub fn from_intent(
        client_id: &String,
        game: &Game,
        troops: i64,
        target_player_id: Option<String>,
    ) -> (parts: Option<(u16, Option<String>, Option<i64>)>)
        requires
            game@.wf(),
        ensures
            parts == (match game@.by_client(client_id@) {
                Some(p) => Some((p.small_id, target_player_id, Some(troops))),
                None => None,
            }),
    {
        match game.player_by_client_id(client_id) {
            Some(p) => Some((p.small_id, target_player_id, Some(troops))),
            None => None,
        }
    }
}

/// The executions that a turn's orders come to, in order.
pub fn turn_to_executions(game: &Game, game_id: &String, intents: &Vec<StampedIntent>) -> (out: Vec<
    ExecEnum,
>)
    requires
        game@.wf(),
    ensures
        out@.len() == intents@.len(),
        forall|i: int|
            0 <= i < out@.len() ==> (#[trigger] out@[i]).order() == intents@[i].turn_order_in(
                game@,
                game_id@,
            ) && out@[i].is_fresh() && out@[i].ready(game@),
{
    let mut out: Vec<ExecEnum> = Vec::new();
    for k in 0..intents.len()
        invariant
            game@.wf(),
            out@.len() == k,
            forall|i: int|
                0 <= i < k ==> (#[trigger] out@[i]).order() == intents@[i].turn_order_in(
                    game@,
                    game_id@,
                ) && out@[i].is_fresh() && out@[i].ready(game@),
    {
        reveal(crate::exec_enum::fits);
        let intent = &intents[k];
        if says(&intent.intent_type, "attack") {
            let target = parse_target_id(&intent.fields);
            let troops: i64 = parse_troops(intent);
            match AttackExecution::from_intent(&intent.client_id, game, troops, target) {
                Some((owner, target, troops)) => {
                    out.push(ExecEnum::Attack(AttackExecution::new(owner, target, troops)));
                },
                None => {
                    out.push(ExecEnum::NoOp(NoOpExecution));
                },
            }
        } else {
            out.push(intent_to_execution(game, game_id, intent));
        }
    }
    out
}

} // verus!
