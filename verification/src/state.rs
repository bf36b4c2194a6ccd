//! The records that a game is made of.

use vstd::prelude::*;

use crate::config::{MAX_GOLD, MAX_LEVEL, MAX_PRICE, MAX_TROOPS_LIMIT};
use crate::ordered_tiles::TileRef;
use crate::prng::PseudoRandom;
use crate::unit_type::UnitType;

verus! {

/// The most troops that a player can hold.
pub const MAX_TROOPS: i64 = 2_147_483_647;

/// The largest attack, in scaled troops: over four hundred times what a player can hold, and
/// as much as still lets the troops of any number of attacks be added up.
pub const MAX_ATTACK: i64 = 90_000_000_000_000_000;

#[derive(Clone, Copy, Debug, PartialEq, Eq, Structural)]
pub enum PlayerType {
    Human,
    Nation,
    Bot,
}

/// How one player regards another, from worst to best.
#[derive(Clone, Copy, Debug, PartialEq, Eq, Structural)]
pub enum Relation {
    Hostile,
    Distrustful,
    Neutral,
    Friendly,
}

impl Relation {
    /// The relation's place in the order from worst to best.
    pub open spec fn rank(self) -> int {
        match self {
            Relation::Hostile => 0,
            Relation::Distrustful => 1,
            Relation::Neutral => 2,
            Relation::Friendly => 3,
        }
    }

    /// The relation that a value stands for.
    pub open spec fn of_value(value: int) -> Relation {
        if value < -50 * RELATION_SCALE {
            Relation::Hostile
        } else if value < 0 {
            Relation::Distrustful
        } else if value < 50 * RELATION_SCALE {
            Relation::Neutral
        } else {
            Relation::Friendly
        }
    }

    pub fn from_value(value: i32) -> (relation: Relation)
        ensures
            relation == Relation::of_value(value as int),
    {
        if value < -5000 {
            Relation::Hostile
        } else if value < 0 {
            Relation::Distrustful
        } else if value < 5000 {
            Relation::Neutral
        } else {
            Relation::Friendly
        }
    }

    pub fn is_at_least(self, other: Relation) -> (at_least: bool)
        ensures
            at_least == (self.rank() >= other.rank()),
    {
        match other {
            Relation::Hostile => true,
            Relation::Distrustful => self != Relation::Hostile,
            Relation::Neutral => self == Relation::Neutral || self == Relation::Friendly,
            Relation::Friendly => self == Relation::Friendly,
        }
    }
}

/// Parts of a relation point that relation values are counted in.
pub const RELATION_SCALE: i32 = 100;

/// The best relation value; its negation is the worst.
pub const RELATION_LIMIT: i32 = 10_000;

/// What a player pays for its next unit of each kind.
#[derive(Clone, Copy, Debug, PartialEq, Eq, Structural)]
pub struct UnitCosts {
    pub city: i64,
    pub port: i64,
    pub factory: i64,
    pub defense_post: i64,
    pub missile_silo: i64,
    pub sam_launcher: i64,
    pub atom_bomb: i64,
    pub hydrogen_bomb: i64,
    pub mirv: i64,
    pub warship: i64,
}

impl UnitCosts {
    pub open spec fn wf(self) -> bool {
        &&& 0 <= self.city <= MAX_PRICE
        &&& 0 <= self.port <= MAX_PRICE
        &&& 0 <= self.factory <= MAX_PRICE
        &&& 0 <= self.defense_post <= MAX_PRICE
        &&& 0 <= self.missile_silo <= MAX_PRICE
        &&& 0 <= self.sam_launcher <= MAX_PRICE
        &&& 0 <= self.atom_bomb <= MAX_PRICE
        &&& 0 <= self.hydrogen_bomb <= MAX_PRICE
        &&& 0 <= self.mirv <= MAX_PRICE
        &&& 0 <= self.warship <= MAX_PRICE
    }

    pub open spec fn price(self, unit: UnitType) -> i64 {
        match unit {
            UnitType::City => self.city,
            UnitType::Port => self.port,
            UnitType::Factory => self.factory,
            UnitType::DefensePost => self.defense_post,
            UnitType::MissileSilo => self.missile_silo,
            UnitType::SamLauncher => self.sam_launcher,
            UnitType::AtomBomb => self.atom_bomb,
            UnitType::HydrogenBomb => self.hydrogen_bomb,
            UnitType::Mirv => self.mirv,
            UnitType::Warship => self.warship,
            _ => 0,
        }
    }

    pub fn of(self, unit: UnitType) -> (price: i64)
        ensures
            price == self.price(unit),
            self.wf() ==> 0 <= price <= MAX_PRICE,
    {
        match unit {
            UnitType::City => self.city,
            UnitType::Port => self.port,
            UnitType::Factory => self.factory,
            UnitType::DefensePost => self.defense_post,
            UnitType::MissileSilo => self.missile_silo,
            UnitType::SamLauncher => self.sam_launcher,
            UnitType::AtomBomb => self.atom_bomb,
            UnitType::HydrogenBomb => self.hydrogen_bomb,
            UnitType::Mirv => self.mirv,
            UnitType::Warship => self.warship,
            _ => 0,
        }
    }
}

/// A player. `max_troops_milli`, `troop_rate` and `costs` are what the engine works out
/// for the player each tick.
pub struct Player {
    pub id: String,
    pub name: String,
    pub client_id: String,
    pub small_id: u16,
    pub player_type: PlayerType,
    pub team: Option<String>,
    pub troops: i64,
    pub gold: i64,
    pub tiles_owned: i64,
    pub alive: bool,
    pub is_disconnected: bool,
    pub traitor: bool,
    pub spawn_tile: Option<TileRef>,
    pub last_cluster_calc: u32,
    pub last_tile_change: u32,
    pub last_delete_tick: Option<u32>,
    pub last_embargo_all_tick: Option<u32>,
    pub doomsday_since: Option<u32>,
    pub id_prng: PseudoRandom,
    /// The troop limit, in thousandths of a troop.
    pub max_troops_milli: i64,
    /// The troops that come in each tick, scaled; negative above the limit.
    pub troop_rate: i64,
    pub costs: UnitCosts,
    /// All troops ever sent to attack, scaled.
    pub attacks_sent: i64,
}

impl Player {
    pub open spec fn wf(&self) -> bool {
        &&& 0 <= self.troops <= MAX_TROOPS
        &&& 0 <= self.gold <= MAX_GOLD
        &&& 0 <= self.tiles_owned <= 0xfffe_0001
        &&& 0 <= self.max_troops_milli <= MAX_TROOPS_LIMIT
        &&& -MAX_ATTACK <= self.troop_rate <= MAX_ATTACK
        &&& self.costs.wf()
    }

    /// Whether the player has just come: it has nothing, and pays what a first unit costs.
    pub open spec fn is_new(&self) -> bool {
        &&& self.small_id == 0
        &&& self.troops == 0
        &&& self.gold == 0
        &&& self.tiles_owned == 0
        &&& self.alive
        &&& !self.is_disconnected
        &&& !self.traitor
        &&& self.spawn_tile is None
        &&& self.last_cluster_calc == 0
        &&& self.last_tile_change == 0
        &&& self.last_delete_tick is None
        &&& self.last_embargo_all_tick is None
        &&& self.doomsday_since is None
        &&& self.id_prng.state == crate::prng::seed_state(0)
        &&& self.max_troops_milli == 100_000_000
        &&& self.troop_rate == 0
        &&& self.costs == (UnitCosts {
            city: 125_000,
            port: 125_000,
            factory: 125_000,
            defense_post: 50_000,
            missile_silo: 1_000_000,
            sam_launcher: 1_500_000,
            atom_bomb: 750_000,
            hydrogen_bomb: 5_000_000,
            mirv: 25_000_000,
            warship: 250_000,
        })
        &&& self.attacks_sent == 0
    }
}

/// The same team, where both have one.
pub open spec fn same_team(a: Option<String>, b: Option<String>) -> bool {
    a is Some && b is Some && a->0@ == b->0@
}

pub fn is_same_team(a: &Option<String>, b: &Option<String>) -> (same: bool)
    ensures
        same == same_team(*a, *b),
{
    match (a, b) {
        (Some(x), Some(y)) => *x == *y,
        _ => false,
    }
}

impl Default for Player {
    fn default() -> (player: Self)
        ensures
            player.wf(),
            player.is_new(),
            player.id@ == Seq::<char>::empty(),
            player.name@ == Seq::<char>::empty(),
            player.client_id@ == Seq::<char>::empty(),
            player.player_type == PlayerType::Human,
            player.team is None,
    {
        Player {
            id: String::new(),
            name: String::new(),
            client_id: String::new(),
            small_id: 0,
            player_type: PlayerType::Human,
            team: None,
            troops: 0,
            gold: 0,
            tiles_owned: 0,
            alive: true,
            is_disconnected: false,
            traitor: false,
            spawn_tile: None,
            last_cluster_calc: 0,
            last_tile_change: 0,
            last_delete_tick: None,
            last_embargo_all_tick: None,
            doomsday_since: None,
            id_prng: PseudoRandom::new(0),
            max_troops_milli: 100_000_000,
            troop_rate: 0,
            costs: UnitCosts {
                city: 125_000,
                port: 125_000,
                factory: 125_000,
                defense_post: 50_000,
                missile_silo: 1_000_000,
                sam_launcher: 1_500_000,
                atom_bomb: 750_000,
                hydrogen_bomb: 5_000_000,
                mirv: 25_000_000,
                warship: 250_000,
            },
            attacks_sent: 0,
        }
    }
}

/// Who a new player is.
pub struct PlayerInfo {
    pub name: String,
    pub player_type: PlayerType,
    pub client_id: Option<String>,
    pub id: String,
    pub team: Option<String>,
}

/// A unit of a player.
#[derive(Clone, Copy, Debug, PartialEq, Eq, Structural)]
pub struct Unit {
    pub id: i32,
    pub owner: u16,
    pub unit_type: UnitType,
    pub tile: TileRef,
    pub level: i32,
    pub under_construction: bool,
    pub target_tile: Option<TileRef>,
    pub targetable: bool,
    pub has_train_station: bool,
    /// The rail cluster that the unit's station belongs to.
    pub rail_cluster: Option<u32>,
    pub health: i64,
    pub troops: i64,
    pub retreating: bool,
    /// The tick after which the unit is to be deleted.
    pub deletion_tick: Option<u32>,
    pub trajectory_index: u32,
}

impl Unit {
    pub open spec fn wf(&self) -> bool {
        &&& 0 <= self.level <= MAX_LEVEL
        &&& 0 <= self.health <= 1_000_000
    }
}

/// A missile that a unit launched, and when.
#[derive(Clone, Copy, Debug, PartialEq, Eq, Structural)]
pub struct Launch {
    pub unit_id: i32,
    pub tick: u32,
}

/// How `from` regards `to`.
#[derive(Clone, Copy, Debug, PartialEq, Eq, Structural)]
pub struct RelationEntry {
    pub from: u16,
    pub to: u16,
    pub value: i32,
}

#[derive(Clone, Copy, Debug, PartialEq, Eq, Structural)]
pub struct Alliance {
    pub requestor: u16,
    pub recipient: u16,
    pub expires_at: u64,
    pub requestor_extends: bool,
    pub recipient_extends: bool,
}

impl Alliance {
    pub open spec fn joins(self, a: u16, b: u16) -> bool {
        (self.requestor == a && self.recipient == b) || (self.requestor == b && self.recipient == a)
    }

    pub fn is_between(&self, a: u16, b: u16) -> (between: bool)
        ensures
            between == self.joins(a, b),
    {
        (self.requestor == a && self.recipient == b) || (self.requestor == b && self.recipient == a)
    }

    pub open spec fn involves(self, a: u16) -> bool {
        self.requestor == a || self.recipient == a
    }

    /// The partner of `a`.
    pub open spec fn other(self, a: u16) -> u16 {
        if self.requestor == a {
            self.recipient
        } else {
            self.requestor
        }
    }
}

#[derive(Clone, Copy, Debug, PartialEq, Eq, Structural)]
pub enum AllianceRequestStatus {
    Pending,
    Accepted,
    Rejected,
}

#[derive(Clone, Copy, Debug, PartialEq, Eq, Structural)]
pub struct AllianceRequest {
    pub requestor_small_id: u16,
    pub recipient_small_id: u16,
    pub created_at: u32,
    pub status: AllianceRequestStatus,
}

impl AllianceRequest {
    /// A request from `a` to `b` that waits for an answer.
    pub open spec fn pends(self, a: u16, b: u16) -> bool {
        self.requestor_small_id == a && self.recipient_small_id == b && self.status
            == AllianceRequestStatus::Pending
    }
}

#[derive(Clone, Copy, Debug, PartialEq, Eq, Structural)]
pub struct Embargo {
    pub from: u16,
    pub to: u16,
    pub temporary: bool,
    pub created_at: u32,
}

/// An attack over land that is under way.
pub struct LandAttack {
    pub id: String,
    pub attacker: u16,
    pub target: u16,
    /// The attack's troops, scaled.
    pub troops: i64,
    pub from_sea: bool,
    pub retreating: bool,
    pub retreated: bool,
}

/// An attack as contracts see it.
#[verifier::ext_equal]
pub struct LandAttackView {
    pub id: Seq<char>,
    pub attacker: u16,
    pub target: u16,
    pub troops: i64,
    pub from_sea: bool,
    pub retreating: bool,
    pub retreated: bool,
}

impl LandAttackView {
    pub open spec fn wf(self) -> bool {
        -MAX_ATTACK <= self.troops <= MAX_ATTACK
    }
}

impl View for LandAttack {
    type V = LandAttackView;

    open spec fn view(&self) -> LandAttackView {
        LandAttackView {
            id: self.id@,
            attacker: self.attacker,
            target: self.target,
            troops: self.troops,
            from_sea: self.from_sea,
            retreating: self.retreating,
            retreated: self.retreated,
        }
    }
}

/// An emoji that was sent, to one player or to all.
#[derive(Clone, Copy, Debug, PartialEq, Eq, Structural)]
pub struct EmojiSend {
    pub sender: u16,
    pub recipient: Option<u16>,
    pub tick: u32,
}

/// A player whom another asked its allies to attack.
#[derive(Clone, Copy, Debug, PartialEq, Eq, Structural)]
pub struct TargetMark {
    pub from: u16,
    pub target: u16,
}

/// A transport ship that a nuke destroyed.
#[derive(Clone, Copy, Debug, PartialEq, Eq, Structural)]
pub struct TransportKill {
    pub unit_id: i32,
    pub owner: u16,
    pub killer: u16,
    pub tile: TileRef,
}

/// When a player was last hit by a MIRV.
#[derive(Clone, Copy, Debug, PartialEq, Eq, Structural)]
pub struct MirvHit {
    pub target: u16,
    pub tick: u32,
}

/// The tiles that a missile passes, and on which of them it can be shot down.
pub struct Flight {
    pub unit_id: i32,
    pub tiles: Vec<TileRef>,
    pub targetable: Vec<bool>,
}

/// A flight as contracts see it.
#[verifier::ext_equal]
pub struct FlightView {
    pub unit_id: i32,
    pub tiles: Seq<TileRef>,
    pub targetable: Seq<bool>,
}

impl View for Flight {
    type V = FlightView;

    open spec fn view(&self) -> FlightView {
        FlightView {
            unit_id: self.unit_id,
            tiles: self.tiles@,
            targetable: self.targetable@,
        }
    }
}

/// The bodies of water on which a player can trade.
pub struct SharedWater {
    pub small_id: u16,
    pub components: Vec<u32>,
}

/// The bodies of water on which a player can trade, as contracts see them.
#[verifier::ext_equal]
pub struct SharedWaterView {
    pub small_id: u16,
    pub components: Seq<u32>,
}

impl View for SharedWater {
    type V = SharedWaterView;

    open spec fn view(&self) -> SharedWaterView {
        SharedWaterView { small_id: self.small_id, components: self.components@ }
    }
}

} // verus!
