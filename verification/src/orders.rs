//! What executions ask the engine to do.

use vstd::prelude::*;

use crate::ordered_tiles::TileRef;
use crate::state::{PlayerInfo, PlayerType};
use crate::unit_type::UnitType;

verus! {

/// An execution as it was ordered: its kind and what it was created with.
#[allow(inconsistent_fields)]
pub enum Order {
    NoOp,
    Attack { owner: u16, target: Option<Seq<char>>, troops: Option<int>, source: Option<TileRef> },
    TransportShip { owner: u16, dst: TileRef, troops: int },
    BoatRetreat { owner: u16, unit_id: i32 },
    Retreat { owner: u16, attack_id: Seq<char> },
    MarkDisconnected { small_id: u16, disconnected: bool },
    Construction { small_id: u16, unit_type: UnitType, tile: TileRef, rocket_direction_up: bool },
    City { small_id: u16, unit_id: i32 },
    DefensePost { small_id: u16, unit_id: i32 },
    Port { small_id: u16, unit_id: i32 },
    Factory { small_id: u16, unit_id: i32 },
    MissileSilo { small_id: u16, unit_id: i32 },
    SamLauncher { small_id: u16, unit_id: i32 },
    TrainStation { small_id: u16, unit_id: i32, spawns_trains: bool },
    TradeShip { small_id: u16, src_unit_id: i32, dst_unit_id: i32 },
    Warship { small_id: u16, tile: TileRef },
    UpgradeStructure { small_id: u16, unit_id: i32 },
    Nuke {
        nuke_type: UnitType,
        owner: u16,
        dst: TileRef,
        src: Option<TileRef>,
        speed: Option<u32>,
        wait_ticks: u32,
        rocket_direction_up: bool,
    },
    Mirv { owner: u16, dst: TileRef },
    AllianceRequest { requestor: u16, recipient: Seq<char> },
    AllianceReject { requestor: Seq<char>, recipient: u16 },
    BreakAlliance { requestor: u16, recipient: Seq<char> },
    AllianceExtension { from: u16, recipient: Seq<char> },
    DonateTroops { sender: u16, recipient: Seq<char>, troops: Option<int> },
    DonateGold { sender: u16, recipient: Seq<char>, gold: Option<int> },
    Embargo { player: u16, target: Seq<char>, start: bool },
    EmbargoAll { player: u16, start: bool },
    Emoji { requestor: u16, recipient: Option<Seq<char>>, emoji: i32 },
    TargetPlayer { requestor: u16, target: Seq<char> },
    MoveWarship { owner: u16, unit_ids: Seq<i32>, position: TileRef },
    DeleteUnit { small_id: u16, unit_id: i32 },
    Spawn {
        game_id: Seq<char>,
        name: Seq<char>,
        player_type: PlayerType,
        client_id: Option<Seq<char>>,
        id: Seq<char>,
        team: Option<Seq<char>>,
        tile: Option<TileRef>,
    },
    Player { small_id: u16 },
    Nation { game_id: Seq<char>, id: Seq<char> },
    DoomsdayClock,
    RecomputeRailCluster,
}

/// The text of an optional string.
pub open spec fn text(s: Option<String>) -> Option<Seq<char>> {
    match s {
        Some(s) => Some(s@),
        None => None,
    }
}

/// A train station that a structure opens.
pub struct TrainStationExecution {
    pub small_id: u16,
    pub unit_id: i32,
    pub spawns_trains: bool,
}

impl TrainStationExecution {
    pub fn new(small_id: u16, unit_id: i32, spawns_trains: bool) -> (order: Self)
        ensures
            order.small_id == small_id,
            order.unit_id == unit_id,
            order.spawns_trains == spawns_trains,
    {
        TrainStationExecution { small_id, unit_id, spawns_trains }
    }
}

/// A SAM launcher that guards its surroundings.
pub struct SamLauncherExecution {
    pub small_id: u16,
    pub unit_id: i32,
}

impl SamLauncherExecution {
    pub fn new(small_id: u16, unit_id: i32) -> (order: Self)
        ensures
            order.small_id == small_id,
            order.unit_id == unit_id,
    {
        SamLauncherExecution { small_id, unit_id }
    }
}

/// A trade ship on its way between two ports.
pub struct TradeShipExecution {
    pub small_id: u16,
    pub src_unit_id: i32,
    pub dst_unit_id: i32,
}

impl TradeShipExecution {
    pub fn new(small_id: u16, src_unit_id: i32, dst_unit_id: i32) -> (order: Self)
        ensures
            order.small_id == small_id,
            order.src_unit_id == src_unit_id,
            order.dst_unit_id == dst_unit_id,
    {
        TradeShipExecution { small_id, src_unit_id, dst_unit_id }
    }
}

/// A boat that carries troops to a shore.
pub struct TransportShipExecution {
    pub owner_small_id: u16,
    pub dst: TileRef,
    /// The troops on board, scaled.
    pub troops: i64,
}

impl TransportShipExecution {
    pub fn new(owner_small_id: u16, dst: TileRef, troops: i64) -> (order: Self)
        ensures
            order.owner_small_id == owner_small_id,
            order.dst == dst,
            order.troops == troops,
    {
        TransportShipExecution { owner_small_id, dst, troops }
    }
}

/// A warship on patrol.
pub struct WarshipExecution {
    pub small_id: u16,
    pub tile: TileRef,
}

impl WarshipExecution {
    pub fn new(small_id: u16, tile: TileRef) -> (order: Self)
        ensures
            order.small_id == small_id,
            order.tile == tile,
    {
        WarshipExecution { small_id, tile }
    }
}

/// A structure that is raised by one level.
pub struct UpgradeStructureExecution {
    pub small_id: u16,
    pub unit_id: i32,
}

impl UpgradeStructureExecution {
    pub fn new(small_id: u16, unit_id: i32) -> (order: Self)
        ensures
            order.small_id == small_id,
            order.unit_id == unit_id,
    {
        UpgradeStructureExecution { small_id, unit_id }
    }
}

/// A player that takes its place on the map.
pub struct SpawnExecution {
    pub game_id: String,
    pub info: PlayerInfo,
    pub tile: Option<TileRef>,
}

impl SpawnExecution {
    pub fn new(game_id: String, info: PlayerInfo, tile: Option<TileRef>) -> (order: Self)
        ensures
            order.game_id == game_id,
            order.info == info,
            order.tile == tile,
    {
        SpawnExecution { game_id, info, tile }
    }
}

/// A player that asks its allies to attack another.
pub struct TargetPlayerExecution {
    pub requestor_small_id: u16,
    pub target_id: String,
}

impl TargetPlayerExecution {
    pub fn new(requestor_small_id: u16, target_id: String) -> (order: Self)
        ensures
            order.requestor_small_id == requestor_small_id,
            order.target_id == target_id,
    {
        TargetPlayerExecution { requestor_small_id, target_id }
    }
}

} // verus!
