//! Every kind of execution under one type.

use vstd::prelude::*;

use crate::alliance_exec::{
    AllianceExtensionExecution, AllianceRejectExecution, AllianceRequestExecution,
    BreakAllianceExecution,
};
use crate::attack::AttackExecution;
use crate::city_execution::CityExecution;
use crate::construction::ConstructionExecution;
use crate::decimal::decimal_of;
use crate::defense_post_execution::DefensePostExecution;
use crate::delete_unit::DeleteUnitExecution;
use crate::donate::DonateTroopsExecution;
use crate::donate_gold::DonateGoldExecution;
use crate::doomsday_clock_execution::DoomsdayClockExecution;
use crate::embargo_exec::{EmbargoAllExecution, EmbargoExecution};
use crate::emoji_execution::EmojiExecution;
use crate::execution::Execution;
use crate::factory_execution::FactoryExecution;
use crate::game::{Game, GameView};
use crate::mark_disconnected::MarkDisconnectedExecution;
use crate::mirv_execution::MirvExecution;
use crate::missile_silo_execution::MissileSiloExecution;
use crate::move_warship::MoveWarshipExecution;
use crate::nation::NationExecution;
use crate::noop::NoOpExecution;
use crate::nuke_execution::NukeExecution;
use crate::player::PlayerExecution;
use crate::port_execution::PortExecution;
use crate::recompute_rail_cluster::RecomputeRailClusterExecution;
use crate::retreat::{BoatRetreatExecution, RetreatExecution};
use crate::orders::{
    Order, SamLauncherExecution, SpawnExecution, TargetPlayerExecution, TradeShipExecution,
    TrainStationExecution, TransportShipExecution, UpgradeStructureExecution, WarshipExecution,
};

verus! {

/// An execution of any kind.
pub enum ExecEnum {
    NoOp(NoOpExecution),
    Attack(AttackExecution),
    TransportShip(TransportShipExecution),
    BoatRetreat(BoatRetreatExecution),
    Retreat(RetreatExecution),
    MarkDisconnected(MarkDisconnectedExecution),
    Construction(ConstructionExecution),
    City(CityExecution),
    DefensePost(DefensePostExecution),
    Port(PortExecution),
    Factory(FactoryExecution),
    MissileSilo(MissileSiloExecution),
    SamLauncher(SamLauncherExecution),
    TrainStation(TrainStationExecution),
    TradeShip(TradeShipExecution),
    Warship(WarshipExecution),
    UpgradeStructure(UpgradeStructureExecution),
    Nuke(NukeExecution),
    Mirv(MirvExecution),
    AllianceRequest(AllianceRequestExecution),
    AllianceReject(AllianceRejectExecution),
    BreakAlliance(BreakAllianceExecution),
    AllianceExtension(AllianceExtensionExecution),
    DonateTroops(DonateTroopsExecution),
    DonateGold(DonateGoldExecution),
    Embargo(EmbargoExecution),
    EmbargoAll(EmbargoAllExecution),
    Emoji(EmojiExecution),
    TargetPlayer(TargetPlayerExecution),
    MoveWarship(MoveWarshipExecution),
    DeleteUnit(DeleteUnitExecution),
    Spawn(SpawnExecution),
    Player(PlayerExecution),
    Nation(NationExecution),
    DoomsdayClock(DoomsdayClockExecution),
    RecomputeRailCluster(RecomputeRailClusterExecution),
}

impl ExecEnum {
    /// The order that the execution was created from.
    pub open spec fn order(&self) -> Order {
        match self {
            ExecEnum::NoOp(e) => e.order(),
            ExecEnum::Attack(e) => e.order(),
            ExecEnum::TransportShip(e) => Order::TransportShip {
                owner: e.owner_small_id,
                dst: e.dst,
                troops: e.troops as int,
            },
            ExecEnum::BoatRetreat(e) => e.order(),
            ExecEnum::Retreat(e) => e.order(),
            ExecEnum::MarkDisconnected(e) => e.order(),
            ExecEnum::Construction(e) => e.order(),
            ExecEnum::City(e) => e.order(),
            ExecEnum::DefensePost(e) => e.order(),
            ExecEnum::Port(e) => e.order(),
            ExecEnum::Factory(e) => e.order(),
            ExecEnum::MissileSilo(e) => e.order(),
            ExecEnum::SamLauncher(e) => Order::SamLauncher {
                small_id: e.small_id,
                unit_id: e.unit_id,
            },
            ExecEnum::TrainStation(e) => Order::TrainStation {
                small_id: e.small_id,
                unit_id: e.unit_id,
                spawns_trains: e.spawns_trains,
            },
            ExecEnum::TradeShip(e) => Order::TradeShip {
                small_id: e.small_id,
                src_unit_id: e.src_unit_id,
                dst_unit_id: e.dst_unit_id,
            },
            ExecEnum::Warship(e) => Order::Warship { small_id: e.small_id, tile: e.tile },
            ExecEnum::UpgradeStructure(e) => Order::UpgradeStructure {
                small_id: e.small_id,
                unit_id: e.unit_id,
            },
            ExecEnum::Nuke(e) => e.order(),
            ExecEnum::Mirv(e) => e.order(),
            ExecEnum::AllianceRequest(e) => e.order(),
            ExecEnum::AllianceReject(e) => e.order(),
            ExecEnum::BreakAlliance(e) => e.order(),
            ExecEnum::AllianceExtension(e) => e.order(),
            ExecEnum::DonateTroops(e) => e.order(),
            ExecEnum::DonateGold(e) => e.order(),
            ExecEnum::Embargo(e) => e.order(),
            ExecEnum::EmbargoAll(e) => e.order(),
            ExecEnum::Emoji(e) => e.order(),
            ExecEnum::TargetPlayer(e) => Order::TargetPlayer {
                requestor: e.requestor_small_id,
                target: e.target_id@,
            },
            ExecEnum::MoveWarship(e) => e.order(),
            ExecEnum::DeleteUnit(e) => e.order(),
            ExecEnum::Spawn(e) => Order::Spawn {
                game_id: e.game_id@,
                name: e.info.name@,
                player_type: e.info.player_type,
                client_id: crate::orders::text(e.info.client_id),
                id: e.info.id@,
                team: crate::orders::text(e.info.team),
                tile: e.tile,
            },
            ExecEnum::Player(e) => e.order(),
            ExecEnum::Nation(e) => e.order(),
            ExecEnum::DoomsdayClock(e) => e.order(),
            ExecEnum::RecomputeRailCluster(e) => e.order(),
        }
    }
}

impl ExecEnum {
    /// Whether nothing has come of the execution yet: it is as its order says, and no more.
    pub open spec fn is_fresh(&self) -> bool {
        match self {
            ExecEnum::Attack(e) => e.is_fresh(),
            ExecEnum::BoatRetreat(e) => e.active,
            ExecEnum::Retreat(e) => e.active && e.start_tick == 0 && !e.retreat_ordered,
            ExecEnum::Construction(e) => e.active && e.unit_id is None && e.ticks_until_complete
                == 0 && !e.delegated,
            ExecEnum::City(e) => e.active && !e.station_created,
            ExecEnum::DefensePost(e) => e.active,
            ExecEnum::Port(e) => e.active && e.random is None && e.check_offset == 0
                && e.trade_ship_spawn_rejections == 0 && e.trade_ship_spawn_rate == 1,
            ExecEnum::Factory(e) => e.active && !e.station_created,
            ExecEnum::MissileSilo(e) => e.active,
            ExecEnum::Nuke(e) => e.active && e.nuke_unit_id is None && e.curve is None
                && e.tiles_to_destroy is None,
            ExecEnum::Mirv(e) => e.active && e.mirv_unit_id is None && e.spawn_tile is None
                && e.separate_dst is None && e.target_owner_small_id == 0 && e.curve is None,
            ExecEnum::AllianceRequest(e) => e.active && !e.initialized,
            ExecEnum::AllianceReject(e) => e.active,
            ExecEnum::BreakAlliance(e) => e.active && e.recipient_small_id is None,
            ExecEnum::AllianceExtension(e) => e.active,
            ExecEnum::DonateTroops(e) => e.active && !e.initialized,
            ExecEnum::DonateGold(e) => e.active && !e.initialized,
            ExecEnum::Embargo(e) => e.active,
            ExecEnum::Emoji(e) => e.active && e.recipient_small_id is None,
            ExecEnum::DeleteUnit(e) => e.active && !e.marked,
            ExecEnum::Player(e) => e.active,
            ExecEnum::Nation(e) => e.is_new(e.game_id, e.nation),
            ExecEnum::DoomsdayClock(e) => e.active,
            _ => true,
        }
    }

    /// Whether the engine carries the execution out: it is an order for it, with nothing
    /// left to do here.
    pub open spec fn is_engine_order(&self) -> bool {
        self is TransportShip || self is SamLauncher || self is TrainStation || self is TradeShip
            || self is Warship || self is UpgradeStructure || self is TargetPlayer || self is Spawn
    }

    pub fn is_for_engine(&self) -> (engine: bool)
        ensures
            engine == self.is_engine_order(),
    {
        match self {
            ExecEnum::TransportShip(_) => true,
            ExecEnum::SamLauncher(_) => true,
            ExecEnum::TrainStation(_) => true,
            ExecEnum::TradeShip(_) => true,
            ExecEnum::Warship(_) => true,
            ExecEnum::UpgradeStructure(_) => true,
            ExecEnum::TargetPlayer(_) => true,
            ExecEnum::Spawn(_) => true,
            _ => false,
        }
    }

    /// What the execution is called in logs.
    pub open spec fn label(&self) -> Seq<char> {
        match self {
            ExecEnum::NoOp(_) => "NoOp"@,
            ExecEnum::Attack(e) => "Attack("@ + crate::decimal::decimal(e.owner_small_id as nat) + "->"@ + crate::decimal::decimal(
                e.target_small_id as nat,
            ) + ")"@,
            ExecEnum::TransportShip(_) => "TransportShipExecution"@,
            ExecEnum::BoatRetreat(_) => "BoatRetreat"@,
            ExecEnum::Retreat(_) => "Retreat"@,
            ExecEnum::MarkDisconnected(_) => "MarkDisconnected"@,
            ExecEnum::Construction(_) => "ConstructionExecution"@,
            ExecEnum::City(_) => "CityExecution"@,
            ExecEnum::DefensePost(_) => "DefensePostExecution"@,
            ExecEnum::Port(_) => "PortExecution"@,
            ExecEnum::Factory(_) => "FactoryExecution"@,
            ExecEnum::MissileSilo(_) => "MissileSiloExecution"@,
            ExecEnum::SamLauncher(_) => "SAMLauncherExecution"@,
            ExecEnum::TrainStation(_) => "TrainStationExecution"@,
            ExecEnum::TradeShip(_) => "TradeShip"@,
            ExecEnum::Warship(_) => "Warship"@,
            ExecEnum::UpgradeStructure(_) => "UpgradeStructureExecution"@,
            ExecEnum::Nuke(_) => "NukeExecution"@,
            ExecEnum::Mirv(_) => "MirvExecution"@,
            ExecEnum::AllianceRequest(e) => "AllianceRequestExecution("@ + crate::decimal::decimal(
                e.requestor_small_id as nat,
            ) + "->"@ + e.recipient_id@ + ")"@,
            ExecEnum::AllianceReject(_) => "AllianceReject"@,
            ExecEnum::BreakAlliance(_) => "BreakAlliance"@,
            ExecEnum::AllianceExtension(_) => "AllianceExtension"@,
            ExecEnum::DonateTroops(_) => "DonateTroops"@,
            ExecEnum::DonateGold(_) => "DonateGold"@,
            ExecEnum::Embargo(_) => "Embargo"@,
            ExecEnum::EmbargoAll(_) => "EmbargoAll"@,
            ExecEnum::Emoji(_) => "Emoji"@,
            ExecEnum::TargetPlayer(_) => "TargetPlayer"@,
            ExecEnum::MoveWarship(_) => "MoveWarship"@,
            ExecEnum::DeleteUnit(_) => "DeleteUnit"@,
            ExecEnum::Spawn(_) => "Spawn"@,
            ExecEnum::Player(e) => "Player("@ + crate::decimal::decimal(e.small_id as nat) + ")"@,
            ExecEnum::Nation(_) => "Nation"@,
            ExecEnum::DoomsdayClock(_) => "DoomsdayClock"@,
            ExecEnum::RecomputeRailCluster(_) => "RecomputeRailClusterExecution"@,
        }
    }

    pub fn debug_label(&self) -> (label: String)
        ensures
            label@ == self.label(),
    {
        match self {
            ExecEnum::NoOp(_) => String::from_str("NoOp"),
            ExecEnum::Attack(e) => {
                let mut label: String = String::from_str("Attack(");
                label.append(decimal_of(e.owner_small_id()).as_str());
                label.append("->");
                label.append(decimal_of(e.target_small_id()).as_str());
                label.append(")");
                label
            },
            ExecEnum::TransportShip(_) => String::from_str("TransportShipExecution"),
            ExecEnum::BoatRetreat(_) => String::from_str("BoatRetreat"),
            ExecEnum::Retreat(_) => String::from_str("Retreat"),
            ExecEnum::MarkDisconnected(_) => String::from_str("MarkDisconnected"),
            ExecEnum::Construction(_) => String::from_str("ConstructionExecution"),
            ExecEnum::City(_) => String::from_str("CityExecution"),
            ExecEnum::DefensePost(_) => String::from_str("DefensePostExecution"),
            ExecEnum::Port(_) => String::from_str("PortExecution"),
            ExecEnum::Factory(_) => String::from_str("FactoryExecution"),
            ExecEnum::MissileSilo(_) => String::from_str("MissileSiloExecution"),
            ExecEnum::SamLauncher(_) => String::from_str("SAMLauncherExecution"),
            ExecEnum::TrainStation(_) => String::from_str("TrainStationExecution"),
            ExecEnum::TradeShip(_) => String::from_str("TradeShip"),
            ExecEnum::Warship(_) => String::from_str("Warship"),
            ExecEnum::UpgradeStructure(_) => String::from_str("UpgradeStructureExecution"),
            ExecEnum::Nuke(_) => String::from_str("NukeExecution"),
            ExecEnum::Mirv(_) => String::from_str("MirvExecution"),
            ExecEnum::AllianceRequest(e) => {
                let mut label: String = String::from_str("AllianceRequestExecution(");
                label.append(decimal_of(e.requestor_small_id()).as_str());
                label.append("->");
                label.append(e.recipient_id());
                label.append(")");
                label
            },
            ExecEnum::AllianceReject(_) => String::from_str("AllianceReject"),
            ExecEnum::BreakAlliance(_) => String::from_str("BreakAlliance"),
            ExecEnum::AllianceExtension(_) => String::from_str("AllianceExtension"),
            ExecEnum::DonateTroops(_) => String::from_str("DonateTroops"),
            ExecEnum::DonateGold(_) => String::from_str("DonateGold"),
            ExecEnum::Embargo(_) => String::from_str("Embargo"),
            ExecEnum::EmbargoAll(_) => String::from_str("EmbargoAll"),
            ExecEnum::Emoji(_) => String::from_str("Emoji"),
            ExecEnum::TargetPlayer(_) => String::from_str("TargetPlayer"),
            ExecEnum::MoveWarship(_) => String::from_str("MoveWarship"),
            ExecEnum::DeleteUnit(_) => String::from_str("DeleteUnit"),
            ExecEnum::Spawn(_) => String::from_str("Spawn"),
            ExecEnum::Player(e) => {
                let mut label: String = String::from_str("Player(");
                label.append(decimal_of(e.small_id()).as_str());
                label.append(")");
                label
            },
            ExecEnum::Nation(_) => String::from_str("Nation"),
            ExecEnum::DoomsdayClock(_) => String::from_str("DoomsdayClock"),
            ExecEnum::RecomputeRailCluster(_) => String::from_str("RecomputeRailClusterExecution"),
        }
    }

    /// The attack that the execution is, if it is one.
    pub fn as_attack(&mut self) -> (attack: Option<&mut AttackExecution>)
        ensures
            attack is Some == (*old(self) is Attack),
            attack is Some ==> *attack->0 == (*old(self))->Attack_0 && *final(self)
                == ExecEnum::Attack(*final(attack->0)),
            attack is None ==> *final(self) == *old(self),
    {
        match self {
            ExecEnum::Attack(e) => Some(e),
            _ => None,
        }
    }
}

/// Whether an execution fits a game.
#[verifier::opaque]
pub open spec fn fits<E: Execution>(e: E, game: GameView) -> bool {
    e.ready(game)
}

/// The game after an execution began.
#[verifier::opaque]
pub open spec fn after_start<E: Execution>(e: E, game: GameView, tick: u32) -> GameView {
    e.begun(game, tick)
}

/// The game after an execution had a tick.
#[verifier::opaque]
pub open spec fn after_tick<E: Execution>(e: E, game: GameView, tick: u32) -> GameView {
    e.ticked(game, tick)
}

/// Whether `next` is what becomes of an execution as it begins.
#[verifier::opaque]
pub open spec fn starts_as<E: Execution>(e: E, game: GameView, tick: u32, next: E) -> bool {
    e.begun_as(game, tick, next)
}

/// Whether `next` is what becomes of an execution with a tick.
#[verifier::opaque]
pub open spec fn goes_on_as<E: Execution>(e: E, game: GameView, tick: u32, next: E) -> bool {
    e.ticked_as(game, tick, next)
}

fn begin<E: Execution>(e: &mut E, game: &mut Game, tick: u32)
    requires
        old(game).wf(),
        fits(*old(e), old(game)@),
    ensures
        final(game).wf(),
        final(game)@ == after_start(*old(e), old(game)@, tick),
        starts_as(*old(e), old(game)@, tick, *final(e)),
        fits(*final(e), final(game)@),
{
    reveal(fits);
    reveal(after_start);
    reveal(starts_as);
    e.init(game, tick);
}

fn run<E: Execution>(e: &mut E, game: &mut Game, tick: u32)
    requires
        old(game).wf(),
        fits(*old(e), old(game)@),
        old(e).equipped(old(game)@),
    ensures
        final(game).wf(),
        final(game)@ == after_tick(*old(e), old(game)@, tick),
        goes_on_as(*old(e), old(game)@, tick, *final(e)),
        fits(*final(e), final(game)@),
        !old(e).going() ==> !final(e).going(),
{
    reveal(fits);
    reveal(after_tick);
    reveal(goes_on_as);
    e.tick(game, tick);
}

impl Execution for ExecEnum {
    open spec fn ready(&self, game: GameView) -> bool {
        match self {
            ExecEnum::NoOp(e) => fits(*e, game),
            ExecEnum::Attack(e) => fits(*e, game),
            ExecEnum::BoatRetreat(e) => fits(*e, game),
            ExecEnum::Retreat(e) => fits(*e, game),
            ExecEnum::MarkDisconnected(e) => fits(*e, game),
            ExecEnum::Construction(e) => fits(*e, game),
            ExecEnum::City(e) => fits(*e, game),
            ExecEnum::DefensePost(e) => fits(*e, game),
            ExecEnum::Port(e) => fits(*e, game),
            ExecEnum::Factory(e) => fits(*e, game),
            ExecEnum::MissileSilo(e) => fits(*e, game),
            ExecEnum::Nuke(e) => fits(*e, game),
            ExecEnum::Mirv(e) => fits(*e, game),
            ExecEnum::AllianceRequest(e) => fits(*e, game),
            ExecEnum::AllianceReject(e) => fits(*e, game),
            ExecEnum::BreakAlliance(e) => fits(*e, game),
            ExecEnum::AllianceExtension(e) => fits(*e, game),
            ExecEnum::DonateTroops(e) => fits(*e, game),
            ExecEnum::DonateGold(e) => fits(*e, game),
            ExecEnum::Embargo(e) => fits(*e, game),
            ExecEnum::EmbargoAll(e) => fits(*e, game),
            ExecEnum::Emoji(e) => fits(*e, game),
            ExecEnum::MoveWarship(e) => fits(*e, game),
            ExecEnum::DeleteUnit(e) => fits(*e, game),
            ExecEnum::Player(e) => fits(*e, game),
            ExecEnum::Nation(e) => fits(*e, game),
            ExecEnum::DoomsdayClock(e) => fits(*e, game),
            ExecEnum::RecomputeRailCluster(e) => fits(*e, game),
            _ => true,
        }
    }

    open spec fn equipped(&self, game: GameView) -> bool {
        match self {
            ExecEnum::Nuke(e) => e.equipped(game),
            _ => true,
        }
    }

    open spec fn begun(&self, game: GameView, tick: u32) -> GameView {
        match self {
            ExecEnum::NoOp(e) => after_start(*e, game, tick),
            ExecEnum::Attack(e) => after_start(*e, game, tick),
            ExecEnum::BoatRetreat(e) => after_start(*e, game, tick),
            ExecEnum::Retreat(e) => after_start(*e, game, tick),
            ExecEnum::MarkDisconnected(e) => after_start(*e, game, tick),
            ExecEnum::Construction(e) => after_start(*e, game, tick),
            ExecEnum::City(e) => after_start(*e, game, tick),
            ExecEnum::DefensePost(e) => after_start(*e, game, tick),
            ExecEnum::Port(e) => after_start(*e, game, tick),
            ExecEnum::Factory(e) => after_start(*e, game, tick),
            ExecEnum::MissileSilo(e) => after_start(*e, game, tick),
            ExecEnum::Nuke(e) => after_start(*e, game, tick),
            ExecEnum::Mirv(e) => after_start(*e, game, tick),
            ExecEnum::AllianceRequest(e) => after_start(*e, game, tick),
            ExecEnum::AllianceReject(e) => after_start(*e, game, tick),
            ExecEnum::BreakAlliance(e) => after_start(*e, game, tick),
            ExecEnum::AllianceExtension(e) => after_start(*e, game, tick),
            ExecEnum::DonateTroops(e) => after_start(*e, game, tick),
            ExecEnum::DonateGold(e) => after_start(*e, game, tick),
            ExecEnum::Embargo(e) => after_start(*e, game, tick),
            ExecEnum::EmbargoAll(e) => after_start(*e, game, tick),
            ExecEnum::Emoji(e) => after_start(*e, game, tick),
            ExecEnum::MoveWarship(e) => after_start(*e, game, tick),
            ExecEnum::DeleteUnit(e) => after_start(*e, game, tick),
            ExecEnum::Player(e) => after_start(*e, game, tick),
            ExecEnum::Nation(e) => after_start(*e, game, tick),
            ExecEnum::DoomsdayClock(e) => after_start(*e, game, tick),
            ExecEnum::RecomputeRailCluster(e) => after_start(*e, game, tick),
            _ => game,
        }
    }

    open spec fn ticked(&self, game: GameView, tick: u32) -> GameView {
        match self {
            ExecEnum::NoOp(e) => after_tick(*e, game, tick),
            ExecEnum::Attack(e) => after_tick(*e, game, tick),
            ExecEnum::BoatRetreat(e) => after_tick(*e, game, tick),
            ExecEnum::Retreat(e) => after_tick(*e, game, tick),
            ExecEnum::MarkDisconnected(e) => after_tick(*e, game, tick),
            ExecEnum::Construction(e) => after_tick(*e, game, tick),
            ExecEnum::City(e) => after_tick(*e, game, tick),
            ExecEnum::DefensePost(e) => after_tick(*e, game, tick),
            ExecEnum::Port(e) => after_tick(*e, game, tick),
            ExecEnum::Factory(e) => after_tick(*e, game, tick),
            ExecEnum::MissileSilo(e) => after_tick(*e, game, tick),
            ExecEnum::Nuke(e) => after_tick(*e, game, tick),
            ExecEnum::Mirv(e) => after_tick(*e, game, tick),
            ExecEnum::AllianceRequest(e) => after_tick(*e, game, tick),
            ExecEnum::AllianceReject(e) => after_tick(*e, game, tick),
            ExecEnum::BreakAlliance(e) => after_tick(*e, game, tick),
            ExecEnum::AllianceExtension(e) => after_tick(*e, game, tick),
            ExecEnum::DonateTroops(e) => after_tick(*e, game, tick),
            ExecEnum::DonateGold(e) => after_tick(*e, game, tick),
            ExecEnum::Embargo(e) => after_tick(*e, game, tick),
            ExecEnum::EmbargoAll(e) => after_tick(*e, game, tick),
            ExecEnum::Emoji(e) => after_tick(*e, game, tick),
            ExecEnum::MoveWarship(e) => after_tick(*e, game, tick),
            ExecEnum::DeleteUnit(e) => after_tick(*e, game, tick),
            ExecEnum::Player(e) => after_tick(*e, game, tick),
            ExecEnum::Nation(e) => after_tick(*e, game, tick),
            ExecEnum::DoomsdayClock(e) => after_tick(*e, game, tick),
            ExecEnum::RecomputeRailCluster(e) => after_tick(*e, game, tick),
            _ => game,
        }
    }

    open spec fn begun_as(&self, game: GameView, tick: u32, next: Self) -> bool {
        match (*self, next) {
            (ExecEnum::NoOp(e), ExecEnum::NoOp(n)) => starts_as(e, game, tick, n),
            (ExecEnum::Attack(e), ExecEnum::Attack(n)) => starts_as(e, game, tick, n),
            (ExecEnum::BoatRetreat(e), ExecEnum::BoatRetreat(n)) => starts_as(e, game, tick, n),
            (ExecEnum::Retreat(e), ExecEnum::Retreat(n)) => starts_as(e, game, tick, n),
            (ExecEnum::MarkDisconnected(e), ExecEnum::MarkDisconnected(n)) => starts_as(e, game, tick, n),
            (ExecEnum::Construction(e), ExecEnum::Construction(n)) => starts_as(e, game, tick, n),
            (ExecEnum::City(e), ExecEnum::City(n)) => starts_as(e, game, tick, n),
            (ExecEnum::DefensePost(e), ExecEnum::DefensePost(n)) => starts_as(e, game, tick, n),
            (ExecEnum::Port(e), ExecEnum::Port(n)) => starts_as(e, game, tick, n),
            (ExecEnum::Factory(e), ExecEnum::Factory(n)) => starts_as(e, game, tick, n),
            (ExecEnum::MissileSilo(e), ExecEnum::MissileSilo(n)) => starts_as(e, game, tick, n),
            (ExecEnum::Nuke(e), ExecEnum::Nuke(n)) => starts_as(e, game, tick, n),
            (ExecEnum::Mirv(e), ExecEnum::Mirv(n)) => starts_as(e, game, tick, n),
            (ExecEnum::AllianceRequest(e), ExecEnum::AllianceRequest(n)) => starts_as(e, game, tick, n),
            (ExecEnum::AllianceReject(e), ExecEnum::AllianceReject(n)) => starts_as(e, game, tick, n),
            (ExecEnum::BreakAlliance(e), ExecEnum::BreakAlliance(n)) => starts_as(e, game, tick, n),
            (ExecEnum::AllianceExtension(e), ExecEnum::AllianceExtension(n)) => starts_as(e, game, tick, n),
            (ExecEnum::DonateTroops(e), ExecEnum::DonateTroops(n)) => starts_as(e, game, tick, n),
            (ExecEnum::DonateGold(e), ExecEnum::DonateGold(n)) => starts_as(e, game, tick, n),
            (ExecEnum::Embargo(e), ExecEnum::Embargo(n)) => starts_as(e, game, tick, n),
            (ExecEnum::EmbargoAll(e), ExecEnum::EmbargoAll(n)) => starts_as(e, game, tick, n),
            (ExecEnum::Emoji(e), ExecEnum::Emoji(n)) => starts_as(e, game, tick, n),
            (ExecEnum::MoveWarship(e), ExecEnum::MoveWarship(n)) => starts_as(e, game, tick, n),
            (ExecEnum::DeleteUnit(e), ExecEnum::DeleteUnit(n)) => starts_as(e, game, tick, n),
            (ExecEnum::Player(e), ExecEnum::Player(n)) => starts_as(e, game, tick, n),
            (ExecEnum::Nation(e), ExecEnum::Nation(n)) => starts_as(e, game, tick, n),
            (ExecEnum::DoomsdayClock(e), ExecEnum::DoomsdayClock(n)) => starts_as(e, game, tick, n),
            (ExecEnum::RecomputeRailCluster(e), ExecEnum::RecomputeRailCluster(n)) => starts_as(e, game, tick, n),
            _ => self.is_engine_order() && next == *self,
        }
    }

    open spec fn ticked_as(&self, game: GameView, tick: u32, next: Self) -> bool {
        match (*self, next) {
            (ExecEnum::NoOp(e), ExecEnum::NoOp(n)) => goes_on_as(e, game, tick, n),
            (ExecEnum::Attack(e), ExecEnum::Attack(n)) => goes_on_as(e, game, tick, n),
            (ExecEnum::BoatRetreat(e), ExecEnum::BoatRetreat(n)) => goes_on_as(e, game, tick, n),
            (ExecEnum::Retreat(e), ExecEnum::Retreat(n)) => goes_on_as(e, game, tick, n),
            (ExecEnum::MarkDisconnected(e), ExecEnum::MarkDisconnected(n)) => goes_on_as(e, game, tick, n),
            (ExecEnum::Construction(e), ExecEnum::Construction(n)) => goes_on_as(e, game, tick, n),
            (ExecEnum::City(e), ExecEnum::City(n)) => goes_on_as(e, game, tick, n),
            (ExecEnum::DefensePost(e), ExecEnum::DefensePost(n)) => goes_on_as(e, game, tick, n),
            (ExecEnum::Port(e), ExecEnum::Port(n)) => goes_on_as(e, game, tick, n),
            (ExecEnum::Factory(e), ExecEnum::Factory(n)) => goes_on_as(e, game, tick, n),
            (ExecEnum::MissileSilo(e), ExecEnum::MissileSilo(n)) => goes_on_as(e, game, tick, n),
            (ExecEnum::Nuke(e), ExecEnum::Nuke(n)) => goes_on_as(e, game, tick, n),
            (ExecEnum::Mirv(e), ExecEnum::Mirv(n)) => goes_on_as(e, game, tick, n),
            (ExecEnum::AllianceRequest(e), ExecEnum::AllianceRequest(n)) => goes_on_as(e, game, tick, n),
            (ExecEnum::AllianceReject(e), ExecEnum::AllianceReject(n)) => goes_on_as(e, game, tick, n),
            (ExecEnum::BreakAlliance(e), ExecEnum::BreakAlliance(n)) => goes_on_as(e, game, tick, n),
            (ExecEnum::AllianceExtension(e), ExecEnum::AllianceExtension(n)) => goes_on_as(e, game, tick, n),
            (ExecEnum::DonateTroops(e), ExecEnum::DonateTroops(n)) => goes_on_as(e, game, tick, n),
            (ExecEnum::DonateGold(e), ExecEnum::DonateGold(n)) => goes_on_as(e, game, tick, n),
            (ExecEnum::Embargo(e), ExecEnum::Embargo(n)) => goes_on_as(e, game, tick, n),
            (ExecEnum::EmbargoAll(e), ExecEnum::EmbargoAll(n)) => goes_on_as(e, game, tick, n),
            (ExecEnum::Emoji(e), ExecEnum::Emoji(n)) => goes_on_as(e, game, tick, n),
            (ExecEnum::MoveWarship(e), ExecEnum::MoveWarship(n)) => goes_on_as(e, game, tick, n),
            (ExecEnum::DeleteUnit(e), ExecEnum::DeleteUnit(n)) => goes_on_as(e, game, tick, n),
            (ExecEnum::Player(e), ExecEnum::Player(n)) => goes_on_as(e, game, tick, n),
            (ExecEnum::Nation(e), ExecEnum::Nation(n)) => goes_on_as(e, game, tick, n),
            (ExecEnum::DoomsdayClock(e), ExecEnum::DoomsdayClock(n)) => goes_on_as(e, game, tick, n),
            (ExecEnum::RecomputeRailCluster(e), ExecEnum::RecomputeRailCluster(n)) => goes_on_as(e, game, tick, n),
            _ => self.is_engine_order() && next == *self,
        }
    }

    open spec fn going(&self) -> bool {
        match self {
            ExecEnum::NoOp(e) => e.going(),
            ExecEnum::Attack(e) => e.going(),
            ExecEnum::BoatRetreat(e) => e.going(),
            ExecEnum::Retreat(e) => e.going(),
            ExecEnum::MarkDisconnected(e) => e.going(),
            ExecEnum::Construction(e) => e.going(),
            ExecEnum::City(e) => e.going(),
            ExecEnum::DefensePost(e) => e.going(),
            ExecEnum::Port(e) => e.going(),
            ExecEnum::Factory(e) => e.going(),
            ExecEnum::MissileSilo(e) => e.going(),
            ExecEnum::Nuke(e) => e.going(),
            ExecEnum::Mirv(e) => e.going(),
            ExecEnum::AllianceRequest(e) => e.going(),
            ExecEnum::AllianceReject(e) => e.going(),
            ExecEnum::BreakAlliance(e) => e.going(),
            ExecEnum::AllianceExtension(e) => e.going(),
            ExecEnum::DonateTroops(e) => e.going(),
            ExecEnum::DonateGold(e) => e.going(),
            ExecEnum::Embargo(e) => e.going(),
            ExecEnum::EmbargoAll(e) => e.going(),
            ExecEnum::Emoji(e) => e.going(),
            ExecEnum::MoveWarship(e) => e.going(),
            ExecEnum::DeleteUnit(e) => e.going(),
            ExecEnum::Player(e) => e.going(),
            ExecEnum::Nation(e) => e.going(),
            ExecEnum::DoomsdayClock(e) => e.going(),
            ExecEnum::RecomputeRailCluster(e) => e.going(),
            _ => false,
        }
    }

    fn init(&mut self, game: &mut Game, tick: u32) {
        match self {
            ExecEnum::NoOp(e) => begin(e, game, tick),
            ExecEnum::Attack(e) => begin(e, game, tick),
            ExecEnum::BoatRetreat(e) => begin(e, game, tick),
            ExecEnum::Retreat(e) => begin(e, game, tick),
            ExecEnum::MarkDisconnected(e) => begin(e, game, tick),
            ExecEnum::Construction(e) => begin(e, game, tick),
            ExecEnum::City(e) => begin(e, game, tick),
            ExecEnum::DefensePost(e) => begin(e, game, tick),
            ExecEnum::Port(e) => begin(e, game, tick),
            ExecEnum::Factory(e) => begin(e, game, tick),
            ExecEnum::MissileSilo(e) => begin(e, game, tick),
            ExecEnum::Nuke(e) => begin(e, game, tick),
            ExecEnum::Mirv(e) => begin(e, game, tick),
            ExecEnum::AllianceRequest(e) => begin(e, game, tick),
            ExecEnum::AllianceReject(e) => begin(e, game, tick),
            ExecEnum::BreakAlliance(e) => begin(e, game, tick),
            ExecEnum::AllianceExtension(e) => begin(e, game, tick),
            ExecEnum::DonateTroops(e) => begin(e, game, tick),
            ExecEnum::DonateGold(e) => begin(e, game, tick),
            ExecEnum::Embargo(e) => begin(e, game, tick),
            ExecEnum::EmbargoAll(e) => begin(e, game, tick),
            ExecEnum::Emoji(e) => begin(e, game, tick),
            ExecEnum::MoveWarship(e) => begin(e, game, tick),
            ExecEnum::DeleteUnit(e) => begin(e, game, tick),
            ExecEnum::Player(e) => begin(e, game, tick),
            ExecEnum::Nation(e) => begin(e, game, tick),
            ExecEnum::DoomsdayClock(e) => begin(e, game, tick),
            ExecEnum::RecomputeRailCluster(e) => begin(e, game, tick),
            _ => {},
        }
    }

    fn tick(&mut self, game: &mut Game, tick: u32) {
        match self {
            ExecEnum::NoOp(e) => run(e, game, tick),
            ExecEnum::Attack(e) => run(e, game, tick),
            ExecEnum::BoatRetreat(e) => run(e, game, tick),
            ExecEnum::Retreat(e) => run(e, game, tick),
            ExecEnum::MarkDisconnected(e) => run(e, game, tick),
            ExecEnum::Construction(e) => run(e, game, tick),
            ExecEnum::City(e) => run(e, game, tick),
            ExecEnum::DefensePost(e) => run(e, game, tick),
            ExecEnum::Port(e) => run(e, game, tick),
            ExecEnum::Factory(e) => run(e, game, tick),
            ExecEnum::MissileSilo(e) => run(e, game, tick),
            ExecEnum::Nuke(e) => run(e, game, tick),
            ExecEnum::Mirv(e) => run(e, game, tick),
            ExecEnum::AllianceRequest(e) => run(e, game, tick),
            ExecEnum::AllianceReject(e) => run(e, game, tick),
            ExecEnum::BreakAlliance(e) => run(e, game, tick),
            ExecEnum::AllianceExtension(e) => run(e, game, tick),
            ExecEnum::DonateTroops(e) => run(e, game, tick),
            ExecEnum::DonateGold(e) => run(e, game, tick),
            ExecEnum::Embargo(e) => run(e, game, tick),
            ExecEnum::EmbargoAll(e) => run(e, game, tick),
            ExecEnum::Emoji(e) => run(e, game, tick),
            ExecEnum::MoveWarship(e) => run(e, game, tick),
            ExecEnum::DeleteUnit(e) => run(e, game, tick),
            ExecEnum::Player(e) => run(e, game, tick),
            ExecEnum::Nation(e) => run(e, game, tick),
            ExecEnum::DoomsdayClock(e) => run(e, game, tick),
            ExecEnum::RecomputeRailCluster(e) => run(e, game, tick),
            _ => {},
        }
    }

    fn is_active(&self) -> (active: bool) {
        match self {
            ExecEnum::NoOp(e) => e.is_active(),
            ExecEnum::Attack(e) => e.is_active(),
            ExecEnum::BoatRetreat(e) => e.is_active(),
            ExecEnum::Retreat(e) => e.is_active(),
            ExecEnum::MarkDisconnected(e) => e.is_active(),
            ExecEnum::Construction(e) => e.is_active(),
            ExecEnum::City(e) => e.is_active(),
            ExecEnum::DefensePost(e) => e.is_active(),
            ExecEnum::Port(e) => e.is_active(),
            ExecEnum::Factory(e) => e.is_active(),
            ExecEnum::MissileSilo(e) => e.is_active(),
            ExecEnum::Nuke(e) => e.is_active(),
            ExecEnum::Mirv(e) => e.is_active(),
            ExecEnum::AllianceRequest(e) => e.is_active(),
            ExecEnum::AllianceReject(e) => e.is_active(),
            ExecEnum::BreakAlliance(e) => e.is_active(),
            ExecEnum::AllianceExtension(e) => e.is_active(),
            ExecEnum::DonateTroops(e) => e.is_active(),
            ExecEnum::DonateGold(e) => e.is_active(),
            ExecEnum::Embargo(e) => e.is_active(),
            ExecEnum::EmbargoAll(e) => e.is_active(),
            ExecEnum::Emoji(e) => e.is_active(),
            ExecEnum::MoveWarship(e) => e.is_active(),
            ExecEnum::DeleteUnit(e) => e.is_active(),
            ExecEnum::Player(e) => e.is_active(),
            ExecEnum::Nation(e) => e.is_active(),
            ExecEnum::DoomsdayClock(e) => e.is_active(),
            ExecEnum::RecomputeRailCluster(e) => e.is_active(),
            _ => false,
        }
    }

    fn active_during_spawn(&self) -> (active: bool)
        ensures
            active == (self is Nation || self is Spawn),
    {
        match self {
            ExecEnum::Nation(e) => e.active_during_spawn(),
            ExecEnum::Spawn(_) => true,
            _ => false,
        }
    }
}

} // verus!
