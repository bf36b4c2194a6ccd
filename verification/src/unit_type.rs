//! The kinds of unit.

use vstd::prelude::*;

verus! {

#[derive(Clone, Copy, Debug, PartialEq, Eq, Structural)]
pub enum UnitType {
    City,
    Port,
    Factory,
    DefensePost,
    MissileSilo,
    SamLauncher,
    SamMissile,
    AtomBomb,
    HydrogenBomb,
    Mirv,
    MirvWarhead,
    Transport,
    Warship,
    TradeShip,
    Train,
    /// A kind that the rules do not know.
    Unknown,
}

pub const CITY: UnitType = UnitType::City;

pub const PORT: UnitType = UnitType::Port;

pub const FACTORY: UnitType = UnitType::Factory;

pub const DEFENSE_POST: UnitType = UnitType::DefensePost;

pub const MISSILE_SILO: UnitType = UnitType::MissileSilo;

pub const SAM_LAUNCHER: UnitType = UnitType::SamLauncher;

pub const SAM_MISSILE: UnitType = UnitType::SamMissile;

pub const ATOM_BOMB: UnitType = UnitType::AtomBomb;

pub const HYDROGEN_BOMB: UnitType = UnitType::HydrogenBomb;

pub const MIRV: UnitType = UnitType::Mirv;

pub const MIRV_WARHEAD: UnitType = UnitType::MirvWarhead;

pub const TRANSPORT: UnitType = UnitType::Transport;

pub const WARSHIP: UnitType = UnitType::Warship;

pub const TRADE_SHIP: UnitType = UnitType::TradeShip;

pub const TRAIN: UnitType = UnitType::Train;

impl UnitType {
    /// A building that stands on its tile.
    pub open spec fn structure(self) -> bool {
        self == UnitType::City || self == UnitType::Port || self == UnitType::Factory || self
            == UnitType::DefensePost || self == UnitType::MissileSilo || self == UnitType::SamLauncher
    }

    pub fn is_structure(self) -> (structure: bool)
        ensures
            structure == self.structure(),
    {
        matches!(
            self,
            UnitType::City | UnitType::Port | UnitType::Factory | UnitType::DefensePost
            | UnitType::MissileSilo | UnitType::SamLauncher
        )
    }

    /// A bomb or warhead in flight.
    pub open spec fn nuke(self) -> bool {
        self == UnitType::AtomBomb || self == UnitType::HydrogenBomb || self == UnitType::Mirv || self
            == UnitType::MirvWarhead
    }

    pub fn is_nuke(self) -> (nuke: bool)
        ensures
            nuke == self.nuke(),
    {
        matches!(
            self,
            UnitType::AtomBomb | UnitType::HydrogenBomb | UnitType::Mirv | UnitType::MirvWarhead
        )
    }

    /// A building that trains can stop at.
    pub open spec fn station(self) -> bool {
        self == UnitType::City || self == UnitType::Port || self == UnitType::Factory
    }

    pub fn is_station(self) -> (station: bool)
        ensures
            station == self.station(),
    {
        matches!(self, UnitType::City | UnitType::Port | UnitType::Factory)
    }

    /// A building that can be raised to a higher level.
    pub open spec fn upgradable(self) -> bool {
        self == UnitType::City || self == UnitType::Port || self == UnitType::Factory || self
            == UnitType::MissileSilo || self == UnitType::SamLauncher
    }

    pub fn is_upgradable_type(self) -> (upgradable: bool)
        ensures
            upgradable == self.upgradable(),
    {
        matches!(
            self,
            UnitType::City | UnitType::Port | UnitType::Factory | UnitType::MissileSilo
            | UnitType::SamLauncher
        )
    }
}

} // verus!
