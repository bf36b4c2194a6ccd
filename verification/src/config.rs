//! The rules that a game is played by.

use vstd::prelude::*;

use crate::unit_type::UnitType;

verus! {

/// Parts of a troop that attack sizes are counted in.
pub const TROOP_SCALE: i64 = 100_000;

/// Parts of a troop that a player's troop limit is counted in.
pub const MAX_TROOPS_SCALE: i64 = 1000;

/// The highest troop limit that a player can have, in its own unit.
pub const MAX_TROOPS_LIMIT: i64 = 1_000_000_000_000;

/// The most gold that a purse can hold.
pub const MAX_GOLD: i64 = 0x7fff_ffff_ffff_ffff;

/// Nothing costs more gold than this, and nobody earns more in a tick.
pub const MAX_PRICE: i64 = 1_000_000_000_000_000;

#[derive(Clone, Copy, Debug, PartialEq, Eq, Structural)]
pub enum Difficulty {
    Easy,
    Medium,
    Hard,
    Impossible,
    /// A difficulty that the rules do not name.
    Other,
}

#[derive(Clone, Copy, Debug, PartialEq, Eq, Structural)]
pub enum GameMode {
    FreeForAll,
    Team,
}

/// The blast radii of a nuke: everything up to the inner one is hit, up to the outer one
/// some.
#[derive(Clone, Copy, Debug, PartialEq, Eq, Structural)]
pub struct NukeMagnitude {
    pub inner: u32,
    pub outer: u32,
}

/// How fast the doomsday clock demands territory.
#[derive(Clone, Copy, Debug, PartialEq, Eq, Structural)]
pub struct DoomsdayClockConfig {
    pub enabled: bool,
    pub warn_seconds: i64,
    pub drain_start_percent: i64,
    pub drain_max_percent: i64,
    pub drain_ramp_seconds: i64,
    pub warship_drain_max_percent: i64,
}

/// The part of the map that a team spawns in.
#[derive(Debug)]
pub struct SpawnArea {
    pub team: String,
    pub x: u32,
    pub y: u32,
    pub width: u32,
    pub height: u32,
}

/// What players call a kind of unit.
#[derive(Debug)]
pub struct UnitName {
    pub name: String,
    pub unit: UnitType,
}

/// Units of a name.
pub open spec fn called(name: Seq<char>) -> spec_fn(UnitName) -> bool {
    |entry: UnitName| entry.name@ == name
}

impl SpawnArea {
    pub open spec fn holds(&self, x: int, y: int) -> bool {
        self.x <= x < self.x + self.width && self.y <= y < self.y + self.height
    }
}

/// Areas of a team.
pub open spec fn area_of(team: Seq<char>) -> spec_fn(SpawnArea) -> bool {
    |area: SpawnArea| area.team@ == team
}

impl Config {
    /// Whether a place is outside of the area that a team spawns in, where it has one.
    pub open spec fn out_of_area(&self, team: Option<String>, x: int, y: int) -> bool {
        match team {
            Some(team) => match crate::lists::first_where(self.spawn_areas@, area_of(team@)) {
                Some(area) => !area.holds(x, y),
                None => false,
            },
            None => false,
        }
    }

    /// The kind of unit that goes by a name.
    pub open spec fn unit_called(&self, name: Seq<char>) -> UnitType {
        match crate::lists::first_where(self.unit_names@, called(name)) {
            Some(entry) => entry.unit,
            None => UnitType::Unknown,
        }
    }

    pub fn unit_by_name(&self, name: &String) -> (unit: UnitType)
        ensures
            unit == self.unit_called(name@),
    {
        let ghost p = called(name@);
        proof {
            crate::lists::lemma_take_all(self.unit_names@);
        }
        for i in 0..self.unit_names.len()
            invariant
                p == called(name@),
                crate::lists::first_where(self.unit_names@.skip(i as int), p)
                    == crate::lists::first_where(self.unit_names@, p),
        {
            if self.unit_names[i].name == *name {
                proof {
                    crate::lists::lemma_first_where_found(self.unit_names@, p, i as int);
                }
                return self.unit_names[i].unit;
            }
            proof {
                crate::lists::lemma_first_where_step(self.unit_names@, p, i as int);
            }
        }
        assert(self.unit_names@.skip(self.unit_names@.len() as int) =~= Seq::empty());
        UnitType::Unknown
    }

    pub fn is_out_of_area(&self, team: &Option<String>, x: i32, y: i32) -> (out: bool)
        ensures
            out == self.out_of_area(*team, x as int, y as int),
    {
        let name: &String = match team {
            Some(name) => name,
            None => {
                return false;
            },
        };
        let ghost p = area_of(name@);
        proof {
            crate::lists::lemma_take_all(self.spawn_areas@);
        }
        for i in 0..self.spawn_areas.len()
            invariant
                *team == Some(*name),
                p == area_of(name@),
                crate::lists::first_where(self.spawn_areas@.skip(i as int), p)
                    == crate::lists::first_where(self.spawn_areas@, p),
        {
            if self.spawn_areas[i].team == *name {
                proof {
                    crate::lists::lemma_first_where_found(self.spawn_areas@, p, i as int);
                }
                let area = &self.spawn_areas[i];
                let (px, py): (i64, i64) = (x as i64, y as i64);
                return !(area.x as i64 <= px && px < area.x as i64 + area.width as i64 && area.y
                    as i64 <= py && py < area.y as i64 + area.height as i64);
            }
            proof {
                crate::lists::lemma_first_where_step(self.spawn_areas@, p, i as int);
            }
        }
        assert(self.spawn_areas@.skip(self.spawn_areas@.len() as int) =~= Seq::empty());
        false
    }
}

/// The settings of a game.
pub struct Config {
    pub difficulty: Difficulty,
    pub game_mode: GameMode,
    pub humans_vs_nations: bool,
    pub disabled_units: Vec<UnitType>,
    pub disable_alliances: bool,
    pub donate_gold: bool,
    pub donate_troops: bool,
    pub water_nukes: bool,
    pub num_spawn_phase_turns: u32,
    pub alliance_request_duration: u32,
    pub alliance_duration: u32,
    pub temporary_embargo_duration: u32,
    pub boat_max_number: u32,
    pub starting_gold_nation: i64,
    pub gold_rate: i64,
    pub gold_rate_bot: i64,
    pub atom_bomb: NukeMagnitude,
    pub hydrogen_bomb: NukeMagnitude,
    pub mirv_warhead: NukeMagnitude,
    /// How many scaled troops a warhead kills with each tile, by how many thousandths of
    /// their limit the troops come to.
    pub warhead_deaths: Vec<u32>,
    pub nuke_speed: u32,
    pub nuke_targetable_range: u32,
    pub structure_min_dist: u32,
    pub radius_port_spawn: u32,
    pub train_station_min_range: u32,
    pub train_station_max_range: u32,
    pub train_gold_self: i64,
    pub train_gold_team: i64,
    pub train_gold_ally: i64,
    pub train_gold_other: i64,
    pub trade_ship_short_range_debuff: u32,
    pub silo_cooldown: u32,
    pub sam_cooldown: u32,
    pub structure_build_ticks: u32,
    pub atom_bomb_cost: i64,
    pub hydrogen_bomb_cost: i64,
    pub mirv_cost: i64,
    pub sam_launcher_cost: i64,
    pub nuke_alliance_break_threshold: u32,
    /// The parts of the map that teams spawn in.
    pub spawn_areas: Vec<SpawnArea>,
    /// What players call the kinds of unit in their orders.
    pub unit_names: Vec<UnitName>,
    pub doomsday: DoomsdayClockConfig,
    /// The part of the land that the doomsday clock now demands of each player, in parts of
    /// ten thousand.
    pub doomsday_bar: i64,
}

impl Config {
    /// Prices, radii and periods are in range.
    pub open spec fn wf(&self) -> bool {
        &&& 0 <= self.atom_bomb_cost <= MAX_PRICE
        &&& 0 <= self.hydrogen_bomb_cost <= MAX_PRICE
        &&& 0 <= self.mirv_cost <= MAX_PRICE
        &&& 0 <= self.sam_launcher_cost <= MAX_PRICE
        &&& 0 <= self.gold_rate <= MAX_PRICE
        &&& 0 <= self.gold_rate_bot <= MAX_PRICE
        &&& self.atom_bomb.inner <= self.atom_bomb.outer <= 1000
        &&& self.hydrogen_bomb.inner <= self.hydrogen_bomb.outer <= 1000
        &&& self.mirv_warhead.inner <= self.mirv_warhead.outer <= 1000
        &&& 0 < self.nuke_speed <= 1000
        &&& self.nuke_targetable_range <= 100_000
        &&& self.structure_min_dist <= 1000
        &&& self.radius_port_spawn <= 1000
        &&& self.train_station_min_range <= 10_000
        &&& self.train_station_max_range <= 10_000
        &&& 0 <= self.train_gold_self <= 1_000_000
        &&& 0 <= self.train_gold_team <= 1_000_000
        &&& 0 < self.train_gold_ally <= 1_000_000
        &&& 0 <= self.train_gold_other <= 1_000_000
        &&& self.num_spawn_phase_turns <= 1_000_000
        &&& self.boat_max_number <= 1_000_000
        &&& 0 <= self.doomsday.warn_seconds <= 1_000_000
        &&& 0 <= self.doomsday.drain_start_percent <= 100
        &&& self.doomsday.drain_start_percent <= self.doomsday.drain_max_percent <= 100
        &&& self.doomsday.drain_start_percent <= self.doomsday.warship_drain_max_percent <= 100
        &&& 0 < self.doomsday.drain_ramp_seconds <= 1_000_000
        &&& 0 <= self.doomsday_bar <= 10_000
    }

    pub open spec fn disabled(&self, unit: UnitType) -> bool {
        self.disabled_units@.contains(unit)
    }

    /// The usual rules at this difficulty and in this mode.
    pub fn new(difficulty: Difficulty, game_mode: GameMode) -> (config: Self)
        ensures
            config.wf(),
            config == (Config {
                difficulty,
                game_mode,
                humans_vs_nations: false,
                disabled_units: config.disabled_units,
                disable_alliances: false,
                donate_gold: true,
                donate_troops: true,
                water_nukes: false,
                num_spawn_phase_turns: 300,
                alliance_request_duration: 200,
                alliance_duration: 3000,
                temporary_embargo_duration: 3000,
                boat_max_number: 3,
                starting_gold_nation: 0,
                gold_rate: 100,
                gold_rate_bot: 50,
                atom_bomb: NukeMagnitude { inner: 12, outer: 30 },
                hydrogen_bomb: NukeMagnitude { inner: 80, outer: 100 },
                mirv_warhead: NukeMagnitude { inner: 12, outer: 18 },
                warhead_deaths: config.warhead_deaths,
                nuke_speed: 6,
                nuke_targetable_range: 150,
                structure_min_dist: 15,
                radius_port_spawn: 20,
                train_station_min_range: 15,
                train_station_max_range: 110,
                train_gold_self: 10_000,
                train_gold_team: 25_000,
                train_gold_ally: 35_000,
                train_gold_other: 25_000,
                trade_ship_short_range_debuff: 300,
                silo_cooldown: 75,
                sam_cooldown: 75,
                structure_build_ticks: 20,
                atom_bomb_cost: 750_000,
                hydrogen_bomb_cost: 5_000_000,
                mirv_cost: 25_000_000,
                sam_launcher_cost: 1_500_000,
                nuke_alliance_break_threshold: 100,
                spawn_areas: config.spawn_areas,
                unit_names: config.unit_names,
                doomsday: DoomsdayClockConfig {
                    enabled: false,
                    warn_seconds: 10,
                    drain_start_percent: 2,
                    drain_max_percent: 6,
                    drain_ramp_seconds: 50,
                    warship_drain_max_percent: 50,
                },
                doomsday_bar: 0,
            }),
            config.disabled_units@.len() == 0,
            config.warhead_deaths@.len() == 0,
            config.spawn_areas@.len() == 0,
            config.unit_names@.len() == 0,
    {
        Config {
            difficulty,
            game_mode,
            humans_vs_nations: false,
            disabled_units: Vec::new(),
            disable_alliances: false,
            donate_gold: true,
            donate_troops: true,
            water_nukes: false,
            num_spawn_phase_turns: 300,
            alliance_request_duration: 200,
            alliance_duration: 3000,
            temporary_embargo_duration: 3000,
            boat_max_number: 3,
            starting_gold_nation: 0,
            gold_rate: 100,
            gold_rate_bot: 50,
            atom_bomb: NukeMagnitude { inner: 12, outer: 30 },
            hydrogen_bomb: NukeMagnitude { inner: 80, outer: 100 },
            mirv_warhead: NukeMagnitude { inner: 12, outer: 18 },
            warhead_deaths: Vec::new(),
            nuke_speed: 6,
            nuke_targetable_range: 150,
            structure_min_dist: 15,
            radius_port_spawn: 20,
            train_station_min_range: 15,
            train_station_max_range: 110,
            train_gold_self: 10_000,
            train_gold_team: 25_000,
            train_gold_ally: 35_000,
            train_gold_other: 25_000,
            trade_ship_short_range_debuff: 300,
            silo_cooldown: 75,
            sam_cooldown: 75,
            structure_build_ticks: 20,
            atom_bomb_cost: 750_000,
            hydrogen_bomb_cost: 5_000_000,
            mirv_cost: 25_000_000,
            sam_launcher_cost: 1_500_000,
            nuke_alliance_break_threshold: 100,
            spawn_areas: Vec::new(),
            unit_names: Vec::new(),
            doomsday: DoomsdayClockConfig {
                enabled: false,
                warn_seconds: 10,
                drain_start_percent: 2,
                drain_max_percent: 6,
                drain_ramp_seconds: 50,
                warship_drain_max_percent: 50,
            },
            doomsday_bar: 0,
        }
    }

    pub fn is_unit_disabled(&self, unit: UnitType) -> (disabled: bool)
        ensures
            disabled == self.disabled(unit),
    {
        for i in 0..self.disabled_units.len()
            invariant
                forall|k: int| 0 <= k < i ==> self.disabled_units@[k] != unit,
        {
            if self.disabled_units[i] == unit {
                assert(self.disabled_units@[i as int] == unit);
                return true;
            }
        }
        false
    }

    /// The blast radii of a nuke; a unit that is none has none.
    pub open spec fn magnitude(&self, nuke: UnitType) -> NukeMagnitude {
        match nuke {
            UnitType::AtomBomb => self.atom_bomb,
            UnitType::HydrogenBomb => self.hydrogen_bomb,
            UnitType::MirvWarhead => self.mirv_warhead,
            _ => NukeMagnitude { inner: 0, outer: 0 },
        }
    }

    pub fn nuke_magnitudes(&self, nuke: UnitType) -> (magnitude: NukeMagnitude)
        ensures
            magnitude == self.magnitude(nuke),
            self.wf() ==> magnitude.inner <= magnitude.outer <= 1000,
    {
        match nuke {
            UnitType::AtomBomb => self.atom_bomb,
            UnitType::HydrogenBomb => self.hydrogen_bomb,
            UnitType::MirvWarhead => self.mirv_warhead,
            _ => NukeMagnitude { inner: 0, outer: 0 },
        }
    }

    pub open spec fn is_team(&self) -> bool {
        self.game_mode == GameMode::Team
    }

    /// The ticks that building takes.
    pub open spec fn build_ticks(&self, unit: UnitType) -> u32 {
        if unit.structure() {
            self.structure_build_ticks
        } else {
            0
        }
    }

    pub fn construction_ticks(&self, unit: UnitType) -> (ticks: u32)
        ensures
            ticks == self.build_ticks(unit),
    {
        if unit.is_structure() {
            self.structure_build_ticks
        } else {
            0
        }
    }
}

/// Whether a point at squared distance `dist2` is in the range of a SAM launcher of this
/// level. The range is 150 - 480 / (level + 5) tiles.
pub open spec fn within_sam_range(dist2: int, level: int) -> bool {
    dist2 * ((level + 5) * (level + 5)) <= (150 * (level + 5) - 480) * (150 * (level + 5) - 480)
}

/// The level up to which unit levels are counted.
pub const MAX_LEVEL: i32 = 10_000;

pub fn is_within_sam_range(dist2: u64, level: i32) -> (within: bool)
    requires
        dist2 <= 8589672450,
        0 <= level <= MAX_LEVEL,
    ensures
        within == within_sam_range(dist2 as int, level as int),
{
    let l: u64 = level as u64 + 5;
    let reach: i64 = 150 * (level as i64 + 5) - 480;
    assert(l * l <= 10_005 * 10_005) by (nonlinear_arith)
        requires
            l <= 10_005,
    ;
    let square: u64 = l * l;
    assert(dist2 * square <= 8589672450 * 100_100_025) by (nonlinear_arith)
        requires
            dist2 <= 8589672450,
            square <= 100_100_025,
    ;
    assert(0 <= reach * reach <= 1_500_750 * 1_500_750) by (nonlinear_arith)
        requires
            0 <= reach <= 1_500_750,
    ;
    assert(square == (level + 5) * (level + 5));
    let lhs: u64 = dist2 * square;
    let rhs: i64 = reach * reach;
    lhs <= rhs as u64
}

} // verus!
