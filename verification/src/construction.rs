//! Building structures and launching what is no structure.

use vstd::prelude::*;

use crate::city_execution::CityExecution;
use crate::defense_post_execution::DefensePostExecution;
use crate::exec_enum::ExecEnum;
use crate::execution::Execution;
use crate::factory_execution::FactoryExecution;
use crate::game::{Game, GameView};
use crate::mirv_execution::MirvExecution;
use crate::missile_silo_execution::MissileSiloExecution;
use crate::nuke_execution::NukeExecution;
use crate::ordered_tiles::TileRef;
use crate::orders::Order;
use crate::orders::SamLauncherExecution;
use crate::orders::WarshipExecution;
use crate::port_execution::PortExecution;
use crate::unit_type::UnitType;

verus! {

/// A unit that is being built.
pub struct ConstructionExecution {
    pub small_id: u16,
    pub unit_type: UnitType,
    pub tile: TileRef,
    pub rocket_direction_up: bool,
    pub unit_id: Option<i32>,
    pub ticks_until_complete: u32,
    pub active: bool,
    pub delegated: bool,
}

impl ConstructionExecution {
    /// What the execution was created with.
    pub open spec fn order(&self) -> Order {
        Order::Construction {
            small_id: self.small_id,
            unit_type: self.unit_type,
            tile: self.tile,
            rocket_direction_up: self.rocket_direction_up,
        }
    }

    pub fn new(small_id: u16, unit_type: UnitType, tile: TileRef, rocket_direction_up: bool) -> (execution: Self)
        ensures
            execution.small_id == small_id,
            execution.unit_type == unit_type,
            execution.tile == tile,
            execution.rocket_direction_up == rocket_direction_up,
            execution.unit_id is None,
            execution.ticks_until_complete == 0,
            execution.active,
            !execution.delegated,
    {
        ConstructionExecution { small_id, unit_type, tile, rocket_direction_up, unit_id: None, ticks_until_complete: 0, active: true, delegated: false }
    }
}

impl GameView {
    /// The game after a structure was finished: it starts to work.
    pub open spec fn completing(self, sid: u16, unit_type: UnitType, id: i32) -> GameView {
        let finished = self.constructing(sid, id, false);
        match unit_type {
            UnitType::City => finished.ordering(Order::City { small_id: sid, unit_id: id }),
            UnitType::DefensePost => finished.ordering(
                Order::DefensePost { small_id: sid, unit_id: id },
            ),
            UnitType::Port => finished.ordering(Order::Port { small_id: sid, unit_id: id }),
            UnitType::Factory => finished.ordering(Order::Factory { small_id: sid, unit_id: id }),
            UnitType::MissileSilo => finished.ordering(
                Order::MissileSilo { small_id: sid, unit_id: id },
            ),
            UnitType::SamLauncher => finished.ordering(
                Order::SamLauncher { small_id: sid, unit_id: id },
            ),
            _ => finished,
        }
    }

    /// The game after something that is no structure was launched.
    pub open spec fn launching(
        self,
        sid: u16,
        unit_type: UnitType,
        tile: TileRef,
        rocket_direction_up: bool,
    ) -> GameView {
        match unit_type {
            UnitType::AtomBomb | UnitType::HydrogenBomb => self.ordering(
                Order::Nuke {
                    nuke_type: unit_type,
                    owner: sid,
                    dst: tile,
                    src: None,
                    speed: None,
                    wait_ticks: 0,
                    rocket_direction_up,
                },
            ),
            UnitType::Mirv => self.ordering(Order::Mirv { owner: sid, dst: tile }),
            UnitType::Warship => self.ordering(Order::Warship { small_id: sid, tile }),
            _ => self,
        }
    }
}

/// Lets a finished structure start to work.
fn complete_construction(game: &mut Game, small_id: u16, unit_type: UnitType, unit_id: i32)
    requires
        old(game).wf(),
    ensures
        final(game).wf(),
        final(game)@ == old(game)@.completing(small_id, unit_type, unit_id),
{
    game.set_unit_under_construction(small_id, unit_id, false);
    match unit_type {
        UnitType::City => game.add_execution(ExecEnum::City(CityExecution::new(small_id, unit_id))),
        UnitType::DefensePost => game.add_execution(
            ExecEnum::DefensePost(DefensePostExecution::new(small_id, unit_id)),
        ),
        UnitType::Port => game.add_execution(ExecEnum::Port(PortExecution::new(small_id, unit_id))),
        UnitType::Factory => game.add_execution(
            ExecEnum::Factory(FactoryExecution::new(small_id, unit_id)),
        ),
        UnitType::MissileSilo => game.add_execution(
            ExecEnum::MissileSilo(MissileSiloExecution::new(small_id, unit_id)),
        ),
        UnitType::SamLauncher => game.add_execution(
            ExecEnum::SamLauncher(SamLauncherExecution::new(small_id, unit_id)),
        ),
        _ => {},
    }
}

impl ConstructionExecution {
    /// A structure that will be finished after `ticks` more ticks.
    pub fn mid_build(small_id: u16, unit_type: UnitType, unit_id: i32, ticks: u32) -> (execution: Self)
        ensures
            execution == (ConstructionExecution {
                small_id,
                unit_type,
                tile: 0,
                rocket_direction_up: true,
                unit_id: Some(unit_id),
                ticks_until_complete: ticks,
                active: true,
                delegated: false,
            }),
    {
        ConstructionExecution {
            small_id,
            unit_type,
            tile: 0,
            rocket_direction_up: true,
            unit_id: Some(unit_id),
            ticks_until_complete: ticks,
            active: true,
            delegated: false,
        }
    }

    /// Where the structure is to stand, if it can and the player has the gold for it.
    pub open spec fn place(&self, game: GameView) -> Option<TileRef> {
        match game.site(self.small_id, self.unit_type, self.tile) {
            Some(site) => if game.map.valid(self.tile) && game.has(self.small_id) && game.gold(self.small_id) >= game.cost(
                self.small_id,
                self.unit_type,
            ) {
                Some(site)
            } else {
                None
            },
            None => None,
        }
    }

    /// The game after the structure was laid out.
    pub open spec fn laid_out(&self, game: GameView) -> GameView {
        match self.place(game) {
            Some(site) => {
                let built = game.building(self.small_id, self.unit_type, site);
                let id = game.next_unit_id;
                if game.config.build_ticks(self.unit_type) > 0 {
                    built.constructing(self.small_id, id, true)
                } else {
                    built.completing(self.small_id, self.unit_type, id)
                }
            },
            None => game,
        }
    }

    /// The execution after it began.
    pub open spec fn first(&self, game: GameView) -> ConstructionExecution {
        ConstructionExecution {
            active: self.active && !game.config.disabled(self.unit_type) && game.map.valid(self.tile),
            ..*self
        }
    }

    /// The execution after a tick. One that launches something or lays out a structure that
    /// cannot be built or needs no time is done; a structure under construction is followed
    /// to its owner.
    pub open spec fn next(&self, game: GameView) -> ConstructionExecution {
        if !self.active {
            *self
        } else if !self.delegated && !self.unit_type.structure() {
            ConstructionExecution { delegated: true, active: false, ..*self }
        } else {
            match self.unit_id {
                None => if self.place(game) is Some && game.config.build_ticks(self.unit_type) > 0 {
                    ConstructionExecution {
                        unit_id: Some(game.next_unit_id),
                        ticks_until_complete: game.config.build_ticks(self.unit_type),
                        ..*self
                    }
                } else {
                    ConstructionExecution { active: false, ..*self }
                },
                Some(id) => match game.unit_owner(id) {
                    None => ConstructionExecution { active: false, ..*self },
                    Some(owner) => if self.ticks_until_complete == 0 {
                        ConstructionExecution { small_id: owner, active: false, ..*self }
                    } else {
                        ConstructionExecution {
                            small_id: owner,
                            ticks_until_complete: (self.ticks_until_complete - 1) as u32,
                            ..*self
                        }
                    },
                },
            }
        }
    }

    /// Launches what is no structure.
    fn launch(&mut self, game: &mut Game)
        requires
            old(game).wf(),
        ensures
            final(game).wf(),
            final(game)@ == old(game)@.launching(
                old(self).small_id,
                old(self).unit_type,
                old(self).tile,
                old(self).rocket_direction_up,
            ),
            *final(self) == (ConstructionExecution { delegated: true, active: false, ..*old(self) }),
    {
        self.delegated = true;
        self.active = false;
        match self.unit_type {
            UnitType::AtomBomb | UnitType::HydrogenBomb => game.add_execution(
                ExecEnum::Nuke(
                    NukeExecution::new(
                        self.unit_type,
                        self.small_id,
                        self.tile,
                        None,
                        None,
                        0,
                        self.rocket_direction_up,
                    ),
                ),
            ),
            UnitType::Mirv => game.add_execution(
                ExecEnum::Mirv(MirvExecution::new(self.small_id, self.tile)),
            ),
            UnitType::Warship => game.add_execution(
                ExecEnum::Warship(WarshipExecution::new(self.small_id, self.tile)),
            ),
            _ => {},
        }
    }

    /// Lays out the structure.
    fn lay_out(&mut self, game: &mut Game)
        requires
            old(game).wf(),
            old(game)@.map.valid(old(self).tile),
            old(self).active,
            old(self).delegated || old(self).unit_type.structure(),
            old(self).unit_id is None,
        ensures
            final(game).wf(),
            final(game)@ == old(self).laid_out(old(game)@),
            *final(self) == old(self).next(old(game)@),
    {
        let site: TileRef = match crate::spawn_tiles::resolve_structure_spawn_tile(
            game,
            self.small_id,
            self.unit_type,
            self.tile,
        ) {
            Some(site) => site,
            None => {
                self.active = false;
                return;
            },
        };
        let cost: i64 = game.structure_cost(self.small_id, self.unit_type);
        if game.player_by_small_id(self.small_id).is_none() || game.gold_of(self.small_id) < cost {
            self.active = false;
            return;
        }
        let duration: u32 = game.wire.construction_ticks(self.unit_type);
        let id: i32 = game.build_unit(self.small_id, self.unit_type, site);
        if duration > 0 {
            game.set_unit_under_construction(self.small_id, id, true);
            self.unit_id = Some(id);
            self.ticks_until_complete = duration;
        } else {
            complete_construction(game, self.small_id, self.unit_type, id);
            self.active = false;
        }
    }
}

impl Execution for ConstructionExecution {
    open spec fn ready(&self, game: GameView) -> bool {
        true
    }

    open spec fn begun(&self, game: GameView, tick: u32) -> GameView {
        game
    }

    open spec fn ticked(&self, game: GameView, tick: u32) -> GameView {
        if !self.active {
            game
        } else if !self.delegated && !self.unit_type.structure() {
            game.launching(self.small_id, self.unit_type, self.tile, self.rocket_direction_up)
        } else {
            match self.unit_id {
                None => self.laid_out(game),
                Some(id) => match game.unit_owner(id) {
                    Some(owner) if self.ticks_until_complete == 0 => game.completing(
                        owner,
                        self.unit_type,
                        id,
                    ),
                    _ => game,
                },
            }
        }
    }

    open spec fn begun_as(&self, game: GameView, tick: u32, next: Self) -> bool {
        next == self.first(game)
    }

    open spec fn ticked_as(&self, game: GameView, tick: u32, next: Self) -> bool {
        next == self.next(game)
    }

    open spec fn going(&self) -> bool {
        self.active
    }

    fn init(&mut self, game: &mut Game, tick: u32) {
        if game.wire.is_unit_disabled(self.unit_type) || self.tile as usize
            >= game.map.tiles.len() {
            self.active = false;
        }
    }

    fn tick(&mut self, game: &mut Game, tick: u32) {
        if !self.active {
            return;
        }
        if !self.delegated && !self.unit_type.is_structure() {
            self.launch(game);
            return;
        }
        match self.unit_id {
            None => {
                if self.tile as usize >= game.map.tiles.len() {
                    self.active = false;
                } else {
                    self.lay_out(game);
                }
            },
            Some(id) => {
                match game.find_unit_owner(id) {
                    None => {
                        self.active = false;
                    },
                    Some(owner) => {
                        self.small_id = owner;
                        if self.ticks_until_complete == 0 {
                            complete_construction(game, owner, self.unit_type, id);
                            self.active = false;
                        } else {
                            self.ticks_until_complete = self.ticks_until_complete - 1;
                        }
                    },
                }
            },
        }
    }

    fn is_active(&self) -> (active: bool) {
        self.active
    }
}

/// A structure that is captured while it is built is finished for its captor, after the
/// same number of ticks.
pub proof fn law_captured_construction(
    execution: ConstructionExecution,
    game: GameView,
    id: i32,
    owner: u16,
    tick: u32,
)
    requires
        execution.active,
        execution.unit_type.structure(),
        execution.unit_id == Some(id),
        game.unit_owner(id) == Some(owner),
    ensures
        execution.next(game).small_id == owner,
        execution.ticks_until_complete > 0 ==> execution.next(game).ticks_until_complete
            == execution.ticks_until_complete - 1 && execution.ticked(game, tick) == game,
        execution.ticks_until_complete == 0 ==> execution.ticked(game, tick) == game.completing(
            owner,
            execution.unit_type,
            id,
        ) && !execution.next(game).going(),
{
}

} // verus!
