//! Factories.

use vstd::prelude::*;

use crate::exec_enum::ExecEnum;
use crate::execution::Execution;
use crate::game::{Game, GameView};
use crate::orders::Order;
use crate::orders::TrainStationExecution;

verus! {

/// A factory at work.
pub struct FactoryExecution {
    pub small_id: u16,
    pub unit_id: i32,
    pub active: bool,
    pub station_created: bool,
}

impl FactoryExecution {
    /// What the execution was created with.
    pub open spec fn order(&self) -> Order {
        Order::Factory { small_id: self.small_id, unit_id: self.unit_id }
    }

    pub fn new(small_id: u16, unit_id: i32) -> (execution: Self)
        ensures
            execution.small_id == small_id,
            execution.unit_id == unit_id,
            execution.active,
            !execution.station_created,
    {
        FactoryExecution { small_id, unit_id, active: true, station_created: false }
    }
}

impl FactoryExecution {
    /// The execution after a tick: it ends when the factory no longer stands.
    pub open spec fn next(&self, game: GameView) -> FactoryExecution {
        if !self.active {
            *self
        } else {
            FactoryExecution {
                station_created: true,
                active: match game.unit(self.small_id, self.unit_id) {
                    Some(u) => !u.under_construction,
                    None => false,
                },
                ..*self
            }
        }
    }
}

impl Execution for FactoryExecution {
    open spec fn ready(&self, game: GameView) -> bool {
        true
    }

    open spec fn begun(&self, game: GameView, tick: u32) -> GameView {
        game
    }

    /// On its first tick the factory opens a station that sends out trains.
    open spec fn ticked(&self, game: GameView, tick: u32) -> GameView {
        if self.active && !self.station_created {
            game.ordering(
                Order::TrainStation {
                    small_id: self.small_id,
                    unit_id: self.unit_id,
                    spawns_trains: true,
                },
            )
        } else {
            game
        }
    }

    open spec fn begun_as(&self, game: GameView, tick: u32, next: Self) -> bool {
        next == *self
    }

    open spec fn ticked_as(&self, game: GameView, tick: u32, next: Self) -> bool {
        next == self.next(game)
    }

    open spec fn going(&self) -> bool {
        self.active
    }

    fn init(&mut self, game: &mut Game, tick: u32) {
    }

    fn tick(&mut self, game: &mut Game, tick: u32) {
        if !self.active {
            return;
        }
        if !self.station_created {
            game.add_execution(
                ExecEnum::TrainStation(
                    TrainStationExecution::new(self.small_id, self.unit_id, true),
                ),
            );
            self.station_created = true;
        }
        let standing: bool = match game.unit(self.small_id, self.unit_id) {
            Some(u) => !u.under_construction,
            None => false,
        };
        if !standing {
            self.active = false;
        }
    }

    fn is_active(&self) -> (active: bool) {
        self.active
    }
}

} // verus!
