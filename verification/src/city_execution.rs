//! Cities.

use vstd::prelude::*;

use crate::execution::Execution;
use crate::game::{Game, GameView};
use crate::orders::Order;

verus! {

/// A city at work.
pub struct CityExecution {
    pub small_id: u16,
    pub unit_id: i32,
    pub active: bool,
    pub station_created: bool,
}

impl CityExecution {
    /// What the execution was created with.
    pub open spec fn order(&self) -> Order {
        Order::City { small_id: self.small_id, unit_id: self.unit_id }
    }

    pub fn new(small_id: u16, unit_id: i32) -> (execution: Self)
        ensures
            execution.small_id == small_id,
            execution.unit_id == unit_id,
            execution.active,
            !execution.station_created,
    {
        CityExecution { small_id, unit_id, active: true, station_created: false }
    }
}

impl CityExecution {
    /// The execution after a tick: it follows the city to its owner and ends with it.
    pub open spec fn next(&self, game: GameView) -> CityExecution {
        if !self.active {
            *self
        } else {
            match game.unit_owner(self.unit_id) {
                Some(owner) => CityExecution { small_id: owner, station_created: true, ..*self },
                None => CityExecution { active: false, ..*self },
            }
        }
    }
}

impl Execution for CityExecution {
    open spec fn ready(&self, game: GameView) -> bool {
        true
    }

    open spec fn begun(&self, game: GameView, tick: u32) -> GameView {
        game
    }

    /// On its first tick the city looks for a factory to be connected with.
    open spec fn ticked(&self, game: GameView, tick: u32) -> GameView {
        match game.unit_owner(self.unit_id) {
            Some(owner) => if self.active && !self.station_created {
                game.connecting(owner, self.unit_id)
            } else {
                game
            },
            None => game,
        }
    }

    open spec fn begun_as(&self, game: GameView, tick: u32, next: Self) -> bool {
        next == *self
    }

    open spec fn ticked_as(&self, game: GameView, tick: u32, next: Self) -> bool {
        next == self.next(game)
    }

    open spec fn going(&self) -> bool {
        self.active
    }

    fn init(&mut self, game: &mut Game, tick: u32) {
    }

    fn tick(&mut self, game: &mut Game, tick: u32) {
        if !self.active {
            return;
        }
        match game.find_unit_owner(self.unit_id) {
            Some(owner) => {
                self.small_id = owner;
                if !self.station_created {
                    game.connect_to_rails(owner, self.unit_id);
                    self.station_created = true;
                }
            },
            None => {
                self.active = false;
            },
        }
    }

    fn is_active(&self) -> (active: bool) {
        self.active
    }
}

} // verus!
