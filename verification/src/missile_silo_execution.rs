//! Missile silos.

use vstd::prelude::*;

use crate::execution::Execution;
use crate::game::{Game, GameView};
use crate::orders::Order;
use crate::state::Unit;

verus! {

/// A missile silo at work.
pub struct MissileSiloExecution {
    pub small_id: u16,
    pub unit_id: i32,
    pub active: bool,
}

impl MissileSiloExecution {
    /// What the execution was created with.
    pub open spec fn order(&self) -> Order {
        Order::MissileSilo { small_id: self.small_id, unit_id: self.unit_id }
    }

    pub fn new(small_id: u16, unit_id: i32) -> (execution: Self)
        ensures
            execution.small_id == small_id,
            execution.unit_id == unit_id,
            execution.active,
    {
        MissileSiloExecution { small_id, unit_id, active: true }
    }
}

impl MissileSiloExecution {
    /// Whether a missile of the silo is loaded again: it was launched a cooldown ago.
    pub open spec fn reloads(&self, game: GameView) -> bool {
        match game.unit(self.small_id, self.unit_id) {
            Some(u) => !u.under_construction && game.launches_of(self.unit_id).len() > 0
                && game.config.silo_cooldown <= game.tick - game.launches_of(self.unit_id)[0].tick,
            None => false,
        }
    }

    /// The execution after a tick: it ends when the silo is gone.
    pub open spec fn next(&self, game: GameView) -> MissileSiloExecution {
        MissileSiloExecution {
            active: self.active && game.unit(self.small_id, self.unit_id) is Some,
            ..*self
        }
    }
}

impl Execution for MissileSiloExecution {
    open spec fn ready(&self, game: GameView) -> bool {
        true
    }

    open spec fn begun(&self, game: GameView, tick: u32) -> GameView {
        game
    }

    open spec fn ticked(&self, game: GameView, tick: u32) -> GameView {
        if self.reloads(game) {
            game.reloading(self.small_id, self.unit_id)
        } else {
            game
        }
    }

    open spec fn begun_as(&self, game: GameView, tick: u32, next: Self) -> bool {
        next == *self
    }

    open spec fn ticked_as(&self, game: GameView, tick: u32, next: Self) -> bool {
        next == self.next(game)
    }

    open spec fn going(&self) -> bool {
        self.active
    }

    fn init(&mut self, game: &mut Game, tick: u32) {
    }

    fn tick(&mut self, game: &mut Game, tick: u32) {
        let u: Unit = match game.unit(self.small_id, self.unit_id) {
            Some(u) => u,
            None => {
                self.active = false;
                return;
            },
        };
        if u.under_construction {
            return;
        }
        let launches = game.launches_of_unit(self.unit_id);
        if launches.len() == 0 {
            return;
        }
        let cooldown: i64 = game.wire.silo_cooldown as i64 - (game.tick as i64 - launches[0].tick as i64);
        if cooldown <= 0 {
            game.unit_reload_missile(self.small_id, self.unit_id);
        }
    }

    fn is_active(&self) -> (active: bool) {
        self.active
    }
}

} // verus!
