//! Calling attacks and boats back.

use vstd::prelude::*;

use crate::execution::Execution;
use crate::game::{Game, GameView};
use crate::orders::Order;

verus! {

/// An attack that is called back.
pub struct RetreatExecution {
    pub owner_small_id: u16,
    pub attack_id: String,
    pub start_tick: u32,
    pub retreat_ordered: bool,
    pub active: bool,
}

impl RetreatExecution {
    /// What the execution was created with.
    pub open spec fn order(&self) -> Order {
        Order::Retreat { owner: self.owner_small_id, attack_id: self.attack_id@ }
    }

    pub fn new(owner_small_id: u16, attack_id: String) -> (execution: Self)
        ensures
            execution.owner_small_id == owner_small_id,
            execution.attack_id == attack_id,
            execution.start_tick == 0,
            !execution.retreat_ordered,
            execution.active,
    {
        RetreatExecution { owner_small_id, attack_id, start_tick: 0, retreat_ordered: false, active: true }
    }
}

/// A boat that is called back.
pub struct BoatRetreatExecution {
    pub owner_small_id: u16,
    pub unit_id: i32,
    pub active: bool,
}

impl BoatRetreatExecution {
    /// What the execution was created with.
    pub open spec fn order(&self) -> Order {
        Order::BoatRetreat { owner: self.owner_small_id, unit_id: self.unit_id }
    }

    pub fn new(owner_small_id: u16, unit_id: i32) -> (execution: Self)
        ensures
            execution.owner_small_id == owner_small_id,
            execution.unit_id == unit_id,
            execution.active,
    {
        BoatRetreatExecution { owner_small_id, unit_id, active: true }
    }
}

/// The ticks after which a retreat is carried out.
pub const CANCEL_DELAY: u32 = 20;

impl RetreatExecution {
    /// Whether the retreat is carried out on a tick.
    pub open spec fn is_due(&self, tick: u32) -> bool {
        tick == u32::MAX || tick >= self.start_tick + CANCEL_DELAY
    }

    /// The execution after a tick.
    pub open spec fn next(&self, tick: u32) -> RetreatExecution {
        if !self.active {
            *self
        } else {
            RetreatExecution { retreat_ordered: true, active: !self.is_due(tick), ..*self }
        }
    }
}

impl Execution for RetreatExecution {
    open spec fn ready(&self, game: GameView) -> bool {
        true
    }

    open spec fn begun(&self, game: GameView, tick: u32) -> GameView {
        game
    }

    /// A retreat is ordered at once and carried out after a while.
    open spec fn ticked(&self, game: GameView, tick: u32) -> GameView {
        if !self.active {
            game
        } else {
            let ordered = if self.retreat_ordered {
                game
            } else {
                game.ordering_retreat(self.owner_small_id, self.attack_id@)
            };
            if self.is_due(tick) {
                ordered.retreating(self.owner_small_id, self.attack_id@)
            } else {
                ordered
            }
        }
    }

    open spec fn begun_as(&self, game: GameView, tick: u32, next: Self) -> bool {
        next == (RetreatExecution { start_tick: tick, ..*self })
    }

    open spec fn ticked_as(&self, game: GameView, tick: u32, next: Self) -> bool {
        next == self.next(tick)
    }

    open spec fn going(&self) -> bool {
        self.active
    }

    fn init(&mut self, game: &mut Game, tick: u32) {
        self.start_tick = tick;
    }

    fn tick(&mut self, game: &mut Game, tick: u32) {
        if !self.active {
            return;
        }
        if !self.retreat_ordered {
            game.order_retreat(self.owner_small_id, &self.attack_id);
            self.retreat_ordered = true;
        }
        if tick == u32::MAX || tick as u64 >= self.start_tick as u64 + CANCEL_DELAY as u64 {
            game.execute_retreat(self.owner_small_id, &self.attack_id);
            self.active = false;
        }
    }

    fn is_active(&self) -> (active: bool) {
        self.active
    }
}

impl Execution for BoatRetreatExecution {
    open spec fn ready(&self, game: GameView) -> bool {
        true
    }

    open spec fn begun(&self, game: GameView, tick: u32) -> GameView {
        game
    }

    open spec fn ticked(&self, game: GameView, tick: u32) -> GameView {
        game.turning_back(self.owner_small_id, self.unit_id)
    }

    open spec fn begun_as(&self, game: GameView, tick: u32, next: Self) -> bool {
        next == *self
    }

    open spec fn ticked_as(&self, game: GameView, tick: u32, next: Self) -> bool {
        next == (BoatRetreatExecution { active: false, ..*self })
    }

    open spec fn going(&self) -> bool {
        self.active
    }

    fn init(&mut self, game: &mut Game, tick: u32) {
    }

    fn tick(&mut self, game: &mut Game, tick: u32) {
        game.order_boat_retreat(self.owner_small_id, self.unit_id);
        self.active = false;
    }

    fn is_active(&self) -> (active: bool) {
        self.active
    }
}

/// A retreat goes on for exactly as long as it is not due: an attack is told to retreat on
/// the first tick and is back only once the delay is over.
pub proof fn law_retreat_takes_its_time(execution: RetreatExecution, game: GameView, tick: u32)
    requires
        execution.active,
        tick < execution.start_tick + CANCEL_DELAY,
        tick < u32::MAX,
    ensures
        execution.next(tick).going(),
        execution.next(tick).retreat_ordered,
        execution.ticked(game, tick) == (if execution.retreat_ordered {
            game
        } else {
            game.ordering_retreat(execution.owner_small_id, execution.attack_id@)
        }),
{
}

} // verus!
