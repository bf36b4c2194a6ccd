//! Sending warships somewhere else.

use vstd::prelude::*;

use crate::execution::Execution;
use crate::game::{Game, GameView};
use crate::ordered_tiles::TileRef;
use crate::orders::Order;

verus! {

/// A new patrol position for warships.
pub struct MoveWarshipExecution {
    pub owner_small_id: u16,
    pub unit_ids: Vec<i32>,
    pub position: TileRef,
}

impl MoveWarshipExecution {
    /// What the execution was created with.
    pub open spec fn order(&self) -> Order {
        Order::MoveWarship {
            owner: self.owner_small_id,
            unit_ids: self.unit_ids@,
            position: self.position,
        }
    }

    pub fn new(owner_small_id: u16, unit_ids: Vec<i32>, position: TileRef) -> (execution: Self)
        ensures
            execution.owner_small_id == owner_small_id,
            execution.unit_ids == unit_ids,
            execution.position == position,
    {
        MoveWarshipExecution { owner_small_id, unit_ids, position }
    }
}

impl Execution for MoveWarshipExecution {
    open spec fn ready(&self, game: GameView) -> bool {
        true
    }

    open spec fn begun(&self, game: GameView, tick: u32) -> GameView {
        game.patrolling_all(self.owner_small_id, self.unit_ids@, self.position)
    }

    open spec fn ticked(&self, game: GameView, tick: u32) -> GameView {
        game
    }

    open spec fn begun_as(&self, game: GameView, tick: u32, next: Self) -> bool {
        next == *self
    }

    open spec fn ticked_as(&self, game: GameView, tick: u32, next: Self) -> bool {
        next == *self
    }

    open spec fn going(&self) -> bool {
        false
    }

    fn init(&mut self, game: &mut Game, tick: u32) {
        game.move_warships(self.owner_small_id, &self.unit_ids, self.position);
    }

    fn tick(&mut self, game: &mut Game, tick: u32) {
    }

    fn is_active(&self) -> (active: bool) {
        false
    }
}

} // verus!
