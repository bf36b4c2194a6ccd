//! The execution that does nothing.

use vstd::prelude::*;

use crate::execution::Execution;
use crate::game::{Game, GameView};
use crate::orders::Order;

verus! {

/// Stands in for an intent that has no effect.
pub struct NoOpExecution;

impl NoOpExecution {
    /// What the execution was created with.
    pub open spec fn order(&self) -> Order {
        Order::NoOp
    }
}

impl Execution for NoOpExecution {
    open spec fn ready(&self, game: GameView) -> bool {
        true
    }

    open spec fn begun(&self, game: GameView, tick: u32) -> GameView {
        game
    }

    open spec fn ticked(&self, game: GameView, tick: u32) -> GameView {
        game
    }

    open spec fn begun_as(&self, game: GameView, tick: u32, next: Self) -> bool {
        next == *self
    }

    open spec fn ticked_as(&self, game: GameView, tick: u32, next: Self) -> bool {
        next == *self
    }

    open spec fn going(&self) -> bool {
        false
    }

    fn init(&mut self, game: &mut Game, tick: u32) {
    }

    fn tick(&mut self, game: &mut Game, tick: u32) {
    }

    fn is_active(&self) -> (active: bool) {
        false
    }
}

} // verus!
