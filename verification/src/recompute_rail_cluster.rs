//! Keeping the rail clusters up to date.

use vstd::prelude::*;

use crate::execution::Execution;
use crate::game::{Game, GameView};
use crate::orders::Order;

verus! {

/// Has the rail clusters worked out anew, tick by tick.
pub struct RecomputeRailClusterExecution;

impl RecomputeRailClusterExecution {
    /// What the execution was created with.
    pub open spec fn order(&self) -> Order {
        Order::RecomputeRailCluster
    }

    pub fn new() -> (execution: Self)
        ensures
            execution == RecomputeRailClusterExecution,
    {
        RecomputeRailClusterExecution
    }
}

impl Default for RecomputeRailClusterExecution {
    fn default() -> (execution: Self)
        ensures
            execution == RecomputeRailClusterExecution,
    {
        Self::new()
    }
}

impl Execution for RecomputeRailClusterExecution {
    open spec fn ready(&self, game: GameView) -> bool {
        true
    }

    open spec fn begun(&self, game: GameView, tick: u32) -> GameView {
        game
    }

    /// The rail network, which keeps the clusters, is asked to work them out anew.
    open spec fn ticked(&self, game: GameView, tick: u32) -> GameView {
        GameView { rails_due: true, ..game }
    }

    open spec fn begun_as(&self, game: GameView, tick: u32, next: Self) -> bool {
        next == *self
    }

    open spec fn ticked_as(&self, game: GameView, tick: u32, next: Self) -> bool {
        next == *self
    }

    open spec fn going(&self) -> bool {
        true
    }

    fn init(&mut self, game: &mut Game, tick: u32) {
    }

    fn tick(&mut self, game: &mut Game, tick: u32) {
        game.ask_for_rails();
    }

    fn is_active(&self) -> (active: bool) {
        true
    }
}

} // verus!
