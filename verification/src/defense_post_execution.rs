//! Defense posts.

use vstd::prelude::*;

use crate::execution::Execution;
use crate::game::{Game, GameView};
use crate::orders::Order;

verus! {

/// A defense post at work.
pub struct DefensePostExecution {
    pub small_id: u16,
    pub unit_id: i32,
    pub active: bool,
}

impl DefensePostExecution {
    /// What the execution was created with.
    pub open spec fn order(&self) -> Order {
        Order::DefensePost { small_id: self.small_id, unit_id: self.unit_id }
    }

    pub fn new(small_id: u16, unit_id: i32) -> (execution: Self)
        ensures
            execution.small_id == small_id,
            execution.unit_id == unit_id,
            execution.active,
    {
        DefensePostExecution { small_id, unit_id, active: true }
    }
}

impl DefensePostExecution {
    /// The execution after a tick: it follows the post to its owner and ends with it.
    pub open spec fn next(&self, game: GameView) -> DefensePostExecution {
        if !self.active {
            *self
        } else {
            match game.unit_owner(self.unit_id) {
                Some(owner) => DefensePostExecution {
                    small_id: owner,
                    active: game.unit(owner, self.unit_id) is Some,
                    ..*self
                },
                None => DefensePostExecution { active: false, ..*self },
            }
        }
    }
}

impl Execution for DefensePostExecution {
    open spec fn ready(&self, game: GameView) -> bool {
        true
    }

    open spec fn begun(&self, game: GameView, tick: u32) -> GameView {
        game
    }

    /// A defense post fires at nothing.
    open spec fn ticked(&self, game: GameView, tick: u32) -> GameView {
        game
    }

    open spec fn begun_as(&self, game: GameView, tick: u32, next: Self) -> bool {
        next == *self
    }

    open spec fn ticked_as(&self, game: GameView, tick: u32, next: Self) -> bool {
        next == self.next(game)
    }

    open spec fn going(&self) -> bool {
        self.active
    }

    fn init(&mut self, game: &mut Game, tick: u32) {
    }

    fn tick(&mut self, game: &mut Game, tick: u32) {
        if !self.active {
            return;
        }
        match game.find_unit_owner(self.unit_id) {
            Some(owner) => {
                self.small_id = owner;
                if !game.unit_exists(owner, self.unit_id) {
                    self.active = false;
                }
            },
            None => {
                self.active = false;
            },
        }
    }

    fn is_active(&self) -> (active: bool) {
        self.active
    }
}

} // verus!
