//! Deleting units.

use vstd::prelude::*;

use crate::execution::Execution;
use crate::game::{Game, GameView};
use crate::orders::Order;
use crate::state::Unit;

verus! {

/// A unit that its owner gives up.
pub struct DeleteUnitExecution {
    pub small_id: u16,
    pub unit_id: i32,
    pub active: bool,
    pub marked: bool,
}

impl DeleteUnitExecution {
    /// What the execution was created with.
    pub open spec fn order(&self) -> Order {
        Order::DeleteUnit { small_id: self.small_id, unit_id: self.unit_id }
    }

    pub fn new(small_id: u16, unit_id: i32) -> (execution: Self)
        ensures
            execution.small_id == small_id,
            execution.unit_id == unit_id,
            execution.active,
            !execution.marked,
    {
        DeleteUnitExecution { small_id, unit_id, active: true, marked: false }
    }
}

impl DeleteUnitExecution {
    /// Whether the unit may be deleted: it is the player's own and stands on its own land,
    /// nobody spawns any more, and the player has not just deleted another.
    pub open spec fn may(&self, game: GameView) -> bool {
        match game.unit(self.small_id, self.unit_id) {
            Some(u) => game.map.owner(u.tile) == self.small_id && game.map.is_land(u.tile)
                && !game.spawn_phase && game.may_delete(self.small_id),
            None => false,
        }
    }

    /// The execution after it began.
    pub open spec fn first(&self, game: GameView) -> DeleteUnitExecution {
        if self.active && self.may(game) {
            DeleteUnitExecution { marked: true, ..*self }
        } else {
            DeleteUnitExecution { active: false, ..*self }
        }
    }

    /// The execution after a tick: it ends once the unit is gone.
    pub open spec fn next(&self, game: GameView) -> DeleteUnitExecution {
        if self.active && self.marked && (game.unit(self.small_id, self.unit_id) is None
            || game.is_overdue(self.small_id, self.unit_id)) {
            DeleteUnitExecution { active: false, ..*self }
        } else {
            *self
        }
    }
}

impl Execution for DeleteUnitExecution {
    open spec fn ready(&self, game: GameView) -> bool {
        true
    }

    open spec fn begun(&self, game: GameView, tick: u32) -> GameView {
        if self.active && self.may(game) {
            game.noting_deletion(self.small_id).marking(self.small_id, self.unit_id)
        } else {
            game
        }
    }

    open spec fn ticked(&self, game: GameView, tick: u32) -> GameView {
        if self.active && self.marked && game.is_overdue(self.small_id, self.unit_id) {
            game.without_unit(self.small_id, self.unit_id)
        } else {
            game
        }
    }

    open spec fn begun_as(&self, game: GameView, tick: u32, next: Self) -> bool {
        next == self.first(game)
    }

    open spec fn ticked_as(&self, game: GameView, tick: u32, next: Self) -> bool {
        next == self.next(game)
    }

    open spec fn going(&self) -> bool {
        self.active
    }

    fn init(&mut self, game: &mut Game, tick: u32) {
        if !self.active {
            return;
        }
        let u: Unit = match game.unit(self.small_id, self.unit_id) {
            Some(u) => u,
            None => {
                self.active = false;
                return;
            },
        };
        if game.map.owner_id(u.tile) != self.small_id || !game.map.is_land(u.tile)
            || game.in_spawn_phase() || !game.can_delete_unit(self.small_id) {
            self.active = false;
            return;
        }
        game.record_delete_unit(self.small_id);
        game.mark_unit_for_deletion(self.small_id, self.unit_id);
        self.marked = true;
    }

    fn tick(&mut self, game: &mut Game, tick: u32) {
        if !self.active || !self.marked {
            return;
        }
        if !game.unit_exists(self.small_id, self.unit_id) {
            self.active = false;
            return;
        }
        if game.is_unit_overdue_deletion(self.small_id, self.unit_id) {
            game.remove_unit(self.small_id, self.unit_id);
            self.active = false;
        }
    }

    fn is_active(&self) -> (active: bool) {
        self.active
    }
}

/// A deletion that is refused ends at once and leaves the game as it was.
pub proof fn law_refused_deletion(execution: DeleteUnitExecution, game: GameView, tick: u32)
    requires
        !execution.may(game),
    ensures
        execution.begun(game, tick) == game,
        !execution.first(game).going(),
{
}

} // verus!
