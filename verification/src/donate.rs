//! Giving troops away.

use vstd::prelude::*;

use crate::config::TROOP_SCALE;
use crate::execution::Execution;
use crate::game::{Game, GameView};
use crate::orders::Order;
use crate::state::MAX_TROOPS;

verus! {

/// Troops for another player. The number is scaled.
pub struct DonateTroopsExecution {
    pub sender_small_id: u16,
    pub recipient_id: String,
    pub troops: Option<i64>,
    pub active: bool,
    pub initialized: bool,
}

impl DonateTroopsExecution {
    /// What the execution was created with.
    pub open spec fn order(&self) -> Order {
        Order::DonateTroops {
            sender: self.sender_small_id,
            recipient: self.recipient_id@,
            troops: match self.troops {
                Some(n) => Some(n as int),
                None => None,
            },
        }
    }

    pub fn new(sender_small_id: u16, recipient_id: String, troops: Option<i64>) -> (execution: Self)
        ensures
            execution.sender_small_id == sender_small_id,
            execution.recipient_id == recipient_id,
            execution.troops == troops,
            execution.active,
            !execution.initialized,
    {
        DonateTroopsExecution { sender_small_id, recipient_id, troops, active: true, initialized: false }
    }
}

impl DonateTroopsExecution {
    /// The troops that are to be given, scaled: as many as were asked for, a third of the
    /// giver's otherwise, and no more than the recipient has room for.
    pub open spec fn gift(&self, game: GameView, to: u16) -> int {
        let asked = match self.troops {
            Some(t) => t as int,
            None => game.troops(self.sender_small_id) / 3 * TROOP_SCALE,
        };
        if asked < game.room_for_troops(to) {
            asked
        } else {
            game.room_for_troops(to)
        }
    }

    /// The execution after it began: it ends where there is nobody to give to or nothing to
    /// give.
    pub open spec fn first(&self, game: GameView) -> DonateTroopsExecution {
        if !self.active || self.initialized {
            *self
        } else {
            match game.known(self.recipient_id@) {
                Some(to) => if self.gift(game, to) > 0 {
                    DonateTroopsExecution {
                        initialized: true,
                        troops: Some(self.gift(game, to) as i64),
                        ..*self
                    }
                } else {
                    DonateTroopsExecution { initialized: true, active: false, ..*self }
                },
                None => DonateTroopsExecution { initialized: true, active: false, ..*self },
            }
        }
    }
}

impl GameView {
    /// The game after a player gave another troops, who thinks better of it then.
    pub open spec fn giving_troops(self, from: u16, to: u16, amount: int) -> GameView {
        let given = self.losable(from, amount);
        let paid = self.losing(from, amount);
        if given > 0 {
            paid.reinforcing(to, given * TROOP_SCALE).relating(to, from, 50)
        } else {
            paid
        }
    }
}

impl Execution for DonateTroopsExecution {
    open spec fn ready(&self, game: GameView) -> bool {
        true
    }

    open spec fn begun(&self, game: GameView, tick: u32) -> GameView {
        game
    }

    open spec fn ticked(&self, game: GameView, tick: u32) -> GameView {
        match game.known(self.recipient_id@) {
            Some(to) => if self.active && self.initialized && game.may_donate_troops(
                self.sender_small_id,
                to,
            ) {
                game.giving_troops(
                    self.sender_small_id,
                    to,
                    match self.troops {
                        Some(t) => t as int,
                        None => 0,
                    },
                )
            } else {
                game
            },
            None => game,
        }
    }

    open spec fn begun_as(&self, game: GameView, tick: u32, next: Self) -> bool {
        next == self.first(game)
    }

    open spec fn ticked_as(&self, game: GameView, tick: u32, next: Self) -> bool {
        next == (DonateTroopsExecution {
            active: self.active && !self.initialized,
            ..*self
        })
    }

    open spec fn going(&self) -> bool {
        self.active
    }

    fn init(&mut self, game: &mut Game, tick: u32) {
        if !self.active || self.initialized {
            return;
        }
        self.initialized = true;
        let to: u16 = match game.small_id_of(&self.recipient_id) {
            Some(to) => to,
            None => {
                self.active = false;
                return;
            },
        };
        let asked: i64 = match self.troops {
            Some(t) => t,
            None => game.troops_of(self.sender_small_id) / 3 * TROOP_SCALE,
        };
        let room: i64 = (game.max_troops_for(to) - game.troops_of(to) * 1000) * (TROOP_SCALE / 1000);
        let gift: i64 = if asked < room {
            asked
        } else {
            room
        };
        if gift <= 0 {
            self.active = false;
            return;
        }
        self.troops = Some(gift);
    }

    fn tick(&mut self, game: &mut Game, tick: u32) {
        if !self.active || !self.initialized {
            return;
        }
        self.active = false;
        let troops: i64 = match self.troops {
            Some(t) => t,
            None => 0,
        };
        let to: u16 = match game.small_id_of(&self.recipient_id) {
            Some(to) => to,
            None => return,
        };
        if !game.can_donate_troops(self.sender_small_id, to) {
            return;
        }
        let given: i64 = game.remove_troops(self.sender_small_id, troops);
        if given > 0 {
            game.add_troops(to, given * TROOP_SCALE);
            game.update_relation(to, self.sender_small_id, 50);
        }
    }

    fn is_active(&self) -> (active: bool) {
        self.active
    }
}

/// Troops that are given change hands: what the giver loses, the recipient gains, as far as
/// it can hold them.
pub proof fn law_given_troops(game: GameView, from: u16, to: u16, amount: int)
    requires
        game.wf(),
        game.has(from),
        game.has(to),
        from != to,
        game.troops(to) + game.losable(from, amount) <= MAX_TROOPS,
    ensures
        game.giving_troops(from, to, amount).troops(from) == game.troops(from) - game.losable(
            from,
            amount,
        ),
        game.giving_troops(from, to, amount).troops(to) == game.troops(to) + game.losable(
            from,
            amount,
        ),
{
    assert(game.players[from - 1].wf());
    assert(game.players[to - 1].wf());
}

} // verus!
