//! Noting that a player lost or regained its connection.

use vstd::prelude::*;

use crate::execution::Execution;
use crate::game::{Game, GameView};
use crate::orders::Order;
use crate::state::Player;

verus! {

/// A change of a player's connection.
pub struct MarkDisconnectedExecution {
    pub small_id: u16,
    pub disconnected: bool,
}

impl MarkDisconnectedExecution {
    /// What the execution was created with.
    pub open spec fn order(&self) -> Order {
        Order::MarkDisconnected { small_id: self.small_id, disconnected: self.disconnected }
    }

    pub fn new(small_id: u16, disconnected: bool) -> (execution: Self)
        ensures
            execution.small_id == small_id,
            execution.disconnected == disconnected,
    {
        MarkDisconnectedExecution { small_id, disconnected }
    }
}

impl GameView {
    /// The game after a player was found connected or not.
    pub open spec fn connection(self, sid: u16, disconnected: bool) -> GameView {
        if self.has(sid) {
            self.with_player(sid, Player { is_disconnected: disconnected, ..self.player(sid) })
        } else {
            self
        }
    }
}

impl Execution for MarkDisconnectedExecution {
    open spec fn ready(&self, game: GameView) -> bool {
        true
    }

    open spec fn begun(&self, game: GameView, tick: u32) -> GameView {
        game.connection(self.small_id, self.disconnected)
    }

    open spec fn ticked(&self, game: GameView, tick: u32) -> GameView {
        game
    }

    open spec fn begun_as(&self, game: GameView, tick: u32, next: Self) -> bool {
        next == *self
    }

    open spec fn ticked_as(&self, game: GameView, tick: u32, next: Self) -> bool {
        next == *self
    }

    open spec fn going(&self) -> bool {
        false
    }

    fn init(&mut self, game: &mut Game, tick: u32) {
        let sid: u16 = self.small_id;
        if sid >= 1 && sid as usize <= game.players.len() {
            game.players[sid as usize - 1].is_disconnected = self.disconnected;
        }
    }

    fn tick(&mut self, game: &mut Game, tick: u32) {
    }

    fn is_active(&self) -> (active: bool) {
        false
    }
}

/// What was said last of a player's connection holds; saying it twice changes nothing.
pub proof fn law_last_connection_holds(game: GameView, sid: u16, first: bool, last: bool)
    ensures
        game.connection(sid, first).connection(sid, last) == game.connection(sid, last),
{
    if game.has(sid) {
        assert(game.connection(sid, first).connection(sid, last).players =~= game.connection(
            sid,
            last,
        ).players);
    }
}

/// The connections of different players do not affect each other.
pub proof fn law_connections_are_independent(game: GameView, a: u16, b: u16, x: bool, y: bool)
    requires
        a != b,
    ensures
        game.connection(a, x).connection(b, y) == game.connection(b, y).connection(a, x),
{
    let ab = game.connection(a, x).connection(b, y);
    let ba = game.connection(b, y).connection(a, x);
    assert(ab.players =~= ba.players);
}

} // verus!
