//! Starting and stopping embargoes.

use vstd::prelude::*;

use crate::execution::Execution;
use crate::game::{Game, GameView};
use crate::orders::Order;
use crate::state::PlayerType;

verus! {

/// An embargo against one player, or its end.
pub struct EmbargoExecution {
    pub player_small_id: u16,
    pub target_id: String,
    pub action_start: bool,
    pub active: bool,
}

impl EmbargoExecution {
    /// What the execution was created with.
    pub open spec fn order(&self) -> Order {
        Order::Embargo { player: self.player_small_id, target: self.target_id@, start: self.action_start }
    }

    pub fn new(player_small_id: u16, target_id: String, action_start: bool) -> (execution: Self)
        ensures
            execution.player_small_id == player_small_id,
            execution.target_id == target_id,
            execution.action_start == action_start,
            execution.active,
    {
        EmbargoExecution { player_small_id, target_id, action_start, active: true }
    }
}

/// An embargo against everyone, or its end.
pub struct EmbargoAllExecution {
    pub player_small_id: u16,
    pub action_start: bool,
}

impl EmbargoAllExecution {
    /// What the execution was created with.
    pub open spec fn order(&self) -> Order {
        Order::EmbargoAll { player: self.player_small_id, start: self.action_start }
    }

    pub fn new(player_small_id: u16, action_start: bool) -> (execution: Self)
        ensures
            execution.player_small_id == player_small_id,
            execution.action_start == action_start,
    {
        EmbargoAllExecution { player_small_id, action_start }
    }
}

impl Execution for EmbargoExecution {
    open spec fn ready(&self, game: GameView) -> bool {
        true
    }

    open spec fn begun(&self, game: GameView, tick: u32) -> GameView {
        game
    }

    open spec fn ticked(&self, game: GameView, tick: u32) -> GameView {
        match game.known(self.target_id@) {
            Some(target) => if !self.active {
                game
            } else if self.action_start {
                game.embargoing(self.player_small_id, target, false, tick)
            } else {
                game.unembargoing(self.player_small_id, target)
            },
            None => game,
        }
    }

    open spec fn begun_as(&self, game: GameView, tick: u32, next: Self) -> bool {
        next == (EmbargoExecution {
            active: self.active && game.known(self.target_id@) is Some,
            ..*self
        })
    }

    open spec fn ticked_as(&self, game: GameView, tick: u32, next: Self) -> bool {
        next == (EmbargoExecution { active: false, ..*self })
    }

    open spec fn going(&self) -> bool {
        self.active
    }

    fn init(&mut self, game: &mut Game, tick: u32) {
        if !game.has_player(&self.target_id) {
            self.active = false;
        }
    }

    fn tick(&mut self, game: &mut Game, tick: u32) {
        if !self.active {
            return;
        }
        match game.small_id_of(&self.target_id) {
            Some(target) => {
                if self.action_start {
                    game.add_embargo(self.player_small_id, target, false, tick);
                } else {
                    game.stop_embargo(self.player_small_id, target);
                }
            },
            None => {},
        }
        self.active = false;
    }

    fn is_active(&self) -> (active: bool) {
        self.active
    }
}

impl GameView {
    /// Players that an embargo against everybody is meant for: neither bots nor one's team.
    pub open spec fn outsider(self, sid: u16) -> spec_fn(u16) -> bool {
        |id: u16|
            id != sid && !self.of_type(id, PlayerType::Bot) && !self.on_same_team(sid, id)
    }

    /// The game after a player laid an embargo on each of `others` that it had none against,
    /// or lifted those that it had.
    pub open spec fn embargoing_all(self, sid: u16, others: Seq<u16>, start: bool, tick: u32) -> GameView
        decreases others.len(),
    {
        if others.len() == 0 {
            self
        } else {
            let before = self.embargoing_all(sid, others.drop_last(), start, tick);
            if before.embargoed(sid, others.last()) == start {
                before
            } else if start {
                before.embargoing(sid, others.last(), false, tick)
            } else {
                before.unembargoing(sid, others.last())
            }
        }
    }
}

impl Execution for EmbargoAllExecution {
    open spec fn ready(&self, game: GameView) -> bool {
        true
    }

    open spec fn begun(&self, game: GameView, tick: u32) -> GameView {
        if game.may_embargo_all(self.player_small_id) {
            game.embargoing_all(
                self.player_small_id,
                game.ids().filter(game.outsider(self.player_small_id)),
                self.action_start,
                tick,
            ).noting_embargo_all(self.player_small_id)
        } else {
            game
        }
    }

    open spec fn ticked(&self, game: GameView, tick: u32) -> GameView {
        game
    }

    open spec fn begun_as(&self, game: GameView, tick: u32, next: Self) -> bool {
        next == *self
    }

    open spec fn ticked_as(&self, game: GameView, tick: u32, next: Self) -> bool {
        next == *self
    }

    open spec fn going(&self) -> bool {
        false
    }

    fn init(&mut self, game: &mut Game, tick: u32) {
        let me: u16 = self.player_small_id;
        let start: bool = self.action_start;
        if !game.can_embargo_all(me) {
            return;
        }
        let game_now: &Game = game;
        let ids = game_now.player_ids();
        let accepts = |id: u16| -> (outside: bool)
            ensures
                outside == game_now@.outsider(me)(id),
            {
                id != me && !game_now.is_of_type(id, PlayerType::Bot)
                    && !game_now.players_on_same_team(me, id)
            };
        let others = crate::lists::filter_by(&ids, accepts, Ghost(game_now@.outsider(me)));
        let ghost before = game@;
        assert(others@.take(0) =~= Seq::empty());
        for i in 0..others.len()
            invariant
                game.wf(),
                game@ == before.embargoing_all(me, others@.take(i as int), start, tick),
        {
            assert(others@.take(i + 1).drop_last() =~= others@.take(i as int));
            let other: u16 = others[i];
            let held: bool = game.has_embargo_against(me, other);
            if start && !held {
                game.add_embargo(me, other, false, tick);
            } else if !start && held {
                game.stop_embargo(me, other);
            }
        }
        proof {
            crate::lists::lemma_take_all(others@);
        }
        game.record_embargo_all(me);
    }

    fn tick(&mut self, game: &mut Game, tick: u32) {
    }

    fn is_active(&self) -> (active: bool) {
        false
    }
}

} // verus!
