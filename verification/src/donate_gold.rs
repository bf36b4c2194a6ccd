//! Giving gold away.

use vstd::prelude::*;

use crate::config::{Difficulty, MAX_GOLD};
use crate::execution::Execution;
use crate::game::{Game, GameView};
use crate::orders::Order;

verus! {

/// Gold for another player.
pub struct DonateGoldExecution {
    pub sender_small_id: u16,
    pub recipient_id: String,
    pub gold: Option<i64>,
    pub active: bool,
    pub initialized: bool,
}

impl DonateGoldExecution {
    /// What the execution was created with.
    pub open spec fn order(&self) -> Order {
        Order::DonateGold {
            sender: self.sender_small_id,
            recipient: self.recipient_id@,
            gold: match self.gold {
                Some(n) => Some(n as int),
                None => None,
            },
        }
    }

    pub fn new(sender_small_id: u16, recipient_id: String, gold: Option<i64>) -> (execution: Self)
        ensures
            execution.sender_small_id == sender_small_id,
            execution.recipient_id == recipient_id,
            execution.gold == gold,
            execution.active,
            !execution.initialized,
    {
        DonateGoldExecution { sender_small_id, recipient_id, gold, active: true, initialized: false }
    }
}

/// The gold that counts for five points of a relation at the start of a game.
pub open spec fn chunk_size(difficulty: Difficulty) -> int {
    match difficulty {
        Difficulty::Easy => 2_500,
        Difficulty::Hard => 12_500,
        Difficulty::Impossible => 25_000,
        _ => 5_000,
    }
}

impl GameView {
    /// The gold that counts for five points of a relation at a tick: it grows with the game,
    /// by a chunk in every three thousand ticks and the spawn phase, rounded.
    pub open spec fn grown_chunk(self, tick: u32) -> int {
        let period = 3000 + self.config.num_spawn_phase_turns;
        (2 * chunk_size(self.config.difficulty) * (period + tick) + period) / (2 * period)
    }

    /// How much better a player thinks of one that gave it gold, in 32 bits.
    pub open spec fn gratitude(self, gold: int, tick: u32) -> i32 {
        let points = (gold / self.grown_chunk(tick) * 5) as i32;
        if points < 100 {
            points
        } else {
            100
        }
    }

    /// The game after a player gave another gold.
    pub open spec fn giving_gold(self, from: u16, to: u16, amount: int, tick: u32) -> GameView {
        let given = self.payable(from, amount);
        let paid = self.enriching(from, -given);
        if given > 0 {
            let done = paid.enriching(to, given);
            let points = done.gratitude(given, tick);
            if points > 0 {
                done.relating(to, from, points as int)
            } else {
                done
            }
        } else {
            paid
        }
    }
}

/// How much better a player thinks of one that gave it gold.
pub fn calculate_relation_update(game: &Game, gold_sent: i64, tick: u32) -> (points: i32)
    requires
        game@.wf(),
        0 <= gold_sent,
    ensures
        points == game@.gratitude(gold_sent as int, tick),
        points <= 100,
{
    let chunk: i64 = match game.wire.difficulty {
        Difficulty::Easy => 2_500,
        Difficulty::Hard => 12_500,
        Difficulty::Impossible => 25_000,
        _ => 5_000,
    };
    let period: i64 = 3000 + game.wire.num_spawn_phase_turns as i64;
    assert(0 <= 2 * chunk * (period + tick) <= 50_000 * (1_003_000 + 0xffff_ffff)) by (
    nonlinear_arith)
        requires
            0 <= chunk <= 25_000,
            0 <= period <= 1_003_000,
            0 <= tick <= 0xffff_ffff,
    ;
    let grown: i64 = (2 * chunk * (period + tick as i64) + period) / (2 * period);
    assert(2 * chunk * (period + tick) + period >= 2500 * (2 * period)) by (nonlinear_arith)
        requires
            chunk >= 2500,
            period >= 0,
            tick >= 0,
    ;
    assert(grown >= 2500) by (nonlinear_arith)
        requires
            period >= 3000,
            2 * chunk * (period + tick) + period >= 2500 * (2 * period),
            grown == (2 * chunk * (period + tick) + period) / (2 * period),
    ;
    assert(0 <= gold_sent as int / grown as int <= gold_sent as int / 2500) by (nonlinear_arith)
        requires
            gold_sent >= 0,
            grown >= 2500,
    ;
    let chunks: i64 = gold_sent / grown;
    let points: i32 = #[verifier::truncate] ((chunks * 5) as i32);
    if points < 100 {
        points
    } else {
        100
    }
}

impl DonateGoldExecution {
    /// The execution after it began: where no amount was asked for, a third of the giver's
    /// gold is given.
    pub open spec fn first(&self, game: GameView) -> DonateGoldExecution {
        if !self.active || self.initialized {
            *self
        } else if game.known(self.recipient_id@) is None {
            DonateGoldExecution { initialized: true, active: false, ..*self }
        } else {
            DonateGoldExecution {
                initialized: true,
                gold: Some(
                    match self.gold {
                        Some(gold) => gold,
                        None => (game.gold(self.sender_small_id) / 3) as i64,
                    },
                ),
                ..*self
            }
        }
    }
}

impl Execution for DonateGoldExecution {
    open spec fn ready(&self, game: GameView) -> bool {
        true
    }

    open spec fn begun(&self, game: GameView, tick: u32) -> GameView {
        game
    }

    open spec fn ticked(&self, game: GameView, tick: u32) -> GameView {
        match game.known(self.recipient_id@) {
            Some(to) => if self.active && self.initialized && game.may_donate_gold(
                self.sender_small_id,
                to,
            ) {
                game.giving_gold(
                    self.sender_small_id,
                    to,
                    match self.gold {
                        Some(gold) => gold as int,
                        None => 0,
                    },
                    tick,
                )
            } else {
                game
            },
            None => game,
        }
    }

    open spec fn begun_as(&self, game: GameView, tick: u32, next: Self) -> bool {
        next == self.first(game)
    }

    open spec fn ticked_as(&self, game: GameView, tick: u32, next: Self) -> bool {
        next == (DonateGoldExecution {
            active: self.active && !self.initialized,
            ..*self
        })
    }

    open spec fn going(&self) -> bool {
        self.active
    }

    fn init(&mut self, game: &mut Game, tick: u32) {
        if !self.active || self.initialized {
            return;
        }
        self.initialized = true;
        if game.small_id_of(&self.recipient_id).is_none() {
            self.active = false;
            return;
        }
        if self.gold.is_none() {
            self.gold = Some(game.gold_of(self.sender_small_id) / 3);
        }
    }

    fn tick(&mut self, game: &mut Game, tick: u32) {
        if !self.active || !self.initialized {
            return;
        }
        self.active = false;
        let gold: i64 = match self.gold {
            Some(gold) => gold,
            None => 0,
        };
        let to: u16 = match game.small_id_of(&self.recipient_id) {
            Some(to) => to,
            None => return,
        };
        if !game.can_donate_gold(self.sender_small_id, to) {
            return;
        }
        let given: i64 = game.remove_gold(self.sender_small_id, gold);
        if given <= 0 {
            return;
        }
        game.add_gold(to, given);
        let points: i32 = calculate_relation_update(game, given, tick);
        if points > 0 {
            game.update_relation(to, self.sender_small_id, points);
        }
    }

    fn is_active(&self) -> (active: bool) {
        self.active
    }
}

/// Gold that is given changes hands: none is made and, as far as the recipient can hold it,
/// none is lost.
pub proof fn law_given_gold(game: GameView, from: u16, to: u16, amount: int, tick: u32)
    requires
        game.wf(),
        game.has(from),
        game.has(to),
        from != to,
        game.gold(to) + game.payable(from, amount) <= MAX_GOLD,
    ensures
        game.giving_gold(from, to, amount, tick).gold(from) == game.gold(from) - game.payable(
            from,
            amount,
        ),
        game.giving_gold(from, to, amount, tick).gold(to) == game.gold(to) + game.payable(
            from,
            amount,
        ),
{
    assert(game.players[from - 1].wf());
    assert(game.players[to - 1].wf());
}

} // verus!
